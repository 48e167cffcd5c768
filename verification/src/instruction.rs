//! Decoders for instructions that have no operands.

use vstd::prelude::*;

verus! {

/// What a decoder reports of one instruction.
#[derive(Clone, Copy, Debug, PartialEq, Eq)]
pub struct InstructionInfo {
    /// The mnemonic of the instruction.
    pub name: &'static str,
    /// The opcode byte as it stands in the code array.
    pub code: u8,
    /// The constant-pool index that the instruction names; zero where it names none.
    pub icp: usize,
}

/// A decoder for one kind of instruction.
pub trait Instruction {
    /// The mnemonic of the instructions that this decoder reads.
    spec fn mnemonic(&self) -> Seq<char>;

    /// Reads the instruction at `pc` and says where the next one starts.
    fn run(&self, codes: &[u8], pc: usize) -> (r: (InstructionInfo, usize))
        requires
            pc < codes@.len(),
        ensures
            r.0.name@ == self.mnemonic(),
            r.0.code == codes@[pc as int],
            r.0.icp == 0,
            r.1 == pc + 1,
    ;
}

/// `baload`: loads a byte or a boolean from an array. It has no operand bytes.
pub struct Baload;

impl Instruction for Baload {
    open spec fn mnemonic(&self) -> Seq<char> {
        "baload"@
    }

    fn run(&self, codes: &[u8], pc: usize) -> (r: (InstructionInfo, usize)) {
        let info = InstructionInfo { name: "baload", code: codes[pc], icp: 0 };
        (info, pc + 1)
    }
}

/// `drem`: takes the remainder of two doubles. It has no operand bytes.
pub struct Drem;

impl Instruction for Drem {
    open spec fn mnemonic(&self) -> Seq<char> {
        "drem"@
    }

    fn run(&self, codes: &[u8], pc: usize) -> (r: (InstructionInfo, usize)) {
        let info = InstructionInfo { name: "drem", code: codes[pc], icp: 0 };
        (info, pc + 1)
    }
}

/// `dsub`: subtracts two doubles. It has no operand bytes.
pub struct Dsub;

impl Instruction for Dsub {
    open spec fn mnemonic(&self) -> Seq<char> {
        "dsub"@
    }

    fn run(&self, codes: &[u8], pc: usize) -> (r: (InstructionInfo, usize)) {
        let info = InstructionInfo { name: "dsub", code: codes[pc], icp: 0 };
        (info, pc + 1)
    }
}

/// `dup`: duplicates the top of the operand stack. It has no operand bytes.
pub struct Dup;

impl Instruction for Dup {
    open spec fn mnemonic(&self) -> Seq<char> {
        "dup"@
    }

    fn run(&self, codes: &[u8], pc: usize) -> (r: (InstructionInfo, usize)) {
        let info = InstructionInfo { name: "dup", code: codes[pc], icp: 0 };
        (info, pc + 1)
    }
}

/// `fastore`: stores a float into an array. It has no operand bytes.
pub struct Fastore;

impl Instruction for Fastore {
    open spec fn mnemonic(&self) -> Seq<char> {
        "fastore"@
    }

    fn run(&self, codes: &[u8], pc: usize) -> (r: (InstructionInfo, usize)) {
        let info = InstructionInfo { name: "fastore", code: codes[pc], icp: 0 };
        (info, pc + 1)
    }
}

/// `i2s`: narrows an int to a short. It has no operand bytes.
pub struct I2S;

impl Instruction for I2S {
    open spec fn mnemonic(&self) -> Seq<char> {
        "i2s"@
    }

    fn run(&self, codes: &[u8], pc: usize) -> (r: (InstructionInfo, usize)) {
        let info = InstructionInfo { name: "i2s", code: codes[pc], icp: 0 };
        (info, pc + 1)
    }
}

} // verus!
