use jvm_fields::{Baload, Drem, Dsub, Dup, Fastore, Instruction, InstructionInfo, I2S};

#[test]
fn baload_reports_its_byte_and_advances_by_one() {
    let codes = [0x00u8, 0x33, 0x59];
    let (info, next) = Baload.run(&codes, 1);
    assert_eq!(info, InstructionInfo { name: "baload", code: 0x33, icp: 0 });
    assert_eq!(next, 2);
}

#[test]
fn each_decoder_names_its_own_instruction() {
    let codes = [0x73u8, 0x67, 0x59, 0x51, 0x93];
    assert_eq!(Drem.run(&codes, 0), (InstructionInfo { name: "drem", code: 0x73, icp: 0 }, 1));
    assert_eq!(Dsub.run(&codes, 1), (InstructionInfo { name: "dsub", code: 0x67, icp: 0 }, 2));
    assert_eq!(Dup.run(&codes, 2), (InstructionInfo { name: "dup", code: 0x59, icp: 0 }, 3));
    assert_eq!(Fastore.run(&codes, 3), (InstructionInfo { name: "fastore", code: 0x51, icp: 0 }, 4));
    assert_eq!(I2S.run(&codes, 4), (InstructionInfo { name: "i2s", code: 0x93, icp: 0 }, 5));
}

#[test]
fn a_decoder_copies_the_byte_it_finds() {
    let codes = [0xffu8];
    let (info, next) = Dup.run(&codes, 0);
    assert_eq!(info.name, "dup");
    assert_eq!(info.code, 0xff);
    assert_eq!(next, 1);
}
