//! The loaded classes as values: what a class declares, and what holds of
//! a table of classes that is laid out properly.

use vstd::prelude::*;
use crate::error::LinkageError;
use crate::field::{
    first_static_value, has_flag, ClassId, FieldId, FieldIdView, FieldView, ACC_STATIC,
};
use crate::oop::{views, Oop, OopView};
use crate::value_type::{kind_of_descriptor, ValueType};

verus! {

/// How far a class has come on its way to use.
#[derive(Clone, Copy, Debug, PartialEq, Eq, Structural)]
pub enum ClassState {
    /// Defined; its static slots do not exist yet.
    Loaded,
    /// Prepared: the static slots exist and hold their first values.
    Linked,
    /// The class initializer has been asked for and has not reported back.
    BeingInitialized,
    /// The class initializer has run to its end.
    Initialized,
    /// The class initializer failed; the class stays unusable.
    InitializationFailed,
}

/// The field layout of a class that has instances.
#[derive(PartialEq, Eq)]
pub struct InstanceClass {
    /// The instance fields that this class declares, in declaration order.
    pub inst_fields: Vec<FieldId>,
    /// The static fields that this class declares, in declaration order.
    pub static_fields: Vec<FieldId>,
    /// The number of slots of an instance: the inherited ones and the declared ones.
    pub n_inst_fields: usize,
    /// One slot for each declared static field, once the class is prepared.
    pub static_values: Vec<Oop>,
}

/// What sort of class a table entry is. Only instance classes lay out fields.
#[derive(PartialEq, Eq)]
pub enum ClassKind {
    Instance(InstanceClass),
    Array,
    Primitive(ValueType),
}

/// A loaded class.
#[derive(PartialEq, Eq)]
pub struct Class {
    pub name: Vec<u8>,
    pub kind: ClassKind,
    /// The superclass, by its handle; `None` for a root class.
    pub super_class: Option<ClassId>,
    /// The interfaces that the class implements directly, by their handles,
    /// in the order in which it names them.
    pub interfaces: Vec<ClassId>,
    pub state: ClassState,
}

/// The views of a list of field identifiers.
pub open spec fn field_id_views(ids: Seq<FieldId>) -> Seq<FieldIdView> {
    Seq::new(ids.len(), |k: int| ids[k]@)
}

/// The instance fields that a class declares; none for a class without instances.
pub open spec fn inst_fields_of(class: Class) -> Seq<FieldIdView> {
    match class.kind {
        ClassKind::Instance(ic) => field_id_views(ic.inst_fields@),
        _ => Seq::empty(),
    }
}

/// The static fields that a class declares; none for a class without instances.
pub open spec fn static_fields_of(class: Class) -> Seq<FieldIdView> {
    match class.kind {
        ClassKind::Instance(ic) => field_id_views(ic.static_fields@),
        _ => Seq::empty(),
    }
}

/// The static slots of a class as they stand.
pub open spec fn static_values_of(class: Class) -> Seq<OopView> {
    match class.kind {
        ClassKind::Instance(ic) => views(ic.static_values@),
        _ => Seq::empty(),
    }
}

/// The number of slots in an instance of class `c`, inherited slots
/// included; zero for a class that has no instances.
pub open spec fn slots_of(cs: Seq<Class>, c: int) -> int {
    if 0 <= c < cs.len() {
        match cs[c].kind {
            ClassKind::Instance(ic) => ic.n_inst_fields as int,
            _ => 0,
        }
    } else {
        0
    }
}

/// The number of slots that class `c` inherits: those of its superclass.
pub open spec fn base_of(cs: Seq<Class>, c: int) -> int {
    match cs[c].super_class {
        Some(s) => slots_of(cs, s as int),
        None => 0,
    }
}

/// What holds of every field that the class `class`, named `cls_name`,
/// declares: it names that class, and its kind is the one its descriptor
/// announces, which is not `Void`.
pub open spec fn placed_in(f: FieldView, cls_name: Seq<u8>, class: int) -> bool {
    &&& f.class == class
    &&& f.cls_name == cls_name
    &&& kind_of_descriptor(f.desc) == Ok::<ValueType, LinkageError>(f.value_type)
    &&& f.value_type != ValueType::Void
}

/// Whether every handle of a list is smaller than `bound`.
pub open spec fn all_below(ids: Seq<ClassId>, bound: int) -> bool {
    forall|k: int| 0 <= k < ids.len() ==> (#[trigger] ids[k]) < bound
}

/// Whether a field is one that class `c` of the table may declare.
pub open spec fn declared_by(cs: Seq<Class>, c: int, f: FieldView) -> bool {
    placed_in(f, cs[c].name@, c)
}

/// Whether class `c` of the table is laid out as the table demands.
///
/// Its superclass, if it has one, precedes it and has instances, and its
/// interfaces precede it too. Its `k`-th
/// declared instance field sits right after the inherited slots, at offset
/// `base + k`; its `k`-th static field at offset `k`. The slot count is the
/// inherited count plus the declared one. The static slots are missing
/// before preparation and complete after it.
pub open spec fn class_well_formed(cs: Seq<Class>, c: int) -> bool {
    &&& match cs[c].super_class {
        Some(s) => s < c && cs[s as int].kind is Instance,
        None => true,
    }
    &&& all_below(cs[c].interfaces@, c)
    &&& cs[c].kind is Instance ==> {
        &&& slots_of(cs, c) == base_of(cs, c) + inst_fields_of(cs[c]).len()
        &&& forall|k: int|
            0 <= k < inst_fields_of(cs[c]).len() ==> {
                &&& (#[trigger] inst_fields_of(cs[c])[k]).offset == base_of(cs, c) + k
                &&& declared_by(cs, c, inst_fields_of(cs[c])[k].field)
                &&& !has_flag(inst_fields_of(cs[c])[k].field.acc_flags, ACC_STATIC)
            }
        &&& forall|k: int|
            0 <= k < static_fields_of(cs[c]).len() ==> {
                &&& (#[trigger] static_fields_of(cs[c])[k]).offset == k
                &&& declared_by(cs, c, static_fields_of(cs[c])[k].field)
                &&& has_flag(static_fields_of(cs[c])[k].field.acc_flags, ACC_STATIC)
            }
        &&& static_values_of(cs[c]).len() == if cs[c].state is Loaded {
            0
        } else {
            static_fields_of(cs[c]).len()
        }
    }
}

/// Whether every class of the table is laid out as the table demands.
pub open spec fn well_formed(cs: Seq<Class>) -> bool {
    forall|c: int| 0 <= c < cs.len() ==> class_well_formed(cs, c)
}

/// Whether two classes are declared alike: same name, same superclass, same
/// interfaces, same field tables. Their states and the contents of their static slots may differ.
pub open spec fn same_declaration(a: Class, b: Class) -> bool {
    &&& a.name@ == b.name@
    &&& a.super_class == b.super_class
    &&& a.interfaces@ == b.interfaces@
    &&& match (a.kind, b.kind) {
        (ClassKind::Instance(x), ClassKind::Instance(y)) => {
            &&& field_id_views(x.inst_fields@) == field_id_views(y.inst_fields@)
            &&& field_id_views(x.static_fields@) == field_id_views(y.static_fields@)
            &&& x.n_inst_fields == y.n_inst_fields
        },
        (ClassKind::Array, ClassKind::Array) => true,
        (ClassKind::Primitive(p), ClassKind::Primitive(q)) => p == q,
        _ => false,
    }
}

/// Whether two tables hold the same classes, declared alike, under the same handles.
pub open spec fn same_declarations(a: Seq<Class>, b: Seq<Class>) -> bool {
    &&& a.len() == b.len()
    &&& forall|c: int| 0 <= c < a.len() ==> same_declaration(#[trigger] a[c], b[c])
}

/// The smallest handle at or after `start` whose class has the given name.
pub open spec fn class_named_from(cs: Seq<Class>, name: Seq<u8>, start: int) -> Option<int>
    decreases cs.len() - start,
{
    if start < 0 || start >= cs.len() {
        None
    } else if cs[start].name@ == name {
        Some(start)
    } else {
        class_named_from(cs, name, start + 1)
    }
}

/// The smallest handle whose class has the given name.
pub open spec fn class_named(cs: Seq<Class>, name: Seq<u8>) -> Option<int> {
    class_named_from(cs, name, 0)
}

/// The first values of a class's static slots: one for each static field, in order.
pub open spec fn seeded(fields: Seq<FieldIdView>) -> Seq<OopView> {
    Seq::new(fields.len(), |k: int| first_static_value(fields[k].field))
}

/// Whether a table differs from another in the class under `id` at most.
pub open spec fn changed_at_most(before: Seq<Class>, after: Seq<Class>, id: int) -> bool {
    &&& after.len() == before.len()
    &&& forall|j: int| 0 <= j < before.len() && j != id ==> #[trigger] after[j] == before[j]
}

/// What a class looks like once it has been asked to prepare: a loaded
/// class is now linked, and its static slots hold their first values; any
/// other class is as it was.
pub open spec fn prepared(before: Class, after: Class) -> bool {
    if before.state is Loaded {
        &&& same_declaration(before, after)
        &&& after.state is Linked
        &&& static_values_of(after) == seeded(static_fields_of(before))
    } else {
        after == before
    }
}

/// Preparing twice is preparing once: a class that has been asked to
/// prepare is not changed by being asked again.
pub proof fn lemma_preparation_is_idempotent(before: Class, once: Class, twice: Class)
    requires
        prepared(before, once),
        prepared(once, twice),
    ensures
        twice == once,
{
}

/// What a class looks like once its initializer has been asked for: a class
/// that was loaded or linked is now being initialized, prepared on the way
/// if it was not yet; any other class is as it was.
pub open spec fn initializer_asked(before: Class, after: Class) -> bool {
    match before.state {
        ClassState::Loaded => {
            &&& same_declaration(before, after)
            &&& after.state is BeingInitialized
            &&& static_values_of(after) == seeded(static_fields_of(before))
        },
        ClassState::Linked => {
            &&& same_declaration(before, after)
            &&& after.state is BeingInitialized
            &&& static_values_of(after) == static_values_of(before)
        },
        _ => after == before,
    }
}

/// What a class looks like once its initializer has reported back: a class
/// that was being initialized is now initialized, or failed for good; any
/// other class is as it was.
pub open spec fn initializer_finished(before: Class, after: Class, succeeded: bool) -> bool {
    if before.state is BeingInitialized {
        &&& same_declaration(before, after)
        &&& after.state == if succeeded {
            ClassState::Initialized
        } else {
            ClassState::InitializationFailed
        }
        &&& static_values_of(after) == static_values_of(before)
    } else {
        after == before
    }
}

/// The value in a static slot, if the class has that slot.
pub open spec fn static_slot(cs: Seq<Class>, id: int, offset: int) -> Option<OopView> {
    if 0 <= id < cs.len() && 0 <= offset < static_values_of(cs[id]).len() {
        Some(static_values_of(cs[id])[offset])
    } else {
        None
    }
}

} // verus!
