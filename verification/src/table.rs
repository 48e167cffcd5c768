//! The table of loaded classes: defining classes, preparing and
//! initializing them, and reading and writing their static slots.

use vstd::prelude::*;
use crate::bytes::bytes_equal;
use crate::class::{
    all_below, base_of, changed_at_most, class_named, class_named_from, class_well_formed, declared_by,
    field_id_views, initializer_asked, initializer_finished, inst_fields_of, prepared,
    same_declaration, seeded, slots_of, static_fields_of, static_slot, static_values_of,
    well_formed, Class, ClassKind, ClassState, InstanceClass,
};
use crate::constant_pool::ConstantPool;
use crate::error::LinkageError;
use crate::field::{first_static_value, has_flag, ClassId, FieldId, FieldInfo, ACC_STATIC};
use crate::layout::{defined_as, definition, lay_out, lemma_layout_is_orderly, orderly, Layout};
use crate::oop::{option_view, views, Oop};
use crate::value_type::ValueType;

verus! {

/// The loaded classes, each under its handle. A class refers to its
/// superclass, and a field to its class, by handle; a superclass always has
/// a smaller handle than its subclasses.
pub struct ClassTable {
    classes: Vec<Class>,
}

impl View for ClassTable {
    type V = Seq<Class>;

    closed spec fn view(&self) -> Seq<Class> {
        self.classes@
    }
}

/// A table stays well formed when a well-formed class is put at its end.
proof fn lemma_push_keeps_well_formed(cs: Seq<Class>, class: Class)
    requires
        well_formed(cs),
        class_well_formed(cs.push(class), cs.len() as int),
    ensures
        well_formed(cs.push(class)),
{
    let next = cs.push(class);
    assert forall|c: int| 0 <= c < next.len() implies class_well_formed(next, c) by {
        if c < cs.len() {
            assert(class_well_formed(cs, c));
            assert(next[c] == cs[c]);
            assert(base_of(next, c) == base_of(cs, c));
        }
    }
}

/// A table stays well formed when one class changes its state and the
/// contents of its static slots, as long as the slots stay as many as the
/// state demands.
proof fn lemma_update_keeps_well_formed(before: Seq<Class>, after: Seq<Class>, id: int)
    requires
        well_formed(before),
        0 <= id < before.len(),
        changed_at_most(before, after, id),
        same_declaration(before[id], after[id]),
        after[id].kind is Instance ==> static_values_of(after[id]).len() == if after[id].state
            is Loaded {
            0
        } else {
            static_fields_of(after[id]).len()
        },
    ensures
        well_formed(after),
{
    assert forall|c: int| 0 <= c < after.len() implies class_well_formed(after, c) by {
        assert(class_well_formed(before, c));
        assert(same_declaration(before[c], after[c]));
        assert(inst_fields_of(after[c]) == inst_fields_of(before[c]));
        assert(static_fields_of(after[c]) == static_fields_of(before[c]));
        assert(slots_of(after, c) == slots_of(before, c));
        match before[c].super_class {
            Some(s) => {
                assert(same_declaration(before[s as int], after[s as int]));
                assert(slots_of(after, s as int) == slots_of(before, s as int));
            },
            None => {},
        }
        assert(base_of(after, c) == base_of(before, c));
        if after[c].kind is Instance {
            assert forall|k: int| 0 <= k < inst_fields_of(after[c]).len() implies {
                &&& (#[trigger] inst_fields_of(after[c])[k]).offset == base_of(after, c) + k
                &&& declared_by(after, c, inst_fields_of(after[c])[k].field)
                &&& !has_flag(inst_fields_of(after[c])[k].field.acc_flags, ACC_STATIC)
            } by {
                assert(declared_by(before, c, inst_fields_of(before[c])[k].field));
            }
            assert forall|k: int| 0 <= k < static_fields_of(after[c]).len() implies {
                &&& (#[trigger] static_fields_of(after[c])[k]).offset == k
                &&& declared_by(after, c, static_fields_of(after[c])[k].field)
                &&& has_flag(static_fields_of(after[c])[k].field.acc_flags, ACC_STATIC)
            } by {
                assert(declared_by(before, c, static_fields_of(before[c])[k].field));
            }
        }
    }
}

/// Whether every handle of a list is smaller than `bound`.
pub fn handles_below(ids: &Vec<ClassId>, bound: usize) -> (r: bool)
    ensures
        r == all_below(ids@, bound as int),
{
    let mut k: usize = 0;
    while k < ids.len()
        invariant
            k <= ids@.len(),
            forall|j: int| 0 <= j < k ==> (#[trigger] ids@[j]) < bound,
        decreases ids@.len() - k,
    {
        if ids[k] >= bound {
            return false;
        }
        k += 1;
    }
    true
}

/// The first values of the static slots of a class with these static fields.
pub fn seed_statics(fields: &Vec<FieldId>) -> (r: Vec<Oop>)
    ensures
        views(r@) == seeded(field_id_views(fields@)),
{
    let mut values: Vec<Oop> = Vec::new();
    let mut k: usize = 0;
    while k < fields.len()
        invariant
            k <= fields@.len(),
            values@.len() == k,
            forall|j: int|
                0 <= j < k ==> (#[trigger] values@[j])@ == first_static_value(
                    fields@[j].field@,
                ),
        decreases fields@.len() - k,
    {
        values.push(fields[k].field.first_static_value());
        k += 1;
    }
    assert(views(values@) =~= seeded(field_id_views(fields@)));
    values
}

impl ClassTable {
    /// What the table keeps true of itself at all times.
    #[verifier::type_invariant]
    pub open spec fn wf(&self) -> bool {
        well_formed(self@)
    }

    /// A table without classes.
    pub fn new() -> (r: ClassTable)
        ensures
            r@ == Seq::<Class>::empty(),
    {
        ClassTable { classes: Vec::new() }
    }

    /// The number of classes, which is also the next free handle.
    pub fn len(&self) -> (r: usize)
        ensures
            r == self@.len(),
    {
        self.classes.len()
    }

    /// The class under a handle, or `None` where the handle names none.
    pub fn get(&self, id: ClassId) -> (r: Option<&Class>)
        ensures
            r == if id < self@.len() {
                Some(&self@[id as int])
            } else {
                None
            },
    {
        if id < self.classes.len() {
            Some(&self.classes[id])
        } else {
            None
        }
    }

    /// The class under a handle that names one.
    pub(crate) fn class(&self, id: ClassId) -> (r: &Class)
        requires
            id < self@.len(),
        ensures
            *r == self@[id as int],
    {
        &self.classes[id]
    }

    /// The state of the class under a handle.
    pub fn state(&self, id: ClassId) -> (r: Option<ClassState>)
        ensures
            r == if id < self@.len() {
                Some(self@[id as int].state)
            } else {
                None
            },
    {
        if id < self.classes.len() {
            Some(self.classes[id].state)
        } else {
            None
        }
    }

    /// The number of slots in an instance of the class under a handle; zero
    /// where the handle names no class with instances.
    pub fn instance_slots(&self, id: ClassId) -> (r: usize)
        ensures
            r == slots_of(self@, id as int),
    {
        if id < self.classes.len() {
            match &self.classes[id].kind {
                ClassKind::Instance(ic) => ic.n_inst_fields,
                _ => 0,
            }
        } else {
            0
        }
    }

    /// Defines a class with instances, or an interface: links its declared
    /// fields against the pool, parts them into static and instance fields,
    /// and gives each its slot. The new class gets the next free handle.
    ///
    /// The slots of its instances must be countable: the inherited slots and
    /// the declared fields together may not exceed `usize::MAX`.
    pub fn define_class(
        &mut self,
        name: Vec<u8>,
        super_class: Option<ClassId>,
        interfaces: Vec<ClassId>,
        cp: &ConstantPool,
        fields: &Vec<FieldInfo>,
    ) -> (r: Result<ClassId, LinkageError>)
        requires
            match super_class {
                Some(s) => slots_of(old(self)@, s as int) + fields@.len() <= usize::MAX,
                None => true,
            },
        ensures
            match r {
                Ok(id) => {
                    &&& id == old(self)@.len()
                    &&& final(self)@.len() == id + 1
                    &&& final(self)@.subrange(0, id as int) == old(self)@
                    &&& definition(
                        old(self)@,
                        name@,
                        super_class,
                        interfaces@,
                        cp@,
                        fields@,
                    ) matches Ok(layout)
                    &&& defined_as(
                        final(self)@[id as int],
                        name@,
                        super_class,
                        interfaces@,
                        base_of(final(self)@, id as int),
                        layout,
                    )
                },
                Err(e) => {
                    &&& final(self)@ == old(self)@
                    &&& definition(
                        old(self)@,
                        name@,
                        super_class,
                        interfaces@,
                        cp@,
                        fields@,
                    ) == Err::<Layout, LinkageError>(e)
                },
            },
    {
        proof {
            use_type_invariant(&*self);
        }
        let id: usize = self.classes.len();
        let base: usize = match super_class {
            Some(s) => {
                if s >= self.classes.len() {
                    return Err(LinkageError::ClassNotFound);
                }
                match &self.classes[s].kind {
                    ClassKind::Instance(ic) => ic.n_inst_fields,
                    _ => {
                        return Err(LinkageError::IncompatibleClassChange);
                    },
                }
            },
            None => 0,
        };
        if !handles_below(&interfaces, id) {
            return Err(LinkageError::ClassNotFound);
        }
        proof {
            assert(base == match super_class {
                Some(s) => slots_of(self@, s as int),
                None => 0,
            });
            assert(fields@.len() == fields.len());
        }
        let (inst, stat) = lay_out(cp, fields, &name, id, base)?;
        proof {
            lemma_layout_is_orderly(
                cp@,
                fields@,
                name@,
                id as int,
                base as int,
                fields@.len() as int,
            );
            assert(inst@.len() == field_id_views(inst@).len());
        }
        let n_inst_fields = base + inst.len();
        let class = Class {
            name,
            kind: ClassKind::Instance(
                InstanceClass {
                    inst_fields: inst,
                    static_fields: stat,
                    n_inst_fields,
                    static_values: Vec::new(),
                },
            ),
            super_class,
            interfaces,
            state: ClassState::Loaded,
        };
        let mut classes: Vec<Class> = Vec::new();
        std::mem::swap(&mut classes, &mut self.classes);
        proof {
            let next = classes@.push(class);
            assert(base_of(next, id as int) == base);
            assert(orderly(
                Layout { inst: inst_fields_of(class), stat: static_fields_of(class) },
                name@,
                id as int,
                base as int,
            ));
            assert(class_well_formed(next, id as int));
            lemma_push_keeps_well_formed(classes@, class);
            assert(next.subrange(0, id as int) =~= classes@);
        }
        classes.push(class);
        self.classes = classes;
        Ok(id)
    }

    /// Defines an array class. Arrays lay out no fields of their own.
    pub fn define_array_class(&mut self, name: Vec<u8>, super_class: Option<ClassId>) -> (r: Result<
        ClassId,
        LinkageError,
    >)
        ensures
            match r {
                Ok(id) => {
                    &&& id == old(self)@.len()
                    &&& final(self)@.len() == id + 1
                    &&& final(self)@.subrange(0, id as int) == old(self)@
                    &&& final(self)@[id as int].name@ == name@
                    &&& final(self)@[id as int].super_class == super_class
                    &&& final(self)@[id as int].interfaces@.len() == 0
                    &&& final(self)@[id as int].kind is Array
                    &&& final(self)@[id as int].state is Loaded
                    &&& match super_class {
                        Some(s) => s < old(self)@.len() && old(self)@[s as int].kind is Instance,
                        None => true,
                    }
                },
                Err(e) => {
                    &&& final(self)@ == old(self)@
                    &&& super_class matches Some(s)
                    &&& if s >= old(self)@.len() {
                        e == LinkageError::ClassNotFound
                    } else {
                        e == LinkageError::IncompatibleClassChange && !(old(self)@[s as int].kind
                            is Instance)
                    }
                },
            },
    {
        proof {
            use_type_invariant(&*self);
        }
        let id: usize = self.classes.len();
        if let Some(s) = super_class {
            if s >= self.classes.len() {
                return Err(LinkageError::ClassNotFound);
            }
            match &self.classes[s].kind {
                ClassKind::Instance(_) => {},
                _ => {
                    return Err(LinkageError::IncompatibleClassChange);
                },
            }
        }
        let class = Class {
            name,
            kind: ClassKind::Array,
            super_class,
            interfaces: Vec::new(),
            state: ClassState::Loaded,
        };
        let mut classes: Vec<Class> = Vec::new();
        std::mem::swap(&mut classes, &mut self.classes);
        proof {
            lemma_push_keeps_well_formed(classes@, class);
            assert(classes@.push(class).subrange(0, id as int) =~= classes@);
        }
        classes.push(class);
        self.classes = classes;
        Ok(id)
    }

    /// Defines the class of a primitive type. It has no superclass and no fields.
    pub fn define_primitive_class(&mut self, name: Vec<u8>, value_type: ValueType) -> (id: ClassId)
        ensures
            id == old(self)@.len(),
            final(self)@.len() == id + 1,
            final(self)@.subrange(0, id as int) == old(self)@,
            final(self)@[id as int].name@ == name@,
            final(self)@[id as int].super_class is None,
            final(self)@[id as int].interfaces@.len() == 0,
            final(self)@[id as int].kind == ClassKind::Primitive(value_type),
            final(self)@[id as int].state is Loaded,
    {
        proof {
            use_type_invariant(&*self);
        }
        let id: usize = self.classes.len();
        let class = Class {
            name,
            kind: ClassKind::Primitive(value_type),
            super_class: None,
            interfaces: Vec::new(),
            state: ClassState::Loaded,
        };
        let mut classes: Vec<Class> = Vec::new();
        std::mem::swap(&mut classes, &mut self.classes);
        proof {
            lemma_push_keeps_well_formed(classes@, class);
            assert(classes@.push(class).subrange(0, id as int) =~= classes@);
        }
        classes.push(class);
        self.classes = classes;
        id
    }

    /// Prepares a class: a loaded class becomes linked, and each of its
    /// static slots gets its first value. On any other class, and on a
    /// handle that names none, this does nothing, however often it is asked.
    pub fn init_class(&mut self, id: ClassId)
        ensures
            changed_at_most(old(self)@, final(self)@, id as int),
            id < old(self)@.len() ==> prepared(old(self)@[id as int], final(self)@[id as int]),
    {
        proof {
            use_type_invariant(&*self);
        }
        if id >= self.classes.len() {
            return ;
        }
        if let ClassState::Loaded = self.classes[id].state {
        } else {
            return ;
        }
        let mut classes: Vec<Class> = Vec::new();
        std::mem::swap(&mut classes, &mut self.classes);
        let ghost before = classes@;
        let class = &mut classes[id];
        match &mut class.kind {
            ClassKind::Instance(ic) => {
                let values = seed_statics(&ic.static_fields);
                ic.static_values = values;
            },
            _ => {},
        }
        class.state = ClassState::Linked;
        proof {
            assert(class_well_formed(before, id as int));
            assert(same_declaration(before[id as int], classes@[id as int]));
            assert(classes@[id as int].state is Linked);
            assert(static_values_of(classes@[id as int]) == seeded(
                static_fields_of(before[id as int]),
            ));
            assert(seeded(static_fields_of(before[id as int])).len() == static_fields_of(
                before[id as int],
            ).len());
            lemma_update_keeps_well_formed(before, classes@, id as int);
        }
        self.classes = classes;
    }

    /// Asks for the initializer of a class. A class that is loaded or linked
    /// is prepared if need be and marked as being initialized; the result
    /// is then `true`, and the caller is to run the initializer and report
    /// how it ended. In every other case nothing changes and the result is
    /// `false`.
    pub fn init_class_fully(&mut self, id: ClassId) -> (run: bool)
        ensures
            changed_at_most(old(self)@, final(self)@, id as int),
            id < old(self)@.len() ==> initializer_asked(
                old(self)@[id as int],
                final(self)@[id as int],
            ),
            run == (id < old(self)@.len() && (old(self)@[id as int].state is Loaded || old(
                self,
            )@[id as int].state is Linked)),
    {
        self.init_class(id);
        proof {
            use_type_invariant(&*self);
        }
        if id >= self.classes.len() {
            return false;
        }
        if let ClassState::Linked = self.classes[id].state {
        } else {
            return false;
        }
        let mut classes: Vec<Class> = Vec::new();
        std::mem::swap(&mut classes, &mut self.classes);
        let ghost before = classes@;
        let class = &mut classes[id];
        class.state = ClassState::BeingInitialized;
        proof {
            assert(class_well_formed(before, id as int));
            assert(same_declaration(before[id as int], classes@[id as int]));
            lemma_update_keeps_well_formed(before, classes@, id as int);
        }
        self.classes = classes;
        true
    }

    /// Records how the initializer of a class ended. A class that was being
    /// initialized becomes initialized, or fails for good. On any other
    /// class nothing changes.
    pub fn finish_initialization(&mut self, id: ClassId, succeeded: bool)
        ensures
            changed_at_most(old(self)@, final(self)@, id as int),
            id < old(self)@.len() ==> initializer_finished(
                old(self)@[id as int],
                final(self)@[id as int],
                succeeded,
            ),
    {
        proof {
            use_type_invariant(&*self);
        }
        if id >= self.classes.len() {
            return ;
        }
        if let ClassState::BeingInitialized = self.classes[id].state {
        } else {
            return ;
        }
        let mut classes: Vec<Class> = Vec::new();
        std::mem::swap(&mut classes, &mut self.classes);
        let ghost before = classes@;
        let class = &mut classes[id];
        class.state = if succeeded {
            ClassState::Initialized
        } else {
            ClassState::InitializationFailed
        };
        proof {
            assert(class_well_formed(before, id as int));
            assert(same_declaration(before[id as int], classes@[id as int]));
            lemma_update_keeps_well_formed(before, classes@, id as int);
        }
        self.classes = classes;
    }

    /// Reads a static slot.
    pub fn get_static(&self, id: ClassId, offset: usize) -> (r: Option<Oop>)
        ensures
            option_view(r) == static_slot(self@, id as int, offset as int),
    {
        if id >= self.classes.len() {
            return None;
        }
        match &self.classes[id].kind {
            ClassKind::Instance(ic) => {
                if offset < ic.static_values.len() {
                    Some(ic.static_values[offset].clone())
                } else {
                    None
                }
            },
            _ => None,
        }
    }

    /// Writes a static slot, and says whether the class has that slot. Where
    /// it has not, nothing changes.
    pub fn put_static(&mut self, id: ClassId, offset: usize, value: Oop) -> (done: bool)
        ensures
            done == static_slot(old(self)@, id as int, offset as int).is_some(),
            changed_at_most(old(self)@, final(self)@, id as int),
            !done ==> final(self)@ == old(self)@,
            done ==> {
                &&& same_declaration(old(self)@[id as int], final(self)@[id as int])
                &&& final(self)@[id as int].state == old(self)@[id as int].state
                &&& static_values_of(final(self)@[id as int]) == static_values_of(
                    old(self)@[id as int],
                ).update(offset as int, value@)
            },
    {
        proof {
            use_type_invariant(&*self);
        }
        if id >= self.classes.len() {
            return false;
        }
        match &self.classes[id].kind {
            ClassKind::Instance(ic) => {
                if offset >= ic.static_values.len() {
                    return false;
                }
            },
            _ => {
                return false;
            },
        }
        let mut classes: Vec<Class> = Vec::new();
        std::mem::swap(&mut classes, &mut self.classes);
        let ghost before = classes@;
        let class = &mut classes[id];
        match &mut class.kind {
            ClassKind::Instance(ic) => {
                ic.static_values.set(offset, value);
            },
            _ => {},
        }
        proof {
            assert(class_well_formed(before, id as int));
            assert(same_declaration(before[id as int], classes@[id as int]));
            assert(static_values_of(classes@[id as int]) =~= static_values_of(
                before[id as int],
            ).update(offset as int, value@));
            lemma_update_keeps_well_formed(before, classes@, id as int);
        }
        self.classes = classes;
        true
    }

    /// The handle of the first class with the given name.
    pub fn find_class(&self, name: &[u8]) -> (r: Option<ClassId>)
        ensures
            match r {
                Some(c) => class_named(self@, name@) == Some(c as int) && c < self@.len()
                    && self@[c as int].name@ == name@,
                None => class_named(self@, name@) is None,
            },
    {
        let mut i: usize = 0;
        while i < self.classes.len()
            invariant
                i <= self.classes@.len(),
                class_named(self@, name@) == class_named_from(self@, name@, i as int),
            decreases self.classes@.len() - i,
        {
            if bytes_equal(self.classes[i].name.as_slice(), name) {
                return Some(i);
            }
            i += 1;
        }
        None
    }
}

} // verus!
