//! From a symbolic field reference to the field it names.

use vstd::prelude::*;
use crate::bytes::bytes_equal;
use crate::class::{
    changed_at_most, class_named, class_named_from, class_well_formed, field_id_views,
    initializer_asked, inst_fields_of, same_declaration, same_declarations, static_fields_of,
    well_formed, Class, ClassKind, ClassState,
};
use crate::table::ClassTable;
use crate::constant_pool::{
    class_name_at, fieldref_at, name_and_type_at, ConstantPool, ConstantPoolEntry,
};
use crate::error::LinkageError;
use crate::field::{ClassId, FieldId, FieldIdView};

verus! {

/// The first field at or after `start` that has the given name and descriptor.
pub open spec fn find_field_from(
    fields: Seq<FieldIdView>,
    name: Seq<u8>,
    desc: Seq<u8>,
    start: int,
) -> Option<FieldIdView>
    decreases fields.len() - start,
{
    if start < 0 || start >= fields.len() {
        None
    } else if fields[start].field.name == name && fields[start].field.desc == desc {
        Some(fields[start])
    } else {
        find_field_from(fields, name, desc, start + 1)
    }
}

/// The first field of a list that has the given name and descriptor. The
/// name alone does not identify a field: two fields of one class may share
/// a name as long as their descriptors differ.
pub open spec fn find_field(fields: Seq<FieldIdView>, name: Seq<u8>, desc: Seq<u8>) -> Option<
    FieldIdView,
> {
    find_field_from(fields, name, desc, 0)
}

/// What a class itself answers to a lookup: the field, if it declares one
/// of that name and descriptor and of the wanted sort, static or not; an
/// incompatible change, if it declares one of the other sort; nothing, if
/// it declares none.
pub open spec fn declared_field(
    class: Class,
    name: Seq<u8>,
    desc: Seq<u8>,
    is_static: bool,
) -> Option<Result<FieldIdView, LinkageError>> {
    let wanted = if is_static {
        static_fields_of(class)
    } else {
        inst_fields_of(class)
    };
    let other = if is_static {
        inst_fields_of(class)
    } else {
        static_fields_of(class)
    };
    match find_field(wanted, name, desc) {
        Some(f) => Some(Ok(f)),
        None => if find_field(other, name, desc) is Some {
            Some(Err(LinkageError::IncompatibleClassChange))
        } else {
            None
        },
    }
}

/// The field that a lookup from class `c` finds.
///
/// The first class that declares a field of that name and descriptor
/// decides: the lookup yields the field if it is of the wanted sort, and
/// fails with `IncompatibleClassChange` if it is of the other sort. The
/// class `c` is asked first. A static field is then sought in the
/// interfaces of `c`, each with all that it extends, in the order in which
/// `c` names them. Then, for either sort, the lookup goes on from the
/// superclass. Where no class declares such a field, the lookup fails with
/// `NoSuchField`; where `c` names no class, with `ClassNotFound`.
pub open spec fn lookup_field(
    cs: Seq<Class>,
    c: int,
    name: Seq<u8>,
    desc: Seq<u8>,
    is_static: bool,
) -> Result<FieldIdView, LinkageError>
    decreases
            c,
            if 0 <= c < cs.len() {
                cs[c].interfaces@.len() + 1
            } else {
                0
            },
{
    if c < 0 || c >= cs.len() {
        Err(LinkageError::ClassNotFound)
    } else {
        match declared_field(cs[c], name, desc, is_static) {
            Some(r) => r,
            None => {
                let inherited = if is_static {
                    lookup_in_interfaces(cs, c, 0, name, desc)
                } else {
                    Err(LinkageError::NoSuchField)
                };
                if inherited != Err::<FieldIdView, LinkageError>(LinkageError::NoSuchField) {
                    inherited
                } else {
                    match cs[c].super_class {
                        Some(s) => if s < c {
                            lookup_field(cs, s as int, name, desc, is_static)
                        } else {
                            Err(LinkageError::NoSuchField)
                        },
                        None => Err(LinkageError::NoSuchField),
                    }
                }
            },
        }
    }
}

/// The static field that a lookup finds in the interfaces of class `c`,
/// from the `k`-th on: the first interface in which the lookup does not end
/// with `NoSuchField` decides.
pub open spec fn lookup_in_interfaces(
    cs: Seq<Class>,
    c: int,
    k: int,
    name: Seq<u8>,
    desc: Seq<u8>,
) -> Result<FieldIdView, LinkageError>
    decreases
            c,
            if 0 <= c < cs.len() {
                cs[c].interfaces@.len() - k
            } else {
                0
            },
{
    if c < 0 || c >= cs.len() || k < 0 || k >= cs[c].interfaces@.len() {
        Err(LinkageError::NoSuchField)
    } else {
        let found = if cs[c].interfaces@[k] < c {
            lookup_field(cs, cs[c].interfaces@[k] as int, name, desc, true)
        } else {
            Err(LinkageError::NoSuchField)
        };
        if found != Err::<FieldIdView, LinkageError>(LinkageError::NoSuchField) {
            found
        } else {
            lookup_in_interfaces(cs, c, k + 1, name, desc)
        }
    }
}

/// The loaded class that the class entry at an index of the pool names.
pub open spec fn required_class(
    cs: Seq<Class>,
    pool: Seq<ConstantPoolEntry>,
    class_index: int,
) -> Option<int> {
    match class_name_at(pool, class_index) {
        Ok(name) => class_named(cs, name),
        Err(_) => None,
    }
}

/// The class that the field reference at an index of the pool names, if the
/// reference can be followed to a usable class: the entry must be a field
/// reference, its class must be loaded, and the class must not have failed
/// to initialize.
pub open spec fn referenced_class(
    cs: Seq<Class>,
    pool: Seq<ConstantPoolEntry>,
    idx: int,
) -> Result<int, LinkageError> {
    match fieldref_at(pool, idx) {
        Err(_) => Err(LinkageError::WrongConstantTag),
        Ok((class_index, _)) => match required_class(cs, pool, class_index as int) {
            None => Err(LinkageError::ClassNotFound),
            Some(c) => if cs[c].state is InitializationFailed {
                Err(LinkageError::InitializationFailed)
            } else {
                Ok(c)
            },
        },
    }
}

/// The class whose initializer is asked for when the field reference at an
/// index of the pool is resolved: the class that the reference names, if it
/// is loaded or linked and no further.
pub open spec fn initializer_due(
    cs: Seq<Class>,
    pool: Seq<ConstantPoolEntry>,
    idx: int,
) -> Option<int> {
    match referenced_class(cs, pool, idx) {
        Ok(c) => if cs[c].state is Loaded || cs[c].state is Linked {
            Some(c)
        } else {
            None
        },
        Err(_) => None,
    }
}

/// The field that the field reference at an index of the pool resolves to.
///
/// The reference is followed to its class; then the name and descriptor that
/// it gives are looked up from that class upwards.
pub open spec fn resolved_field(
    cs: Seq<Class>,
    pool: Seq<ConstantPoolEntry>,
    idx: int,
    is_static: bool,
) -> Result<FieldIdView, LinkageError> {
    match referenced_class(cs, pool, idx) {
        Err(e) => Err(e),
        Ok(c) => match fieldref_at(pool, idx) {
            Err(_) => Err(LinkageError::WrongConstantTag),
            Ok((_, name_and_type_index)) => match name_and_type_at(
                pool,
                name_and_type_index as int,
            ) {
                Err(_) => Err(LinkageError::WrongConstantTag),
                Ok((name, desc)) => lookup_field(cs, c, name, desc, is_static),
            },
        },
    }
}

/// Whether `after` is the table that resolving the field reference at an
/// index leaves of `before`: where the reference leads to a usable class,
/// the initializer of that class has been asked for and nothing else has
/// changed; where it does not, nothing has changed at all.
pub open spec fn after_resolution(
    before: Seq<Class>,
    after: Seq<Class>,
    pool: Seq<ConstantPoolEntry>,
    idx: int,
) -> bool {
    match referenced_class(before, pool, idx) {
        Ok(c) => {
            &&& changed_at_most(before, after, c)
            &&& initializer_asked(before[c], after[c])
        },
        Err(_) => after == before,
    }
}

/// The view of a field identifier or of the error in its place.
pub open spec fn field_id_result_view(r: Result<FieldId, LinkageError>) -> Result<
    FieldIdView,
    LinkageError,
> {
    match r {
        Ok(id) => Ok(id@),
        Err(e) => Err(e),
    }
}

/// Finds the first field of a list with the given name and descriptor.
pub fn find_field_index(fields: &Vec<FieldId>, name: &[u8], desc: &[u8]) -> (r: Option<usize>)
    ensures
        match r {
            Some(k) => k < fields@.len() && find_field(field_id_views(fields@), name@, desc@)
                == Some(fields@[k as int]@),
            None => find_field(field_id_views(fields@), name@, desc@) is None,
        },
{
    let mut k: usize = 0;
    while k < fields.len()
        invariant
            k <= fields@.len(),
            find_field(field_id_views(fields@), name@, desc@) == find_field_from(
                field_id_views(fields@),
                name@,
                desc@,
                k as int,
            ),
        decreases fields@.len() - k,
    {
        if bytes_equal(fields[k].field.name.as_slice(), name) && bytes_equal(
            fields[k].field.desc.as_slice(),
            desc,
        ) {
            return Some(k);
        }
        k += 1;
    }
    None
}

impl ClassTable {
    /// The loaded class that the class entry at an index of the pool names.
    pub fn require_class(&self, class_index: usize, cp: &ConstantPool) -> (r: Option<ClassId>)
        ensures
            match r {
                Some(c) => required_class(self@, cp@, class_index as int) == Some(c as int) && c
                    < self@.len(),
                None => required_class(self@, cp@, class_index as int) is None,
            },
    {
        match cp.get_class_name(class_index) {
            Ok(name) => self.find_class(name.as_slice()),
            Err(_) => None,
        }
    }

    /// The class whose initializer the caller has to run once it has
    /// resolved the field reference at an index of the pool.
    pub fn initializer_due(&self, cp: &ConstantPool, idx: usize) -> (r: Option<ClassId>)
        ensures
            match r {
                Some(c) => initializer_due(self@, cp@, idx as int) == Some(c as int) && c
                    < self@.len(),
                None => initializer_due(self@, cp@, idx as int) is None,
            },
    {
        let class_index = match cp.get_fieldref(idx) {
            Ok((class_index, _)) => class_index,
            Err(_) => {
                return None;
            },
        };
        let class = match self.require_class(class_index as usize, cp) {
            Some(c) => c,
            None => {
                return None;
            },
        };
        match self.state(class) {
            Some(ClassState::Loaded) | Some(ClassState::Linked) => Some(class),
            _ => None,
        }
    }

    /// Looks a field up by name and descriptor, from a class upwards.
    pub fn get_field_id(&self, class: ClassId, name: &[u8], desc: &[u8], is_static: bool) -> (r:
        Result<FieldId, LinkageError>)
        ensures
            field_id_result_view(r) == lookup_field(self@, class as int, name@, desc@, is_static),
        decreases class,
    {
        proof {
            use_type_invariant(self);
        }
        if class >= self.len() {
            return Err(LinkageError::ClassNotFound);
        }
        let this = self.class(class);
        proof {
            assert(class_well_formed(self@, class as int));
        }
        if let ClassKind::Instance(ic) = &this.kind {
            let (wanted, other) = if is_static {
                (&ic.static_fields, &ic.inst_fields)
            } else {
                (&ic.inst_fields, &ic.static_fields)
            };
            if let Some(k) = find_field_index(wanted, name, desc) {
                return Ok(wanted[k].clone());
            }
            if find_field_index(other, name, desc).is_some() {
                return Err(LinkageError::IncompatibleClassChange);
            }
        }
        if is_static {
            let mut k: usize = 0;
            while k < this.interfaces.len()
                invariant
                    well_formed(self@),
                    class < self@.len(),
                    *this == self@[class as int],
                    k <= this.interfaces@.len(),
                    is_static,
                    declared_field(self@[class as int], name@, desc@, is_static) is None,
                    lookup_in_interfaces(self@, class as int, 0, name@, desc@)
                        == lookup_in_interfaces(self@, class as int, k as int, name@, desc@),
                decreases this.interfaces@.len() - k,
            {
                let interface = this.interfaces[k];
                proof {
                    assert(class_well_formed(self@, class as int));
                    assert(interface < class);
                }
                match self.get_field_id(interface, name, desc, true) {
                    Err(LinkageError::NoSuchField) => {},
                    found => {
                        proof {
                            assert(lookup_in_interfaces(
                                self@,
                                class as int,
                                k as int,
                                name@,
                                desc@,
                            ) == field_id_result_view(found));
                        }
                        return found;
                    },
                }
                k += 1;
            }
        }
        match this.super_class {
            None => Err(LinkageError::NoSuchField),
            Some(s) => self.get_field_id(s, name, desc, is_static),
        }
    }
}

/// Resolves the field reference at an index of the pool.
///
/// The reference is followed to its class, which must be loaded. Unless that
/// class has failed to initialize, its initializer is asked for: the class
/// is prepared if need be and, if it was loaded or linked, is now being
/// initialized, which leaves it to the caller to run the initializer and to
/// report its end; [`ClassTable::initializer_due`] tells beforehand whether
/// that will be so. Then the field is looked up by the name and descriptor
/// that the reference gives.
pub fn get_field_ref(table: &mut ClassTable, cp: &ConstantPool, idx: usize, is_static: bool) -> (r:
    Result<FieldId, LinkageError>)
    ensures
        field_id_result_view(r) == resolved_field(old(table)@, cp@, idx as int, is_static),
        after_resolution(old(table)@, final(table)@, cp@, idx as int),
{
    let (class_index, name_and_type_index) = match cp.get_fieldref(idx) {
        Ok(pair) => pair,
        Err(_) => {
            return Err(LinkageError::WrongConstantTag);
        },
    };
    let class = match table.require_class(class_index as usize, cp) {
        Some(c) => c,
        None => {
            return Err(LinkageError::ClassNotFound);
        },
    };
    if let Some(ClassState::InitializationFailed) = table.state(class) {
        return Err(LinkageError::InitializationFailed);
    }
    table.init_class(class);
    table.init_class_fully(class);
    let (name, desc) = match cp.get_name_and_type(name_and_type_index as usize) {
        Ok(pair) => pair,
        Err(_) => {
            return Err(LinkageError::WrongConstantTag);
        },
    };
    proof {
        lemma_lookup_ignores_state(
            old(table)@,
            table@,
            class as int,
            name@,
            desc@,
            is_static,
        );
    }
    table.get_field_id(class, name.as_slice(), desc.as_slice(), is_static)
}

/// A lookup reads the declarations only: in two tables whose classes are
/// declared alike it finds the same field, whatever the states of the classes.
pub proof fn lemma_lookup_ignores_state(
    a: Seq<Class>,
    b: Seq<Class>,
    c: int,
    name: Seq<u8>,
    desc: Seq<u8>,
    is_static: bool,
)
    requires
        same_declarations(a, b),
    ensures
        lookup_field(a, c, name, desc, is_static) == lookup_field(b, c, name, desc, is_static),
    decreases
            c,
            if 0 <= c < a.len() {
                a[c].interfaces@.len() + 1
            } else {
                0
            },
{
    if 0 <= c < a.len() {
        assert(same_declaration(a[c], b[c]));
        assert(inst_fields_of(a[c]) == inst_fields_of(b[c]));
        assert(static_fields_of(a[c]) == static_fields_of(b[c]));
        if is_static {
            lemma_interfaces_ignore_state(a, b, c, 0, name, desc);
        }
        match a[c].super_class {
            Some(s) => {
                if s < c {
                    lemma_lookup_ignores_state(a, b, s as int, name, desc, is_static);
                }
            },
            None => {},
        }
    }
}

/// A lookup in the interfaces of a class reads the declarations only.
pub proof fn lemma_interfaces_ignore_state(
    a: Seq<Class>,
    b: Seq<Class>,
    c: int,
    k: int,
    name: Seq<u8>,
    desc: Seq<u8>,
)
    requires
        same_declarations(a, b),
    ensures
        lookup_in_interfaces(a, c, k, name, desc) == lookup_in_interfaces(b, c, k, name, desc),
    decreases
            c,
            if 0 <= c < a.len() {
                a[c].interfaces@.len() - k
            } else {
                0
            },
{
    if 0 <= c < a.len() {
        assert(same_declaration(a[c], b[c]));
        if 0 <= k < a[c].interfaces@.len() {
            if a[c].interfaces@[k] < c {
                lemma_lookup_ignores_state(a, b, a[c].interfaces@[k] as int, name, desc, true);
            }
            lemma_interfaces_ignore_state(a, b, c, k + 1, name, desc);
        }
    }
}

/// The first class of a name is a class of the table and has that name.
pub proof fn lemma_class_named_in_table(cs: Seq<Class>, name: Seq<u8>, start: int)
    requires
        0 <= start,
    ensures
        class_named_from(cs, name, start) matches Some(c) ==> start <= c < cs.len()
            && cs[c].name@ == name,
    decreases cs.len() - start,
{
    if start < cs.len() && cs[start].name@ != name {
        lemma_class_named_in_table(cs, name, start + 1);
    }
}

/// Finding a class by name reads the declarations only.
pub proof fn lemma_class_named_ignores_state(
    a: Seq<Class>,
    b: Seq<Class>,
    name: Seq<u8>,
    start: int,
)
    requires
        same_declarations(a, b),
        0 <= start,
    ensures
        class_named_from(a, name, start) == class_named_from(b, name, start),
    decreases a.len() - start,
{
    if start < a.len() {
        assert(same_declaration(a[start], b[start]));
        lemma_class_named_ignores_state(a, b, name, start + 1);
    }
}

/// Asking for a class's initializer changes no declaration.
pub proof fn lemma_resolution_keeps_declarations(
    before: Seq<Class>,
    after: Seq<Class>,
    pool: Seq<ConstantPoolEntry>,
    idx: int,
)
    requires
        after_resolution(before, after, pool, idx),
    ensures
        same_declarations(before, after),
{
    match referenced_class(before, pool, idx) {
        Ok(c) => {
            let name = class_name_at(pool, fieldref_at(pool, idx)->Ok_0.0 as int)->Ok_0;
            lemma_class_named_in_table(before, name, 0);
            assert forall|j: int| 0 <= j < before.len() implies same_declaration(
                #[trigger] before[j],
                after[j],
            ) by {
                if j != c {
                    assert(after[j] == before[j]);
                }
            }
        },
        Err(_) => {},
    }
}

/// Resolving asks for exactly the initializer that was due: the class whose
/// initializer was due is being initialized afterwards, and no initializer
/// is due for the same reference any more; where none was due, resolving
/// changes nothing.
pub proof fn lemma_due_initializer_is_asked(
    before: Seq<Class>,
    after: Seq<Class>,
    pool: Seq<ConstantPoolEntry>,
    idx: int,
)
    requires
        after_resolution(before, after, pool, idx),
    ensures
        match initializer_due(before, pool, idx) {
            Some(c) => {
                &&& 0 <= c < after.len()
                &&& after[c].state is BeingInitialized
                &&& initializer_due(after, pool, idx) is None
            },
            None => after == before,
        },
{
    match referenced_class(before, pool, idx) {
        Ok(c) => {
            let class_name = class_name_at(pool, fieldref_at(pool, idx)->Ok_0.0 as int)->Ok_0;
            lemma_class_named_in_table(before, class_name, 0);
            lemma_resolution_keeps_declarations(before, after, pool, idx);
            lemma_class_named_ignores_state(before, after, class_name, 0);
            if !(before[c].state is Loaded || before[c].state is Linked) {
                assert(after =~= before);
            }
        },
        Err(_) => {},
    }
}

/// Resolving is stable: where a field reference resolves, resolving it
/// again, in the table that the first resolution left, gives the same field
/// in the same slot.
pub proof fn lemma_resolver_stable(
    before: Seq<Class>,
    after: Seq<Class>,
    pool: Seq<ConstantPoolEntry>,
    idx: int,
    is_static: bool,
)
    requires
        resolved_field(before, pool, idx, is_static) is Ok,
        after_resolution(before, after, pool, idx),
    ensures
        resolved_field(after, pool, idx, is_static) == resolved_field(
            before,
            pool,
            idx,
            is_static,
        ),
{
    lemma_resolution_keeps_declarations(before, after, pool, idx);
    let c = referenced_class(before, pool, idx)->Ok_0;
    let (class_index, name_and_type_index) = fieldref_at(pool, idx)->Ok_0;
    let class_name = class_name_at(pool, class_index as int)->Ok_0;
    lemma_class_named_in_table(before, class_name, 0);
    lemma_class_named_ignores_state(before, after, class_name, 0);
    assert(referenced_class(after, pool, idx) == Ok::<int, LinkageError>(c));
    let (name, desc) = name_and_type_at(pool, name_and_type_index as int)->Ok_0;
    lemma_lookup_ignores_state(before, after, c, name, desc, is_static);
}

} // verus!
