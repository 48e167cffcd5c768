//! How the declared fields of a class are given their slots.

use vstd::prelude::*;
use crate::class::{all_below, field_id_views, placed_in, slots_of, Class, ClassKind};
use crate::constant_pool::{ConstantPool, ConstantPoolEntry};
use crate::error::LinkageError;
use crate::field::{
    has_flag, linked_field, ClassId, Field, FieldId, FieldIdView, FieldInfo, ACC_STATIC,
};
use crate::value_type::ValueType;

verus! {

/// The two field tables of a class.
pub ghost struct Layout {
    /// The instance fields, each with its slot in an instance.
    pub inst: Seq<FieldIdView>,
    /// The static fields, each with its slot in the class.
    pub stat: Seq<FieldIdView>,
}

/// The layout of the first `n` declared fields of a class whose instances
/// inherit `base` slots, or the first reason why linking them fails.
///
/// Each declaration is linked against the pool, and a field of kind `Void`
/// is refused as malformed. A static field takes the next static slot,
/// counted from zero; any other field takes the next instance slot, counted
/// from `base`.
pub open spec fn layout_of(
    pool: Seq<ConstantPoolEntry>,
    fis: Seq<FieldInfo>,
    cls_name: Seq<u8>,
    class: int,
    base: int,
    n: int,
) -> Result<Layout, LinkageError>
    decreases n,
{
    if n <= 0 {
        Ok(Layout { inst: Seq::empty(), stat: Seq::empty() })
    } else {
        match layout_of(pool, fis, cls_name, class, base, n - 1) {
            Err(e) => Err(e),
            Ok(l) => match linked_field(pool, fis[n - 1], cls_name, class) {
                Err(e) => Err(e),
                Ok(f) => if f.value_type is Void {
                    Err(LinkageError::MalformedDescriptor)
                } else if has_flag(f.acc_flags, ACC_STATIC) {
                    Ok(
                        Layout {
                            inst: l.inst,
                            stat: l.stat.push(
                                FieldIdView { offset: l.stat.len() as int, field: f },
                            ),
                        },
                    )
                } else {
                    Ok(
                        Layout {
                            inst: l.inst.push(
                                FieldIdView { offset: base + l.inst.len(), field: f },
                            ),
                            stat: l.stat,
                        },
                    )
                },
            },
        }
    }
}

/// The layout that defining a class in the table `cs` gives, or the reason
/// why the class cannot be defined: its superclass is not in the table, or
/// has no instances, or one of its interfaces is not in the table, or one
/// of its fields does not link.
pub open spec fn definition(
    cs: Seq<Class>,
    name: Seq<u8>,
    super_class: Option<ClassId>,
    interfaces: Seq<ClassId>,
    pool: Seq<ConstantPoolEntry>,
    fis: Seq<FieldInfo>,
) -> Result<Layout, LinkageError> {
    if super_class matches Some(s) && s >= cs.len() {
        Err(LinkageError::ClassNotFound)
    } else if super_class matches Some(s) && !(cs[s as int].kind is Instance) {
        Err(LinkageError::IncompatibleClassChange)
    } else if !all_below(interfaces, cs.len() as int) {
        Err(LinkageError::ClassNotFound)
    } else {
        let base = match super_class {
            Some(s) => slots_of(cs, s as int),
            None => 0,
        };
        layout_of(pool, fis, name, cs.len() as int, base, fis.len() as int)
    }
}

/// Whether `class` is the class that a definition with this layout makes:
/// freshly loaded, with the given field tables and no static slots yet.
pub open spec fn defined_as(
    class: Class,
    name: Seq<u8>,
    super_class: Option<ClassId>,
    interfaces: Seq<ClassId>,
    base: int,
    layout: Layout,
) -> bool {
    &&& class.name@ == name
    &&& class.super_class == super_class
    &&& class.interfaces@ == interfaces
    &&& class.state is Loaded
    &&& class.kind matches ClassKind::Instance(ic)
    &&& field_id_views(ic.inst_fields@) == layout.inst
    &&& field_id_views(ic.static_fields@) == layout.stat
    &&& ic.n_inst_fields == base + layout.inst.len()
    &&& ic.static_values@.len() == 0
}

/// Whether a layout gives every field its own slot: the instance fields
/// take the slots from `base` upwards, in order and without gaps, the
/// static fields the slots from zero upwards, and no field is in the wrong
/// table.
pub open spec fn orderly(l: Layout, cls_name: Seq<u8>, class: int, base: int) -> bool {
    &&& forall|k: int|
        0 <= k < l.inst.len() ==> {
            &&& (#[trigger] l.inst[k]).offset == base + k
            &&& placed_in(l.inst[k].field, cls_name, class)
            &&& !has_flag(l.inst[k].field.acc_flags, ACC_STATIC)
        }
    &&& forall|k: int|
        0 <= k < l.stat.len() ==> {
            &&& (#[trigger] l.stat[k]).offset == k
            &&& placed_in(l.stat[k].field, cls_name, class)
            &&& has_flag(l.stat[k].field.acc_flags, ACC_STATIC)
        }
}

/// Every layout is orderly, and holds each of the declared fields once.
pub proof fn lemma_layout_is_orderly(
    pool: Seq<ConstantPoolEntry>,
    fis: Seq<FieldInfo>,
    cls_name: Seq<u8>,
    class: int,
    base: int,
    n: int,
)
    requires
        0 <= n,
    ensures
        layout_of(pool, fis, cls_name, class, base, n) matches Ok(l) ==> {
            &&& orderly(l, cls_name, class, base)
            &&& l.inst.len() + l.stat.len() == n
        },
    decreases n,
{
    if n > 0 {
        lemma_layout_is_orderly(pool, fis, cls_name, class, base, n - 1);
    }
}

/// Once a prefix of the declarations fails to link, every longer prefix fails alike.
pub proof fn lemma_layout_error_sticks(
    pool: Seq<ConstantPoolEntry>,
    fis: Seq<FieldInfo>,
    cls_name: Seq<u8>,
    class: int,
    base: int,
    n: int,
    m: int,
)
    requires
        0 <= n <= m,
        layout_of(pool, fis, cls_name, class, base, n) is Err,
    ensures
        layout_of(pool, fis, cls_name, class, base, m) == layout_of(
            pool,
            fis,
            cls_name,
            class,
            base,
            n,
        ),
    decreases m - n,
{
    if n < m {
        lemma_layout_error_sticks(pool, fis, cls_name, class, base, n, m - 1);
    }
}

/// Links the declared fields of a class and gives each its slot: the
/// instance fields from `base` upwards, the static fields from zero upwards.
pub fn lay_out(
    cp: &ConstantPool,
    fields: &Vec<FieldInfo>,
    cls_name: &Vec<u8>,
    class: ClassId,
    base: usize,
) -> (r: Result<(Vec<FieldId>, Vec<FieldId>), LinkageError>)
    requires
        base + fields@.len() <= usize::MAX,
    ensures
        match r {
            Ok((inst, stat)) => layout_of(
                cp@,
                fields@,
                cls_name@,
                class as int,
                base as int,
                fields@.len() as int,
            ) == Ok::<Layout, LinkageError>(
                Layout { inst: field_id_views(inst@), stat: field_id_views(stat@) },
            ),
            Err(e) => layout_of(
                cp@,
                fields@,
                cls_name@,
                class as int,
                base as int,
                fields@.len() as int,
            ) == Err::<Layout, LinkageError>(e),
        },
{
    let mut inst: Vec<FieldId> = Vec::new();
    let mut stat: Vec<FieldId> = Vec::new();
    let mut i: usize = 0;
    proof {
        assert(field_id_views(inst@) =~= Seq::empty());
        assert(field_id_views(stat@) =~= Seq::empty());
    }
    while i < fields.len()
        invariant
            i <= fields@.len(),
            base + fields@.len() <= usize::MAX,
            inst@.len() + stat@.len() == i,
            layout_of(cp@, fields@, cls_name@, class as int, base as int, i as int) == Ok::<
                Layout,
                LinkageError,
            >(Layout { inst: field_id_views(inst@), stat: field_id_views(stat@) }),
        decreases fields@.len() - i,
    {
        let ghost len = fields@.len() as int;
        let field = match Field::new(cp, &fields[i], cls_name.clone(), class) {
            Ok(f) => f,
            Err(e) => {
                proof {
                    assert(layout_of(cp@, fields@, cls_name@, class as int, base as int, i + 1)
                        == Err::<Layout, LinkageError>(e));
                    lemma_layout_error_sticks(
                        cp@,
                        fields@,
                        cls_name@,
                        class as int,
                        base as int,
                        i + 1,
                        len,
                    );
                }
                return Err(e);
            },
        };
        if let ValueType::Void = field.value_type {
            proof {
                assert(layout_of(cp@, fields@, cls_name@, class as int, base as int, i + 1)
                    == Err::<Layout, LinkageError>(LinkageError::MalformedDescriptor));
                lemma_layout_error_sticks(
                    cp@,
                    fields@,
                    cls_name@,
                    class as int,
                    base as int,
                    i + 1,
                    len,
                );
            }
            return Err(LinkageError::MalformedDescriptor);
        }
        if field.is_static() {
            let ghost before = field_id_views(stat@);
            let offset = stat.len();
            stat.push(FieldId { offset, field });
            assert(field_id_views(stat@) =~= before.push(stat@[offset as int]@));
        } else {
            let ghost before = field_id_views(inst@);
            let offset = base + inst.len();
            inst.push(FieldId { offset, field });
            assert(field_id_views(inst@) =~= before.push(inst@[inst@.len() - 1]@));
        }
        i += 1;
    }
    Ok((inst, stat))
}

} // verus!
