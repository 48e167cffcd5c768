//! The slots of a fresh instance.

use vstd::prelude::*;
use crate::class::{
    base_of, class_well_formed, declared_by, inst_fields_of, slots_of, well_formed, Class,
    ClassKind,
};
use crate::table::ClassTable;
use crate::consts::get_null;
use crate::field::{ClassId, FieldIdView};
use crate::oop::{views, Oop, OopView};
use crate::value_type::zero_of;

verus! {

/// The field that owns slot `i` in an instance of class `c`.
///
/// The slots from the inherited count upwards belong to the fields that `c`
/// declares, in declaration order; the slots below it belong to whatever
/// field owns them in an instance of the superclass.
pub open spec fn slot_field(cs: Seq<Class>, c: int, i: int) -> Option<FieldIdView>
    decreases c,
{
    if c < 0 || c >= cs.len() || i < 0 {
        None
    } else if i >= base_of(cs, c) {
        if i - base_of(cs, c) < inst_fields_of(cs[c]).len() {
            Some(inst_fields_of(cs[c])[i - base_of(cs, c)])
        } else {
            None
        }
    } else {
        match cs[c].super_class {
            Some(s) => if s < c {
                slot_field(cs, s as int, i)
            } else {
                None
            },
            None => None,
        }
    }
}

/// The value that slot `i` of a fresh instance of class `c` holds: the zero
/// of the kind of the field that owns the slot.
pub open spec fn initial_slot(cs: Seq<Class>, c: int, i: int) -> OopView {
    match slot_field(cs, c, i) {
        Some(f) => match zero_of(f.field.value_type) {
            Some(zero) => zero,
            None => OopView::Null,
        },
        None => OopView::Null,
    }
}

/// The slots of a fresh instance of class `c`.
pub open spec fn initial_values(cs: Seq<Class>, c: int) -> Seq<OopView> {
    Seq::new(slots_of(cs, c) as nat, |i: int| initial_slot(cs, c, i))
}

/// Whether class `a` is class `c` or one of its superclasses.
pub open spec fn is_self_or_ancestor(cs: Seq<Class>, c: int, a: int) -> bool
    decreases c,
{
    if c < 0 || c >= cs.len() {
        false
    } else if a == c {
        true
    } else {
        match cs[c].super_class {
            Some(s) => s < c && is_self_or_ancestor(cs, s as int, a),
            None => false,
        }
    }
}

/// Builds the slots of a fresh instance of a class: one slot for each
/// instance field that the class or one of its superclasses declares, each
/// holding the zero of its field's kind.
pub fn build_inited_field_values(table: &ClassTable, class: ClassId) -> (r: Vec<Oop>)
    requires
        class < table@.len(),
        table@[class as int].kind is Instance,
    ensures
        r@.len() == slots_of(table@, class as int),
        views(r@) == initial_values(table@, class as int),
{
    proof {
        use_type_invariant(table);
    }
    let n: usize = table.instance_slots(class);
    let mut values: Vec<Oop> = Vec::new();
    while values.len() < n
        invariant
            values@.len() <= n,
            forall|i: int| 0 <= i < values@.len() ==> (#[trigger] values@[i])@ == OopView::Null,
        decreases n - values@.len(),
    {
        values.push(get_null());
    }
    let mut cur: usize = class;
    let mut more: bool = true;
    let ghost mut pending: int = n as int;
    while more
        invariant
            well_formed(table@),
            class < table@.len(),
            n == slots_of(table@, class as int),
            values@.len() == n,
            0 <= pending <= n,
            more ==> cur < table@.len() && table@[cur as int].kind is Instance && pending
                == slots_of(table@, cur as int),
            !more ==> pending == 0,
            forall|i: int|
                pending <= i < n ==> (#[trigger] values@[i])@ == initial_slot(
                    table@,
                    class as int,
                    i,
                ),
            forall|i: int| 0 <= i < pending ==> (#[trigger] values@[i])@ == OopView::Null,
            more ==> forall|i: int|
                0 <= i < pending ==> slot_field(table@, class as int, i) == slot_field(
                    table@,
                    cur as int,
                    i,
                ),
        decreases
                if more {
                    cur + 1
                } else {
                    0
                },
    {
        let this = table.class(cur);
        proof {
            assert(class_well_formed(table@, cur as int));
        }
        let ghost base = base_of(table@, cur as int);
        if let ClassKind::Instance(ic) = &this.kind {
            let mut k: usize = 0;
            while k < ic.inst_fields.len()
                invariant
                    well_formed(table@),
                    class_well_formed(table@, cur as int),
                    cur < table@.len(),
                    table@[cur as int].kind == ClassKind::Instance(*ic),
                    base == base_of(table@, cur as int),
                    pending == slots_of(table@, cur as int),
                    pending == base + ic.inst_fields@.len(),
                    0 <= base,
                    k <= ic.inst_fields@.len(),
                    values@.len() == n,
                    pending <= n,
                    forall|i: int|
                        pending <= i < n ==> (#[trigger] values@[i])@ == initial_slot(
                            table@,
                            class as int,
                            i,
                        ),
                    forall|i: int|
                        base <= i < base + k ==> (#[trigger] values@[i])@ == initial_slot(
                            table@,
                            class as int,
                            i,
                        ),
                    forall|i: int| 0 <= i < base ==> (#[trigger] values@[i])@ == OopView::Null,
                    forall|i: int|
                        0 <= i < pending ==> slot_field(table@, class as int, i) == slot_field(
                            table@,
                            cur as int,
                            i,
                        ),
                decreases ic.inst_fields@.len() - k,
            {
                let fir = &ic.inst_fields[k];
                proof {
                    let f = inst_fields_of(table@[cur as int])[k as int];
                    assert(f == fir@);
                    assert(f.offset == base + k);
                    assert(declared_by(table@, cur as int, f.field));
                    assert(slot_field(table@, cur as int, base + k) == Some(f));
                }
                let zero = fir.field.get_constant_value();
                values.set(fir.offset, zero);
                k += 1;
            }
        }
        proof {
            pending = base;
        }
        match this.super_class {
            None => {
                more = false;
            },
            Some(s) => {
                proof {
                    assert forall|i: int| 0 <= i < pending implies slot_field(
                        table@,
                        class as int,
                        i,
                    ) == slot_field(table@, s as int, i) by {
                        assert(slot_field(table@, cur as int, i) == slot_field(
                            table@,
                            s as int,
                            i,
                        ));
                    }
                }
                cur = s;
            },
        }
    }
    assert(views(values@) =~= initial_values(table@, class as int));
    values
}

/// Every field finds its zero: in a fresh instance of a class, the slot of
/// each instance field that the class or one of its superclasses declares
/// lies inside the instance and holds the zero of the field's kind.
pub proof fn lemma_zero_initialization(cs: Seq<Class>, c: int, a: int, k: int)
    requires
        well_formed(cs),
        0 <= c < cs.len(),
        cs[c].kind is Instance,
        0 <= a < cs.len(),
        is_self_or_ancestor(cs, c, a),
        0 <= k < inst_fields_of(cs[a]).len(),
    ensures
        0 <= inst_fields_of(cs[a])[k].offset < initial_values(cs, c).len(),
        slot_field(cs, c, inst_fields_of(cs[a])[k].offset as int) == Some(inst_fields_of(cs[a])[k]),
        Some(initial_values(cs, c)[inst_fields_of(cs[a])[k].offset as int]) == zero_of(
            inst_fields_of(cs[a])[k].field.value_type,
        ),
    decreases c,
{
    let f = inst_fields_of(cs[a])[k];
    assert(class_well_formed(cs, c));
    if a == c {
        assert(f.offset == base_of(cs, c) + k);
        assert(declared_by(cs, c, f.field));
    } else {
        let s = cs[c].super_class->Some_0 as int;
        lemma_zero_initialization(cs, s, a, k);
        assert(f.offset < slots_of(cs, s));
        assert(slot_field(cs, c, f.offset as int) == slot_field(cs, s, f.offset as int));
    }
}

/// A field identifier of a superclass serves on instances of its
/// subclasses: the slot that it names lies inside every such instance and
/// belongs to the same field there, so a value written through the
/// identifier is the value read back through it, and no other slot changes.
pub proof fn lemma_inherited_field_access(
    cs: Seq<Class>,
    c: int,
    a: int,
    k: int,
    instance: Seq<OopView>,
    value: OopView,
)
    requires
        well_formed(cs),
        0 <= c < cs.len(),
        cs[c].kind is Instance,
        0 <= a < cs.len(),
        is_self_or_ancestor(cs, c, a),
        0 <= k < inst_fields_of(cs[a]).len(),
        instance.len() == slots_of(cs, c),
    ensures
        ({
            let id = inst_fields_of(cs[a])[k];
            let written = instance.update(id.offset, value);
            &&& 0 <= id.offset < instance.len()
            &&& slot_field(cs, c, id.offset) == slot_field(cs, a, id.offset)
            &&& written[id.offset] == value
            &&& forall|i: int|
                0 <= i < instance.len() && i != id.offset ==> #[trigger] written[i] == instance[i]
        }),
{
    lemma_zero_initialization(cs, c, a, k);
    lemma_ancestor_in_table(cs, c, a);
    assert(class_well_formed(cs, a));
    if cs[a].kind is Instance {
        lemma_zero_initialization(cs, a, a, k);
    }
}

/// No two fields share a slot: of the instance fields that a class and its
/// superclasses declare, any two have different offsets.
pub proof fn lemma_slots_do_not_overlap(
    cs: Seq<Class>,
    c: int,
    a1: int,
    k1: int,
    a2: int,
    k2: int,
)
    requires
        well_formed(cs),
        0 <= c < cs.len(),
        cs[c].kind is Instance,
        0 <= a1 < cs.len(),
        0 <= a2 < cs.len(),
        is_self_or_ancestor(cs, c, a1),
        is_self_or_ancestor(cs, c, a2),
        0 <= k1 < inst_fields_of(cs[a1]).len(),
        0 <= k2 < inst_fields_of(cs[a2]).len(),
        a1 != a2 || k1 != k2,
    ensures
        inst_fields_of(cs[a1])[k1].offset != inst_fields_of(cs[a2])[k2].offset,
{
    lemma_zero_initialization(cs, c, a1, k1);
    lemma_zero_initialization(cs, c, a2, k2);
    assert(class_well_formed(cs, a1));
    assert(class_well_formed(cs, a2));
    assert(declared_by(cs, a1, inst_fields_of(cs[a1])[k1].field));
    assert(declared_by(cs, a2, inst_fields_of(cs[a2])[k2].field));
}

/// An ancestor of a class is a class of the table, and precedes it or is it.
pub proof fn lemma_ancestor_in_table(cs: Seq<Class>, c: int, a: int)
    requires
        is_self_or_ancestor(cs, c, a),
    ensures
        0 <= a <= c < cs.len(),
    decreases c,
{
    if a != c {
        lemma_ancestor_in_table(cs, cs[c].super_class->Some_0 as int, a);
    }
}

/// A subclass keeps the layout of its superclass: an instance of a class has
/// at least as many slots as an instance of its superclass, the slots that
/// the superclass knows belong to the same fields in both, and they start
/// out with the same values.
pub proof fn lemma_layout_subsumption(cs: Seq<Class>, c: int)
    requires
        well_formed(cs),
        0 <= c < cs.len(),
        cs[c].kind is Instance,
        cs[c].super_class is Some,
    ensures
        ({
            let s = cs[c].super_class->Some_0 as int;
            &&& 0 <= s < c
            &&& slots_of(cs, s) <= slots_of(cs, c)
            &&& forall|i: int|
                0 <= i < slots_of(cs, s) ==> #[trigger] slot_field(cs, c, i) == slot_field(cs, s, i)
            &&& forall|k: int|
                0 <= k < inst_fields_of(cs[c]).len() ==> (#[trigger] inst_fields_of(
                    cs[c],
                )[k]).offset >= slots_of(cs, s)
            &&& initial_values(cs, c).subrange(0, slots_of(cs, s)) == initial_values(cs, s)
        }),
{
    let s = cs[c].super_class->Some_0 as int;
    assert(class_well_formed(cs, c));
    assert(base_of(cs, c) == slots_of(cs, s));
    assert forall|i: int| 0 <= i < slots_of(cs, s) implies #[trigger] slot_field(cs, c, i)
        == slot_field(cs, s, i) by {}
    assert(initial_values(cs, c).subrange(0, slots_of(cs, s)) =~= initial_values(cs, s));
}

} // verus!
