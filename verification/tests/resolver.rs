use jvm_fields::{
    get_field_ref, ClassState, ClassTable, ConstantPool, ConstantPoolEntry, FieldInfo,
    LinkageError, Oop, ValueType, ACC_FINAL, ACC_STATIC,
};

// The pool of a class that refers to fields of `demo/Base` and `demo/Derived`.
fn linking_pool() -> ConstantPool {
    ConstantPool::new(vec![
        ConstantPoolEntry::Unusable,                                             // 0
        ConstantPoolEntry::utf8(b"demo/Base".to_vec()),                          // 1
        ConstantPoolEntry::Class { name_index: 1 },                              // 2
        ConstantPoolEntry::utf8(b"demo/Derived".to_vec()),                       // 3
        ConstantPoolEntry::Class { name_index: 3 },                              // 4
        ConstantPoolEntry::utf8(b"x".to_vec()),                                  // 5
        ConstantPoolEntry::utf8(b"I".to_vec()),                                  // 6
        ConstantPoolEntry::NameAndType { name_index: 5, desc_index: 6 },         // 7  x:I
        ConstantPoolEntry::utf8(b"y".to_vec()),                                  // 8
        ConstantPoolEntry::utf8(b"J".to_vec()),                                  // 9
        ConstantPoolEntry::NameAndType { name_index: 8, desc_index: 9 },         // 10 y:J
        ConstantPoolEntry::utf8(b"LIMIT".to_vec()),                              // 11
        ConstantPoolEntry::NameAndType { name_index: 11, desc_index: 6 },        // 12 LIMIT:I
        ConstantPoolEntry::Fieldref { class_index: 2, name_and_type_index: 7 },  // 13 Base.x:I
        ConstantPoolEntry::Fieldref { class_index: 4, name_and_type_index: 7 },  // 14 Derived.x:I
        ConstantPoolEntry::Fieldref { class_index: 4, name_and_type_index: 10 }, // 15 Derived.y:J
        ConstantPoolEntry::Fieldref { class_index: 4, name_and_type_index: 12 }, // 16 Derived.LIMIT:I
        ConstantPoolEntry::Fieldref { class_index: 2, name_and_type_index: 10 }, // 17 Base.y:J
        ConstantPoolEntry::NameAndType { name_index: 5, desc_index: 9 },         // 18 x:J
        ConstantPoolEntry::Fieldref { class_index: 4, name_and_type_index: 18 }, // 19 Derived.x:J
        ConstantPoolEntry::utf8(b"demo/Missing".to_vec()),                       // 20
        ConstantPoolEntry::Class { name_index: 20 },                             // 21
        ConstantPoolEntry::Fieldref { class_index: 21, name_and_type_index: 7 }, // 22 Missing.x:I
        ConstantPoolEntry::Fieldref { class_index: 2, name_and_type_index: 2 },  // 23 bad name and type
        ConstantPoolEntry::Fieldref { class_index: 7, name_and_type_index: 7 },  // 24 bad class
        ConstantPoolEntry::integer(100),                                         // 25
        ConstantPoolEntry::utf8(b"[I".to_vec()),                                 // 26
        ConstantPoolEntry::Class { name_index: 26 },                             // 27
        ConstantPoolEntry::Fieldref { class_index: 27, name_and_type_index: 7 }, // 28 [I.x:I
    ])
}

fn member(flags: u16, name_index: u16, desc_index: u16) -> FieldInfo {
    FieldInfo { access_flags: flags, name_index, desc_index, attrs: vec![] }
}

// Base declares x:I and static LIMIT:I; Derived extends Base and declares y:J and x:J.
fn linked_table(cp: &ConstantPool) -> ClassTable {
    let mut table = ClassTable::new();
    let base = table
        .define_class(
            b"demo/Base".to_vec(),
            None,
            vec![],
            cp,
            &vec![member(0, 5, 6), member(ACC_STATIC | ACC_FINAL, 11, 6)],
        )
        .unwrap();
    table
        .define_class(
            b"demo/Derived".to_vec(),
            Some(base),
            vec![],
            cp,
            &vec![member(0, 8, 9), member(0, 5, 9)],
        )
        .unwrap();
    table
}

#[test]
fn a_reference_resolves_to_the_declared_field() {
    let cp = linking_pool();
    let mut table = linked_table(&cp);
    let id = get_field_ref(&mut table, &cp, 13, false).unwrap();
    assert_eq!(id.offset, 0);
    assert_eq!(id.field.name, b"x".to_vec());
    assert_eq!(id.field.desc, b"I".to_vec());
    assert_eq!(id.field.class, 0);
    assert_eq!(id.field.value_type, ValueType::Int);
    assert_eq!(id.field.debug_string(), "demo/Base:x:I");
}

#[test]
fn an_inherited_field_is_found_in_the_superclass() {
    let cp = linking_pool();
    let mut table = linked_table(&cp);
    let inherited = get_field_ref(&mut table, &cp, 14, false).unwrap();
    assert_eq!(inherited.offset, 0);
    assert_eq!(inherited.field.cls_name, b"demo/Base".to_vec());
    let own = get_field_ref(&mut table, &cp, 15, false).unwrap();
    assert_eq!(own.offset, 1);
    assert_eq!(own.field.cls_name, b"demo/Derived".to_vec());
    let constant = get_field_ref(&mut table, &cp, 16, true).unwrap();
    assert_eq!(constant.offset, 0);
    assert_eq!(constant.field.name, b"LIMIT".to_vec());
    assert!(constant.field.is_static() && constant.field.is_final());
}

#[test]
fn a_field_is_identified_by_name_and_descriptor() {
    let cp = linking_pool();
    let mut table = linked_table(&cp);
    let as_int = get_field_ref(&mut table, &cp, 14, false).unwrap();
    let as_long = get_field_ref(&mut table, &cp, 19, false).unwrap();
    assert_eq!((as_int.offset, as_int.field.value_type), (0, ValueType::Int));
    assert_eq!((as_long.offset, as_long.field.value_type), (2, ValueType::Long));
    assert_eq!(as_long.field.class, 1);
}

#[test]
fn an_instance_field_asked_for_as_static_is_an_incompatible_change() {
    let cp = linking_pool();
    let mut table = linked_table(&cp);
    assert!(get_field_ref(&mut table, &cp, 13, true) == Err(LinkageError::IncompatibleClassChange));
    assert!(get_field_ref(&mut table, &cp, 14, true) == Err(LinkageError::IncompatibleClassChange));
}

#[test]
fn a_static_field_asked_for_as_instance_is_an_incompatible_change() {
    let cp = linking_pool();
    let mut table = linked_table(&cp);
    assert!(get_field_ref(&mut table, &cp, 16, false) == Err(LinkageError::IncompatibleClassChange));
}

#[test]
fn a_field_that_no_class_declares_is_not_found() {
    let cp = linking_pool();
    let mut table = linked_table(&cp);
    assert!(get_field_ref(&mut table, &cp, 17, false) == Err(LinkageError::NoSuchField));
    assert!(get_field_ref(&mut table, &cp, 17, true) == Err(LinkageError::NoSuchField));
}

#[test]
fn a_class_that_is_not_loaded_is_not_found() {
    let cp = linking_pool();
    let mut table = linked_table(&cp);
    assert!(get_field_ref(&mut table, &cp, 22, false) == Err(LinkageError::ClassNotFound));
    assert!(get_field_ref(&mut table, &cp, 24, false) == Err(LinkageError::ClassNotFound));
    assert_eq!(table.state(0), Some(ClassState::Loaded));
    assert_eq!(table.state(1), Some(ClassState::Loaded));
}

#[test]
fn an_entry_that_is_no_field_reference_is_refused() {
    let cp = linking_pool();
    let mut table = linked_table(&cp);
    for idx in [0usize, 7, 25, 29, 4000] {
        assert!(get_field_ref(&mut table, &cp, idx, false) == Err(LinkageError::WrongConstantTag));
    }
    assert_eq!(table.state(0), Some(ClassState::Loaded));
}

#[test]
fn a_bad_name_and_type_is_refused_after_the_class_was_asked_to_initialize() {
    let cp = linking_pool();
    let mut table = linked_table(&cp);
    assert!(get_field_ref(&mut table, &cp, 23, false) == Err(LinkageError::WrongConstantTag));
    assert_eq!(table.state(0), Some(ClassState::BeingInitialized));
}

#[test]
fn resolving_asks_for_the_initializer_of_the_named_class_only() {
    let cp = linking_pool();
    let mut table = linked_table(&cp);
    get_field_ref(&mut table, &cp, 14, false).unwrap();
    assert_eq!(table.state(1), Some(ClassState::BeingInitialized));
    assert_eq!(table.state(0), Some(ClassState::Loaded));
    assert_eq!(table.get_static(0, 0), None);
    get_field_ref(&mut table, &cp, 13, false).unwrap();
    assert_eq!(table.state(0), Some(ClassState::BeingInitialized));
    assert_eq!(table.get_static(0, 0), Some(Oop::Int(0)));
}

#[test]
fn resolving_keeps_a_class_that_is_further_along() {
    let cp = linking_pool();
    let mut table = linked_table(&cp);
    get_field_ref(&mut table, &cp, 13, false).unwrap();
    table.finish_initialization(0, true);
    get_field_ref(&mut table, &cp, 13, false).unwrap();
    assert_eq!(table.state(0), Some(ClassState::Initialized));
}

#[test]
fn resolving_twice_gives_the_same_field() {
    let cp = linking_pool();
    let mut table = linked_table(&cp);
    for (idx, is_static) in [(13usize, false), (14, false), (15, false), (16, true), (19, false)] {
        let first = get_field_ref(&mut table, &cp, idx, is_static).unwrap();
        let second = get_field_ref(&mut table, &cp, idx, is_static).unwrap();
        table.finish_initialization(0, true);
        let third = get_field_ref(&mut table, &cp, idx, is_static).unwrap();
        assert_eq!(first.offset, second.offset);
        assert_eq!(first.field.desc, second.field.desc);
        assert!(first == second);
        assert!(first == third);
    }
}

#[test]
fn a_class_that_failed_to_initialize_fails_every_resolution() {
    let cp = linking_pool();
    let mut table = linked_table(&cp);
    get_field_ref(&mut table, &cp, 15, false).unwrap();
    table.finish_initialization(1, false);
    assert!(get_field_ref(&mut table, &cp, 15, false) == Err(LinkageError::InitializationFailed));
    assert!(get_field_ref(&mut table, &cp, 14, false) == Err(LinkageError::InitializationFailed));
    assert!(get_field_ref(&mut table, &cp, 19, true) == Err(LinkageError::InitializationFailed));
    assert_eq!(table.state(1), Some(ClassState::InitializationFailed));
    assert!(get_field_ref(&mut table, &cp, 13, false).is_ok());
}

#[test]
fn a_field_of_an_array_class_is_looked_up_in_its_superclass() {
    let cp = linking_pool();
    let mut table = linked_table(&cp);
    let array = table.define_array_class(b"[I".to_vec(), Some(0)).unwrap();
    let id = get_field_ref(&mut table, &cp, 28, false).unwrap();
    assert_eq!(id.field.cls_name, b"demo/Base".to_vec());
    assert_eq!(table.state(array), Some(ClassState::BeingInitialized));
}

#[test]
fn require_class_follows_the_class_entry() {
    let cp = linking_pool();
    let table = linked_table(&cp);
    assert_eq!(table.require_class(2, &cp), Some(0));
    assert_eq!(table.require_class(4, &cp), Some(1));
    assert_eq!(table.require_class(21, &cp), None);
    assert_eq!(table.require_class(1, &cp), None);
    assert_eq!(table.require_class(99, &cp), None);
}

#[test]
fn get_field_id_walks_the_chain_upwards_only() {
    let cp = linking_pool();
    let table = linked_table(&cp);
    assert_eq!(table.get_field_id(1, b"x", b"I", false).unwrap().offset, 0);
    assert_eq!(table.get_field_id(1, b"y", b"J", false).unwrap().offset, 1);
    assert!(table.get_field_id(0, b"y", b"J", false) == Err(LinkageError::NoSuchField));
    assert!(table.get_field_id(0, b"x", b"", false) == Err(LinkageError::NoSuchField));
    assert_eq!(table.get_field_id(1, b"LIMIT", b"I", true).unwrap().field.class, 0);
    assert!(table.get_field_id(2, b"x", b"I", false) == Err(LinkageError::ClassNotFound));
}

// An interface with the constant LIMIT:I and the field x:I declared static.
fn with_interfaces(cp: &ConstantPool) -> (ClassTable, usize) {
    let mut table = ClassTable::new();
    let marker = table.define_class(b"demo/Marker".to_vec(), None, vec![], cp, &vec![]).unwrap();
    let limits = table
        .define_class(
            b"demo/Limits".to_vec(),
            None,
            vec![],
            cp,
            &vec![member(ACC_STATIC | ACC_FINAL, 11, 6)],
        )
        .unwrap();
    let extended = table
        .define_class(b"demo/Extended".to_vec(), None, vec![marker, limits], cp, &vec![])
        .unwrap();
    let base = table
        .define_class(b"demo/Base".to_vec(), None, vec![], cp, &vec![member(0, 5, 6)])
        .unwrap();
    let derived = table
        .define_class(
            b"demo/Derived".to_vec(),
            Some(base),
            vec![marker, extended],
            cp,
            &vec![member(0, 8, 9)],
        )
        .unwrap();
    (table, derived)
}

#[test]
fn a_static_field_is_found_in_an_interface() {
    let cp = linking_pool();
    let (mut table, derived) = with_interfaces(&cp);
    let id = get_field_ref(&mut table, &cp, 16, true).unwrap();
    assert_eq!(id.field.cls_name, b"demo/Limits".to_vec());
    assert_eq!(id.field.class, 1);
    assert_eq!(id.offset, 0);
    assert_eq!(table.state(derived), Some(ClassState::BeingInitialized));
    assert_eq!(table.state(1), Some(ClassState::Loaded));
}

#[test]
fn an_instance_field_is_not_sought_in_interfaces() {
    let cp = linking_pool();
    let (mut table, _) = with_interfaces(&cp);
    assert!(get_field_ref(&mut table, &cp, 16, false) == Err(LinkageError::NoSuchField));
    assert_eq!(get_field_ref(&mut table, &cp, 14, false).unwrap().offset, 0);
}

#[test]
fn interfaces_are_asked_before_the_superclass() {
    let cp = linking_pool();
    let mut table = ClassTable::new();
    let constants = table
        .define_class(
            b"demo/Constants".to_vec(),
            None,
            vec![],
            &cp,
            &vec![member(ACC_STATIC, 11, 6)],
        )
        .unwrap();
    let other = table
        .define_class(
            b"demo/Other".to_vec(),
            None,
            vec![],
            &cp,
            &vec![member(ACC_STATIC, 11, 6)],
        )
        .unwrap();
    let base = table
        .define_class(
            b"demo/Base".to_vec(),
            None,
            vec![],
            &cp,
            &vec![member(ACC_STATIC, 11, 6), member(0, 5, 6)],
        )
        .unwrap();
    let derived = table
        .define_class(b"demo/Derived".to_vec(), Some(base), vec![other, constants], &cp, &vec![])
        .unwrap();
    let found = table.get_field_id(derived, b"LIMIT", b"I", true).unwrap();
    assert_eq!(found.field.class, other);
    let own = table.get_field_id(base, b"LIMIT", b"I", true).unwrap();
    assert_eq!(own.field.class, base);
    assert!(table.get_field_id(derived, b"x", b"I", true) == Err(LinkageError::IncompatibleClassChange));
    assert!(table.get_field_id(derived, b"y", b"J", true) == Err(LinkageError::NoSuchField));
}

#[test]
fn an_instance_field_in_an_interface_stops_a_static_lookup() {
    let cp = linking_pool();
    let mut table = ClassTable::new();
    let odd = table
        .define_class(b"demo/Odd".to_vec(), None, vec![], &cp, &vec![member(0, 11, 6)])
        .unwrap();
    let base = table
        .define_class(
            b"demo/Base".to_vec(),
            None,
            vec![],
            &cp,
            &vec![member(ACC_STATIC, 11, 6)],
        )
        .unwrap();
    let derived = table
        .define_class(b"demo/Derived".to_vec(), Some(base), vec![odd], &cp, &vec![])
        .unwrap();
    assert!(
        table.get_field_id(derived, b"LIMIT", b"I", true)
            == Err(LinkageError::IncompatibleClassChange)
    );
    assert!(
        table.get_field_id(derived, b"LIMIT", b"I", false)
            == Err(LinkageError::IncompatibleClassChange)
    );
}

#[test]
fn an_interface_must_be_loaded_before_the_class_that_names_it() {
    let cp = linking_pool();
    let mut table = ClassTable::new();
    assert_eq!(
        table.define_class(b"demo/Early".to_vec(), None, vec![0], &cp, &vec![]),
        Err(LinkageError::ClassNotFound)
    );
    let first = table.define_class(b"demo/First".to_vec(), None, vec![], &cp, &vec![]).unwrap();
    assert_eq!(
        table.define_class(b"demo/Second".to_vec(), None, vec![first, 1], &cp, &vec![]),
        Err(LinkageError::ClassNotFound)
    );
    assert_eq!(
        table.define_class(b"demo/Second".to_vec(), Some(7), vec![9], &cp, &vec![member(0, 0, 0)]),
        Err(LinkageError::ClassNotFound)
    );
    assert_eq!(
        table.define_class(b"demo/Second".to_vec(), None, vec![first, first], &cp, &vec![]),
        Ok(1)
    );
    assert_eq!(table.get(1).unwrap().interfaces, vec![first, first]);
    assert_eq!(table.len(), 2);
}

#[test]
fn the_initializer_is_due_once() {
    let cp = linking_pool();
    let mut table = linked_table(&cp);
    assert_eq!(table.initializer_due(&cp, 14), Some(1));
    assert_eq!(table.initializer_due(&cp, 13), Some(0));
    assert_eq!(table.initializer_due(&cp, 22), None);
    assert_eq!(table.initializer_due(&cp, 7), None);
    table.init_class(1);
    assert_eq!(table.initializer_due(&cp, 14), Some(1));
    get_field_ref(&mut table, &cp, 14, false).unwrap();
    assert_eq!(table.state(1), Some(ClassState::BeingInitialized));
    assert_eq!(table.initializer_due(&cp, 14), None);
    assert_eq!(table.initializer_due(&cp, 13), Some(0));
    table.finish_initialization(1, false);
    assert_eq!(table.initializer_due(&cp, 15), None);
    assert!(get_field_ref(&mut table, &cp, 17, false) == Err(LinkageError::NoSuchField));
    assert_eq!(table.initializer_due(&cp, 13), None);
    assert_eq!(table.state(0), Some(ClassState::BeingInitialized));
}
