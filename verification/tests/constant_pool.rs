use jvm_fields::endian::{
    i32_from_be_bytes, i32_to_be_bytes, i64_from_be_bytes, i64_to_be_bytes, u32_from_be_bytes,
    u32_to_be_bytes, u64_from_be_bytes, u64_to_be_bytes,
};
use jvm_fields::constant_pool::MAX_ENTRIES;
use jvm_fields::{ConstantPool, ConstantPoolEntry, Oop, PoolError};

fn sample_pool() -> ConstantPool {
    ConstantPool::new(vec![
        ConstantPoolEntry::Unusable,                                              // 0
        ConstantPoolEntry::utf8(b"count".to_vec()),                               // 1
        ConstantPoolEntry::utf8(b"I".to_vec()),                                   // 2
        ConstantPoolEntry::NameAndType { name_index: 1, desc_index: 2 },          // 3
        ConstantPoolEntry::utf8(b"demo/Counter".to_vec()),                        // 4
        ConstantPoolEntry::Class { name_index: 4 },                               // 5
        ConstantPoolEntry::Fieldref { class_index: 5, name_and_type_index: 3 },   // 6
        ConstantPoolEntry::Integer { bytes: [0x7f, 0xff, 0xff, 0xff] },           // 7
        ConstantPoolEntry::Long { bytes: [0xff, 0xff, 0xff, 0xff, 0xff, 0xff, 0xff, 0xfe] }, // 8
        ConstantPoolEntry::Unusable,                                              // 9
        ConstantPoolEntry::Float { bytes: [0x3f, 0xc0, 0x00, 0x00] },             // 10
        ConstantPoolEntry::Double { bytes: [0x40, 0x09, 0x21, 0xf9, 0xf0, 0x1b, 0x86, 0x6e] }, // 11
        ConstantPoolEntry::Unusable,                                              // 12
        ConstantPoolEntry::String { string_index: 1 },                            // 13
        ConstantPoolEntry::NameAndType { name_index: 1, desc_index: 5 },          // 14
        ConstantPoolEntry::NameAndType { name_index: 99, desc_index: 2 },         // 15
        ConstantPoolEntry::String { string_index: 7 },                            // 16
        ConstantPoolEntry::Class { name_index: 7 },                               // 17
        ConstantPoolEntry::Methodref { class_index: 5, name_and_type_index: 3 },  // 18
    ])
}

#[test]
fn get_returns_the_entry_or_nothing() {
    let cp = sample_pool();
    assert_eq!(cp.len(), 19);
    assert_eq!(cp.get(0), Some(&ConstantPoolEntry::Unusable));
    assert_eq!(cp.get(5), Some(&ConstantPoolEntry::Class { name_index: 4 }));
    assert_eq!(cp.get(19), None);
}

#[test]
fn get_utf8_returns_the_bytes() {
    let cp = sample_pool();
    assert_eq!(cp.get_utf8(1), Ok(&b"count".to_vec()));
    assert_eq!(cp.get_utf8(4), Ok(&b"demo/Counter".to_vec()));
}

#[test]
fn get_utf8_tells_a_wrong_entry_from_a_missing_one() {
    let cp = sample_pool();
    assert_eq!(cp.get_utf8(3), Err(PoolError::NotUtf8));
    assert_eq!(cp.get_utf8(0), Err(PoolError::NotUtf8));
    assert_eq!(cp.get_utf8(19), Err(PoolError::OutOfRange));
    assert_eq!(cp.get_utf8(usize::MAX), Err(PoolError::OutOfRange));
}

#[test]
fn get_name_and_type_follows_both_indices() {
    let cp = sample_pool();
    assert_eq!(cp.get_name_and_type(3), Ok((&b"count".to_vec(), &b"I".to_vec())));
}

#[test]
fn get_name_and_type_refuses_other_tags() {
    let cp = sample_pool();
    assert_eq!(cp.get_name_and_type(6), Err(PoolError::WrongTag));
    assert_eq!(cp.get_name_and_type(0), Err(PoolError::WrongTag));
    assert_eq!(cp.get_name_and_type(400), Err(PoolError::WrongTag));
}

#[test]
fn get_name_and_type_reports_what_its_indices_lead_to() {
    let cp = sample_pool();
    assert_eq!(cp.get_name_and_type(14), Err(PoolError::NotUtf8));
    assert_eq!(cp.get_name_and_type(15), Err(PoolError::OutOfRange));
}

#[test]
fn get_fieldref_returns_both_indices() {
    let cp = sample_pool();
    assert_eq!(cp.get_fieldref(6), Ok((5, 3)));
}

#[test]
fn get_fieldref_refuses_other_tags() {
    let cp = sample_pool();
    assert_eq!(cp.get_fieldref(18), Err(PoolError::WrongTag));
    assert_eq!(cp.get_fieldref(3), Err(PoolError::WrongTag));
    assert_eq!(cp.get_fieldref(19), Err(PoolError::WrongTag));
}

#[test]
fn get_class_name_follows_the_class_entry() {
    let cp = sample_pool();
    assert_eq!(cp.get_class_name(5), Ok(&b"demo/Counter".to_vec()));
    assert_eq!(cp.get_class_name(4), Err(PoolError::WrongTag));
    assert_eq!(cp.get_class_name(17), Err(PoolError::NotUtf8));
    assert_eq!(cp.get_class_name(77), Err(PoolError::WrongTag));
}

#[test]
fn numbers_are_decoded_from_big_endian_bytes() {
    let cp = sample_pool();
    assert_eq!(cp.get_constant(7), Ok(Oop::Int(2147483647)));
    assert_eq!(cp.get_constant(8), Ok(Oop::Long(-2)));
    assert_eq!(cp.get_constant(10), Ok(Oop::Float(0x3fc0_0000)));
    assert_eq!(cp.get_constant(11), Ok(Oop::Double(0x4009_21f9_f01b_866e)));
}

#[test]
fn float_constants_are_bit_exact() {
    let cp = sample_pool();
    match cp.get_constant(10) {
        Ok(Oop::Float(bits)) => assert_eq!(f32::from_bits(bits), 1.5f32),
        other => panic!("not a float: {:?}", other),
    }
    match cp.get_constant(11) {
        Ok(Oop::Double(bits)) => assert_eq!(f64::from_bits(bits), 3.14159f64),
        other => panic!("not a double: {:?}", other),
    }
}

#[test]
fn a_string_constant_is_the_bytes_it_points_to() {
    let cp = sample_pool();
    assert_eq!(cp.get_constant(13), Ok(Oop::ConstUtf8(b"count".to_vec())));
    assert_eq!(cp.get_constant(16), Err(PoolError::NotUtf8));
}

#[test]
fn get_constant_refuses_what_is_no_constant() {
    let cp = sample_pool();
    assert_eq!(cp.get_constant(1), Err(PoolError::WrongTag));
    assert_eq!(cp.get_constant(5), Err(PoolError::WrongTag));
    assert_eq!(cp.get_constant(0), Err(PoolError::WrongTag));
    assert_eq!(cp.get_constant(19), Err(PoolError::WrongTag));
}

#[test]
fn decoding_gives_the_exact_numbers() {
    assert_eq!(u32_from_be_bytes(&[0x12, 0x34, 0x56, 0x78]), 0x1234_5678);
    assert_eq!(i32_from_be_bytes(&[0x80, 0x00, 0x00, 0x00]), i32::MIN);
    assert_eq!(i32_from_be_bytes(&[0xff, 0xff, 0xff, 0xff]), -1);
    assert_eq!(i32_from_be_bytes(&[0x00, 0x00, 0x01, 0x00]), 256);
    assert_eq!(
        u64_from_be_bytes(&[0x01, 0x02, 0x03, 0x04, 0x05, 0x06, 0x07, 0x08]),
        0x0102_0304_0506_0708
    );
    assert_eq!(i64_from_be_bytes(&[0x80, 0, 0, 0, 0, 0, 0, 0]), i64::MIN);
    assert_eq!(i64_from_be_bytes(&[0x7f, 0xff, 0xff, 0xff, 0xff, 0xff, 0xff, 0xff]), i64::MAX);
}

#[test]
fn decoding_agrees_with_the_standard_library() {
    let samples: [[u8; 8]; 4] = [
        [0, 0, 0, 0, 0, 0, 0, 0],
        [0xde, 0xad, 0xbe, 0xef, 0x01, 0x23, 0x45, 0x67],
        [0xff, 0xff, 0xff, 0xff, 0xff, 0xff, 0xff, 0xff],
        [0x80, 0x00, 0x00, 0x01, 0x7f, 0xff, 0xff, 0xfe],
    ];
    for b in samples.iter() {
        let four = [b[0], b[1], b[2], b[3]];
        assert_eq!(u32_from_be_bytes(&four), u32::from_be_bytes(four));
        assert_eq!(i32_from_be_bytes(&four), i32::from_be_bytes(four));
        assert_eq!(u64_from_be_bytes(b), u64::from_be_bytes(*b));
        assert_eq!(i64_from_be_bytes(b), i64::from_be_bytes(*b));
    }
}

#[test]
fn encoding_is_big_endian() {
    assert_eq!(u32_to_be_bytes(0x1234_5678), [0x12, 0x34, 0x56, 0x78]);
    assert_eq!(i32_to_be_bytes(-2), [0xff, 0xff, 0xff, 0xfe]);
    assert_eq!(u64_to_be_bytes(1), [0, 0, 0, 0, 0, 0, 0, 1]);
    assert_eq!(i64_to_be_bytes(i64::MIN), [0x80, 0, 0, 0, 0, 0, 0, 0]);
}

#[test]
fn what_is_spelled_is_read_back() {
    for n in [0i32, 1, -1, 42, i32::MAX, i32::MIN, 0x0102_0304, -0x0102_0304] {
        let cp = ConstantPool::new(vec![ConstantPoolEntry::integer(n)]);
        assert_eq!(cp.get_constant(0), Ok(Oop::Int(n)));
    }
    for n in [0i64, 1, -1, i64::MAX, i64::MIN, 0x0102_0304_0506_0708] {
        let cp = ConstantPool::new(vec![ConstantPoolEntry::long(n)]);
        assert_eq!(cp.get_constant(0), Ok(Oop::Long(n)));
    }
    for x in [0.0f32, -0.0, 1.5, f32::MAX, f32::MIN_POSITIVE, f32::INFINITY] {
        let cp = ConstantPool::new(vec![ConstantPoolEntry::float(x.to_bits())]);
        assert_eq!(cp.get_constant(0), Ok(Oop::Float(x.to_bits())));
    }
    for x in [0.0f64, -0.0, 3.14159, f64::MAX, f64::EPSILON, f64::NEG_INFINITY] {
        let cp = ConstantPool::new(vec![ConstantPoolEntry::double(x.to_bits())]);
        assert_eq!(cp.get_constant(0), Ok(Oop::Double(x.to_bits())));
    }
    let nan = f64::NAN.to_bits() | 0x5;
    let cp = ConstantPool::new(vec![ConstantPoolEntry::double(nan)]);
    assert_eq!(cp.get_constant(0), Ok(Oop::Double(nan)));
}

#[test]
fn the_builders_spell_what_the_class_file_would() {
    assert_eq!(
        ConstantPoolEntry::integer(0x7fff_ffff),
        ConstantPoolEntry::Integer { bytes: [0x7f, 0xff, 0xff, 0xff] }
    );
    assert_eq!(
        ConstantPoolEntry::double(3.14159f64.to_bits()),
        ConstantPoolEntry::Double { bytes: [0x40, 0x09, 0x21, 0xf9, 0xf0, 0x1b, 0x86, 0x6e] }
    );
    assert_eq!(
        ConstantPoolEntry::utf8(b"x".to_vec()),
        ConstantPoolEntry::Utf8 { bytes: vec![b'x'] }
    );
}

#[test]
fn push_hands_out_the_next_index() {
    let mut cp = ConstantPool::new(vec![ConstantPoolEntry::Unusable]);
    assert_eq!(cp.push(ConstantPoolEntry::utf8(b"a".to_vec())), Some(1));
    assert_eq!(cp.push(ConstantPoolEntry::Class { name_index: 1 }), Some(2));
    assert_eq!(cp.len(), 3);
    assert_eq!(cp.get_class_name(2), Ok(&b"a".to_vec()));
}

#[test]
fn a_full_pool_takes_no_more_entries() {
    let mut entries = Vec::with_capacity(MAX_ENTRIES);
    for _ in 0..MAX_ENTRIES - 1 {
        entries.push(ConstantPoolEntry::Unusable);
    }
    let mut cp = ConstantPool::new(entries);
    assert_eq!(cp.push_constant(&Oop::Long(1)), None);
    assert_eq!(cp.push_constant(&Oop::ConstUtf8(vec![])), None);
    assert_eq!(cp.len(), MAX_ENTRIES - 1);
    assert_eq!(cp.push_constant(&Oop::Int(7)), Some(0xffff));
    assert_eq!(cp.get_constant(0xffff), Ok(Oop::Int(7)));
    assert_eq!(cp.push(ConstantPoolEntry::Unusable), None);
    assert_eq!(cp.push_constant(&Oop::Float(0)), None);
    assert_eq!(cp.len(), MAX_ENTRIES);
}

#[test]
fn a_pushed_constant_is_read_back_under_its_index() {
    let mut cp = ConstantPool::new(vec![ConstantPoolEntry::Unusable]);
    let values = [
        Oop::Int(i32::MIN),
        Oop::Long(-5_000_000_000),
        Oop::Float(2.5f32.to_bits()),
        Oop::Double(3.14159f64.to_bits()),
        Oop::ConstUtf8(b"hello".to_vec()),
        Oop::Int(17),
    ];
    let mut indices = Vec::new();
    for v in values.iter() {
        indices.push(cp.push_constant(v).unwrap());
    }
    assert_eq!(indices, vec![1, 2, 4, 5, 8, 9]);
    for (v, i) in values.iter().zip(indices.iter()) {
        assert_eq!(cp.get_constant(*i as usize), Ok(v.clone()));
    }
    assert_eq!(cp.get(3), Some(&ConstantPoolEntry::Unusable));
    assert_eq!(cp.get(6), Some(&ConstantPoolEntry::Unusable));
    assert_eq!(cp.get_utf8(7), Ok(&b"hello".to_vec()));
    assert_eq!(cp.len(), 10);
}

#[test]
fn the_null_reference_cannot_be_spelled() {
    let mut cp = ConstantPool::new(vec![]);
    assert_eq!(cp.push_constant(&Oop::Null), None);
    assert_eq!(cp.len(), 0);
}
