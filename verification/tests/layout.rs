use horse_racing::state::{
    first_slot_of, key_eq, read_key, shift_out_slot, write_key, write_u32_le, KeyBytes,
    OperatorWhiteList,
};

fn key(n: u8) -> KeyBytes {
    [n; 32]
}

#[test]
fn keys_compare_bytewise() {
    let mut a = key(3);
    assert!(key_eq(&a, &key(3)));
    a[31] = 4;
    assert!(!key_eq(&a, &key(3)));
}

#[test]
fn keys_round_trip_through_bytes() {
    let mut data = vec![9u8; 40];
    let mut k = [0u8; 32];
    for (i, b) in k.iter_mut().enumerate() {
        *b = i as u8;
    }
    write_key(&mut data, 4, &k);
    assert_eq!(read_key(&data, 4), k);
    assert_eq!(&data[..4], &[9, 9, 9, 9]);
    assert_eq!(&data[36..], &[9, 9, 9, 9]);
}

#[test]
fn u32_is_written_little_endian() {
    let mut data = vec![0xAAu8; 6];
    write_u32_le(&mut data, 1, 0x1234_5678);
    assert_eq!(data, vec![0xAA, 0x78, 0x56, 0x34, 0x12, 0xAA]);
}

#[test]
fn first_slot_and_shift() {
    let mut list = OperatorWhiteList { operator_array: [[0u8; 32]; 10], operator_cnt: 4, bump: 1 };
    for (i, n) in [1u8, 2, 3, 2].iter().enumerate() {
        list.operator_array[i] = key(*n);
    }
    assert_eq!(first_slot_of(&list, &key(2)), Some(1));
    assert_eq!(first_slot_of(&list, &key(7)), None);
    // Slot 4 is not in use, so a key there is not found.
    list.operator_array[4] = key(8);
    assert_eq!(first_slot_of(&list, &key(8)), None);
    shift_out_slot(&mut list, 1);
    assert_eq!(&list.operator_array[..5], &[key(1), key(3), key(2), key(2), key(8)]);
    assert_eq!(list.operator_cnt, 4);
}
