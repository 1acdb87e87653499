use temporal_registry::codec::{decode_height, decode_key, encode_height, encode_key};
use temporal_registry::key::{BlockHeight, Key, KEY_MAX};
use temporal_registry::registry::{
    decode_block_height, decode_index_entry, decode_next_key, decode_record, forward_key_of,
    height_tag_bytes, index_key_of, plan_batch_write, value_index_key, RegistryError,
};
use temporal_registry::store::{Op, Space};
use temporal_registry::table::Table;

#[test]
fn key_is_three_big_endian_bytes() {
    assert_eq!(encode_key(Key::new(0x0102_03).unwrap()), vec![1, 2, 3]);
    assert_eq!(encode_key(Key::zero()), vec![0, 0, 0]);
    assert_eq!(decode_key(&[0xAB, 0xCD, 0xEF]).unwrap().as_u32(), 0xAB_CDEF);
    assert!(decode_key(&[1, 2]).is_none());
    assert!(decode_key(&[1, 2, 3, 4]).is_none());
}

#[test]
fn key_bounds() {
    assert!(Key::new(KEY_MAX).is_some());
    assert!(Key::new(KEY_MAX + 1).is_none());
    assert_eq!(Key::new(7).unwrap().next().unwrap().as_u32(), 8);
    assert!(Key::default_value().next().is_none());
}

#[test]
fn height_is_four_big_endian_bytes() {
    assert_eq!(encode_height(BlockHeight { value: 0x0A0B_0C0D }), vec![10, 11, 12, 13]);
    assert_eq!(decode_height(&[0, 0, 1, 0]).unwrap(), BlockHeight { value: 256 });
    assert!(decode_height(&[0, 0, 1]).is_none());
}

#[test]
fn value_has_varint_length_prefix() {
    let t = Table::new(b"addr".to_vec(), vec![]).unwrap();
    assert_eq!(value_index_key(&t, &b"aaaa".to_vec()), b"addr\x00\x04aaaa".to_vec());
    assert_eq!(value_index_key(&t, &vec![]), b"addr\x00\x00".to_vec());
    let long = vec![7u8; 300];
    let key = value_index_key(&t, &long);
    assert_eq!(&key[5..7], &[0xAC, 0x02]);
    assert_eq!(key.len(), 5 + 302);
    let stored = key[5..].to_vec();
    assert_eq!(decode_record(&t, Some(stored)).unwrap(), long);
    assert_eq!(decode_record(&t, Some(vec![3, 1, 2, 3])).unwrap(), vec![1, 2, 3]);
    assert_eq!(decode_record(&t, Some(vec![5, 1])), Err(RegistryError::Corrupt));
}

#[test]
fn layout_keys() {
    let t = Table::new(b"addr".to_vec(), vec![]).unwrap();
    assert_eq!(forward_key_of(&t, Key::new(2).unwrap()), b"addr\x00\x00\x00\x02".to_vec());
    assert_eq!(index_key_of(&t, &[1, b'z']), b"addr\x00\x01z".to_vec());
    assert_eq!(height_tag_bytes(), b"current_block".to_vec());
}

#[test]
fn stored_bytes_decode() {
    let t = Table::new(b"t".to_vec(), b"dflt".to_vec()).unwrap();
    assert_eq!(decode_next_key(None).unwrap(), Key::zero());
    assert_eq!(decode_next_key(Some(vec![0, 1, 0])).unwrap().as_u32(), 256);
    assert_eq!(decode_next_key(Some(vec![1])), Err(RegistryError::Corrupt));
    assert_eq!(decode_record(&t, None).unwrap(), b"dflt".to_vec());
    assert_eq!(decode_record(&t, Some(vec![2, 9, 9])).unwrap(), vec![9, 9]);
    assert_eq!(decode_record(&t, Some(vec![9])), Err(RegistryError::Corrupt));
    assert_eq!(decode_index_entry(None).unwrap(), None);
    assert_eq!(decode_index_entry(Some(vec![0, 0, 4])).unwrap(), Some(Key::new(4).unwrap()));
    assert_eq!(decode_index_entry(Some(vec![0, 4])), Err(RegistryError::Corrupt));
    assert_eq!(decode_block_height(None).unwrap(), BlockHeight { value: 0 });
    assert_eq!(decode_block_height(Some(vec![0, 0, 0, 9])).unwrap(), BlockHeight { value: 9 });
    assert_eq!(decode_block_height(Some(vec![0, 9])), Err(RegistryError::Corrupt));
}

#[test]
fn plan_orders_stale_deletes_first_and_counter_last() {
    let t = Table::new(b"t".to_vec(), vec![]).unwrap();
    let start = Key::new(1).unwrap();
    let values = vec![b"n".to_vec()];
    let olds = vec![Some(vec![1, b'o'])];
    let batch = plan_batch_write(&t, start, &values, &olds).unwrap();
    assert_eq!(batch.ops.len(), 4);
    match &batch.ops[0] {
        Op::Delete { space, key } => {
            assert_eq!(*space, Space::Index);
            assert_eq!(key, &b"t\x00\x01o".to_vec());
        }
        _ => panic!("expected the stale index entry to go first"),
    }
    match &batch.ops[3] {
        Op::Put { space, key, value } => {
            assert_eq!(*space, Space::NextKeys);
            assert_eq!(key, &b"t".to_vec());
            assert_eq!(value, &vec![0, 0, 2]);
        }
        _ => panic!("expected the counter last"),
    }
    let empty = plan_batch_write(&t, start, &vec![], &vec![]).unwrap();
    assert!(empty.ops.is_empty());
    let over = plan_batch_write(&t, Key::default_value(), &values, &vec![None]);
    assert!(matches!(over, Err(RegistryError::KeyspaceExhausted)));
}
