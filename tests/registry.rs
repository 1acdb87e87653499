use temporal_registry::key::{BlockHeight, Key, KEY_MAX};
use temporal_registry::memory::MemoryRegistry;
use temporal_registry::registry::RegistryError;
use temporal_registry::table::Table;

fn addr() -> Table {
    Table::new(b"addr".to_vec(), vec![0u8; 4]).unwrap()
}

fn key(n: u32) -> Key {
    Key::new(n).unwrap()
}

#[test]
fn scenario_addr_table() {
    let t = addr();
    let mut reg = MemoryRegistry::new();
    reg.batch_write(&t, Key::zero(), vec![b"aaaa".to_vec(), b"bbbb".to_vec()]).unwrap();
    assert_eq!(reg.next_key(&t).unwrap(), key(2));
    assert_eq!(reg.read(&t, key(0)).unwrap(), b"aaaa".to_vec());
    assert_eq!(reg.read(&t, key(1)).unwrap(), b"bbbb".to_vec());
    assert_eq!(reg.index_lookup(&t, &b"aaaa".to_vec()).unwrap(), Some(key(0)));

    reg.batch_write(&t, key(2), vec![b"aaaa".to_vec()]).unwrap();
    assert_eq!(reg.next_key(&t).unwrap(), key(3));
    assert_eq!(reg.index_lookup(&t, &b"aaaa".to_vec()).unwrap(), Some(key(2)));
    assert_eq!(reg.read(&t, key(0)).unwrap(), b"aaaa".to_vec());
}

#[test]
fn counter_follows_nonempty_batch() {
    let t = addr();
    let mut reg = MemoryRegistry::new();
    reg.batch_write(&t, key(5), vec![b"x".to_vec(), b"y".to_vec(), b"z".to_vec()]).unwrap();
    assert_eq!(reg.next_key(&t).unwrap(), key(8));
}

#[test]
fn empty_batch_leaves_counter() {
    let t = addr();
    let mut reg = MemoryRegistry::new();
    reg.batch_write(&t, key(0), vec![b"x".to_vec()]).unwrap();
    reg.batch_write(&t, key(40), vec![]).unwrap();
    assert_eq!(reg.next_key(&t).unwrap(), key(1));
    let fresh = Table::new(b"fresh".to_vec(), vec![]).unwrap();
    reg.batch_write(&fresh, key(7), vec![]).unwrap();
    assert_eq!(reg.next_key(&fresh).unwrap(), Key::zero());
}

#[test]
fn written_values_read_back() {
    let t = addr();
    let mut reg = MemoryRegistry::new();
    let values: Vec<Vec<u8>> = (0u8..20).map(|i| vec![i; i as usize]).collect();
    reg.batch_write(&t, key(100), values.clone()).unwrap();
    for (i, v) in values.iter().enumerate() {
        assert_eq!(&reg.read(&t, key(100 + i as u32)).unwrap(), v);
    }
}

#[test]
fn fresh_table_reads_default() {
    let t = addr();
    let reg = MemoryRegistry::new();
    assert_eq!(reg.read(&t, key(0)).unwrap(), vec![0u8; 4]);
    assert_eq!(reg.read(&t, key(12345)).unwrap(), vec![0u8; 4]);
    assert_eq!(reg.next_key(&t).unwrap(), Key::zero());
    assert_eq!(reg.index_lookup(&t, &b"aaaa".to_vec()).unwrap(), None);
}

#[test]
fn overwrite_moves_index() {
    let t = addr();
    let mut reg = MemoryRegistry::new();
    reg.batch_write(&t, key(0), vec![b"v".to_vec(), b"w".to_vec()]).unwrap();
    assert_eq!(reg.index_lookup(&t, &b"v".to_vec()).unwrap(), Some(key(0)));
    reg.batch_write(&t, key(0), vec![b"v2".to_vec()]).unwrap();
    assert_eq!(reg.index_lookup(&t, &b"v".to_vec()).unwrap(), None);
    assert_eq!(reg.index_lookup(&t, &b"v2".to_vec()).unwrap(), Some(key(0)));
    assert_eq!(reg.index_lookup(&t, &b"w".to_vec()).unwrap(), Some(key(1)));
    assert_eq!(reg.read(&t, key(0)).unwrap(), b"v2".to_vec());
}

#[test]
fn overwritten_value_written_again_in_same_batch_stays_indexed() {
    let t = addr();
    let mut reg = MemoryRegistry::new();
    reg.batch_write(&t, key(1), vec![b"a".to_vec()]).unwrap();
    reg.batch_write(&t, key(0), vec![b"a".to_vec(), b"b".to_vec()]).unwrap();
    assert_eq!(reg.index_lookup(&t, &b"a".to_vec()).unwrap(), Some(key(0)));
    assert_eq!(reg.index_lookup(&t, &b"b".to_vec()).unwrap(), Some(key(1)));
}

#[test]
fn duplicate_values_in_batch_index_last() {
    let t = addr();
    let mut reg = MemoryRegistry::new();
    reg.batch_write(&t, key(0), vec![b"d".to_vec(), b"e".to_vec(), b"d".to_vec()]).unwrap();
    assert_eq!(reg.index_lookup(&t, &b"d".to_vec()).unwrap(), Some(key(2)));
}

#[test]
fn tables_are_separate() {
    let a = addr();
    let b = Table::new(b"asset".to_vec(), b"none".to_vec()).unwrap();
    let mut reg = MemoryRegistry::new();
    reg.batch_write(&a, key(0), vec![b"shared".to_vec()]).unwrap();
    assert_eq!(reg.next_key(&b).unwrap(), Key::zero());
    assert_eq!(reg.read(&b, key(0)).unwrap(), b"none".to_vec());
    assert_eq!(reg.index_lookup(&b, &b"shared".to_vec()).unwrap(), None);
}

#[test]
fn exhausted_keyspace_changes_nothing() {
    let t = addr();
    let mut reg = MemoryRegistry::new();
    reg.batch_write(&t, key(KEY_MAX - 3), vec![b"p".to_vec()]).unwrap();
    let r = reg.batch_write(&t, key(KEY_MAX - 1), vec![b"q".to_vec(), b"r".to_vec()]);
    assert_eq!(r, Err(RegistryError::KeyspaceExhausted));
    assert_eq!(reg.next_key(&t).unwrap(), key(KEY_MAX - 2));
    assert_eq!(reg.read(&t, key(KEY_MAX - 1)).unwrap(), vec![0u8; 4]);
    assert_eq!(reg.index_lookup(&t, &b"q".to_vec()).unwrap(), None);
    reg.batch_write(&t, key(KEY_MAX - 1), vec![b"q".to_vec()]).unwrap();
    assert_eq!(reg.next_key(&t).unwrap(), Key::default_value());
}

#[test]
fn fresh_store_height_is_zero() {
    let reg = MemoryRegistry::new();
    assert_eq!(reg.next_block_height().unwrap(), BlockHeight { value: 0 });
}

#[test]
fn height_is_stored_and_reported() {
    let mut reg = MemoryRegistry::new();
    reg.set_next_block_height(BlockHeight { value: 0x0102_0304 });
    assert_eq!(reg.next_block_height().unwrap(), BlockHeight { value: 0x0102_0304 });
}

#[test]
fn table_name_with_zero_byte_is_refused() {
    assert!(Table::new(vec![b'a', 0, b'b'], vec![]).is_none());
    assert!(Table::new(b"ab".to_vec(), vec![]).is_some());
}
