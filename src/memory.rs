use vstd::prelude::*;

use crate::codec::{height_bytes, value_bytes};
use crate::key::{BlockHeight, Key, KEY_MAX};
use crate::registry::{
    after_batch_write, decode_block_height, decode_index_entry, decode_next_key, decode_record,
    forward_key, forward_key_of, height_result, height_tag, height_tag_bytes, index_key,
    index_result, next_key_result, olds_view, plan_batch_write,
    plan_set_block_height, record_result, records_at, value_index_key, values_view,
    RegistryError,
};
use crate::store::{lookup, MemoryStore, Space, StoreModel};
use crate::table::Table;

verus! {

/// A temporal registry over an in-memory store of the four partitions.
pub struct MemoryRegistry {
    store: MemoryStore,
}

impl MemoryRegistry {
    /// The contents of the four partitions.
    pub closed spec fn view(&self) -> StoreModel {
        self.store@
    }

    pub closed spec fn wf(&self) -> bool {
        self.store.wf()
    }

    /// A registry with nothing written.
    pub fn new() -> (r: MemoryRegistry)
        ensures
            r.wf(),
            r@ == Map::<(Space, Seq<u8>), Seq<u8>>::empty(),
    {
        MemoryRegistry { store: MemoryStore::new() }
    }

    /// The next key the table will allocate; zero for a table never written.
    pub fn next_key(&self, t: &Table) -> (r: Result<Key, RegistryError>)
        requires
            self.wf(),
        ensures
            next_key_result(lookup(self@, (Space::NextKeys, t.name_spec())), r),
    {
        decode_next_key(self.store.get(Space::NextKeys, t.name()))
    }

    /// The value stored at `key`, or the table's default where none is.
    /// The sentinel key addresses no value and may not be read.
    pub fn read(&self, t: &Table, key: Key) -> (r: Result<Vec<u8>, RegistryError>)
        requires
            self.wf(),
            key@ != KEY_MAX,
        ensures
            record_result(
                t.default_spec(),
                lookup(self@, (Space::Forward, forward_key(t.name_spec(), key@))),
                r,
            ),
    {
        let k = forward_key_of(t, key);
        decode_record(t, self.store.get(Space::Forward, k.as_slice()))
    }

    /// Writes `values` at keys `start, start + 1, ...` as one unit: stale
    /// index entries of overwritten records are removed, each value gets an
    /// index entry, and a non-empty batch moves the counter to
    /// `start + values.len()`. Nothing changes where the batch fails.
    pub fn batch_write(&mut self, t: &Table, start: Key, values: Vec<Vec<u8>>) -> (r: Result<
        (),
        RegistryError,
    >)
        requires
            old(self).wf(),
        ensures
            final(self).wf(),
            r is Err <==> start@ + values@.len() > KEY_MAX,
            r is Err ==> r == Err::<(), RegistryError>(RegistryError::KeyspaceExhausted)
                && final(self)@ == old(self)@,
            r is Ok ==> final(self)@ == after_batch_write(
                old(self)@,
                t.name_spec(),
                start@,
                values_view(values@),
            ),
    {
        let s = start.as_u32();
        if values.len() > (KEY_MAX - s) as usize {
            return Err(RegistryError::KeyspaceExhausted);
        }
        let ghost m0 = self@;
        let ghost name = t.name_spec();
        let mut olds: Vec<Option<Vec<u8>>> = Vec::new();
        let mut i: usize = 0;
        while i < values.len()
            invariant
                self.wf(),
                self@ == m0,
                name == t.name_spec(),
                s == start@,
                s + values@.len() <= KEY_MAX,
                i <= values@.len(),
                olds@.len() == i,
                olds_view(olds@) == records_at(m0, name, start@, values@.len()).take(i as int),
            decreases values@.len() - i,
        {
            let k = Key::new(s + i as u32).unwrap();
            let fk = forward_key_of(t, k);
            let old_record = self.store.get(Space::Forward, fk.as_slice());
            let ghost prev = olds@;
            olds.push(old_record);
            proof {
                assert(olds@ == prev.push(old_record));
                assert(olds_view(olds@) =~= records_at(m0, name, start@, values@.len()).take(
                    i as int + 1,
                ));
            }
            i = i + 1;
        }
        proof {
            assert(records_at(m0, name, start@, values@.len()).take(values@.len() as int)
                =~= records_at(m0, name, start@, values@.len()));
        }
        let batch = plan_batch_write(t, start, &values, &olds).unwrap();
        self.store.write(&batch);
        Ok(())
    }

    /// The key of `value` in the table's reverse index, if it has one.
    pub fn index_lookup(&self, t: &Table, value: &Vec<u8>) -> (r: Result<Option<Key>, RegistryError>)
        requires
            self.wf(),
        ensures
            index_result(
                lookup(self@, (Space::Index, index_key(t.name_spec(), value_bytes(value@)))),
                r,
            ),
    {
        let k = value_index_key(t, value);
        decode_index_entry(self.store.get(Space::Index, k.as_slice()))
    }

    /// The block height the registry's contents are valid for; zero where
    /// none was recorded.
    pub fn next_block_height(&self) -> (r: Result<BlockHeight, RegistryError>)
        requires
            self.wf(),
        ensures
            height_result(lookup(self@, (Space::Meta, height_tag())), r),
    {
        let tag = height_tag_bytes();
        decode_block_height(self.store.get(Space::Meta, tag.as_slice()))
    }

    /// Records the block height the registry's contents are valid for.
    pub fn set_next_block_height(&mut self, h: BlockHeight)
        requires
            old(self).wf(),
        ensures
            final(self).wf(),
            final(self)@ == old(self)@.insert((Space::Meta, height_tag()), height_bytes(h.value as nat)),
    {
        let batch = plan_set_block_height(h);
        self.store.write(&batch);
    }
}

} // verus!
