use vstd::prelude::*;

use crate::codec::{
    decode_height, decode_key, decode_value, encode_height, encode_key, encode_value,
    height_bytes, height_of, key_bytes, key_of, value_bytes,
};
use crate::key::{BlockHeight, Key, KEY_MAX};
use crate::store::{
    apply_ops, lemma_apply_push, lookup, Op, Space, StoreModel, WriteBatch,
};
use crate::table::Table;

verus! {

/// Why a registry operation failed.
#[derive(Clone, Copy, Debug, PartialEq, Eq, Structural)]
pub enum RegistryError {
    /// The batch would carry the table's counter past the last 24-bit key.
    KeyspaceExhausted,
    /// Stored bytes do not decode: the store was not written by this registry.
    Corrupt,
}

/// Where a record of a table lives in the forward partition.
pub open spec fn forward_key(name: Seq<u8>, k: nat) -> Seq<u8> {
    name + seq![0u8] + key_bytes(k)
}

/// Where the index entry of an encoded value lives in the index partition.
pub open spec fn index_key(name: Seq<u8>, encoded: Seq<u8>) -> Seq<u8> {
    name + seq![0u8] + encoded
}

/// The meta key of the epoch marker: the bytes of `current_block`.
pub open spec fn height_tag() -> Seq<u8> {
    seq![99u8, 117, 114, 114, 101, 110, 116, 95, 98, 108, 111, 99, 107]
}

pub open spec fn values_view(vs: Seq<Vec<u8>>) -> Seq<Seq<u8>> {
    vs.map_values(|v: Vec<u8>| v@)
}

pub open spec fn olds_view(olds: Seq<Option<Vec<u8>>>) -> Seq<Option<Seq<u8>>> {
    olds.map_values(
        |o: Option<Vec<u8>>|
            match o {
                Some(b) => Some(b@),
                None => None,
            },
    )
}

/// The store with the index entries of the overwritten values taken out.
pub open spec fn clear_stale(m: StoreModel, name: Seq<u8>, olds: Seq<Option<Seq<u8>>>) -> StoreModel
    decreases olds.len(),
{
    if olds.len() == 0 {
        m
    } else {
        let m1 = clear_stale(m, name, olds.drop_last());
        match olds.last() {
            Some(b) => m1.remove((Space::Index, index_key(name, b))),
            None => m1,
        }
    }
}

/// The store with each value written at its key, first to last, together
/// with its index entry.
pub open spec fn write_records(m: StoreModel, name: Seq<u8>, start: nat, vs: Seq<Seq<u8>>) -> StoreModel
    decreases vs.len(),
{
    if vs.len() == 0 {
        m
    } else {
        let i = (vs.len() - 1) as nat;
        let enc = value_bytes(vs[i as int]);
        write_records(m, name, start, vs.drop_last()).insert(
            (Space::Forward, forward_key(name, start + i)),
            enc,
        ).insert((Space::Index, index_key(name, enc)), key_bytes(start + i))
    }
}

/// The store after a batch write of `vs` from `start`, where `olds` are the
/// encoded records that the written keys held before.
pub open spec fn batch_effect(
    m: StoreModel,
    name: Seq<u8>,
    start: nat,
    vs: Seq<Seq<u8>>,
    olds: Seq<Option<Seq<u8>>>,
) -> StoreModel {
    let written = write_records(clear_stale(m, name, olds), name, start, vs);
    if vs.len() > 0 {
        written.insert((Space::NextKeys, name), key_bytes(start + vs.len()))
    } else {
        written
    }
}

/// The records that keys `start .. start + n` of a table hold in `m`.
pub open spec fn records_at(m: StoreModel, name: Seq<u8>, start: nat, n: nat) -> Seq<Option<Seq<u8>>> {
    Seq::new(n, |i: int| lookup(m, (Space::Forward, forward_key(name, (start + i) as nat))))
}

/// The store after a batch write of `vs` from `start` on `m`, where the
/// overwritten records are those `m` holds at the written keys.
pub open spec fn after_batch_write(m: StoreModel, name: Seq<u8>, start: nat, vs: Seq<Seq<u8>>) -> StoreModel {
    batch_effect(m, name, start, vs, records_at(m, name, start, vs.len()))
}

/// What the next-key counter reads as, given the stored bytes.
pub open spec fn next_key_result(stored: Option<Seq<u8>>, r: Result<Key, RegistryError>) -> bool {
    match stored {
        None => r is Ok && r->Ok_0@ == 0,
        Some(b) => if b.len() == 3 {
            r is Ok && r->Ok_0@ == key_of(b)
        } else {
            r == Err::<Key, RegistryError>(RegistryError::Corrupt)
        },
    }
}

/// What a record reads as, given the stored bytes and the table's default.
pub open spec fn record_result(
    default: Seq<u8>,
    stored: Option<Seq<u8>>,
    r: Result<Vec<u8>, RegistryError>,
) -> bool {
    match stored {
        None => r is Ok && r->Ok_0@ == default,
        Some(b) => (forall|v: Seq<u8>| #[trigger] value_bytes(v) == b ==> r is Ok && r->Ok_0@ == v)
            && (r is Err ==> r == Err::<Vec<u8>, RegistryError>(RegistryError::Corrupt)),
    }
}

/// What an index entry reads as, given the stored bytes.
pub open spec fn index_result(stored: Option<Seq<u8>>, r: Result<Option<Key>, RegistryError>) -> bool {
    match stored {
        None => r == Ok::<Option<Key>, RegistryError>(None),
        Some(b) => if b.len() == 3 {
            r is Ok && r->Ok_0 is Some && r->Ok_0->Some_0@ == key_of(b)
        } else {
            r == Err::<Option<Key>, RegistryError>(RegistryError::Corrupt)
        },
    }
}

/// What the epoch marker reads as, given the stored bytes.
pub open spec fn height_result(stored: Option<Seq<u8>>, r: Result<BlockHeight, RegistryError>) -> bool {
    match stored {
        None => r is Ok && r->Ok_0.value == 0,
        Some(b) => if b.len() == 4 {
            r is Ok && r->Ok_0.value == height_of(b)
        } else {
            r == Err::<BlockHeight, RegistryError>(RegistryError::Corrupt)
        },
    }
}

/// `prefix`, a zero byte, then `rest`.
fn joined(prefix: &[u8], rest: &[u8]) -> (r: Vec<u8>)
    ensures
        r@ == prefix@ + seq![0u8] + rest@,
{
    let mut r: Vec<u8> = Vec::new();
    let mut i: usize = 0;
    while i < prefix.len()
        invariant
            i <= prefix@.len(),
            r@ == prefix@.take(i as int),
        decreases prefix@.len() - i,
    {
        r.push(prefix[i]);
        i = i + 1;
        assert(r@ =~= prefix@.take(i as int));
    }
    r.push(0u8);
    let mut j: usize = 0;
    while j < rest.len()
        invariant
            j <= rest@.len(),
            prefix@.take(prefix@.len() as int) == prefix@,
            r@ == prefix@ + seq![0u8] + rest@.take(j as int),
        decreases rest@.len() - j,
    {
        r.push(rest[j]);
        j = j + 1;
        assert(r@ =~= prefix@ + seq![0u8] + rest@.take(j as int));
    }
    assert(prefix@.take(prefix@.len() as int) =~= prefix@);
    assert(rest@.take(rest@.len() as int) =~= rest@);
    assert(r@ =~= prefix@ + seq![0u8] + rest@);
    r
}

/// The forward-partition key of a record.
pub fn forward_key_of(t: &Table, k: Key) -> (r: Vec<u8>)
    ensures
        r@ == forward_key(t.name_spec(), k@),
{
    let kb = encode_key(k);
    joined(t.name(), kb.as_slice())
}

/// The index-partition key of an encoded value.
pub fn index_key_of(t: &Table, encoded: &[u8]) -> (r: Vec<u8>)
    ensures
        r@ == index_key(t.name_spec(), encoded@),
{
    joined(t.name(), encoded)
}

/// The index-partition key of a value, which is encoded first.
pub fn value_index_key(t: &Table, value: &Vec<u8>) -> (r: Vec<u8>)
    ensures
        r@ == index_key(t.name_spec(), value_bytes(value@)),
{
    let enc = encode_value(value);
    index_key_of(t, enc.as_slice())
}

/// The meta key of the epoch marker.
pub fn height_tag_bytes() -> (r: Vec<u8>)
    ensures
        r@ == height_tag(),
{
    let r: Vec<u8> = vec![99u8, 117, 114, 114, 101, 110, 116, 95, 98, 108, 111, 99, 107];
    assert(r@ =~= height_tag());
    r
}

/// The mutations of a batch write of `values` from `start`, given the
/// records `olds` that the written keys hold now (read by the caller).
///
/// The stale index entries of the overwritten records go first, then each
/// record with its index entry in order, then the table's counter, all in
/// one batch; an empty `values` gives an empty batch.
pub fn plan_batch_write(
    t: &Table,
    start: Key,
    values: &Vec<Vec<u8>>,
    olds: &Vec<Option<Vec<u8>>>,
) -> (r: Result<WriteBatch, RegistryError>)
    requires
        olds@.len() == values@.len(),
    ensures
        r is Err <==> start@ + values@.len() > KEY_MAX,
        r is Err ==> r == Err::<WriteBatch, RegistryError>(RegistryError::KeyspaceExhausted),
        r is Ok ==> forall|m: StoreModel|
            #[trigger] apply_ops(m, r->Ok_0.ops@) == batch_effect(
                m,
                t.name_spec(),
                start@,
                values_view(values@),
                olds_view(olds@),
            ),
{
    let s = start.as_u32();
    if values.len() > (KEY_MAX - s) as usize {
        return Err(RegistryError::KeyspaceExhausted);
    }
    let ghost name = t.name_spec();
    let ghost ov = olds_view(olds@);
    let ghost vv = values_view(values@);
    let mut ops: Vec<Op> = Vec::new();
    let mut i: usize = 0;
    while i < olds.len()
        invariant
            i <= olds@.len(),
            ov == olds_view(olds@),
            name == t.name_spec(),
            forall|m: StoreModel| #[trigger] apply_ops(m, ops@) == clear_stale(m, name, ov.take(i as int)),
        decreases olds@.len() - i,
    {
        let ghost before = ops@;
        proof {
            assert(ov.take(i as int + 1).drop_last() =~= ov.take(i as int));
        }
        match &olds[i] {
            Some(b) => {
                let op = Op::Delete { space: Space::Index, key: index_key_of(t, b.as_slice()) };
                ops.push(op);
                assert forall|m: StoreModel| #[trigger] apply_ops(m, ops@) == clear_stale(
                    m,
                    name,
                    ov.take(i as int + 1),
                ) by {
                    lemma_apply_push(m, before, op);
                }
            },
            None => {},
        }
        i = i + 1;
    }
    assert(ov.take(olds@.len() as int) =~= ov);
    let mut j: usize = 0;
    while j < values.len()
        invariant
            j <= values@.len(),
            values@.len() == olds@.len(),
            s == start@,
            s + values@.len() <= KEY_MAX,
            ov == olds_view(olds@),
            vv == values_view(values@),
            name == t.name_spec(),
            forall|m: StoreModel|
                #[trigger] apply_ops(m, ops@) == write_records(
                    clear_stale(m, name, ov),
                    name,
                    start@,
                    vv.take(j as int),
                ),
        decreases values@.len() - j,
    {
        let k = Key::new(s + j as u32).unwrap();
        let enc = encode_value(&values[j]);
        let put_record = Op::Put {
            space: Space::Forward,
            key: forward_key_of(t, k),
            value: vstd::slice::slice_to_vec(enc.as_slice()),
        };
        let put_index = Op::Put {
            space: Space::Index,
            key: index_key_of(t, enc.as_slice()),
            value: encode_key(k),
        };
        let ghost before = ops@;
        ops.push(put_record);
        let ghost middle = ops@;
        ops.push(put_index);
        proof {
            let vt = vv.take(j as int + 1);
            assert(vt.drop_last() =~= vv.take(j as int));
            assert(vt[j as int] == values@[j as int]@);
            assert forall|m: StoreModel| #[trigger] apply_ops(m, ops@) == write_records(
                clear_stale(m, name, ov),
                name,
                start@,
                vt,
            ) by {
                lemma_apply_push(m, before, put_record);
                lemma_apply_push(m, middle, put_index);
            }
        }
        j = j + 1;
    }
    assert(vv.take(values@.len() as int) =~= vv);
    if values.len() > 0 {
        let next = Key::new(s + values.len() as u32).unwrap();
        let counter = Op::Put {
            space: Space::NextKeys,
            key: vstd::slice::slice_to_vec(t.name()),
            value: encode_key(next),
        };
        let ghost before = ops@;
        ops.push(counter);
        assert forall|m: StoreModel| #[trigger] apply_ops(m, ops@) == batch_effect(
            m,
            name,
            start@,
            vv,
            ov,
        ) by {
            lemma_apply_push(m, before, counter);
        }
    }
    Ok(WriteBatch { ops })
}

/// The mutation that records the block height the registry is valid for.
pub fn plan_set_block_height(h: BlockHeight) -> (r: WriteBatch)
    ensures
        forall|m: StoreModel|
            #[trigger] apply_ops(m, r.ops@) == m.insert((Space::Meta, height_tag()), height_bytes(h.value as nat)),
{
    let op = Op::Put { space: Space::Meta, key: height_tag_bytes(), value: encode_height(h) };
    let ops: Vec<Op> = vec![op];
    assert forall|m: StoreModel| #[trigger] apply_ops(m, ops@) == m.insert(
        (Space::Meta, height_tag()),
        height_bytes(h.value as nat),
    ) by {
        lemma_apply_push(m, Seq::<Op>::empty(), op);
        assert(Seq::<Op>::empty().push(op) =~= ops@);
    }
    WriteBatch { ops }
}

/// The next free key of a table, from the counter's stored bytes.
pub fn decode_next_key(stored: Option<Vec<u8>>) -> (r: Result<Key, RegistryError>)
    ensures
        next_key_result(
            match stored {
                Some(b) => Some(b@),
                None => None,
            },
            r,
        ),
{
    match stored {
        None => Ok(Key::zero()),
        Some(b) => match decode_key(b.as_slice()) {
            Some(k) => Ok(k),
            None => Err(RegistryError::Corrupt),
        },
    }
}

/// A record of a table, from its stored bytes; the table's default where
/// nothing is stored.
pub fn decode_record(t: &Table, stored: Option<Vec<u8>>) -> (r: Result<Vec<u8>, RegistryError>)
    ensures
        record_result(
            t.default_spec(),
            match stored {
                Some(b) => Some(b@),
                None => None,
            },
            r,
        ),
{
    match stored {
        None => Ok(t.default_value()),
        Some(b) => match decode_value(b.as_slice()) {
            Some(v) => Ok(v),
            None => Err(RegistryError::Corrupt),
        },
    }
}

/// The key an index entry points to, from its stored bytes.
pub fn decode_index_entry(stored: Option<Vec<u8>>) -> (r: Result<Option<Key>, RegistryError>)
    ensures
        index_result(
            match stored {
                Some(b) => Some(b@),
                None => None,
            },
            r,
        ),
{
    match stored {
        None => Ok(None),
        Some(b) => match decode_key(b.as_slice()) {
            Some(k) => Ok(Some(k)),
            None => Err(RegistryError::Corrupt),
        },
    }
}

/// The block height of the epoch marker, from its stored bytes; height 0
/// where nothing is stored.
pub fn decode_block_height(stored: Option<Vec<u8>>) -> (r: Result<BlockHeight, RegistryError>)
    ensures
        height_result(
            match stored {
                Some(b) => Some(b@),
                None => None,
            },
            r,
        ),
{
    match stored {
        None => Ok(BlockHeight { value: 0 }),
        Some(b) => match decode_height(b.as_slice()) {
            Some(h) => Ok(h),
            None => Err(RegistryError::Corrupt),
        },
    }
}

} // verus!
