use vstd::prelude::*;

use crate::codec::{key_bytes, key_of, lemma_key_bytes, lemma_key_bytes_injective, lemma_value_bytes_injective, value_bytes};
use crate::key::KEY_MAX;
use crate::registry::{
    after_batch_write, clear_stale, forward_key, height_tag, index_key, records_at,
    write_records,
};
use crate::store::{lookup, Space, StoreModel};
use crate::table::valid_name;

verus! {

proof fn lemma_prefix_cancel(p: Seq<u8>, x: Seq<u8>, y: Seq<u8>)
    requires
        p + x == p + y,
    ensures
        x == y,
{
    assert(x =~= (p + x).subrange(p.len() as int, (p + x).len() as int));
    assert(y =~= (p + y).subrange(p.len() as int, (p + y).len() as int));
}

proof fn lemma_forward_keys_distinct(name: Seq<u8>, a: nat, b: nat)
    requires
        a <= KEY_MAX,
        b <= KEY_MAX,
        a != b,
    ensures
        forward_key(name, a) != forward_key(name, b),
{
    if forward_key(name, a) == forward_key(name, b) {
        lemma_prefix_cancel(name + seq![0u8], key_bytes(a), key_bytes(b));
        lemma_key_bytes_injective(a, b);
    }
}

proof fn lemma_index_keys_distinct(name: Seq<u8>, v: Seq<u8>, w: Seq<u8>)
    requires
        v != w,
    ensures
        index_key(name, value_bytes(v)) != index_key(name, value_bytes(w)),
{
    if index_key(name, value_bytes(v)) == index_key(name, value_bytes(w)) {
        lemma_prefix_cancel(name + seq![0u8], value_bytes(v), value_bytes(w));
        lemma_value_bytes_injective(v, w);
    }
}

/// Clearing stale index entries touches the index partition only.
proof fn lemma_clear_stale_other(m: StoreModel, name: Seq<u8>, olds: Seq<Option<Seq<u8>>>, q: (Space, Seq<u8>))
    requires
        q.0 != Space::Index,
    ensures
        lookup(clear_stale(m, name, olds), q) == lookup(m, q),
    decreases olds.len(),
{
    if olds.len() > 0 {
        lemma_clear_stale_other(m, name, olds.drop_last(), q);
    }
}

/// The index entry of every overwritten record is gone after clearing.
proof fn lemma_clear_stale_removes(m: StoreModel, name: Seq<u8>, olds: Seq<Option<Seq<u8>>>, i: int)
    requires
        0 <= i < olds.len(),
        olds[i] is Some,
    ensures
        !clear_stale(m, name, olds).contains_key((Space::Index, index_key(name, olds[i]->Some_0))),
    decreases olds.len(),
{
    if i < olds.len() - 1 {
        lemma_clear_stale_removes(m, name, olds.drop_last(), i);
    }
}

/// Writing records leaves the counters and the meta partition alone.
proof fn lemma_write_records_other(m: StoreModel, name: Seq<u8>, start: nat, vs: Seq<Seq<u8>>, q: (Space, Seq<u8>))
    requires
        q.0 != Space::Index,
        q.0 != Space::Forward,
    ensures
        lookup(write_records(m, name, start, vs), q) == lookup(m, q),
    decreases vs.len(),
{
    if vs.len() > 0 {
        lemma_write_records_other(m, name, start, vs.drop_last(), q);
    }
}

/// Each written key holds its value's encoding.
proof fn lemma_write_records_forward(m: StoreModel, name: Seq<u8>, start: nat, vs: Seq<Seq<u8>>, i: int)
    requires
        0 <= i < vs.len(),
        start + vs.len() <= KEY_MAX,
    ensures
        lookup(write_records(m, name, start, vs), (Space::Forward, forward_key(name, (start + i) as nat)))
            == Some(value_bytes(vs[i])),
    decreases vs.len(),
{
    let last = vs.len() - 1;
    if i < last {
        lemma_write_records_forward(m, name, start, vs.drop_last(), i);
        lemma_forward_keys_distinct(name, (start + i) as nat, (start + last) as nat);
    }
}

/// The index entry of a value points to the last key it was written at.
proof fn lemma_write_records_index(m: StoreModel, name: Seq<u8>, start: nat, vs: Seq<Seq<u8>>, i: int)
    requires
        0 <= i < vs.len(),
        forall|j: int| i < j < vs.len() ==> vs[j] != vs[i],
    ensures
        lookup(write_records(m, name, start, vs), (Space::Index, index_key(name, value_bytes(vs[i]))))
            == Some(key_bytes((start + i) as nat)),
    decreases vs.len(),
{
    let last = vs.len() - 1;
    if i < last {
        lemma_write_records_index(m, name, start, vs.drop_last(), i);
        lemma_index_keys_distinct(name, vs[last], vs[i]);
    }
}

/// A value that is not written keeps its index entry as it was.
proof fn lemma_write_records_unwritten(m: StoreModel, name: Seq<u8>, start: nat, vs: Seq<Seq<u8>>, v: Seq<u8>)
    requires
        forall|j: int| 0 <= j < vs.len() ==> vs[j] != v,
    ensures
        lookup(write_records(m, name, start, vs), (Space::Index, index_key(name, value_bytes(v))))
            == lookup(m, (Space::Index, index_key(name, value_bytes(v)))),
    decreases vs.len(),
{
    if vs.len() > 0 {
        lemma_write_records_unwritten(m, name, start, vs.drop_last(), v);
        lemma_index_keys_distinct(name, vs[vs.len() - 1], v);
    }
}

/// After a non-empty batch write from `start`, the table's counter holds
/// `start` plus the number of values; an empty batch changes nothing.
pub proof fn law_allocation_monotonic(m: StoreModel, name: Seq<u8>, start: nat, vs: Seq<Seq<u8>>)
    requires
        start + vs.len() <= KEY_MAX,
    ensures
        vs.len() > 0 ==> lookup(after_batch_write(m, name, start, vs), (Space::NextKeys, name))
            == Some(key_bytes(start + vs.len())) && key_of(key_bytes(start + vs.len())) == start
            + vs.len(),
        vs.len() == 0 ==> after_batch_write(m, name, start, vs) == m,
{
    lemma_key_bytes(start + vs.len());
    if vs.len() == 0 {
        assert(records_at(m, name, start, 0).len() == 0);
    }
}

/// Every value of a batch write reads back from the key it was written at.
pub proof fn law_round_trip(m: StoreModel, name: Seq<u8>, start: nat, vs: Seq<Seq<u8>>, i: int)
    requires
        start + vs.len() <= KEY_MAX,
        0 <= i < vs.len(),
    ensures
        lookup(after_batch_write(m, name, start, vs), (Space::Forward, forward_key(name, (start + i) as nat)))
            == Some(value_bytes(vs[i])),
{
    let olds = records_at(m, name, start, vs.len());
    let cleared = clear_stale(m, name, olds);
    lemma_write_records_forward(cleared, name, start, vs, i);
}

/// A store with nothing written holds no record, counter or epoch marker:
/// every read gives the default, the next key is zero and the height is zero.
pub proof fn law_fresh_store(name: Seq<u8>, k: nat)
    ensures
        lookup(Map::empty(), (Space::Forward, forward_key(name, k))) is None,
        lookup(Map::empty(), (Space::NextKeys, name)) is None,
        lookup(Map::empty(), (Space::Meta, height_tag())) is None,
{
}

/// A batch write indexes each value at the last key it was written at.
pub proof fn law_index_latest(m: StoreModel, name: Seq<u8>, start: nat, vs: Seq<Seq<u8>>, i: int)
    requires
        start + vs.len() <= KEY_MAX,
        0 <= i < vs.len(),
        forall|j: int| i < j < vs.len() ==> vs[j] != vs[i],
    ensures
        lookup(after_batch_write(m, name, start, vs), (Space::Index, index_key(name, value_bytes(vs[i]))))
            == Some(key_bytes((start + i) as nat)),
        key_of(key_bytes((start + i) as nat)) == start + i,
{
    let olds = records_at(m, name, start, vs.len());
    let cleared = clear_stale(m, name, olds);
    lemma_write_records_index(cleared, name, start, vs, i);
    lemma_key_bytes((start + i) as nat);
}

/// After `v` is written at key `k`, a later batch that writes another value
/// at `k` and does not write `v` again leaves `v` without an index entry,
/// and the new value's entry points to `k` unless the batch writes it again
/// further on.
pub proof fn law_dedup_bijection(
    m: StoreModel,
    name: Seq<u8>,
    first: nat,
    vs: Seq<Seq<u8>>,
    i: int,
    second: nat,
    ws: Seq<Seq<u8>>,
    j: int,
)
    requires
        first + vs.len() <= KEY_MAX,
        second + ws.len() <= KEY_MAX,
        0 <= i < vs.len(),
        0 <= j < ws.len(),
        first + i == second + j,
        forall|l: int| 0 <= l < ws.len() ==> ws[l] != vs[i],
        forall|l: int| j < l < ws.len() ==> ws[l] != ws[j],
    ensures
        lookup(
            after_batch_write(after_batch_write(m, name, first, vs), name, second, ws),
            (Space::Index, index_key(name, value_bytes(vs[i]))),
        ) is None,
        lookup(
            after_batch_write(after_batch_write(m, name, first, vs), name, second, ws),
            (Space::Index, index_key(name, value_bytes(ws[j]))),
        ) == Some(key_bytes((second + j) as nat)),
{
    let m1 = after_batch_write(m, name, first, vs);
    law_round_trip(m, name, first, vs, i);
    let olds = records_at(m1, name, second, ws.len());
    assert(olds[j] == Some(value_bytes(vs[i])));
    let cleared = clear_stale(m1, name, olds);
    lemma_clear_stale_removes(m1, name, olds, j);
    lemma_write_records_unwritten(cleared, name, second, ws, vs[i]);
    law_index_latest(m1, name, second, ws, j);
}

/// Two different zero-free names, each followed by a zero byte, begin
/// different byte strings whatever follows.
proof fn lemma_names_separate(a: Seq<u8>, b: Seq<u8>, x: Seq<u8>, y: Seq<u8>)
    requires
        valid_name(a),
        valid_name(b),
        a != b,
    ensures
        a + seq![0u8] + x != b + seq![0u8] + y,
{
    let l = a + seq![0u8] + x;
    let r = b + seq![0u8] + y;
    if l == r {
        if a.len() < b.len() {
            assert(l[a.len() as int] == 0);
            assert(r[a.len() as int] == b[a.len() as int]);
        } else if b.len() < a.len() {
            assert(r[b.len() as int] == 0);
            assert(l[b.len() as int] == a[b.len() as int]);
        } else {
            assert(a =~= l.subrange(0, a.len() as int));
            assert(b =~= r.subrange(0, b.len() as int));
        }
    }
}

proof fn lemma_clear_stale_foreign(
    m: StoreModel,
    a: Seq<u8>,
    olds: Seq<Option<Seq<u8>>>,
    b: Seq<u8>,
    space: Space,
    y: Seq<u8>,
)
    requires
        valid_name(a),
        valid_name(b),
        a != b,
    ensures
        lookup(clear_stale(m, a, olds), (space, b + seq![0u8] + y)) == lookup(m, (space, b + seq![0u8] + y)),
    decreases olds.len(),
{
    if olds.len() > 0 {
        lemma_clear_stale_foreign(m, a, olds.drop_last(), b, space, y);
        if let Some(o) = olds.last() {
            lemma_names_separate(a, b, o, y);
        }
    }
}

proof fn lemma_write_records_foreign(
    m: StoreModel,
    a: Seq<u8>,
    start: nat,
    vs: Seq<Seq<u8>>,
    b: Seq<u8>,
    space: Space,
    y: Seq<u8>,
)
    requires
        valid_name(a),
        valid_name(b),
        a != b,
    ensures
        lookup(write_records(m, a, start, vs), (space, b + seq![0u8] + y)) == lookup(m, (space, b + seq![0u8] + y)),
    decreases vs.len(),
{
    if vs.len() > 0 {
        let i = (vs.len() - 1) as nat;
        lemma_write_records_foreign(m, a, start, vs.drop_last(), b, space, y);
        lemma_names_separate(a, b, key_bytes(start + i), y);
        lemma_names_separate(a, b, value_bytes(vs[i as int]), y);
    }
}

/// Tables with different names never share entries: a batch write on one
/// table leaves every record, index entry and counter of another as it was.
pub proof fn law_tables_isolated(
    m: StoreModel,
    a: Seq<u8>,
    start: nat,
    vs: Seq<Seq<u8>>,
    b: Seq<u8>,
    space: Space,
    y: Seq<u8>,
)
    requires
        valid_name(a),
        valid_name(b),
        a != b,
    ensures
        lookup(after_batch_write(m, a, start, vs), (space, b + seq![0u8] + y)) == lookup(
            m,
            (space, b + seq![0u8] + y),
        ),
        lookup(after_batch_write(m, a, start, vs), (Space::NextKeys, b)) == lookup(m, (Space::NextKeys, b)),
{
    let olds = records_at(m, a, start, vs.len());
    let cleared = clear_stale(m, a, olds);
    lemma_clear_stale_foreign(m, a, olds, b, space, y);
    lemma_write_records_foreign(cleared, a, start, vs, b, space, y);
    lemma_clear_stale_other(m, a, olds, (Space::NextKeys, b));
    lemma_write_records_other(cleared, a, start, vs, (Space::NextKeys, b));
    let q = b + seq![0u8] + y;
    if space == Space::NextKeys && a == q {
        assert(q[b.len() as int] == 0);
    }
}

} // verus!
