use vstd::prelude::*;
use vstd::slice::slice_to_vec;

verus! {

/// The four partitions of the physical store.
#[derive(Clone, Copy, Debug, PartialEq, Eq, Structural)]
pub enum Space {
    /// Miscellaneous scalars, such as the epoch marker.
    Meta,
    /// Next free key of each table, keyed by table name.
    NextKeys,
    /// Records of each table, keyed by name, a zero byte and the encoded key.
    Forward,
    /// Reverse index, keyed by name, a zero byte and the encoded value.
    Index,
}

/// One mutation of the store.
#[derive(Debug)]
pub enum Op {
    Put { space: Space, key: Vec<u8>, value: Vec<u8> },
    Delete { space: Space, key: Vec<u8> },
}

/// Mutations that commit together or not at all, applied in order.
#[derive(Debug)]
pub struct WriteBatch {
    pub ops: Vec<Op>,
}

/// What the store holds: a byte value for each (partition, byte key).
pub type StoreModel = Map<(Space, Seq<u8>), Seq<u8>>;

/// The value under a key, if any.
pub open spec fn lookup(m: StoreModel, q: (Space, Seq<u8>)) -> Option<Seq<u8>> {
    if m.contains_key(q) {
        Some(m[q])
    } else {
        None
    }
}

pub open spec fn apply_op(m: StoreModel, op: Op) -> StoreModel {
    match op {
        Op::Put { space, key, value } => m.insert((space, key@), value@),
        Op::Delete { space, key } => m.remove((space, key@)),
    }
}

/// The store after the mutations, first to last.
pub open spec fn apply_ops(m: StoreModel, ops: Seq<Op>) -> StoreModel
    decreases ops.len(),
{
    if ops.len() == 0 {
        m
    } else {
        apply_op(apply_ops(m, ops.drop_last()), ops.last())
    }
}

pub proof fn lemma_apply_push(m: StoreModel, ops: Seq<Op>, op: Op)
    ensures
        apply_ops(m, ops.push(op)) == apply_op(apply_ops(m, ops), op),
{
    assert(ops.push(op).drop_last() =~= ops);
}

/// Compares two byte strings.
pub fn bytes_eq(a: &[u8], b: &[u8]) -> (r: bool)
    ensures
        r == (a@ == b@),
{
    if a.len() != b.len() {
        return false;
    }
    let mut i: usize = 0;
    while i < a.len()
        invariant
            a@.len() == b@.len(),
            i <= a@.len(),
            forall|j: int| 0 <= j < i ==> a@[j] == b@[j],
        decreases a@.len() - i,
    {
        if a[i] != b[i] {
            return false;
        }
        i = i + 1;
    }
    assert(a@ =~= b@);
    true
}

/// An in-memory store of the four partitions, with atomic batches.
pub struct MemoryStore {
    keys: Vec<(Space, Vec<u8>)>,
    vals: Vec<Vec<u8>>,
    model: Ghost<StoreModel>,
}

pub open spec fn entry_key(e: (Space, Vec<u8>)) -> (Space, Seq<u8>) {
    (e.0, e.1@)
}

impl MemoryStore {
    pub closed spec fn view(&self) -> StoreModel {
        self.model@
    }

    pub closed spec fn wf(&self) -> bool {
        &&& self.keys@.len() == self.vals@.len()
        &&& forall|i: int|
            0 <= i < self.keys@.len() ==> #[trigger] self.model@.contains_key(entry_key(self.keys@[i]))
                && self.model@[entry_key(self.keys@[i])] == self.vals@[i]@
        &&& forall|q: (Space, Seq<u8>)|
            #[trigger] self.model@.contains_key(q) ==> exists|i: int|
                0 <= i < self.keys@.len() && entry_key(#[trigger] self.keys@[i]) == q
        &&& forall|i: int, j: int|
            0 <= i < self.keys@.len() && 0 <= j < self.keys@.len() && i != j ==> entry_key(
                #[trigger] self.keys@[i],
            ) != entry_key(#[trigger] self.keys@[j])
    }

    /// An empty store.
    pub fn new() -> (r: MemoryStore)
        ensures
            r.wf(),
            r@ == Map::<(Space, Seq<u8>), Seq<u8>>::empty(),
    {
        MemoryStore { keys: Vec::new(), vals: Vec::new(), model: Ghost(Map::empty()) }
    }

    fn find(&self, space: Space, key: &[u8]) -> (r: Option<usize>)
        requires
            self.wf(),
        ensures
            r is Some <==> self@.contains_key((space, key@)),
            r is Some ==> r->Some_0 < self.keys@.len() && entry_key(self.keys@[r->Some_0 as int])
                == (space, key@),
    {
        let mut i: usize = 0;
        while i < self.keys.len()
            invariant
                self.wf(),
                i <= self.keys@.len(),
                forall|j: int| 0 <= j < i ==> entry_key(#[trigger] self.keys@[j]) != (space, key@),
            decreases self.keys@.len() - i,
        {
            let e = &self.keys[i];
            if e.0 == space && bytes_eq(e.1.as_slice(), key) {
                assert(self.model@.contains_key(entry_key(self.keys@[i as int])));
                return Some(i);
            }
            i = i + 1;
        }
        None
    }

    /// The value under `key` in partition `space`.
    pub fn get(&self, space: Space, key: &[u8]) -> (r: Option<Vec<u8>>)
        requires
            self.wf(),
        ensures
            match r {
                Some(v) => lookup(self@, (space, key@)) == Some(v@),
                None => lookup(self@, (space, key@)) is None,
            },
    {
        match self.find(space, key) {
            Some(i) => Some(slice_to_vec(self.vals[i].as_slice())),
            None => None,
        }
    }

    fn put(&mut self, space: Space, key: Vec<u8>, value: Vec<u8>)
        requires
            old(self).wf(),
        ensures
            final(self).wf(),
            final(self)@ == old(self)@.insert((space, key@), value@),
    {
        let ghost q = (space, key@);
        match self.find(space, key.as_slice()) {
            Some(i) => {
                self.vals.set(i, value);
                self.model = Ghost(self.model@.insert(q, self.vals@[i as int]@));
                assert forall|p: (Space, Seq<u8>)| #[trigger]
                    self.model@.contains_key(p) implies exists|j: int|
                    0 <= j < self.keys@.len() && entry_key(#[trigger] self.keys@[j]) == p by {
                    if p == q {
                        assert(entry_key(self.keys@[i as int]) == p);
                    } else {
                        assert(old(self).model@.contains_key(p));
                        let j = choose|j: int|
                            0 <= j < self.keys@.len() && entry_key(#[trigger] old(self).keys@[j]) == p;
                        assert(entry_key(self.keys@[j]) == p);
                    }
                }
                assert forall|j: int| 0 <= j < self.keys@.len() implies #[trigger] self.model@.contains_key(
                    entry_key(self.keys@[j]),
                ) && self.model@[entry_key(self.keys@[j])] == self.vals@[j]@ by {
                    if j != i {
                        assert(old(self).model@.contains_key(entry_key(old(self).keys@[j])));
                    }
                }
            },
            None => {
                let ghost n = self.keys@.len();
                self.keys.push((space, key));
                self.vals.push(value);
                self.model = Ghost(self.model@.insert(q, self.vals@[n as int]@));
                assert(entry_key(self.keys@[n as int]) == q);
                assert forall|p: (Space, Seq<u8>)| #[trigger]
                    self.model@.contains_key(p) implies exists|j: int|
                    0 <= j < self.keys@.len() && entry_key(#[trigger] self.keys@[j]) == p by {
                    if p == q {
                        assert(entry_key(self.keys@[n as int]) == p);
                    } else {
                        let j = choose|j: int|
                            0 <= j < n && entry_key(#[trigger] old(self).keys@[j]) == p;
                        assert(self.keys@[j] == old(self).keys@[j]);
                    }
                }
            },
        }
    }

    fn delete(&mut self, space: Space, key: &[u8])
        requires
            old(self).wf(),
        ensures
            final(self).wf(),
            final(self)@ == old(self)@.remove((space, key@)),
    {
        let ghost q = (space, key@);
        match self.find(space, key) {
            Some(i) => {
                let ghost ok = old(self).keys@;
                let ghost last = (ok.len() - 1) as int;
                self.keys.swap_remove(i);
                self.vals.swap_remove(i);
                let ghost ov = old(self).vals@;
                self.model = Ghost(self.model@.remove(q));
                assert forall|j: int| 0 <= j < self.keys@.len() implies #[trigger] self.model@.contains_key(
                    entry_key(self.keys@[j]),
                ) && self.model@[entry_key(self.keys@[j])] == self.vals@[j]@ by {
                    let oj = if j == i { last } else { j };
                    assert(self.keys@[j] == ok[oj] && self.vals@[j] == ov[oj]);
                    assert(old(self).model@.contains_key(entry_key(ok[oj])));
                    assert(entry_key(ok[oj]) != entry_key(ok[i as int]));
                }
                assert forall|j: int, k: int|
                    0 <= j < self.keys@.len() && 0 <= k < self.keys@.len() && j != k implies entry_key(
                    #[trigger] self.keys@[j],
                ) != entry_key(#[trigger] self.keys@[k]) by {
                    let oj = if j == i { last } else { j };
                    let ok_ = if k == i { last } else { k };
                    assert(self.keys@[j] == ok[oj] && self.keys@[k] == ok[ok_]);
                }
                assert forall|j: int| 0 <= j < self.keys@.len() implies entry_key(
                    #[trigger] self.keys@[j],
                ) != q by {
                    if j == i {
                        assert(self.keys@[j] == ok[last]);
                    } else {
                        assert(self.keys@[j] == ok[j]);
                    }
                }
                assert forall|p: (Space, Seq<u8>)| #[trigger]
                    self.model@.contains_key(p) implies exists|j: int|
                    0 <= j < self.keys@.len() && entry_key(#[trigger] self.keys@[j]) == p by {
                    let j = choose|j: int| 0 <= j < ok.len() && entry_key(#[trigger] ok[j]) == p;
                    if j == last {
                        assert(entry_key(self.keys@[i as int]) == p);
                    } else {
                        assert(entry_key(self.keys@[j]) == p);
                    }
                }
            },
            None => {
                assert(self.model@.remove(q) =~= self.model@);
            },
        }
    }

    /// Applies every mutation of the batch, in order, as one unit.
    pub fn write(&mut self, batch: &WriteBatch)
        requires
            old(self).wf(),
        ensures
            final(self).wf(),
            final(self)@ == apply_ops(old(self)@, batch.ops@),
    {
        let ghost m0 = self@;
        let mut i: usize = 0;
        while i < batch.ops.len()
            invariant
                self.wf(),
                i <= batch.ops@.len(),
                self@ == apply_ops(m0, batch.ops@.take(i as int)),
            decreases batch.ops@.len() - i,
        {
            proof {
                assert(batch.ops@.take(i as int + 1).drop_last() =~= batch.ops@.take(i as int));
            }
            match &batch.ops[i] {
                Op::Put { space, key, value } => {
                    self.put(*space, slice_to_vec(key.as_slice()), slice_to_vec(value.as_slice()));
                },
                Op::Delete { space, key } => {
                    self.delete(*space, key.as_slice());
                },
            }
            i = i + 1;
        }
        assert(batch.ops@.take(i as int) =~= batch.ops@);
    }
}

} // verus!
