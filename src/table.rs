use vstd::prelude::*;
use vstd::slice::slice_to_vec;

verus! {

/// A name that holds no zero byte, so that the name followed by a zero byte
/// marks out one table's entries in a shared partition.
pub open spec fn valid_name(name: Seq<u8>) -> bool {
    forall|i: int| 0 <= i < name.len() ==> name[i] != 0
}

/// A logical table: its name and the value a key that was never written reads as.
#[derive(Debug)]
pub struct Table {
    name: Vec<u8>,
    default_value: Vec<u8>,
}

impl Table {
    pub closed spec fn name_spec(&self) -> Seq<u8> {
        self.name@
    }

    pub closed spec fn default_spec(&self) -> Seq<u8> {
        self.default_value@
    }

    /// A table with the given name and default value; `None` where the name
    /// holds a zero byte.
    pub fn new(name: Vec<u8>, default_value: Vec<u8>) -> (r: Option<Table>)
        ensures
            r is Some <==> valid_name(name@),
            r is Some ==> r->Some_0.name_spec() == name@ && r->Some_0.default_spec()
                == default_value@,
    {
        let mut i: usize = 0;
        while i < name.len()
            invariant
                i <= name@.len(),
                forall|j: int| 0 <= j < i ==> name@[j] != 0,
            decreases name@.len() - i,
        {
            if name[i] == 0 {
                return None;
            }
            i = i + 1;
        }
        Some(Table { name, default_value })
    }

    pub fn name(&self) -> (r: &[u8])
        ensures
            r@ == self.name_spec(),
    {
        self.name.as_slice()
    }

    /// A fresh copy of the default value.
    pub fn default_value(&self) -> (r: Vec<u8>)
        ensures
            r@ == self.default_spec(),
    {
        slice_to_vec(self.default_value.as_slice())
    }
}

} // verus!
