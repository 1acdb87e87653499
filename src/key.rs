use vstd::prelude::*;

verus! {

/// The largest value a 24-bit key can hold. It is reserved for the
/// default-value sentinel and is never allocated to a stored value.
pub const KEY_MAX: u32 = 0xFF_FFFF;

/// A key of one table: a 24-bit counter.
#[derive(Clone, Copy, Debug, PartialEq, Eq, Structural)]
pub struct Key {
    value: u32,
}

impl Key {
    #[verifier::type_invariant]
    spec fn fits(&self) -> bool {
        self.value <= KEY_MAX
    }

    /// The key as a natural number.
    pub closed spec fn view(&self) -> nat {
        self.value as nat
    }

    /// The key with the given number, if it fits in 24 bits.
    pub fn new(value: u32) -> (r: Option<Key>)
        ensures
            r is Some <==> value <= KEY_MAX,
            r is Some ==> r->Some_0@ == value,
    {
        if value <= KEY_MAX {
            Some(Key { value })
        } else {
            None
        }
    }

    /// The first key of every table.
    pub fn zero() -> (r: Key)
        ensures
            r@ == 0,
    {
        Key { value: 0 }
    }

    /// The sentinel key that stands for a table's default value.
    pub fn default_value() -> (r: Key)
        ensures
            r@ == KEY_MAX,
    {
        Key { value: KEY_MAX }
    }

    pub fn as_u32(&self) -> (r: u32)
        ensures
            r == self@,
            r <= KEY_MAX,
    {
        proof {
            use_type_invariant(self);
        }
        self.value
    }

    /// The key that follows this one, unless this one is the last.
    pub fn next(&self) -> (r: Option<Key>)
        ensures
            r is Some <==> self@ < KEY_MAX,
            r is Some ==> r->Some_0@ == self@ + 1,
    {
        proof {
            use_type_invariant(self);
        }
        if self.value < KEY_MAX {
            Some(Key { value: self.value + 1 })
        } else {
            None
        }
    }
}

/// The height of a block.
#[derive(Clone, Copy, Debug, PartialEq, Eq, Structural)]
pub struct BlockHeight {
    pub value: u32,
}

} // verus!
