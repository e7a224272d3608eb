use vstd::prelude::*;

verus! {

/// An authenticated identity, held as the bytes of its address.
#[derive(Debug, PartialEq, Eq)]
pub struct Principal {
    pub id: Vec<u8>,
}

impl View for Principal {
    type V = Seq<u8>;

    open spec fn view(&self) -> Seq<u8> {
        self.id@
    }
}

impl Principal {
    /// A principal whose address is `id`.
    pub fn new(id: Vec<u8>) -> (r: Principal)
        ensures
            r@ == id@,
    {
        Principal { id }
    }

    /// The bytes of this principal's address.
    pub fn as_bytes(&self) -> (r: &[u8])
        ensures
            r@ == self@,
    {
        self.id.as_slice()
    }
}

impl Clone for Principal {
    fn clone(&self) -> (r: Self)
        ensures
            r@ == self@,
    {
        Principal { id: self.id.clone() }
    }
}

} // verus!
