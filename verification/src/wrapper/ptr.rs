use vstd::prelude::*;

verus! {

/// The address of a C object, never NULL (what `NonNull` holds).
#[derive(Clone, Copy)]
pub struct Ptr {
    addr: usize,
}

impl View for Ptr {
    type V = usize;

    closed spec fn view(&self) -> usize {
        self.addr
    }
}

impl Ptr {
    #[verifier::type_invariant]
    spec fn non_null(self) -> bool {
        self.addr != 0
    }

    /// `NonNull::new`: `None` for the NULL address.
    pub fn new(addr: usize) -> (p: Option<Ptr>)
        ensures
            p.is_some() == (addr != 0),
            p matches Some(q) ==> q@ == addr,
    {
        if addr == 0 {
            None
        } else {
            Some(Ptr { addr })
        }
    }

    /// The address, which is not NULL.
    pub fn addr(&self) -> (a: usize)
        ensures
            a == self@,
            a != 0,
    {
        proof {
            use_type_invariant(self);
        }
        self.addr
    }
}

} // verus!
