//! Backing stores: the memory a buffer keeps its bytes in.

use vstd::prelude::*;

verus! {

/// Memory that can back a buffer. Access calls change the memory's real
/// protection where the store supports it; the store itself checks nothing,
/// callers establish the right access mode first.
pub trait Bufferable: Sized {
    /// The bytes held. A store verified here defines it. A store written
    /// outside verification cannot (the model is a spec value), keeps this
    /// empty placeholder, and so does not meet the contracts below: what is
    /// proved of a buffer's bytes does not carry over to such a store.
    open spec fn contents(&self) -> Seq<u8> {
        Seq::empty()
    }

    /// A store of `s` zero bytes, in its most restrictive access mode.
    fn new(s: usize) -> (r: Self)
        ensures
            r.contents() == Seq::new(s as nat, |i: int| 0u8),
    ;

    fn len(&self) -> (r: usize)
        ensures
            r == self.contents().len(),
    ;

    fn readable(&mut self)
        ensures
            final(self).contents() == old(self).contents(),
    ;

    fn writable(&mut self)
        ensures
            final(self).contents() == old(self).contents(),
    ;

    /// Withdraws all access. It cannot fail, since a guard calls it while
    /// being dropped; the default does nothing, as for unprotected memory.
    fn noaccess(&mut self)
        ensures
            final(self).contents() == old(self).contents(),
        opens_invariants none
        no_unwind
    {
    }

    /// A view of the bytes.
    fn ref_(&self) -> (r: &[u8])
        ensures
            r@ == self.contents(),
    ;

    /// Stores `v` at `i`.
    fn set(&mut self, i: usize, v: u8)
        requires
            i < old(self).contents().len(),
        ensures
            final(self).contents() == old(self).contents().update(i as int, v),
    ;
}

/// Plain heap memory; access calls are no-ops, since nothing protects it.
#[derive(Debug)]
pub struct RustBuf {
    b: Vec<u8>,
}

impl Bufferable for RustBuf {
    closed spec fn contents(&self) -> Seq<u8> {
        self.b@
    }

    fn new(s: usize) -> (r: Self) {
        let mut b: Vec<u8> = Vec::new();
        let mut i: usize = 0;
        while i < s
            invariant
                i <= s,
                b@ == Seq::new(i as nat, |k: int| 0u8),
            decreases s - i,
        {
            b.push(0u8);
            i = i + 1;
            assert(b@ =~= Seq::new(i as nat, |k: int| 0u8));
        }
        RustBuf { b }
    }

    fn len(&self) -> (r: usize) {
        self.b.len()
    }

    fn readable(&mut self) {
    }

    fn writable(&mut self) {
    }

    fn noaccess(&mut self) {
    }

    fn ref_(&self) -> (r: &[u8]) {
        self.b.as_slice()
    }

    fn set(&mut self, i: usize, v: u8) {
        self.b.set(i, v);
    }
}

} // verus!
