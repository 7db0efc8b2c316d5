//! A byte buffer whose contents can only be touched inside an explicit
//! read or write window.

use vstd::prelude::*;
use crate::store::{Bufferable, RustBuf};

verus! {

/// The access permission a buffer currently grants.
#[derive(Debug, Clone, Copy, PartialEq, Eq, Structural)]
pub enum ProtectState {
    NoAccess,
    ReadOnly,
    ReadWrite,
}

/// The sizes a buffer in guarded memory may have.
pub open spec fn allowed_secure_size(s: nat) -> bool {
    s == 8 || s == 16 || s == 32 || s == 64
}

/// Whether `s` is one of the sizes a buffer in guarded memory may have.
pub fn is_allowed_secure_size(s: usize) -> (r: bool)
    ensures
        r == allowed_secure_size(s as nat),
{
    s == 8 || s == 16 || s == 32 || s == 64
}

/// A fixed-size byte buffer with a protection state machine, kept in the
/// backing store `B`.
pub struct SecBuf<B: Bufferable> {
    b: B,
    p: ProtectState,
}

impl SecBuf<RustBuf> {
    /// A new zeroed buffer of `s` bytes backed by ordinary heap memory.
    pub fn with_insecure(s: usize) -> (r: SecBuf<RustBuf>)
        ensures
            r.bytes() == Seq::new(s as nat, |i: int| 0u8),
            r.state() == ProtectState::NoAccess,
    {
        SecBuf { b: RustBuf::new(s), p: ProtectState::NoAccess }
    }
}

impl<B: Bufferable> SecBuf<B> {
    /// The bytes held.
    pub closed spec fn bytes(&self) -> Seq<u8> {
        self.b.contents()
    }

    /// The current protection state.
    pub closed spec fn state(&self) -> ProtectState {
        self.p
    }

    /// A new zeroed buffer of `s` bytes in a store of kind `B`, meant for
    /// guarded memory: only the word-aligned sizes 8, 16, 32 and 64 are
    /// allowed, since other sizes could misalign a guarded allocation.
    pub fn with_secure(s: usize) -> (r: SecBuf<B>)
        requires
            allowed_secure_size(s as nat),
        ensures
            r.bytes() == Seq::new(s as nat, |i: int| 0u8),
            r.state() == ProtectState::NoAccess,
    {
        SecBuf { b: B::new(s), p: ProtectState::NoAccess }
    }

    /// The current protection state; available in every state.
    pub fn protect_state(&self) -> (r: ProtectState)
        ensures
            r == self.state(),
    {
        self.p
    }

    /// The length in bytes; available in every state.
    pub fn len(&self) -> (r: usize)
        ensures
            r == self.bytes().len(),
    {
        self.b.len()
    }

    /// Opens the buffer for reading; it must not be open already.
    pub fn readable(&mut self)
        requires
            old(self).state() == ProtectState::NoAccess,
        ensures
            final(self).state() == ProtectState::ReadOnly,
            final(self).bytes() == old(self).bytes(),
    {
        self.p = ProtectState::ReadOnly;
        self.b.readable();
    }

    /// Opens the buffer for reading and writing; it must not be open already.
    pub fn writable(&mut self)
        requires
            old(self).state() == ProtectState::NoAccess,
        ensures
            final(self).state() == ProtectState::ReadWrite,
            final(self).bytes() == old(self).bytes(),
    {
        self.p = ProtectState::ReadWrite;
        self.b.writable();
    }

    /// Closes the buffer against all access; allowed in every state.
    pub fn noaccess(&mut self)
        ensures
            final(self).state() == ProtectState::NoAccess,
            final(self).bytes() == old(self).bytes(),
        opens_invariants none
        no_unwind
    {
        self.p = ProtectState::NoAccess;
        self.b.noaccess();
    }

    /// The byte at `i`; the buffer must be open.
    pub fn get(&self, i: usize) -> (r: u8)
        requires
            self.state() != ProtectState::NoAccess,
            i < self.bytes().len(),
        ensures
            r == self.bytes()[i as int],
    {
        self.b.ref_()[i]
    }

    /// Stores `v` at `i`; the buffer must be open for writing.
    pub fn set(&mut self, i: usize, v: u8)
        requires
            old(self).state() == ProtectState::ReadWrite,
            i < old(self).bytes().len(),
        ensures
            final(self).bytes() == old(self).bytes().update(i as int, v),
            final(self).state() == old(self).state(),
    {
        self.b.set(i, v);
    }

    /// Copies `data` into the front of `buf` through a write window, and
    /// closes `buf` again.
    pub fn convert_array_to_secbuf(data: &[u8], buf: &mut SecBuf<B>)
        requires
            old(buf).state() == ProtectState::NoAccess,
            data@.len() <= old(buf).bytes().len(),
        ensures
            final(buf).bytes() == data@ + old(buf).bytes().skip(data@.len() as int),
            final(buf).state() == ProtectState::NoAccess,
    {
        buf.writable();
        let mut i: usize = 0;
        while i < data.len()
            invariant
                i <= data@.len(),
                data@.len() <= old(buf).bytes().len(),
                buf.bytes().len() == old(buf).bytes().len(),
                buf.bytes() == data@.take(i as int) + old(buf).bytes().skip(i as int),
                buf.state() == ProtectState::ReadWrite,
            decreases data@.len() - i,
        {
            buf.set(i, data[i]);
            i = i + 1;
            assert(buf.bytes() =~= data@.take(i as int) + old(buf).bytes().skip(i as int));
        }
        assert(data@.take(i as int) =~= data@);
        buf.noaccess();
    }

    /// A copy of all the bytes; the buffer must be open.
    pub fn to_vec(&self) -> (r: Vec<u8>)
        requires
            self.state() != ProtectState::NoAccess,
        ensures
            r@ == self.bytes(),
    {
        let src = self.b.ref_();
        let mut r: Vec<u8> = Vec::new();
        let mut i: usize = 0;
        while i < src.len()
            invariant
                i <= src@.len(),
                r@ == src@.take(i as int),
            decreases src@.len() - i,
        {
            r.push(src[i]);
            i = i + 1;
            assert(r@ =~= src@.take(i as int));
        }
        assert(src@.take(i as int) =~= src@);
        r
    }
}

impl<B: Bufferable> SecBuf<B> {
    /// Opens the buffer for reading and returns a guard that closes it again
    /// when it goes out of scope.
    pub fn read_lock(&mut self) -> (r: Locker<'_, B>)
        requires
            old(self).state() == ProtectState::NoAccess,
        ensures
            r.buf().state() == ProtectState::ReadOnly,
            r.buf().bytes() == old(self).bytes(),
    {
        Locker::new(self, false)
    }

    /// Opens the buffer for reading and writing and returns a guard that
    /// closes it again when it goes out of scope.
    pub fn write_lock(&mut self) -> (r: Locker<'_, B>)
        requires
            old(self).state() == ProtectState::NoAccess,
        ensures
            r.buf().state() == ProtectState::ReadWrite,
            r.buf().bytes() == old(self).bytes(),
    {
        Locker::new(self, true)
    }
}

/// A scoped access window on a buffer: the buffer is open while the guard
/// lives and is closed again when it is dropped.
pub struct Locker<'a, B: Bufferable> {
    b: &'a mut SecBuf<B>,
}

impl<'a, B: Bufferable> Locker<'a, B> {
    /// The buffer as it currently stands.
    pub closed spec fn buf(&self) -> SecBuf<B> {
        *self.b
    }

    /// Opens `b` for writing when `writable`, else for reading.
    pub fn new(b: &'a mut SecBuf<B>, writable: bool) -> (r: Locker<'a, B>)
        requires
            old(b).state() == ProtectState::NoAccess,
        ensures
            r.buf().state() == (if writable {
                ProtectState::ReadWrite
            } else {
                ProtectState::ReadOnly
            }),
            r.buf().bytes() == old(b).bytes(),
    {
        if writable {
            b.writable();
        } else {
            b.readable();
        }
        Locker { b }
    }

    /// The guarded buffer's protection state.
    pub fn protect_state(&self) -> (r: ProtectState)
        ensures
            r == self.buf().state(),
    {
        self.b.protect_state()
    }

    /// The guarded buffer's length.
    pub fn len(&self) -> (r: usize)
        ensures
            r == self.buf().bytes().len(),
    {
        self.b.len()
    }

    /// The byte at `i` of the guarded buffer.
    pub fn get(&self, i: usize) -> (r: u8)
        requires
            i < self.buf().bytes().len(),
            self.buf().state() != ProtectState::NoAccess,
        ensures
            r == self.buf().bytes()[i as int],
    {
        self.b.get(i)
    }

    /// Stores `v` at `i` of the guarded buffer; needs a write guard.
    pub fn set(&mut self, i: usize, v: u8)
        requires
            i < old(self).buf().bytes().len(),
            old(self).buf().state() == ProtectState::ReadWrite,
        ensures
            final(self).buf().bytes() == old(self).buf().bytes().update(i as int, v),
            final(self).buf().state() == old(self).buf().state(),
    {
        self.b.set(i, v);
    }

    /// A copy of the guarded buffer's bytes.
    pub fn to_vec(&self) -> (r: Vec<u8>)
        requires
            self.buf().state() != ProtectState::NoAccess,
        ensures
            r@ == self.buf().bytes(),
    {
        self.b.to_vec()
    }

    /// The text form of the guarded buffer's bytes.
    pub fn render(&self) -> (r: String)
        requires
            self.buf().state() != ProtectState::NoAccess,
            self.buf().bytes().len() + crate::codec::PARITY_LEN < 256,
        ensures
            r@ == crate::codec::ascii_chars(crate::codec::rendered(self.buf().bytes())),
            crate::codec::renderable(self.buf().bytes()),
            forall|i: int| 0 <= i < r@.len() ==> #[trigger] r@[i] != '+' && r@[i] != '/',
    {
        self.b.render()
    }
}

/// Dropping the guard closes the buffer again and leaves its bytes as they
/// are, on every exit path from the guard's scope.
impl<'a, B: Bufferable> Drop for Locker<'a, B> {
    fn drop(&mut self)
        ensures
            final(self).buf().state() == ProtectState::NoAccess,
            final(self).buf().bytes() == old(self).buf().bytes(),
        opens_invariants none
        no_unwind
    {
        self.b.noaccess();
    }
}

} // verus!
