//! A deterministic source of random bytes that replays a fixed seed.
use crate::error::KeystoreError;
use vstd::prelude::*;

verus! {

/// Hands out the bytes of a fixed seed in order, as a random source would hand
/// out fresh ones. Two sources made from the same seed give the same bytes,
/// and a request beyond the end of the seed fails instead of repeating it.
pub struct SeededRng {
    seed: Vec<u8>,
    pos: usize,
}

impl SeededRng {
    /// The whole seed.
    pub closed spec fn seed(&self) -> Seq<u8> {
        self.seed@
    }

    /// How many bytes have been handed out.
    pub closed spec fn consumed(&self) -> nat {
        self.pos as nat
    }

    /// The bytes not yet handed out.
    pub open spec fn remaining(&self) -> Seq<u8> {
        self.seed().subrange(self.consumed() as int, self.seed().len() as int)
    }

    pub closed spec fn wf(&self) -> bool {
        self.pos <= self.seed@.len()
    }

    /// A source that replays `seed` from its first byte.
    pub fn new(seed: Vec<u8>) -> (r: SeededRng)
        ensures
            r.wf(),
            r.seed() == seed@,
            r.consumed() == 0,
            r.consumed() <= r.seed().len(),
    {
        SeededRng { seed, pos: 0 }
    }

    /// The next `n` bytes of the seed, or `InsufficientSeed` where fewer are
    /// left; nothing is consumed then.
    pub fn fill_bytes(&mut self, n: usize) -> (r: Result<Vec<u8>, KeystoreError>)
        requires
            old(self).wf(),
        ensures
            final(self).wf(),
            final(self).seed() == old(self).seed(),
            final(self).consumed() <= final(self).seed().len(),
            n <= old(self).remaining().len() ==> r is Ok && r->Ok_0@ == old(self).remaining().subrange(
                0,
                n as int,
            ) && final(self).consumed() == old(self).consumed() + n,
            n > old(self).remaining().len() ==> r is Err && r->Err_0 is InsufficientSeed
                && final(self).consumed() == old(self).consumed(),
    {
        if n > self.seed.len() - self.pos {
            return Err(KeystoreError::InsufficientSeed);
        }
        let end = self.pos + n;
        let out = crate::crypto::slice_range(self.seed.as_slice(), self.pos, end);
        assert(out@ =~= old(self).remaining().subrange(0, n as int));
        self.pos = end;
        Ok(out)
    }
}

} // verus!
