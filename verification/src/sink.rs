//! The output sink: a byte stream with an optional size bound, so that a
//! refused write — the way a real stream fails — can be modelled and
//! propagated exactly.

use vstd::prelude::*;
use crate::error::EncodeError;

verus! {

/// A writable byte sink. A write that would push the content past the
/// bound fails without writing anything.
pub struct Sink {
    data: Vec<u8>,
    limit: usize,
}

impl Sink {
    /// The bytes written so far.
    pub closed spec fn bytes(self) -> Seq<u8> {
        self.data@
    }

    /// The sink's size bound.
    pub closed spec fn cap(self) -> nat {
        self.limit as nat
    }

    /// An unbounded sink (bounded only by the machine).
    pub fn new() -> (r: Sink)
        ensures
            r.bytes() == Seq::<u8>::empty(),
            r.cap() == usize::MAX as nat,
    {
        Sink { data: Vec::new(), limit: usize::MAX }
    }

    /// A sink that accepts at most `limit` bytes in all; writes beyond
    /// that fail, the way a full stream refuses writes.
    pub fn with_limit(limit: usize) -> (r: Sink)
        ensures
            r.bytes() == Seq::<u8>::empty(),
            r.cap() == limit as nat,
    {
        Sink { data: Vec::new(), limit }
    }

    /// Write all the given bytes, or none: the write succeeds exactly
    /// when the content stays within the bound.
    pub fn write_all(&mut self, buf: &Vec<u8>) -> (r: Result<(), EncodeError>)
        ensures
            final(self).cap() == old(self).cap(),
            (r is Ok) <==> old(self).bytes().len() + buf@.len() <= old(self).cap(),
            r is Ok ==> final(self).bytes() == old(self).bytes() + buf@,
            r is Err ==> final(self).bytes() == old(self).bytes(),
    {
        let n: usize = buf.len();
        if self.data.len() > self.limit {
            return Err(EncodeError::Serialization);
        }
        if n > self.limit - self.data.len() {
            return Err(EncodeError::Serialization);
        }
        let mut i: usize = 0;
        while i < n
            invariant
                n == buf@.len(),
                0 <= i <= n,
                self.data@ == old(self).data@ + buf@.take(i as int),
                self.data@.len() + (n - i) <= self.limit,
                self.limit == old(self).limit,
            decreases n - i,
        {
            self.data.push(buf[i]);
            proof {
                assert(self.data@ =~= old(self).data@ + buf@.take(i + 1));
            }
            i += 1;
        }
        proof {
            assert(self.data@ =~= old(self).data@ + buf@);
        }
        Ok(())
    }

    /// Write one byte; it succeeds exactly when it stays within the bound.
    pub fn write_byte(&mut self, b: u8) -> (r: Result<(), EncodeError>)
        ensures
            final(self).cap() == old(self).cap(),
            (r is Ok) <==> old(self).bytes().len() + 1 <= old(self).cap(),
            r is Ok ==> final(self).bytes() == old(self).bytes().push(b),
            r is Err ==> final(self).bytes() == old(self).bytes(),
    {
        if self.data.len() < self.limit {
            self.data.push(b);
            Ok(())
        } else {
            Err(EncodeError::Serialization)
        }
    }

    /// Take the written bytes out, leaving the sink empty.
    pub fn take(&mut self) -> (r: Vec<u8>)
        ensures
            final(self).cap() == old(self).cap(),
            r@ == old(self).bytes(),
            final(self).bytes() == Seq::<u8>::empty(),
    {
        let mut out: Vec<u8> = Vec::new();
        core::mem::swap(&mut out, &mut self.data);
        out
    }

    /// Read access to the written bytes.
    pub fn contents(&self) -> (r: &Vec<u8>)
        ensures
            r@ == self.bytes(),
    {
        &self.data
    }
}

} // verus!
