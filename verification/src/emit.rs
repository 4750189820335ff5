//! The value emitter: one open map-writing session, one method per scalar
//! kind, each call appending exactly one entry in order.
//!
//! Every key and every value is encoded by the serialization backend
//! (see the trusted calls in [`crate::json`]). The compact map framing
//! around them — `{`, `:`, `,`, `}` — is four fixed bytes; it is written
//! here and proved against [`map_bytes`], the stated byte layout of a
//! compact JSON map.

use vstd::prelude::*;
use crate::error::EncodeError;
use crate::json::{
    JVal, bool_bytes, dec_int, json_bool, json_char, json_i64, json_null, json_string,
    json_string_bytes, json_u64, jval_bytes, lemma_dec_int_printable, null_bytes,
};
use crate::render::{clear_string, render_into};

verus! {

/// The bytes of one map entry: encoded key, `:`, encoded value.
pub open spec fn entry_bytes(e: (Seq<char>, JVal)) -> Seq<u8> {
    json_string_bytes(e.0) + seq![58u8] + jval_bytes(e.1)
}

/// The bytes of a sequence of entries, separated by `,`.
pub open spec fn entries_bytes(es: Seq<(Seq<char>, JVal)>) -> Seq<u8>
    decreases es.len(),
{
    if es.len() == 0 {
        Seq::<u8>::empty()
    } else if es.len() == 1 {
        entry_bytes(es[0])
    } else {
        entries_bytes(es.drop_last()) + seq![44u8] + entry_bytes(es.last())
    }
}

/// The complete document: `{`, the entries, `}`.
pub open spec fn map_bytes(es: Seq<(Seq<char>, JVal)>) -> Seq<u8> {
    seq![123u8] + entries_bytes(es) + seq![125u8]
}

/// An open map-writing session. Each `emit_*` call writes one entry; the
/// entries stand in the document in exactly the order of the calls.
pub struct ValueEmitter {
    out: Vec<u8>,
    first: bool,
    written: Ghost<Seq<(Seq<char>, JVal)>>,
}

impl ValueEmitter {
    /// The entries emitted so far, in order.
    pub closed spec fn entries(self) -> Seq<(Seq<char>, JVal)> {
        self.written@
    }

    /// The session's bytes mirror its entries, and hold no control byte,
    /// so the finished document is one line.
    pub closed spec fn wf(self) -> bool {
        &&& (self.first <==> self.written@.len() == 0)
        &&& self.out@ == seq![123u8] + entries_bytes(self.written@)
        &&& forall|i: int| 0 <= i < self.out@.len() ==> #[trigger] self.out@[i] >= 32
    }

    /// Open a session. The backend's compact format needs no entry-count
    /// bound, so the hint may be `None`; it is not used.
    pub fn start(_len: Option<usize>) -> (r: ValueEmitter)
        ensures
            r.wf(),
            r.entries() == Seq::<(Seq<char>, JVal)>::empty(),
    {
        let mut out: Vec<u8> = Vec::new();
        out.push(123u8);
        let r = ValueEmitter { out, first: true, written: Ghost(Seq::empty()) };
        proof {
            assert(r.out@ =~= seq![123u8] + entries_bytes(r.written@));
        }
        r
    }

    /// Append one entry: separator if needed, encoded key, `:`, the
    /// already-encoded value bytes.
    fn push_entry(&mut self, key: &str, vb: Vec<u8>, Ghost(jv): Ghost<JVal>)
        requires
            old(self).wf(),
            vb@ == jval_bytes(jv),
            forall|i: int| 0 <= i < vb@.len() ==> #[trigger] vb@[i] >= 32,
        ensures
            final(self).wf(),
            final(self).entries() == old(self).entries().push((key@, jv)),
    {
        if !self.first {
            self.out.push(44u8);
        }
        let mut kb = json_string(key);
        self.out.append(&mut kb);
        self.out.push(58u8);
        let mut v = vb;
        self.out.append(&mut v);
        self.first = false;
        proof {
            let es = old(self).written@;
            let e = (key@, jv);
            self.written@ = es.push(e);
            assert(es.push(e).drop_last() =~= es);
            assert(es.push(e).last() == e);
            if es.len() == 0 {
                assert(entries_bytes(es.push(e)) == entry_bytes(e));
                assert(self.out@ =~= seq![123u8] + entries_bytes(es.push(e)));
            } else {
                assert(entries_bytes(es.push(e)) == entries_bytes(es) + seq![44u8] + entry_bytes(
                    e,
                ));
                assert(self.out@ =~= seq![123u8] + entries_bytes(es.push(e)));
            }
        }
    }

    /// Emit a boolean entry.
    pub fn emit_bool(&mut self, key: &str, val: bool) -> (r: Result<(), EncodeError>)
        requires
            old(self).wf(),
        ensures
            final(self).wf(),
            r is Ok,
            final(self).entries() == old(self).entries().push((key@, JVal::Bool(val))),
    {
        let vb = json_bool(val);
        proof {
            assert(forall|i: int| 0 <= i < bool_bytes(val).len() ==> #[trigger] bool_bytes(
                val,
            )[i] >= 32);
        }
        self.push_entry(key, vb, Ghost(JVal::Bool(val)));
        Ok(())
    }

    /// Emit the unit value as JSON `null`.
    pub fn emit_unit(&mut self, key: &str) -> (r: Result<(), EncodeError>)
        requires
            old(self).wf(),
        ensures
            final(self).wf(),
            r is Ok,
            final(self).entries() == old(self).entries().push((key@, JVal::Null)),
    {
        let vb = json_null();
        proof {
            assert(forall|i: int| 0 <= i < null_bytes().len() ==> #[trigger] null_bytes()[i]
                >= 32);
        }
        self.push_entry(key, vb, Ghost(JVal::Null));
        Ok(())
    }

    /// Emit an absent value as JSON `null`.
    pub fn emit_none(&mut self, key: &str) -> (r: Result<(), EncodeError>)
        requires
            old(self).wf(),
        ensures
            final(self).wf(),
            r is Ok,
            final(self).entries() == old(self).entries().push((key@, JVal::Null)),
    {
        self.emit_unit(key)
    }

    /// Emit a single character as a one-character JSON string.
    pub fn emit_char(&mut self, key: &str, val: char) -> (r: Result<(), EncodeError>)
        requires
            old(self).wf(),
        ensures
            final(self).wf(),
            r is Ok,
            final(self).entries() == old(self).entries().push((key@, JVal::Str(seq![val]))),
    {
        let vb = json_char(val);
        self.push_entry(key, vb, Ghost(JVal::Str(seq![val])));
        Ok(())
    }

    /// Emit a string entry.
    pub fn emit_str(&mut self, key: &str, val: &str) -> (r: Result<(), EncodeError>)
        requires
            old(self).wf(),
        ensures
            final(self).wf(),
            r is Ok,
            final(self).entries() == old(self).entries().push((key@, JVal::Str(val@))),
    {
        let vb = json_string(val);
        self.push_entry(key, vb, Ghost(JVal::Str(val@)));
        Ok(())
    }

    /// Emit an unsigned integer entry.
    pub fn emit_u64(&mut self, key: &str, val: u64) -> (r: Result<(), EncodeError>)
        requires
            old(self).wf(),
        ensures
            final(self).wf(),
            r is Ok,
            final(self).entries() == old(self).entries().push((key@, JVal::Int(val as int))),
    {
        let vb = json_u64(val);
        proof {
            lemma_dec_int_printable(val as int);
        }
        self.push_entry(key, vb, Ghost(JVal::Int(val as int)));
        Ok(())
    }

    /// Emit a signed integer entry.
    pub fn emit_i64(&mut self, key: &str, val: i64) -> (r: Result<(), EncodeError>)
        requires
            old(self).wf(),
        ensures
            final(self).wf(),
            r is Ok,
            final(self).entries() == old(self).entries().push((key@, JVal::Int(val as int))),
    {
        let vb = json_i64(val);
        proof {
            lemma_dec_int_printable(val as int);
        }
        self.push_entry(key, vb, Ghost(JVal::Int(val as int)));
        Ok(())
    }

    /// Emit a `u8` entry.
    pub fn emit_u8(&mut self, key: &str, val: u8) -> (r: Result<(), EncodeError>)
        requires
            old(self).wf(),
        ensures
            final(self).wf(),
            r is Ok,
            final(self).entries() == old(self).entries().push((key@, JVal::Int(val as int))),
    {
        self.emit_u64(key, val as u64)
    }

    /// Emit an `i8` entry.
    pub fn emit_i8(&mut self, key: &str, val: i8) -> (r: Result<(), EncodeError>)
        requires
            old(self).wf(),
        ensures
            final(self).wf(),
            r is Ok,
            final(self).entries() == old(self).entries().push((key@, JVal::Int(val as int))),
    {
        self.emit_i64(key, val as i64)
    }

    /// Emit a `u16` entry.
    pub fn emit_u16(&mut self, key: &str, val: u16) -> (r: Result<(), EncodeError>)
        requires
            old(self).wf(),
        ensures
            final(self).wf(),
            r is Ok,
            final(self).entries() == old(self).entries().push((key@, JVal::Int(val as int))),
    {
        self.emit_u64(key, val as u64)
    }

    /// Emit an `i16` entry.
    pub fn emit_i16(&mut self, key: &str, val: i16) -> (r: Result<(), EncodeError>)
        requires
            old(self).wf(),
        ensures
            final(self).wf(),
            r is Ok,
            final(self).entries() == old(self).entries().push((key@, JVal::Int(val as int))),
    {
        self.emit_i64(key, val as i64)
    }

    /// Emit a `u32` entry.
    pub fn emit_u32(&mut self, key: &str, val: u32) -> (r: Result<(), EncodeError>)
        requires
            old(self).wf(),
        ensures
            final(self).wf(),
            r is Ok,
            final(self).entries() == old(self).entries().push((key@, JVal::Int(val as int))),
    {
        self.emit_u64(key, val as u64)
    }

    /// Emit an `i32` entry.
    pub fn emit_i32(&mut self, key: &str, val: i32) -> (r: Result<(), EncodeError>)
        requires
            old(self).wf(),
        ensures
            final(self).wf(),
            r is Ok,
            final(self).entries() == old(self).entries().push((key@, JVal::Int(val as int))),
    {
        self.emit_i64(key, val as i64)
    }

    /// Emit a `usize` entry.
    pub fn emit_usize(&mut self, key: &str, val: usize) -> (r: Result<(), EncodeError>)
        requires
            old(self).wf(),
        ensures
            final(self).wf(),
            r is Ok,
            final(self).entries() == old(self).entries().push((key@, JVal::Int(val as int))),
    {
        self.emit_u64(key, val as u64)
    }

    /// Emit an `isize` entry.
    pub fn emit_isize(&mut self, key: &str, val: isize) -> (r: Result<(), EncodeError>)
        requires
            old(self).wf(),
        ensures
            final(self).wf(),
            r is Ok,
            final(self).entries() == old(self).entries().push((key@, JVal::Int(val as int))),
    {
        self.emit_i64(key, val as i64)
    }

    /// Emit a lazily formatted value: render it into the caller-owned
    /// scratch buffer, write the text this one call rendered as a string
    /// entry, and clear the buffer before returning, on the success and
    /// the failure path alike. What text the rendering produces is the
    /// formatting callbacks' decision, so the entry's text is stated
    /// existentially.
    pub fn emit_arguments(
        &mut self,
        key: &str,
        val: &core::fmt::Arguments,
        scratch: &mut String,
    ) -> (r: Result<(), EncodeError>)
        requires
            old(self).wf(),
            old(scratch)@.len() == 0,
        ensures
            final(self).wf(),
            final(scratch)@.len() == 0,
            r is Ok ==> exists|t: Seq<char>|
                final(self).entries() == old(self).entries().push((key@, JVal::Str(t))),
            r is Err ==> final(self).entries() == old(self).entries(),
    {
        match render_into(scratch, val) {
            Ok(()) => {
                let ghost t = scratch@;
                let vb = json_string(scratch.as_str());
                self.push_entry(key, vb, Ghost(JVal::Str(t)));
                clear_string(scratch);
                Ok(())
            },
            Err(e) => {
                clear_string(scratch);
                Err(e)
            },
        }
    }

    /// Emit pre-encoded JSON text verbatim. The bytes must be printable
    /// ASCII; anything else is rejected without writing an entry.
    pub fn emit_raw(&mut self, key: &str, bytes: &Vec<u8>) -> (r: Result<(), EncodeError>)
        requires
            old(self).wf(),
        ensures
            final(self).wf(),
            (r is Ok) <==> (forall|i: int| 0 <= i < bytes@.len() ==> 32 <= #[trigger] bytes@[i]
                <= 126),
            r is Ok ==> final(self).entries() == old(self).entries().push(
                (key@, JVal::Raw(bytes@)),
            ),
            r is Err ==> final(self).entries() == old(self).entries(),
    {
        let n: usize = bytes.len();
        let mut vb: Vec<u8> = Vec::new();
        let mut i: usize = 0;
        while i < n
            invariant
                n == bytes@.len(),
                0 <= i <= n,
                vb@ == bytes@.take(i as int),
                forall|j: int| 0 <= j < i ==> 32 <= #[trigger] bytes@[j] <= 126,
                self == old(self),
                old(self).wf(),
            decreases n - i,
        {
            let b: u8 = bytes[i];
            if b < 32 || b > 126 {
                proof {
                    assert(!(32 <= bytes@[i as int] <= 126));
                }
                return Err(EncodeError::Serialization);
            }
            vb.push(b);
            proof {
                assert(vb@ =~= bytes@.take(i + 1));
            }
            i += 1;
        }
        proof {
            assert(vb@ =~= bytes@);
        }
        self.push_entry(key, vb, Ghost(JVal::Raw(bytes@)));
        Ok(())
    }

    /// Close the session, yielding the complete document bytes. Every
    /// byte is printable or multi-byte text: in particular no newline is
    /// embedded.
    pub fn end(self) -> (r: Vec<u8>)
        requires
            self.wf(),
        ensures
            r@ == map_bytes(self.entries()),
            forall|i: int| 0 <= i < r@.len() ==> #[trigger] r@[i] >= 32,
    {
        let mut out = self.out;
        out.push(125u8);
        proof {
            assert(out@ =~= map_bytes(self.written@));
        }
        out
    }
}

} // verus!
