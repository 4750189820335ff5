//! The record encoder: for one log record it opens a map session, feeds
//! it the configured default/custom groups, the caller's record-derived
//! groups, the ancestor groups outermost first, and the record's own
//! fields, in that order, closes the session and writes the document to
//! the sink, optionally newline-terminated.

use vstd::prelude::*;
use crate::emit::{ValueEmitter, map_bytes};
use crate::error::EncodeError;
use crate::json::JVal;
use crate::level::{Level, level_chars, level_to_string};
use crate::render::{clear_string, render_into};
use crate::sink::Sink;
use crate::value::{KeyValueGroup, Msg, Record, Value, msg_matches, msg_text_or};

verus! {

/// One configured group: either the three standard default fields or a
/// group of custom values, kept in configuration order.
pub enum GroupCfg {
    /// The standard fields `ts`, `level`, `msg`.
    Defaults,
    /// A configured group of eager values.
    Fields(KeyValueGroup),
}

/// The three standard entries: timestamp, severity code, message text.
pub open spec fn default_entries(ts: Seq<char>, lvl: Level, msg: Seq<char>) -> Seq<
    (Seq<char>, JVal),
> {
    seq![
        ("ts"@, JVal::Str(ts)),
        ("level"@, JVal::Str(level_chars(lvl))),
        ("msg"@, JVal::Str(msg)),
    ]
}

/// The entries one configured group contributes.
pub open spec fn group_cfg_entries(g: GroupCfg, ts: Seq<char>, lvl: Level, msg: Seq<char>) -> Seq<
    (Seq<char>, JVal),
> {
    match g {
        GroupCfg::Defaults => default_entries(ts, lvl, msg),
        GroupCfg::Fields(kv) => kv.entries(),
    }
}

/// The entries of a list of configured groups, in configuration order.
pub open spec fn configured_entries(
    cfgs: Seq<GroupCfg>,
    ts: Seq<char>,
    lvl: Level,
    msg: Seq<char>,
) -> Seq<(Seq<char>, JVal)>
    decreases cfgs.len(),
{
    if cfgs.len() == 0 {
        Seq::<(Seq<char>, JVal)>::empty()
    } else {
        configured_entries(cfgs.drop_last(), ts, lvl, msg) + group_cfg_entries(
            cfgs.last(),
            ts,
            lvl,
            msg,
        )
    }
}

/// The entries of a list of groups, first group first.
pub open spec fn groups_entries(gs: Seq<KeyValueGroup>) -> Seq<(Seq<char>, JVal)>
    decreases gs.len(),
{
    if gs.len() == 0 {
        Seq::<(Seq<char>, JVal)>::empty()
    } else {
        groups_entries(gs.drop_last()) + gs.last().entries()
    }
}

/// All entries of one record's document, in the order they are written:
/// configured groups, the caller's record-derived groups, ancestor
/// groups outermost first, the record's own fields.
pub open spec fn doc_entries(
    cfgs: Seq<GroupCfg>,
    ts: Seq<char>,
    lvl: Level,
    msg: Seq<char>,
    derived: Seq<KeyValueGroup>,
    ancestors: Seq<KeyValueGroup>,
    kv: KeyValueGroup,
) -> Seq<(Seq<char>, JVal)> {
    configured_entries(cfgs, ts, lvl, msg) + groups_entries(derived) + groups_entries(ancestors)
        + kv.entries()
}

/// Every `Raw` value in every configured group is acceptable.
pub open spec fn cfgs_values_ok(cfgs: Seq<GroupCfg>) -> bool {
    forall|i: int|
        0 <= i < cfgs.len() ==> ((#[trigger] cfgs[i]) matches GroupCfg::Fields(g)
            ==> g.values_ok())
}

/// Every `Raw` value in every group is acceptable.
pub open spec fn groups_values_ok(gs: Seq<KeyValueGroup>) -> bool {
    forall|i: int| 0 <= i < gs.len() ==> (#[trigger] gs[i]).values_ok()
}

/// Every `Raw` value anywhere in the document is acceptable.
pub open spec fn doc_values_ok(
    cfgs: Seq<GroupCfg>,
    derived: Seq<KeyValueGroup>,
    ancestors: Seq<KeyValueGroup>,
    kv: KeyValueGroup,
) -> bool {
    &&& cfgs_values_ok(cfgs)
    &&& groups_values_ok(derived)
    &&& groups_values_ok(ancestors)
    &&& kv.values_ok()
}

/// Whether the configuration includes the standard default fields.
pub open spec fn spec_has_defaults(cfgs: Seq<GroupCfg>) -> bool {
    exists|i: int| 0 <= i < cfgs.len() && (#[trigger] cfgs[i]) is Defaults
}

/// What one successful `encode` call leaves on the sink: the document of
/// the given entries, then one newline when newlines are on; no control
/// byte stands in the document, and the whole write fit the sink's bound.
pub open spec fn encoded_output(
    before: Seq<u8>,
    after: Seq<u8>,
    cap: nat,
    cfgs: Seq<GroupCfg>,
    ts: Seq<char>,
    lvl: Level,
    msg: Seq<char>,
    derived: Seq<KeyValueGroup>,
    ancestors: Seq<KeyValueGroup>,
    kv: KeyValueGroup,
    newline: bool,
) -> bool {
    let doc = map_bytes(doc_entries(cfgs, ts, lvl, msg, derived, ancestors, kv));
    let nl: Seq<u8> = if newline {
        seq![10u8]
    } else {
        Seq::<u8>::empty()
    };
    &&& after == before + doc + nl
    &&& (forall|i: int| 0 <= i < doc.len() ==> #[trigger] doc[i] >= 32)
    &&& before.len() + doc.len() + nl.len() <= cap
}

proof fn lemma_configured_snoc(cfgs: Seq<GroupCfg>, i: int, ts: Seq<char>, lvl: Level, msg: Seq<char>)
    requires
        0 <= i < cfgs.len(),
    ensures
        configured_entries(cfgs.take(i + 1), ts, lvl, msg) == configured_entries(
            cfgs.take(i),
            ts,
            lvl,
            msg,
        ) + group_cfg_entries(cfgs[i], ts, lvl, msg),
{
    assert(cfgs.take(i + 1).drop_last() =~= cfgs.take(i));
    assert(cfgs.take(i + 1).last() == cfgs[i]);
}

proof fn lemma_groups_snoc(gs: Seq<KeyValueGroup>, i: int)
    requires
        0 <= i < gs.len(),
    ensures
        groups_entries(gs.take(i + 1)) == groups_entries(gs.take(i)) + gs[i].entries(),
{
    assert(gs.take(i + 1).drop_last() =~= gs.take(i));
    assert(gs.take(i + 1).last() == gs[i]);
}

/// Order invariant: with the default fields enabled, one ancestor group
/// and the record's own fields, the document's entries are the three
/// default entries first, then the ancestor's entries, then the record's
/// own, whatever the groups hold.
pub proof fn lemma_order_defaults_ancestor_record(
    ts: Seq<char>,
    lvl: Level,
    msg: Seq<char>,
    ancestor: KeyValueGroup,
    kv: KeyValueGroup,
)
    ensures
        doc_entries(
            seq![GroupCfg::Defaults],
            ts,
            lvl,
            msg,
            Seq::<KeyValueGroup>::empty(),
            seq![ancestor],
            kv,
        ) == default_entries(ts, lvl, msg) + ancestor.entries() + kv.entries(),
{
    let cfgs = seq![GroupCfg::Defaults];
    assert(cfgs.drop_last() =~= Seq::<GroupCfg>::empty());
    assert(cfgs.last() == GroupCfg::Defaults);
    assert(configured_entries(Seq::<GroupCfg>::empty(), ts, lvl, msg) == Seq::<(
        Seq<char>,
        JVal,
    )>::empty());
    assert(configured_entries(cfgs, ts, lvl, msg) =~= default_entries(ts, lvl, msg));
    let gs = seq![ancestor];
    assert(gs.drop_last() =~= Seq::<KeyValueGroup>::empty());
    assert(gs.last() == ancestor);
    assert(groups_entries(Seq::<KeyValueGroup>::empty()) == Seq::<(Seq<char>, JVal)>::empty());
    assert(groups_entries(gs) =~= ancestor.entries());
    assert(doc_entries(
        cfgs,
        ts,
        lvl,
        msg,
        Seq::<KeyValueGroup>::empty(),
        gs,
        kv,
    ) =~= default_entries(ts, lvl, msg) + ancestor.entries() + kv.entries());
}

/// Relies on `chrono::Local::now().to_rfc3339()`: the current local time
/// as an RFC 3339 / ISO 8601 text with a numeric offset, such as
/// `1996-12-19T16:39:57-08:00`. The result depends on the clock and the
/// machine's time zone, so only what holds of every outcome is stated:
/// the text is built from year, month, day, hour, minute, second, an
/// optional subsecond fraction and the offset, all written as decimal
/// digits joined by `-`, `T`, `:`, `.` and a sign, which bounds its
/// length and its characters.
#[verifier::external_body]
fn now_rfc3339() -> (r: String)
    ensures
        25 <= r@.len() <= 48,
        forall|i: int|
            0 <= i < r@.len() ==> (('0' <= #[trigger] r@[i] <= '9') || r@[i] == '-' || r@[i] == '+'
                || r@[i] == ':' || r@[i] == '.' || r@[i] == 'T'),
{
    chrono::Local::now().to_rfc3339()
}

/// Emit one eager value under its key: exactly one entry on success;
/// only an unacceptable `Raw` value is refused, and writes nothing.
fn emit_value(em: &mut ValueEmitter, key: &str, v: &Value) -> (r: Result<(), EncodeError>)
    requires
        old(em).wf(),
    ensures
        final(em).wf(),
        (r is Ok) <==> v.raw_ok(),
        r is Ok ==> final(em).entries() == old(em).entries().push((key@, v.jval())),
        r is Err ==> final(em).entries() == old(em).entries(),
{
    match v {
        Value::Bool(b) => em.emit_bool(key, *b),
        Value::Unit => em.emit_unit(key),
        Value::Absent => em.emit_none(key),
        Value::Char(c) => em.emit_char(key, *c),
        Value::U8(x) => em.emit_u8(key, *x),
        Value::I8(x) => em.emit_i8(key, *x),
        Value::U16(x) => em.emit_u16(key, *x),
        Value::I16(x) => em.emit_i16(key, *x),
        Value::U32(x) => em.emit_u32(key, *x),
        Value::I32(x) => em.emit_i32(key, *x),
        Value::U64(x) => em.emit_u64(key, *x),
        Value::I64(x) => em.emit_i64(key, *x),
        Value::Usize(x) => em.emit_usize(key, *x),
        Value::Isize(x) => em.emit_isize(key, *x),
        Value::Str(s) => em.emit_str(key, s.as_str()),
        Value::Raw(b) => em.emit_raw(key, b),
    }
}

/// Emit every pair of one group, in order. Succeeds exactly when every
/// `Raw` value in the group is acceptable.
fn emit_group(em: &mut ValueEmitter, g: &KeyValueGroup) -> (r: Result<(), EncodeError>)
    requires
        old(em).wf(),
    ensures
        final(em).wf(),
        (r is Ok) <==> g.values_ok(),
        r is Ok ==> final(em).entries() == old(em).entries() + g.entries(),
{
    let n: usize = g.pairs.len();
    let mut i: usize = 0;
    while i < n
        invariant
            em.wf(),
            n == g.pairs@.len(),
            0 <= i <= n,
            em.entries() == old(em).entries() + g.entries().take(i as int),
            forall|j: int| 0 <= j < i ==> (#[trigger] g.pairs@[j].1).raw_ok(),
        decreases n - i,
    {
        let pair = &g.pairs[i];
        let step = emit_value(em, pair.0.as_str(), &pair.1);
        if step.is_err() {
            proof {
                assert(!g.pairs@[i as int].1.raw_ok());
            }
            return Err(EncodeError::Serialization);
        }
        proof {
            assert(g.entries()[i as int] == (g.pairs@[i as int].0@, g.pairs@[i as int].1.jval()));
            assert(g.entries().take(i + 1) =~= g.entries().take(i as int).push(
                g.entries()[i as int],
            ));
        }
        i += 1;
    }
    proof {
        assert(g.entries().take(n as int) =~= g.entries());
    }
    Ok(())
}

/// Emit the three standard default fields from already-resolved texts.
fn emit_defaults(em: &mut ValueEmitter, ts: &str, lvl: Level, msg_text: &str)
    requires
        old(em).wf(),
    ensures
        final(em).wf(),
        final(em).entries() == old(em).entries() + default_entries(ts@, lvl, msg_text@),
{
    let _ = em.emit_str("ts", ts);
    let _ = em.emit_str("level", level_to_string(lvl));
    let _ = em.emit_str("msg", msg_text);
    proof {
        assert(em.entries() =~= old(em).entries() + default_entries(ts@, lvl, msg_text@));
    }
}

/// Whether the configuration will emit the default fields.
fn has_defaults(values: &Vec<GroupCfg>) -> (r: bool)
    ensures
        r == spec_has_defaults(values@),
{
    let n: usize = values.len();
    let mut i: usize = 0;
    while i < n
        invariant
            n == values@.len(),
            0 <= i <= n,
            forall|j: int| 0 <= j < i ==> !((#[trigger] values@[j]) is Defaults),
        decreases n - i,
    {
        match &values[i] {
            GroupCfg::Defaults => {
                proof {
                    assert(values@[i as int] is Defaults);
                }
                return true;
            },
            GroupCfg::Fields(_) => {},
        }
        i += 1;
    }
    false
}

/// The JSON record encoder: writes each record as one JSON map to its
/// sink, optionally newline-terminated.
pub struct Json {
    newlines: bool,
    values: Vec<GroupCfg>,
    sink: Sink,
}

/// Configures and builds a [`Json`] encoder.
pub struct JsonBuilder {
    newlines: bool,
    values: Vec<GroupCfg>,
    sink: Sink,
}

impl Json {
    /// Whether a newline terminates each record.
    pub closed spec fn spec_newlines(self) -> bool {
        self.newlines
    }

    /// The configured groups, in order.
    pub closed spec fn spec_values(self) -> Seq<GroupCfg> {
        self.values@
    }

    /// The bytes written to the sink so far.
    pub closed spec fn out_bytes(self) -> Seq<u8> {
        self.sink.bytes()
    }

    /// The sink's size bound.
    pub closed spec fn out_cap(self) -> nat {
        self.sink.cap()
    }

    /// An encoder with the default key/value pairs (`ts`, `level`, `msg`)
    /// added and newlines on.
    pub fn default(sink: Sink) -> (r: Json)
        ensures
            r.spec_newlines(),
            r.spec_values() =~= seq![GroupCfg::Defaults],
            r.out_bytes() == sink.bytes(),
            r.out_cap() == sink.cap(),
    {
        JsonBuilder::new(sink).add_default_keys().build()
    }

    /// Begin building a custom encoder.
    pub fn new(sink: Sink) -> (r: JsonBuilder)
        ensures
            r.spec_newlines(),
            r.spec_values() == Seq::<GroupCfg>::empty(),
            r.out_bytes() == sink.bytes(),
            r.out_cap() == sink.cap(),
    {
        JsonBuilder::new(sink)
    }

    /// Take the bytes written so far out of the sink.
    pub fn take_output(&mut self) -> (r: Vec<u8>)
        ensures
            r@ == old(self).out_bytes(),
            final(self).out_bytes() == Seq::<u8>::empty(),
            final(self).out_cap() == old(self).out_cap(),
            final(self).spec_newlines() == old(self).spec_newlines(),
            final(self).spec_values() == old(self).spec_values(),
    {
        self.sink.take()
    }

    /// Read access to the bytes written so far.
    pub fn output(&self) -> (r: &Vec<u8>)
        ensures
            r@ == self.out_bytes(),
    {
        self.sink.contents()
    }

    /// Encode one record with the timestamp text given by the caller.
    ///
    /// `derived` holds the caller's record-derived groups, evaluated for
    /// this record; they stand after the configured groups and before
    /// the ancestors. On success the sink receives exactly the document
    /// of [`doc_entries`], newline-terminated when newlines are on, and
    /// the whole write fit the sink's bound — so a sink too small for
    /// the document provably returns the failure. A lazily formatted
    /// message renders once, through the scratch buffer, and the entry
    /// holds whatever text that one rendering produced. On failure
    /// nothing is written beyond the failing write: the sink holds
    /// either its old bytes or the document without its newline.
    pub fn encode_with_ts(
        &mut self,
        ts: &str,
        rec: &Record,
        derived: &Vec<KeyValueGroup>,
        ancestors: &Vec<KeyValueGroup>,
        scratch: &mut String,
    ) -> (r: Result<(), EncodeError>)
        requires
            old(scratch)@.len() == 0,
        ensures
            final(self).spec_newlines() == old(self).spec_newlines(),
            final(self).spec_values() == old(self).spec_values(),
            final(self).out_cap() == old(self).out_cap(),
            final(scratch)@.len() == 0,
            r is Ok ==> exists|mt: Seq<char>|
                msg_matches(rec.msg, mt) && #[trigger] encoded_output(
                    old(self).out_bytes(),
                    final(self).out_bytes(),
                    old(self).out_cap(),
                    old(self).spec_values(),
                    ts@,
                    rec.level,
                    mt,
                    derived@,
                    ancestors@,
                    rec.kv,
                    old(self).spec_newlines(),
                ),
            r is Ok ==> doc_values_ok(old(self).spec_values(), derived@, ancestors@, rec.kv),
            r is Err ==> final(self).out_bytes() == old(self).out_bytes() || exists|mt: Seq<char>|
                final(self).out_bytes() == old(self).out_bytes() + map_bytes(
                    #[trigger] doc_entries(
                        old(self).spec_values(),
                        ts@,
                        rec.level,
                        mt,
                        derived@,
                        ancestors@,
                        rec.kv,
                    ),
                ),
            (rec.msg matches Msg::Text(s) && doc_values_ok(
                old(self).spec_values(),
                derived@,
                ancestors@,
                rec.kv,
            ) && old(self).out_bytes().len() + map_bytes(
                doc_entries(
                    old(self).spec_values(),
                    ts@,
                    rec.level,
                    s@,
                    derived@,
                    ancestors@,
                    rec.kv,
                ),
            ).len() + (if old(self).spec_newlines() {
                1int
            } else {
                0int
            }) <= old(self).out_cap()) ==> r is Ok,
    {
        let ghost lvl = rec.level;
        // resolve the message text once; a lazy message renders only
        // when the configuration will actually emit a `msg` field, and
        // the one rendered text serves every configured occurrence
        let mut mtext: String = String::new();
        match &rec.msg {
            Msg::Text(_) => {},
            Msg::Lazy(a) => {
                if has_defaults(&self.values) {
                    let rendered = render_into(scratch, a);
                    if rendered.is_err() {
                        clear_string(scratch);
                        return Err(EncodeError::Serialization);
                    }
                    core::mem::swap(&mut mtext, scratch);
                }
            },
        }
        let ghost mt: Seq<char> = msg_text_or(rec.msg, mtext@);
        let mut em = ValueEmitter::start(None);
        let nv: usize = self.values.len();
        let mut i: usize = 0;
        while i < nv
            invariant
                em.wf(),
                scratch@.len() == 0,
                self == old(self),
                nv == self.values@.len(),
                0 <= i <= nv,
                lvl == rec.level,
                (rec.msg matches Msg::Text(s) ==> mt == s@),
                (rec.msg matches Msg::Lazy(_) ==> mt == mtext@),
                em.entries() == configured_entries(self.values@.take(i as int), ts@, lvl, mt),
                forall|k: int|
                    0 <= k < i ==> ((#[trigger] self.values@[k]) matches GroupCfg::Fields(g)
                        ==> g.values_ok()),
            decreases nv - i,
        {
            let step = match &self.values[i] {
                GroupCfg::Defaults => {
                    let msg_str: &str = match &rec.msg {
                        Msg::Text(s) => s.as_str(),
                        Msg::Lazy(_) => mtext.as_str(),
                    };
                    emit_defaults(&mut em, ts, rec.level, msg_str);
                    Ok(())
                },
                GroupCfg::Fields(g) => emit_group(&mut em, g),
            };
            if step.is_err() {
                proof {
                    if self.values@[i as int] is Fields {
                        assert(!cfgs_values_ok(self.values@));
                    }
                }
                return Err(EncodeError::Serialization);
            }
            proof {
                lemma_configured_snoc(self.values@, i as int, ts@, lvl, mt);
            }
            i += 1;
        }
        proof {
            assert(self.values@.take(nv as int) =~= self.values@);
        }
        let nd: usize = derived.len();
        let mut d: usize = 0;
        while d < nd
            invariant
                em.wf(),
                scratch@.len() == 0,
                self == old(self),
                nd == derived@.len(),
                0 <= d <= nd,
                lvl == rec.level,
                em.entries() == configured_entries(self.values@, ts@, lvl, mt) + groups_entries(
                    derived@.take(d as int),
                ),
                forall|k: int| 0 <= k < d ==> (#[trigger] derived@[k]).values_ok(),
            decreases nd - d,
        {
            let step = emit_group(&mut em, &derived[d]);
            if step.is_err() {
                proof {
                    assert(!groups_values_ok(derived@));
                }
                return Err(EncodeError::Serialization);
            }
            proof {
                lemma_groups_snoc(derived@, d as int);
            }
            d += 1;
        }
        proof {
            assert(derived@.take(nd as int) =~= derived@);
        }
        let na: usize = ancestors.len();
        let mut j: usize = 0;
        while j < na
            invariant
                em.wf(),
                scratch@.len() == 0,
                self == old(self),
                na == ancestors@.len(),
                0 <= j <= na,
                lvl == rec.level,
                em.entries() == configured_entries(self.values@, ts@, lvl, mt) + groups_entries(
                    derived@,
                ) + groups_entries(ancestors@.take(j as int)),
                forall|k: int| 0 <= k < j ==> (#[trigger] ancestors@[k]).values_ok(),
            decreases na - j,
        {
            let step = emit_group(&mut em, &ancestors[j]);
            if step.is_err() {
                proof {
                    assert(!groups_values_ok(ancestors@));
                }
                return Err(EncodeError::Serialization);
            }
            proof {
                lemma_groups_snoc(ancestors@, j as int);
            }
            j += 1;
        }
        proof {
            assert(ancestors@.take(na as int) =~= ancestors@);
        }
        let step = emit_group(&mut em, &rec.kv);
        if step.is_err() {
            return Err(EncodeError::Serialization);
        }
        let ghost es = doc_entries(
            old(self).spec_values(),
            ts@,
            lvl,
            mt,
            derived@,
            ancestors@,
            rec.kv,
        );
        proof {
            assert(em.entries() =~= es);
        }
        let doc = em.end();
        let wres = self.sink.write_all(&doc);
        if wres.is_err() {
            return Err(EncodeError::Serialization);
        }
        if self.newlines {
            let nres = self.sink.write_byte(10u8);
            if nres.is_err() {
                return Err(EncodeError::Serialization);
            }
            proof {
                assert(self.out_bytes() =~= old(self).out_bytes() + map_bytes(es) + seq![10u8]);
                assert(old(self).out_bytes().len() + map_bytes(es).len() + 1 <= old(
                    self,
                ).out_cap());
                assert(msg_matches(rec.msg, mt));
                assert(encoded_output(
                    old(self).out_bytes(),
                    self.out_bytes(),
                    old(self).out_cap(),
                    old(self).spec_values(),
                    ts@,
                    rec.level,
                    mt,
                    derived@,
                    ancestors@,
                    rec.kv,
                    old(self).spec_newlines(),
                ));
            }
            Ok(())
        } else {
            proof {
                assert(self.out_bytes() =~= old(self).out_bytes() + map_bytes(es)
                    + Seq::<u8>::empty());
                assert(old(self).out_bytes().len() + map_bytes(es).len() <= old(self).out_cap());
                assert(msg_matches(rec.msg, mt));
                assert(encoded_output(
                    old(self).out_bytes(),
                    self.out_bytes(),
                    old(self).out_cap(),
                    old(self).spec_values(),
                    ts@,
                    rec.level,
                    mt,
                    derived@,
                    ancestors@,
                    rec.kv,
                    old(self).spec_newlines(),
                ));
            }
            Ok(())
        }
    }

    /// Encode one record: the timestamp of the default fields is the
    /// current local time, so the exact entries are fixed up to that one
    /// text. Everything else — order, encoding, newline framing, the
    /// capacity bound on success, and the short-circuit on failure — is
    /// as in [`Json::encode_with_ts`].
    pub fn encode(
        &mut self,
        rec: &Record,
        derived: &Vec<KeyValueGroup>,
        ancestors: &Vec<KeyValueGroup>,
        scratch: &mut String,
    ) -> (r: Result<(), EncodeError>)
        requires
            old(scratch)@.len() == 0,
        ensures
            final(self).spec_newlines() == old(self).spec_newlines(),
            final(self).spec_values() == old(self).spec_values(),
            final(self).out_cap() == old(self).out_cap(),
            final(scratch)@.len() == 0,
            r is Ok ==> exists|ts: Seq<char>, mt: Seq<char>|
                msg_matches(rec.msg, mt) && #[trigger] encoded_output(
                    old(self).out_bytes(),
                    final(self).out_bytes(),
                    old(self).out_cap(),
                    old(self).spec_values(),
                    ts,
                    rec.level,
                    mt,
                    derived@,
                    ancestors@,
                    rec.kv,
                    old(self).spec_newlines(),
                ),
            r is Ok ==> doc_values_ok(old(self).spec_values(), derived@, ancestors@, rec.kv),
            r is Err ==> final(self).out_bytes() == old(self).out_bytes() || exists|
                ts: Seq<char>,
                mt: Seq<char>,
            |
                final(self).out_bytes() == old(self).out_bytes() + map_bytes(
                    #[trigger] doc_entries(
                        old(self).spec_values(),
                        ts,
                        rec.level,
                        mt,
                        derived@,
                        ancestors@,
                        rec.kv,
                    ),
                ),
            (rec.msg matches Msg::Text(s) && doc_values_ok(
                old(self).spec_values(),
                derived@,
                ancestors@,
                rec.kv,
            ) && (forall|tsx: Seq<char>|
                25 <= tsx.len() <= 48 ==> old(self).out_bytes().len() + map_bytes(
                    #[trigger] doc_entries(
                        old(self).spec_values(),
                        tsx,
                        rec.level,
                        s@,
                        derived@,
                        ancestors@,
                        rec.kv,
                    ),
                ).len() + (if old(self).spec_newlines() {
                    1int
                } else {
                    0int
                }) <= old(self).out_cap())) ==> r is Ok,
    {
        let ts = now_rfc3339();
        let r = self.encode_with_ts(ts.as_str(), rec, derived, ancestors, scratch);
        proof {
            let pre = old(self).out_bytes();
            assert(25 <= ts@.len() <= 48);
            if r is Ok {
                let mtw = choose|mt: Seq<char>|
                    msg_matches(rec.msg, mt) && #[trigger] encoded_output(
                        pre,
                        self.out_bytes(),
                        old(self).out_cap(),
                        old(self).spec_values(),
                        ts@,
                        rec.level,
                        mt,
                        derived@,
                        ancestors@,
                        rec.kv,
                        old(self).spec_newlines(),
                    );
                assert(msg_matches(rec.msg, mtw) && encoded_output(
                    pre,
                    self.out_bytes(),
                    old(self).out_cap(),
                    old(self).spec_values(),
                    ts@,
                    rec.level,
                    mtw,
                    derived@,
                    ancestors@,
                    rec.kv,
                    old(self).spec_newlines(),
                ));
            } else if self.out_bytes() != pre {
                let mtw = choose|mt: Seq<char>|
                    self.out_bytes() == pre + map_bytes(
                        #[trigger] doc_entries(
                            old(self).spec_values(),
                            ts@,
                            rec.level,
                            mt,
                            derived@,
                            ancestors@,
                            rec.kv,
                        ),
                    );
                assert(self.out_bytes() == pre + map_bytes(
                    doc_entries(
                        old(self).spec_values(),
                        ts@,
                        rec.level,
                        mtw,
                        derived@,
                        ancestors@,
                        rec.kv,
                    ),
                ));
            }
        }
        r
    }
}

impl JsonBuilder {
    /// Whether a newline terminates each record.
    pub closed spec fn spec_newlines(self) -> bool {
        self.newlines
    }

    /// The configured groups so far, in order.
    pub closed spec fn spec_values(self) -> Seq<GroupCfg> {
        self.values@
    }

    /// The bytes already in the sink.
    pub closed spec fn out_bytes(self) -> Seq<u8> {
        self.sink.bytes()
    }

    /// The sink's size bound.
    pub closed spec fn out_cap(self) -> nat {
        self.sink.cap()
    }

    fn new(sink: Sink) -> (r: JsonBuilder)
        ensures
            r.spec_newlines(),
            r.spec_values() == Seq::<GroupCfg>::empty(),
            r.out_bytes() == sink.bytes(),
            r.out_cap() == sink.cap(),
    {
        JsonBuilder { newlines: true, values: Vec::new(), sink }
    }

    /// Build the encoder; this consumes the builder.
    pub fn build(self) -> (r: Json)
        ensures
            r.spec_newlines() == self.spec_newlines(),
            r.spec_values() == self.spec_values(),
            r.out_bytes() == self.out_bytes(),
            r.out_cap() == self.out_cap(),
    {
        Json { newlines: self.newlines, values: self.values, sink: self.sink }
    }

    /// Set whether a newline is written after every record.
    pub fn set_newlines(self, enabled: bool) -> (r: JsonBuilder)
        ensures
            r.spec_newlines() == enabled,
            r.spec_values() == self.spec_values(),
            r.out_bytes() == self.out_bytes(),
            r.out_cap() == self.out_cap(),
    {
        JsonBuilder { newlines: enabled, values: self.values, sink: self.sink }
    }

    /// Add a group of custom values to be printed with every record.
    pub fn add_key_value(self, group: KeyValueGroup) -> (r: JsonBuilder)
        ensures
            r.spec_newlines() == self.spec_newlines(),
            r.spec_values() == self.spec_values().push(GroupCfg::Fields(group)),
            r.out_bytes() == self.out_bytes(),
            r.out_cap() == self.out_cap(),
    {
        let mut values = self.values;
        values.push(GroupCfg::Fields(group));
        JsonBuilder { newlines: self.newlines, values, sink: self.sink }
    }

    /// Add the default key/value pairs:
    ///
    /// * `ts` - timestamp
    /// * `level` - record logging level name
    /// * `msg` - formatted logging message
    pub fn add_default_keys(self) -> (r: JsonBuilder)
        ensures
            r.spec_newlines() == self.spec_newlines(),
            r.spec_values() == self.spec_values().push(GroupCfg::Defaults),
            r.out_bytes() == self.out_bytes(),
            r.out_cap() == self.out_cap(),
    {
        let mut values = self.values;
        values.push(GroupCfg::Defaults);
        JsonBuilder { newlines: self.newlines, values, sink: self.sink }
    }
}

/// Create a new [`JsonBuilder`] to configure a [`Json`] encoder.
pub fn custom(sink: Sink) -> (r: JsonBuilder)
    ensures
        r.spec_newlines(),
        r.spec_values() == Seq::<GroupCfg>::empty(),
        r.out_bytes() == sink.bytes(),
        r.out_cap() == sink.cap(),
{
    Json::new(sink)
}

/// A [`Json`] encoder with the default fields and newlines on.
pub fn default(sink: Sink) -> (r: Json)
    ensures
        r.spec_newlines(),
        r.spec_values() =~= seq![GroupCfg::Defaults],
        r.out_bytes() == sink.bytes(),
        r.out_cap() == sink.cap(),
{
    Json::default(sink)
}

} // verus!
