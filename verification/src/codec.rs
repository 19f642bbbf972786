//! The on-disk framing of corpus records, and its codec.
//!
//! A serialized stream is a sequence of frames. Each frame is an 8-byte
//! little-endian length followed by that many bytes of record body. A body
//! is a tag byte (0: text only, 1: text plus metadata), then the text as a
//! length-prefixed byte string, then, for tag 1, the language tag, the
//! collection descriptor (both length-prefixed), the signal count, and each
//! signal as a length-prefixed name plus an 8-byte value.
//!
//! The spec functions `enc_*` define the format; the `dec_*` functions
//! define the parse. [`lemma_record_round_trip`] and
//! [`lemma_frame_round_trip`] prove that the parse inverts the encoding.

use vstd::prelude::*;

use crate::record::{MetaV, Metadata, Record, RecordV, Signal, SignalV};

verus! {

// ------------------------------------------------------------------
// Encoding
// ------------------------------------------------------------------

/// Byte `i` of the little-endian encoding of `v`. Kept opaque: only the
/// primitive codec proofs look at the bit pattern.
#[verifier::opaque]
pub open spec fn u64_byte(v: u64, i: int) -> u8 {
    if i == 0 {
        (v & 0xff) as u8
    } else if i == 1 {
        ((v >> 8) & 0xff) as u8
    } else if i == 2 {
        ((v >> 16) & 0xff) as u8
    } else if i == 3 {
        ((v >> 24) & 0xff) as u8
    } else if i == 4 {
        ((v >> 32) & 0xff) as u8
    } else if i == 5 {
        ((v >> 40) & 0xff) as u8
    } else if i == 6 {
        ((v >> 48) & 0xff) as u8
    } else {
        ((v >> 56) & 0xff) as u8
    }
}

/// The 8-byte little-endian encoding of a 64-bit value.
pub open spec fn enc_u64(v: u64) -> Seq<u8> {
    Seq::new(8, |i: int| u64_byte(v, i))
}

/// A length-prefixed byte string.
pub open spec fn enc_bytes(b: Seq<u8>) -> Seq<u8> {
    enc_u64(b.len() as u64) + b
}

/// One quality signal: its name, then its value.
pub open spec fn enc_signal(s: SignalV) -> Seq<u8> {
    enc_bytes(s.name) + enc_u64(s.value)
}

/// A sequence of signals, one after the other.
pub open spec fn enc_signals(ss: Seq<SignalV>) -> Seq<u8>
    decreases ss.len(),
{
    if ss.len() == 0 {
        Seq::empty()
    } else {
        enc_signal(ss[0]) + enc_signals(ss.skip(1))
    }
}

/// A metadata block: language, collection, signal count, signals.
pub open spec fn enc_meta(m: MetaV) -> Seq<u8> {
    enc_bytes(m.language) + enc_bytes(m.collection) + enc_u64(m.signals.len() as u64)
        + enc_signals(m.signals)
}

/// A record body: tag byte, text, and the metadata block if present.
pub open spec fn enc_record(r: RecordV) -> Seq<u8> {
    match r.meta {
        Option::None => seq![0u8] + enc_bytes(r.text),
        Option::Some(m) => seq![1u8] + enc_bytes(r.text) + enc_meta(m),
    }
}

/// A full frame: the body length, then the body.
pub open spec fn enc_frame(r: RecordV) -> Seq<u8> {
    enc_u64(enc_record(r).len() as u64) + enc_record(r)
}

/// Length bounds under which the encoding is invertible. Every record held
/// in a `Record` value satisfies them, since each field lives in a `Vec`.
pub open spec fn signal_wf(s: SignalV) -> bool {
    s.name.len() <= u64::MAX
}

pub open spec fn meta_wf(m: MetaV) -> bool {
    &&& m.language.len() <= u64::MAX
    &&& m.collection.len() <= u64::MAX
    &&& m.signals.len() <= u64::MAX
    &&& forall|i: int| 0 <= i < m.signals.len() ==> signal_wf(#[trigger] m.signals[i])
}

pub open spec fn record_wf(r: RecordV) -> bool {
    &&& r.text.len() <= u64::MAX
    &&& match r.meta {
        Option::None => true,
        Option::Some(m) => meta_wf(m),
    }
    &&& enc_record(r).len() <= u64::MAX
}

// ------------------------------------------------------------------
// Decoding
// ------------------------------------------------------------------

/// The value of the first 8 bytes of `t`, read little-endian.
#[verifier::opaque]
pub open spec fn dec_u64_val(t: Seq<u8>) -> u64
    recommends
        t.len() >= 8,
{
    (t[0] as u64) | ((t[1] as u64) << 8) | ((t[2] as u64) << 16) | ((t[3] as u64) << 24)
        | ((t[4] as u64) << 32) | ((t[5] as u64) << 40) | ((t[6] as u64) << 48)
        | ((t[7] as u64) << 56)
}

/// Parse an 8-byte value; `None` when fewer than 8 bytes remain.
pub open spec fn dec_u64(t: Seq<u8>) -> Option<(u64, Seq<u8>)> {
    if t.len() >= 8 {
        Option::Some((dec_u64_val(t), t.skip(8)))
    } else {
        Option::None
    }
}

/// Parse a length-prefixed byte string.
pub open spec fn dec_bytes(t: Seq<u8>) -> Option<(Seq<u8>, Seq<u8>)> {
    match dec_u64(t) {
        Option::None => Option::None,
        Option::Some((n, t1)) => if n <= t1.len() {
            Option::Some((t1.take(n as int), t1.skip(n as int)))
        } else {
            Option::None
        },
    }
}

/// Parse one signal.
pub open spec fn dec_signal(t: Seq<u8>) -> Option<(SignalV, Seq<u8>)> {
    match dec_bytes(t) {
        Option::None => Option::None,
        Option::Some((name, t1)) => match dec_u64(t1) {
            Option::None => Option::None,
            Option::Some((v, t2)) => Option::Some((SignalV { name, value: v }, t2)),
        },
    }
}

/// Parse `n` signals, appending them to `acc`.
pub open spec fn dec_signals(t: Seq<u8>, n: nat, acc: Seq<SignalV>) -> Option<
    (Seq<SignalV>, Seq<u8>),
>
    decreases n,
{
    if n == 0 {
        Option::Some((acc, t))
    } else {
        match dec_signal(t) {
            Option::None => Option::None,
            Option::Some((s, t1)) => dec_signals(t1, (n - 1) as nat, acc.push(s)),
        }
    }
}

/// Parse a metadata block.
pub open spec fn dec_meta(t: Seq<u8>) -> Option<(MetaV, Seq<u8>)> {
    match dec_bytes(t) {
        Option::None => Option::None,
        Option::Some((language, t1)) => match dec_bytes(t1) {
            Option::None => Option::None,
            Option::Some((collection, t2)) => match dec_u64(t2) {
                Option::None => Option::None,
                Option::Some((n, t3)) => match dec_signals(t3, n as nat, Seq::empty()) {
                    Option::None => Option::None,
                    Option::Some((signals, t4)) => Option::Some(
                        (MetaV { language, collection, signals }, t4),
                    ),
                },
            },
        },
    }
}

/// Parse a record body from the front of `t`.
pub open spec fn dec_record(t: Seq<u8>) -> Option<(RecordV, Seq<u8>)> {
    if t.len() < 1 {
        Option::None
    } else {
        let tag = t[0];
        let t0 = t.skip(1);
        if tag == 0 {
            match dec_bytes(t0) {
                Option::None => Option::None,
                Option::Some((text, t1)) => Option::Some(
                    (RecordV { text, meta: Option::None }, t1),
                ),
            }
        } else if tag == 1 {
            match dec_bytes(t0) {
                Option::None => Option::None,
                Option::Some((text, t1)) => match dec_meta(t1) {
                    Option::None => Option::None,
                    Option::Some((m, t2)) => Option::Some(
                        (RecordV { text, meta: Option::Some(m) }, t2),
                    ),
                },
            }
        } else {
            Option::None
        }
    }
}

/// Parse a record body that must fill `t` exactly.
pub open spec fn dec_record_exact(t: Seq<u8>) -> Option<RecordV> {
    match dec_record(t) {
        Option::None => Option::None,
        Option::Some((r, rest)) => if rest.len() == 0 {
            Option::Some(r)
        } else {
            Option::None
        },
    }
}

/// The result of reading one frame from the front of a stream.
pub enum FrameResV {
    /// A well-formed record, and the bytes after its frame.
    Rec { r: RecordV, rest: Seq<u8> },
    /// A complete frame whose body is not a well-formed record; `rest` is
    /// the next frame boundary.
    Malformed { rest: Seq<u8> },
    /// The stream ends inside a frame: corrupt or truncated input.
    Truncated,
    /// The stream ends exactly here.
    End,
}

/// Read one frame from the front of `t`.
pub open spec fn dec_frame(t: Seq<u8>) -> FrameResV {
    if t.len() == 0 {
        FrameResV::End
    } else {
        match dec_u64(t) {
            Option::None => FrameResV::Truncated,
            Option::Some((flen, t1)) => if t1.len() < flen {
                FrameResV::Truncated
            } else {
                let body = t1.take(flen as int);
                let rest = t1.skip(flen as int);
                match dec_record_exact(body) {
                    Option::Some(r) => FrameResV::Rec { r, rest },
                    Option::None => FrameResV::Malformed { rest },
                }
            },
        }
    }
}

/// A frame consumes at least one byte of the stream.
pub proof fn lemma_dec_frame_shrinks(t: Seq<u8>)
    ensures
        match dec_frame(t) {
            FrameResV::Rec { rest, .. } => rest.len() < t.len(),
            FrameResV::Malformed { rest } => rest.len() < t.len(),
            _ => true,
        },
{
}

// ------------------------------------------------------------------
// Round-trip lemmas
// ------------------------------------------------------------------

proof fn lemma_add_assoc<A>(a: Seq<A>, b: Seq<A>, c: Seq<A>)
    ensures
        (a + b) + c == a + (b + c),
{
    assert((a + b) + c =~= a + (b + c));
}

proof fn lemma_add_empty<A>(a: Seq<A>)
    ensures
        Seq::<A>::empty() + a == a,
        a + Seq::<A>::empty() == a,
{
    assert(Seq::<A>::empty() + a =~= a);
    assert(a + Seq::<A>::empty() =~= a);
}

proof fn lemma_acc_shift<A>(acc: Seq<A>, ss: Seq<A>)
    requires
        ss.len() > 0,
    ensures
        acc.push(ss[0]) + ss.skip(1) == acc + ss,
{
    assert(acc.push(ss[0]) + ss.skip(1) =~= acc + ss);
}

proof fn lemma_u64_bytes_id(v: u64)
    ensures
        (((v & 0xff) as u8) as u64) | ((((v >> 8) & 0xff) as u8) as u64) << 8 | ((((v >> 16)
            & 0xff) as u8) as u64) << 16 | ((((v >> 24) & 0xff) as u8) as u64) << 24 | ((((v >> 32)
            & 0xff) as u8) as u64) << 32 | ((((v >> 40) & 0xff) as u8) as u64) << 40 | ((((v >> 48)
            & 0xff) as u8) as u64) << 48 | ((((v >> 56) & 0xff) as u8) as u64) << 56 == v,
{
    assert((((v & 0xff) as u8) as u64) | ((((v >> 8) & 0xff) as u8) as u64) << 8 | ((((v >> 16)
        & 0xff) as u8) as u64) << 16 | ((((v >> 24) & 0xff) as u8) as u64) << 24 | ((((v >> 32)
        & 0xff) as u8) as u64) << 32 | ((((v >> 40) & 0xff) as u8) as u64) << 40 | ((((v >> 48)
        & 0xff) as u8) as u64) << 48 | ((((v >> 56) & 0xff) as u8) as u64) << 56 == v)
        by (bit_vector);
}

pub proof fn lemma_dec_enc_u64(v: u64, rest: Seq<u8>)
    ensures
        dec_u64(enc_u64(v) + rest) == Option::Some((v, rest)),
{
    reveal(u64_byte);
    reveal(dec_u64_val);
    let t = enc_u64(v) + rest;
    assert(t.len() >= 8);
    assert(t[0] == (v & 0xff) as u8);
    assert(t[1] == ((v >> 8) & 0xff) as u8);
    assert(t[2] == ((v >> 16) & 0xff) as u8);
    assert(t[3] == ((v >> 24) & 0xff) as u8);
    assert(t[4] == ((v >> 32) & 0xff) as u8);
    assert(t[5] == ((v >> 40) & 0xff) as u8);
    assert(t[6] == ((v >> 48) & 0xff) as u8);
    assert(t[7] == ((v >> 56) & 0xff) as u8);
    lemma_u64_bytes_id(v);
    assert(dec_u64_val(t) == v);
    assert(t.skip(8) =~= rest);
}

#[verifier::rlimit(50)]
pub proof fn lemma_dec_enc_bytes(b: Seq<u8>, rest: Seq<u8>)
    requires
        b.len() <= u64::MAX,
    ensures
        dec_bytes(enc_bytes(b) + rest) == Option::Some((b, rest)),
{
    let n = b.len() as u64;
    assert(enc_bytes(b) + rest =~= enc_u64(n) + (b + rest));
    lemma_dec_enc_u64(n, b + rest);
    assert(n as int == b.len());
    assert((b + rest).take(n as int) =~= b);
    assert((b + rest).skip(n as int) =~= rest);
}

pub proof fn lemma_dec_enc_signal(s: SignalV, rest: Seq<u8>)
    requires
        signal_wf(s),
    ensures
        dec_signal(enc_signal(s) + rest) == Option::Some((s, rest)),
{
    assert(enc_signal(s) + rest =~= enc_bytes(s.name) + (enc_u64(s.value) + rest));
    lemma_dec_enc_bytes(s.name, enc_u64(s.value) + rest);
    lemma_dec_enc_u64(s.value, rest);
}

#[verifier::rlimit(50)]
pub proof fn lemma_dec_enc_signals(ss: Seq<SignalV>, rest: Seq<u8>, acc: Seq<SignalV>)
    requires
        forall|i: int| 0 <= i < ss.len() ==> signal_wf(#[trigger] ss[i]),
    ensures
        dec_signals(enc_signals(ss) + rest, ss.len(), acc) == Option::Some((acc + ss, rest)),
    decreases ss.len(),
{
    if ss.len() == 0 {
        lemma_add_empty(rest);
        lemma_add_empty(ss);
        assert(acc + ss =~= acc);
    } else {
        let tail = ss.skip(1);
        lemma_add_assoc(enc_signal(ss[0]), enc_signals(tail), rest);
        lemma_dec_enc_signal(ss[0], enc_signals(tail) + rest);
        lemma_dec_enc_signals(tail, rest, acc.push(ss[0]));
        lemma_acc_shift(acc, ss);
    }
}

pub proof fn lemma_dec_enc_meta(m: MetaV, rest: Seq<u8>)
    requires
        meta_wf(m),
    ensures
        dec_meta(enc_meta(m) + rest) == Option::Some((m, rest)),
{
    let n = m.signals.len() as u64;
    let after_coll = enc_u64(n) + (enc_signals(m.signals) + rest);
    let after_lang = enc_bytes(m.collection) + after_coll;
    assert(enc_meta(m) + rest =~= enc_bytes(m.language) + after_lang);
    lemma_dec_enc_bytes(m.language, after_lang);
    lemma_dec_enc_bytes(m.collection, after_coll);
    lemma_dec_enc_u64(n, enc_signals(m.signals) + rest);
    lemma_dec_enc_signals(m.signals, rest, Seq::empty());
    assert(Seq::<SignalV>::empty() + m.signals =~= m.signals);
}

pub proof fn lemma_dec_enc_record(r: RecordV, rest: Seq<u8>)
    requires
        record_wf(r),
    ensures
        dec_record(enc_record(r) + rest) == Option::Some((r, rest)),
{
    let t = enc_record(r) + rest;
    match r.meta {
        Option::None => {
            assert(t[0] == 0u8);
            assert(t.skip(1) =~= enc_bytes(r.text) + rest);
            lemma_dec_enc_bytes(r.text, rest);
        },
        Option::Some(m) => {
            assert(t[0] == 1u8);
            assert(t.skip(1) =~= enc_bytes(r.text) + (enc_meta(m) + rest));
            lemma_dec_enc_bytes(r.text, enc_meta(m) + rest);
            lemma_dec_enc_meta(m, rest);
        },
    }
}

/// Codec fidelity: parsing the encoding of any well-formed record gives
/// back exactly that record.
pub proof fn lemma_record_round_trip(r: RecordV)
    requires
        record_wf(r),
    ensures
        dec_record_exact(enc_record(r)) == Option::Some(r),
{
    assert(enc_record(r) =~= enc_record(r) + Seq::<u8>::empty());
    lemma_dec_enc_record(r, Seq::empty());
}

/// Frame fidelity: reading one frame from the encoding of a well-formed
/// record followed by anything else yields that record and the rest.
pub proof fn lemma_frame_round_trip(r: RecordV, rest: Seq<u8>)
    requires
        record_wf(r),
    ensures
        dec_frame(enc_frame(r) + rest) == (FrameResV::Rec { r, rest }),
{
    let body = enc_record(r);
    let flen = body.len() as u64;
    let t = enc_frame(r) + rest;
    assert(t =~= enc_u64(flen) + (body + rest));
    lemma_dec_enc_u64(flen, body + rest);
    assert(flen as int == body.len());
    assert((body + rest).take(flen as int) =~= body);
    assert((body + rest).skip(flen as int) =~= rest);
    lemma_record_round_trip(r);
    assert(t.len() != 0);
}

// ------------------------------------------------------------------
// Executable encoder
// ------------------------------------------------------------------

#[verifier::rlimit(50)]
proof fn lemma_enc_signals_push(ss: Seq<SignalV>, s: SignalV)
    ensures
        enc_signals(ss.push(s)) == enc_signals(ss) + enc_signal(s),
    decreases ss.len(),
{
    reveal_with_fuel(enc_signals, 2);
    if ss.len() == 0 {
        assert(ss.push(s)[0] == s);
        assert(ss.push(s).skip(1) =~= Seq::<SignalV>::empty());
        lemma_add_empty(enc_signal(s));
    } else {
        assert(ss.push(s)[0] == ss[0]);
        assert(ss.push(s).skip(1) =~= ss.skip(1).push(s));
        lemma_enc_signals_push(ss.skip(1), s);
        lemma_add_assoc(enc_signal(ss[0]), enc_signals(ss.skip(1)), enc_signal(s));
    }
}

/// Append the 8-byte little-endian encoding of `v`.
fn push_u64(out: &mut Vec<u8>, v: u64)
    ensures
        final(out)@ == old(out)@ + enc_u64(v),
{
    proof {
        reveal(u64_byte);
    }
    assert(v & 0xff < 256 && (v >> 8) & 0xff < 256 && (v >> 16) & 0xff < 256 && (v >> 24) & 0xff
        < 256 && (v >> 32) & 0xff < 256 && (v >> 40) & 0xff < 256 && (v >> 48) & 0xff < 256 && (v
        >> 56) & 0xff < 256) by (bit_vector);
    out.push((v & 0xff) as u8);
    out.push(((v >> 8) & 0xff) as u8);
    out.push(((v >> 16) & 0xff) as u8);
    out.push(((v >> 24) & 0xff) as u8);
    out.push(((v >> 32) & 0xff) as u8);
    out.push(((v >> 40) & 0xff) as u8);
    out.push(((v >> 48) & 0xff) as u8);
    out.push(((v >> 56) & 0xff) as u8);
    assert(out@ =~= old(out)@ + enc_u64(v));
}

/// Append the bytes of `b` unchanged.
pub(crate) fn append_bytes(out: &mut Vec<u8>, b: &Vec<u8>)
    ensures
        final(out)@ == old(out)@ + b@,
{
    let n = b.len();
    let mut i: usize = 0;
    while i < n
        invariant
            i <= n,
            n == b@.len(),
            out@ == old(out)@ + b@.take(i as int),
        decreases n - i,
    {
        out.push(b[i]);
        assert(out@ =~= old(out)@ + b@.take(i + 1));
        i = i + 1;
    }
    assert(out@ =~= old(out)@ + b@);
}

/// Append `b` as a length-prefixed byte string.
fn push_bytes(out: &mut Vec<u8>, b: &Vec<u8>)
    ensures
        final(out)@ == old(out)@ + enc_bytes(b@),
        b@.len() <= u64::MAX,
{
    let n64 = b.len() as u64;
    push_u64(out, n64);
    append_bytes(out, b);
    assert(out@ =~= old(out)@ + enc_bytes(b@));
}

/// Serialize one record body.
pub fn encode_record(r: &Record) -> (out: Vec<u8>)
    ensures
        out@ == enc_record(r@),
        record_wf(r@),
{
    let mut out: Vec<u8> = Vec::new();
    match &r.meta {
        Option::None => {
            out.push(0u8);
            assert(out@ =~= seq![0u8]);
            push_bytes(&mut out, &r.text);
        },
        Option::Some(m) => {
            out.push(1u8);
            assert(out@ =~= seq![1u8]);
            push_bytes(&mut out, &r.text);
            push_bytes(&mut out, &m.language);
            push_bytes(&mut out, &m.collection);
            let nsig = m.signals.len();
            push_u64(&mut out, nsig as u64);
            let ghost sv = m.signals@.map_values(|s: Signal| s@);
            let ghost base = out@;
            let mut i: usize = 0;
            while i < nsig
                invariant
                    i <= nsig,
                    nsig == m.signals@.len(),
                    sv == m.signals@.map_values(|s: Signal| s@),
                    out@ == base + enc_signals(sv.take(i as int)),
                    forall|k: int| 0 <= k < i ==> signal_wf(#[trigger] sv[k]),
                decreases nsig - i,
            {
                let sig = &m.signals[i];
                push_bytes(&mut out, &sig.name);
                push_u64(&mut out, sig.value);
                proof {
                    assert(sv[i as int] == m.signals@[i as int]@);
                    assert(sv.take(i + 1) =~= sv.take(i as int).push(sv[i as int]));
                    lemma_enc_signals_push(sv.take(i as int), sv[i as int]);
                    assert(out@ =~= base + enc_signals(sv.take(i + 1)));
                }
                i = i + 1;
            }
            assert(sv.take(nsig as int) =~= sv);
            assert(out@ =~= enc_record(r@));
        },
    }
    proof {
        let l = out.len() as u64;
        assert(enc_record(r@).len() <= u64::MAX);
    }
    out
}

/// Serialize one record as a full frame: body length, then body.
pub fn encode_frame(r: &Record) -> (out: Vec<u8>)
    ensures
        out@ == enc_frame(r@),
        record_wf(r@),
{
    let body = encode_record(r);
    let mut out: Vec<u8> = Vec::new();
    push_u64(&mut out, body.len() as u64);
    append_bytes(&mut out, &body);
    assert(out@ =~= enc_frame(r@));
    out
}

// ------------------------------------------------------------------
// Executable decoder
// ------------------------------------------------------------------

/// The byte range of `s` still to be parsed.
pub open spec fn span(s: Seq<u8>, pos: int, end: int) -> Seq<u8> {
    s.subrange(pos, end)
}

fn read_u64(s: &Vec<u8>, pos: usize, end: usize) -> (res: Option<(u64, usize)>)
    requires
        pos <= end <= s@.len(),
    ensures
        match res {
            Option::Some(p) => dec_u64(span(s@, pos as int, end as int)) == Option::Some(
                (p.0, span(s@, p.1 as int, end as int)),
            ) && pos < p.1 <= end,
            Option::None => dec_u64(span(s@, pos as int, end as int)) is None,
        },
{
    let t = Ghost(span(s@, pos as int, end as int));
    if end - pos < 8 {
        return Option::None;
    }
    let v = (s[pos] as u64) | ((s[pos + 1] as u64) << 8) | ((s[pos + 2] as u64) << 16) | ((s[pos
        + 3] as u64) << 24) | ((s[pos + 4] as u64) << 32) | ((s[pos + 5] as u64) << 40) | ((s[pos
        + 6] as u64) << 48) | ((s[pos + 7] as u64) << 56);
    proof {
        reveal(dec_u64_val);
    }
    assert(v == dec_u64_val(t@));
    assert(t@.skip(8) =~= span(s@, pos + 8, end as int));
    Option::Some((v, pos + 8))
}

fn read_bytes(s: &Vec<u8>, pos: usize, end: usize) -> (res: Option<(Vec<u8>, usize)>)
    requires
        pos <= end <= s@.len(),
    ensures
        match res {
            Option::Some(p) => dec_bytes(span(s@, pos as int, end as int)) == Option::Some(
                (p.0@, span(s@, p.1 as int, end as int)),
            ) && pos < p.1 <= end,
            Option::None => dec_bytes(span(s@, pos as int, end as int)) is None,
        },
{
    let n = match read_u64(s, pos, end) {
        Option::None => {
            return Option::None;
        },
        Option::Some(p) => p,
    };
    let (len64, p1) = n;
    let ghost t1 = span(s@, p1 as int, end as int);
    if len64 > (end - p1) as u64 {
        assert(t1.len() < len64);
        return Option::None;
    }
    let m = len64 as usize;
    let p2 = p1 + m;
    let mut b: Vec<u8> = Vec::new();
    let mut i: usize = 0;
    while i < m
        invariant
            i <= m,
            p1 + m <= end <= s@.len(),
            b@ == s@.subrange(p1 as int, p1 + i),
        decreases m - i,
    {
        b.push(s[p1 + i]);
        assert(b@ =~= s@.subrange(p1 as int, p1 + i + 1));
        i = i + 1;
    }
    assert(t1.take(len64 as int) =~= b@);
    assert(t1.skip(len64 as int) =~= span(s@, p2 as int, end as int));
    Option::Some((b, p2))
}

fn read_signal(s: &Vec<u8>, pos: usize, end: usize) -> (res: Option<(Signal, usize)>)
    requires
        pos <= end <= s@.len(),
    ensures
        match res {
            Option::Some(p) => dec_signal(span(s@, pos as int, end as int)) == Option::Some(
                (p.0@, span(s@, p.1 as int, end as int)),
            ) && pos < p.1 <= end,
            Option::None => dec_signal(span(s@, pos as int, end as int)) is None,
        },
{
    let (name, p1) = match read_bytes(s, pos, end) {
        Option::None => {
            return Option::None;
        },
        Option::Some(p) => p,
    };
    let (value, p2) = match read_u64(s, p1, end) {
        Option::None => {
            return Option::None;
        },
        Option::Some(p) => p,
    };
    Option::Some((Signal { name, value }, p2))
}

#[verifier::rlimit(50)]
#[verifier::loop_isolation(false)]
fn read_meta(s: &Vec<u8>, pos: usize, end: usize) -> (res: Option<(Metadata, usize)>)
    requires
        pos <= end <= s@.len(),
    ensures
        match res {
            Option::Some(p) => dec_meta(span(s@, pos as int, end as int)) == Option::Some(
                (p.0@, span(s@, p.1 as int, end as int)),
            ) && pos < p.1 <= end,
            Option::None => dec_meta(span(s@, pos as int, end as int)) is None,
        },
{
    let (language, p2) = match read_bytes(s, pos, end) {
        Option::None => {
            return Option::None;
        },
        Option::Some(p) => p,
    };
    let (collection, p3) = match read_bytes(s, p2, end) {
        Option::None => {
            return Option::None;
        },
        Option::Some(p) => p,
    };
    let (count, p4) = match read_u64(s, p3, end) {
        Option::None => {
            return Option::None;
        },
        Option::Some(p) => p,
    };
    let ghost t3 = span(s@, p4 as int, end as int);
    let mut signals: Vec<Signal> = Vec::new();
    assert(signals@.map_values(|x: Signal| x@) =~= Seq::<SignalV>::empty());
    let mut p: usize = p4;
    let mut j: u64 = 0;
    while j < count
        invariant
            j <= count,
            pos < p <= end <= s@.len(),
            dec_signals(t3, count as nat, Seq::empty()) == dec_signals(
                span(s@, p as int, end as int),
                (count - j) as nat,
                signals@.map_values(|x: Signal| x@),
            ),
        decreases count - j,
    {
        let (sig, pn) = match read_signal(s, p, end) {
            Option::None => {
                proof {
                    assert(dec_signals(
                        span(s@, p as int, end as int),
                        (count - j) as nat,
                        signals@.map_values(|x: Signal| x@),
                    ) is None);
                    assert(dec_signals(t3, count as nat, Seq::empty()) is None);
                    assert(dec_meta(span(s@, pos as int, end as int)) is None);
                }
                return Option::None;
            },
            Option::Some(q) => q,
        };
        proof {
            assert(signals@.push(sig).map_values(|x: Signal| x@) =~= signals@.map_values(
                |x: Signal| x@,
            ).push(sig@));
        }
        signals.push(sig);
        p = pn;
        j = j + 1;
    }
    let ghost sv = signals@.map_values(|x: Signal| x@);
    assert(dec_signals(t3, count as nat, Seq::empty()) == Option::Some(
        (sv, span(s@, p as int, end as int)),
    ));
    Option::Some((Metadata { language, collection, signals }, p))
}

/// Parse one record body from `s[pos..end]`; `Some` also yields the
/// position just past the bytes the record used.
#[verifier::rlimit(50)]
pub fn read_record(s: &Vec<u8>, pos: usize, end: usize) -> (res: Option<(Record, usize)>)
    requires
        pos <= end <= s@.len(),
    ensures
        match res {
            Option::Some(p) => dec_record(span(s@, pos as int, end as int)) == Option::Some(
                (p.0@, span(s@, p.1 as int, end as int)),
            ) && pos < p.1 <= end,
            Option::None => dec_record(span(s@, pos as int, end as int)) is None,
        },
{
    let ghost t = span(s@, pos as int, end as int);
    if pos == end {
        return Option::None;
    }
    let tag = s[pos];
    let ghost t0 = span(s@, pos + 1, end as int);
    assert(t[0] == tag && t.skip(1) =~= t0);
    if tag == 0 {
        let (text, p1) = match read_bytes(s, pos + 1, end) {
            Option::None => {
                return Option::None;
            },
            Option::Some(p) => p,
        };
        Option::Some((Record { text, meta: Option::None }, p1))
    } else if tag == 1 {
        let (text, p1) = match read_bytes(s, pos + 1, end) {
            Option::None => {
                return Option::None;
            },
            Option::Some(p) => p,
        };
        let (meta, p2) = match read_meta(s, p1, end) {
            Option::None => {
                return Option::None;
            },
            Option::Some(p) => p,
        };
        Option::Some((Record { text, meta: Option::Some(meta) }, p2))
    } else {
        Option::None
    }
}

/// Parse a record body that must occupy `bytes` exactly: the inverse of
/// [`encode_record`].
pub fn decode_record(bytes: &Vec<u8>) -> (res: Option<Record>)
    ensures
        match res {
            Option::Some(r) => dec_record_exact(bytes@) == Option::Some(r@),
            Option::None => dec_record_exact(bytes@) is None,
        },
{
    assert(span(bytes@, 0, bytes@.len() as int) =~= bytes@);
    match read_record(bytes, 0, bytes.len()) {
        Option::None => Option::None,
        Option::Some(p) => {
            let (r, p2) = p;
            if p2 == bytes.len() {
                assert(span(bytes@, p2 as int, bytes@.len() as int).len() == 0);
                Option::Some(r)
            } else {
                assert(span(bytes@, p2 as int, bytes@.len() as int).len() != 0);
                Option::None
            }
        },
    }
}

/// The result of one step of the executable stream reader.
#[derive(Debug)]
pub enum FrameStep {
    /// A record, and the position of the next frame.
    Rec(Record, usize),
    /// A complete frame with no well-formed record in it; the position is
    /// the next frame boundary.
    Malformed(usize),
    /// The stream ends inside a frame.
    Truncated,
    /// The stream ends exactly at `pos`.
    End,
}

/// Read one frame of the stream starting at `pos`.
pub fn decode_step(s: &Vec<u8>, pos: usize) -> (st: FrameStep)
    requires
        pos <= s@.len(),
    ensures
        match st {
            FrameStep::End => dec_frame(s@.skip(pos as int)) == FrameResV::End,
            FrameStep::Rec(r, p2) => dec_frame(s@.skip(pos as int)) == (FrameResV::Rec {
                r: r@,
                rest: s@.skip(p2 as int),
            }) && pos + 8 <= p2 <= s@.len(),
            FrameStep::Malformed(p2) => dec_frame(s@.skip(pos as int)) == (FrameResV::Malformed {
                rest: s@.skip(p2 as int),
            }) && pos + 8 <= p2 <= s@.len(),
            FrameStep::Truncated => dec_frame(s@.skip(pos as int)) == FrameResV::Truncated,
        },
{
    let len = s.len();
    let ghost t = s@.skip(pos as int);
    assert(t =~= span(s@, pos as int, len as int));
    if pos == len {
        return FrameStep::End;
    }
    let (flen, p1) = match read_u64(s, pos, len) {
        Option::None => {
            return FrameStep::Truncated;
        },
        Option::Some(p) => p,
    };
    let ghost t1 = span(s@, p1 as int, len as int);
    if flen > (len - p1) as u64 {
        assert(t1.len() < flen);
        return FrameStep::Truncated;
    }
    let bend = p1 + flen as usize;
    let ghost body = t1.take(flen as int);
    let ghost rest = t1.skip(flen as int);
    proof {
        assert(body =~= span(s@, p1 as int, bend as int));
        assert(rest =~= s@.skip(bend as int));
    }
    match read_record(s, p1, bend) {
        Option::None => FrameStep::Malformed(bend),
        Option::Some(p) => {
            let (rec, p2) = p;
            if p2 == bend {
                assert(span(s@, p2 as int, bend as int).len() == 0);
                FrameStep::Rec(rec, bend)
            } else {
                assert(span(s@, p2 as int, bend as int).len() != 0);
                FrameStep::Malformed(bend)
            }
        },
    }
}

} // verus!
