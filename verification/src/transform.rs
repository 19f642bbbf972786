//! The per-record transforms, one per command.
//!
//! Every command of the tool set is one [`Transform`] applied to every
//! record of the stream: the language-code fixer, the clean filter, the
//! metadata stripper, or the identity (for split and recompress runs).
//! A transform maps one record to a [`TransformOutcome`].

use vstd::prelude::*;

use crate::record::{bytes_eq, copy_bytes, Metadata, MetaV, Record, RecordV};

verus! {

// ------------------------------------------------------------------
// Outcomes
// ------------------------------------------------------------------

/// What a transform did with one record.
#[derive(Debug)]
pub enum TransformOutcome {
    /// The record passes through unchanged.
    Keep(Record),
    /// The record passes through, rewritten.
    KeepModified(Record),
    /// The record is filtered out.
    Drop,
    /// The record cannot be handled; the payload is the language code the
    /// fixer could not map.
    Fail(Vec<u8>),
}

/// Mathematical model of a [`TransformOutcome`].
pub enum OutcomeV {
    Keep(RecordV),
    KeepModified(RecordV),
    Drop,
    Fail(Seq<u8>),
}

impl View for TransformOutcome {
    type V = OutcomeV;

    open spec fn view(&self) -> OutcomeV {
        match self {
            TransformOutcome::Keep(r) => OutcomeV::Keep(r@),
            TransformOutcome::KeepModified(r) => OutcomeV::KeepModified(r@),
            TransformOutcome::Drop => OutcomeV::Drop,
            TransformOutcome::Fail(c) => OutcomeV::Fail(c@),
        }
    }
}

// ------------------------------------------------------------------
// Configuration
// ------------------------------------------------------------------

/// One row of the legacy-code mapping table.
#[derive(Clone, Debug, PartialEq, Eq)]
pub struct LangEntry {
    /// The legacy code as it appears in the corpus.
    pub from: Vec<u8>,
    /// The normalized tag it is rewritten to.
    pub to: Vec<u8>,
}

/// An inclusive bound a quality signal must stay within.
#[derive(Clone, Debug, PartialEq, Eq)]
pub struct SignalBound {
    pub name: Vec<u8>,
    pub min: u64,
    pub max: u64,
}

/// The thresholds of the clean filter.
#[derive(Clone, Debug, PartialEq, Eq)]
pub struct CleanPolicy {
    /// Records whose text body is shorter than this are dropped.
    pub min_text_len: u64,
    /// Every signal carrying one of these names must stay in range.
    pub bounds: Vec<SignalBound>,
}

/// Models of the configuration types.
pub struct EntryV {
    pub from: Seq<u8>,
    pub to: Seq<u8>,
}

pub struct BoundV {
    pub name: Seq<u8>,
    pub min: u64,
    pub max: u64,
}

pub struct PolicyV {
    pub min_text_len: u64,
    pub bounds: Seq<BoundV>,
}

impl View for LangEntry {
    type V = EntryV;

    open spec fn view(&self) -> EntryV {
        EntryV { from: self.from@, to: self.to@ }
    }
}

impl View for SignalBound {
    type V = BoundV;

    open spec fn view(&self) -> BoundV {
        BoundV { name: self.name@, min: self.min, max: self.max }
    }
}

impl View for CleanPolicy {
    type V = PolicyV;

    open spec fn view(&self) -> PolicyV {
        PolicyV {
            min_text_len: self.min_text_len,
            bounds: self.bounds@.map_values(|b: SignalBound| b@),
        }
    }
}

/// The transform a command runs over every record.
#[derive(Debug)]
pub enum Transform {
    /// Pass everything through: split-only and recompress-only runs.
    Identity,
    /// Rewrite the declared legacy language code by table lookup; an
    /// unmapped code is a data-integrity failure, never passed through.
    LanguageCodeFixer { entries: Vec<LangEntry> },
    /// Keep only records that meet the configured quality thresholds.
    CleanFilter(CleanPolicy),
    /// Strip the metadata block, keeping the text verbatim: the export to
    /// the legacy schema.
    MetadataStripper,
}

/// Mathematical model of a [`Transform`].
pub enum TransformV {
    Identity,
    LanguageCodeFixer { entries: Seq<EntryV> },
    CleanFilter(PolicyV),
    MetadataStripper,
}

impl View for Transform {
    type V = TransformV;

    open spec fn view(&self) -> TransformV {
        match self {
            Transform::Identity => TransformV::Identity,
            Transform::LanguageCodeFixer { entries } => TransformV::LanguageCodeFixer {
                entries: entries@.map_values(|e: LangEntry| e@),
            },
            Transform::CleanFilter(p) => TransformV::CleanFilter(p@),
            Transform::MetadataStripper => TransformV::MetadataStripper,
        }
    }
}

// ------------------------------------------------------------------
// Semantics
// ------------------------------------------------------------------

/// The first mapping for `code` in the table, scanning top to bottom.
pub open spec fn spec_lookup(entries: Seq<EntryV>, code: Seq<u8>) -> Option<Seq<u8>>
    decreases entries.len(),
{
    if entries.len() == 0 {
        Option::None
    } else if entries[0].from == code {
        Option::Some(entries[0].to)
    } else {
        spec_lookup(entries.skip(1), code)
    }
}

/// `r` with its metadata removed and its text kept verbatim.
pub open spec fn strip_rec(r: RecordV) -> RecordV {
    RecordV { text: r.text, meta: Option::None }
}

/// Every signal named by `b` stays within `b`'s range.
pub open spec fn spec_bound_ok(b: BoundV, sigs: Seq<crate::record::SignalV>) -> bool {
    forall|j: int|
        0 <= j < sigs.len() && (#[trigger] sigs[j]).name == b.name ==> b.min <= sigs[j].value
            <= b.max
}

pub open spec fn spec_bounds_ok(bs: Seq<BoundV>, sigs: Seq<crate::record::SignalV>) -> bool {
    forall|i: int| 0 <= i < bs.len() ==> spec_bound_ok(#[trigger] bs[i], sigs)
}

/// Whether the clean filter keeps `r`: the text is long enough, and every
/// configured bound holds of every signal it names. A record without
/// metadata has no signals to test.
pub open spec fn spec_clean_pass(p: PolicyV, r: RecordV) -> bool {
    &&& r.text.len() >= p.min_text_len
    &&& match r.meta {
        Option::None => true,
        Option::Some(m) => spec_bounds_ok(p.bounds, m.signals),
    }
}

/// What each transform does with one record.
///
/// - Identity keeps the record unchanged.
/// - The stripper always rewrites to the metadata-free record.
/// - The clean filter keeps or drops, never rewrites.
/// - The fixer rewrites the language code on a table hit, fails on a
///   miss, and keeps a record that has no metadata block (there is no
///   code to correct).
pub open spec fn spec_apply(t: TransformV, r: RecordV) -> OutcomeV {
    match t {
        TransformV::Identity => OutcomeV::Keep(r),
        TransformV::MetadataStripper => OutcomeV::KeepModified(strip_rec(r)),
        TransformV::CleanFilter(p) => if spec_clean_pass(p, r) {
            OutcomeV::Keep(r)
        } else {
            OutcomeV::Drop
        },
        TransformV::LanguageCodeFixer { entries } => match r.meta {
            Option::None => OutcomeV::Keep(r),
            Option::Some(m) => match spec_lookup(entries, m.language) {
                Option::Some(tag) => OutcomeV::KeepModified(
                    RecordV {
                        text: r.text,
                        meta: Option::Some(
                            MetaV { language: tag, collection: m.collection, signals: m.signals },
                        ),
                    },
                ),
                Option::None => OutcomeV::Fail(m.language),
            },
        },
    }
}

// ------------------------------------------------------------------
// Executable transforms
// ------------------------------------------------------------------

fn lookup_code(entries: &Vec<LangEntry>, code: &Vec<u8>) -> (res: Option<Vec<u8>>)
    ensures
        match res {
            Option::Some(t) => spec_lookup(entries@.map_values(|e: LangEntry| e@), code@)
                == Option::Some(t@),
            Option::None => spec_lookup(entries@.map_values(|e: LangEntry| e@), code@) is None,
        },
{
    let ghost ev = entries@.map_values(|e: LangEntry| e@);
    assert(ev.skip(0) =~= ev);
    let n = entries.len();
    let mut i: usize = 0;
    while i < n
        invariant
            i <= n,
            n == entries@.len(),
            ev == entries@.map_values(|e: LangEntry| e@),
            spec_lookup(ev, code@) == spec_lookup(ev.skip(i as int), code@),
        decreases n - i,
    {
        proof {
            assert(ev.skip(i as int)[0] == ev[i as int]);
            assert(ev.skip(i as int).skip(1) =~= ev.skip(i + 1));
        }
        if bytes_eq(&entries[i].from, code) {
            return Option::Some(copy_bytes(&entries[i].to));
        }
        i = i + 1;
    }
    assert(ev.skip(n as int) =~= Seq::<EntryV>::empty());
    Option::None
}

fn bound_ok(b: &SignalBound, sigs: &Vec<crate::record::Signal>) -> (r: bool)
    ensures
        r == spec_bound_ok(b@, sigs@.map_values(|s: crate::record::Signal| s@)),
{
    let ghost sv = sigs@.map_values(|s: crate::record::Signal| s@);
    let n = sigs.len();
    let mut j: usize = 0;
    while j < n
        invariant
            j <= n,
            n == sigs@.len(),
            sv == sigs@.map_values(|s: crate::record::Signal| s@),
            forall|k: int|
                0 <= k < j && (#[trigger] sv[k]).name == b@.name ==> b@.min <= sv[k].value
                    <= b@.max,
        decreases n - j,
    {
        if bytes_eq(&sigs[j].name, &b.name) {
            let v = sigs[j].value;
            if v < b.min || v > b.max {
                assert(sv[j as int].name == b@.name && !(b@.min <= sv[j as int].value <= b@.max));
                return false;
            }
        }
        j = j + 1;
    }
    true
}

/// Whether the clean filter keeps `r`.
#[verifier::loop_isolation(false)]
pub fn clean_pass(p: &CleanPolicy, r: &Record) -> (res: bool)
    ensures
        res == spec_clean_pass(p@, r@),
{
    if (r.text.len() as u64) < p.min_text_len {
        return false;
    }
    match &r.meta {
        Option::None => true,
        Option::Some(m) => {
            let ghost bv = p.bounds@.map_values(|b: SignalBound| b@);
            let ghost sv = m.signals@.map_values(|s: crate::record::Signal| s@);
            let n = p.bounds.len();
            let mut i: usize = 0;
            while i < n
                invariant
                    i <= n,
                    n == p.bounds@.len(),
                    bv == p.bounds@.map_values(|b: SignalBound| b@),
                    sv == m.signals@.map_values(|s: crate::record::Signal| s@),
                    forall|k: int| 0 <= k < i ==> spec_bound_ok(#[trigger] bv[k], sv),
                decreases n - i,
            {
                if !bound_ok(&p.bounds[i], &m.signals) {
                    assert(!spec_bound_ok(bv[i as int], sv));
                    return false;
                }
                i = i + 1;
            }
            true
        },
    }
}

impl Transform {
    /// Run this transform on one record.
    pub fn apply(&self, r: Record) -> (out: TransformOutcome)
        ensures
            out@ == spec_apply(self@, r@),
    {
        match self {
            Transform::Identity => TransformOutcome::Keep(r),
            Transform::MetadataStripper => {
                let Record { text, meta: _ } = r;
                TransformOutcome::KeepModified(Record { text, meta: Option::None })
            },
            Transform::CleanFilter(p) => {
                if clean_pass(p, &r) {
                    TransformOutcome::Keep(r)
                } else {
                    TransformOutcome::Drop
                }
            },
            Transform::LanguageCodeFixer { entries } => {
                let Record { text, meta } = r;
                match meta {
                    Option::None => TransformOutcome::Keep(Record { text, meta: Option::None }),
                    Option::Some(m) => {
                        let Metadata { language, collection, signals } = m;
                        match lookup_code(entries, &language) {
                            Option::Some(tag) => TransformOutcome::KeepModified(
                                Record {
                                    text,
                                    meta: Option::Some(
                                        Metadata { language: tag, collection, signals },
                                    ),
                                },
                            ),
                            Option::None => TransformOutcome::Fail(language),
                        }
                    },
                }
            },
        }
    }
}

// ------------------------------------------------------------------
// Laws
// ------------------------------------------------------------------

/// Stripping an already-stripped record is a no-op: the stripper is
/// idempotent.
pub proof fn lemma_stripper_idempotent(r: RecordV)
    ensures
        strip_rec(strip_rec(r)) == strip_rec(r),
        spec_apply(TransformV::MetadataStripper, strip_rec(r)) == OutcomeV::KeepModified(
            strip_rec(r),
        ),
{
}

} // verus!
