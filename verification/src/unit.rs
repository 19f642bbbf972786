//! One unit of work, end to end: decode the framed record stream, run
//! the configured transform over every record, and route the survivors
//! into bounded shards.
//!
//! The whole unit is a pure function of the input bytes and the
//! configuration ([`spec_unit`] plus [`spec_shards`]); the executable
//! runner is proved to return exactly that function's value, which makes
//! repeated runs byte-identical. A truncated stream or, under the strict
//! policies, a malformed or unmappable record fails the unit, but the
//! records routed before the failure are preserved in the report.

use vstd::prelude::*;

use crate::codec::{
    dec_frame, decode_step, enc_frame, lemma_dec_frame_shrinks, lemma_frame_round_trip, record_wf,
    FrameResV, FrameStep,
};
use crate::error::{Error, ErrorV};
use crate::record::RecordV;
use crate::shard::{
    frames_of, lemma_no_loss, policy_wf, shards_bytes, spec_shards, total_records,
    validate_policy, Shard, ShardPolicy, ShardWriter,
};
use crate::transform::{spec_apply, OutcomeV, Transform, TransformOutcome, TransformV};

verus! {

/// What to do when one record frame fails to parse.
#[derive(Clone, Copy, Debug, PartialEq, Eq, Structural)]
pub enum MalformedPolicy {
    /// Fail the unit at the first malformed record.
    Abort,
    /// Drop the record, keep a diagnostic, continue at the next frame.
    SkipAndLog,
}

/// What to do when the transform rejects a record.
#[derive(Clone, Copy, Debug, PartialEq, Eq, Structural)]
pub enum FailMode {
    /// Fail the unit: the default for the correctness-sensitive fixer.
    Strict,
    /// Drop the record, keep a diagnostic, continue.
    Lenient,
}

/// Everything one unit of work needs to know.
#[derive(Debug)]
pub struct UnitConfig {
    pub transform: Transform,
    pub shard: ShardPolicy,
    pub on_malformed: MalformedPolicy,
    pub on_unmapped: FailMode,
}

/// Mathematical model of a [`UnitConfig`].
pub struct UnitConfigV {
    pub transform: TransformV,
    pub shard: ShardPolicy,
    pub on_malformed: MalformedPolicy,
    pub on_unmapped: FailMode,
}

impl View for UnitConfig {
    type V = UnitConfigV;

    open spec fn view(&self) -> UnitConfigV {
        UnitConfigV {
            transform: self.transform@,
            shard: self.shard,
            on_malformed: self.on_malformed,
            on_unmapped: self.on_unmapped,
        }
    }
}

/// How one unit of work ended.
#[derive(Clone, Debug, PartialEq, Eq)]
pub enum UnitStatus {
    Completed,
    Failed(Error),
}

/// Mathematical model of a [`UnitStatus`].
pub enum StatusV {
    Completed,
    Failed(ErrorV),
}

impl View for UnitStatus {
    type V = StatusV;

    open spec fn view(&self) -> StatusV {
        match self {
            UnitStatus::Completed => StatusV::Completed,
            UnitStatus::Failed(e) => StatusV::Failed(e@),
        }
    }
}

/// One policy-tolerated skip, attributed to its record index.
#[derive(Clone, Debug, PartialEq, Eq)]
pub struct Diagnostic {
    pub index: u64,
    pub error: Error,
}

/// Mathematical model of a [`Diagnostic`].
pub struct DiagV {
    pub index: u64,
    pub error: ErrorV,
}

impl View for Diagnostic {
    type V = DiagV;

    open spec fn view(&self) -> DiagV {
        DiagV { index: self.index, error: self.error@ }
    }
}

/// The model of a processed unit: the records that survived the
/// transform in order, how the unit ended, and the tolerated skips.
pub struct UnitV {
    pub routed: Seq<RecordV>,
    pub status: StatusV,
    pub diags: Seq<DiagV>,
}

/// The meaning of one unit of work: read frames from the front of `t`
/// (the frame at the front has record index `idx`), transform each
/// record, and collect the survivors in order. Truncation always fails
/// the unit; malformed frames and rejected records fail it or are
/// skipped with a diagnostic, as the configured policies say. Records
/// routed before a failure are kept.
pub open spec fn spec_unit(t: Seq<u8>, cfg: UnitConfigV, idx: u64) -> UnitV
    decreases t.len(),
    via spec_unit_dec
{
    match dec_frame(t) {
        FrameResV::End => UnitV {
            routed: Seq::empty(),
            status: StatusV::Completed,
            diags: Seq::empty(),
        },
        FrameResV::Truncated => UnitV {
            routed: Seq::empty(),
            status: StatusV::Failed(ErrorV::Truncated { index: idx }),
            diags: Seq::empty(),
        },
        FrameResV::Malformed { rest } => match cfg.on_malformed {
            MalformedPolicy::Abort => UnitV {
                routed: Seq::empty(),
                status: StatusV::Failed(ErrorV::Malformed { index: idx }),
                diags: Seq::empty(),
            },
            MalformedPolicy::SkipAndLog => {
                let sub = spec_unit(rest, cfg, (idx + 1) as u64);
                UnitV {
                    routed: sub.routed,
                    status: sub.status,
                    diags: seq![DiagV { index: idx, error: ErrorV::Malformed { index: idx } }]
                        + sub.diags,
                }
            },
        },
        FrameResV::Rec { r, rest } => match crate::transform::spec_apply(cfg.transform, r) {
            OutcomeV::Keep(k) => {
                let sub = spec_unit(rest, cfg, (idx + 1) as u64);
                UnitV { routed: seq![k] + sub.routed, status: sub.status, diags: sub.diags }
            },
            OutcomeV::KeepModified(k) => {
                let sub = spec_unit(rest, cfg, (idx + 1) as u64);
                UnitV { routed: seq![k] + sub.routed, status: sub.status, diags: sub.diags }
            },
            OutcomeV::Drop => spec_unit(rest, cfg, (idx + 1) as u64),
            OutcomeV::Fail(code) => match cfg.on_unmapped {
                FailMode::Strict => UnitV {
                    routed: Seq::empty(),
                    status: StatusV::Failed(ErrorV::UnmappedCode { index: idx, code }),
                    diags: Seq::empty(),
                },
                FailMode::Lenient => {
                    let sub = spec_unit(rest, cfg, (idx + 1) as u64);
                    UnitV {
                        routed: sub.routed,
                        status: sub.status,
                        diags: seq![
                            DiagV { index: idx, error: ErrorV::UnmappedCode { index: idx, code } },
                        ] + sub.diags,
                    }
                },
            },
        },
    }
}

#[via_fn]
proof fn spec_unit_dec(t: Seq<u8>, cfg: UnitConfigV, idx: u64) {
    lemma_dec_frame_shrinks(t);
}

/// Everything one unit of work hands back: its shards, how it ended, and
/// the tolerated skips.
#[derive(Debug)]
pub struct UnitReport {
    pub shards: Vec<Shard>,
    pub status: UnitStatus,
    pub diags: Vec<Diagnostic>,
}

/// Run one unit of work over an in-memory stream. The report is exactly
/// the value of [`spec_unit`] and [`spec_shards`] on the input bytes and
/// the configuration: determinism is part of the contract.
pub fn process_unit(input: &Vec<u8>, cfg: &UnitConfig) -> (rep: UnitReport)
    requires
        policy_wf(cfg.shard),
    ensures
        ({
            let u = spec_unit(input@, cfg@, 0);
            &&& rep.status@ == u.status
            &&& rep.diags@.map_values(|d: Diagnostic| d@) == u.diags
            &&& rep.shards@.map_values(|s: Shard| s@) == spec_shards(cfg.shard, u.routed)
        }),
{
    let ghost full = spec_unit(input@, cfg@, 0);
    let mut writer = ShardWriter::new(cfg.shard);
    let mut diags: Vec<Diagnostic> = Vec::new();
    let mut pos: usize = 0;
    let mut idx: u64 = 0;
    let mut status = UnitStatus::Completed;
    proof {
        assert(input@.skip(0) =~= input@);
        assert(writer.routed@ + full.routed =~= full.routed);
        assert(diags@.map_values(|d: Diagnostic| d@) =~= Seq::<DiagV>::empty());
        assert(Seq::<DiagV>::empty() + full.diags =~= full.diags);
    }
    loop
        invariant_except_break
            pos <= input@.len(),
            8 * (idx as int) <= pos as int,
            writer.wf(),
            writer.policy == cfg.shard,
            status@ is Completed,
            ({
                let sub = spec_unit(input@.skip(pos as int), cfg@, idx);
                &&& full.routed == writer.routed@ + sub.routed
                &&& full.status == sub.status
                &&& full.diags == diags@.map_values(|d: Diagnostic| d@) + sub.diags
            }),
        ensures
            writer.wf(),
            writer.policy == cfg.shard,
            full.routed == writer.routed@,
            full.status == status@,
            full.diags == diags@.map_values(|d: Diagnostic| d@),
        decreases input@.len() - pos,
    {
        let ghost sub = spec_unit(input@.skip(pos as int), cfg@, idx);
        match decode_step(input, pos) {
            FrameStep::End => {
                proof {
                    assert(writer.routed@ + sub.routed =~= writer.routed@);
                    assert(diags@.map_values(|d: Diagnostic| d@) + sub.diags =~= diags@.map_values(
                        |d: Diagnostic| d@,
                    ));
                }
                break ;
            },
            FrameStep::Truncated => {
                status = UnitStatus::Failed(Error::Truncated { index: idx });
                proof {
                    assert(writer.routed@ + sub.routed =~= writer.routed@);
                    assert(diags@.map_values(|d: Diagnostic| d@) + sub.diags =~= diags@.map_values(
                        |d: Diagnostic| d@,
                    ));
                }
                break ;
            },
            FrameStep::Malformed(p2) => {
                let ghost subn = spec_unit(input@.skip(p2 as int), cfg@, (idx + 1) as u64);
                match cfg.on_malformed {
                    MalformedPolicy::Abort => {
                        status = UnitStatus::Failed(Error::Malformed { index: idx });
                        proof {
                            assert(writer.routed@ + sub.routed =~= writer.routed@);
                            assert(diags@.map_values(|d: Diagnostic| d@) + sub.diags
                                =~= diags@.map_values(|d: Diagnostic| d@));
                        }
                        break ;
                    },
                    MalformedPolicy::SkipAndLog => {
                        let d = Diagnostic { index: idx, error: Error::Malformed { index: idx } };
                        proof {
                            assert(diags@.push(d).map_values(|x: Diagnostic| x@)
                                =~= diags@.map_values(|x: Diagnostic| x@).push(d@));
                            assert(diags@.map_values(|x: Diagnostic| x@).push(d@) + subn.diags
                                =~= diags@.map_values(|x: Diagnostic| x@) + (seq![d@]
                                + subn.diags));
                        }
                        diags.push(d);
                        pos = p2;
                        idx = idx + 1;
                    },
                }
            },
            FrameStep::Rec(rec, p2) => {
                let ghost subn = spec_unit(input@.skip(p2 as int), cfg@, (idx + 1) as u64);
                let out = cfg.transform.apply(rec);
                match out {
                    TransformOutcome::Keep(k) | TransformOutcome::KeepModified(k) => {
                        proof {
                            assert((writer.routed@.push(k@)) + subn.routed =~= writer.routed@ + (
                            seq![k@] + subn.routed));
                        }
                        writer.route(&k);
                        pos = p2;
                        idx = idx + 1;
                    },
                    TransformOutcome::Drop => {
                        pos = p2;
                        idx = idx + 1;
                    },
                    TransformOutcome::Fail(code) => {
                        match cfg.on_unmapped {
                            FailMode::Strict => {
                                status = UnitStatus::Failed(
                                    Error::UnmappedCode { index: idx, code },
                                );
                                proof {
                                    assert(writer.routed@ + sub.routed =~= writer.routed@);
                                    assert(diags@.map_values(|d: Diagnostic| d@) + sub.diags
                                        =~= diags@.map_values(|d: Diagnostic| d@));
                                }
                                break ;
                            },
                            FailMode::Lenient => {
                                let d = Diagnostic {
                                    index: idx,
                                    error: Error::UnmappedCode { index: idx, code },
                                };
                                proof {
                                    assert(diags@.push(d).map_values(|x: Diagnostic| x@)
                                        =~= diags@.map_values(|x: Diagnostic| x@).push(d@));
                                    assert(diags@.map_values(|x: Diagnostic| x@).push(d@)
                                        + subn.diags =~= diags@.map_values(|x: Diagnostic| x@) + (
                                    seq![d@] + subn.diags));
                                }
                                diags.push(d);
                                pos = p2;
                                idx = idx + 1;
                            },
                        }
                    },
                }
            },
        }
    }
    let shards = writer.finalize();
    UnitReport { shards, status, diags }
}

/// Run one unit of work, validating the configuration first: a zero
/// shard limit is a configuration error and no work is done.
pub fn run_unit(input: &Vec<u8>, cfg: &UnitConfig) -> (res: Result<UnitReport, Error>)
    ensures
        match res {
            Result::Ok(rep) => policy_wf(cfg.shard) && ({
                let u = spec_unit(input@, cfg@, 0);
                &&& rep.status@ == u.status
                &&& rep.diags@.map_values(|d: Diagnostic| d@) == u.diags
                &&& rep.shards@.map_values(|s: Shard| s@) == spec_shards(cfg.shard, u.routed)
            }),
            Result::Err(e) => !policy_wf(cfg.shard) && e == Error::Config,
        },
{
    match validate_policy(&cfg.shard) {
        Result::Ok(_) => Result::Ok(process_unit(input, cfg)),
        Result::Err(e) => Result::Err(e),
    }
}

/// The ordered application of `t` to `rs`: the records surviving the
/// Keep and KeepModified outcomes, in input order.
pub open spec fn survivors(t: TransformV, rs: Seq<RecordV>) -> Seq<RecordV>
    decreases rs.len(),
{
    if rs.len() == 0 {
        Seq::empty()
    } else {
        let rest = survivors(t, rs.skip(1));
        match spec_apply(t, rs[0]) {
            OutcomeV::Keep(k) => seq![k] + rest,
            OutcomeV::KeepModified(k) => seq![k] + rest,
            OutcomeV::Drop => rest,
            OutcomeV::Fail(_) => rest,
        }
    }
}

proof fn lemma_frames_of_head(rs: Seq<RecordV>)
    requires
        rs.len() > 0,
    ensures
        frames_of(rs) == enc_frame(rs[0]) + frames_of(rs.skip(1)),
    decreases rs.len(),
{
    let p = rs.drop_last();
    let tail = rs.skip(1);
    if rs.len() == 1 {
        assert(tail =~= Seq::<RecordV>::empty());
        assert(frames_of(p) + enc_frame(rs.last()) =~= enc_frame(rs[0]) + frames_of(tail));
    } else {
        lemma_frames_of_head(p);
        assert(p[0] == rs[0]);
        assert(tail.drop_last() =~= p.skip(1));
        assert(tail.last() == rs.last());
        assert((enc_frame(rs[0]) + frames_of(p.skip(1))) + enc_frame(rs.last()) =~= enc_frame(
            rs[0],
        ) + (frames_of(p.skip(1)) + enc_frame(rs.last())));
    }
}

/// A clean run: over the concatenated frames of well-formed records
/// whose outcomes never fail, the unit completes, skips nothing, and
/// routes exactly the ordered transform survivors.
pub proof fn lemma_pipeline_complete(rs: Seq<RecordV>, cfg: UnitConfigV, idx: u64)
    requires
        forall|i: int| 0 <= i < rs.len() ==> record_wf(#[trigger] rs[i]),
        forall|i: int|
            0 <= i < rs.len() ==> !(spec_apply(cfg.transform, #[trigger] rs[i]) is Fail),
    ensures
        spec_unit(frames_of(rs), cfg, idx) == (UnitV {
            routed: survivors(cfg.transform, rs),
            status: StatusV::Completed,
            diags: Seq::<DiagV>::empty(),
        }),
    decreases rs.len(),
{
    if rs.len() == 0 {
    } else {
        let tail = rs.skip(1);
        lemma_frames_of_head(rs);
        lemma_frame_round_trip(rs[0], frames_of(tail));
        assert forall|i: int| 0 <= i < tail.len() implies record_wf(#[trigger] tail[i]) && !(
        spec_apply(cfg.transform, tail[i]) is Fail) by {
            assert(tail[i] == rs[i + 1]);
        }
        lemma_pipeline_complete(tail, cfg, (idx + 1) as u64);
    }
}

/// No record loss or duplication, end to end: for a clean run, the
/// bytes of all shards, concatenated in order, are exactly the frames
/// of the transform's survivors, and the shard record counts add up to
/// the survivor count.
pub proof fn lemma_no_record_loss(rs: Seq<RecordV>, cfg: UnitConfigV)
    requires
        forall|i: int| 0 <= i < rs.len() ==> record_wf(#[trigger] rs[i]),
        forall|i: int|
            0 <= i < rs.len() ==> !(spec_apply(cfg.transform, #[trigger] rs[i]) is Fail),
    ensures
        ({
            let routed = spec_unit(frames_of(rs), cfg, 0).routed;
            &&& routed == survivors(cfg.transform, rs)
            &&& shards_bytes(spec_shards(cfg.shard, routed)) == frames_of(
                survivors(cfg.transform, rs),
            )
            &&& total_records(spec_shards(cfg.shard, routed)) == survivors(
                cfg.transform,
                rs,
            ).len()
        }),
{
    lemma_pipeline_complete(rs, cfg, 0);
    lemma_no_loss(cfg.shard, survivors(cfg.transform, rs));
}

/// Determinism: the outcome of a unit is a function of the input bytes
/// and the configuration alone, so two runs over byte-identical input
/// and configuration agree on shard boundaries and shard contents.
pub proof fn lemma_unit_deterministic(
    a: Seq<u8>,
    b: Seq<u8>,
    cfg_a: UnitConfigV,
    cfg_b: UnitConfigV,
)
    requires
        a == b,
        cfg_a == cfg_b,
    ensures
        spec_unit(a, cfg_a, 0) == spec_unit(b, cfg_b, 0),
        spec_shards(cfg_a.shard, spec_unit(a, cfg_a, 0).routed) == spec_shards(
            cfg_b.shard,
            spec_unit(b, cfg_b, 0).routed,
        ),
{
}

} // verus!
