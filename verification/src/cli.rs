//! The command set: five thin configurations of the one shared
//! pipeline.
//!
//! Each command holds the plain configuration values the core needs;
//! [`OscarTools::plan`] validates them and builds the [`UnitConfig`]
//! that [`crate::unit::run_unit`] executes per input file. Argument
//! parsing and file handling live in the binary around this library.

use vstd::prelude::*;

use crate::error::{Error, ErrorV};
use crate::record::copy_bytes;
use crate::shard::ShardPolicy;
use crate::transform::{CleanPolicy, LangEntry, SignalBound, Transform, TransformV};
use crate::unit::{FailMode, MalformedPolicy, UnitConfig, UnitConfigV};

verus! {

/// Implemented by every command that can be executed from the command
/// line; the binary implements it for its argument-carrying types.
pub trait Runnable {
    fn run(&self) -> Result<(), Error>;
}

/// Update declared language codes to their normalized tags, fixing the
/// legacy mistakes listed in the mapping table.
#[derive(Debug)]
pub struct UpdateLangCodes {
    /// The legacy-code mapping table, built once at startup.
    pub entries: Vec<LangEntry>,
    /// Lenient mode skips records with unmapped codes instead of
    /// failing the unit.
    pub lenient: bool,
    /// Skip malformed records instead of failing the unit.
    pub skip_malformed: bool,
}

/// Extract the subset of records that meet the quality thresholds.
#[derive(Debug)]
pub struct ExtractCleanCorpus {
    pub policy: CleanPolicy,
    pub skip_malformed: bool,
}

/// Split a corpus file into shards bounded by a byte budget.
#[derive(Debug)]
pub struct SplitLatest {
    /// The byte budget of one shard; zero is a configuration error.
    pub shard_bytes: u64,
    pub skip_malformed: bool,
}

/// Rewrite a corpus unchanged (the recompression path).
#[derive(Debug)]
pub struct CompressCorpus {
    pub skip_malformed: bool,
}

/// Extract the text bodies, discarding metadata: the export to the
/// legacy schema.
#[derive(Debug)]
pub struct ExtractText {
    pub skip_malformed: bool,
}

/// Holds every command that is callable from the command line.
#[derive(Debug)]
pub enum OscarTools {
    UpdateLangCodes(UpdateLangCodes),
    ExtractCleanCorpus(ExtractCleanCorpus),
    SplitLatest(SplitLatest),
    Compress(CompressCorpus),
    Extract(ExtractText),
}

/// A shard policy that no realistic file crosses: the commands that do
/// not split write one shard per input file.
pub open spec fn unbounded_policy() -> ShardPolicy {
    ShardPolicy::MaxBytes(u64::MAX)
}

pub open spec fn malformed_of(skip: bool) -> MalformedPolicy {
    if skip {
        MalformedPolicy::SkipAndLog
    } else {
        MalformedPolicy::Abort
    }
}

/// The unit configuration each command stands for, or the configuration
/// error its values carry.
pub open spec fn plan_of(c: OscarTools) -> Result<UnitConfigV, ErrorV> {
    match c {
        OscarTools::UpdateLangCodes(u) => Result::Ok(
            UnitConfigV {
                transform: TransformV::LanguageCodeFixer {
                    entries: u.entries@.map_values(|e: LangEntry| e@),
                },
                shard: unbounded_policy(),
                on_malformed: malformed_of(u.skip_malformed),
                on_unmapped: if u.lenient {
                    FailMode::Lenient
                } else {
                    FailMode::Strict
                },
            },
        ),
        OscarTools::ExtractCleanCorpus(u) => Result::Ok(
            UnitConfigV {
                transform: TransformV::CleanFilter(u.policy@),
                shard: unbounded_policy(),
                on_malformed: malformed_of(u.skip_malformed),
                on_unmapped: FailMode::Strict,
            },
        ),
        OscarTools::SplitLatest(u) => if u.shard_bytes >= 1 {
            Result::Ok(
                UnitConfigV {
                    transform: TransformV::Identity,
                    shard: ShardPolicy::MaxBytes(u.shard_bytes),
                    on_malformed: malformed_of(u.skip_malformed),
                    on_unmapped: FailMode::Strict,
                },
            )
        } else {
            Result::Err(ErrorV::Config)
        },
        OscarTools::Compress(u) => Result::Ok(
            UnitConfigV {
                transform: TransformV::Identity,
                shard: unbounded_policy(),
                on_malformed: malformed_of(u.skip_malformed),
                on_unmapped: FailMode::Strict,
            },
        ),
        OscarTools::Extract(u) => Result::Ok(
            UnitConfigV {
                transform: TransformV::MetadataStripper,
                shard: unbounded_policy(),
                on_malformed: malformed_of(u.skip_malformed),
                on_unmapped: FailMode::Strict,
            },
        ),
    }
}

/// A fresh copy of a mapping table.
fn copy_entries(entries: &Vec<LangEntry>) -> (out: Vec<LangEntry>)
    ensures
        out@.map_values(|e: LangEntry| e@) == entries@.map_values(|e: LangEntry| e@),
{
    let n = entries.len();
    let mut out: Vec<LangEntry> = Vec::new();
    let mut i: usize = 0;
    while i < n
        invariant
            i <= n,
            n == entries@.len(),
            out@.map_values(|e: LangEntry| e@) == entries@.map_values(|e: LangEntry| e@).take(
                i as int,
            ),
        decreases n - i,
    {
        let e = LangEntry { from: copy_bytes(&entries[i].from), to: copy_bytes(&entries[i].to) };
        proof {
            let ev = entries@.map_values(|x: LangEntry| x@);
            assert(out@.push(e).map_values(|x: LangEntry| x@) =~= out@.map_values(
                |x: LangEntry| x@,
            ).push(e@));
            assert(ev.take(i as int).push(ev[i as int]) =~= ev.take(i + 1));
        }
        out.push(e);
        i = i + 1;
    }
    proof {
        let ev = entries@.map_values(|x: LangEntry| x@);
        assert(ev.take(n as int) =~= ev);
    }
    out
}

/// A fresh copy of a clean-filter policy.
fn copy_policy(p: &CleanPolicy) -> (out: CleanPolicy)
    ensures
        out@ == p@,
{
    let n = p.bounds.len();
    let mut bounds: Vec<SignalBound> = Vec::new();
    let mut i: usize = 0;
    while i < n
        invariant
            i <= n,
            n == p.bounds@.len(),
            bounds@.map_values(|b: SignalBound| b@) == p.bounds@.map_values(
                |b: SignalBound| b@,
            ).take(i as int),
        decreases n - i,
    {
        let b = SignalBound {
            name: copy_bytes(&p.bounds[i].name),
            min: p.bounds[i].min,
            max: p.bounds[i].max,
        };
        proof {
            let bv = p.bounds@.map_values(|x: SignalBound| x@);
            assert(bounds@.push(b).map_values(|x: SignalBound| x@) =~= bounds@.map_values(
                |x: SignalBound| x@,
            ).push(b@));
            assert(bv.take(i as int).push(bv[i as int]) =~= bv.take(i + 1));
        }
        bounds.push(b);
        i = i + 1;
    }
    proof {
        let bv = p.bounds@.map_values(|x: SignalBound| x@);
        assert(bv.take(n as int) =~= bv);
    }
    CleanPolicy { min_text_len: p.min_text_len, bounds }
}

impl OscarTools {
    /// Validate this command's configuration and build the unit
    /// configuration it stands for. A zero shard budget is rejected
    /// here, before any unit of work begins.
    pub fn plan(&self) -> (res: Result<UnitConfig, Error>)
        ensures
            match res {
                Result::Ok(cfg) => plan_of(*self) == Result::<UnitConfigV, ErrorV>::Ok(cfg@),
                Result::Err(e) => plan_of(*self) == Result::<UnitConfigV, ErrorV>::Err(e@),
            },
    {
        match self {
            OscarTools::UpdateLangCodes(u) => Result::Ok(
                UnitConfig {
                    transform: Transform::LanguageCodeFixer { entries: copy_entries(&u.entries) },
                    shard: ShardPolicy::MaxBytes(u64::MAX),
                    on_malformed: if u.skip_malformed {
                        MalformedPolicy::SkipAndLog
                    } else {
                        MalformedPolicy::Abort
                    },
                    on_unmapped: if u.lenient {
                        FailMode::Lenient
                    } else {
                        FailMode::Strict
                    },
                },
            ),
            OscarTools::ExtractCleanCorpus(u) => Result::Ok(
                UnitConfig {
                    transform: Transform::CleanFilter(copy_policy(&u.policy)),
                    shard: ShardPolicy::MaxBytes(u64::MAX),
                    on_malformed: if u.skip_malformed {
                        MalformedPolicy::SkipAndLog
                    } else {
                        MalformedPolicy::Abort
                    },
                    on_unmapped: FailMode::Strict,
                },
            ),
            OscarTools::SplitLatest(u) => {
                if u.shard_bytes >= 1 {
                    Result::Ok(
                        UnitConfig {
                            transform: Transform::Identity,
                            shard: ShardPolicy::MaxBytes(u.shard_bytes),
                            on_malformed: if u.skip_malformed {
                                MalformedPolicy::SkipAndLog
                            } else {
                                MalformedPolicy::Abort
                            },
                            on_unmapped: FailMode::Strict,
                        },
                    )
                } else {
                    Result::Err(Error::Config)
                }
            },
            OscarTools::Compress(u) => Result::Ok(
                UnitConfig {
                    transform: Transform::Identity,
                    shard: ShardPolicy::MaxBytes(u64::MAX),
                    on_malformed: if u.skip_malformed {
                        MalformedPolicy::SkipAndLog
                    } else {
                        MalformedPolicy::Abort
                    },
                    on_unmapped: FailMode::Strict,
                },
            ),
            OscarTools::Extract(u) => Result::Ok(
                UnitConfig {
                    transform: Transform::MetadataStripper,
                    shard: ShardPolicy::MaxBytes(u64::MAX),
                    on_malformed: if u.skip_malformed {
                        MalformedPolicy::SkipAndLog
                    } else {
                        MalformedPolicy::Abort
                    },
                    on_unmapped: FailMode::Strict,
                },
            ),
        }
    }
}

} // verus!
