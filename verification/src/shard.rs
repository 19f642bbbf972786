//! The shard writer: splits a stream of records into size- or
//! count-bounded output shards.
//!
//! Records are routed one at a time; when writing the incoming record
//! would push the open shard past the configured limit, that shard is
//! closed and a new one is opened first, so a record is never split
//! across two shards. A single record larger than the byte limit gets a
//! shard of its own. Shard boundaries are a pure function of the routed
//! records and the policy ([`spec_shards`]), which makes repeated runs
//! byte-identical.

use vstd::prelude::*;

use crate::codec::{enc_frame, encode_frame};
use crate::error::Error;
use crate::record::{Record, RecordV};

verus! {

/// The shard limit: either a byte budget or a record budget.
#[derive(Clone, Copy, Debug, PartialEq, Eq, Structural)]
pub enum ShardPolicy {
    /// Close the open shard before its encoded size would exceed this.
    MaxBytes(u64),
    /// Close the open shard once it holds this many records.
    MaxRecords(u64),
}

/// A zero limit is an invalid configuration.
pub open spec fn policy_wf(p: ShardPolicy) -> bool {
    match p {
        ShardPolicy::MaxBytes(l) => l >= 1,
        ShardPolicy::MaxRecords(n) => n >= 1,
    }
}

/// Reject an invalid shard policy before any work begins.
pub fn validate_policy(p: &ShardPolicy) -> (res: Result<(), Error>)
    ensures
        res is Ok <==> policy_wf(*p),
        res is Err ==> res == Result::<(), Error>::Err(Error::Config),
{
    let ok = match p {
        ShardPolicy::MaxBytes(l) => *l >= 1,
        ShardPolicy::MaxRecords(n) => *n >= 1,
    };
    if ok {
        Result::Ok(())
    } else {
        Result::Err(Error::Config)
    }
}

/// One finished output shard: its encoded bytes and its record count.
#[derive(Debug)]
pub struct Shard {
    pub bytes: Vec<u8>,
    pub records: u64,
}

/// Mathematical model of a [`Shard`].
pub struct ShardV {
    pub bytes: Seq<u8>,
    pub records: nat,
}

impl View for Shard {
    type V = ShardV;

    open spec fn view(&self) -> ShardV {
        ShardV { bytes: self.bytes@, records: self.records as nat }
    }
}

/// The routing state: the closed shards, and the open one.
pub struct RouteStateV {
    pub done: Seq<ShardV>,
    pub cur_bytes: Seq<u8>,
    pub cur_records: nat,
}

pub open spec fn route_empty() -> RouteStateV {
    RouteStateV { done: Seq::empty(), cur_bytes: Seq::empty(), cur_records: 0 }
}

/// Whether a frame of `flen` bytes forces a new shard first.
pub open spec fn spec_needs_new(pol: ShardPolicy, st: RouteStateV, flen: nat) -> bool {
    match pol {
        ShardPolicy::MaxBytes(l) => st.cur_records > 0 && st.cur_bytes.len() + flen > l,
        ShardPolicy::MaxRecords(n) => st.cur_records >= n,
    }
}

/// Route one record: close the open shard first if the limit would be
/// crossed, then append the record's frame.
pub open spec fn route_one(pol: ShardPolicy, st: RouteStateV, r: RecordV) -> RouteStateV {
    let f = enc_frame(r);
    if spec_needs_new(pol, st, f.len()) {
        RouteStateV {
            done: st.done.push(ShardV { bytes: st.cur_bytes, records: st.cur_records }),
            cur_bytes: f,
            cur_records: 1,
        }
    } else {
        RouteStateV {
            done: st.done,
            cur_bytes: st.cur_bytes + f,
            cur_records: st.cur_records + 1,
        }
    }
}

/// Route a whole sequence of records, in order.
pub open spec fn route_all(pol: ShardPolicy, rs: Seq<RecordV>) -> RouteStateV
    decreases rs.len(),
{
    if rs.len() == 0 {
        route_empty()
    } else {
        route_one(pol, route_all(pol, rs.drop_last()), rs.last())
    }
}

/// The shards produced for `rs` under `pol`, after the final flush. The
/// open shard is flushed only if it holds at least one record, so an
/// empty input yields no shards.
pub open spec fn spec_shards(pol: ShardPolicy, rs: Seq<RecordV>) -> Seq<ShardV> {
    let st = route_all(pol, rs);
    if st.cur_records > 0 {
        st.done.push(ShardV { bytes: st.cur_bytes, records: st.cur_records })
    } else {
        st.done
    }
}

/// Streams records into bounded shards. Owned by exactly one unit of
/// work; `finalize` must be called once at end of stream to flush the
/// last partial shard.
pub struct ShardWriter {
    pub policy: ShardPolicy,
    pub done: Vec<Shard>,
    pub cur_bytes: Vec<u8>,
    pub cur_records: u64,
    /// The records routed so far, in order.
    pub routed: Ghost<Seq<RecordV>>,
}

impl ShardWriter {
    /// The writer's state is exactly what routing `routed` prescribes.
    pub open spec fn wf(self) -> bool {
        &&& policy_wf(self.policy)
        &&& route_all(self.policy, self.routed@) == RouteStateV {
            done: self.done@.map_values(|s: Shard| s@),
            cur_bytes: self.cur_bytes@,
            cur_records: self.cur_records as nat,
        }
        &&& self.cur_records as int <= self.cur_bytes@.len()
    }

    /// A fresh writer with no routed records.
    pub fn new(policy: ShardPolicy) -> (w: ShardWriter)
        requires
            policy_wf(policy),
        ensures
            w.wf(),
            w.routed@ == Seq::<RecordV>::empty(),
            w.policy == policy,
    {
        let w = ShardWriter {
            policy,
            done: Vec::new(),
            cur_bytes: Vec::new(),
            cur_records: 0,
            routed: Ghost(Seq::empty()),
        };
        proof {
            assert(w.done@.map_values(|s: Shard| s@) =~= Seq::<ShardV>::empty());
            assert(route_all(policy, w.routed@) == route_empty());
        }
        w
    }

    /// Route one record into the open shard, closing it first if the
    /// limit would be crossed.
    pub fn route(&mut self, rec: &Record)
        requires
            old(self).wf(),
        ensures
            final(self).wf(),
            final(self).routed@ == old(self).routed@.push(rec@),
            final(self).policy == old(self).policy,
    {
        let frame = encode_frame(rec);
        let ghost st0 = route_all(self.policy, self.routed@);
        let cur_len64 = self.cur_bytes.len() as u64;
        let frame_len64 = frame.len() as u64;
        let needs_new = match self.policy {
            ShardPolicy::MaxBytes(l) => self.cur_records > 0 && (cur_len64 > l || frame_len64 > l
                - cur_len64),
            ShardPolicy::MaxRecords(n) => self.cur_records >= n,
        };
        assert(needs_new == spec_needs_new(self.policy, st0, enc_frame(rec@).len()));
        if needs_new {
            let mut shard_bytes: Vec<u8> = frame;
            core::mem::swap(&mut self.cur_bytes, &mut shard_bytes);
            let closed = Shard { bytes: shard_bytes, records: self.cur_records };
            self.done.push(closed);
            self.cur_records = 1;
            proof {
                assert(self.done@.map_values(|s: Shard| s@) =~= st0.done.push(
                    ShardV { bytes: st0.cur_bytes, records: st0.cur_records },
                ));
            }
        } else {
            let before = self.cur_bytes.len();
            crate::codec::append_bytes(&mut self.cur_bytes, &frame);
            assert(self.cur_records as int <= before as int);
            self.cur_records = self.cur_records + 1;
        }
        proof {
            let routed1 = self.routed@.push(rec@);
            assert(routed1.drop_last() =~= old(self).routed@);
            assert(routed1.last() == rec@);
            self.routed@ = routed1;
            assert(route_all(self.policy, routed1) == route_one(self.policy, st0, rec@));
        }
    }

    /// Flush the open shard (if it holds any record) and hand back every
    /// shard, in the order they were closed.
    pub fn finalize(self) -> (out: Vec<Shard>)
        requires
            self.wf(),
        ensures
            out@.map_values(|s: Shard| s@) == spec_shards(self.policy, self.routed@),
    {
        let ShardWriter { policy, mut done, cur_bytes, cur_records, routed } = self;
        if cur_records > 0 {
            let last = Shard { bytes: cur_bytes, records: cur_records };
            done.push(last);
            proof {
                assert(done@.map_values(|s: Shard| s@) =~= spec_shards(policy, routed@));
            }
        }
        done
    }
}

// ------------------------------------------------------------------
// Laws
// ------------------------------------------------------------------

/// The invariant behind the size bound: every closed shard, and the open
/// one, is within the limit or holds exactly one record.
spec fn size_bound_state(l: u64, st: RouteStateV) -> bool {
    &&& forall|i: int|
        0 <= i < st.done.len() ==> (#[trigger] st.done[i]).records == 1 || st.done[i].bytes.len()
            <= l
    &&& st.cur_records == 1 || st.cur_bytes.len() <= l
    &&& st.cur_records == 0 ==> st.cur_bytes.len() == 0
}

proof fn lemma_size_bound_step(l: u64, rs: Seq<RecordV>)
    ensures
        size_bound_state(l, route_all(ShardPolicy::MaxBytes(l), rs)),
    decreases rs.len(),
{
    if rs.len() == 0 {
    } else {
        lemma_size_bound_step(l, rs.drop_last());
    }
}

/// Shard size bound: under a byte limit, every shard fits in the limit,
/// except that a single record whose frame alone exceeds the limit gets
/// its own oversized shard.
pub proof fn lemma_shard_size_bound(l: u64, rs: Seq<RecordV>)
    ensures
        forall|i: int|
            0 <= i < spec_shards(ShardPolicy::MaxBytes(l), rs).len() ==> (#[trigger] spec_shards(
                ShardPolicy::MaxBytes(l),
                rs,
            )[i]).records == 1 || spec_shards(ShardPolicy::MaxBytes(l), rs)[i].bytes.len() <= l,
{
    lemma_size_bound_step(l, rs);
}

/// The concatenation of the frames of `rs`, in order.
pub open spec fn frames_of(rs: Seq<RecordV>) -> Seq<u8>
    decreases rs.len(),
{
    if rs.len() == 0 {
        Seq::empty()
    } else {
        frames_of(rs.drop_last()) + enc_frame(rs.last())
    }
}

/// The concatenation of the bytes of `shs`, in order.
pub open spec fn shards_bytes(shs: Seq<ShardV>) -> Seq<u8>
    decreases shs.len(),
{
    if shs.len() == 0 {
        Seq::empty()
    } else {
        shards_bytes(shs.drop_last()) + shs.last().bytes
    }
}

/// The total record count across `shs`.
pub open spec fn total_records(shs: Seq<ShardV>) -> nat
    decreases shs.len(),
{
    if shs.len() == 0 {
        0
    } else {
        total_records(shs.drop_last()) + shs.last().records
    }
}

spec fn no_loss_state(pol: ShardPolicy, rs: Seq<RecordV>, st: RouteStateV) -> bool {
    &&& shards_bytes(st.done) + st.cur_bytes == frames_of(rs)
    &&& total_records(st.done) + st.cur_records == rs.len()
    &&& st.cur_records == 0 ==> st.cur_bytes.len() == 0
}

proof fn lemma_no_loss_step(pol: ShardPolicy, rs: Seq<RecordV>)
    ensures
        no_loss_state(pol, rs, route_all(pol, rs)),
    decreases rs.len(),
{
    if rs.len() == 0 {
        assert(shards_bytes(Seq::<ShardV>::empty()) + Seq::<u8>::empty() =~= frames_of(rs));
    } else {
        let prefix = rs.drop_last();
        let r = rs.last();
        let st0 = route_all(pol, prefix);
        lemma_no_loss_step(pol, prefix);
        let f = enc_frame(r);
        let st1 = route_one(pol, st0, r);
        if spec_needs_new(pol, st0, f.len()) {
            let closed = ShardV { bytes: st0.cur_bytes, records: st0.cur_records };
            assert(st0.done.push(closed).drop_last() =~= st0.done);
            assert(shards_bytes(st1.done) == shards_bytes(st0.done) + st0.cur_bytes);
            assert(shards_bytes(st1.done) + st1.cur_bytes =~= (shards_bytes(st0.done)
                + st0.cur_bytes) + f);
        } else {
            assert(shards_bytes(st1.done) + st1.cur_bytes =~= (shards_bytes(st0.done)
                + st0.cur_bytes) + f);
        }
        assert((shards_bytes(st0.done) + st0.cur_bytes) + f =~= frames_of(rs));
    }
}

/// No record loss or duplication: across all shards of a unit, in order,
/// the bytes are exactly the frames of the routed records, and the record
/// counts add up to the number routed.
pub proof fn lemma_no_loss(pol: ShardPolicy, rs: Seq<RecordV>)
    ensures
        shards_bytes(spec_shards(pol, rs)) == frames_of(rs),
        total_records(spec_shards(pol, rs)) == rs.len(),
{
    lemma_no_loss_step(pol, rs);
    let st = route_all(pol, rs);
    let shs = spec_shards(pol, rs);
    if st.cur_records > 0 {
        let last = ShardV { bytes: st.cur_bytes, records: st.cur_records };
        assert(st.done.push(last).drop_last() =~= st.done);
        assert(shards_bytes(shs) == shards_bytes(st.done) + st.cur_bytes);
    } else {
        assert(shards_bytes(st.done) + st.cur_bytes =~= shards_bytes(st.done));
    }
}

} // verus!
