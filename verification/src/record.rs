//! The in-memory corpus record: a UTF-8 text body, held as its byte
//! sequence, plus an optional metadata block (language tag, provenance
//! collection, integer quality signals).
//!
//! Records are plain value types; the ghost views (`RecordV`, `MetaV`,
//! `SignalV`) are the mathematical model every contract in this crate
//! speaks of.

use vstd::prelude::*;

verus! {

/// One named integer quality signal attached to a record.
#[derive(Clone, Debug, PartialEq, Eq)]
pub struct Signal {
    pub name: Vec<u8>,
    pub value: u64,
}

/// The metadata block of a record: the declared language code, the
/// provenance collection descriptor, and zero or more quality signals.
#[derive(Clone, Debug, PartialEq, Eq)]
pub struct Metadata {
    pub language: Vec<u8>,
    pub collection: Vec<u8>,
    pub signals: Vec<Signal>,
}

/// One corpus entry: a text body and, unless it has been stripped to the
/// legacy schema, a metadata block.
#[derive(Clone, Debug, PartialEq, Eq)]
pub struct Record {
    pub text: Vec<u8>,
    pub meta: Option<Metadata>,
}

/// Mathematical model of a [`Signal`].
pub struct SignalV {
    pub name: Seq<u8>,
    pub value: u64,
}

/// Mathematical model of a [`Metadata`] block.
pub struct MetaV {
    pub language: Seq<u8>,
    pub collection: Seq<u8>,
    pub signals: Seq<SignalV>,
}

/// Mathematical model of a [`Record`].
pub struct RecordV {
    pub text: Seq<u8>,
    pub meta: Option<MetaV>,
}

/// Whether two byte strings hold the same bytes.
pub fn bytes_eq(a: &Vec<u8>, b: &Vec<u8>) -> (r: bool)
    ensures
        r == (a@ == b@),
{
    if a.len() != b.len() {
        return false;
    }
    let n = a.len();
    let mut i: usize = 0;
    while i < n
        invariant
            i <= n,
            n == a@.len() == b@.len(),
            forall|k: int| 0 <= k < i ==> a@[k] == b@[k],
        decreases n - i,
    {
        if a[i] != b[i] {
            return false;
        }
        i = i + 1;
    }
    proof {
        assert(a@ =~= b@);
    }
    true
}

/// A fresh byte string with the same bytes.
pub fn copy_bytes(b: &Vec<u8>) -> (out: Vec<u8>)
    ensures
        out@ == b@,
{
    let n = b.len();
    let mut out: Vec<u8> = Vec::new();
    let mut i: usize = 0;
    while i < n
        invariant
            i <= n,
            n == b@.len(),
            out@ == b@.take(i as int),
        decreases n - i,
    {
        out.push(b[i]);
        assert(out@ =~= b@.take(i + 1));
        i = i + 1;
    }
    proof {
        assert(b@.take(n as int) =~= b@);
    }
    out
}

impl View for Signal {
    type V = SignalV;

    open spec fn view(&self) -> SignalV {
        SignalV { name: self.name@, value: self.value }
    }
}

impl View for Metadata {
    type V = MetaV;

    open spec fn view(&self) -> MetaV {
        MetaV {
            language: self.language@,
            collection: self.collection@,
            signals: self.signals@.map_values(|s: Signal| s@),
        }
    }
}

impl View for Record {
    type V = RecordV;

    open spec fn view(&self) -> RecordV {
        RecordV {
            text: self.text@,
            meta: match self.meta {
                Option::None => Option::<MetaV>::None,
                Option::Some(m) => Option::Some(m@),
            },
        }
    }
}

} // verus!
