//! Tests of the record pipeline: codec fidelity, transforms, sharding,
//! stream failure handling, and the orchestrator.

use oscar_tools::cli::{OscarTools, SplitLatest, UpdateLangCodes};
use oscar_tools::codec::{decode_record, decode_step, encode_frame, encode_record, FrameStep};
use oscar_tools::error::Error;
use oscar_tools::orchestrator::{aggregate_ok, step, UnitEvent, UnitState};
use oscar_tools::record::{Metadata, Record, Signal};
use oscar_tools::shard::{validate_policy, ShardPolicy};
use oscar_tools::transform::{
    CleanPolicy, LangEntry, SignalBound, Transform, TransformOutcome,
};
use oscar_tools::unit::{run_unit, FailMode, MalformedPolicy, UnitConfig, UnitStatus};

fn rec_plain(text: &[u8]) -> Record {
    Record { text: text.to_vec(), meta: None }
}

fn rec_with_lang(text: &[u8], lang: &[u8]) -> Record {
    Record {
        text: text.to_vec(),
        meta: Some(Metadata {
            language: lang.to_vec(),
            collection: b"common-crawl".to_vec(),
            signals: vec![Signal { name: b"quality".to_vec(), value: 7 }],
        }),
    }
}

fn stream_of(records: &[Record]) -> Vec<u8> {
    let mut out = Vec::new();
    for r in records {
        out.extend_from_slice(&encode_frame(r));
    }
    out
}

fn decode_all(bytes: &Vec<u8>) -> Vec<Record> {
    let mut out = Vec::new();
    let mut pos = 0;
    loop {
        match decode_step(bytes, pos) {
            FrameStep::End => break,
            FrameStep::Rec(r, p2) => {
                out.push(r);
                pos = p2;
            }
            other => panic!("stream not clean: {:?}", other),
        }
    }
    out
}

fn config(transform: Transform, shard: ShardPolicy) -> UnitConfig {
    UnitConfig {
        transform,
        shard,
        on_malformed: MalformedPolicy::Abort,
        on_unmapped: FailMode::Strict,
    }
}

#[test]
fn round_trip_plain_record() {
    let r = rec_plain(b"a small text body");
    let encoded = encode_record(&r);
    assert_eq!(decode_record(&encoded), Some(r));
}

#[test]
fn round_trip_record_with_metadata() {
    let r = rec_with_lang(b"body text", b"fr");
    let encoded = encode_record(&r);
    assert_eq!(decode_record(&encoded), Some(r));
}

#[test]
fn round_trip_many_signals() {
    let r = Record {
        text: b"t".to_vec(),
        meta: Some(Metadata {
            language: b"en".to_vec(),
            collection: b"c".to_vec(),
            signals: vec![
                Signal { name: b"len".to_vec(), value: 0 },
                Signal { name: b"ppl".to_vec(), value: u64::MAX },
                Signal { name: b"".to_vec(), value: 42 },
            ],
        }),
    };
    let encoded = encode_record(&r);
    assert_eq!(decode_record(&encoded), Some(r));
}

#[test]
fn decode_rejects_bad_tag() {
    let r = rec_plain(b"x");
    let mut encoded = encode_record(&r);
    encoded[0] = 9;
    assert_eq!(decode_record(&encoded), None);
}

#[test]
fn decode_rejects_trailing_bytes() {
    let r = rec_plain(b"x");
    let mut encoded = encode_record(&r);
    encoded.push(0);
    assert_eq!(decode_record(&encoded), None);
}

#[test]
fn scenario_three_records_two_shards() {
    // Shard limit = exactly the size of two records: the third starts a
    // second shard.
    let records = vec![rec_plain(b"aaaa"), rec_plain(b"bbbb"), rec_plain(b"cccc")];
    let frame_len = encode_frame(&records[0]).len() as u64;
    let input = stream_of(&records);
    let cmd = OscarTools::SplitLatest(SplitLatest {
        shard_bytes: 2 * frame_len,
        skip_malformed: false,
    });
    let cfg = cmd.plan().unwrap();
    let rep = run_unit(&input, &cfg).unwrap();
    assert!(matches!(rep.status, UnitStatus::Completed));
    assert_eq!(rep.shards.len(), 2);
    assert_eq!(rep.shards[0].records, 2);
    assert_eq!(rep.shards[1].records, 1);
    assert_eq!(decode_all(&rep.shards[0].bytes), records[0..2].to_vec());
    assert_eq!(decode_all(&rep.shards[1].bytes), records[2..3].to_vec());
}

#[test]
fn oversized_record_gets_its_own_shard() {
    let records = vec![rec_plain(b"0123456789abcdef0123456789abcdef")];
    let input = stream_of(&records);
    let cfg = config(Transform::Identity, ShardPolicy::MaxBytes(1));
    let rep = run_unit(&input, &cfg).unwrap();
    assert!(matches!(rep.status, UnitStatus::Completed));
    assert_eq!(rep.shards.len(), 1);
    assert_eq!(rep.shards[0].records, 1);
    assert!(rep.shards[0].bytes.len() > 1);
}

#[test]
fn shard_bound_holds_unless_single_record() {
    let records = vec![
        rec_plain(b"aa"),
        rec_plain(b"a much longer record body that overflows the limit alone"),
        rec_plain(b"bb"),
        rec_plain(b"cc"),
    ];
    let limit = 2 * encode_frame(&records[0]).len() as u64;
    let input = stream_of(&records);
    let cfg = config(Transform::Identity, ShardPolicy::MaxBytes(limit));
    let rep = run_unit(&input, &cfg).unwrap();
    assert!(matches!(rep.status, UnitStatus::Completed));
    for shard in &rep.shards {
        assert!(shard.bytes.len() as u64 <= limit || shard.records == 1);
    }
    let total: u64 = rep.shards.iter().map(|s| s.records).sum();
    assert_eq!(total, 4);
}

#[test]
fn max_records_policy_splits_by_count() {
    let records = vec![rec_plain(b"a"), rec_plain(b"bb"), rec_plain(b"ccc")];
    let input = stream_of(&records);
    let cfg = config(Transform::Identity, ShardPolicy::MaxRecords(2));
    let rep = run_unit(&input, &cfg).unwrap();
    assert!(matches!(rep.status, UnitStatus::Completed));
    assert_eq!(rep.shards.len(), 2);
    assert_eq!(rep.shards[0].records, 2);
    assert_eq!(rep.shards[1].records, 1);
}

#[test]
fn clean_filter_keeps_long_records_in_order() {
    // Text lengths 5, 15, 3, 20 with a minimum of 10: exactly the
    // 15- and 20-byte records survive, in their original order.
    let records = vec![
        rec_plain(b"aaaaa"),
        rec_plain(b"bbbbbbbbbbbbbbb"),
        rec_plain(b"ccc"),
        rec_plain(b"dddddddddddddddddddd"),
    ];
    let input = stream_of(&records);
    let cfg = config(
        Transform::CleanFilter(CleanPolicy { min_text_len: 10, bounds: vec![] }),
        ShardPolicy::MaxBytes(u64::MAX),
    );
    let rep = run_unit(&input, &cfg).unwrap();
    assert!(matches!(rep.status, UnitStatus::Completed));
    assert_eq!(rep.shards.len(), 1);
    let kept = decode_all(&rep.shards[0].bytes);
    assert_eq!(kept, vec![records[1].clone(), records[3].clone()]);
}

#[test]
fn clean_filter_signal_bounds() {
    let good = rec_with_lang(b"long enough body", b"en"); // quality = 7
    let mut bad = rec_with_lang(b"also long enough body", b"en");
    if let Some(m) = &mut bad.meta {
        m.signals[0].value = 99;
    }
    let input = stream_of(&[good.clone(), bad]);
    let cfg = config(
        Transform::CleanFilter(CleanPolicy {
            min_text_len: 1,
            bounds: vec![SignalBound { name: b"quality".to_vec(), min: 0, max: 10 }],
        }),
        ShardPolicy::MaxBytes(u64::MAX),
    );
    let rep = run_unit(&input, &cfg).unwrap();
    assert!(matches!(rep.status, UnitStatus::Completed));
    assert_eq!(decode_all(&rep.shards[0].bytes), vec![good]);
}

fn iw_to_he_table() -> Vec<LangEntry> {
    vec![LangEntry { from: b"iw".to_vec(), to: b"he".to_vec() }]
}

#[test]
fn lang_fixer_rewrites_mapped_code() {
    let records = vec![rec_with_lang(b"shalom", b"iw"), rec_with_lang(b"od", b"iw")];
    let input = stream_of(&records);
    let cmd = OscarTools::UpdateLangCodes(UpdateLangCodes {
        entries: iw_to_he_table(),
        lenient: false,
        skip_malformed: false,
    });
    let cfg = cmd.plan().unwrap();
    let rep = run_unit(&input, &cfg).unwrap();
    assert!(matches!(rep.status, UnitStatus::Completed));
    let fixed = decode_all(&rep.shards[0].bytes);
    assert_eq!(fixed.len(), 2);
    for r in &fixed {
        assert_eq!(r.meta.as_ref().unwrap().language, b"he".to_vec());
    }
    // Text and the rest of the metadata are untouched.
    assert_eq!(fixed[0].text, b"shalom".to_vec());
    assert_eq!(fixed[0].meta.as_ref().unwrap().collection, b"common-crawl".to_vec());
}

#[test]
fn lang_fixer_unmapped_code_fails_strict() {
    let records = vec![rec_with_lang(b"ok", b"iw"), rec_with_lang(b"bad", b"xx")];
    let input = stream_of(&records);
    let cmd = OscarTools::UpdateLangCodes(UpdateLangCodes {
        entries: iw_to_he_table(),
        lenient: false,
        skip_malformed: false,
    });
    let cfg = cmd.plan().unwrap();
    let rep = run_unit(&input, &cfg).unwrap();
    assert_eq!(
        rep.status,
        UnitStatus::Failed(Error::UnmappedCode { index: 1, code: b"xx".to_vec() })
    );
    // The record fixed before the failure is preserved.
    assert_eq!(rep.shards.len(), 1);
    assert_eq!(rep.shards[0].records, 1);
}

#[test]
fn lang_fixer_unmapped_code_skipped_lenient() {
    let records = vec![rec_with_lang(b"bad", b"xx"), rec_with_lang(b"ok", b"iw")];
    let input = stream_of(&records);
    let cmd = OscarTools::UpdateLangCodes(UpdateLangCodes {
        entries: iw_to_he_table(),
        lenient: true,
        skip_malformed: false,
    });
    let cfg = cmd.plan().unwrap();
    let rep = run_unit(&input, &cfg).unwrap();
    assert!(matches!(rep.status, UnitStatus::Completed));
    assert_eq!(rep.diags.len(), 1);
    assert_eq!(rep.diags[0].index, 0);
    assert_eq!(
        rep.diags[0].error,
        Error::UnmappedCode { index: 0, code: b"xx".to_vec() }
    );
    let fixed = decode_all(&rep.shards[0].bytes);
    assert_eq!(fixed.len(), 1);
    assert_eq!(fixed[0].meta.as_ref().unwrap().language, b"he".to_vec());
}

#[test]
fn stripper_removes_metadata_and_is_idempotent() {
    let r = rec_with_lang(b"the body", b"en");
    let stripped = match Transform::MetadataStripper.apply(r) {
        TransformOutcome::KeepModified(s) => s,
        other => panic!("stripper must rewrite: {:?}", other),
    };
    assert_eq!(stripped.text, b"the body".to_vec());
    assert!(stripped.meta.is_none());
    let again = match Transform::MetadataStripper.apply(stripped.clone()) {
        TransformOutcome::KeepModified(s) => s,
        other => panic!("stripper must rewrite: {:?}", other),
    };
    assert_eq!(again, stripped);
}

#[test]
fn truncated_stream_preserves_routed_records() {
    // Two valid frames, then a frame whose length prefix promises more
    // bytes than the stream holds: the unit fails, but both records
    // routed before the corruption point are recoverable.
    let records = vec![rec_plain(b"first"), rec_plain(b"second")];
    let mut input = stream_of(&records);
    input.extend_from_slice(&[100, 0, 0, 0, 0, 0, 0, 0, 1, 2, 3]);
    let cfg = config(Transform::Identity, ShardPolicy::MaxBytes(u64::MAX));
    let rep = run_unit(&input, &cfg).unwrap();
    assert_eq!(rep.status, UnitStatus::Failed(Error::Truncated { index: 2 }));
    assert_eq!(rep.shards.len(), 1);
    assert_eq!(rep.shards[0].records, 2);
    assert_eq!(decode_all(&rep.shards[0].bytes), records);
}

fn stream_with_malformed_middle() -> (Vec<Record>, Vec<u8>) {
    let records = vec![rec_plain(b"first"), rec_plain(b"second")];
    let mut input = encode_frame(&records[0]);
    // A complete frame whose single body byte is no valid record tag.
    input.extend_from_slice(&[1, 0, 0, 0, 0, 0, 0, 0, 9]);
    input.extend_from_slice(&encode_frame(&records[1]));
    (records, input)
}

#[test]
fn malformed_record_aborts_by_default() {
    let (records, input) = stream_with_malformed_middle();
    let cfg = config(Transform::Identity, ShardPolicy::MaxBytes(u64::MAX));
    let rep = run_unit(&input, &cfg).unwrap();
    assert_eq!(rep.status, UnitStatus::Failed(Error::Malformed { index: 1 }));
    assert_eq!(decode_all(&rep.shards[0].bytes), records[0..1].to_vec());
}

#[test]
fn malformed_record_skipped_under_policy() {
    let (records, input) = stream_with_malformed_middle();
    let mut cfg = config(Transform::Identity, ShardPolicy::MaxBytes(u64::MAX));
    cfg.on_malformed = MalformedPolicy::SkipAndLog;
    let rep = run_unit(&input, &cfg).unwrap();
    assert!(matches!(rep.status, UnitStatus::Completed));
    assert_eq!(rep.diags.len(), 1);
    assert_eq!(rep.diags[0].error, Error::Malformed { index: 1 });
    assert_eq!(decode_all(&rep.shards[0].bytes), records);
}

#[test]
fn identical_runs_are_byte_identical() {
    let records = vec![
        rec_with_lang(b"one", b"en"),
        rec_plain(b"two"),
        rec_with_lang(b"three", b"fr"),
    ];
    let input = stream_of(&records);
    let limit = encode_frame(&records[0]).len() as u64 + 3;
    let rep1 = run_unit(&input, &config(Transform::Identity, ShardPolicy::MaxBytes(limit)))
        .unwrap();
    let rep2 = run_unit(&input, &config(Transform::Identity, ShardPolicy::MaxBytes(limit)))
        .unwrap();
    assert_eq!(rep1.status, rep2.status);
    assert_eq!(rep1.shards.len(), rep2.shards.len());
    for (a, b) in rep1.shards.iter().zip(rep2.shards.iter()) {
        assert_eq!(a.bytes, b.bytes);
        assert_eq!(a.records, b.records);
    }
}

#[test]
fn zero_shard_limit_is_config_error() {
    let cmd = OscarTools::SplitLatest(SplitLatest { shard_bytes: 0, skip_malformed: false });
    assert_eq!(cmd.plan().unwrap_err(), Error::Config);
    assert_eq!(validate_policy(&ShardPolicy::MaxBytes(0)).unwrap_err(), Error::Config);
    assert_eq!(validate_policy(&ShardPolicy::MaxRecords(0)).unwrap_err(), Error::Config);
    let input = stream_of(&[rec_plain(b"x")]);
    let cfg = config(Transform::Identity, ShardPolicy::MaxRecords(0));
    assert_eq!(run_unit(&input, &cfg).unwrap_err(), Error::Config);
}

#[test]
fn empty_input_completes_with_no_shards() {
    let input = Vec::new();
    let cfg = config(Transform::Identity, ShardPolicy::MaxBytes(100));
    let rep = run_unit(&input, &cfg).unwrap();
    assert!(matches!(rep.status, UnitStatus::Completed));
    assert!(rep.shards.is_empty());
    assert!(rep.diags.is_empty());
}

#[test]
fn extract_strips_every_record() {
    let records = vec![rec_with_lang(b"first body", b"en"), rec_with_lang(b"second body", b"fr")];
    let input = stream_of(&records);
    let cmd = OscarTools::Extract(oscar_tools::cli::ExtractText { skip_malformed: false });
    let cfg = cmd.plan().unwrap();
    let rep = run_unit(&input, &cfg).unwrap();
    assert!(matches!(rep.status, UnitStatus::Completed));
    let stripped = decode_all(&rep.shards[0].bytes);
    assert_eq!(
        stripped,
        vec![rec_plain(b"first body"), rec_plain(b"second body")]
    );
}

#[test]
fn compress_path_rewrites_stream_unchanged() {
    let records = vec![rec_with_lang(b"kept as is", b"en"), rec_plain(b"also kept")];
    let input = stream_of(&records);
    let cmd = OscarTools::Compress(oscar_tools::cli::CompressCorpus { skip_malformed: false });
    let cfg = cmd.plan().unwrap();
    let rep = run_unit(&input, &cfg).unwrap();
    assert!(matches!(rep.status, UnitStatus::Completed));
    assert_eq!(rep.shards.len(), 1);
    assert_eq!(rep.shards[0].bytes, input);
}

#[test]
fn record_with_empty_text_round_trips() {
    let r = rec_plain(b"");
    let encoded = encode_record(&r);
    assert_eq!(decode_record(&encoded), Some(r));
}

#[test]
fn record_without_metadata_passes_signal_bounds() {
    // Bounds constrain only the signals a record carries; a record with
    // no metadata block has none to violate.
    let records = vec![rec_plain(b"long enough body")];
    let input = stream_of(&records);
    let cfg = config(
        Transform::CleanFilter(CleanPolicy {
            min_text_len: 5,
            bounds: vec![SignalBound { name: b"quality".to_vec(), min: 3, max: 4 }],
        }),
        ShardPolicy::MaxBytes(u64::MAX),
    );
    let rep = run_unit(&input, &cfg).unwrap();
    assert!(matches!(rep.status, UnitStatus::Completed));
    assert_eq!(decode_all(&rep.shards[0].bytes), records);
}

#[test]
fn unit_state_machine_transitions() {
    assert_eq!(
        step(UnitState::Pending, UnitEvent::Start),
        Some(UnitState::Running)
    );
    assert_eq!(
        step(UnitState::Running, UnitEvent::Finish(UnitStatus::Completed)),
        Some(UnitState::Completed)
    );
    assert_eq!(
        step(UnitState::Running, UnitEvent::Finish(UnitStatus::Failed(Error::Io))),
        Some(UnitState::Failed(Error::Io))
    );
    assert_eq!(
        step(UnitState::Pending, UnitEvent::Cancel),
        Some(UnitState::Failed(Error::Cancelled))
    );
    assert_eq!(
        step(UnitState::Running, UnitEvent::Cancel),
        Some(UnitState::Failed(Error::Cancelled))
    );
    // Terminal states accept no event; a pending unit cannot finish.
    assert_eq!(step(UnitState::Completed, UnitEvent::Start), None);
    assert_eq!(
        step(UnitState::Failed(Error::Io), UnitEvent::Cancel),
        None
    );
    assert_eq!(
        step(UnitState::Pending, UnitEvent::Finish(UnitStatus::Completed)),
        None
    );
}

#[test]
fn aggregate_requires_every_unit_completed() {
    assert!(aggregate_ok(&vec![]));
    assert!(aggregate_ok(&vec![UnitStatus::Completed, UnitStatus::Completed]));
    assert!(!aggregate_ok(&vec![
        UnitStatus::Completed,
        UnitStatus::Failed(Error::Truncated { index: 0 }),
        UnitStatus::Completed,
    ]));
}
