use kv_upload::{plan_batches, Action, Event, Limits, Phase, Record, Uploader};
use kv_upload::{PAIRS_MAX_COUNT, UPLOAD_MAX_SIZE};

fn rec(key: &str, value: &str) -> Record {
    Record::new(key.as_bytes().to_vec(), value.as_bytes().to_vec())
}

fn size(r: &Record) -> usize {
    r.key.len() + r.value.len()
}

/// Runs an upload against a fake store whose write number `fail_at`
/// (counting from 1) fails. Returns whether the upload succeeded and the
/// batches the store was asked to write.
fn run(records: Vec<Record>, limits: Limits, fail_at: Option<usize>) -> (bool, Vec<Vec<Record>>) {
    let mut up = Uploader::new(records, limits);
    let mut calls: Vec<Vec<Record>> = Vec::new();
    let mut action = up.step(Event::Start);
    loop {
        match action {
            Action::Write(batch) => {
                calls.push(batch);
                if fail_at == Some(calls.len()) {
                    action = up.step(Event::Failed);
                } else {
                    action = up.step(Event::Written);
                }
            }
            Action::Finish => return (true, calls),
            Action::Abort => return (false, calls),
        }
    }
}

fn keys(batches: &[Vec<Record>]) -> Vec<Vec<u8>> {
    let mut all: Vec<Vec<u8>> = batches.iter().flatten().map(|r| r.key.clone()).collect();
    all.sort();
    all
}

#[test]
fn empty_input_writes_nothing() {
    let limits = Limits { max_count: 3, max_bytes: 10 };
    let (ok, calls) = run(Vec::new(), limits, None);
    assert!(ok);
    assert_eq!(calls.len(), 0);
    assert!(plan_batches(Vec::new(), limits).is_empty());
    let (ok, calls) = run(Vec::new(), Limits { max_count: 0, max_bytes: 0 }, Some(1));
    assert!(ok);
    assert_eq!(calls.len(), 0);
}

#[test]
fn count_limit_exact_boundary() {
    let records = vec![rec("A", ""), rec("B", ""), rec("C", ""), rec("D", "")];
    let limits = Limits { max_count: 2, max_bytes: 1000 };
    let (ok, calls) = run(records, limits, None);
    assert!(ok);
    assert_eq!(calls.len(), 2);
    assert_eq!(calls[0].len(), 2);
    assert_eq!(calls[1].len(), 2);
    // Records are taken from the end of the input.
    assert_eq!(calls[0][0].key, b"D".to_vec());
    assert_eq!(calls[0][1].key, b"C".to_vec());
    assert_eq!(calls[1][0].key, b"B".to_vec());
    assert_eq!(calls[1][1].key, b"A".to_vec());
}

#[test]
fn byte_limit_boundary() {
    let records = vec![rec("a", "bb"), rec("c", "dd"), rec("e", "ff"), rec("g", "hh"), rec("i", "jj")];
    let limits = Limits { max_count: 100, max_bytes: 10 };
    let batches = plan_batches(records, limits);
    assert_eq!(batches.len(), 2);
    assert_eq!(batches[0].len(), 3);
    assert_eq!(batches[1].len(), 2);
    for b in &batches {
        assert!(b.len() <= 3);
        assert!(b.iter().map(size).sum::<usize>() <= 10);
    }
}

#[test]
fn failure_on_second_batch_aborts() {
    let records = vec![rec("a", ""), rec("b", ""), rec("c", ""), rec("d", ""), rec("e", ""), rec("f", "")];
    let limits = Limits { max_count: 2, max_bytes: 100 };
    assert_eq!(plan_batches(records, limits).len(), 3);
    let records = vec![rec("a", ""), rec("b", ""), rec("c", ""), rec("d", ""), rec("e", ""), rec("f", "")];
    let (ok, calls) = run(records, limits, Some(2));
    assert!(!ok);
    assert_eq!(calls.len(), 2);
}

#[test]
fn aborted_upload_stays_aborted() {
    let records = vec![rec("a", ""), rec("b", ""), rec("c", "")];
    let mut up = Uploader::new(records, Limits { max_count: 1, max_bytes: 100 });
    assert!(matches!(up.step(Event::Start), Action::Write(_)));
    assert!(matches!(up.step(Event::Failed), Action::Abort));
    assert_eq!(up.phase(), Phase::Aborted);
    assert!(matches!(up.step(Event::Written), Action::Abort));
    assert!(matches!(up.step(Event::Start), Action::Abort));
    assert_eq!(up.written(), 0);
}

#[test]
fn out_of_order_events_abort() {
    let mut up = Uploader::new(vec![rec("a", "")], Limits { max_count: 1, max_bytes: 100 });
    assert!(matches!(up.step(Event::Written), Action::Abort));
    assert_eq!(up.phase(), Phase::Aborted);
    let mut up = Uploader::new(vec![rec("a", "")], Limits { max_count: 1, max_bytes: 100 });
    assert!(matches!(up.step(Event::Start), Action::Write(_)));
    assert!(matches!(up.step(Event::Start), Action::Abort));
}

#[test]
fn finished_upload_stays_finished() {
    let mut up = Uploader::new(vec![rec("a", "b")], Limits { max_count: 5, max_bytes: 100 });
    assert!(matches!(up.step(Event::Start), Action::Write(_)));
    assert!(matches!(up.step(Event::Written), Action::Finish));
    assert_eq!(up.phase(), Phase::Finished);
    assert_eq!(up.written(), 1);
    assert!(matches!(up.step(Event::Written), Action::Finish));
    assert_eq!(up.written(), 1);
}

#[test]
fn oversized_record_goes_alone() {
    let records = vec![rec("a", "b"), rec("big", "0123456789"), rec("c", "d")];
    let limits = Limits { max_count: 10, max_bytes: 5 };
    let (ok, calls) = run(records, limits, None);
    assert!(ok);
    assert_eq!(calls.len(), 3);
    assert_eq!(calls[0].len(), 1);
    assert_eq!(calls[1].len(), 1);
    assert_eq!(calls[1][0].key, b"big".to_vec());
    assert_eq!(calls[2].len(), 1);
}

#[test]
fn oversized_first_record_is_not_preceded_by_empty_write() {
    let records = vec![rec("x", "y"), rec("huge", "0123456789")];
    let limits = Limits { max_count: 10, max_bytes: 4 };
    let (ok, calls) = run(records, limits, None);
    assert!(ok);
    assert_eq!(calls.len(), 2);
    assert!(calls.iter().all(|b| !b.is_empty()));
    assert_eq!(calls[0][0].key, b"huge".to_vec());
}

#[test]
fn zero_count_limit_writes_one_record_per_batch() {
    let records = vec![rec("a", ""), rec("b", ""), rec("c", "")];
    let batches = plan_batches(records, Limits { max_count: 0, max_bytes: 100 });
    assert_eq!(batches.len(), 3);
    assert!(batches.iter().all(|b| b.len() == 1));
}

#[test]
fn every_record_is_written_once() {
    let mut records = Vec::new();
    for i in 0..50u32 {
        let v = "x".repeat((i % 7) as usize);
        records.push(rec(&format!("k{:02}", i), &v));
    }
    records.push(rec("k07", "dup"));
    let mut expected: Vec<Vec<u8>> = records.iter().map(|r| r.key.clone()).collect();
    expected.sort();
    let limits = Limits { max_count: 4, max_bytes: 12 };
    let (ok, calls) = run(records, limits, None);
    assert!(ok);
    assert_eq!(keys(&calls), expected);
    for b in &calls {
        assert!(!b.is_empty());
        if b.len() >= 2 {
            assert!(b.len() <= 4);
            assert!(b.iter().map(size).sum::<usize>() <= 12);
        }
    }
}

#[test]
fn greedy_closes_only_when_next_record_does_not_fit() {
    // Taken from the end: 4, 4 fit in 10; 3 does not (11); then 3, 2, 1 fit (6).
    let records = vec![rec("a", ""), rec("bb", ""), rec("ccc", ""), rec("dddd", ""), rec("eeee", "")];
    let batches = plan_batches(records, Limits { max_count: 10, max_bytes: 10 });
    assert_eq!(batches.len(), 2);
    assert_eq!(batches[0].len(), 2);
    assert_eq!(batches[1].len(), 3);
}

#[test]
fn written_counts_acknowledged_records() {
    let records = vec![rec("a", ""), rec("b", ""), rec("c", "")];
    let mut up = Uploader::new(records, Limits { max_count: 2, max_bytes: 100 });
    assert_eq!(up.total(), 3);
    assert!(up.needs_progress());
    assert!(matches!(up.step(Event::Start), Action::Write(_)));
    assert_eq!(up.written(), 0);
    assert!(matches!(up.step(Event::Written), Action::Write(_)));
    assert_eq!(up.written(), 2);
    assert!(matches!(up.step(Event::Written), Action::Finish));
    assert_eq!(up.written(), 3);
}

#[test]
fn progress_only_for_large_uploads() {
    let up = Uploader::new(vec![rec("a", ""), rec("b", "")], Limits { max_count: 2, max_bytes: 100 });
    assert!(!up.needs_progress());
}

#[test]
fn standard_limits() {
    let l = Limits::standard();
    assert_eq!(l.max_count, 5000);
    assert_eq!(l.max_bytes, 50 * 1024 * 1024);
    assert_eq!(PAIRS_MAX_COUNT, 5000);
    assert_eq!(UPLOAD_MAX_SIZE, 52428800);
}

#[test]
fn record_settings_are_carried_through() {
    let mut r = rec("k", "v");
    r.expiration = Some(100);
    r.expiration_ttl = Some(60);
    r.base64 = Some(true);
    let batches = plan_batches(vec![r], Limits::standard());
    assert_eq!(batches.len(), 1);
    assert_eq!(batches[0][0].expiration, Some(100));
    assert_eq!(batches[0][0].expiration_ttl, Some(60));
    assert_eq!(batches[0][0].base64, Some(true));
}
