use ps3_redump_downloader::numbers::parse_u64;
use ps3_redump_downloader::transfer::{
    range_header_value, total_size_from_headers, ByteRange, TransferAction, TransferError,
    TransferEvent, TransferState,
};

#[test]
fn size_from_content_range() {
    assert_eq!(total_size_from_headers(Some("bytes 0-1/10000"), Some("2")), Some(10000));
}

#[test]
fn size_falls_back_to_content_length() {
    assert_eq!(total_size_from_headers(Some("bytes 0-1/*"), Some("10000")), Some(10000));
    assert_eq!(total_size_from_headers(None, Some("42")), Some(42));
    assert_eq!(total_size_from_headers(Some("garbage"), None), None);
    assert_eq!(total_size_from_headers(None, Some("12a")), None);
    assert_eq!(total_size_from_headers(None, None), None);
}

#[test]
fn parse_u64_like_std() {
    for s in ["0", "+7", "18446744073709551615", "18446744073709551616", "", "+", "-1", " 1", "007"] {
        assert_eq!(parse_u64(s), s.parse::<u64>().ok(), "input {:?}", s);
    }
}

#[test]
fn range_header_text() {
    assert_eq!(range_header_value(4000, 9999), "bytes=4000-9999");
    assert_eq!(range_header_value(0, 1), "bytes=0-1");
}

#[test]
fn resume_requests_only_missing_bytes() {
    let mut s = TransferState::new(Some(10000), 5, 3);
    let a = s.step(TransferEvent::Ready { on_disk: 4000 });
    assert_eq!(a, TransferAction::Request { write_at: 4000, range: Some(ByteRange { first: 4000, last: 9999 }) });
    assert_eq!(s.step(TransferEvent::Completed), TransferAction::Finished);
}

#[test]
fn complete_file_needs_no_request() {
    let mut s = TransferState::new(Some(10000), 5, 3);
    assert_eq!(s.step(TransferEvent::Ready { on_disk: 10000 }), TransferAction::Finished);
    assert_eq!(s.step(TransferEvent::Ready { on_disk: 12000 }), TransferAction::Finished);
    assert_eq!(s.attempts, 0);
}

#[test]
fn unknown_size_fetches_whole_resource() {
    let mut s = TransferState::new(None, 5, 3);
    assert_eq!(s.step(TransferEvent::Ready { on_disk: 77 }), TransferAction::Request { write_at: 0, range: None });
}

#[test]
fn bounded_retries_all_failing() {
    let mut s = TransferState::new(Some(10000), 3, 7);
    let mut actions = Vec::new();
    loop {
        let a = s.step(TransferEvent::Ready { on_disk: 100 });
        actions.push(a);
        if !matches!(a, TransferAction::Request { .. }) {
            break;
        }
        let b = s.step(TransferEvent::Failed);
        actions.push(b);
        if !matches!(b, TransferAction::Sleep { .. }) {
            break;
        }
    }
    let req = TransferAction::Request { write_at: 100, range: Some(ByteRange { first: 100, last: 9999 }) };
    let sleep = TransferAction::Sleep { secs: 7 };
    assert_eq!(actions, vec![req, sleep, req, sleep, req, TransferAction::Fail(TransferError::TransferFailed { attempts: 3 })]);
}

#[test]
fn zero_total_counts_as_failed_attempt() {
    let mut s = TransferState::new(Some(0), 2, 1);
    assert_eq!(s.step(TransferEvent::Ready { on_disk: 0 }), TransferAction::Sleep { secs: 1 });
    assert_eq!(
        s.step(TransferEvent::Ready { on_disk: 0 }),
        TransferAction::Fail(TransferError::TransferFailed { attempts: 2 })
    );
}

#[test]
fn retry_resumes_from_current_offset() {
    let mut s = TransferState::new(Some(10000), 5, 1);
    s.step(TransferEvent::Ready { on_disk: 0 });
    assert_eq!(s.step(TransferEvent::Failed), TransferAction::Sleep { secs: 1 });
    let a = s.step(TransferEvent::Ready { on_disk: 4000 });
    assert_eq!(a, TransferAction::Request { write_at: 4000, range: Some(ByteRange { first: 4000, last: 9999 }) });
}
