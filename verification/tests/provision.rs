use kara::provision::discovery::{
    file_name, join, model_path, pick_file_name, resolve_destination, vosk_model_url,
};
use kara::provision::range::{ByteRange, PartialRangeIter, ProvisionError};
use kara::provision::transfer::{
    begin, status_accepted, Plan, Progress, RangedTransfer, StreamedTransfer,
};
use url::Url;

fn header_texts(mut ranges: PartialRangeIter) -> Vec<String> {
    let mut out = Vec::new();
    while let Some(value) = ranges.next() {
        out.push(value.to_str().expect("visible text").to_string());
    }
    out
}

#[test]
fn valid_remote_url() -> Result<(), Box<dyn std::error::Error>> {
    let url = vosk_model_url();
    assert!(Url::parse(&url).is_ok());
    let url = Url::parse(&url)?;
    assert!(Url::has_host(&url));
    Ok(())
}

#[test]
fn default_model_url_is_the_small_english_model() {
    assert_eq!(
        vosk_model_url(),
        "https://alphacephei.com/vosk/models/vosk-model-small-en-us-0.15.zip"
    );
}

#[test]
fn zero_buffer_size_is_refused() {
    assert_eq!(PartialRangeIter::new(0, 10, 0).err(), Some(ProvisionError::InvalidBufferSize));
    assert!(PartialRangeIter::new(0, 10, 1).is_ok());
}

#[test]
fn ranges_cover_the_file_in_chunks() {
    let ranges = PartialRangeIter::new(0, 24, 10).unwrap();
    assert_eq!(header_texts(ranges), vec!["bytes=0-9", "bytes=10-19", "bytes=20-24"]);
}

#[test]
fn ranges_resume_where_the_file_ends() {
    let ranges = PartialRangeIter::new(15, 24, 10).unwrap();
    assert_eq!(header_texts(ranges), vec!["bytes=15-24"]);
    let ranges = PartialRangeIter::new(14, 24, 10).unwrap();
    assert_eq!(header_texts(ranges), vec!["bytes=14-23", "bytes=24-24"]);
}

#[test]
fn a_complete_file_asks_for_nothing() {
    let mut ranges = PartialRangeIter::new(25, 24, 10).unwrap();
    assert!(ranges.next().is_none());
    assert!(ranges.next_range().is_none());
}

#[test]
fn ranges_up_to_the_largest_offset_end() {
    let mut ranges = PartialRangeIter::new(u64::MAX - 3, u64::MAX, 3).unwrap();
    assert_eq!(
        ranges.next_range(),
        Some(ByteRange { first: u64::MAX - 3, last: u64::MAX - 1 })
    );
    assert_eq!(ranges.next_range(), Some(ByteRange { first: u64::MAX, last: u64::MAX }));
    assert_eq!(ranges.next_range(), None);
    assert_eq!(ranges.next_range(), None);
}

#[test]
fn range_header_text() {
    let range = ByteRange { first: 1024, last: 18446744073709551615 };
    assert_eq!(range.text(), "bytes=1024-18446744073709551615");
    assert_eq!(range.header().to_str().unwrap(), "bytes=1024-18446744073709551615");
    assert_eq!(ByteRange { first: 0, last: 0 }.text(), "bytes=0-0");
}

#[test]
fn resumed_transfer_asks_for_the_missing_bytes_only() {
    // 1000 bytes remote, 250 on disk, chunks of 10: 75 requests.
    let total: u64 = 1000;
    let have: u64 = 250;
    let mut transfer = match begin(Some(b"1000"), true, have) {
        Plan::Ranged(transfer) => transfer,
        other => panic!("expected a transfer by ranges, got {:?}", other),
    };
    let mut requests = 0;
    let mut size = have;
    let mut last_percent = 0;
    let mut first = None;
    let mut last = None;
    while let Some(header) = transfer.next_request() {
        let text = header.to_str().unwrap().to_string();
        if first.is_none() {
            first = Some(text.clone());
        }
        last = Some(text);
        requests += 1;
        let outcome = transfer.record(206);
        assert!(outcome.append);
        size += 10;
        assert_eq!(outcome.progress.downloaded(), size);
        assert_eq!(outcome.progress.total(), total);
        assert!(outcome.progress.percent() >= last_percent);
        last_percent = outcome.progress.percent();
    }
    assert_eq!(requests, 75);
    assert_eq!(size, total);
    assert_eq!(last_percent, 100);
    assert_eq!(first.as_deref(), Some("bytes=250-259"));
    assert_eq!(last.as_deref(), Some("bytes=990-999"));
}

#[test]
fn resumed_transfer_rounds_the_number_of_requests_up() {
    // 1005 bytes remote, chunks of 10, 3 on disk: ceil(1002 / 10) = 101 requests.
    let mut transfer = RangedTransfer::plan(1005, 3);
    let mut requests = 0;
    let mut last = String::new();
    while let Some(header) = transfer.next_request() {
        last = header.to_str().unwrap().to_string();
        requests += 1;
    }
    assert_eq!(requests, 101);
    assert_eq!(last, "bytes=1003-1004");
}

#[test]
fn unexpected_status_is_skipped_and_not_counted() {
    let mut transfer = RangedTransfer::plan(1000, 0);
    assert!(transfer.next_request().is_some());
    let outcome = transfer.record(503);
    assert!(!outcome.append);
    assert_eq!(outcome.progress.downloaded(), 0);
    assert_eq!(outcome.progress.percent(), 0);

    assert_eq!(transfer.next_request().unwrap().to_str().unwrap(), "bytes=10-19");
    let outcome = transfer.record(206);
    assert!(outcome.append);
    assert_eq!(outcome.progress.downloaded(), 10);
    assert_eq!(outcome.progress.percent(), 1);

    assert!(status_accepted(200));
    assert!(status_accepted(206));
    assert!(!status_accepted(404));
    assert!(!status_accepted(416));
}

#[test]
fn an_answer_is_counted_once() {
    let mut transfer = RangedTransfer::plan(1000, 100);
    assert!(transfer.next_request().is_some());
    assert_eq!(transfer.record(200).progress.downloaded(), 110);
    assert_eq!(transfer.record(200).progress.downloaded(), 110);
}

#[test]
fn the_last_range_counts_with_its_own_length() {
    let mut transfer = RangedTransfer::plan(1005, 1000);
    assert_eq!(transfer.next_request().unwrap().to_str().unwrap(), "bytes=1000-1004");
    let outcome = transfer.record(206);
    assert_eq!(outcome.progress.downloaded(), 1005);
    assert_eq!(outcome.progress.percent(), 100);
    assert!(transfer.next_request().is_none());
}

#[test]
fn small_files_are_fetched_byte_by_byte() {
    let mut transfer = RangedTransfer::plan(99, 0);
    let mut requests = 0;
    let mut last = String::new();
    while let Some(header) = transfer.next_request() {
        last = header.to_str().unwrap().to_string();
        requests += 1;
        assert_eq!(transfer.record(206).progress.downloaded(), requests);
    }
    assert_eq!(requests, 99);
    assert_eq!(last, "bytes=98-98");

    let mut transfer = match begin(Some(b"42"), true, 40) {
        Plan::Ranged(transfer) => transfer,
        other => panic!("expected a transfer by ranges, got {:?}", other),
    };
    assert_eq!(transfer.next_request().unwrap().to_str().unwrap(), "bytes=40-40");
    assert_eq!(transfer.next_request().unwrap().to_str().unwrap(), "bytes=41-41");
    assert!(transfer.next_request().is_none());
}

#[test]
fn a_file_without_bytes_asks_for_nothing() {
    let mut transfer = RangedTransfer::plan(0, 0);
    assert!(transfer.next_request().is_none());
    assert_eq!(transfer.record(200).progress.percent(), 100);
    let mut transfer = RangedTransfer::plan(0, 17);
    assert!(transfer.next_request().is_none());
}

#[test]
fn a_file_that_is_complete_asks_for_nothing() {
    let mut transfer = RangedTransfer::plan(1000, 1000);
    assert!(transfer.next_request().is_none());
    let mut transfer = RangedTransfer::plan(1000, 4000);
    assert!(transfer.next_request().is_none());
}

#[test]
fn plan_without_ranges_or_length_is_streamed() {
    assert!(matches!(begin(Some(b"5000"), false, 0), Plan::Streamed));
    assert!(matches!(begin(Some(b"not a number"), false, 0), Plan::Streamed));
    assert!(matches!(begin(Some(b""), false, 9), Plan::Streamed));
    assert!(matches!(begin(None, true, 0), Plan::Streamed));
    assert!(matches!(begin(None, false, 17), Plan::Streamed));
}

#[test]
fn plan_with_a_bad_length_is_refused() {
    for bad in [&b"12a"[..], b"", b"-5", b" 12", b"+", b"18446744073709551616", b"1e3"] {
        assert!(matches!(
            begin(Some(bad), true, 0),
            Plan::Refused(ProvisionError::InvalidContentLength)
        ));
    }
    assert!(matches!(begin(Some(b"+1000"), true, 0), Plan::Ranged(_)));
    assert!(matches!(begin(Some(b"18446744073709551615"), true, 0), Plan::Ranged(_)));
}

#[test]
fn streamed_transfer_reports_rising_progress_up_to_100() {
    let chunks: [u64; 5] = [100, 300, 0, 250, 350];
    let mut transfer = StreamedTransfer::open(Some(1000));
    let mut seen = Vec::new();
    for len in chunks {
        seen.push(transfer.record(len).expect("the length is known").percent());
    }
    assert_eq!(seen, vec![10, 40, 40, 65, 100]);
}

#[test]
fn streamed_transfer_never_counts_more_than_the_body() {
    let mut transfer = StreamedTransfer::open(Some(10));
    assert_eq!(transfer.record(7).unwrap().downloaded(), 7);
    assert_eq!(transfer.record(7).unwrap().downloaded(), 10);
    assert_eq!(transfer.record(u64::MAX).unwrap().downloaded(), 10);
    assert_eq!(transfer.record(1).unwrap().percent(), 100);
}

#[test]
fn streamed_transfer_without_a_length_reports_no_progress() {
    let mut transfer = StreamedTransfer::open(None);
    assert!(transfer.record(10).is_none());
    assert!(transfer.record(0).is_none());
    assert!(transfer.record(u64::MAX).is_none());
    assert!(transfer.record(5).is_none());
}

#[test]
fn progress_percent_is_rounded_down() {
    assert_eq!(Progress::new(0, 3).percent(), 0);
    assert_eq!(Progress::new(1, 3).percent(), 33);
    assert_eq!(Progress::new(2, 3).percent(), 66);
    assert_eq!(Progress::new(3, 3).percent(), 100);
    assert_eq!(Progress::new(9, 3).percent(), 100);
    assert_eq!(Progress::new(0, 0).percent(), 100);
    assert_eq!(Progress::new(u64::MAX - 1, u64::MAX).percent(), 99);
    assert_eq!(Progress::new(u64::MAX, u64::MAX).percent(), 100);
}

#[test]
fn file_name_is_the_last_segment_of_the_address() {
    let url = Url::parse("https://alphacephei.com/vosk/models/vosk-model-small-en-us-0.15.zip")
        .unwrap();
    assert_eq!(file_name(&url), "vosk-model-small-en-us-0.15.zip");
    let url = Url::parse("https://example.com/a/b/model.zip?token=1#part").unwrap();
    assert_eq!(file_name(&url), "model.zip");
}

#[test]
fn file_name_defaults_to_the_placeholder() {
    assert_eq!(file_name(&Url::parse("https://example.com").unwrap()), "tmp.zip");
    assert_eq!(file_name(&Url::parse("https://example.com/models/").unwrap()), "tmp.zip");
    assert_eq!(file_name(&Url::parse("data:text/plain,hello").unwrap()), "tmp.zip");
    assert_eq!(pick_file_name(None), "tmp.zip");
    assert_eq!(pick_file_name(Some(Vec::new())), "tmp.zip");
    assert_eq!(pick_file_name(Some(vec![String::from("a"), String::new()])), "tmp.zip");
    assert_eq!(pick_file_name(Some(vec![String::new(), String::from("b.zip")])), "b.zip");
}

#[test]
fn destination_falls_back_when_none_is_configured() {
    assert_eq!(resolve_destination("", "/data/kara/asr"), "/data/kara/asr");
    assert_eq!(resolve_destination("/opt/models", "/data/kara/asr"), "/opt/models");
}

#[test]
fn model_path_lies_below_the_data_directory() {
    assert_eq!(model_path(Some("/home/u/.local/share")), "/home/u/.local/share/kara/asr");
    assert_eq!(model_path(Some("/home/u/.local/share/")), "/home/u/.local/share/kara/asr");
    assert_eq!(model_path(Some("")), "kara/asr");
    assert_eq!(model_path(None), "kara/asr");
}

#[test]
fn provisioning_errors_say_what_went_wrong() {
    assert_eq!(
        ProvisionError::InvalidBufferSize.to_string(),
        "invalid buffer_size, give a value greater than zero."
    );
    assert_eq!(ProvisionError::InvalidContentLength.to_string(), "invalid content length");
}

#[test]
fn paths_are_joined_with_one_separator() {
    assert_eq!(join("/a", "b/c"), "/a/b/c");
    assert_eq!(join("/a/", "b"), "/a/b");
    assert_eq!(join("", "b"), "b");
    assert_eq!(join("/", "b"), "/b");
    assert_eq!(join("a", ""), "a/");
}
