use httpcache::cache::CacheStoreRequest;
use httpcache::http_proxy::cache_writer::{CacheWriter, WritePlan, WriterEvent, WriterStep};
use httpcache::http_proxy::tee_body::{SendOutcome, TeeAction, TeeEvent, TeeState};

fn plan(content_length: Option<u64>, max: u64, require: bool, delay: u64) -> WritePlan {
    WritePlan {
        key: "GET http://a.test/large".to_string(),
        method: "GET".to_string(),
        url: "http://a.test/large".to_string(),
        status: 200,
        headers: vec![("content-type".to_string(), "text/plain".to_string())],
        body_path: ".cache/objects/x".to_string(),
        created_at: 1_000,
        expires_at: 1_300,
        content_length,
        max_object_size_bytes: max,
        require_content_length: require,
        writer_delay_ms: delay,
    }
}

fn chunk(len: u64) -> WriterEvent {
    WriterEvent::Chunk { len, aborted: false }
}

const CLOSED: WriterEvent = WriterEvent::Closed { aborted: false };
const CLEAN: WriterEvent = WriterEvent::Completion(Some(true));

fn run(plan: WritePlan, events: &[WriterEvent]) -> CacheWriter {
    let mut writer = CacheWriter::new(plan);
    for event in events {
        assert!(writer.has_room_for(*event));
        writer.next(*event);
    }
    writer
}

fn stored(writer: &CacheWriter) -> CacheStoreRequest {
    match writer.step() {
        WriterStep::Store { request } => request,
        other => panic!("{:?}", other),
    }
}

fn is_discarded(writer: &CacheWriter, abort: bool) -> bool {
    matches!(writer.step(), WriterStep::Discard { raise_abort } if raise_abort == abort)
}

use WriterEvent::{Done, Failed};

#[test]
fn cache_streams_and_replays() {
    let mut writer = CacheWriter::new(plan(Some(262_144), 1_073_741_824, false, 0));
    assert!(matches!(writer.step(), WriterStep::CreateTemp));
    writer.next(Done);
    for _ in 0..32 {
        assert!(matches!(writer.step(), WriterStep::Receive));
        writer.next(chunk(8192));
        assert!(matches!(writer.step(), WriterStep::Write));
        writer.next(Done);
    }
    assert_eq!(writer.size(), 262_144);
    writer.next(CLOSED);
    assert!(matches!(writer.step(), WriterStep::AwaitCompletion));
    writer.next(CLEAN);
    assert!(matches!(writer.step(), WriterStep::Flush));
    writer.next(Done);
    assert!(matches!(writer.step(), WriterStep::Rename));
    writer.next(Done);
    let request = stored(&writer);
    assert_eq!(request.key, "GET http://a.test/large");
    assert_eq!(request.body_path.as_deref(), Some(".cache/objects/x"));
    assert_eq!(request.body_size, 262_144);
    assert_eq!(request.headers.len(), 1);
    assert_eq!((request.created_at, request.expires_at), (1_000, 1_300));
    writer.next(Done);
    assert!(matches!(writer.step(), WriterStep::Finished));
    writer.next(Failed);
    assert!(matches!(writer.step(), WriterStep::Finished));
}

#[test]
fn a_body_without_a_length_has_to_end_whole() {
    let good = run(plan(None, 0, false, 0), &[Done, chunk(3), Done, CLOSED, CLEAN, Done, Done]);
    assert_eq!(stored(&good).body_size, 3);
    let told = run(
        plan(None, 0, false, 0),
        &[Done, chunk(3), Done, CLOSED, WriterEvent::Completion(Some(false))],
    );
    assert!(is_discarded(&told, false));
    let untold =
        run(plan(None, 0, false, 0), &[Done, chunk(3), Done, CLOSED, WriterEvent::Completion(None)]);
    assert!(is_discarded(&untold, false));
    let demanded = run(plan(None, 0, true, 0), &[Done, chunk(3), Done, CLOSED]);
    assert!(is_discarded(&demanded, false));
}

#[test]
fn a_body_of_the_announced_length_needs_no_word_of_its_end() {
    let writer = run(
        plan(Some(3), 0, true, 0),
        &[Done, chunk(3), Done, CLOSED, WriterEvent::Completion(None), Done, Done],
    );
    assert_eq!(stored(&writer).body_size, 3);
}

#[test]
fn cache_discards_on_body_error() {
    let mut tee = TeeState::new();
    let action = tee.next(TeeEvent::Broken);
    assert_eq!(action, TeeAction { raise_abort: true, close: true, report: Some(false) });

    let mut events = vec![Done];
    for _ in 0..4 {
        events.push(chunk(8192));
        events.push(Done);
    }
    events.push(WriterEvent::Closed { aborted: true });
    let mut writer = run(plan(Some(131_072), 1_073_741_824, true, 0), &events);
    assert!(is_discarded(&writer, false));
    writer.next(Done);
    assert!(matches!(writer.step(), WriterStep::Finished));

    let late = run(
        plan(Some(4), 0, true, 0),
        &[Done, chunk(4), Done, WriterEvent::Chunk { len: 0, aborted: true }],
    );
    assert!(is_discarded(&late, false));
}

#[test]
fn a_body_of_another_length_is_discarded() {
    let short = run(plan(Some(4), 0, true, 0), &[Done, chunk(3), Done, CLOSED, CLEAN]);
    assert!(is_discarded(&short, false));
    let long = run(plan(Some(4), 0, true, 0), &[Done, chunk(5), Done, CLOSED, CLEAN]);
    assert!(is_discarded(&long, false));
}

#[test]
fn a_body_that_grows_too_long_is_given_up() {
    let writer = run(plan(None, 10, false, 0), &[Done, chunk(6), Done, chunk(5)]);
    assert!(is_discarded(&writer, true));
    assert_eq!(writer.size(), 6);
    let writer = run(plan(None, 10, false, 0), &[Done, chunk(6), Done, chunk(u64::MAX)]);
    assert!(is_discarded(&writer, true));
    let writer = run(plan(None, 10, false, 0), &[Done, chunk(6), Done, chunk(4), Done, CLOSED, CLEAN]);
    assert!(matches!(writer.step(), WriterStep::Flush));
    let writer = run(plan(None, 0, false, 0), &[Done, chunk(u64::MAX), Done]);
    assert!(!writer.has_room_for(chunk(1)));
    assert!(writer.has_room_for(chunk(0)));
}

#[test]
fn each_failure_leaves_no_file() {
    let begun = run(plan(Some(1), 0, true, 0), &[Failed]);
    assert!(matches!(begun.step(), WriterStep::Finished));
    let writing = run(plan(Some(1), 0, true, 0), &[Done, chunk(1), Failed]);
    assert!(is_discarded(&writing, true));
    let whole = [Done, chunk(1), Done, CLOSED, CLEAN];
    let mut flushing = run(plan(Some(1), 0, true, 0), &whole);
    flushing.next(Failed);
    assert!(is_discarded(&flushing, false));
    let mut renaming = run(plan(Some(1), 0, true, 0), &whole);
    renaming.next(Done);
    renaming.next(Failed);
    assert!(is_discarded(&renaming, false));
    let mut storing = run(plan(Some(1), 0, true, 0), &whole);
    storing.next(Done);
    storing.next(Done);
    storing.next(Failed);
    assert!(matches!(storing.step(), WriterStep::RemoveFinal));
    storing.next(Done);
    assert!(matches!(storing.step(), WriterStep::Finished));
}

#[test]
fn a_slow_writer_rests() {
    let writer = run(plan(Some(2), 0, true, 20), &[Done, chunk(1), Done]);
    assert!(matches!(writer.step(), WriterStep::Pause { ms: 20 }));
    let writer = run(plan(Some(2), 0, true, 20), &[Done, chunk(1), Done, Done]);
    assert!(matches!(writer.step(), WriterStep::Receive));
}

#[test]
fn cache_disables_on_buffer_pressure() {
    let mut tee = TeeState::new();
    let quiet = TeeAction { raise_abort: false, close: false, report: None };
    assert_eq!(tee.next(TeeEvent::Offered(SendOutcome::Sent)), quiet);
    assert_eq!(
        tee.next(TeeEvent::Offered(SendOutcome::Full)),
        TeeAction { raise_abort: true, close: true, report: None }
    );
    assert!(!tee.open);
    assert_eq!(tee.next(TeeEvent::Offered(SendOutcome::Full)), quiet);
    assert_eq!(
        tee.next(TeeEvent::Ended),
        TeeAction { raise_abort: false, close: true, report: None }
    );
    assert_eq!(tee.next(TeeEvent::Dropped), quiet);

    let mut tee = TeeState::new();
    assert_eq!(
        tee.next(TeeEvent::Offered(SendOutcome::Closed)),
        TeeAction { raise_abort: true, close: true, report: None }
    );
}

#[test]
fn the_end_of_a_body_is_told_once() {
    let mut tee = TeeState::new();
    assert_eq!(tee.next(TeeEvent::Ended).report, Some(true));
    assert_eq!(tee.next(TeeEvent::Ended).report, None);
    assert_eq!(tee.next(TeeEvent::Dropped).report, None);

    let mut tee = TeeState::new();
    assert_eq!(
        tee.next(TeeEvent::Dropped),
        TeeAction { raise_abort: false, close: true, report: Some(false) }
    );
}

#[test]
fn a_body_is_kept_byte_for_byte() {
    let parts: Vec<&[u8]> = vec![b"he", b"", b"llo \xff", b"world"];
    let mut writer = CacheWriter::new(plan(Some(12), 0, true, 1));
    let mut temp: Option<Vec<u8>> = None;
    let mut kept: Option<Vec<u8>> = None;
    let mut next: usize = 0;
    loop {
        let event = match writer.step() {
            WriterStep::CreateTemp => {
                temp = Some(Vec::new());
                Done
            }
            WriterStep::Receive if next < parts.len() => {
                next += 1;
                chunk(parts[next - 1].len() as u64)
            }
            WriterStep::Receive => CLOSED,
            WriterStep::Write => {
                temp.as_mut().unwrap().extend_from_slice(parts[next - 1]);
                Done
            }
            WriterStep::Pause { .. } | WriterStep::Flush => Done,
            WriterStep::AwaitCompletion => CLEAN,
            WriterStep::Rename => {
                kept = temp.take();
                Done
            }
            WriterStep::Store { request } => {
                assert_eq!(request.body_size, 12);
                break;
            }
            other => panic!("{:?}", other),
        };
        writer.next(event);
    }
    assert_eq!(kept.unwrap(), b"hello \xffworld");
    assert!(temp.is_none());
}
