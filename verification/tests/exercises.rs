use hyprpilot::exercises::async_lifecycle::{Phase, Runtime, Service};
use hyprpilot::exercises::cancel_safe_flush::{BatchWriter, MemorySink, SinkError};
use hyprpilot::exercises::msrv_features::{label, peek_label, Label};
use hyprpilot::exercises::store_api::{Store, StoreError};
use hyprpilot::exercises::store_downstream::{existing_consumer, DownstreamStore};
use hyprpilot::exercises::unsafe_ffi::{handle_outcome, parse_outcome, ParserError};
use hyprpilot::exercises::wire_core::{default_label, label_is_initialized, DefaultLabel, EncodeError, Encoder};
use hyprpilot::exercises::wire_downstream::configured;

#[test]
fn exposes_default_label() {
    let mut cell = DefaultLabel::new();
    assert!(!label_is_initialized(&cell));
    assert_eq!(default_label(&mut cell), "wire");
    assert!(label_is_initialized(&cell));
}

#[test]
fn the_default_label_is_the_same_on_every_call() {
    let mut cell = DefaultLabel::new();
    assert_eq!(default_label(&mut cell), "wire");
    assert_eq!(default_label(&mut cell), "wire");
}

#[test]
fn old_implementor_and_trait_object_still_work() {
    let mut encoder = configured();
    assert_eq!(encoder.encode(b"data"), b"data");
    assert_eq!(encoder.flush(), Ok::<(), EncodeError>(()));
}

#[test]
fn peek_does_not_initialize_the_label() {
    assert_eq!(peek_label(&Label::new()), None);
}

#[test]
fn a_forced_label_is_seen_by_peek() {
    let mut cell = Label::new();
    assert_eq!(peek_label(&cell), None);
    assert_eq!(label(&mut cell), "fixture");
    assert_eq!(peek_label(&cell).as_deref(), Some("fixture"));
}

#[test]
fn existing_downstream_implementation_and_trait_object_still_work() {
    assert!(existing_consumer().is_ok());
}

#[test]
fn the_downstream_store_keeps_its_writes_in_order() {
    let mut store = DownstreamStore::new();
    assert_eq!(store.write("a", b"1"), Ok::<(), StoreError>(()));
    assert_eq!(store.write("b", b"2"), Ok::<(), StoreError>(()));
    assert_eq!(store.len(), 2);
    assert_eq!(existing_consumer().unwrap().len(), 1);
    assert_eq!(StoreError("full".to_owned()).message(), "full");
}

#[test]
fn joining_after_stop_completes_the_managed_operation() {
    let runtime = Runtime;
    let mut service = Service::new();
    assert_eq!(service.phase(), Phase::Idle);

    let task = service.start(&runtime);
    assert_eq!(service.phase(), Phase::Running);

    service.request_stop();
    runtime.join(&mut service, task);

    assert_eq!(service.phase(), Phase::Stopped);
    assert_eq!(service.completed_operations(), 1);
}

#[test]
fn rejected_record_remains_first_for_retry() {
    let sink = MemorySink::new(true);
    let mut writer = BatchWriter::new(sink);
    writer.submit(b"retry".to_vec());

    assert_eq!(writer.flush(), Err(SinkError::Rejected));
    assert_eq!(writer.pending(), 1);
    assert!(writer.sink().committed().is_empty());

    assert_eq!(writer.flush(), Ok(()));
    assert_eq!(writer.sink().committed()[..], [b"retry".to_vec()]);
}

#[test]
fn a_flush_never_reoffers_a_record_the_sink_took() {
    let mut writer = BatchWriter::new(MemorySink::new(false));
    writer.submit(b"first".to_vec());
    writer.submit(b"second".to_vec());
    assert_eq!(writer.flush(), Ok(()));
    assert_eq!(writer.pending(), 0);
    assert_eq!(writer.flush(), Ok(()));
    assert_eq!(writer.sink().committed()[..], [b"first".to_vec(), b"second".to_vec()]);
}

#[test]
fn a_refusal_keeps_the_refused_record_and_those_behind_it() {
    let mut refusing = BatchWriter::new(MemorySink::new(true));
    refusing.submit(b"two".to_vec());
    refusing.submit(b"three".to_vec());
    assert_eq!(refusing.flush(), Err(SinkError::Rejected));
    assert_eq!(refusing.pending(), 2);
    assert_eq!(refusing.flush(), Ok(()));
    assert_eq!(refusing.sink().committed()[..], [b"two".to_vec(), b"three".to_vec()]);
}

#[test]
fn null_construction_is_an_error() {
    assert_eq!(handle_outcome(true), Err(ParserError::NullHandle));
    assert_eq!(handle_outcome(false), Ok(()));
}

#[test]
fn successful_parse_returns_initialized_bytes() {
    assert_eq!(parse_outcome(0, 3, b"yes".to_vec()), Ok(b"yes".to_vec()));
    assert_eq!(parse_outcome(0, 2, b"yes".to_vec()), Ok(b"ye".to_vec()));
}

#[test]
fn partial_output_on_error_is_discarded() {
    assert_eq!(parse_outcome(17, 2, b"no\0".to_vec()), Err(ParserError::ForeignStatus(17)));
}

#[test]
fn reported_length_larger_than_capacity_is_rejected() {
    assert_eq!(
        parse_outcome(0, 4, vec![0, 0, 0]),
        Err(ParserError::InvalidWritten { written: 4, capacity: 3 })
    );
}
