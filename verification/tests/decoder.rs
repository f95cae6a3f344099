use crossbeam_channel::unbounded;
use kara::transcription::{
    construction_failure, deliver, emission, query_for, settle, transcribe_outcome,
    ConstructionStep, DecodingOutcome, Query, TranscriptionError,
};

#[test]
fn failed_chunk_sends_nothing() {
    assert!(emission(DecodingOutcome::Failed, "ignored", Some("ignored")).is_none());
    let (tx, rx) = unbounded();
    assert!(transcribe_outcome(DecodingOutcome::Failed, "x", Some("y"), &tx).is_ok());
    assert!(rx.try_recv().is_err());
}

#[test]
fn running_sends_the_partial_guess() {
    let (tx, rx) = unbounded();
    assert!(transcribe_outcome(DecodingOutcome::Running, "turn on", None, &tx).is_ok());
    let result = rx.try_recv().expect("one result");
    assert_eq!(result.transcription(), "turn on");
    assert!(!result.finalised());
    assert!(rx.try_recv().is_err());
}

#[test]
fn running_sends_an_empty_guess_too() {
    let (tx, rx) = unbounded();
    assert!(transcribe_outcome(DecodingOutcome::Running, "", None, &tx).is_ok());
    let result = rx.try_recv().expect("one result");
    assert_eq!(result.transcription(), "");
    assert!(!result.finalised());
}

#[test]
fn finalized_sends_the_transcript() {
    let (tx, rx) = unbounded();
    assert!(transcribe_outcome(DecodingOutcome::Finalized, "tu", Some("turn on the light"), &tx)
        .is_ok());
    let result = rx.try_recv().expect("one result");
    assert_eq!(result.transcription(), "turn on the light");
    assert!(result.finalised());
    assert!(rx.try_recv().is_err());
}

#[test]
fn finalized_without_a_transcript_sends_nothing() {
    let (tx, rx) = unbounded();
    assert!(transcribe_outcome(DecodingOutcome::Finalized, "tu", None, &tx).is_ok());
    assert!(transcribe_outcome(DecodingOutcome::Finalized, "tu", Some(""), &tx).is_ok());
    assert!(rx.try_recv().is_err());
}

#[test]
fn sending_without_a_receiver_is_a_send_error() {
    let (tx, rx) = unbounded();
    drop(rx);
    let failed = transcribe_outcome(DecodingOutcome::Running, "hello", None, &tx);
    match failed {
        Err(TranscriptionError::SendError(detail)) => {
            assert_eq!(detail, "sending on a disconnected channel");
        }
        other => panic!("expected a send error, got {:?}", other),
    }
    assert!(transcribe_outcome(DecodingOutcome::Failed, "hello", None, &tx).is_ok());
    assert!(deliver(None, &tx).is_ok());
}

#[test]
fn the_decoder_is_asked_according_to_its_answer() {
    assert_eq!(query_for(DecodingOutcome::Running), Query::Partial);
    assert_eq!(query_for(DecodingOutcome::Finalized), Query::Transcript);
    assert_eq!(query_for(DecodingOutcome::Failed), Query::Nothing);
}

#[test]
fn error_messages() {
    assert_eq!(
        TranscriptionError::Unknown(String::from("lock poisoned")).to_string(),
        "An error occurred in speech recognition lock poisoned"
    );
    assert_eq!(
        TranscriptionError::LocalModel(String::from("/models/en")).to_string(),
        "Could not create the model from specified path /models/en"
    );
    assert_eq!(
        TranscriptionError::SendError(String::from("anything")).to_string(),
        "No valid receivers"
    );
}

#[test]
fn a_result_that_came_back_means_that_nobody_listens() {
    let (tx, rx) = unbounded();
    assert!(settle(tx.send(emission(DecodingOutcome::Running, "a", None).unwrap())).is_ok());
    drop(rx);
    let failed = settle(tx.send(emission(DecodingOutcome::Running, "b", None).unwrap()));
    assert!(matches!(
        failed,
        Err(TranscriptionError::SendError(detail)) if detail == "sending on a disconnected channel"
    ));
}

#[test]
fn each_step_of_making_an_adapter_fails_in_its_own_way() {
    assert!(matches!(
        construction_failure(ConstructionStep::Silence, "/models/en"),
        TranscriptionError::Unknown(detail) if detail == "could not hijack scoped stderr output"
    ));
    assert!(matches!(
        construction_failure(ConstructionStep::LoadModel, "/models/en"),
        TranscriptionError::LocalModel(path) if path == "/models/en"
    ));
    assert!(matches!(
        construction_failure(ConstructionStep::BuildRecogniser, "/models/en"),
        TranscriptionError::Unknown(detail) if detail == "Could not create recogniser from model"
    ));
}
