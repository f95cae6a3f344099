use std::sync::atomic::{AtomicUsize, Ordering};
use std::sync::Arc;

use crossbeam_channel::{unbounded, Sender};
use kara::orchestrator::{
    accept_swap, advance, arrival, enlist, hear, is_default, poll_swap, process_chunk,
    speech_event, KaraEvent, SourceAction, SourceEvent, SourceState, Vacancy,
};
use kara::sources::{Source, SpeechRecognisers};
use kara::transcription::{
    emission, transcribe_outcome, DecodingOutcome, Transcibe, TranscriptionError,
    TranscriptionResult,
};

struct Named {
    name: &'static str,
    calls: Arc<AtomicUsize>,
}

impl Transcibe for Named {
    fn source(&self) -> &str {
        self.name
    }

    fn transcribe(
        &self,
        _stream: &[i16],
        result_sender: &Sender<TranscriptionResult>,
    ) -> Result<(), TranscriptionError> {
        self.calls.fetch_add(1, Ordering::SeqCst);
        transcribe_outcome(DecodingOutcome::Running, self.name, None, result_sender)
    }
}

fn named(name: &'static str) -> Named {
    Named { name, calls: Arc::new(AtomicUsize::new(0)) }
}

fn kara(model_path: &str) -> Source {
    Source::Kara {
        model_path: String::from(model_path),
        fallback_url: String::from("https://example.com/model.zip"),
    }
}

/// Fails on every chunk, so that a round walks the whole chain.
struct Refusing {
    name: &'static str,
}

impl Transcibe for Refusing {
    fn source(&self) -> &str {
        self.name
    }

    fn transcribe(
        &self,
        _stream: &[i16],
        _result_sender: &Sender<TranscriptionResult>,
    ) -> Result<(), TranscriptionError> {
        Err(TranscriptionError::Unknown(String::from("refused")))
    }
}

/// The names of the backends of `chain`, front to back.
fn order(chain: &SpeechRecognisers<Refusing>) -> Vec<String> {
    let (tx, _rx) = unbounded();
    let round = chain.dispatch(&[0], &tx);
    assert!(!round.handled);
    round.fallbacks.into_iter().map(|fallback| fallback.source).collect()
}

#[test]
fn source_that_loads_becomes_active() {
    let source = kara("/models/en");
    let (state, action) =
        advance(&source, true, "/data/kara/asr", SourceState::Resolving, SourceEvent::Start);
    assert_eq!(state, SourceState::TryLocal);
    assert!(matches!(action, SourceAction::Load { model_path } if model_path == "/models/en"));

    let (state, action) = advance(&source, true, "/data/kara/asr", state, SourceEvent::Loaded);
    assert_eq!(state, SourceState::Active);
    assert!(matches!(action, SourceAction::Enlist { primary: true }));

    let (state, action) = advance(&source, false, "/d", SourceState::TryLocal, SourceEvent::Loaded);
    assert_eq!(state, SourceState::Active);
    assert!(matches!(action, SourceAction::Enlist { primary: false }));
}

#[test]
fn default_source_is_provisioned_when_it_does_not_load() {
    let source = kara("");
    let dir = "/data/kara/asr";
    let (state, _) = advance(&source, true, dir, SourceState::Resolving, SourceEvent::Start);
    let (state, action) = advance(&source, true, dir, state, SourceEvent::LoadFailed);
    assert_eq!(state, SourceState::TryDefaultLocal);
    assert!(matches!(action, SourceAction::Load { model_path } if model_path == dir));

    let (state, action) = advance(&source, true, dir, state, SourceEvent::LoadFailed);
    assert_eq!(state, SourceState::Downloading);
    assert!(matches!(
        action,
        SourceAction::Download { url, destination }
            if url == "https://example.com/model.zip" && destination == dir
    ));

    let (state, action) = advance(&source, true, dir, state, SourceEvent::Downloaded);
    assert_eq!(state, SourceState::Extracting);
    assert!(matches!(action, SourceAction::Unpack { destination } if destination == dir));

    let (state, action) = advance(&source, true, dir, state, SourceEvent::Loaded);
    assert_eq!(state, SourceState::PendingSwap);
    assert!(matches!(action, SourceAction::Swap));

    let (state, action) = advance(&source, true, dir, state, SourceEvent::Loaded);
    assert_eq!(state, SourceState::PendingSwap);
    assert!(matches!(action, SourceAction::Nothing));
}

#[test]
fn default_source_found_at_the_default_location_is_swapped_in() {
    let source = kara("/models/missing");
    let (state, action) =
        advance(&source, true, "/data", SourceState::TryLocal, SourceEvent::LoadFailed);
    assert_eq!(state, SourceState::TryDefaultLocal);
    assert!(matches!(action, SourceAction::Load { model_path } if model_path == "/data"));
    let (state, action) = advance(&source, true, "/data", state, SourceEvent::Loaded);
    assert_eq!(state, SourceState::PendingSwap);
    assert!(matches!(action, SourceAction::Swap));
}

#[test]
fn model_is_fetched_into_the_configured_path() {
    let source = kara("/models/missing");
    let (state, action) =
        advance(&source, true, "/data", SourceState::TryDefaultLocal, SourceEvent::LoadFailed);
    assert_eq!(state, SourceState::Downloading);
    assert!(matches!(
        action,
        SourceAction::Download { url, destination }
            if url == "https://example.com/model.zip" && destination == "/models/missing"
    ));
    let (state, action) = advance(&source, true, "/data", state, SourceEvent::Downloaded);
    assert_eq!(state, SourceState::Extracting);
    assert!(matches!(
        action,
        SourceAction::Unpack { destination } if destination == "/models/missing"
    ));
}

#[test]
fn other_sources_are_dropped_when_they_do_not_load() {
    let source = kara("/models/missing");
    let (state, action) =
        advance(&source, false, "/data", SourceState::TryLocal, SourceEvent::LoadFailed);
    assert_eq!(state, SourceState::Dropped);
    assert!(matches!(action, SourceAction::Nothing));
    let (state, action) = advance(&source, false, "/data", state, SourceEvent::Start);
    assert_eq!(state, SourceState::Dropped);
    assert!(matches!(action, SourceAction::Nothing));
}

#[test]
fn failed_provisioning_is_final() {
    let source = kara("");
    for from in [SourceState::Downloading, SourceState::Extracting] {
        let (state, action) = advance(&source, true, "/d", from, SourceEvent::ProvisionFailed);
        assert_eq!(state, SourceState::Failed);
        assert!(matches!(action, SourceAction::Nothing));
    }
    let (state, _) =
        advance(&source, true, "/d", SourceState::Extracting, SourceEvent::LoadFailed);
    assert_eq!(state, SourceState::Failed);
    let (state, action) = advance(&source, true, "/d", state, SourceEvent::Downloaded);
    assert_eq!(state, SourceState::Failed);
    assert!(matches!(action, SourceAction::Nothing));
}

#[test]
fn events_out_of_turn_change_nothing() {
    let source = kara("/m");
    let (state, action) =
        advance(&source, true, "/d", SourceState::Resolving, SourceEvent::Downloaded);
    assert_eq!(state, SourceState::Resolving);
    assert!(matches!(action, SourceAction::Nothing));
    let (state, action) =
        advance(&source, true, "/d", SourceState::TryLocal, SourceEvent::ProvisionFailed);
    assert_eq!(state, SourceState::TryLocal);
    assert!(matches!(action, SourceAction::Nothing));
}

#[test]
fn hosted_source_cannot_be_served() {
    let bare = Source::IBMWatson { api_key: String::new(), service_url: String::new() };
    let (state, action) = advance(&bare, false, "/d", SourceState::Resolving, SourceEvent::Start);
    assert_eq!(state, SourceState::Dropped);
    assert!(matches!(action, SourceAction::Nothing));

    let keyed = Source::IBMWatson { api_key: String::from("k"), service_url: String::new() };
    let (state, action) = advance(&keyed, true, "/d", SourceState::Resolving, SourceEvent::Start);
    assert_eq!(state, SourceState::Dropped);
    assert!(matches!(action, SourceAction::Unsupported));
}

#[test]
fn default_source_is_told_by_its_name() {
    assert!(is_default(&kara("/m"), "kara"));
    assert!(!is_default(&kara("/m"), "ibm-watson"));
    assert!(!is_default(&kara("/m"), "Kara"));
    let watson = Source::IBMWatson { api_key: String::new(), service_url: String::new() };
    assert!(is_default(&watson, "ibm-watson"));
    assert_eq!(Source::default().to_string(), "kara");
    assert_eq!(watson.to_string(), "ibm-watson");
}

#[test]
fn default_backend_leads_wherever_it_was_configured() {
    let mut chain: SpeechRecognisers<Refusing> = SpeechRecognisers::new();
    enlist(&mut chain, Refusing { name: "first" }, false);
    enlist(&mut chain, Refusing { name: "second" }, false);
    enlist(&mut chain, Refusing { name: "default" }, true);
    enlist(&mut chain, Refusing { name: "last" }, false);
    assert_eq!(chain.len(), 4);
    assert_eq!(order(&chain), vec!["default", "first", "second", "last"]);
}

#[test]
fn fallbacks_keep_the_order_of_the_configuration() {
    let mut chain: SpeechRecognisers<Refusing> = SpeechRecognisers::new();
    enlist(&mut chain, Refusing { name: "a" }, false);
    enlist(&mut chain, Refusing { name: "b" }, false);
    enlist(&mut chain, Refusing { name: "c" }, false);
    assert_eq!(order(&chain), vec!["a", "b", "c"]);
}

#[test]
fn arrived_backend_is_swapped_in_as_primary() {
    let (tx, rx) = unbounded();
    let mut chain: SpeechRecognisers<Named> = SpeechRecognisers::new();
    chain.add(named("old"));
    assert!(!accept_swap(&mut chain, None));
    assert_eq!(chain.len(), 1);
    assert!(accept_swap(&mut chain, Some(named("fresh"))));
    assert_eq!(chain.len(), 2);
    assert!(chain.speech_to_text(&[1], &tx).is_ok());
    assert_eq!(rx.try_recv().unwrap().transcription(), "fresh");
}

#[test]
fn swap_channel_is_polled_without_waiting() {
    let (results, heard) = unbounded();
    let (ready, inbox) = unbounded();
    let mut chain: SpeechRecognisers<Named> = SpeechRecognisers::new();

    assert!(!poll_swap(&mut chain, &inbox));
    assert!(!chain.valid());

    ready.send(named("downloaded")).unwrap();
    assert!(poll_swap(&mut chain, &inbox));
    assert!(chain.valid());
    assert!(!poll_swap(&mut chain, &inbox));
    assert_eq!(chain.len(), 1);

    drop(ready);
    assert!(!poll_swap(&mut chain, &inbox));
    assert!(chain.speech_to_text(&[5], &results).is_ok());
    assert_eq!(heard.try_recv().unwrap().transcription(), "downloaded");
}

#[test]
fn chunk_is_dropped_while_the_chain_is_empty() {
    let (tx, rx) = unbounded();
    let mut chain: SpeechRecognisers<Named> = SpeechRecognisers::new();
    let report = process_chunk(&mut chain, None, &[1, 2, 3], &tx);
    assert!(!report.swapped);
    assert!(report.round.is_none());
    assert!(rx.try_recv().is_err());
}

#[test]
fn chunk_goes_to_the_backend_that_just_arrived() {
    let (tx, rx) = unbounded();
    let mut chain: SpeechRecognisers<Named> = SpeechRecognisers::new();
    chain.add(named("old"));
    let report = process_chunk(&mut chain, Some(named("fresh")), &[1, 2, 3], &tx);
    assert!(report.swapped);
    let round = report.round.expect("the chain holds backends");
    assert!(round.handled);
    assert!(round.fallbacks.is_empty());
    assert_eq!(rx.try_recv().unwrap().transcription(), "fresh");
    assert!(rx.try_recv().is_err());
}

#[test]
fn results_become_events_for_the_user_interface() {
    let partial = emission(DecodingOutcome::Running, "turn", None).unwrap();
    assert!(matches!(speech_event(&partial), KaraEvent::ReadingSpeech(text) if text == "turn"));
    let done = emission(DecodingOutcome::Finalized, "", Some("turn left")).unwrap();
    assert!(matches!(speech_event(&done), KaraEvent::FinalisedSpeech(text) if text == "turn left"));
}

#[test]
fn an_empty_channel_brings_no_backend() {
    assert!(arrival::<Named>(Err(Vacancy::Empty)).is_none());
    assert!(arrival::<Named>(Err(Vacancy::Disconnected)).is_none());
    assert_eq!(arrival(Ok(named("ready"))).map(|backend| backend.name), Some("ready"));
}

#[test]
fn a_backend_that_became_ready_hears_the_next_chunk() {
    let (results, heard) = unbounded();
    let (ready, inbox) = unbounded();
    let mut chain: SpeechRecognisers<Named> = SpeechRecognisers::new();

    let report = hear(&mut chain, &inbox, &[1, 2], &results);
    assert!(!report.swapped);
    assert!(report.round.is_none());
    assert!(heard.try_recv().is_err());

    ready.send(named("downloaded")).unwrap();
    let report = hear(&mut chain, &inbox, &[3, 4], &results);
    assert!(report.swapped);
    assert!(report.round.expect("a round").handled);
    assert_eq!(heard.try_recv().unwrap().transcription(), "downloaded");

    drop(ready);
    let report = hear(&mut chain, &inbox, &[5, 6], &results);
    assert!(!report.swapped);
    assert!(report.round.expect("a round").handled);
    assert_eq!(chain.len(), 1);
}
