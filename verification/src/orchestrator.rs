//! How the chain of backends comes about: what is tried for each configured source,
//! in which order the backends stand, and how a backend that became ready later is
//! taken into the running chain.
//!
//! Loading a model, fetching and unpacking an archive are the caller's work. The
//! caller reports how each went and is told what to do next.

use crate::provision::discovery::resolve_destination;
use crate::provision::transfer::Progress;
use crate::sources::{source_name, Dispatch, Source, SpeechRecognisers};
use crate::transcription::Transcibe;
use crate::transcription::TranscriptionResult;
use crossbeam_channel::{Receiver, Sender, TryRecvError};
use vstd::prelude::*;
use vstd::string::StringExecFns;

verus! {

/// The receiving half of a channel of `crossbeam_channel`. Nothing is known of what
/// the channel holds.
#[verifier::external_type_specification]
#[verifier::external_body]
#[verifier::reject_recursive_types(T)]
pub struct ExReceiver<T>(Receiver<T>);

/// Why a look into a channel brought nothing.
#[derive(Debug, Clone, Copy, PartialEq, Eq)]
pub enum Vacancy {
    /// Nothing is in the channel at the moment.
    Empty,
    /// Nothing is in the channel and no sender is left.
    Disconnected,
}

/// Where the provisioning of one configured source stands.
#[derive(Debug, Clone, Copy, PartialEq, Eq)]
pub enum SourceState {
    /// Nothing has been tried yet.
    Resolving,
    /// A backend is being made from the configured model path.
    TryLocal,
    /// The backend is part of the chain.
    Active,
    /// A backend is being made from the default model directory.
    TryDefaultLocal,
    /// The model archive is being fetched.
    Downloading,
    /// The archive is being unpacked and the model loaded from it.
    Extracting,
    /// A backend is ready and on its way to the running chain.
    PendingSwap,
    /// The source is left out.
    Dropped,
    /// Provisioning has failed; nothing more is tried in this run.
    Failed,
}

/// What the caller reports.
#[derive(Debug, Clone, Copy, PartialEq, Eq)]
pub enum SourceEvent {
    /// The source is taken up.
    Start,
    /// A backend was made.
    Loaded,
    /// No backend could be made.
    LoadFailed,
    /// The archive is on disk.
    Downloaded,
    /// Fetching or unpacking the archive failed.
    ProvisionFailed,
}

/// What the caller does next.
#[derive(Debug)]
pub enum SourceAction {
    /// Make a backend from the model at this path.
    Load { model_path: String },
    /// Put the backend into the chain, at the front if it is the primary one.
    Enlist { primary: bool },
    /// Fetch the archive at `url` into `destination`.
    Download { url: String, destination: String },
    /// Unpack the archive into `destination` and make a backend from what is there.
    Unpack { destination: String },
    /// Send the backend to the running chain.
    Swap,
    /// Give up on a source that is configured but cannot be served.
    Unsupported,
    /// Nothing.
    Nothing,
}

/// An action as a mathematical value.
pub enum Step {
    Load { model_path: Seq<char> },
    Enlist { primary: bool },
    Download { url: Seq<char>, destination: Seq<char> },
    Unpack { destination: Seq<char> },
    Swap,
    Unsupported,
    Nothing,
}

impl View for SourceAction {
    type V = Step;

    open spec fn view(&self) -> Step {
        match self {
            SourceAction::Load { model_path } => Step::Load { model_path: model_path@ },
            SourceAction::Enlist { primary } => Step::Enlist { primary: *primary },
            SourceAction::Download { url, destination } => Step::Download {
                url: url@,
                destination: destination@,
            },
            SourceAction::Unpack { destination } => Step::Unpack { destination: destination@ },
            SourceAction::Swap => Step::Swap,
            SourceAction::Unsupported => Step::Unsupported,
            SourceAction::Nothing => Step::Nothing,
        }
    }
}

/// The directory that a model is fetched and unpacked into: the configured path, or
/// `default_dir` where none is configured.
pub open spec fn destination_of(model_path: Seq<char>, default_dir: Seq<char>) -> Seq<char> {
    if model_path.len() == 0 {
        default_dir
    } else {
        model_path
    }
}

/// The state that follows `state` on `event`, and what is done on the way.
///
/// The offline source is first loaded from its configured path. If that works it is
/// part of the chain. If it fails and the source is not the default one, it is left
/// out. The default source is tried again from the default model directory
/// `default_dir`, whatever path was configured. If that fails too, the model is fetched
/// and unpacked into the configured path, or into `default_dir` where none is
/// configured, and loaded from there. A backend that comes about in one of these ways
/// is swapped into the running chain. An event that the state does not wait for
/// changes nothing.
///
/// The hosted source cannot be served: without credentials it is left out, with
/// credentials it is reported as unsupported.
pub open spec fn transition(
    source: Source,
    is_default: bool,
    default_dir: Seq<char>,
    state: SourceState,
    event: SourceEvent,
) -> (SourceState, Step) {
    match source {
        Source::Kara { model_path, fallback_url } => match (state, event) {
            (SourceState::Resolving, SourceEvent::Start) => (
                SourceState::TryLocal,
                Step::Load { model_path: model_path@ },
            ),
            (SourceState::TryLocal, SourceEvent::Loaded) => (
                SourceState::Active,
                Step::Enlist { primary: is_default },
            ),
            (SourceState::TryLocal, SourceEvent::LoadFailed) => if is_default {
                (
                    SourceState::TryDefaultLocal,
                    Step::Load { model_path: default_dir },
                )
            } else {
                (SourceState::Dropped, Step::Nothing)
            },
            (SourceState::TryDefaultLocal, SourceEvent::Loaded) => (
                SourceState::PendingSwap,
                Step::Swap,
            ),
            (SourceState::TryDefaultLocal, SourceEvent::LoadFailed) => (
                SourceState::Downloading,
                Step::Download {
                    url: fallback_url@,
                    destination: destination_of(model_path@, default_dir),
                },
            ),
            (SourceState::Downloading, SourceEvent::Downloaded) => (
                SourceState::Extracting,
                Step::Unpack { destination: destination_of(model_path@, default_dir) },
            ),
            (SourceState::Downloading, SourceEvent::ProvisionFailed) => (
                SourceState::Failed,
                Step::Nothing,
            ),
            (SourceState::Extracting, SourceEvent::Loaded) => (
                SourceState::PendingSwap,
                Step::Swap,
            ),
            (SourceState::Extracting, SourceEvent::LoadFailed) => (
                SourceState::Failed,
                Step::Nothing,
            ),
            (SourceState::Extracting, SourceEvent::ProvisionFailed) => (
                SourceState::Failed,
                Step::Nothing,
            ),
            _ => (state, Step::Nothing),
        },
        Source::IBMWatson { api_key, service_url } => match (state, event) {
            (SourceState::Resolving, SourceEvent::Start) => if api_key@.len() == 0
                && service_url@.len() == 0 {
                (SourceState::Dropped, Step::Nothing)
            } else {
                (SourceState::Dropped, Step::Unsupported)
            },
            _ => (state, Step::Nothing),
        },
    }
}

/// True when `source` is the one that the configuration names as the default.
pub fn is_default(source: &Source, default_source: &str) -> (r: bool)
    ensures
        r == (source_name(*source) == default_source@),
{
    let name = source.to_string();
    let wanted = String::from_str(default_source);
    name == wanted
}

/// Moves the provisioning of `source` on by one event.
pub fn advance(
    source: &Source,
    is_default: bool,
    default_dir: &str,
    state: SourceState,
    event: SourceEvent,
) -> (r: (SourceState, SourceAction))
    ensures
        (r.0, r.1@) == transition(*source, is_default, default_dir@, state, event),
{
    match source {
        Source::Kara { model_path, fallback_url } => match (state, event) {
            (SourceState::Resolving, SourceEvent::Start) => (
                SourceState::TryLocal,
                SourceAction::Load { model_path: model_path.clone() },
            ),
            (SourceState::TryLocal, SourceEvent::Loaded) => (
                SourceState::Active,
                SourceAction::Enlist { primary: is_default },
            ),
            (SourceState::TryLocal, SourceEvent::LoadFailed) => {
                if is_default {
                    (
                        SourceState::TryDefaultLocal,
                        SourceAction::Load { model_path: String::from_str(default_dir) },
                    )
                } else {
                    (SourceState::Dropped, SourceAction::Nothing)
                }
            },
            (SourceState::TryDefaultLocal, SourceEvent::Loaded) => (
                SourceState::PendingSwap,
                SourceAction::Swap,
            ),
            (SourceState::TryDefaultLocal, SourceEvent::LoadFailed) => (
                SourceState::Downloading,
                SourceAction::Download {
                    url: fallback_url.clone(),
                    destination: resolve_destination(model_path.as_str(), default_dir),
                },
            ),
            (SourceState::Downloading, SourceEvent::Downloaded) => (
                SourceState::Extracting,
                SourceAction::Unpack {
                    destination: resolve_destination(model_path.as_str(), default_dir),
                },
            ),
            (SourceState::Downloading, SourceEvent::ProvisionFailed) => (
                SourceState::Failed,
                SourceAction::Nothing,
            ),
            (SourceState::Extracting, SourceEvent::Loaded) => (
                SourceState::PendingSwap,
                SourceAction::Swap,
            ),
            (SourceState::Extracting, SourceEvent::LoadFailed) => (
                SourceState::Failed,
                SourceAction::Nothing,
            ),
            (SourceState::Extracting, SourceEvent::ProvisionFailed) => (
                SourceState::Failed,
                SourceAction::Nothing,
            ),
            _ => (state, SourceAction::Nothing),
        },
        Source::IBMWatson { api_key, service_url } => match (state, event) {
            (SourceState::Resolving, SourceEvent::Start) => {
                if api_key.as_str().is_empty() && service_url.as_str().is_empty() {
                    (SourceState::Dropped, SourceAction::Nothing)
                } else {
                    (SourceState::Dropped, SourceAction::Unsupported)
                }
            },
            _ => (state, SourceAction::Nothing),
        },
    }
}

/// True of the states in which nothing more happens to a source.
pub open spec fn settled(state: SourceState) -> bool {
    state == SourceState::Active || state == SourceState::PendingSwap || state
        == SourceState::Dropped || state == SourceState::Failed
}

/// Once a source is part of the chain, on its way to it, left out or has failed, no
/// event moves it and nothing more is done for it: a backend is enlisted or swapped in
/// once.
pub proof fn lemma_settled_is_final(
    source: Source,
    is_default: bool,
    default_dir: Seq<char>,
    state: SourceState,
    event: SourceEvent,
)
    requires
        settled(state),
    ensures
        transition(source, is_default, default_dir, state, event) == (state, Step::Nothing),
{
}

/// A source that is not the default one is loaded from its configured path or left
/// out: nothing is ever fetched, unpacked or swapped in for it.
pub proof fn lemma_only_default_is_provisioned(
    source: Source,
    default_dir: Seq<char>,
    state: SourceState,
    event: SourceEvent,
)
    requires
        state == SourceState::Resolving || state == SourceState::TryLocal || state
            == SourceState::Active || state == SourceState::Dropped,
    ensures
        ({
            let next = transition(source, false, default_dir, state, event);
            &&& next.0 == SourceState::Resolving || next.0 == SourceState::TryLocal || next.0
                == SourceState::Active || next.0 == SourceState::Dropped
            &&& !(next.1 is Download)
            &&& !(next.1 is Unpack)
            &&& !(next.1 is Swap)
        }),
{
}

/// Puts `backend` into the chain: at the front if it is the primary one, else at the
/// back.
pub fn enlist<B: Transcibe>(chain: &mut SpeechRecognisers<B>, backend: B, primary: bool)
    ensures
        final(chain)@ == arranged(old(chain)@, seq![(backend, primary)]),
{
    let ghost entries = seq![(backend, primary)];
    assert(entries.drop_last() =~= Seq::<(B, bool)>::empty());
    assert(arranged(chain@, entries.drop_last()) == chain@);
    assert(entries.last() == (backend, primary));
    if primary {
        chain.add_primary(backend);
    } else {
        chain.add(backend);
    }
}

/// The chain that comes of `chain` when the backends of `entries` are enlisted one
/// after the other, each marked as primary or not.
pub open spec fn arranged<B>(chain: Seq<B>, entries: Seq<(B, bool)>) -> Seq<B>
    decreases entries.len(),
{
    if entries.len() == 0 {
        chain
    } else {
        let before = arranged(chain, entries.drop_last());
        if entries.last().1 {
            seq![entries.last().0] + before
        } else {
            before.push(entries.last().0)
        }
    }
}

/// The backends of `entries`, in order.
pub open spec fn backends_of<B>(entries: Seq<(B, bool)>) -> Seq<B> {
    Seq::new(entries.len(), |i: int| entries[i].0)
}

/// When none of the backends is the primary one, they stand in the chain in the order
/// in which they were configured.
pub proof fn lemma_fallbacks_keep_order<B>(entries: Seq<(B, bool)>)
    requires
        forall|i: int| 0 <= i < entries.len() ==> !(#[trigger] entries[i]).1,
    ensures
        arranged(Seq::empty(), entries) == backends_of(entries),
    decreases entries.len(),
{
    if entries.len() > 0 {
        lemma_fallbacks_keep_order(entries.drop_last());
        assert(backends_of(entries.drop_last()).push(entries.last().0) =~= backends_of(entries));
    } else {
        assert(backends_of(entries) =~= Seq::<B>::empty());
    }
}

/// When exactly one of the configured backends is the primary one, it stands at the
/// front of the chain, wherever it was configured, and the others follow in the order
/// in which they were configured.
pub proof fn lemma_default_leads<B>(entries: Seq<(B, bool)>, k: int)
    requires
        0 <= k < entries.len(),
        forall|i: int| 0 <= i < entries.len() ==> ((#[trigger] entries[i]).1 <==> i == k),
    ensures
        arranged(Seq::empty(), entries) == seq![entries[k].0] + backends_of(entries).remove(k),
    decreases entries.len(),
{
    let n = entries.len() as int;
    let front = entries.drop_last();
    let all = backends_of(entries);
    if k == n - 1 {
        lemma_fallbacks_keep_order(front);
        assert(backends_of(front) =~= all.remove(k));
    } else {
        lemma_default_leads(front, k);
        assert(front[k] == entries[k]);
        assert((seq![entries[k].0] + backends_of(front).remove(k)).push(entries.last().0) =~= seq![
            entries[k].0,
        ] + all.remove(k));
    }
}

/// `Receiver::try_recv`: a message that is in the channel, or the reason why there is
/// none. It never waits.
#[verifier::external_body]
fn try_receive<B>(inbox: &Receiver<B>) -> (r: Result<B, Vacancy>) {
    match inbox.try_recv() {
        Ok(message) => Ok(message),
        Err(TryRecvError::Empty) => Err(Vacancy::Empty),
        Err(TryRecvError::Disconnected) => Err(Vacancy::Disconnected),
    }
}

/// The chain that comes of `chain` when `arrived` is taken in: a backend that arrived
/// stands at the front.
pub open spec fn swapped_in<B>(chain: Seq<B>, arrived: Option<B>) -> Seq<B> {
    match arrived {
        Some(backend) => seq![backend] + chain,
        None => chain,
    }
}

/// Takes a backend that became ready into the running chain, as the primary one.
/// Returns whether there was one.
pub fn accept_swap<B: Transcibe>(chain: &mut SpeechRecognisers<B>, arrived: Option<B>) -> (r:
    bool)
    ensures
        r == arrived is Some,
        final(chain)@ == swapped_in(old(chain)@, arrived),
{
    match arrived {
        Some(backend) => {
            chain.add_primary(backend);
            true
        },
        None => false,
    }
}

/// The backend that a look into the channel brought, if any. An empty channel brings
/// none, whether or not a sender is left.
pub fn arrival<B>(answer: Result<B, Vacancy>) -> (r: Option<B>)
    ensures
        r == match answer {
            Ok(backend) => Some(backend),
            Err(_) => None,
        },
{
    match answer {
        Ok(backend) => Some(backend),
        Err(Vacancy::Empty) => None,
        Err(Vacancy::Disconnected) => None,
    }
}

/// Looks, without waiting, whether a backend has become ready, and takes it into the
/// running chain as the primary one. Returns whether there was one; the backends that
/// were in the chain keep their order behind it.
pub fn poll_swap<B: Transcibe>(chain: &mut SpeechRecognisers<B>, inbox: &Receiver<B>) -> (r:
    bool)
    ensures
        !r ==> final(chain)@ == old(chain)@,
        r ==> final(chain)@.len() == old(chain)@.len() + 1 && final(chain)@.drop_first() == old(
            chain,
        )@,
{
    let arrived = arrival(try_receive(inbox));
    let taken = accept_swap(chain, arrived);
    assert(taken ==> chain@.drop_first() =~= old(chain)@);
    taken
}

/// What was done for one chunk of audio.
#[derive(Debug)]
pub struct ChunkReport {
    /// Whether a backend was taken into the chain before the chunk was offered.
    pub swapped: bool,
    /// How the round went; `None` when the chain was empty and the chunk was dropped.
    pub round: Option<Dispatch>,
}

/// Handles one chunk of audio: a backend that arrived is taken in as the primary one,
/// then the chunk is offered to the chain, if it holds a backend.
pub fn process_chunk<B: Transcibe>(
    chain: &mut SpeechRecognisers<B>,
    arrived: Option<B>,
    chunk: &[i16],
    result_sender: &Sender<TranscriptionResult>,
) -> (r: ChunkReport)
    ensures
        r.swapped == arrived is Some,
        final(chain)@ == swapped_in(old(chain)@, arrived),
        r.round is Some <==> final(chain)@.len() > 0,
        r.round is Some ==> r.round->Some_0.follows(final(chain)@, chunk@),
{
    let swapped = accept_swap(chain, arrived);
    let round = if chain.valid() {
        Some(chain.dispatch(chunk, result_sender))
    } else {
        None
    };
    ChunkReport { swapped, round }
}

/// Handles one chunk of audio in the running program: looks, without waiting, whether
/// a backend has become ready, takes it in as the primary one, and offers the chunk to
/// the chain, if it holds a backend. The backends that were in the chain keep their
/// order.
pub fn hear<B: Transcibe>(
    chain: &mut SpeechRecognisers<B>,
    inbox: &Receiver<B>,
    chunk: &[i16],
    result_sender: &Sender<TranscriptionResult>,
) -> (r: ChunkReport)
    ensures
        !r.swapped ==> final(chain)@ == old(chain)@,
        r.swapped ==> final(chain)@.len() == old(chain)@.len() + 1 && final(chain)@.drop_first()
            == old(chain)@,
        r.round is Some <==> final(chain)@.len() > 0,
        r.round is Some ==> r.round->Some_0.follows(final(chain)@, chunk@),
{
    let arrived = arrival(try_receive(inbox));
    let report = process_chunk(chain, arrived, chunk, result_sender);
    assert(report.swapped ==> chain@.drop_first() =~= old(chain)@);
    report
}

/// What the user interface is told.
#[derive(Debug)]
pub enum KaraEvent {
    /// The program ends.
    Close,
    /// Speech is being read: the current guess.
    ReadingSpeech(String),
    /// An utterance is over: its transcript.
    FinalisedSpeech(String),
    /// The model download has come this far.
    UpdateProgressBar(Progress),
}

/// The event that tells the user interface of `result`.
pub fn speech_event(result: &TranscriptionResult) -> (r: KaraEvent)
    ensures
        result@.finalised ==> (r matches KaraEvent::FinalisedSpeech(text) && text@
            == result@.text),
        !result@.finalised ==> (r matches KaraEvent::ReadingSpeech(text) && text@
            == result@.text),
{
    if result.finalised() {
        KaraEvent::FinalisedSpeech(String::from_str(result.transcription()))
    } else {
        KaraEvent::ReadingSpeech(String::from_str(result.transcription()))
    }
}

} // verus!
