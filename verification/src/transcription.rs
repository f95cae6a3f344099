//! What a recognition backend produces, and what a streaming decoder's answer to one
//! chunk of audio turns into.

use crossbeam_channel::{SendError, Sender};
use vstd::prelude::*;
use vstd::string::StringExecFns;

verus! {

/// The sending half of a channel of `crossbeam_channel`. Nothing is known of what
/// the channel holds or of who listens.
#[verifier::external_type_specification]
#[verifier::external_body]
#[verifier::reject_recursive_types(T)]
pub struct ExSender<T>(Sender<T>);

/// The error of `Sender::send`, which holds the message that could not be sent.
#[verifier::external_type_specification]
#[verifier::external_body]
#[verifier::reject_recursive_types(T)]
pub struct ExSendError<T>(SendError<T>);

/// A transcript as a mathematical value.
pub struct Transcript {
    pub text: Seq<char>,
    pub finalised: bool,
}

/// One piece of recognised speech. While an utterance goes on the text is the current
/// guess and `finalised` is false; once the utterance is over the text is its
/// transcript and `finalised` is true.
#[derive(Debug)]
pub struct TranscriptionResult {
    text: String,
    finalised: bool,
}

impl View for TranscriptionResult {
    type V = Transcript;

    closed spec fn view(&self) -> Transcript {
        Transcript { text: self.text@, finalised: self.finalised }
    }
}

impl TranscriptionResult {
    pub(crate) fn new(text: &str, finalised: bool) -> (r: Self)
        ensures
            r@ == (Transcript { text: text@, finalised }),
    {
        TranscriptionResult { text: text.to_owned(), finalised }
    }

    /// The recognised text.
    pub fn transcription(&self) -> (r: &str)
        ensures
            r@ == self@.text,
    {
        self.text.as_str()
    }

    /// Whether the utterance is complete.
    pub fn finalised(&self) -> (r: bool)
        ensures
            r == self@.finalised,
    {
        self.finalised
    }
}

/// Why a backend could not be made or could not deliver.
#[derive(Debug)]
pub enum TranscriptionError {
    /// A fault inside the backend that has no class of its own.
    Unknown(String),
    /// No model could be loaded from the given path.
    LocalModel(String),
    /// Nobody listens on the channel that results are sent on.
    SendError(String),
}

/// The message of an error, as it is shown to a reader.
pub open spec fn message_of(error: TranscriptionError) -> Seq<char> {
    match error {
        TranscriptionError::Unknown(detail) => "An error occurred in speech recognition "@
            + detail@,
        TranscriptionError::LocalModel(path) => "Could not create the model from specified path "@
            + path@,
        TranscriptionError::SendError(_) => "No valid receivers"@,
    }
}

impl TranscriptionError {
    /// The message of the error.
    pub fn to_string(&self) -> (r: String)
        ensures
            r@ == message_of(*self),
    {
        match self {
            TranscriptionError::Unknown(detail) => String::from_str(
                "An error occurred in speech recognition ",
            ).concat(detail.as_str()),
            TranscriptionError::LocalModel(path) => String::from_str(
                "Could not create the model from specified path ",
            ).concat(path.as_str()),
            TranscriptionError::SendError(_) => String::from_str("No valid receivers"),
        }
    }
}

/// What a streaming decoder says of one chunk of audio.
#[derive(Debug, Clone, Copy, PartialEq, Eq)]
pub enum DecodingOutcome {
    /// The utterance goes on; a partial guess can be had.
    Running,
    /// The utterance is over; its transcript can be had, and the decoder starts anew.
    Finalized,
    /// The chunk was turned down; the decoder is as it was.
    Failed,
}

/// A recognition backend: it takes a chunk of mono audio and sends what it recognised.
///
/// A backend may promise how it answers a chunk. A backend that promises nothing,
/// which is the usual case, may answer either way.
pub trait Transcibe: Send {
    /// True when the backend promises to take a chunk of these samples.
    open spec fn serves(&self, stream: Seq<i16>) -> bool {
        false
    }

    /// True when the backend promises to fail on a chunk of these samples.
    open spec fn refuses(&self, stream: Seq<i16>) -> bool {
        false
    }

    /// The name that the backend promises to go by, if it promises one.
    open spec fn named(&self) -> Option<Seq<char>> {
        None
    }

    /// The name of the backend.
    fn source(&self) -> (r: &str)
        ensures
            self.named() is Some ==> r@ == self.named()->Some_0,
    ;

    /// Feeds one chunk to the backend, which sends its results on `result_sender`.
    fn transcribe(&self, stream: &[i16], result_sender: &Sender<TranscriptionResult>) -> (r:
        Result<(), TranscriptionError>)
        ensures
            self.serves(stream@) ==> r is Ok,
            self.refuses(stream@) ==> r is Err,
    ;
}

/// A boxed backend is a backend: this lets one chain hold backends of different kinds.
/// It promises what the backend in the box promises, and answers as that backend does.
impl Transcibe for Box<dyn Transcibe> {
    open spec fn serves(&self, stream: Seq<i16>) -> bool {
        (**self).serves(stream)
    }

    open spec fn refuses(&self, stream: Seq<i16>) -> bool {
        (**self).refuses(stream)
    }

    open spec fn named(&self) -> Option<Seq<char>> {
        (**self).named()
    }

    fn source(&self) -> &str {
        (**self).source()
    }

    fn transcribe(&self, stream: &[i16], result_sender: &Sender<TranscriptionResult>) -> Result<
        (),
        TranscriptionError,
    > {
        (**self).transcribe(stream, result_sender)
    }
}

/// `Sender::send`: the message goes into the channel, or comes back in the error when
/// every receiver is gone. On a bounded channel that is full the call waits for room.
#[verifier::external_body]
fn send(sender: &Sender<TranscriptionResult>, message: TranscriptionResult) -> (r: Result<
    (),
    SendError<TranscriptionResult>,
>) {
    sender.send(message)
}

/// What a `SendError` says of itself.
pub open spec fn disconnected() -> Seq<char> {
    "sending on a disconnected channel"@
}

/// `SendError`'s `to_string`: its `Display` writes the same text for every error.
#[verifier::external_body]
fn describe(error: &SendError<TranscriptionResult>) -> (r: String)
    ensures
        r@ == disconnected(),
{
    error.to_string()
}

/// What is sent for a chunk, given what the decoder said of it, its partial guess and
/// its final transcript, each as far as there is one.
///
/// While the utterance runs the partial guess is sent, empty or not. When it is over
/// the transcript is sent if there is one and it is not empty. A chunk that was turned
/// down sends nothing.
pub open spec fn emitted(outcome: DecodingOutcome, partial: Seq<char>, transcript: Option<Seq<char>>)
    -> Option<Transcript> {
    match outcome {
        DecodingOutcome::Running => Some(Transcript { text: partial, finalised: false }),
        DecodingOutcome::Finalized => match transcript {
            Some(text) => if text.len() > 0 {
                Some(Transcript { text, finalised: true })
            } else {
                None
            },
            None => None,
        },
        DecodingOutcome::Failed => None,
    }
}

/// A chunk that was turned down sends nothing. A running utterance always sends one
/// result, which is not final. A finished utterance sends nothing when it has no
/// transcript or an empty one, and else one result, which is final and holds the
/// transcript.
pub proof fn lemma_decoder_outcomes(partial: Seq<char>, transcript: Option<Seq<char>>)
    ensures
        emitted(DecodingOutcome::Failed, partial, transcript) is None,
        emitted(DecodingOutcome::Running, partial, transcript) == Some(
            Transcript { text: partial, finalised: false },
        ),
        transcript is None || transcript->Some_0.len() == 0 ==> emitted(
            DecodingOutcome::Finalized,
            partial,
            transcript,
        ) is None,
        transcript is Some && transcript->Some_0.len() > 0 ==> emitted(
            DecodingOutcome::Finalized,
            partial,
            transcript,
        ) == Some(Transcript { text: transcript->Some_0, finalised: true }),
{
}

/// What the decoder is asked for once it has said what became of a chunk.
#[derive(Debug, Clone, Copy, PartialEq, Eq)]
pub enum Query {
    /// Its partial guess.
    Partial,
    /// Its transcript of the utterance, which also makes it start anew.
    Transcript,
    /// Nothing.
    Nothing,
}

/// What to ask the decoder for after `outcome`.
pub fn query_for(outcome: DecodingOutcome) -> (r: Query)
    ensures
        r == match outcome {
            DecodingOutcome::Running => Query::Partial,
            DecodingOutcome::Finalized => Query::Transcript,
            DecodingOutcome::Failed => Query::Nothing,
        },
{
    match outcome {
        DecodingOutcome::Running => Query::Partial,
        DecodingOutcome::Finalized => Query::Transcript,
        DecodingOutcome::Failed => Query::Nothing,
    }
}

/// The view of an optional text.
pub open spec fn text_of(text: Option<&str>) -> Option<Seq<char>> {
    match text {
        Some(t) => Some(t@),
        None => None,
    }
}

/// The view of an optional result.
pub open spec fn transcript_of(result: Option<TranscriptionResult>) -> Option<Transcript> {
    match result {
        Some(r) => Some(r@),
        None => None,
    }
}

/// The result to send for a chunk, if any. `partial` is read only while the utterance
/// runs and `transcript` only when it is over.
pub fn emission(outcome: DecodingOutcome, partial: &str, transcript: Option<&str>) -> (r: Option<
    TranscriptionResult,
>)
    ensures
        transcript_of(r) == emitted(outcome, partial@, text_of(transcript)),
{
    match outcome {
        DecodingOutcome::Running => Some(TranscriptionResult::new(partial, false)),
        DecodingOutcome::Finalized => match transcript {
            Some(text) => {
                if text.is_empty() {
                    None
                } else {
                    Some(TranscriptionResult::new(text, true))
                }
            },
            None => None,
        },
        DecodingOutcome::Failed => None,
    }
}

/// True of the one error that sending can end in: nobody listens.
pub open spec fn unheard(error: TranscriptionError) -> bool {
    error matches TranscriptionError::SendError(detail) && detail@ == disconnected()
}

/// What the adapter answers once the channel has said what became of a result: a
/// result that went out is a success, one that came back means that nobody listens.
pub fn settle(sent: Result<(), SendError<TranscriptionResult>>) -> (r: Result<
    (),
    TranscriptionError,
>)
    ensures
        sent is Ok ==> r is Ok,
        sent is Err ==> r is Err && unheard(r->Err_0),
{
    match sent {
        Ok(()) => Ok(()),
        Err(e) => Err(TranscriptionError::SendError(describe(&e))),
    }
}

/// Sends `result`, if there is one. Without one nothing is sent and nothing can fail;
/// with one the only failure is that nobody listens.
pub fn deliver(result: Option<TranscriptionResult>, result_sender: &Sender<TranscriptionResult>)
    -> (r: Result<(), TranscriptionError>)
    ensures
        result is None ==> r is Ok,
        r is Err ==> unheard(r->Err_0),
{
    match result {
        None => Ok(()),
        Some(result) => settle(send(result_sender, result)),
    }
}

/// Does for one chunk what a decoder adapter owes: it sends what `emitted` says of the
/// decoder's answer. A chunk that was turned down, or a finished utterance without a
/// transcript, is no error.
pub fn transcribe_outcome(
    outcome: DecodingOutcome,
    partial: &str,
    transcript: Option<&str>,
    result_sender: &Sender<TranscriptionResult>,
) -> (r: Result<(), TranscriptionError>)
    ensures
        emitted(outcome, partial@, text_of(transcript)) is None ==> r is Ok,
        r is Err ==> unheard(r->Err_0),
{
    deliver(emission(outcome, partial, transcript), result_sender)
}

/// The steps in which a decoder adapter is made, in order.
#[derive(Debug, Clone, Copy, PartialEq, Eq)]
pub enum ConstructionStep {
    /// The output of the native library is silenced.
    Silence,
    /// The model is loaded from its path.
    LoadModel,
    /// The recogniser is made from the model.
    BuildRecogniser,
}

/// True when `error` is what making an adapter ends in when `step` fails for the
/// model at `model_path`: a model that cannot be loaded is reported with its path,
/// the other two steps as faults of their own.
pub open spec fn fails_as(error: TranscriptionError, step: ConstructionStep, model_path: Seq<char>)
    -> bool {
    match step {
        ConstructionStep::Silence => error matches TranscriptionError::Unknown(detail) && detail@
            == "could not hijack scoped stderr output"@,
        ConstructionStep::LoadModel => error matches TranscriptionError::LocalModel(path) && path@
            == model_path,
        ConstructionStep::BuildRecogniser => error matches TranscriptionError::Unknown(detail)
            && detail@ == "Could not create recogniser from model"@,
    }
}

/// The error that making an adapter ends in when `step` fails.
pub fn construction_failure(step: ConstructionStep, model_path: &str) -> (r: TranscriptionError)
    ensures
        fails_as(r, step, model_path@),
{
    match step {
        ConstructionStep::Silence => TranscriptionError::Unknown(
            String::from_str("could not hijack scoped stderr output"),
        ),
        ConstructionStep::LoadModel => TranscriptionError::LocalModel(String::from_str(model_path)),
        ConstructionStep::BuildRecogniser => TranscriptionError::Unknown(
            String::from_str("Could not create recogniser from model"),
        ),
    }
}

} // verus!
