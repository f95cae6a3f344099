//! The configured recognition sources and the chain of backends made from them.
//!
//! The chain is tried front to back for each chunk of audio. The first backend that
//! takes the chunk ends the round; a backend that fails is noted and the next one is
//! tried. A round never fails as a whole.

use crate::provision::discovery::{model_url, vosk_model_url};
use crate::transcription::{Transcibe, TranscriptionError, TranscriptionResult};
use crossbeam_channel::Sender;
use std::collections::VecDeque;
use vstd::prelude::*;
use vstd::string::StringExecFns;

verus! {

/// A configured source of recognition.
#[derive(Debug, Clone, PartialEq, Eq)]
pub enum Source {
    /// The offline backend: a model on disk, and where to fetch it when it is missing.
    Kara { model_path: String, fallback_url: String },
    /// A hosted service, not available yet.
    IBMWatson { api_key: String, service_url: String },
}

/// The name that the configuration uses for a source of this kind.
pub open spec fn source_name(source: Source) -> Seq<char> {
    match source {
        Source::Kara { .. } => seq!['k', 'a', 'r', 'a'],
        Source::IBMWatson { .. } => seq!['i', 'b', 'm', '-', 'w', 'a', 't', 's', 'o', 'n'],
    }
}

pub(crate) fn vosk_link() -> (r: String)
    ensures
        r@ == model_url(),
{
    vosk_model_url()
}

pub(crate) fn empty_string() -> (r: String)
    ensures
        r@.len() == 0,
{
    String::new()
}

impl Source {
    /// The name that the configuration uses for this source.
    pub fn to_string(&self) -> (r: String)
        ensures
            r@ == source_name(*self),
    {
        proof {
            reveal_strlit("kara");
            reveal_strlit("ibm-watson");
        }
        match self {
            Source::Kara { .. } => String::from_str("kara"),
            Source::IBMWatson { .. } => String::from_str("ibm-watson"),
        }
    }
}

/// True of the source that is configured when nothing else is: the offline backend
/// with no model path of its own and the default address to fetch the model from.
pub open spec fn is_usual(source: Source) -> bool {
    source matches Source::Kara { model_path, fallback_url } && model_path@.len() == 0
        && fallback_url@ == model_url()
}

impl Default for Source {
    /// The offline backend with no model path of its own and the default address.
    fn default() -> (r: Self)
        ensures
            is_usual(r),
    {
        Source::Kara { model_path: empty_string(), fallback_url: vosk_link() }
    }
}

/// A backend that failed on a chunk, and how.
#[derive(Debug)]
pub struct Fallback {
    /// The place of the backend in the chain, counted from the front.
    pub position: usize,
    /// The name of the backend.
    pub source: String,
    /// What the backend answered.
    pub error: TranscriptionError,
}

/// The course of one round: the backends that failed, in the order in which they were
/// tried, and whether the one after them took the chunk.
#[derive(Debug)]
pub struct Dispatch {
    /// The backends that failed.
    pub fallbacks: Vec<Fallback>,
    /// Whether a backend took the chunk.
    pub handled: bool,
}

impl Dispatch {
    /// The places in the chain that were tried, in the order in which they were tried.
    pub open spec fn tried(&self) -> Seq<int> {
        let failed = Seq::new(self.fallbacks@.len(), |i: int| self.fallbacks@[i].position as int);
        if self.handled {
            failed.push(self.fallbacks@.len() as int)
        } else {
            failed
        }
    }

    /// The place of the backend that took the chunk, if one did.
    pub open spec fn served_by(&self) -> Option<int> {
        if self.handled {
            Some(self.fallbacks@.len() as int)
        } else {
            None
        }
    }

    /// True of the course of a round over a chain of `len` backends: the backends were
    /// tried from the front, one by one, each after the one before it had failed, up to
    /// the first that took the chunk or to the end of the chain.
    pub open spec fn in_order(&self, len: int) -> bool {
        &&& forall|i: int|
            0 <= i < self.fallbacks@.len() ==> (#[trigger] self.fallbacks@[i]).position == i
        &&& self.handled ==> self.fallbacks@.len() < len
        &&& !self.handled ==> self.fallbacks@.len() == len
    }

    /// True of the course of a round in which the chunk `feed` was offered to `chain`:
    /// the backends were tried in order, none of those that failed had promised to take
    /// the chunk, each of them is noted under the name it promised to go by, and the one
    /// that took the chunk had not promised to fail.
    pub open spec fn follows<B: Transcibe>(&self, chain: Seq<B>, feed: Seq<i16>) -> bool {
        &&& self.in_order(chain.len() as int)
        &&& forall|i: int|
            0 <= i < self.fallbacks@.len() ==> !(#[trigger] chain[i]).serves(feed)
        &&& forall|i: int|
            0 <= i < self.fallbacks@.len() && (#[trigger] chain[i]).named() is Some
                ==> self.fallbacks@[i].source@ == chain[i].named()->Some_0
        &&& self.handled ==> !chain[self.fallbacks@.len() as int].refuses(feed)
    }

    /// The course of a round in which no backend has been tried yet.
    pub fn new() -> (r: Self)
        ensures
            r.fallbacks@.len() == 0,
            !r.handled,
    {
        Dispatch { fallbacks: Vec::new(), handled: false }
    }

    /// Takes note of what the next backend in line, named `source`, answered to the
    /// chunk, and returns whether the round goes on. A backend that took the chunk ends
    /// the round; one that failed is noted with its place, its name and its error, and
    /// the round goes on.
    pub fn record(&mut self, source: &str, answer: Result<(), TranscriptionError>) -> (r: bool)
        ensures
            r == answer is Err,
            answer is Ok ==> final(self).handled && final(self).fallbacks@ == old(
                self,
            ).fallbacks@,
            answer is Err ==> {
                &&& final(self).handled == old(self).handled
                &&& final(self).fallbacks@.len() == old(self).fallbacks@.len() + 1
                &&& final(self).fallbacks@.drop_last() == old(self).fallbacks@
                &&& final(self).fallbacks@.last().position == old(self).fallbacks@.len()
                &&& final(self).fallbacks@.last().source@ == source@
                &&& final(self).fallbacks@.last().error == answer->Err_0
            },
    {
        match answer {
            Ok(()) => {
                self.handled = true;
                false
            },
            Err(error) => {
                let position = self.fallbacks.len();
                self.fallbacks.push(Fallback { position, source: String::from_str(source), error });
                assert(self.fallbacks@.drop_last() =~= old(self).fallbacks@);
                true
            },
        }
    }
}

/// In a chain whose first `n - 1` backends fail on a chunk and whose `n`-th backend
/// takes it, a round tries exactly the first `n` backends, in the order of the chain,
/// and the `n`-th is the one that takes the chunk.
pub proof fn lemma_first_success_wins<B: Transcibe>(
    chain: Seq<B>,
    feed: Seq<i16>,
    round: Dispatch,
    n: int,
)
    requires
        1 <= n <= chain.len(),
        forall|i: int| 0 <= i < n - 1 ==> (#[trigger] chain[i]).refuses(feed),
        chain[n - 1].serves(feed),
        round.follows(chain, feed),
    ensures
        round.served_by() == Some(n - 1),
        round.fallbacks@.len() == n - 1,
        round.tried() == Seq::new(n as nat, |i: int| i),
{
    let failed = round.fallbacks@.len() as int;
    if failed > n - 1 {
        assert(!chain[n - 1].serves(feed));
    }
    if failed < n - 1 {
        assert(round.handled);
        assert(chain[failed].refuses(feed));
    }
    lemma_fallback_order(round, chain.len() as int, n);
}

/// When the backend at place `n - 1` took the chunk, exactly the first `n` backends were
/// tried, in the order of the chain, and each of those before it had failed.
pub proof fn lemma_fallback_order(round: Dispatch, len: int, n: int)
    requires
        round.in_order(len),
        round.served_by() == Some(n - 1),
    ensures
        1 <= n <= len,
        round.tried() == Seq::new(n as nat, |i: int| i),
        round.fallbacks@.len() == n - 1,
{
    assert(round.tried() =~= Seq::new(n as nat, |i: int| i));
}

/// In a chain that is not empty the first backend tried is the one at the front.
pub proof fn lemma_front_is_tried_first(round: Dispatch, len: int)
    requires
        round.in_order(len),
        len > 0,
    ensures
        round.tried().len() >= 1,
        round.tried()[0] == 0,
{
    if round.fallbacks@.len() > 0 {
        assert(round.fallbacks@[0].position == 0);
    }
}

/// The recognition backends, in order of priority: the front is the primary one.
pub struct SpeechRecognisers<B: Transcibe = Box<dyn Transcibe>> {
    sources: VecDeque<B>,
}

impl<B: Transcibe> View for SpeechRecognisers<B> {
    type V = Seq<B>;

    closed spec fn view(&self) -> Seq<B> {
        self.sources@
    }
}

impl<B: Transcibe> SpeechRecognisers<B> {
    /// A chain without backends.
    pub fn new() -> (r: Self)
        ensures
            r@ == Seq::<B>::empty(),
    {
        SpeechRecognisers { sources: VecDeque::new() }
    }

    /// Puts `source` at the back of the chain: it is tried when all others have failed.
    pub fn add(&mut self, source: B)
        ensures
            final(self)@ == old(self)@.push(source),
    {
        self.sources.push_back(source);
    }

    /// Puts `source` at the front of the chain: it is tried first from now on.
    pub fn add_primary(&mut self, source: B)
        ensures
            final(self)@ == seq![source] + old(self)@,
    {
        self.sources.push_front(source);
    }

    /// True when the chain holds a backend.
    pub fn valid(&self) -> (r: bool)
        ensures
            r == (self@.len() > 0),
    {
        self.sources.len() > 0
    }

    /// The number of backends in the chain.
    pub fn len(&self) -> (r: usize)
        ensures
            r == self@.len(),
    {
        self.sources.len()
    }

    /// Offers the chunk to the backends, front to back, until one takes it, and says
    /// how the round went.
    pub fn dispatch(&self, feed: &[i16], result_sender: &Sender<TranscriptionResult>) -> (r:
        Dispatch)
        ensures
            r.follows(self@, feed@),
    {
        let n = self.sources.len();
        let mut round = Dispatch::new();
        let mut i: usize = 0;
        while i < n
            invariant
                n == self@.len(),
                i <= n,
                !round.handled,
                round.fallbacks@.len() == i,
                forall|k: int| 0 <= k < i ==> (#[trigger] round.fallbacks@[k]).position == k,
                forall|k: int| 0 <= k < i ==> !(#[trigger] self@[k]).serves(feed@),
                forall|k: int|
                    0 <= k < i && (#[trigger] self@[k]).named() is Some
                        ==> round.fallbacks@[k].source@ == self@[k].named()->Some_0,
            decreases n - i,
        {
            let backend = &self.sources[i];
            let answer = backend.transcribe(feed, result_sender);
            let ghost before = round.fallbacks@;
            if !round.record(backend.source(), answer) {
                return round;
            }
            assert forall|k: int| 0 <= k < i + 1 implies (#[trigger] round.fallbacks@[k]).position
                == k by {
                if k < i {
                    assert(round.fallbacks@[k] == before[k]);
                }
            }
            assert forall|k: int| 0 <= k < i + 1 && (#[trigger] self@[k]).named() is Some implies
                round.fallbacks@[k].source@ == self@[k].named()->Some_0 by {
                if k < i {
                    assert(round.fallbacks@[k] == before[k]);
                }
            }
            i = i + 1;
        }
        round
    }

    /// Offers the chunk to the backends, front to back, until one takes it. The round
    /// succeeds whether or not a backend took the chunk.
    pub fn speech_to_text(&self, feed: &[i16], result_sender: &Sender<TranscriptionResult>) -> (r:
        Result<(), TranscriptionError>)
        ensures
            r is Ok,
    {
        let _ = self.dispatch(feed, result_sender);
        Ok(())
    }
}

/// A new chain holds no backend, and a chain holds one as soon as one was added, at the
/// back or at the front.
pub proof fn lemma_valid_once_added<B>(chain: Seq<B>, source: B)
    ensures
        Seq::<B>::empty().len() == 0,
        chain.push(source).len() > 0,
        (seq![source] + chain).len() > 0,
{
}

/// A backend that was added as the primary one stands at the front, and the backends
/// that were there follow it in the order they had.
pub proof fn lemma_primary_is_first<B>(chain: Seq<B>, source: B)
    ensures
        (seq![source] + chain)[0] == source,
        (seq![source] + chain).len() == chain.len() + 1,
        forall|i: int| 0 <= i < chain.len() ==> (seq![source] + chain)[i + 1] == chain[i],
{
}

/// After a backend was added as the primary one, the next round tries it first.
pub proof fn lemma_primary_is_tried_first<B: Transcibe>(
    chain: Seq<B>,
    source: B,
    feed: Seq<i16>,
    round: Dispatch,
)
    requires
        round.follows(seq![source] + chain, feed),
    ensures
        round.tried().len() >= 1,
        (seq![source] + chain)[round.tried()[0]] == source,
{
    lemma_front_is_tried_first(round, (seq![source] + chain).len() as int);
}

} // verus!
