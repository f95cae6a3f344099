//! The settings of the assistant and the values they have when the configuration
//! leaves them out.

use crate::provision::discovery::{join, joined};
use crate::sources::{is_usual, Source};
use vstd::prelude::*;
use vstd::string::StringExecFns;

verus! {

/// The colour behind the text when none is configured: black.
pub open spec fn background_default() -> Seq<char> {
    seq!['#', '0', '0', '0', '0', '0', '0']
}

/// The colour of the text when none is configured: white.
pub open spec fn foreground_default() -> Seq<char> {
    seq!['#', 'F', 'F', 'F', 'F', 'F', 'F']
}

/// The colour at the top of the visualiser when none is configured.
pub open spec fn top_default() -> Seq<char> {
    seq!['#', 'd', 'a', '2', '9', '4', 'f']
}

/// The colour at the bottom of the visualiser when none is configured.
pub open spec fn bottom_default() -> Seq<char> {
    seq!['#', '0', '2', '0', '0', '0', 'D']
}

/// The colour behind the text when none is configured.
pub fn default_background() -> (r: String)
    ensures
        r@ == background_default(),
{
    proof {
        reveal_strlit("#000000");
    }
    String::from_str("#000000")
}

/// The colour of the text when none is configured.
pub fn default_foreground() -> (r: String)
    ensures
        r@ == foreground_default(),
{
    proof {
        reveal_strlit("#FFFFFF");
    }
    String::from_str("#FFFFFF")
}

/// The colour at the top of the visualiser when none is configured.
pub fn vis_top() -> (r: String)
    ensures
        r@ == top_default(),
{
    proof {
        reveal_strlit("#da294f");
    }
    String::from_str("#da294f")
}

/// The colour at the bottom of the visualiser when none is configured.
pub fn vis_bottom() -> (r: String)
    ensures
        r@ == bottom_default(),
{
    proof {
        reveal_strlit("#02000D");
    }
    String::from_str("#02000D")
}

/// The usual amount of buffering, of smoothing and of thinning out in the visualiser.
pub fn default_density() -> (r: u16)
    ensures
        r == 5,
{
    5
}

/// The usual number of samples that the visualiser works on at once.
pub fn default_resolution() -> (r: u16)
    ensures
        r == 3000,
{
    3000
}

/// The usual padding of the window.
pub fn set_padding() -> (r: u16)
    ensures
        r == 0,
{
    0
}

/// The usual size of the text.
pub fn font_size() -> (r: u16)
    ensures
        r == 48,
{
    48
}

/// Whether the window has decorations when nothing is configured: it has none.
pub fn disable_decorations() -> (r: bool)
    ensures
        !r,
{
    false
}

/// The colours of the window.
#[derive(Debug)]
pub struct Colours {
    pub background: String,
    pub foreground: String,
}

impl Default for Colours {
    /// White text on black.
    fn default() -> (r: Self)
        ensures
            r.background@ == background_default(),
            r.foreground@ == foreground_default(),
    {
        Colours { background: default_background(), foreground: default_foreground() }
    }
}

/// The colours when none are configured.
pub fn colours() -> (r: Colours)
    ensures
        r.background@ == background_default(),
        r.foreground@ == foreground_default(),
{
    Colours::default()
}

/// The sources of recognition and the name of the one that leads the chain.
#[derive(Debug)]
pub struct SpeechRecognition {
    pub default_source: String,
    pub sources: Vec<Source>,
}

/// The name of the source that leads when none is configured.
pub fn default_source() -> (r: String)
    ensures
        r@ == seq!['k', 'a', 'r', 'a'],
{
    Source::default().to_string()
}

/// True of the recognition settings that hold when none are configured: the offline
/// backend alone, which is also the default source.
pub open spec fn is_usual_recognition(recognition: SpeechRecognition) -> bool {
    &&& recognition.default_source@ == seq!['k', 'a', 'r', 'a']
    &&& recognition.sources@.len() == 1
    &&& is_usual(recognition.sources@[0])
}

/// The sources when none are configured: the offline backend alone.
pub fn sources() -> (r: Vec<Source>)
    ensures
        r@.len() == 1,
        is_usual(r@[0]),
{
    let mut all: Vec<Source> = Vec::new();
    all.push(Source::default());
    all
}

impl Default for SpeechRecognition {
    /// The offline backend alone, which is also the default source.
    fn default() -> (r: Self)
        ensures
            is_usual_recognition(r),
    {
        SpeechRecognition { default_source: default_source(), sources: sources() }
    }
}

/// The recognition settings when none are configured.
pub fn default_recogniser() -> (r: SpeechRecognition)
    ensures
        is_usual_recognition(r),
{
    SpeechRecognition::default()
}

/// How the assistant presents itself.
#[derive(Default, Copy, Clone, Debug, PartialEq, Eq, PartialOrd, Ord)]
pub enum StartupMode {
    /// Start a graphical session
    #[default]
    Gui,
    /// Start a commandline session
    Cli,
}

/// The arguments of the command line.
#[derive(Debug)]
pub struct Args {
    /// What mode to run the application in
    pub mode: Option<StartupMode>,
}

/// How reading one configuration file went.
#[derive(Debug, Clone, Copy, PartialEq, Eq)]
pub enum Attempt {
    /// The file was read and understood.
    Loaded,
    /// There is no such file.
    Missing,
    /// The file is there but could not be read.
    Unreadable,
    /// The file was read but does not hold a configuration.
    Invalid,
}

/// True when an attempt is worth a line in the log: a file that is simply not there
/// is not.
pub fn is_reported(attempt: Attempt) -> (r: bool)
    ensures
        r == (attempt == Attempt::Unreadable || attempt == Attempt::Invalid),
{
    match attempt {
        Attempt::Loaded => false,
        Attempt::Missing => false,
        Attempt::Unreadable => true,
        Attempt::Invalid => true,
    }
}

/// The name of the configuration file with the given extension.
pub open spec fn config_file_name(extension: Seq<char>) -> Seq<char> {
    seq!['k', 'a', 'r', 'a', '.'] + extension
}

/// The files in which the configuration is looked for, in order. A file that is named
/// outright is the only one. Otherwise the file in the assistant's own directory below
/// the configuration directory comes first, then the file in the configuration
/// directory itself. Without a configuration directory there is none.
pub open spec fn candidates_of(
    explicit: Option<Seq<char>>,
    config_dir: Option<Seq<char>>,
    extension: Seq<char>,
) -> Seq<Seq<char>> {
    match explicit {
        Some(file) => seq![file],
        None => match config_dir {
            Some(dir) => seq![
                joined(joined(dir, seq!['k', 'a', 'r', 'a']), config_file_name(extension)),
                joined(dir, config_file_name(extension)),
            ],
            None => Seq::empty(),
        },
    }
}

/// The views of the strings of `paths`, in order.
pub open spec fn path_views(paths: Seq<String>) -> Seq<Seq<char>> {
    Seq::new(paths.len(), |i: int| paths[i]@)
}

/// The view of an optional text.
pub open spec fn shown(text: Option<&str>) -> Option<Seq<char>> {
    match text {
        Some(t) => Some(t@),
        None => None,
    }
}

/// The files in which the configuration is looked for, in the order in which they
/// are tried. When none of them holds a configuration, the usual settings are used.
pub fn config_candidates(explicit: Option<&str>, config_dir: Option<&str>, extension: &str) -> (r:
    Vec<String>)
    ensures
        path_views(r@) == candidates_of(shown(explicit), shown(config_dir), extension@),
{
    let mut paths: Vec<String> = Vec::new();
    match explicit {
        Some(file) => {
            paths.push(String::from_str(file));
            assert(path_views(paths@) =~= seq![file@]);
        },
        None => match config_dir {
            Some(dir) => {
                proof {
                    reveal_strlit("kara");
                    reveal_strlit("kara.");
                }
                let name = String::from_str("kara.").concat(extension);
                let own = join(dir, "kara");
                let nested = join(own.as_str(), name.as_str());
                let plain = join(dir, name.as_str());
                assert(name@ =~= config_file_name(extension@));
                assert("kara"@ =~= seq!['k', 'a', 'r', 'a']);
                let ghost first = nested@;
                let ghost second = plain@;
                paths.push(nested);
                paths.push(plain);
                assert(path_views(paths@)[0] == first);
                assert(path_views(paths@)[1] == second);
                assert(path_views(paths@) =~= candidates_of(
                    shown(explicit),
                    shown(config_dir),
                    extension@,
                ));
            },
            None => {
                assert(path_views(paths@) =~= Seq::<Seq<char>>::empty());
            },
        },
    }
    paths
}

} // verus!
