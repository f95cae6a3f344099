//! What is settled before the first byte is fetched: where the model comes from, where
//! it goes, and under which name the archive is kept.

use reqwest::Url;
use vstd::prelude::*;
use vstd::string::StringExecFns;

verus! {

/// A parsed address, as `reqwest` reports the one that answered.
#[verifier::external_type_specification]
#[verifier::external_body]
pub struct ExUrl(Url);

/// The name under which an archive is kept when its address does not give one.
pub open spec fn placeholder_name() -> Seq<char> {
    seq!['t', 'm', 'p', '.', 'z', 'i', 'p']
}

/// The address from which the recognition model is fetched when none is configured.
pub open spec fn model_url() -> Seq<char> {
    "https://alphacephei.com/vosk/models/vosk-model-small-en-us-0.15.zip"@
}

/// Where models are kept below the data directory of the platform.
pub open spec fn model_subdirectory() -> Seq<char> {
    seq!['k', 'a', 'r', 'a', '/', 'a', 's', 'r']
}

/// The file name that the segments of a path give: the last of them, unless there is
/// none or it is empty, which leaves the placeholder.
pub open spec fn chosen_name(segments: Option<Seq<Seq<char>>>) -> Seq<char> {
    match segments {
        Some(s) => if s.len() > 0 && s.last().len() > 0 {
            s.last()
        } else {
            placeholder_name()
        },
        None => placeholder_name(),
    }
}

/// `base` with the relative path `rest` below it: one separator stands between the
/// two, unless `base` is empty or ends in one.
pub open spec fn joined(base: Seq<char>, rest: Seq<char>) -> Seq<char> {
    if base.len() == 0 {
        rest
    } else if base.last() == '/' {
        base + rest
    } else {
        base + seq!['/'] + rest
    }
}

/// The views of the strings of `segments`, in order.
pub open spec fn views(segments: Seq<String>) -> Seq<Seq<char>> {
    Seq::new(segments.len(), |i: int| segments[i]@)
}

/// The segments of the path of an address, as `Url::path_segments` gives them.
pub uninterp spec fn segments_of(url: Url) -> Option<Seq<Seq<char>>>;

/// The views of optional segments.
pub open spec fn segment_views(segments: Option<Vec<String>>) -> Option<Seq<Seq<char>>> {
    match segments {
        Some(s) => Some(views(s@)),
        None => None,
    }
}

/// `Url::path_segments`, each segment copied into a string of its own: `None` for an
/// address that cannot be a base, else the path after its leading slash, cut at each
/// further slash, which leaves at least one segment. The segments depend on the
/// address alone.
#[verifier::external_body]
fn path_segments(url: &Url) -> (r: Option<Vec<String>>)
    ensures
        segment_views(r) == segments_of(*url),
        r is Some ==> r->Some_0@.len() >= 1,
{
    url.path_segments().map(|segments| segments.map(|segment| segment.to_string()).collect())
}

/// The address of the default recognition model.
pub fn vosk_model_url() -> (r: String)
    ensures
        r@ == model_url(),
{
    "https://alphacephei.com/vosk/models/vosk-model-small-en-us-0.15.zip".to_owned()
}

/// The file name for the given path segments.
pub fn pick_file_name(segments: Option<Vec<String>>) -> (r: String)
    ensures
        r@ == chosen_name(segment_views(segments)),
        r@.len() > 0,
{
    proof {
        reveal_strlit("tmp.zip");
    }
    match segments {
        Some(s) => {
            let n = s.len();
            if n > 0 && !s[n - 1].as_str().is_empty() {
                assert(views(s@).last() == s@[n - 1]@);
                s[n - 1].clone()
            } else {
                String::from_str("tmp.zip")
            }
        },
        None => String::from_str("tmp.zip"),
    }
}

/// The name under which the archive behind `url` is kept: the last segment of the
/// path of the address, or the placeholder where that is missing or empty.
pub fn file_name(url: &Url) -> (r: String)
    ensures
        r@ == chosen_name(segments_of(*url)),
        r@.len() > 0,
{
    pick_file_name(path_segments(url))
}

/// The directory that a model is loaded from or unpacked into: the configured one,
/// or `fallback` where none is configured.
pub fn resolve_destination(destination: &str, fallback: &str) -> (r: String)
    ensures
        r@ == if destination@.len() == 0 {
            fallback@
        } else {
            destination@
        },
{
    if destination.is_empty() {
        fallback.to_owned()
    } else {
        destination.to_owned()
    }
}

/// The path of `rest` below `base`.
pub fn join(base: &str, rest: &str) -> (r: String)
    ensures
        r@ == joined(base@, rest@),
{
    let n = base.unicode_len();
    if n == 0 {
        String::from_str(rest)
    } else {
        let mut out = String::from_str(base);
        if base.get_char(n - 1) != '/' {
            proof {
                reveal_strlit("/");
            }
            out.append("/");
        }
        out.append(rest);
        out
    }
}

/// The directory for models below the data directory of the platform; without a data
/// directory, relative to where the program runs.
pub fn model_path(data_dir: Option<&str>) -> (r: String)
    ensures
        r@ == joined(
            match data_dir {
                Some(dir) => dir@,
                None => Seq::empty(),
            },
            model_subdirectory(),
        ),
{
    proof {
        reveal_strlit("kara/asr");
    }
    match data_dir {
        None => String::from_str("kara/asr"),
        Some(dir) => join(dir, "kara/asr"),
    }
}

} // verus!
