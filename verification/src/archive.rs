//! Where the entries of a model archive are unpacked.
//!
//! The name of an entry is a path chosen by whoever made the archive. It is cut into
//! components, cleared of everything that could lead out of the archive's own tree, and
//! its top-level component is replaced by the destination, so that whatever the name
//! says, the entry lands in the destination or below it.

use crate::provision::discovery::joined;
use crate::text::chars_of;
use vstd::prelude::*;
use vstd::string::{StrSliceExecFns, StringExecFns};

verus! {

/// `text` cut at each `sep`: the pieces between the separators, empty ones included.
pub open spec fn split(text: Seq<char>, sep: char) -> Seq<Seq<char>>
    decreases text.len(),
{
    if text.len() == 0 {
        seq![Seq::empty()]
    } else {
        let before = split(text.drop_last(), sep);
        if text.last() == sep {
            before.push(Seq::empty())
        } else {
            before.drop_last().push(before.last().push(text.last()))
        }
    }
}

/// True of a path component that names a file or a directory: it is not empty, is
/// neither `.` nor `..`, and holds no separator.
pub open spec fn is_normal(piece: Seq<char>) -> bool {
    &&& piece.len() > 0
    &&& piece != seq!['.']
    &&& piece != seq!['.', '.']
    &&& !piece.contains('/')
}

/// The components that a walk along `pieces` ends on: empty pieces and `.` stay where
/// they are, `..` goes up one component, or stays at the top where there is none.
pub open spec fn resolved(pieces: Seq<Seq<char>>) -> Seq<Seq<char>>
    decreases pieces.len(),
{
    if pieces.len() == 0 {
        Seq::empty()
    } else {
        let before = resolved(pieces.drop_last());
        let piece = pieces.last();
        if piece.len() == 0 || piece == seq!['.'] {
            before
        } else if piece == seq!['.', '.'] {
            if before.len() > 0 {
                before.drop_last()
            } else {
                before
            }
        } else {
            before.push(piece)
        }
    }
}

/// The components of the entry `name` within the archive.
pub open spec fn components(name: Seq<char>) -> Seq<Seq<char>> {
    resolved(split(name, '/'))
}

/// The components of the entry `name` below the destination: all but the top-level one.
pub open spec fn tail(name: Seq<char>) -> Seq<Seq<char>> {
    if components(name).len() == 0 {
        Seq::empty()
    } else {
        components(name).drop_first()
    }
}

/// The path that leads from `base` down the components `steps`.
pub open spec fn below(base: Seq<char>, steps: Seq<Seq<char>>) -> Seq<char>
    decreases steps.len(),
{
    if steps.len() == 0 {
        base
    } else {
        joined(below(base, steps.drop_last()), steps.last())
    }
}

/// No piece of a text that was cut at the separator holds the separator.
pub proof fn lemma_split_pieces(text: Seq<char>, sep: char)
    ensures
        split(text, sep).len() >= 1,
        forall|i: int|
            0 <= i < split(text, sep).len() ==> !(#[trigger] split(text, sep)[i]).contains(sep),
    decreases text.len(),
{
    if text.len() > 0 {
        lemma_split_pieces(text.drop_last(), sep);
        let before = split(text.drop_last(), sep);
        if text.last() != sep {
            let grown = before.last().push(text.last());
            assert forall|j: int| 0 <= j < grown.len() implies grown[j] != sep by {
                if j < before.last().len() {
                    assert(before.last().contains(grown[j]));
                }
            }
        }
    } else {
        assert(!Seq::<char>::empty().contains(sep));
    }
}

/// A walk keeps only normal components of the pieces it was given.
pub proof fn lemma_resolved_normal(pieces: Seq<Seq<char>>)
    requires
        forall|i: int| 0 <= i < pieces.len() ==> !(#[trigger] pieces[i]).contains('/'),
    ensures
        forall|i: int|
            0 <= i < resolved(pieces).len() ==> is_normal(#[trigger] resolved(pieces)[i]),
    decreases pieces.len(),
{
    if pieces.len() > 0 {
        lemma_resolved_normal(pieces.drop_last());
        let before = resolved(pieces.drop_last());
        let piece = pieces.last();
        assert(!pieces[pieces.len() - 1].contains('/'));
        assert forall|i: int| 0 <= i < resolved(pieces).len() implies is_normal(
            #[trigger] resolved(pieces)[i],
        ) by {
            if i < before.len() {
                assert(resolved(pieces)[i] == before[i]);
            }
        }
    }
}

/// Whatever the name of an entry says, each component of its place below the
/// destination names a file or a directory: none is empty, `.` or `..`, and none holds
/// a separator. The entry therefore lands in the destination or below it.
pub proof fn lemma_entry_stays_inside(name: Seq<char>)
    ensures
        forall|i: int| 0 <= i < tail(name).len() ==> is_normal(#[trigger] tail(name)[i]),
{
    lemma_split_pieces(name, '/');
    lemma_resolved_normal(split(name, '/'));
}

/// What an entry of the archive is.
#[derive(Debug, Clone, Copy, PartialEq, Eq)]
pub enum EntryKind {
    /// A directory: it is created, with the directories above it.
    Directory,
    /// A file: the directories above it are created, then its content is written.
    File,
}

/// What is done with one entry of the archive.
#[derive(Debug)]
pub struct EntryPlan {
    /// Whether the entry is a directory or a file.
    pub kind: EntryKind,
    /// Where the entry goes.
    pub path: String,
    /// For a file below the destination, the directory it goes into.
    pub parent: Option<String>,
    /// The permission bits to restore, where the archive stores them.
    pub mode: Option<u32>,
}

/// The pieces that the ranges `cuts` take out of `text`.
pub open spec fn pieces_at(text: Seq<char>, cuts: Seq<(usize, usize)>) -> Seq<Seq<char>> {
    Seq::new(cuts.len(), |i: int| text.subrange(cuts[i].0 as int, cuts[i].1 as int))
}

/// True when each of `cuts` is a range within a text of `len` characters.
pub open spec fn cuts_within(cuts: Seq<(usize, usize)>, len: int) -> bool {
    forall|i: int| 0 <= i < cuts.len() ==> (#[trigger] cuts[i]).0 <= cuts[i].1 <= len
}

/// Cuts `chars` at each slash and returns where each piece begins and ends.
fn cut_at_slashes(chars: &Vec<char>) -> (r: Vec<(usize, usize)>)
    ensures
        cuts_within(r@, chars@.len() as int),
        pieces_at(chars@, r@) == split(chars@, '/'),
{
    let n = chars.len();
    let mut done: Vec<(usize, usize)> = Vec::new();
    let mut start: usize = 0;
    let mut i: usize = 0;
    assert(chars@.take(0) =~= Seq::<char>::empty());
    assert(pieces_at(chars@, done@).push(chars@.subrange(0, 0)) =~= seq![Seq::<char>::empty()]);
    while i < n
        invariant
            n == chars@.len(),
            start <= i <= n,
            cuts_within(done@, i as int),
            pieces_at(chars@, done@).push(chars@.subrange(start as int, i as int)) == split(
                chars@.take(i as int),
                '/',
            ),
        decreases n - i,
    {
        let ghost before = split(chars@.take(i as int), '/');
        assert(chars@.take(i + 1).drop_last() == chars@.take(i as int));
        assert(chars@.take(i + 1).last() == chars@[i as int]);
        assert(before.last() == chars@.subrange(start as int, i as int));
        assert(before.drop_last() == pieces_at(chars@, done@));
        if chars[i] == '/' {
            done.push((start, i));
            start = i + 1;
            assert(pieces_at(chars@, done@) == before);
            assert(chars@.subrange(start as int, i + 1) == Seq::<char>::empty());
        } else {
            assert(chars@.subrange(start as int, i + 1) == before.last().push(chars@[i as int]));
        }
        i = i + 1;
    }
    assert(chars@.take(n as int) == chars@);
    done.push((start, n));
    done
}

/// Walks along the pieces that `cuts` take out of `chars` and returns where each
/// component that the walk ends on begins and ends.
fn resolve_cuts(chars: &Vec<char>, cuts: &Vec<(usize, usize)>) -> (r: Vec<(usize, usize)>)
    requires
        cuts_within(cuts@, chars@.len() as int),
    ensures
        cuts_within(r@, chars@.len() as int),
        pieces_at(chars@, r@) == resolved(pieces_at(chars@, cuts@)),
{
    let ghost pieces = pieces_at(chars@, cuts@);
    let m = cuts.len();
    let mut kept: Vec<(usize, usize)> = Vec::new();
    let mut k: usize = 0;
    assert(pieces.take(0) =~= Seq::<Seq<char>>::empty());
    assert(pieces_at(chars@, kept@) =~= Seq::<Seq<char>>::empty());
    while k < m
        invariant
            m == cuts@.len(),
            k <= m,
            pieces == pieces_at(chars@, cuts@),
            cuts_within(cuts@, chars@.len() as int),
            cuts_within(kept@, chars@.len() as int),
            pieces_at(chars@, kept@) == resolved(pieces.take(k as int)),
        decreases m - k,
    {
        let (s, e) = cuts[k];
        let len = e - s;
        let ghost piece = chars@.subrange(s as int, e as int);
        let ghost before = resolved(pieces.take(k as int));
        assert(pieces.take(k + 1).drop_last() == pieces.take(k as int));
        assert(pieces.take(k + 1).last() == piece);
        if len == 0 {
        } else if len == 1 && chars[s] == '.' {
            assert(piece =~= seq!['.']);
        } else if len == 2 && chars[s] == '.' && chars[s + 1] == '.' {
            assert(piece =~= seq!['.', '.']);
            if kept.len() > 0 {
                kept.pop();
                assert(pieces_at(chars@, kept@) =~= before.drop_last());
            }
        } else {
            assert(piece != seq!['.']) by {
                if piece.len() == 1 {
                    assert(piece[0] == chars@[s as int]);
                }
            }
            assert(piece != seq!['.', '.']) by {
                if piece.len() == 2 {
                    assert(piece[0] == chars@[s as int]);
                    assert(piece[1] == chars@[s + 1]);
                }
            }
            kept.push((s, e));
            assert(pieces_at(chars@, kept@) =~= before.push(piece));
        }
        k = k + 1;
    }
    assert(pieces.take(m as int) == pieces);
    kept
}

/// True when `c` occurs in `chars`.
fn holds_char(chars: &Vec<char>, c: char) -> (r: bool)
    ensures
        r == chars@.contains(c),
{
    let n = chars.len();
    let mut i: usize = 0;
    while i < n
        invariant
            n == chars@.len(),
            i <= n,
            forall|j: int| 0 <= j < i ==> chars@[j] != c,
        decreases n - i,
    {
        if chars[i] == c {
            return true;
        }
        i = i + 1;
    }
    false
}

/// What an entry of the given name is, as its name tells: a directory when the name
/// ends in a slash, else a file.
pub open spec fn kind_of(name: Seq<char>) -> EntryKind {
    if name.len() > 0 && name.last() == '/' {
        EntryKind::Directory
    } else {
        EntryKind::File
    }
}

/// True when `plan` is what is done with the entry `name` for the given destination.
pub open spec fn plans(plan: EntryPlan, name: Seq<char>, mode: Option<u32>, destination: Seq<char>)
    -> bool {
    &&& plan.kind == kind_of(name)
    &&& plan.path@ == below(destination, tail(name))
    &&& plan.mode == mode
    &&& match plan.parent {
        Some(parent) => plan.kind == EntryKind::File && tail(name).len() > 0 && parent@ == below(
            destination,
            tail(name).drop_last(),
        ),
        None => plan.kind == EntryKind::Directory || tail(name).len() == 0,
    }
}

/// Plans what is done with the entry `name` of an archive that is unpacked into
/// `destination`; `unix_mode` holds the permission bits that the archive stores for it.
///
/// An entry whose name holds a NUL character is passed over. Any other entry is placed
/// below the destination, with its top-level component left out.
pub fn plan_entry(name: &str, unix_mode: Option<u32>, destination: &str) -> (r: Option<EntryPlan>)
    ensures
        r is None <==> name@.contains('\0'),
        r is Some ==> plans(r->Some_0, name@, unix_mode, destination@),
{
    let chars = chars_of(name);
    if holds_char(&chars, '\0') {
        return None;
    }
    let n = chars.len();
    let kind = if n > 0 && chars[n - 1] == '/' {
        EntryKind::Directory
    } else {
        EntryKind::File
    };
    let cuts = cut_at_slashes(&chars);
    let kept = resolve_cuts(&chars, &cuts);
    let ghost steps = tail(name@);
    proof {
        lemma_entry_stays_inside(name@);
    }
    let base = chars_of(destination);
    let mut bare = base.len() == 0 || base[base.len() - 1] == '/';
    let mut out = String::from_str(destination);
    let mut parent: Option<String> = None;
    let m = kept.len();
    let mut j: usize = 1;
    assert(steps.take(0) =~= Seq::<Seq<char>>::empty());
    assert(steps.len() == if m == 0 {
        0
    } else {
        m - 1
    });
    while j < m
        invariant
            1 <= j,
            j <= m || j == 1,
            m == kept@.len(),
            steps.len() == if m == 0 {
                0int
            } else {
                m - 1
            },
            chars@ == name@,
            cuts_within(kept@, chars@.len() as int),
            pieces_at(chars@, kept@) == components(name@),
            steps == tail(name@),
            forall|i: int| 0 <= i < steps.len() ==> is_normal(#[trigger] steps[i]),
            out@ == below(destination@, steps.take(j - 1)),
            bare == (out@.len() == 0 || out@.last() == '/'),
            j == 1 ==> parent is None,
            1 < j ==> parent is Some && parent->Some_0@ == below(
                destination@,
                steps.take(j - 2),
            ),
        decreases m - j,
    {
        let (s, e) = kept[j];
        let piece = name.substring_char(s, e);
        assert(piece@ == steps[j - 1]) by {
            assert(pieces_at(chars@, kept@)[j as int] == chars@.subrange(s as int, e as int));
        }
        assert(steps.take(j as int).drop_last() == steps.take(j - 1));
        assert(steps.take(j as int).last() == piece@);
        assert(is_normal(piece@));
        let ghost above = out@;
        parent = Some(out.clone());
        if !bare {
            proof {
                reveal_strlit("/");
            }
            out.append("/");
        }
        out.append(piece);
        assert(out@ =~= joined(above, piece@));
        assert(out@.last() == piece@.last());
        assert(piece@.contains(piece@.last()));
        bare = false;
        j = j + 1;
    }
    if m <= 1 {
        assert(steps =~= Seq::<Seq<char>>::empty());
    } else {
        assert(steps.take(m - 1) == steps);
        assert(steps.take(m - 2) == steps.drop_last());
    }
    assert(kind == kind_of(name@));
    let parent = match kind {
        EntryKind::Directory => None,
        EntryKind::File => parent,
    };
    Some(EntryPlan { kind, path: out, parent, mode: unix_mode })
}

} // verus!
