//! The inputs of a batch: which files it has, in which order, and the directory
//! that they have in common.

use crate::paths::{
    lemma_path_le_antisymmetric, lemma_path_le_total, lemma_path_le_transitive, parent_of, path_extension, path_le,
    path_starts_with, MediaPath, PartText,
};
use crate::text::{lists, literal_texts, same_text, unicode_lower};
use vstd::multiset::Multiset;
use vstd::prelude::*;
use vstd::string::*;

verus! {

/// An input as it was found.
#[derive(Debug)]
pub enum InputEntry {
    File(MediaPath),
    /// A directory, with all files below it.
    Directory(Vec<MediaPath>),
    /// There is nothing of this name.
    Missing(String),
}

/// The extensions, in lower case, by which a directory is searched.
pub open spec fn media_extensions() -> Seq<Seq<char>> {
    seq![
        "mp3"@,
        "flac"@,
        "m4a"@,
        "m4b"@,
        "aac"@,
        "ogg"@,
        "opus"@,
        "wav"@,
        "aiff"@,
        "aif"@,
        "wma"@,
        "ape"@,
        "wv"@,
        "mka"@,
        "mp2"@,
        "mp1"@,
        "mp4"@,
        "m4v"@,
        "mov"@,
        "avi"@,
        "mkv"@,
        "webm"@,
        "wmv"@,
        "mpg"@,
        "mpeg"@,
        "3gp"@,
        "3g2"@,
    ]
}

/// Whether an extension in lower case is one of media files.
pub fn is_media_extension(extension: &str) -> (r: bool)
    ensures
        r == media_extensions().contains(extension@),
{
    let known: Vec<&'static str> = vec![
        "mp3",
        "flac",
        "m4a",
        "m4b",
        "aac",
        "ogg",
        "opus",
        "wav",
        "aiff",
        "aif",
        "wma",
        "ape",
        "wv",
        "mka",
        "mp2",
        "mp1",
        "mp4",
        "m4v",
        "mov",
        "avi",
        "mkv",
        "webm",
        "wmv",
        "mpg",
        "mpeg",
        "3gp",
        "3g2",
    ];
    assert(literal_texts(known@) =~= media_extensions());
    lists(&known, extension)
}

/// Whether an extension in lower case is one of files that hold a picture.
pub open spec fn holds_video(extension: Seq<char>) -> bool {
    ||| extension == "mp4"@
    ||| extension == "m4v"@
    ||| extension == "mov"@
    ||| extension == "avi"@
    ||| extension == "mkv"@
    ||| extension == "webm"@
    ||| extension == "wmv"@
    ||| extension == "mpg"@
    ||| extension == "mpeg"@
    ||| extension == "3gp"@
    ||| extension == "3g2"@
}

pub fn is_video_extension(extension: &str) -> (r: bool)
    ensures
        r == holds_video(extension@),
{
    same_text(extension, "mp4") || same_text(extension, "m4v") || same_text(extension, "mov")
        || same_text(extension, "avi") || same_text(extension, "mkv") || same_text(
        extension,
        "webm",
    ) || same_text(extension, "wmv") || same_text(extension, "mpg") || same_text(extension, "mpeg")
        || same_text(extension, "3gp") || same_text(extension, "3g2")
}

/// Whether a file of a directory is taken.
pub open spec fn is_media_path(p: Seq<PartText>) -> bool {
    media_extensions().contains(
        unicode_lower(
            match path_extension(p) {
                Some(e) => e,
                None => Seq::empty(),
            },
        ),
    )
}

fn media_path(p: &MediaPath) -> (r: bool)
    ensures
        r == is_media_path(p@),
{
    let extension = match p.extension() {
        Some(e) => e,
        None => String::new(),
    };
    is_media_extension(extension.as_str().to_lowercase().as_str())
}

/// The parts of each path of a list.
pub open spec fn path_views(v: Seq<MediaPath>) -> Seq<Seq<PartText>> {
    v.map_values(|p: MediaPath| p@)
}

/// The files of a directory that are taken, in the order they were found.
pub open spec fn media_files(v: Seq<Seq<PartText>>) -> Seq<Seq<PartText>>
    decreases v.len(),
{
    if v.len() == 0 {
        Seq::empty()
    } else if is_media_path(v.last()) {
        media_files(v.drop_last()).push(v.last())
    } else {
        media_files(v.drop_last())
    }
}

/// The files of some inputs, in the order they were found.
pub open spec fn found_files(entries: Seq<InputEntry>) -> Seq<Seq<PartText>>
    decreases entries.len(),
{
    if entries.len() == 0 {
        Seq::empty()
    } else {
        found_files(entries.drop_last()) + (match entries.last() {
            InputEntry::File(p) => seq![p@],
            InputEntry::Directory(files) => media_files(path_views(files@)),
            InputEntry::Missing(_) => Seq::empty(),
        })
    }
}

/// Whether paths stand in order.
pub open spec fn in_order(v: Seq<Seq<PartText>>) -> bool {
    forall|i: int, j: int| 0 <= i < j < v.len() ==> path_le(#[trigger] v[i], #[trigger] v[j])
}

/// An input that is not there.
#[derive(Debug)]
pub struct InputNotFound {
    pub name: String,
}

impl InputNotFound {
    /// The message of the error.
    pub fn message(&self) -> (r: String)
        ensures
            r@ == "input not found: "@ + self.name@,
    {
        let mut m = "input not found: ".to_owned();
        m.append(self.name.as_str());
        m
    }
}

proof fn lemma_insert_in_order(v: Seq<Seq<PartText>>, p: Seq<PartText>, i: int)
    requires
        in_order(v),
        0 <= i <= v.len(),
        forall|j: int| 0 <= j < i ==> !path_le(p, #[trigger] v[j]),
        i < v.len() ==> path_le(p, v[i]),
    ensures
        in_order(v.insert(i, p)),
{
    let w = v.insert(i, p);
    assert forall|a: int, b: int| 0 <= a < b < w.len() implies path_le(
        #[trigger] w[a],
        #[trigger] w[b],
    ) by {
        if b < i {
            assert(w[a] == v[a] && w[b] == v[b]);
        } else if b == i {
            assert(w[a] == v[a]);
            lemma_path_le_total(p, v[a]);
        } else if a < i {
            assert(w[a] == v[a] && w[b] == v[b - 1]);
        } else if a == i {
            assert(w[b] == v[b - 1]);
            if b - 1 > i {
                assert(path_le(v[i], v[b - 1]));
                lemma_path_le_transitive(p, v[i], v[b - 1]);
            }
        } else {
            assert(w[a] == v[a - 1] && w[b] == v[b - 1]);
        }
    }
}

proof fn lemma_insert_multiset(v: Seq<Seq<PartText>>, p: Seq<PartText>, i: int)
    requires
        0 <= i <= v.len(),
    ensures
        v.insert(i, p).to_multiset() == v.to_multiset().insert(p),
{
    broadcast use vstd::seq_lib::group_to_multiset_ensures;

    assert(v.insert(i, p) =~= v.take(i).push(p) + v.skip(i));
    assert(v =~= v.take(i) + v.skip(i));
    vstd::seq_lib::lemma_multiset_commutative(v.take(i).push(p), v.skip(i));
    vstd::seq_lib::lemma_multiset_commutative(v.take(i), v.skip(i));
    assert(v.insert(i, p).to_multiset() =~= v.to_multiset().insert(p));
}

/// Puts a path into its place.
fn insert_sorted(files: &mut Vec<MediaPath>, p: MediaPath)
    requires
        in_order(path_views(old(files)@)),
    ensures
        in_order(path_views(final(files)@)),
        path_views(final(files)@).to_multiset() == path_views(old(files)@).to_multiset().insert(p@),
{
    let ghost v = path_views(files@);
    let mut i: usize = 0;
    while i < files.len() && !p.sorts_up_to(&files[i])
        invariant
            i <= files@.len(),
            v == path_views(files@),
            forall|j: int| 0 <= j < i ==> !path_le(p@, #[trigger] v[j]),
        decreases files@.len() - i,
    {
        assert(v[i as int] == files@[i as int]@);
        i = i + 1;
    }
    let ghost q = p@;
    proof {
        if i < v.len() {
            assert(v[i as int] == files@[i as int]@);
        }
        lemma_insert_in_order(v, q, i as int);
        lemma_insert_multiset(v, q, i as int);
    }
    files.insert(i, p);
    assert(path_views(files@) =~= v.insert(i as int, q));
}

/// Adds the media files of a directory.
fn insert_media(files: &mut Vec<MediaPath>, found: &[MediaPath])
    requires
        in_order(path_views(old(files)@)),
    ensures
        in_order(path_views(final(files)@)),
        path_views(final(files)@).to_multiset() == path_views(old(files)@).to_multiset().add(
            media_files(path_views(found@)).to_multiset(),
        ),
{
    broadcast use vstd::seq_lib::group_to_multiset_ensures;

    let ghost all = path_views(found@);
    let ghost start = path_views(files@).to_multiset();
    let mut i: usize = 0;
    assert(media_files(all.take(0)).to_multiset() =~= Multiset::empty());
    assert(start =~= start.add(Multiset::empty()));
    while i < found.len()
        invariant
            i <= found@.len(),
            all == path_views(found@),
            in_order(path_views(files@)),
            path_views(files@).to_multiset() == start.add(
                media_files(all.take(i as int)).to_multiset(),
            ),
        decreases found@.len() - i,
    {
        broadcast use vstd::seq_lib::group_to_multiset_ensures;

        let p = &found[i];
        assert(all[i as int] == p@);
        assert(all.take(i + 1).last() == p@);
        assert(all.take(i + 1).drop_last() =~= all.take(i as int));
        if media_path(p) {
            insert_sorted(files, p.clone());
            assert(path_views(files@).to_multiset() =~= start.add(
                media_files(all.take(i + 1)).to_multiset(),
            ));
        }
        i = i + 1;
    }
    assert(all.take(all.len() as int) =~= all);
}

/// The files of a batch: files as they are, the media files of directories, all
/// of them in the order of their paths. Fails at the first input that is not
/// there.
pub fn expand_inputs(entries: &[InputEntry]) -> (r: Result<Vec<MediaPath>, InputNotFound>)
    ensures
        r is Err <==> exists|i: int| 0 <= i < entries@.len() && (#[trigger] entries@[i]) is Missing,
        match r {
            Ok(files) => {
                &&& in_order(path_views(files@))
                &&& path_views(files@).to_multiset() == found_files(entries@).to_multiset()
            },
            Err(e) => exists|i: int|
                {
                    &&& 0 <= i < entries@.len()
                    &&& (#[trigger] entries@[i] matches InputEntry::Missing(name) && name@
                        == e.name@)
                    &&& forall|j: int| 0 <= j < i ==> !((#[trigger] entries@[j]) is Missing)
                },
        },
{
    broadcast use vstd::seq_lib::group_to_multiset_ensures;

    let mut files: Vec<MediaPath> = Vec::new();
    let mut i: usize = 0;
    assert(path_views(files@) =~= Seq::empty());
    assert(found_files(entries@.take(0)) =~= Seq::empty());
    while i < entries.len()
        invariant
            i <= entries@.len(),
            forall|j: int| 0 <= j < i ==> !((#[trigger] entries@[j]) is Missing),
            in_order(path_views(files@)),
            path_views(files@).to_multiset() == found_files(
                entries@.take(i as int),
            ).to_multiset(),
        decreases entries@.len() - i,
    {
        broadcast use vstd::seq_lib::group_to_multiset_ensures;

        let ghost before = found_files(entries@.take(i as int));
        let ghost have = path_views(files@).to_multiset();
        proof {
            assert(entries@.take(i + 1).drop_last() =~= entries@.take(i as int));
            assert(entries@.take(i + 1).last() == entries@[i as int]);
        }
        match &entries[i] {
            InputEntry::File(p) => {
                insert_sorted(&mut files, p.clone());
                proof {
                    assert(before + seq![p@] =~= before.push(p@));
                    assert(found_files(entries@.take(i + 1)) == before.push(p@));
                }
            },
            InputEntry::Directory(found) => {
                insert_media(&mut files, found.as_slice());
                proof {
                    let more = media_files(path_views(found@));
                    vstd::seq_lib::lemma_multiset_commutative(before, more);
                    assert(found_files(entries@.take(i + 1)) == before + more);
                }
            },
            InputEntry::Missing(name) => {
                assert(entries@[i as int] is Missing);
                return Err(InputNotFound { name: name.clone() });
            },
        }
        i = i + 1;
    }
    assert(entries@.take(entries@.len() as int) =~= entries@);
    Ok(files)
}

proof fn lemma_order_is_unique(a: Seq<Seq<PartText>>, b: Seq<Seq<PartText>>)
    requires
        in_order(a),
        in_order(b),
        a.to_multiset() == b.to_multiset(),
    ensures
        a == b,
    decreases a.len(),
{
    broadcast use vstd::seq_lib::group_to_multiset_ensures;

    assert(a.len() == a.to_multiset().len());
    assert(b.len() == b.to_multiset().len());
    if a.len() > 0 {
        let x = a.last();
        let y = b.last();
        assert(a.contains(x));
        assert(b.contains(y));
        assert(b.to_multiset().count(x) > 0);
        assert(b.contains(x));
        assert(a.to_multiset().count(y) > 0);
        assert(a.contains(y));
        let i = choose|i: int| 0 <= i < b.len() && b[i] == x;
        let j = choose|j: int| 0 <= j < a.len() && a[j] == y;
        if i < b.len() - 1 && j < a.len() - 1 {
            assert(path_le(b[i], b[b.len() - 1]));
            assert(path_le(a[j], a[a.len() - 1]));
            lemma_path_le_antisymmetric(x, y);
        }
        assert(x == y);
        assert(a =~= a.drop_last().push(x));
        assert(b =~= b.drop_last().push(y));
        assert(a.drop_last().to_multiset().insert(x) == a.to_multiset());
        assert(b.drop_last().to_multiset().insert(y) == b.to_multiset());
        assert(a.drop_last().to_multiset() =~= b.drop_last().to_multiset()) by {
            assert(a.drop_last().to_multiset() =~= a.to_multiset().remove(x));
            assert(b.drop_last().to_multiset() =~= b.to_multiset().remove(x));
        }
        lemma_order_is_unique(a.drop_last(), b.drop_last());
    } else {
        assert(a =~= b);
    }
}

/// The order of a batch does not depend on the order in which its files were
/// found: runs over the same files have the same order.
pub proof fn law_order_is_stable(
    first: Seq<InputEntry>,
    second: Seq<InputEntry>,
    a: Seq<Seq<PartText>>,
    b: Seq<Seq<PartText>>,
)
    requires
        found_files(first).to_multiset() == found_files(second).to_multiset(),
        in_order(a),
        a.to_multiset() == found_files(first).to_multiset(),
        in_order(b),
        b.to_multiset() == found_files(second).to_multiset(),
    ensures
        a == b,
{
    lemma_order_is_unique(a, b);
}

// ---- the common directory -------------------------------------------------

/// The directory of a path; a path without one stands for itself.
pub open spec fn directory_of(p: Seq<PartText>) -> Seq<PartText> {
    match parent_of(p) {
        Some(d) => d,
        None => p,
    }
}

/// The nearest directory above `a`, or `a` itself, that `dir` lies in; the
/// topmost one where there is none.
pub open spec fn shared_ancestor(a: Seq<PartText>, dir: Seq<PartText>) -> Seq<PartText>
    decreases a.len(),
{
    if path_starts_with(dir, a) {
        a
    } else {
        match parent_of(a) {
            Some(up) => if up.len() < a.len() {
                shared_ancestor(up, dir)
            } else {
                a
            },
            None => a,
        }
    }
}

/// What the directories of some paths share with `start`, path by path.
pub open spec fn shared_by_all(start: Seq<PartText>, paths: Seq<Seq<PartText>>) -> Seq<PartText>
    decreases paths.len(),
{
    if paths.len() == 0 {
        start
    } else {
        shared_ancestor(shared_by_all(start, paths.drop_last()), directory_of(paths.last()))
    }
}

fn climb(start: MediaPath, dir: &MediaPath) -> (r: MediaPath)
    ensures
        r@ == shared_ancestor(start@, dir@),
{
    let mut a = start;
    loop
        invariant
            shared_ancestor(a@, dir@) == shared_ancestor(start@, dir@),
        decreases a@.len(),
    {
        if dir.starts_with(&a) {
            return a;
        }
        match a.parent() {
            Some(up) => {
                a = up;
            },
            None => {
                return a;
            },
        }
    }
}

/// The directory that some paths have in common. There is none where there are
/// no paths or the first has no directory.
pub fn common_prefix(paths: &[MediaPath]) -> (r: Option<MediaPath>)
    ensures
        match r {
            Some(dir) => {
                &&& paths@.len() > 0
                &&& parent_of(paths@[0]@) is Some
                &&& dir@ == shared_by_all(
                    parent_of(paths@[0]@)->0,
                    path_views(paths@).skip(1),
                )
            },
            None => paths@.len() == 0 || parent_of(paths@[0]@) is None,
        },
{
    if paths.len() == 0 {
        return None;
    }
    let first = match paths[0].parent() {
        Some(d) => d,
        None => {
            return None;
        },
    };
    let ghost start = first@;
    let ghost rest = path_views(paths@).skip(1);
    let mut dir = first;
    let mut i: usize = 1;
    while i < paths.len()
        invariant
            1 <= i <= paths@.len(),
            rest == path_views(paths@).skip(1),
            dir@ == shared_by_all(start, rest.take(i - 1)),
        decreases paths@.len() - i,
    {
        assert(rest.take(i as int).drop_last() =~= rest.take(i - 1));
        assert(rest.take(i as int).last() == paths@[i as int]@);
        let here = match paths[i].parent() {
            Some(d) => d,
            None => paths[i].clone(),
        };
        dir = climb(dir, &here);
        i = i + 1;
    }
    assert(rest.take(rest.len() as int) =~= rest);
    Some(dir)
}

/// Whether a path is an anchor (a root, a prefix, both or neither) followed by
/// parts that are none of these.
pub open spec fn is_anchored(p: Seq<PartText>, anchor: Seq<PartText>) -> bool {
    &&& path_starts_with(p, anchor)
    &&& forall|i: int|
        anchor.len() <= i < p.len() ==> !((#[trigger] p[i]) is Root) && !(p[i] is Prefix)
    &&& anchor.len() > 0 ==> anchor.last() is Root || anchor.last() is Prefix
}

proof fn lemma_directory_is_anchored(p: Seq<PartText>, anchor: Seq<PartText>)
    requires
        is_anchored(p, anchor),
    ensures
        is_anchored(directory_of(p), anchor),
        path_starts_with(p, directory_of(p)),
{
    let d = directory_of(p);
    if parent_of(p) is Some {
        if p.len() == anchor.len() {
            assert(p =~= anchor);
        }
        assert(d.take(anchor.len() as int) =~= p.take(anchor.len() as int));
        assert(p.take(d.len() as int) =~= d);
    } else {
        assert(p.take(p.len() as int) =~= p);
    }
}

/// Of two directories with the same anchor, the shared ancestor is the longest
/// path that both start with.
proof fn lemma_shared_ancestor(
    a: Seq<PartText>,
    dir: Seq<PartText>,
    anchor: Seq<PartText>,
    q: Seq<PartText>,
)
    requires
        is_anchored(a, anchor),
        is_anchored(dir, anchor),
    ensures
        is_anchored(shared_ancestor(a, dir), anchor),
        path_starts_with(a, shared_ancestor(a, dir)),
        path_starts_with(dir, shared_ancestor(a, dir)),
        path_starts_with(a, q) && path_starts_with(dir, q) ==> path_starts_with(
            shared_ancestor(a, dir),
            q,
        ),
    decreases a.len(),
{
    if path_starts_with(dir, a) {
        assert(a.take(a.len() as int) =~= a);
    } else {
        if a.len() == anchor.len() {
            assert(a =~= anchor);
            assert(false);
        }
        let up = a.drop_last();
        assert(parent_of(a) == Some(up));
        assert(up.take(anchor.len() as int) =~= a.take(anchor.len() as int));
        lemma_shared_ancestor(up, dir, anchor, q);
        let r = shared_ancestor(up, dir);
        assert(a.take(r.len() as int) =~= up.take(r.len() as int));
        if path_starts_with(a, q) && path_starts_with(dir, q) {
            if q.len() == a.len() {
                assert(a =~= q) by {
                    assert(a.take(a.len() as int) =~= a);
                }
                assert(false);
            }
            assert(up.take(q.len() as int) =~= a.take(q.len() as int));
        }
    }
}

proof fn lemma_starts_with_transitive(a: Seq<PartText>, b: Seq<PartText>, c: Seq<PartText>)
    requires
        path_starts_with(a, b),
        path_starts_with(b, c),
    ensures
        path_starts_with(a, c),
{
    assert(a.take(c.len() as int) =~= b.take(c.len() as int)) by {
        assert(a.take(b.len() as int).take(c.len() as int) =~= a.take(c.len() as int));
    }
}

proof fn lemma_shared_by_all(
    start: Seq<PartText>,
    paths: Seq<Seq<PartText>>,
    anchor: Seq<PartText>,
    q: Seq<PartText>,
)
    requires
        is_anchored(start, anchor),
        forall|i: int| 0 <= i < paths.len() ==> is_anchored(#[trigger] paths[i], anchor),
    ensures
        is_anchored(shared_by_all(start, paths), anchor),
        path_starts_with(start, shared_by_all(start, paths)),
        forall|i: int|
            0 <= i < paths.len() ==> path_starts_with(
                directory_of(#[trigger] paths[i]),
                shared_by_all(start, paths),
            ),
        path_starts_with(start, q) && (forall|i: int|
            0 <= i < paths.len() ==> path_starts_with(directory_of(#[trigger] paths[i]), q))
            ==> path_starts_with(shared_by_all(start, paths), q),
    decreases paths.len(),
{
    if paths.len() == 0 {
        assert(start.take(start.len() as int) =~= start);
    } else {
        let front = paths.drop_last();
        let before = shared_by_all(start, front);
        let dir = directory_of(paths.last());
        let r = shared_by_all(start, paths);
        assert forall|i: int| 0 <= i < front.len() implies is_anchored(#[trigger] front[i], anchor) by {
            assert(front[i] == paths[i]);
        }
        lemma_shared_by_all(start, front, anchor, q);
        lemma_directory_is_anchored(paths.last(), anchor);
        lemma_shared_ancestor(before, dir, anchor, q);
        lemma_starts_with_transitive(start, before, r);
        assert forall|i: int| 0 <= i < paths.len() implies path_starts_with(
            directory_of(#[trigger] paths[i]),
            r,
        ) by {
            if i < front.len() {
                assert(front[i] == paths[i]);
                lemma_starts_with_transitive(directory_of(paths[i]), before, r);
            }
        }
        if path_starts_with(start, q) && (forall|i: int|
            0 <= i < paths.len() ==> path_starts_with(directory_of(#[trigger] paths[i]), q)) {
            assert forall|i: int| 0 <= i < front.len() implies path_starts_with(
                directory_of(#[trigger] front[i]),
                q,
            ) by {
                assert(front[i] == paths[i]);
            }
            assert(path_starts_with(directory_of(paths[paths.len() - 1]), q));
        }
    }
}

/// Among paths with the same anchor (all relative, say, or all below the same
/// root) the common prefix is a directory that every one of them lies in.
pub proof fn law_common_prefix_holds_every_path(paths: Seq<Seq<PartText>>, anchor: Seq<PartText>)
    requires
        paths.len() > 0,
        parent_of(paths[0]) is Some,
        forall|i: int| 0 <= i < paths.len() ==> is_anchored(#[trigger] paths[i], anchor),
    ensures
        forall|i: int|
            0 <= i < paths.len() ==> path_starts_with(
                #[trigger] paths[i],
                shared_by_all(parent_of(paths[0])->0, paths.skip(1)),
            ),
{
    let start = parent_of(paths[0])->0;
    let rest = paths.skip(1);
    let r = shared_by_all(start, rest);
    lemma_directory_is_anchored(paths[0], anchor);
    assert forall|i: int| 0 <= i < rest.len() implies is_anchored(#[trigger] rest[i], anchor) by {
        assert(rest[i] == paths[i + 1]);
    }
    lemma_shared_by_all(start, rest, anchor, anchor);
    assert forall|i: int| 0 <= i < paths.len() implies path_starts_with(#[trigger] paths[i], r) by {
        lemma_directory_is_anchored(paths[i], anchor);
        if i == 0 {
            lemma_starts_with_transitive(paths[0], start, r);
        } else {
            assert(rest[i - 1] == paths[i]);
            lemma_starts_with_transitive(paths[i], directory_of(paths[i]), r);
        }
    }
}

/// Among paths with the same anchor the common prefix is the deepest directory
/// of its kind: whatever directory they all lie in, it lies in that one too.
pub proof fn law_common_prefix_is_deepest(
    paths: Seq<Seq<PartText>>,
    anchor: Seq<PartText>,
    q: Seq<PartText>,
)
    requires
        paths.len() > 0,
        parent_of(paths[0]) is Some,
        forall|i: int| 0 <= i < paths.len() ==> is_anchored(#[trigger] paths[i], anchor),
        forall|i: int|
            0 <= i < paths.len() ==> path_starts_with(directory_of(#[trigger] paths[i]), q),
    ensures
        path_starts_with(shared_by_all(parent_of(paths[0])->0, paths.skip(1)), q),
{
    let start = parent_of(paths[0])->0;
    let rest = paths.skip(1);
    lemma_directory_is_anchored(paths[0], anchor);
    assert(path_starts_with(directory_of(paths[0]), q));
    assert forall|i: int| 0 <= i < rest.len() implies is_anchored(#[trigger] rest[i], anchor)
        && path_starts_with(directory_of(rest[i]), q) by {
        assert(rest[i] == paths[i + 1]);
    }
    lemma_shared_by_all(start, rest, anchor, q);
}

// ---- laws -----------------------------------------------------------------

/// The extensions of media files are those of sound and those of moving pictures,
/// and no other; those of moving pictures are told apart.
pub proof fn law_media_is_sound_or_moving_pictures(
    extension: &str,
    media: bool,
    pictures: bool,
)
    requires
        call_ensures(is_media_extension, (extension,), media),
        call_ensures(is_video_extension, (extension,), pictures),
    ensures
        pictures <==> extension@ == "mp4"@
            || extension@ == "m4v"@
            || extension@ == "mov"@
            || extension@ == "avi"@
            || extension@ == "mkv"@
            || extension@ == "webm"@
            || extension@ == "wmv"@
            || extension@ == "mpg"@
            || extension@ == "mpeg"@
            || extension@ == "3gp"@
            || extension@ == "3g2"@,
        media <==> pictures || extension@ == "mp3"@
            || extension@ == "flac"@
            || extension@ == "m4a"@
            || extension@ == "m4b"@
            || extension@ == "aac"@
            || extension@ == "ogg"@
            || extension@ == "opus"@
            || extension@ == "wav"@
            || extension@ == "aiff"@
            || extension@ == "aif"@
            || extension@ == "wma"@
            || extension@ == "ape"@
            || extension@ == "wv"@
            || extension@ == "mka"@
            || extension@ == "mp2"@
            || extension@ == "mp1"@,
{
    let l = media_extensions();
    assert(l[0] == "mp3"@
        && l[1] == "flac"@
        && l[2] == "m4a"@
        && l[3] == "m4b"@
        && l[4] == "aac"@
        && l[5] == "ogg"@
        && l[6] == "opus"@
        && l[7] == "wav"@
        && l[8] == "aiff"@
        && l[9] == "aif"@
        && l[10] == "wma"@
        && l[11] == "ape"@
        && l[12] == "wv"@
        && l[13] == "mka"@
        && l[14] == "mp2"@
        && l[15] == "mp1"@
        && l[16] == "mp4"@
        && l[17] == "m4v"@
        && l[18] == "mov"@
        && l[19] == "avi"@
        && l[20] == "mkv"@
        && l[21] == "webm"@
        && l[22] == "wmv"@
        && l[23] == "mpg"@
        && l[24] == "mpeg"@
        && l[25] == "3gp"@
        && l[26] == "3g2"@);
    if media {
        let i = choose|i: int| 0 <= i < l.len() && l[i] == extension@;
        assert(l[i] == extension@);
    }
}

/// A batch of one file is that file, whatever it is; one directory gives the files
/// in it whose extension, in any case, is one of media files.
pub proof fn law_directories_give_their_media_files(
    entries: &[InputEntry],
    files: Vec<MediaPath>,
)
    requires
        call_ensures(
            expand_inputs,
            (entries,),
            Ok::<Vec<MediaPath>, InputNotFound>(files),
        ),
        entries@.len() == 1,
    ensures
        entries@[0] matches InputEntry::File(p) ==> path_views(files@) == seq![p@],
        entries@[0] matches InputEntry::Directory(found) ==> path_views(files@).to_multiset()
            == path_views(found@).filter(
            |p: Seq<PartText>| media_extensions().contains(
                unicode_lower(
                    match path_extension(p) {
                        Some(e) => e,
                        None => Seq::empty(),
                    },
                ),
            ),
        ).to_multiset(),
        forall|i: int, j: int|
            0 <= i < j < files@.len() ==> path_le((#[trigger] files@[i])@, (#[trigger] files@[j])@),
{
    broadcast use vstd::seq_lib::group_to_multiset_ensures;

    let v = path_views(files@);
    reveal_with_fuel(found_files, 2);
    assert(entries@.drop_last() =~= Seq::<InputEntry>::empty());
    assert(entries@.last() == entries@[0]);
    let none = Seq::<Seq<PartText>>::empty();
    assert(found_files(entries@.drop_last()) =~= none);
    match entries@[0] {
        InputEntry::File(p) => {
            assert(none + seq![p@] =~= seq![p@]);
            assert(found_files(entries@) == seq![p@]);
            let one = seq![p@];
            lemma_one_is_in_order(p@);
            lemma_order_is_unique(v, one);
        },
        InputEntry::Directory(found) => {
            let m = media_files(path_views(found@));
            assert(none + m =~= m);
            lemma_media_kept(path_views(found@));
        },
        InputEntry::Missing(_) => {},
    }
    assert forall|i: int, j: int| 0 <= i < j < files@.len() implies path_le(
        (#[trigger] files@[i])@,
        (#[trigger] files@[j])@,
    ) by {
        assert(v[i] == files@[i]@ && v[j] == files@[j]@);
    }
}

proof fn lemma_one_is_in_order(p: Seq<PartText>)
    ensures
        in_order(seq![p]),
{
}

proof fn lemma_media_kept(v: Seq<Seq<PartText>>)
    ensures
        media_files(v) == v.filter(
            |p: Seq<PartText>| media_extensions().contains(
                unicode_lower(
                    match path_extension(p) {
                        Some(e) => e,
                        None => Seq::empty(),
                    },
                ),
            ),
        ),
    decreases v.len(),
{
    reveal(Seq::filter);
    if v.len() > 0 {
        lemma_media_kept(v.drop_last());
    }
}

/// A batch is what its inputs are, one by one: of two lists of inputs taken
/// together, the files are those of the first and those of the second.
pub proof fn law_batches_add_up(
    a: &[InputEntry],
    b: &[InputEntry],
    all: &[InputEntry],
    fa: Vec<MediaPath>,
    fb: Vec<MediaPath>,
    fall: Vec<MediaPath>,
)
    requires
        all@ == a@ + b@,
        call_ensures(expand_inputs, (a,), Ok::<Vec<MediaPath>, InputNotFound>(fa)),
        call_ensures(expand_inputs, (b,), Ok::<Vec<MediaPath>, InputNotFound>(fb)),
        call_ensures(expand_inputs, (all,), Ok::<Vec<MediaPath>, InputNotFound>(fall)),
    ensures
        path_views(fall@).to_multiset() == path_views(fa@).to_multiset().add(
            path_views(fb@).to_multiset(),
        ),
        fall@.len() == fa@.len() + fb@.len(),
{
    broadcast use vstd::seq_lib::group_to_multiset_ensures;

    lemma_found_adds_up(a@, b@);
    vstd::seq_lib::lemma_multiset_commutative(found_files(a@), found_files(b@));
    let x = path_views(fa@);
    let y = path_views(fb@);
    let z = path_views(fall@);
    assert(x.to_multiset().len() == x.len());
    assert(y.to_multiset().len() == y.len());
    assert(z.to_multiset().len() == z.len());
}

proof fn lemma_found_adds_up(a: Seq<InputEntry>, b: Seq<InputEntry>)
    ensures
        found_files(a + b) == found_files(a) + found_files(b),
    decreases b.len(),
{
    if b.len() == 0 {
        assert(a + b =~= a);
        assert(found_files(a) + found_files(b) =~= found_files(a));
    } else {
        assert((a + b).drop_last() =~= a + b.drop_last());
        assert((a + b).last() == b.last());
        lemma_found_adds_up(a, b.drop_last());
        assert(found_files(a + b) =~= found_files(a) + found_files(b));
    }
}

/// A batch fails at the first input that is not there, and only there.
pub proof fn law_missing_inputs_are_named(
    entries: &[InputEntry],
    r: Result<Vec<MediaPath>, InputNotFound>,
    i: int,
    name: String,
)
    requires
        call_ensures(expand_inputs, (entries,), r),
        0 <= i < entries@.len(),
        entries@[i] == InputEntry::Missing(name),
        forall|j: int| 0 <= j < i ==> !((#[trigger] entries@[j]) is Missing),
    ensures
        r matches Err(e) && e.name@ == name@,
{
    assert(entries@[i] is Missing);
}

/// Some paths share a directory exactly where there are paths and the first has a
/// directory; one path alone has its own.
pub proof fn law_one_path_shares_its_own_directory(paths: &[MediaPath], r: Option<MediaPath>)
    requires
        call_ensures(common_prefix, (paths,), r),
    ensures
        paths@.len() == 0 ==> r is None,
        paths@.len() > 0 ==> (r is None <==> parent_of(paths@[0]@) is None),
        paths@.len() == 1 ==> (r matches Some(d) ==> Some(d@) == parent_of(paths@[0]@)),
{
    if paths@.len() == 1 {
        assert(path_views(paths@).skip(1) =~= Seq::<Seq<PartText>>::empty());
    }
}

} // verus!
