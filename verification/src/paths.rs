//! Paths as lists of parts.
//!
//! A path is taken apart by the host, which knows its own separators and drive
//! prefixes; two paths with the same parts are the same path.

use crate::text::{
    chars_of, lemma_text_le_antisymmetric, lemma_text_le_total, lemma_text_le_transitive,
    same_text, slice_range, sorts_up_to, text_le, text_of,
};
use vstd::prelude::*;
use vstd::string::*;

verus! {

/// One part of a path.
#[derive(Debug)]
pub enum Part {
    /// A drive or share prefix.
    Prefix(String),
    /// The root directory.
    Root,
    /// `.`
    Here,
    /// `..`
    Up,
    /// A file or directory name.
    Name(String),
}

/// What a part says.
pub enum PartText {
    Prefix(Seq<char>),
    Root,
    Here,
    Up,
    Name(Seq<char>),
}

impl Part {
    pub open spec fn text(self) -> PartText {
        match self {
            Part::Prefix(s) => PartText::Prefix(s@),
            Part::Root => PartText::Root,
            Part::Here => PartText::Here,
            Part::Up => PartText::Up,
            Part::Name(s) => PartText::Name(s@),
        }
    }
}

impl Clone for Part {
    fn clone(&self) -> (r: Self)
        ensures
            r == *self,
    {
        match self {
            Part::Prefix(s) => Part::Prefix(s.clone()),
            Part::Root => Part::Root,
            Part::Here => Part::Here,
            Part::Up => Part::Up,
            Part::Name(s) => Part::Name(s.clone()),
        }
    }
}

/// A path.
#[derive(Debug)]
pub struct MediaPath {
    pub parts: Vec<Part>,
}

/// The texts of a list of parts.
pub open spec fn part_texts(v: Seq<Part>) -> Seq<PartText> {
    v.map_values(|p: Part| p.text())
}

impl View for MediaPath {
    type V = Seq<PartText>;

    open spec fn view(&self) -> Seq<PartText> {
        part_texts(self.parts@)
    }
}

impl Clone for MediaPath {
    fn clone(&self) -> (r: Self)
        ensures
            r@ == self@,
    {
        MediaPath { parts: copy_parts(self.parts.as_slice()) }
    }
}

fn copy_parts(v: &[Part]) -> (r: Vec<Part>)
    ensures
        r@ == v@,
{
    let mut out: Vec<Part> = Vec::new();
    let mut i: usize = 0;
    while i < v.len()
        invariant
            i <= v@.len(),
            out@ == v@.take(i as int),
        decreases v@.len() - i,
    {
        out.push(v[i].clone());
        i = i + 1;
        assert(v@.take(i as int) =~= v@.take(i - 1).push(v@[i - 1]));
    }
    assert(v@.take(v@.len() as int) =~= v@);
    out
}

// ---- names ----------------------------------------------------------------

/// The position of the last full stop of a name.
pub open spec fn last_dot(name: Seq<char>) -> Option<nat>
    decreases name.len(),
{
    if name.len() == 0 {
        None
    } else if name.last() == '.' {
        Some((name.len() - 1) as nat)
    } else {
        last_dot(name.drop_last())
    }
}

/// The position of the full stop in front of a name's extension. A full stop
/// that starts the name is part of the stem.
pub open spec fn extension_dot(name: Seq<char>) -> Option<nat> {
    match last_dot(name) {
        Some(i) => if i > 0 {
            Some(i)
        } else {
            None
        },
        None => None,
    }
}

/// A name without its extension.
pub open spec fn stem_of(name: Seq<char>) -> Seq<char> {
    match extension_dot(name) {
        Some(i) => name.take(i as int),
        None => name,
    }
}

/// The extension of a name.
pub open spec fn extension_of(name: Seq<char>) -> Option<Seq<char>> {
    match extension_dot(name) {
        Some(i) => Some(name.skip(i as int + 1)),
        None => None,
    }
}

fn find_extension_dot(v: &[char]) -> (r: Option<usize>)
    ensures
        match r {
            Some(i) => extension_dot(v@) == Some(i as nat) && 0 < i < v@.len(),
            None => extension_dot(v@) is None,
        },
{
    let mut n: usize = v.len();
    assert(v@.take(n as int) =~= v@);
    while n > 0
        invariant
            n <= v@.len(),
            last_dot(v@) == last_dot(v@.take(n as int)),
        decreases n,
    {
        if v[n - 1] == '.' {
            if n - 1 > 0 {
                return Some(n - 1);
            }
            return None;
        }
        assert(v@.take(n as int).drop_last() =~= v@.take(n - 1));
        n = n - 1;
    }
    None
}

/// The extension of a file name, without the full stop.
pub fn name_extension(name: &str) -> (r: Option<String>)
    ensures
        match r {
            Some(e) => extension_of(name@) == Some(e@),
            None => extension_of(name@) is None,
        },
{
    let v = chars_of(name);
    let n: usize = v.len();
    match find_extension_dot(v.as_slice()) {
        Some(i) => {
            let e = text_of(slice_range(v.as_slice(), i + 1, n));
            assert(e@ =~= v@.skip(i + 1));
            Some(e)
        },
        None => None,
    }
}

/// A name with its extension replaced; an empty extension is left out together
/// with its full stop.
pub open spec fn renamed(name: Seq<char>, extension: Seq<char>) -> Seq<char> {
    if extension.len() == 0 {
        stem_of(name)
    } else {
        stem_of(name) + "."@ + extension
    }
}

fn rename(name: &str, extension: &str) -> (r: String)
    ensures
        r@ == renamed(name@, extension@),
{
    let v = chars_of(name);
    let end: usize = match find_extension_dot(v.as_slice()) {
        Some(i) => i,
        None => v.len(),
    };
    let mut s = text_of(slice_range(v.as_slice(), 0, end));
    assert(s@ =~= stem_of(name@));
    if !extension.is_empty() {
        s.append(".");
        s.append(extension);
    }
    s
}

// ---- operations -----------------------------------------------------------

/// The name that a path ends in.
pub open spec fn file_name_of(p: Seq<PartText>) -> Option<Seq<char>> {
    if p.len() == 0 {
        None
    } else {
        match p.last() {
            PartText::Name(s) => Some(s),
            _ => None,
        }
    }
}

/// The extension of the name that a path ends in.
pub open spec fn path_extension(p: Seq<PartText>) -> Option<Seq<char>> {
    match file_name_of(p) {
        Some(n) => extension_of(n),
        None => None,
    }
}

/// The path without its last part. A path that ends in a root or a prefix, and
/// the empty path, have no parent.
pub open spec fn parent_of(p: Seq<PartText>) -> Option<Seq<PartText>> {
    if p.len() == 0 || p.last() is Root || p.last() is Prefix {
        None
    } else {
        Some(p.drop_last())
    }
}

/// Whether the parts of `base` are the first parts of `p`.
pub open spec fn path_starts_with(p: Seq<PartText>, base: Seq<PartText>) -> bool {
    base.len() <= p.len() && p.take(base.len() as int) == base
}

/// `rel` seen from `base`. A path with a prefix stands for itself; one with a
/// root keeps only the prefix of `base`.
pub open spec fn joined(base: Seq<PartText>, rel: Seq<PartText>) -> Seq<PartText> {
    if rel.len() == 0 {
        base
    } else if rel[0] is Prefix {
        rel
    } else if rel[0] is Root {
        if base.len() > 0 && base[0] is Prefix {
            base.take(1) + rel
        } else {
            rel
        }
    } else if rel[0] is Here && base.len() > 0 {
        base + rel.skip(1)
    } else {
        base + rel
    }
}

/// The path with the extension of its file name replaced; a path without a file
/// name is unchanged.
pub open spec fn with_extension(p: Seq<PartText>, extension: Seq<char>) -> Seq<PartText> {
    match file_name_of(p) {
        Some(n) => p.drop_last().push(PartText::Name(renamed(n, extension))),
        None => p,
    }
}

/// How a path reads with a given separator: none behind a prefix or a root.
pub open spec fn path_text(p: Seq<PartText>, sep: char) -> Seq<char>
    decreases p.len(),
{
    if p.len() == 0 {
        Seq::empty()
    } else {
        let front = p.drop_last();
        let glue = if front.len() == 0 || front.last() is Root || front.last() is Prefix {
            Seq::empty()
        } else {
            seq![sep]
        };
        match p.last() {
            PartText::Prefix(s) => path_text(front, sep) + s,
            PartText::Root => path_text(front, sep).push(sep),
            PartText::Here => path_text(front, sep) + glue + "."@,
            PartText::Up => path_text(front, sep) + glue + ".."@,
            PartText::Name(s) => path_text(front, sep) + glue + s,
        }
    }
}

fn same_part(a: &Part, b: &Part) -> (r: bool)
    ensures
        r == (a.text() == b.text()),
{
    match (a, b) {
        (Part::Prefix(x), Part::Prefix(y)) => same_text(x.as_str(), y.as_str()),
        (Part::Root, Part::Root) => true,
        (Part::Here, Part::Here) => true,
        (Part::Up, Part::Up) => true,
        (Part::Name(x), Part::Name(y)) => same_text(x.as_str(), y.as_str()),
        _ => false,
    }
}

impl MediaPath {
    pub fn file_name(&self) -> (r: Option<String>)
        ensures
            match r {
                Some(n) => file_name_of(self@) == Some(n@),
                None => file_name_of(self@) is None,
            },
    {
        if self.parts.len() == 0 {
            return None;
        }
        match &self.parts[self.parts.len() - 1] {
            Part::Name(s) => Some(s.clone()),
            _ => None,
        }
    }

    /// The file name without its extension.
    pub fn file_stem(&self) -> (r: Option<String>)
        ensures
            match r {
                Some(s) => file_name_of(self@) is Some && s@ == stem_of(file_name_of(self@)->0),
                None => file_name_of(self@) is None,
            },
    {
        match self.file_name() {
            Some(n) => {
                let v = chars_of(n.as_str());
                let end: usize = match find_extension_dot(v.as_slice()) {
                    Some(i) => i,
                    None => v.len(),
                };
                let s = text_of(slice_range(v.as_slice(), 0, end));
                assert(s@ =~= stem_of(n@));
                Some(s)
            },
            None => None,
        }
    }

    pub fn extension(&self) -> (r: Option<String>)
        ensures
            match r {
                Some(e) => path_extension(self@) == Some(e@),
                None => path_extension(self@) is None,
            },
    {
        match self.file_name() {
            Some(n) => name_extension(n.as_str()),
            None => None,
        }
    }

    pub fn parent(&self) -> (r: Option<MediaPath>)
        ensures
            match r {
                Some(p) => parent_of(self@) == Some(p@),
                None => parent_of(self@) is None,
            },
    {
        let n: usize = self.parts.len();
        if n == 0 {
            return None;
        }
        match &self.parts[n - 1] {
            Part::Root => None,
            Part::Prefix(_) => None,
            _ => {
                let p = MediaPath {
                    parts: copy_parts(vstd::slice::slice_subrange(self.parts.as_slice(), 0, n - 1)),
                };
                assert(p@ =~= self@.drop_last());
                Some(p)
            },
        }
    }

    pub fn starts_with(&self, base: &MediaPath) -> (r: bool)
        ensures
            r == path_starts_with(self@, base@),
    {
        if base.parts.len() > self.parts.len() {
            return false;
        }
        let mut i: usize = 0;
        while i < base.parts.len()
            invariant
                i <= base.parts@.len() <= self.parts@.len(),
                forall|j: int| 0 <= j < i ==> self@[j] == base@[j],
            decreases base.parts@.len() - i,
        {
            if !same_part(&self.parts[i], &base.parts[i]) {
                assert(self@.take(base@.len() as int)[i as int] != base@[i as int]);
                return false;
            }
            i = i + 1;
        }
        assert(self@.take(base@.len() as int) =~= base@);
        true
    }

    /// What follows `base`, if the path starts with it.
    pub fn strip_prefix(&self, base: &MediaPath) -> (r: Option<MediaPath>)
        ensures
            match r {
                Some(p) => path_starts_with(self@, base@) && p@ == self@.skip(base@.len() as int),
                None => !path_starts_with(self@, base@),
            },
    {
        if !self.starts_with(base) {
            return None;
        }
        let p = MediaPath {
            parts: copy_parts(
                vstd::slice::slice_subrange(
                    self.parts.as_slice(),
                    base.parts.len(),
                    self.parts.len(),
                ),
            ),
        };
        assert(p@ =~= self@.skip(base@.len() as int));
        Some(p)
    }

    pub fn join(&self, rel: &MediaPath) -> (r: MediaPath)
        ensures
            r@ == joined(self@, rel@),
    {
        let n: usize = rel.parts.len();
        let mut keep: usize = self.parts.len();
        let mut from: usize = 0;
        if n > 0 {
            match &rel.parts[0] {
                Part::Prefix(_) => {
                    keep = 0;
                },
                Part::Root => {
                    keep = 0;
                    if self.parts.len() > 0 {
                        if let Part::Prefix(_) = &self.parts[0] {
                            keep = 1;
                        }
                    }
                },
                Part::Here => {
                    if keep > 0 {
                        from = 1;
                    }
                },
                _ => {},
            }
        }
        let mut parts = copy_parts(vstd::slice::slice_subrange(self.parts.as_slice(), 0, keep));
        let mut tail = copy_parts(vstd::slice::slice_subrange(rel.parts.as_slice(), from, n));
        parts.append(&mut tail);
        let r = MediaPath { parts };
        assert(r@ =~= self@.take(keep as int) + rel@.skip(from as int));
        assert(r@ =~= joined(self@, rel@));
        r
    }

    pub fn set_extension(self, extension: &str) -> (r: MediaPath)
        ensures
            r@ == with_extension(self@, extension@),
    {
        let name = match self.file_name() {
            Some(n) => n,
            None => {
                return self;
            },
        };
        let mut parts = self.parts;
        let ghost before = parts@;
        let _ = parts.pop();
        let renamed_name = rename(name.as_str(), extension);
        parts.push(Part::Name(renamed_name));
        let r = MediaPath { parts };
        assert(r@ =~= part_texts(before).drop_last().push(PartText::Name(renamed_name@)));
        r
    }

    /// The path as text.
    pub fn to_text(&self, sep: char) -> (r: String)
        ensures
            r@ == path_text(self@, sep),
    {
        let mut s = String::new();
        let mut i: usize = 0;
        let mut glue = false;
        while i < self.parts.len()
            invariant
                i <= self.parts@.len(),
                s@ == path_text(self@.take(i as int), sep),
                glue == (i > 0 && !(self@[i - 1] is Root) && !(self@[i - 1] is Prefix)),
            decreases self.parts@.len() - i,
        {
            proof {
                assert(self@.take(i + 1).drop_last() =~= self@.take(i as int));
                assert(self@.take(i + 1).last() == self@[i as int]);
                if i > 0 {
                    assert(self@.take(i as int).last() == self@[i - 1]);
                }
            }
            let ghost before = s@;
            match &self.parts[i] {
                Part::Prefix(x) => {
                    s.append(x.as_str());
                    glue = false;
                },
                Part::Root => {
                    s.push(sep);
                    glue = false;
                },
                Part::Here => {
                    if glue {
                        s.push(sep);
                        assert(s@ =~= before + seq![sep]);
                    } else {
                        assert(s@ =~= before + Seq::<char>::empty());
                    }
                    s.append(".");
                    glue = true;
                },
                Part::Up => {
                    if glue {
                        s.push(sep);
                        assert(s@ =~= before + seq![sep]);
                    } else {
                        assert(s@ =~= before + Seq::<char>::empty());
                    }
                    s.append("..");
                    glue = true;
                },
                Part::Name(x) => {
                    if glue {
                        s.push(sep);
                        assert(s@ =~= before + seq![sep]);
                    } else {
                        assert(s@ =~= before + Seq::<char>::empty());
                    }
                    s.append(x.as_str());
                    glue = true;
                },
            }
            i = i + 1;
        }
        assert(self@.take(self@.len() as int) =~= self@);
        s
    }
}

// ---- order ----------------------------------------------------------------

/// Prefixes sort before roots, roots before `.`, `.` before `..`, and all of
/// them before names.
pub open spec fn part_rank(p: PartText) -> int {
    match p {
        PartText::Prefix(_) => 0,
        PartText::Root => 1,
        PartText::Here => 2,
        PartText::Up => 3,
        PartText::Name(_) => 4,
    }
}

pub open spec fn part_word(p: PartText) -> Seq<char> {
    match p {
        PartText::Prefix(s) => s,
        PartText::Name(s) => s,
        _ => Seq::empty(),
    }
}

/// The order of parts: by rank, then by text.
pub open spec fn part_le(a: PartText, b: PartText) -> bool {
    part_rank(a) < part_rank(b) || (part_rank(a) == part_rank(b) && text_le(
        part_word(a),
        part_word(b),
    ))
}

/// The order of paths: part by part, a leading path first.
pub open spec fn path_le(a: Seq<PartText>, b: Seq<PartText>) -> bool
    decreases a.len(),
{
    a.len() == 0 || (b.len() > 0 && ((a[0] != b[0] && part_le(a[0], b[0])) || (a[0] == b[0]
        && path_le(a.skip(1), b.skip(1)))))
}

proof fn lemma_part_le(a: PartText, b: PartText)
    ensures
        part_le(a, b) || part_le(b, a),
        part_le(a, b) && part_le(b, a) ==> a == b,
{
    lemma_text_le_total(part_word(a), part_word(b));
    if part_le(a, b) && part_le(b, a) {
        lemma_text_le_antisymmetric(part_word(a), part_word(b));
    }
}

pub proof fn lemma_path_le_total(a: Seq<PartText>, b: Seq<PartText>)
    ensures
        path_le(a, b) || path_le(b, a),
    decreases a.len(),
{
    if a.len() > 0 && b.len() > 0 {
        lemma_part_le(a[0], b[0]);
        lemma_path_le_total(a.skip(1), b.skip(1));
    }
}

pub proof fn lemma_path_le_transitive(a: Seq<PartText>, b: Seq<PartText>, c: Seq<PartText>)
    requires
        path_le(a, b),
        path_le(b, c),
    ensures
        path_le(a, c),
    decreases a.len(),
{
    if a.len() > 0 {
        if a[0] == b[0] && b[0] == c[0] {
            lemma_path_le_transitive(a.skip(1), b.skip(1), c.skip(1));
        } else if a[0] != b[0] && b[0] != c[0] {
            lemma_part_le(a[0], b[0]);
            lemma_part_le(b[0], c[0]);
            if part_rank(a[0]) == part_rank(b[0]) && part_rank(b[0]) == part_rank(c[0]) {
                lemma_text_le_transitive(part_word(a[0]), part_word(b[0]), part_word(c[0]));
            }
        }
    }
}

pub proof fn lemma_path_le_antisymmetric(a: Seq<PartText>, b: Seq<PartText>)
    requires
        path_le(a, b),
        path_le(b, a),
    ensures
        a == b,
    decreases a.len(),
{
    if a.len() > 0 && b.len() > 0 {
        lemma_part_le(a[0], b[0]);
        lemma_path_le_antisymmetric(a.skip(1), b.skip(1));
        assert(a =~= seq![a[0]] + a.skip(1));
        assert(b =~= seq![b[0]] + b.skip(1));
    } else {
        assert(a =~= b);
    }
}

fn rank(p: &Part) -> (r: u8)
    ensures
        r == part_rank(p.text()),
{
    match p {
        Part::Prefix(_) => 0,
        Part::Root => 1,
        Part::Here => 2,
        Part::Up => 3,
        Part::Name(_) => 4,
    }
}

fn word(p: &Part) -> (r: &str)
    ensures
        r@ == part_word(p.text()),
{
    match p {
        Part::Prefix(s) => s.as_str(),
        Part::Name(s) => s.as_str(),
        _ => {
            let e: &str = "";
            proof {
                reveal_strlit("");
            }
            assert(e@ =~= Seq::<char>::empty());
            e
        },
    }
}

impl MediaPath {
    /// Whether the path sorts before `other` or equals it.
    pub fn sorts_up_to(&self, other: &MediaPath) -> (r: bool)
        ensures
            r == path_le(self@, other@),
    {
        let mut i: usize = 0;
        assert(self@.skip(0) =~= self@);
        assert(other@.skip(0) =~= other@);
        loop
            invariant
                i <= self.parts@.len(),
                i <= other.parts@.len(),
                path_le(self@, other@) == path_le(self@.skip(i as int), other@.skip(i as int)),
            decreases self.parts@.len() - i,
        {
            if i == self.parts.len() {
                return true;
            }
            if i == other.parts.len() {
                return false;
            }
            let a = &self.parts[i];
            let b = &other.parts[i];
            assert(self@.skip(i as int)[0] == a.text());
            assert(other@.skip(i as int)[0] == b.text());
            if !same_part(a, b) {
                let x: u8 = rank(a);
                let y: u8 = rank(b);
                return x < y || (x == y && sorts_up_to(word(a), word(b)));
            }
            assert(self@.skip(i as int).skip(1) =~= self@.skip(i + 1));
            assert(other@.skip(i as int).skip(1) =~= other@.skip(i + 1));
            i = i + 1;
        }
    }
}

// ---- laws -----------------------------------------------------------------

proof fn lemma_last_dot(front: Seq<char>, ext: Seq<char>)
    requires
        !ext.contains('.'),
    ensures
        last_dot(front + ext) == last_dot(front),
    decreases ext.len(),
{
    if ext.len() == 0 {
        assert(front + ext =~= front);
    } else {
        let all = front + ext;
        assert(all.last() == ext.last());
        assert(ext.contains(ext.last()));
        assert(all.drop_last() =~= front + ext.drop_last());
        assert(!ext.drop_last().contains('.')) by {
            if ext.drop_last().contains('.') {
                let i = choose|i: int| 0 <= i < ext.drop_last().len() && ext.drop_last()[i] == '.';
                assert(ext[i] == '.');
            }
        }
        lemma_last_dot(front, ext.drop_last());
    }
}

/// A file name is its stem, a full stop and its extension: the extension is what
/// stands behind the last full stop, unless that starts the name.
pub proof fn law_names_split_at_the_last_full_stop(
    p: MediaPath,
    stem: Seq<char>,
    ext: Seq<char>,
    rs: Option<String>,
    re: Option<String>,
)
    requires
        call_ensures(MediaPath::file_stem, (&p,), rs),
        call_ensures(MediaPath::extension, (&p,), re),
        p@.len() > 0,
        !ext.contains('.'),
    ensures
        p@.last() == PartText::Name(stem + seq!['.'] + ext) && stem.len() > 0 ==> (
        rs matches Some(s) && s@ == stem) && (re matches Some(e) && e@ == ext),
        p@.last() == PartText::Name(seq!['.'] + ext) ==> (rs matches Some(s) && s@ == seq!['.']
            + ext) && re is None,
        p@.last() == PartText::Name(ext) ==> (rs matches Some(s) && s@ == ext) && re is None,
        !(p@.last() is Name) ==> rs is None && re is None,
{
    let none = Seq::<char>::empty();
    let name = stem + seq!['.'] + ext;
    lemma_last_dot(stem + seq!['.'], ext);
    assert((stem + seq!['.']).last() == '.');
    assert(name.take(stem.len() as int) =~= stem);
    assert(name.skip(stem.len() as int + 1) =~= ext);
    lemma_last_dot(seq!['.'], ext);
    assert(seq!['.'].last() == '.');
    lemma_last_dot(none, ext);
    assert(none + ext =~= ext);
}

/// Giving a path another extension changes nothing but the extension of its file
/// name: directory and stem stay, and the new extension is the one that is given.
pub proof fn law_only_the_extension_changes(
    p: MediaPath,
    extension: &str,
    r: MediaPath,
    before: Option<String>,
    after: Option<String>,
    found: Option<String>,
)
    requires
        call_ensures(MediaPath::set_extension, (p, extension), r),
        call_ensures(MediaPath::file_stem, (&p,), before),
        call_ensures(MediaPath::file_stem, (&r,), after),
        call_ensures(MediaPath::extension, (&r,), found),
        !extension@.contains('.'),
        extension@.len() > 0,
        before matches Some(s) && s@.len() > 0,
    ensures
        r@.len() == p@.len(),
        r@.drop_last() == p@.drop_last(),
        after matches Some(s) && s@ == before->0@,
        found matches Some(e) && e@ == extension@,
{
    reveal_strlit(".");
    let stem = before->0@;
    assert("."@ =~= seq!['.']);
    let name = stem + seq!['.'] + extension@;
    assert(r@.last() == PartText::Name(name));
    assert(r@.drop_last() =~= p@.drop_last());
    lemma_last_dot(stem + seq!['.'], extension@);
    assert((stem + seq!['.']).last() == '.');
    assert(name.take(stem.len() as int) =~= stem);
    assert(name.skip(stem.len() as int + 1) =~= extension@);
}

/// Joining and stripping undo each other: a relative path that is joined to a
/// directory lies below it, and what follows the directory is the relative path.
pub proof fn law_joined_paths_are_stripped_again(
    base: MediaPath,
    rel: MediaPath,
    all: MediaPath,
    below: bool,
    rest: Option<MediaPath>,
)
    requires
        call_ensures(MediaPath::join, (&base, &rel), all),
        call_ensures(MediaPath::starts_with, (&all, &base), below),
        call_ensures(MediaPath::strip_prefix, (&all, &base), rest),
        rel@.len() > 0,
        rel@[0] is Name || rel@[0] is Up,
    ensures
        below,
        rest matches Some(p) && p@ == rel@,
        all@.len() == base@.len() + rel@.len(),
{
    assert(all@.take(base@.len() as int) =~= base@);
    assert(all@.skip(base@.len() as int) =~= rel@);
}

/// A path that starts at a root or with a prefix stands for itself wherever it is
/// joined to; a root keeps the prefix it is joined to.
pub proof fn law_absolute_paths_stand_for_themselves(base: MediaPath, rel: MediaPath, r: MediaPath)
    requires
        call_ensures(MediaPath::join, (&base, &rel), r),
    ensures
        rel@.len() > 0 && rel@[0] is Prefix ==> r@ == rel@,
        rel@.len() > 0 && rel@[0] is Root && (base@.len() == 0 || !(base@[0] is Prefix)) ==> r@
            == rel@,
        rel@.len() > 0 && rel@[0] is Root && base@.len() > 0 && base@[0] is Prefix ==> r@
            == seq![base@[0]] + rel@,
        rel@.len() == 0 ==> r@ == base@,
        rel@.len() == 1 && rel@[0] is Here && base@.len() > 0 ==> r@ == base@,
{
    if base@.len() > 0 {
        assert(base@.take(1) =~= seq![base@[0]]);
    }
    if rel@.len() == 1 {
        assert(base@ + rel@.skip(1) =~= base@);
    }
}

/// A path lies in its parent, under the name that it ends in.
pub proof fn law_parents_hold_their_paths(
    p: MediaPath,
    up: Option<MediaPath>,
    name: Option<String>,
)
    requires
        call_ensures(MediaPath::parent, (&p,), up),
        call_ensures(MediaPath::file_name, (&p,), name),
    ensures
        name matches Some(n) ==> (up matches Some(d) && p@ == d@.push(PartText::Name(n@))),
        up matches Some(d) ==> p@.len() == d@.len() + 1 && path_starts_with(p@, d@),
        up is None <==> p@.len() == 0 || p@.last() is Root || p@.last() is Prefix,
        name is None <==> p@.len() == 0 || !(p@.last() is Name),
{
    if p@.len() > 0 {
        assert(p@ =~= p@.drop_last().push(p@.last()));
        assert(p@.take(p@.len() - 1) =~= p@.drop_last());
    }
}

/// A path reads part by part: a separator stands between two names, for a root,
/// and nowhere else.
pub proof fn law_paths_read_part_by_part(
    dir: MediaPath,
    p: MediaPath,
    last: PartText,
    sep: char,
    front: String,
    r: String,
)
    requires
        call_ensures(MediaPath::to_text, (&dir, sep), front),
        call_ensures(MediaPath::to_text, (&p, sep), r),
        p@ == dir@.push(last),
    ensures
        ({
            let open = dir@.len() == 0 || dir@.last() is Root || dir@.last() is Prefix;
            &&& last matches PartText::Name(n) ==> r@ == (if open {
                front@ + n
            } else {
                front@.push(sep) + n
            })
            &&& last is Root ==> r@ == front@.push(sep)
            &&& last matches PartText::Prefix(s) ==> r@ == front@ + s
            &&& last is Here ==> r@ == (if open {
                front@.push('.')
            } else {
                front@.push(sep).push('.')
            })
            &&& last is Up ==> r@ == (if open {
                front@.push('.').push('.')
            } else {
                front@.push(sep).push('.').push('.')
            })
        }),
        dir@.len() == 0 ==> front@.len() == 0,
{
    reveal_strlit(".");
    reveal_strlit("..");
    assert(p@.drop_last() =~= dir@);
    assert(p@.last() == last);
    assert(r@ == path_text(p@, sep));
    let open = dir@.len() == 0 || dir@.last() is Root || dir@.last() is Prefix;
    match last {
        PartText::Name(n) => {
            if open {
                assert(r@ =~= front@ + n);
            } else {
                assert(r@ =~= front@.push(sep) + n);
            }
        },
        PartText::Here => {
            if open {
                assert(r@ =~= front@.push('.'));
            } else {
                assert(r@ =~= front@.push(sep).push('.'));
            }
        },
        PartText::Up => {
            if open {
                assert(r@ =~= front@.push('.').push('.'));
            } else {
                assert(r@ =~= front@.push(sep).push('.').push('.'));
            }
        },
        _ => {},
    }
}

/// Paths are ordered by the first part in which they differ: names by their
/// texts, and before any name `..`, before that `.`, before that a root, and
/// first a prefix. A directory comes before what lies in it.
pub proof fn law_paths_order_by_their_first_difference(
    a: MediaPath,
    b: MediaPath,
    p: Seq<PartText>,
    x: Seq<PartText>,
    y: Seq<PartText>,
    up: bool,
    down: bool,
)
    requires
        call_ensures(MediaPath::sorts_up_to, (&a, &b), up),
        call_ensures(MediaPath::sorts_up_to, (&b, &a), down),
        a@ == p + x,
        b@ == p + y,
        y.len() > 0,
        x.len() > 0 ==> match (x[0], y[0]) {
            (PartText::Name(s), PartText::Name(t)) => text_le(s, t) && s != t,
            (PartText::Prefix(s), PartText::Prefix(t)) => text_le(s, t) && s != t,
            (_, PartText::Name(_)) => true,
            (PartText::Prefix(_), _) => true,
            (PartText::Root, PartText::Here) => true,
            (PartText::Root, PartText::Up) => true,
            (PartText::Here, PartText::Up) => true,
            _ => false,
        },
    ensures
        up,
        !down,
{
    lemma_common_parts(p, x, y);
    lemma_common_parts(p, y, x);
    if x.len() > 0 {
        lemma_part_le(x[0], y[0]);
    }
}

proof fn lemma_common_parts(p: Seq<PartText>, x: Seq<PartText>, y: Seq<PartText>)
    ensures
        path_le(p + x, p + y) == path_le(x, y),
    decreases p.len(),
{
    if p.len() == 0 {
        assert(p + x =~= x);
        assert(p + y =~= y);
    } else {
        assert((p + x).skip(1) =~= p.skip(1) + x);
        assert((p + y).skip(1) =~= p.skip(1) + y);
        lemma_common_parts(p.skip(1), x, y);
    }
}

} // verus!
