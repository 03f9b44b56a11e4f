//! A map from texts to texts, kept in the order of its keys.

use crate::text::{
    lemma_text_le_antisymmetric, lemma_text_le_total, lemma_text_le_transitive, opt_text, same_text,
    sorts_up_to, text_le,
};
use vstd::prelude::*;
use vstd::string::*;

verus! {

/// One key with its value.
#[derive(Debug)]
pub struct TextEntry {
    pub key: String,
    pub value: String,
}

/// A map from texts to texts. Its entries stand in ascending order of their
/// keys, and no key occurs twice.
#[derive(Debug)]
pub struct TextMap {
    pub entries: Vec<TextEntry>,
}

/// The keys and values of a list of entries.
pub open spec fn pairs(v: Seq<TextEntry>) -> Seq<(Seq<char>, Seq<char>)> {
    v.map_values(|e: TextEntry| (e.key@, e.value@))
}

/// Whether one text sorts before another.
pub open spec fn text_lt(a: Seq<char>, b: Seq<char>) -> bool {
    text_le(a, b) && a != b
}

/// Whether the keys stand in ascending order, each once.
pub open spec fn keys_ascend(s: Seq<(Seq<char>, Seq<char>)>) -> bool {
    forall|i: int, j: int| 0 <= i < j < s.len() ==> text_lt((#[trigger] s[i]).0, (#[trigger] s[j]).0)
}

/// The entries after a key was given a value, unless it had one.
pub open spec fn placed(
    s: Seq<(Seq<char>, Seq<char>)>,
    key: Seq<char>,
    value: Seq<char>,
) -> Seq<(Seq<char>, Seq<char>)>
    decreases s.len(),
{
    if s.len() == 0 {
        seq![(key, value)]
    } else if s[0].0 == key {
        s
    } else if text_le(key, s[0].0) {
        seq![(key, value)] + s
    } else {
        seq![s[0]] + placed(s.skip(1), key, value)
    }
}

/// The value of a key.
pub open spec fn lookup(s: Seq<(Seq<char>, Seq<char>)>, key: Seq<char>) -> Option<Seq<char>>
    decreases s.len(),
{
    if s.len() == 0 {
        None
    } else if s[0].0 == key {
        Some(s[0].1)
    } else {
        lookup(s.skip(1), key)
    }
}

/// A key that is placed keeps the value it had, and gets the new one where it
/// had none.
pub proof fn law_first_value_wins(
    s: Seq<(Seq<char>, Seq<char>)>,
    key: Seq<char>,
    value: Seq<char>,
)
    requires
        keys_ascend(s),
    ensures
        lookup(placed(s, key, value), key) == match lookup(s, key) {
            Some(v) => Some(v),
            None => Some(value),
        },
    decreases s.len(),
{
    if s.len() == 0 {
    } else if s[0].0 == key {
    } else if text_le(key, s[0].0) {
        lemma_absent(s, key);
        assert((seq![(key, value)] + s)[0] == (key, value));
    } else {
        law_first_value_wins(s.skip(1), key, value);
        let p = seq![s[0]] + placed(s.skip(1), key, value);
        assert(p.skip(1) =~= placed(s.skip(1), key, value));
        assert(p[0] == s[0]);
    }
}

/// Placing one key leaves every other key as it was.
pub proof fn law_other_keys_stay(
    s: Seq<(Seq<char>, Seq<char>)>,
    key: Seq<char>,
    value: Seq<char>,
    other: Seq<char>,
)
    requires
        other != key,
    ensures
        lookup(placed(s, key, value), other) == lookup(s, other),
    decreases s.len(),
{
    if s.len() == 0 {
        assert(placed(s, key, value).skip(1) =~= s);
    } else if s[0].0 == key {
    } else if text_le(key, s[0].0) {
        let p = seq![(key, value)] + s;
        assert(p.skip(1) =~= s);
        assert(p[0] == (key, value));
    } else {
        law_other_keys_stay(s.skip(1), key, value, other);
        let p = seq![s[0]] + placed(s.skip(1), key, value);
        assert(p.skip(1) =~= placed(s.skip(1), key, value));
        assert(p[0] == s[0]);
    }
}

proof fn lemma_skip_ascends(s: Seq<(Seq<char>, Seq<char>)>)
    requires
        keys_ascend(s),
        s.len() > 0,
    ensures
        keys_ascend(s.skip(1)),
{
    assert forall|i: int, j: int| 0 <= i < j < s.skip(1).len() implies text_lt(
        (#[trigger] s.skip(1)[i]).0,
        (#[trigger] s.skip(1)[j]).0,
    ) by {
        assert(s.skip(1)[i] == s[i + 1]);
        assert(s.skip(1)[j] == s[j + 1]);
    }
}

/// A key that sorts before the first one, or equals none, is absent.
proof fn lemma_absent(s: Seq<(Seq<char>, Seq<char>)>, key: Seq<char>)
    requires
        keys_ascend(s),
        s.len() > 0,
        text_lt(key, s[0].0),
    ensures
        lookup(s, key) is None,
    decreases s.len(),
{
    if s.len() > 1 {
        lemma_skip_ascends(s);
        assert(s.skip(1)[0] == s[1]);
        lemma_text_le_transitive(key, s[0].0, s[1].0);
        if key == s[1].0 {
            lemma_text_le_antisymmetric(key, s[0].0);
        }
        lemma_absent(s.skip(1), key);
    } else {
        assert(lookup(s.skip(1), key) is None);
    }
}

/// Where all keys before `i` sort before `key`, the key is placed among those
/// from `i` on.
proof fn lemma_placed_at(
    s: Seq<(Seq<char>, Seq<char>)>,
    key: Seq<char>,
    value: Seq<char>,
    i: int,
)
    requires
        0 <= i <= s.len(),
        forall|j: int| 0 <= j < i ==> !text_le(key, (#[trigger] s[j]).0),
    ensures
        placed(s, key, value) == s.take(i) + placed(s.skip(i), key, value),
    decreases i,
{
    if i == 0 {
        assert(s.take(0) + placed(s.skip(0), key, value) =~= placed(s, key, value)) by {
            assert(s.skip(0) =~= s);
        }
    } else {
        assert(!text_le(key, s[0].0));
        lemma_text_le_total(key, key);
        assert(s[0].0 != key);
        assert forall|j: int| 0 <= j < i - 1 implies !text_le(key, (#[trigger] s.skip(1)[j]).0) by {
            assert(s.skip(1)[j] == s[j + 1]);
        }
        lemma_placed_at(s.skip(1), key, value, i - 1);
        assert(s.skip(1).skip(i - 1) =~= s.skip(i));
        assert(s.take(i) =~= seq![s[0]] + s.skip(1).take(i - 1));
        assert(placed(s, key, value) =~= s.take(i) + placed(s.skip(i), key, value));
    }
}

impl View for TextMap {
    type V = Seq<(Seq<char>, Seq<char>)>;

    open spec fn view(&self) -> Seq<(Seq<char>, Seq<char>)> {
        pairs(self.entries@)
    }
}

impl Clone for TextMap {
    fn clone(&self) -> (r: Self)
        ensures
            r@ == self@,
    {
        let mut entries: Vec<TextEntry> = Vec::new();
        let mut i: usize = 0;
        while i < self.entries.len()
            invariant
                i <= self.entries@.len(),
                pairs(entries@) == self@.take(i as int),
            decreases self.entries@.len() - i,
        {
            let e = &self.entries[i];
            let ghost before = entries@;
            entries.push(TextEntry { key: e.key.clone(), value: e.value.clone() });
            i = i + 1;
            assert(pairs(entries@) =~= pairs(before).push(self@[i - 1]));
            assert(self@.take(i as int) =~= self@.take(i - 1).push(self@[i - 1]));
        }
        assert(self@.take(self@.len() as int) =~= self@);
        TextMap { entries }
    }
}

impl TextMap {
    /// The order of the keys.
    pub open spec fn wf(&self) -> bool {
        keys_ascend(self@)
    }

    pub fn new() -> (r: TextMap)
        ensures
            r@ == Seq::<(Seq<char>, Seq<char>)>::empty(),
            r.wf(),
    {
        let r = TextMap { entries: Vec::new() };
        assert(r@ =~= Seq::<(Seq<char>, Seq<char>)>::empty());
        r
    }

    pub fn is_empty(&self) -> (r: bool)
        ensures
            r == (self@.len() == 0),
    {
        self.entries.len() == 0
    }

    /// Gives `key` the value, unless it has one already.
    pub fn insert_if_absent(&mut self, key: String, value: String)
        requires
            old(self).wf(),
        ensures
            final(self).wf(),
            final(self)@ == placed(old(self)@, key@, value@),
    {
        let ghost s = self@;
        let mut i: usize = 0;
        while i < self.entries.len() && !sorts_up_to(key.as_str(), self.entries[i].key.as_str())
            invariant
                i <= self.entries@.len(),
                self@ == s,
                forall|j: int| 0 <= j < i ==> !text_le(key@, (#[trigger] s[j]).0),
            decreases self.entries@.len() - i,
        {
            assert(s[i as int].0 == self.entries@[i as int].key@);
            i = i + 1;
        }
        proof {
            lemma_placed_at(s, key@, value@, i as int);
            assert(i < s.len() ==> s[i as int].0 == self.entries@[i as int].key@);
            if i < s.len() {
                assert(s.skip(i as int)[0] == s[i as int]);
            }
        }
        if i < self.entries.len() && same_text(key.as_str(), self.entries[i].key.as_str()) {
            assert(s.take(i as int) + s.skip(i as int) =~= s);
            return;
        }
        let ghost k = key@;
        let ghost v = value@;
        let entry = TextEntry { key, value };
        self.entries.insert(i, entry);
        proof {
            assert(self@ =~= s.take(i as int) + (seq![(k, v)] + s.skip(i as int)));
            assert(self@ =~= s.insert(i as int, (k, v)));
            assert(placed(s.skip(i as int), k, v) =~= seq![(k, v)] + s.skip(i as int));
            lemma_inserted_ascends(s, k, v, i as int);
        }
    }

    /// The value of a key, if it has one.
    pub fn get(&self, key: &str) -> (r: Option<String>)
        ensures
            opt_text(r) == lookup(self@, key@),
    {
        let mut i: usize = 0;
        let ghost s = self@;
        assert(s.skip(0) =~= s);
        while i < self.entries.len()
            invariant
                i <= self.entries@.len(),
                s == self@,
                lookup(s, key@) == lookup(s.skip(i as int), key@),
            decreases self.entries@.len() - i,
        {
            assert(s.skip(i as int)[0] == s[i as int]);
            assert(s[i as int] == (self.entries@[i as int].key@, self.entries@[i as int].value@));
            if same_text(self.entries[i].key.as_str(), key) {
                return Some(self.entries[i].value.clone());
            }
            assert(s.skip(i as int).skip(1) =~= s.skip(i + 1));
            i = i + 1;
        }
        None
    }
}

proof fn lemma_inserted_ascends(
    s: Seq<(Seq<char>, Seq<char>)>,
    key: Seq<char>,
    value: Seq<char>,
    i: int,
)
    requires
        keys_ascend(s),
        0 <= i <= s.len(),
        forall|j: int| 0 <= j < i ==> !text_le(key, (#[trigger] s[j]).0),
        i < s.len() ==> text_lt(key, s[i].0),
    ensures
        keys_ascend(s.insert(i, (key, value))),
{
    let t = s.insert(i, (key, value));
    assert forall|a: int, b: int| 0 <= a < b < t.len() implies text_lt(
        (#[trigger] t[a]).0,
        (#[trigger] t[b]).0,
    ) by {
        if b < i {
            assert(t[a] == s[a] && t[b] == s[b]);
        } else if b == i {
            assert(t[a] == s[a]);
            lemma_text_le_total(key, s[a].0);
        } else if a < i {
            assert(t[a] == s[a] && t[b] == s[b - 1]);
        } else if a == i {
            assert(t[b] == s[b - 1]);
            if b - 1 > i {
                assert(text_lt(s[i].0, s[b - 1].0));
                lemma_text_le_transitive(key, s[i].0, s[b - 1].0);
                if key == s[b - 1].0 {
                    lemma_text_le_antisymmetric(key, s[i].0);
                }
            }
        } else {
            assert(t[a] == s[a - 1] && t[b] == s[b - 1]);
        }
    }
}

proof fn lemma_text_lt_transitive(a: Seq<char>, b: Seq<char>, c: Seq<char>)
    requires
        text_lt(a, b),
        text_lt(b, c),
    ensures
        text_lt(a, c),
{
    lemma_text_le_transitive(a, b, c);
    if a == c {
        lemma_text_le_antisymmetric(a, b);
    }
}

proof fn lemma_placed_above(
    s: Seq<(Seq<char>, Seq<char>)>,
    key: Seq<char>,
    value: Seq<char>,
    low: Seq<char>,
)
    requires
        keys_ascend(s),
        text_lt(low, key),
        forall|i: int| 0 <= i < s.len() ==> text_lt(low, (#[trigger] s[i]).0),
    ensures
        keys_ascend(placed(s, key, value)),
        forall|i: int|
            0 <= i < placed(s, key, value).len() ==> text_lt(
                low,
                (#[trigger] placed(s, key, value)[i]).0,
            ),
    decreases s.len(), 1nat,
{
    law_placed_keys_ascend(s, key, value);
    let p = placed(s, key, value);
    if s.len() > 0 && s[0].0 != key && !text_le(key, s[0].0) {
        let tail = s.skip(1);
        assert forall|i: int| 0 <= i < tail.len() implies text_lt(low, (#[trigger] tail[i]).0) by {
            assert(tail[i] == s[i + 1]);
        }
        lemma_skip_ascends(s);
        lemma_placed_above(tail, key, value, low);
        assert forall|i: int| 0 <= i < p.len() implies text_lt(low, (#[trigger] p[i]).0) by {
            if i > 0 {
                assert(p[i] == placed(tail, key, value)[i - 1]);
            }
        }
    } else if s.len() > 0 && s[0].0 != key {
        assert forall|i: int| 0 <= i < p.len() implies text_lt(low, (#[trigger] p[i]).0) by {
            if i > 0 {
                assert(p[i] == s[i - 1]);
            }
        }
    }
}

/// Placing a key keeps the keys in ascending order, each once.
pub proof fn law_placed_keys_ascend(
    s: Seq<(Seq<char>, Seq<char>)>,
    key: Seq<char>,
    value: Seq<char>,
)
    requires
        keys_ascend(s),
    ensures
        keys_ascend(placed(s, key, value)),
    decreases s.len(), 0nat,
{
    let p = placed(s, key, value);
    if s.len() == 0 || s[0].0 == key {
    } else if text_le(key, s[0].0) {
        assert forall|i: int, j: int| 0 <= i < j < p.len() implies text_lt(
            (#[trigger] p[i]).0,
            (#[trigger] p[j]).0,
        ) by {
            assert(p[j] == s[j - 1]);
            if i == 0 {
                if j > 1 {
                    lemma_text_lt_transitive(key, s[0].0, s[j - 1].0);
                }
            } else {
                assert(p[i] == s[i - 1]);
            }
        }
    } else {
        let tail = s.skip(1);
        lemma_skip_ascends(s);
        lemma_text_le_total(key, s[0].0);
        assert forall|i: int| 0 <= i < tail.len() implies text_lt(
            s[0].0,
            (#[trigger] tail[i]).0,
        ) by {
            assert(tail[i] == s[i + 1]);
        }
        lemma_placed_above(tail, key, value, s[0].0);
        let q = placed(tail, key, value);
        assert forall|i: int, j: int| 0 <= i < j < p.len() implies text_lt(
            (#[trigger] p[i]).0,
            (#[trigger] p[j]).0,
        ) by {
            assert(p[j] == q[j - 1]);
            if i > 0 {
                assert(p[i] == q[i - 1]);
            }
        }
    }
}

/// What is put into a map is got out of it under the same key, unless the key had
/// a value; every other key gives what it gave.
pub proof fn law_what_is_put_in_is_got_out(
    map: &mut TextMap,
    key: String,
    value: String,
    at: &str,
    before: Option<String>,
    after: Option<String>,
)
    requires
        old(map).wf(),
        call_ensures(TextMap::insert_if_absent, (map, key, value), ()),
        call_ensures(TextMap::get, (&*old(map), at), before),
        call_ensures(TextMap::get, (&*final(map), at), after),
    ensures
        before is Some ==> opt_text(after) == opt_text(before),
        at@ == key@ && before is None ==> opt_text(after) == Some(value@),
        at@ != key@ ==> opt_text(after) == opt_text(before),
{
    let s = old(map)@;
    law_first_value_wins(s, key@, value@);
    if at@ != key@ {
        law_other_keys_stay(s, key@, value@, at@);
    }
}

} // verus!
