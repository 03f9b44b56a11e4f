//! Text primitives: comparison, case folding, decimal and hexadecimal numbers,
//! words and lines. Everything is stated over sequences of characters.

use vstd::prelude::*;
use vstd::string::*;

verus! {

/// `String::push` appends one character to the end of the string.
pub assume_specification[ String::push ](s: &mut String, c: char)
    ensures
        final(s)@ == old(s)@.push(c),
;

/// The texts of a list of strings.
pub open spec fn texts(v: Seq<String>) -> Seq<Seq<char>> {
    v.map_values(|s: String| s@)
}

/// The text of an optional string.
pub open spec fn opt_text(o: Option<String>) -> Option<Seq<char>> {
    match o {
        Some(s) => Some(s@),
        None => None,
    }
}

pub proof fn lemma_texts_push(v: Seq<String>, s: String)
    ensures
        texts(v.push(s)) =~= texts(v).push(s@),
{
}

/// The characters of a string, as a vector.
pub fn chars_of(s: &str) -> (r: Vec<char>)
    ensures
        r@ == s@,
{
    let mut v: Vec<char> = Vec::new();
    for c in it: s.chars()
        invariant
            v@ == it.seq().take(it.index()),
    {
        v.push(c);
    }
    v
}

/// The string that holds exactly the given characters.
pub fn text_of(v: &[char]) -> (r: String)
    ensures
        r@ == v@,
{
    let mut s = String::new();
    let mut i: usize = 0;
    while i < v.len()
        invariant
            i <= v@.len(),
            s@ == v@.take(i as int),
        decreases v@.len() - i,
    {
        s.push(v[i]);
        i = i + 1;
        assert(v@.take(i as int) =~= v@.take(i - 1).push(v@[i - 1]));
    }
    assert(v@.take(v@.len() as int) =~= v@);
    s
}

/// Whether two character slices hold the same text.
pub fn same_chars(a: &[char], b: &[char]) -> (r: bool)
    ensures
        r == (a@ == b@),
{
    if a.len() != b.len() {
        return false;
    }
    let mut i: usize = 0;
    while i < a.len()
        invariant
            i <= a@.len(),
            a@.len() == b@.len(),
            forall|j: int| 0 <= j < i ==> a@[j] == b@[j],
        decreases a@.len() - i,
    {
        if a[i] != b[i] {
            return false;
        }
        i = i + 1;
    }
    assert(a@ =~= b@);
    true
}

/// Whether two strings hold the same text.
pub fn same_text(a: &str, b: &str) -> (r: bool)
    ensures
        r == (a@ == b@),
{
    let x = chars_of(a);
    let y = chars_of(b);
    same_chars(x.as_slice(), y.as_slice())
}

/// Whether an optional string is present and holds `b`.
pub fn opt_is(a: &Option<String>, b: &str) -> (r: bool)
    ensures
        r == (opt_text(*a) == Some(b@)),
{
    match a {
        Some(s) => same_text(s.as_str(), b),
        None => false,
    }
}

// ---- ASCII case folding ---------------------------------------------------

/// The ASCII lower-case form of a character; other characters are unchanged.
pub open spec fn lower_char(c: char) -> char {
    if 'A' <= c && c <= 'Z' {
        (c as u8 + 32) as u8 as char
    } else {
        c
    }
}

/// The ASCII lower-case form of a text.
pub open spec fn lower(s: Seq<char>) -> Seq<char> {
    s.map_values(|c: char| lower_char(c))
}

fn lower_one(c: char) -> (r: char)
    ensures
        r == lower_char(c),
{
    if 'A' <= c && c <= 'Z' {
        (c as u8 + 32) as char
    } else {
        c
    }
}

/// The ASCII lower-case form of `s`.
pub fn lower_text(s: &str) -> (r: String)
    ensures
        r@ == lower(s@),
{
    let v = chars_of(s);
    let mut out = String::new();
    let mut i: usize = 0;
    while i < v.len()
        invariant
            i <= v@.len(),
            out@ == lower(v@.take(i as int)),
        decreases v@.len() - i,
    {
        out.push(lower_one(v[i]));
        i = i + 1;
        assert(v@.take(i as int) =~= v@.take(i - 1).push(v@[i - 1]));
        assert(lower(v@.take(i as int)) =~= lower(v@.take(i - 1)).push(lower_char(v@[i - 1])));
    }
    assert(v@.take(v@.len() as int) =~= v@);
    out
}

/// Whether two strings are equal when ASCII letters are compared without case.
pub fn same_ignoring_case(a: &str, b: &str) -> (r: bool)
    ensures
        r == (lower(a@) == lower(b@)),
{
    same_text(lower_text(a).as_str(), lower_text(b).as_str())
}

// ---- decimal numbers ------------------------------------------------------

pub open spec fn digit_char(d: nat) -> char {
    (48 + d) as u8 as char
}

/// The decimal digits of `n`, most significant first, without leading zeros.
pub open spec fn decimal(n: nat) -> Seq<char>
    decreases n,
{
    if n < 10 {
        seq![digit_char(n)]
    } else {
        decimal(n / 10).push(digit_char(n % 10))
    }
}

/// The decimal digits of `n`.
pub fn decimal_text(n: u64) -> (r: String)
    ensures
        r@ == decimal(n as nat),
    decreases n,
{
    let d: u8 = (n % 10) as u8;
    let c: char = (48 + d) as char;
    if n < 10 {
        let mut s = String::new();
        s.push(c);
        assert(s@ =~= seq![digit_char(n as nat)]);
        s
    } else {
        let mut s = decimal_text(n / 10);
        s.push(c);
        s
    }
}

/// A decimal number is made of digits.
pub proof fn lemma_decimal_digits(n: nat)
    ensures
        decimal(n).len() > 0,
        forall|i: int| 0 <= i < decimal(n).len() ==> '0' <= #[trigger] decimal(n)[i] <= '9',
    decreases n,
{
    assert('0' <= digit_char(n % 10) <= '9');
    if n >= 10 {
        lemma_decimal_digits(n / 10);
    }
}

/// A decimal number is read back as the number it was written from, and is
/// written without zeros in front.
pub proof fn law_decimals_are_read_back(n: nat, max: nat)
    requires
        n <= max,
    ensures
        number_in(decimal(n), 10, max) == Some(n),
        n > 0 ==> decimal(n)[0] != '0',
{
    lemma_decimal_digits(n);
    lemma_decimal_value(n);
}

proof fn lemma_decimal_value(n: nat)
    ensures
        all_digits(decimal(n), 10),
        digits_value(decimal(n), 10) == n,
        n > 0 ==> decimal(n)[0] != '0',
    decreases n,
{
    let s = decimal(n);
    assert(digit_value(digit_char(n % 10)) == Some(n % 10));
    if n < 10 {
        assert(s.drop_last() =~= Seq::<char>::empty());
        assert(digits_value(s.drop_last(), 10) == 0);
    } else {
        lemma_decimal_value(n / 10);
        let front = decimal(n / 10);
        lemma_decimal_digits(n / 10);
        assert(s.drop_last() =~= front);
        assert(s[0] == front[0]);
        assert forall|i: int| 0 <= i < s.len() implies (digit_value(#[trigger] s[i]) matches Some(d)
            && d < 10) by {
            if i < front.len() {
                assert(s[i] == front[i]);
            }
        }
    }
}

// ---- number parsing -------------------------------------------------------

/// The value of a digit in bases up to sixteen, if the character is one.
pub open spec fn digit_value(c: char) -> Option<nat> {
    if '0' <= c && c <= '9' {
        Some((c as int - '0' as int) as nat)
    } else if 'a' <= c && c <= 'f' {
        Some((c as int - 'a' as int + 10) as nat)
    } else if 'A' <= c && c <= 'F' {
        Some((c as int - 'A' as int + 10) as nat)
    } else {
        None
    }
}

/// Whether every character is a digit of the base.
pub open spec fn all_digits(s: Seq<char>, base: nat) -> bool {
    forall|i: int| 0 <= i < s.len() ==> (digit_value(#[trigger] s[i]) matches Some(d) && d < base)
}

/// The number that a string of digits denotes.
pub open spec fn digits_value(s: Seq<char>, base: nat) -> nat
    decreases s.len(),
{
    if s.len() == 0 {
        0
    } else {
        digits_value(s.drop_last(), base) * base + digit_value(s.last()).unwrap()
    }
}

/// The text behind an optional leading plus sign.
pub open spec fn unsigned_part(s: Seq<char>) -> Seq<char> {
    if s.len() > 0 && s[0] == '+' {
        s.skip(1)
    } else {
        s
    }
}

/// The number that an optionally `+`-signed string of digits denotes, if the
/// text has that form and the number does not exceed `max`.
pub open spec fn number_in(s: Seq<char>, base: nat, max: nat) -> Option<nat> {
    let d = unsigned_part(s);
    if d.len() > 0 && all_digits(d, base) && digits_value(d, base) <= max {
        Some(digits_value(d, base))
    } else {
        None
    }
}

fn digit_of(c: char) -> (r: Option<u64>)
    ensures
        match r {
            Some(d) => digit_value(c) == Some(d as nat) && d < 16,
            None => digit_value(c) is None,
        },
{
    if '0' <= c && c <= '9' {
        Some((c as u32 - '0' as u32) as u64)
    } else if 'a' <= c && c <= 'f' {
        Some((c as u32 - 'a' as u32 + 10) as u64)
    } else if 'A' <= c && c <= 'F' {
        Some((c as u32 - 'A' as u32 + 10) as u64)
    } else {
        None
    }
}

/// A longer string of digits never denotes a smaller number.
proof fn lemma_digits_monotone(s: Seq<char>, n: int, base: nat)
    requires
        0 <= n <= s.len(),
        base >= 1,
    ensures
        digits_value(s.take(n), base) <= digits_value(s, base),
    decreases s.len() - n,
{
    if n < s.len() {
        let m = s.len() - 1;
        assert(s.drop_last() =~= s.take(m));
        lemma_digits_monotone(s.drop_last(), n, base);
        assert(s.drop_last().take(n) =~= s.take(n));
        let v = digits_value(s.drop_last(), base);
        assert(v * base >= v) by (nonlinear_arith)
            requires
                base >= 1,
                v >= 0,
        ;
    } else {
        assert(s.take(n) =~= s);
    }
}

/// Reads an optionally `+`-signed number in `base`; `None` when the text is
/// empty, holds anything but digits, or denotes more than `max`.
pub fn parse_number(s: &str, base: u64, max: u64) -> (r: Option<u64>)
    requires
        2 <= base <= 16,
    ensures
        match r {
            Some(n) => number_in(s@, base as nat, max as nat) == Some(n as nat),
            None => number_in(s@, base as nat, max as nat) is None,
        },
{
    let v = chars_of(s);
    let start: usize = if v.len() > 0 && v[0] == '+' { 1 } else { 0 };
    let ghost d = unsigned_part(s@);
    assert(d =~= v@.skip(start as int));
    if v.len() == start {
        return None;
    }
    let mut value: u64 = 0;
    let mut i: usize = start;
    assert(d.take(0) =~= Seq::<char>::empty());
    while i < v.len()
        invariant
            2 <= base <= 16,
            start <= i <= v@.len(),
            v@ == s@,
            d == unsigned_part(s@),
            d == v@.skip(start as int),
            all_digits(d.take(i - start), base as nat),
            value == digits_value(d.take(i - start), base as nat),
            value <= max,
        decreases v@.len() - i,
    {
        let ghost k = i - start;
        assert(d[k] == v@[i as int]);
        assert(d.take(k + 1).drop_last() =~= d.take(k));
        assert(d.take(k + 1).last() == d[k]);
        match digit_of(v[i]) {
            Some(x) => {
                if x >= base {
                    return None;
                }
                assert(digits_value(d.take(k + 1), base as nat) == value * base + x);
                assert(0 <= value * base <= 0xffff_ffff_ffff_ffff * 16) by (nonlinear_arith)
                    requires
                        0 <= value <= 0xffff_ffff_ffff_ffff,
                        2 <= base <= 16,
                ;
                let wide: u128 = (value as u128) * (base as u128) + (x as u128);
                if wide > max as u128 {
                    proof {
                        lemma_digits_monotone(d, k + 1, base as nat);
                    }
                    return None;
                }
                value = wide as u64;
                assert forall|j: int| 0 <= j < k + 1 implies (digit_value(
                    #[trigger] d.take(k + 1)[j],
                ) matches Some(y) && y < base) by {
                    if j < k {
                        assert(d.take(k)[j] == d[j]);
                    }
                }
            },
            None => {
                return None;
            },
        }
        i = i + 1;
    }
    assert(d.take(d.len() as int) =~= d);
    Some(value)
}

// ---- order ----------------------------------------------------------------

/// Lexicographic order by code point, a prefix first.
pub open spec fn text_le(a: Seq<char>, b: Seq<char>) -> bool
    decreases a.len(),
{
    a.len() == 0 || (b.len() > 0 && (a[0] < b[0] || (a[0] == b[0] && text_le(a.skip(1), b.skip(1)))))
}

pub proof fn lemma_text_le_total(a: Seq<char>, b: Seq<char>)
    ensures
        text_le(a, b) || text_le(b, a),
    decreases a.len(),
{
    if a.len() > 0 && b.len() > 0 {
        lemma_text_le_total(a.skip(1), b.skip(1));
    }
}

pub proof fn lemma_text_le_transitive(a: Seq<char>, b: Seq<char>, c: Seq<char>)
    requires
        text_le(a, b),
        text_le(b, c),
    ensures
        text_le(a, c),
    decreases a.len(),
{
    if a.len() > 0 && a[0] == b[0] && b[0] == c[0] {
        lemma_text_le_transitive(a.skip(1), b.skip(1), c.skip(1));
    }
}

pub proof fn lemma_text_le_antisymmetric(a: Seq<char>, b: Seq<char>)
    requires
        text_le(a, b),
        text_le(b, a),
    ensures
        a == b,
    decreases a.len(),
{
    if a.len() > 0 {
        lemma_text_le_antisymmetric(a.skip(1), b.skip(1));
        assert(a =~= seq![a[0]] + a.skip(1));
        assert(b =~= seq![b[0]] + b.skip(1));
    } else {
        assert(b.len() == 0);
        assert(a =~= b);
    }
}

/// Whether `a` sorts before `b` or equals it.
pub fn sorts_up_to(a: &str, b: &str) -> (r: bool)
    ensures
        r == text_le(a@, b@),
{
    let x = chars_of(a);
    let y = chars_of(b);
    let mut i: usize = 0;
    assert(x@.skip(0) =~= x@);
    assert(y@.skip(0) =~= y@);
    loop
        invariant
            i <= x.len(),
            i <= y.len(),
            x@ == a@,
            y@ == b@,
            text_le(a@, b@) == text_le(x@.skip(i as int), y@.skip(i as int)),
        decreases x@.len() - i,
    {
        if i == x.len() {
            return true;
        }
        if i == y.len() || x[i] > y[i] {
            return false;
        }
        if x[i] < y[i] {
            return true;
        }
        assert(x@.skip(i as int).skip(1) =~= x@.skip(i + 1));
        assert(y@.skip(i as int).skip(1) =~= y@.skip(i + 1));
        i = i + 1;
    }
}

// ---- Unicode case folding -------------------------------------------------

/// The Unicode lower-case form of a text.
pub uninterp spec fn unicode_lower(s: Seq<char>) -> Seq<char>;

/// `str::to_lowercase` gives the Unicode lower-case equivalent of its text, a
/// function of that text alone. On ASCII text it lowers the letters `A` to `Z`
/// and nothing else; what the mapping is on other characters is left to the
/// Unicode tables.
pub assume_specification[ str::to_lowercase ](s: &str) -> (r: String)
    ensures
        r@ == unicode_lower(s@),
        (forall|i: int| 0 <= i < s@.len() ==> (#[trigger] s@[i]) as int <= 0x7F) ==> r@ == lower(s@),
;

// ---- words and lines ------------------------------------------------------

/// White space, as the Unicode `White_Space` property lists it.
pub open spec fn is_space(c: char) -> bool {
    let n = c as int;
    ||| 0x9 <= n <= 0xD
    ||| n == 0x20
    ||| n == 0x85
    ||| n == 0xA0
    ||| n == 0x1680
    ||| 0x2000 <= n <= 0x200A
    ||| n == 0x2028
    ||| n == 0x2029
    ||| n == 0x202F
    ||| n == 0x205F
    ||| n == 0x3000
}

fn space(c: char) -> (r: bool)
    ensures
        r == is_space(c),
{
    let n: u32 = c as u32;
    (0x9 <= n && n <= 0xD) || n == 0x20 || n == 0x85 || n == 0xA0 || n == 0x1680 || (0x2000 <= n
        && n <= 0x200A) || n == 0x2028 || n == 0x2029 || n == 0x202F || n == 0x205F || n == 0x3000
}

/// How many characters stand before the first white space.
pub open spec fn word_len(s: Seq<char>) -> nat
    decreases s.len(),
{
    if s.len() == 0 || is_space(s[0]) {
        0
    } else {
        1 + word_len(s.skip(1))
    }
}

pub proof fn lemma_word_len(s: Seq<char>)
    ensures
        word_len(s) <= s.len(),
    decreases s.len(),
{
    if s.len() > 0 && !is_space(s[0]) {
        lemma_word_len(s.skip(1));
    }
}

/// The maximal runs of characters other than white space, in order.
pub open spec fn words(s: Seq<char>) -> Seq<Seq<char>>
    decreases s.len(),
{
    if s.len() == 0 {
        Seq::empty()
    } else if is_space(s[0]) {
        words(s.skip(1))
    } else {
        let n = word_len(s);
        if 0 < n <= s.len() {
            seq![s.take(n as int)] + words(s.skip(n as int))
        } else {
            Seq::empty()
        }
    }
}

/// Whether a text is nothing but white space.
pub open spec fn all_space(s: Seq<char>) -> bool {
    forall|i: int| 0 <= i < s.len() ==> is_space(#[trigger] s[i])
}

/// Whether no white space is in a text.
pub open spec fn no_space(s: Seq<char>) -> bool {
    forall|i: int| 0 <= i < s.len() ==> !is_space(#[trigger] s[i])
}

/// White space before a text adds no word.
pub proof fn lemma_words_behind_space(gap: Seq<char>, s: Seq<char>)
    requires
        all_space(gap),
    ensures
        words(gap + s) == words(s),
    decreases gap.len(),
{
    if gap.len() == 0 {
        assert(gap + s =~= s);
    } else {
        assert((gap + s)[0] == gap[0]);
        assert((gap + s).skip(1) =~= gap.skip(1) + s);
        lemma_words_behind_space(gap.skip(1), s);
    }
}

proof fn lemma_word_len_is(w: Seq<char>, s: Seq<char>)
    requires
        no_space(w),
        s.len() == 0 || is_space(s[0]),
    ensures
        word_len(w + s) == w.len(),
    decreases w.len(),
{
    if w.len() == 0 {
        assert(w + s =~= s);
    } else {
        assert((w + s)[0] == w[0]);
        assert((w + s).skip(1) =~= w.skip(1) + s);
        lemma_word_len_is(w.skip(1), s);
    }
}

/// A run of other characters, up to white space or the end, is a word.
pub proof fn lemma_words_from_word(w: Seq<char>, s: Seq<char>)
    requires
        w.len() > 0,
        no_space(w),
        s.len() == 0 || is_space(s[0]),
    ensures
        words(w + s) == seq![w] + words(s),
{
    lemma_word_len_is(w, s);
    assert((w + s)[0] == w[0]);
    assert((w + s).take(w.len() as int) =~= w);
    assert((w + s).skip(w.len() as int) =~= s);
}

/// The words of a character slice.
pub fn split_words(v: &[char]) -> (r: Vec<String>)
    ensures
        texts(r@) == words(v@),
{
    let mut out: Vec<String> = Vec::new();
    let mut i: usize = 0;
    assert(v@.skip(0) =~= v@);
    assert(texts(out@) + words(v@) =~= words(v@));
    while i < v.len()
        invariant
            i <= v@.len(),
            texts(out@) + words(v@.skip(i as int)) == words(v@),
        decreases v@.len() - i,
    {
        let ghost rest = v@.skip(i as int);
        if space(v[i]) {
            i = i + 1;
            assert(rest.skip(1) =~= v@.skip(i as int));
        } else {
            let mut j: usize = i + 1;
            assert(v@.skip(j as int) =~= rest.skip(1));
            while j < v.len() && !space(v[j])
                invariant
                    i < j <= v@.len(),
                    rest == v@.skip(i as int),
                    word_len(rest) == (j - i) + word_len(v@.skip(j as int)),
                decreases v@.len() - j,
            {
                assert(v@.skip(j as int).skip(1) =~= v@.skip(j + 1));
                j = j + 1;
            }
            assert(word_len(v@.skip(j as int)) == 0);
            let word = text_of(slice_range(v, i, j));
            assert(word@ =~= rest.take(j - i));
            let ghost before = out@;
            out.push(word);
            proof {
                lemma_texts_push(before, word);
                assert(rest.skip(j - i) =~= v@.skip(j as int));
                assert(texts(out@) + words(v@.skip(j as int)) =~= texts(before) + (seq![word@]
                    + words(v@.skip(j as int))));
            }
            i = j;
        }
    }
    assert(v@.skip(i as int) =~= Seq::<char>::empty());
    assert(texts(out@) =~= words(v@));
    out
}

/// The characters from `from` up to `to`.
pub fn slice_range<'a>(v: &'a [char], from: usize, to: usize) -> (r: &'a [char])
    requires
        from <= to <= v@.len(),
    ensures
        r@ == v@.subrange(from as int, to as int),
{
    vstd::slice::slice_subrange(v, from, to)
}

/// How many characters stand before the first line feed.
pub open spec fn line_len(s: Seq<char>) -> nat
    decreases s.len(),
{
    if s.len() == 0 || s[0] == '\n' {
        0
    } else {
        1 + line_len(s.skip(1))
    }
}

/// A line without a carriage return at its end.
pub open spec fn without_cr(s: Seq<char>) -> Seq<char> {
    if s.len() > 0 && s.last() == '\r' {
        s.drop_last()
    } else {
        s
    }
}

/// The lines of a text: each ends at a line feed, which may follow a carriage
/// return; neither belongs to the line. Text behind the last line feed is a
/// line of its own, kept as it is.
pub open spec fn lines(s: Seq<char>) -> Seq<Seq<char>>
    decreases s.len(),
{
    let n = line_len(s);
    if s.len() == 0 {
        Seq::empty()
    } else if n < s.len() {
        seq![without_cr(s.take(n as int))] + lines(s.skip(n as int + 1))
    } else {
        seq![s]
    }
}

/// The lines of a string.
pub fn split_lines(s: &str) -> (r: Vec<String>)
    ensures
        texts(r@) == lines(s@),
{
    let v = chars_of(s);
    let mut out: Vec<String> = Vec::new();
    let mut i: usize = 0;
    assert(v@.skip(0) =~= v@);
    assert(texts(out@) + lines(v@) =~= lines(v@));
    while i < v.len()
        invariant
            i <= v@.len(),
            texts(out@) + lines(v@.skip(i as int)) == lines(v@),
        decreases v@.len() - i,
    {
        let ghost rest = v@.skip(i as int);
        let mut j: usize = i;
        while j < v.len() && v[j] != '\n'
            invariant
                i <= j <= v@.len(),
                rest == v@.skip(i as int),
                line_len(rest) == (j - i) + line_len(v@.skip(j as int)),
            decreases v@.len() - j,
        {
            assert(v@.skip(j as int).skip(1) =~= v@.skip(j + 1));
            j = j + 1;
        }
        assert(line_len(v@.skip(j as int)) == 0);
        let ghost before = out@;
        if j < v.len() {
            let mut end: usize = j;
            if end > i && v[end - 1] == '\r' {
                end = end - 1;
            }
            let line = text_of(slice_range(v.as_slice(), i, end));
            assert(rest.take(j - i) =~= v@.subrange(i as int, j as int));
            assert(line@ =~= without_cr(rest.take(j - i)));
            out.push(line);
            proof {
                lemma_texts_push(before, line);
                assert(rest.skip(j - i + 1) =~= v@.skip(j + 1));
                assert(texts(out@) + lines(v@.skip(j + 1)) =~= texts(before) + (seq![line@]
                    + lines(v@.skip(j + 1))));
            }
            i = j + 1;
        } else {
            let line = text_of(slice_range(v.as_slice(), i, j));
            assert(line@ =~= rest);
            out.push(line);
            proof {
                lemma_texts_push(before, line);
                assert(v@.skip(j as int) =~= Seq::<char>::empty());
                assert(texts(out@) + lines(v@.skip(j as int)) =~= texts(before) + lines(rest));
            }
            i = j;
        }
    }
    assert(v@.skip(i as int) =~= Seq::<char>::empty());
    assert(texts(out@) =~= lines(v@));
    out
}

// ---- lists of texts -------------------------------------------------------

/// Appends a copy of `s` to a list.
pub fn push_text(v: &mut Vec<String>, s: &str)
    ensures
        texts(final(v)@) == texts(old(v)@).push(s@),
{
    let t = s.to_owned();
    proof {
        lemma_texts_push(v@, t);
    }
    v.push(t);
}

/// The texts one after another, with `sep` between each two.
pub open spec fn join(v: Seq<Seq<char>>, sep: Seq<char>) -> Seq<char>
    decreases v.len(),
{
    if v.len() == 0 {
        Seq::empty()
    } else if v.len() == 1 {
        v[0]
    } else {
        join(v.drop_last(), sep) + sep + v.last()
    }
}

/// Joins a list of strings.
pub fn join_texts(v: &[String], sep: &str) -> (r: String)
    ensures
        r@ == join(texts(v@), sep@),
{
    let mut out = String::new();
    let mut i: usize = 0;
    while i < v.len()
        invariant
            i <= v@.len(),
            out@ == join(texts(v@.take(i as int)), sep@),
        decreases v@.len() - i,
    {
        let ghost before = texts(v@.take(i as int));
        if i > 0 {
            out.append(sep);
        }
        out.append(v[i].as_str());
        i = i + 1;
        proof {
            let now = texts(v@.take(i as int));
            assert(now.drop_last() =~= before);
            assert(now.last() == v@[i - 1]@);
            if i == 1 {
                assert(out@ =~= now[0]);
            }
        }
    }
    assert(v@.take(v@.len() as int) =~= v@);
    out
}

/// The decimal text of an integer, with a minus sign where it is negative.
pub open spec fn signed_decimal(n: int) -> Seq<char> {
    if n < 0 {
        seq!['-'] + decimal((-n) as nat)
    } else {
        decimal(n as nat)
    }
}

/// The decimal text of `n`.
pub fn signed_text(n: i64) -> (r: String)
    ensures
        r@ == signed_decimal(n as int),
{
    if n < 0 {
        let magnitude: u64 = (-(n as i128)) as u64;
        let digits = decimal_text(magnitude);
        let mut s = String::new();
        s.push('-');
        s.append(digits.as_str());
        assert(s@ =~= seq!['-'] + decimal((-n) as nat));
        s
    } else {
        decimal_text(n as u64)
    }
}

/// The texts of a list of literals.
pub open spec fn literal_texts(v: Seq<&'static str>) -> Seq<Seq<char>> {
    v.map_values(|s: &'static str| s@)
}

/// Whether a list of literals holds a text.
pub fn lists(v: &Vec<&'static str>, s: &str) -> (r: bool)
    ensures
        r == literal_texts(v@).contains(s@),
{
    let mut i: usize = 0;
    while i < v.len()
        invariant
            i <= v@.len(),
            forall|j: int| 0 <= j < i ==> literal_texts(v@)[j] != s@,
        decreases v@.len() - i,
    {
        assert(literal_texts(v@)[i as int] == v@[i as int]@);
        if same_text(v[i], s) {
            return true;
        }
        i = i + 1;
    }
    false
}

/// A text without the white space at its start.
pub open spec fn trim_start(s: Seq<char>) -> Seq<char>
    decreases s.len(),
{
    if s.len() > 0 && is_space(s[0]) {
        trim_start(s.skip(1))
    } else {
        s
    }
}

/// A text without the white space at its end.
pub open spec fn trim_end(s: Seq<char>) -> Seq<char>
    decreases s.len(),
{
    if s.len() > 0 && is_space(s.last()) {
        trim_end(s.drop_last())
    } else {
        s
    }
}

/// A text without the white space at both of its ends.
pub fn trimmed(s: &str) -> (r: String)
    ensures
        r@ == trim_end(trim_start(s@)),
{
    let v = chars_of(s);
    let mut from: usize = 0;
    let mut to: usize = v.len();
    assert(v@.skip(0) =~= v@);
    while from < v.len() && space(v[from])
        invariant
            from <= v@.len(),
            v@ == s@,
            trim_start(s@) == trim_start(v@.skip(from as int)),
        decreases v@.len() - from,
    {
        assert(v@.skip(from as int)[0] == v@[from as int]);
        assert(v@.skip(from as int).skip(1) =~= v@.skip(from + 1));
        from = from + 1;
    }
    proof {
        if from < v@.len() {
            assert(v@.skip(from as int)[0] == v@[from as int]);
        }
        assert(trim_start(s@) == v@.skip(from as int));
        assert(v@.subrange(from as int, to as int) =~= v@.skip(from as int));
    }
    while to > from && space(v[to - 1])
        invariant
            from <= to <= v@.len(),
            v@ == s@,
            trim_end(v@.skip(from as int)) == trim_end(v@.subrange(from as int, to as int)),
        decreases to - from,
    {
        assert(v@.subrange(from as int, to as int).last() == v@[to - 1]);
        assert(v@.subrange(from as int, to as int).drop_last() =~= v@.subrange(
            from as int,
            to - 1,
        ));
        to = to - 1;
    }
    proof {
        if to > from {
            assert(v@.subrange(from as int, to as int).last() == v@[to - 1]);
        }
    }
    text_of(slice_range(v.as_slice(), from, to))
}

// ---- laws -----------------------------------------------------------------

/// Lowering a text moves the letters `A` to `Z` by the distance between the cases
/// and leaves every other character, and every place, as it is.
pub proof fn law_lowering_moves_capitals_alone(s: &str, r: String, i: int)
    requires
        call_ensures(lower_text, (s,), r),
    ensures
        r@.len() == s@.len(),
        0 <= i < s@.len() ==> {
            &&& 65 <= s@[i] as int <= 90 ==> r@[i] as int == s@[i] as int + 32
            &&& !(65 <= s@[i] as int <= 90) ==> r@[i] == s@[i]
            &&& !(65 <= r@[i] as int <= 90)
        },
        lower(r@) == r@,
{
    assert forall|c: char| true implies {
        &&& 65 <= c as int <= 90 ==> #[trigger] lower_char(c) as int == c as int + 32
        &&& !(65 <= c as int <= 90) ==> lower_char(c) == c
    } by {}
    assert(lower(r@) =~= r@);
}

/// The digits of a number are its remainders: the last character of its decimal
/// text is the last digit, and what stands before it is the text of the rest.
pub proof fn law_decimals_end_in_the_last_digit(n: u64, r: String)
    requires
        call_ensures(decimal_text, (n,), r),
    ensures
        r@.len() > 0,
        r@.last() as int == 48 + n % 10,
        n >= 10 ==> r@.drop_last() == decimal((n / 10) as nat),
        n < 10 ==> r@.len() == 1,
{
    if n >= 10 {
        assert(decimal(n as nat).drop_last() =~= decimal((n / 10) as nat));
    }
}

/// A sign stands before the digits of a negative number, and only there.
pub proof fn law_signs_stand_in_front(n: i64, r: String)
    requires
        call_ensures(signed_text, (n,), r),
    ensures
        n < 0 ==> r@[0] == '-' && r@.skip(1) == decimal((-n) as nat),
        n >= 0 ==> r@ == decimal(n as nat) && r@[0] != '-',
{
    if n < 0 {
        assert(r@.skip(1) =~= decimal((-n) as nat));
    } else {
        lemma_decimal_digits(n as nat);
    }
}

/// A number is read from its digits, most significant first, with or without a
/// plus sign; a further digit counts ten, or whatever the base is, times what
/// stands before it. Hexadecimal letters count in either case.
pub proof fn law_numbers_grow_by_their_base(s: Seq<char>, c: char, base: nat, max: nat, n: nat)
    requires
        2 <= base <= 16,
        s.len() > 0,
        s[0] != '+',
        number_in(s, base, max) == Some(n),
    ensures
        number_in(seq!['+'] + s, base, max) == Some(n),
        48 <= c as int <= 57 && c as int - 48 < base && n * base + (c as int - 48) <= max
            ==> number_in(s.push(c), base, max) == Some((n * base + (c as int - 48)) as nat),
        97 <= c as int <= 102 && c as int - 87 < base && n * base + (c as int - 87) <= max
            ==> number_in(s.push(c), base, max) == Some((n * base + (c as int - 87)) as nat),
        65 <= c as int <= 70 && c as int - 55 < base && n * base + (c as int - 55) <= max
            ==> number_in(s.push(c), base, max) == Some((n * base + (c as int - 55)) as nat),
        48 <= c as int <= 57 && n * base + (c as int - 48) > max ==> number_in(
            s.push(c),
            base,
            max,
        ) is None,
        !(48 <= c as int <= 57) && !(97 <= c as int <= 102) && !(65 <= c as int <= 70)
            ==> number_in(s.push(c), base, max) is None,
{
    assert((seq!['+'] + s).skip(1) =~= s);
    let t = s.push(c);
    assert(t.drop_last() =~= s);
    assert(t[0] == s[0]);
    assert(t.last() == c);
    if digit_value(c) matches Some(d) && d < base {
        assert forall|i: int| 0 <= i < t.len() implies (digit_value(#[trigger] t[i]) matches Some(
            x,
        ) && x < base) by {
            if i < s.len() {
                assert(t[i] == s[i]);
            }
        }
        assert(digits_value(t, base) == n * base + digit_value(c)->0);
    } else {
        assert(t[s.len() as int] == c);
    }
}

/// One digit is read as itself.
pub proof fn law_single_digits_are_themselves(d: nat, max: nat)
    requires
        d < 10,
        d <= max,
    ensures
        number_in(seq![(48 + d) as char], 10, max) == Some(d),
        number_in(Seq::empty(), 10, max) is None,
        number_in(seq!['+'], 10, max) is None,
{
    assert(seq!['+'].skip(1) =~= Seq::<char>::empty());
    let s = seq![(48 + d) as char];
    assert(s.drop_last() =~= Seq::<char>::empty());
    reveal_with_fuel(digits_value, 2);
    assert(s[0] as int == 48 + d);
}

/// Texts are ordered by the first character in which they differ; a text that
/// another goes on from comes first.
pub proof fn law_texts_order_by_their_first_difference(
    a: &str,
    b: &str,
    p: Seq<char>,
    x: Seq<char>,
    y: Seq<char>,
    up: bool,
    down: bool,
)
    requires
        call_ensures(sorts_up_to, (a, b), up),
        call_ensures(sorts_up_to, (b, a), down),
        a@ == p + x,
        b@ == p + y,
        y.len() > 0,
        x.len() == 0 || x[0] < y[0],
    ensures
        up,
        !down,
{
    lemma_common_front(p, x, y);
    lemma_common_front(p, y, x);
}

proof fn lemma_common_front(p: Seq<char>, x: Seq<char>, y: Seq<char>)
    ensures
        text_le(p + x, p + y) == text_le(x, y),
    decreases p.len(),
{
    if p.len() == 0 {
        assert(p + x =~= x);
        assert(p + y =~= y);
    } else {
        assert((p + x).skip(1) =~= p.skip(1) + x);
        assert((p + y).skip(1) =~= p.skip(1) + y);
        lemma_common_front(p.skip(1), x, y);
    }
}

/// Two runs of other characters are two words exactly where what stands between
/// them is white space: a tab, a line break of any kind, a space of any width.
pub proof fn law_words_end_at_white_space(
    v: &[char],
    w: Seq<char>,
    c: char,
    x: Seq<char>,
    r: Vec<String>,
)
    requires
        call_ensures(split_words, (v,), r),
        v@ == w + seq![c] + x,
        w.len() > 0,
        x.len() > 0,
        no_space(w),
        no_space(x),
    ensures
        ({
            let n = c as int;
            let blank = 9 <= n <= 13 || n == 32 || n == 133 || n == 160 || n == 5760 || 8192 <= n
                <= 8202 || n == 8232 || n == 8233 || n == 8239 || n == 8287 || n == 12288;
            &&& blank ==> texts(r@) == seq![w, x]
            &&& !blank ==> texts(r@) == seq![v@]
        }),
{
    let none = Seq::<char>::empty();
    assert(words(none) =~= Seq::<Seq<char>>::empty());
    if is_space(c) {
        assert(v@ =~= w + (seq![c] + x));
        lemma_words_from_word(w, seq![c] + x);
        assert(all_space(seq![c]));
        lemma_words_behind_space(seq![c], x);
        lemma_words_from_word(x, none);
        assert(x + none =~= x);
        assert(seq![w] + (seq![x] + words(none)) =~= seq![w, x]);
    } else {
        assert forall|i: int| 0 <= i < v@.len() implies !is_space(#[trigger] v@[i]) by {
            if i < w.len() {
                assert(v@[i] == w[i]);
            } else if i > w.len() {
                assert(v@[i] == x[i - w.len() - 1]);
            }
        }
        lemma_words_from_word(v@, none);
        assert(v@ + none =~= v@);
        assert(seq![v@] + words(none) =~= seq![v@]);
    }
}

/// A line goes up to a line feed, without it and without one carriage return
/// before it; the lines behind it follow. Text behind the last line feed is a line
/// as it stands.
pub proof fn law_lines_end_at_line_feeds(
    s: &str,
    front: Seq<char>,
    rest: &str,
    all: Vec<String>,
    later: Vec<String>,
)
    requires
        call_ensures(split_lines, (s,), all),
        call_ensures(split_lines, (rest,), later),
        forall|i: int| 0 <= i < front.len() ==> #[trigger] front[i] != '\n',
    ensures
        s@ == front + seq!['\n'] + rest@ && (front.len() == 0 || front.last() != '\r') ==> texts(
            all@,
        ) == seq![front] + texts(later@),
        s@ == front + seq!['\r', '\n'] + rest@ ==> texts(all@) == seq![front] + texts(later@),
        s@ == front && front.len() > 0 ==> texts(all@) == seq![front],
        s@.len() == 0 ==> all@.len() == 0,
{
    if s@ == front + seq!['\n'] + rest@ {
        assert(s@ =~= front + (seq!['\n'] + rest@));
        lemma_line_len(front, seq!['\n'] + rest@);
        assert(s@.take(front.len() as int) =~= front);
        assert(s@.skip(front.len() as int + 1) =~= rest@);
    }
    if s@ == front + seq!['\r', '\n'] + rest@ {
        let long = front.push('\r');
        assert(s@ =~= long + (seq!['\n'] + rest@));
        lemma_line_len(long, seq!['\n'] + rest@);
        assert(s@.take(long.len() as int) =~= long);
        assert(s@.skip(long.len() as int + 1) =~= rest@);
        assert(long.drop_last() =~= front);
        assert(lines(s@) == seq![without_cr(long)] + lines(rest@));
    }
    if s@ == front && front.len() > 0 {
        lemma_line_len(front, Seq::empty());
        assert(front + Seq::<char>::empty() =~= front);
    }
    assert(texts(all@).len() == all@.len());
}

proof fn lemma_line_len(front: Seq<char>, rest: Seq<char>)
    requires
        forall|i: int| 0 <= i < front.len() ==> #[trigger] front[i] != '\n',
        rest.len() == 0 || rest[0] == '\n',
    ensures
        line_len(front + rest) == front.len(),
    decreases front.len(),
{
    if front.len() == 0 {
        assert(front + rest =~= rest);
    } else {
        assert((front + rest)[0] == front[0]);
        assert((front + rest).skip(1) =~= front.skip(1) + rest);
        assert forall|i: int| 0 <= i < front.skip(1).len() implies #[trigger] front.skip(1)[i]
            != '\n' by {
            assert(front.skip(1)[i] == front[i + 1]);
        }
        lemma_line_len(front.skip(1), rest);
    }
}

/// Joined lists are joined piece by piece: one text stands as it is, and a
/// separator stands between what two lists join to, and nowhere else.
pub proof fn law_joined_lists_join(a: Seq<Seq<char>>, b: Seq<Seq<char>>, sep: Seq<char>)
    requires
        a.len() > 0,
        b.len() > 0,
    ensures
        join(a + b, sep) == join(a, sep) + sep + join(b, sep),
        a.len() == 1 ==> join(a, sep) == a[0],
        join(Seq::empty(), sep).len() == 0,
    decreases b.len(),
{
    let all = a + b;
    assert(all.drop_last() =~= a + b.drop_last());
    assert(all.last() == b.last());
    if b.len() == 1 {
        assert(a + b.drop_last() =~= a);
    } else {
        law_joined_lists_join(a, b.drop_last(), sep);
        assert(join(all, sep) =~= join(a, sep) + sep + join(b, sep));
    }
}

/// Trimming takes the white space from both ends, all of it and nothing else.
pub proof fn law_trimming_leaves_the_core(
    s: &str,
    a: Seq<char>,
    core: Seq<char>,
    b: Seq<char>,
    r: String,
)
    requires
        call_ensures(trimmed, (s,), r),
        s@ == a + core + b,
        all_space(a),
        all_space(b),
        core.len() > 0 ==> !is_space(core[0]) && !is_space(core.last()),
    ensures
        r@ == core,
{
    lemma_trim_start(a, core + b);
    assert(s@ =~= a + (core + b));
    if core.len() == 0 {
        assert(core + b =~= b);
        lemma_trim_start(b, core);
        assert(b + core =~= b);
        assert(trim_start(core) == core);
        assert(trim_start(s@) == core);
        assert(r@ =~= core);
    } else {
        assert((core + b)[0] == core[0]);
        assert(trim_start(core + b) == core + b);
        lemma_trim_end(core, b);
        assert(trim_end(core) == core);
    }
}

proof fn lemma_trim_start(a: Seq<char>, s: Seq<char>)
    requires
        all_space(a),
    ensures
        trim_start(a + s) == trim_start(s),
    decreases a.len(),
{
    if a.len() == 0 {
        assert(a + s =~= s);
    } else {
        assert((a + s)[0] == a[0]);
        assert((a + s).skip(1) =~= a.skip(1) + s);
        lemma_trim_start(a.skip(1), s);
    }
}

proof fn lemma_trim_end(s: Seq<char>, b: Seq<char>)
    requires
        all_space(b),
    ensures
        trim_end(s + b) == trim_end(s),
    decreases b.len(),
{
    if b.len() == 0 {
        assert(s + b =~= s);
    } else {
        assert((s + b).last() == b.last());
        assert(b.last() == b[b.len() - 1]);
        assert((s + b).drop_last() =~= s + b.drop_last());
        lemma_trim_end(s, b.drop_last());
    }
}

} // verus!
