//! Gapless metadata: the `iTunSMPB` tag.

use crate::text::{
    all_digits, all_space, chars_of, digit_value, digits_value, is_space, lemma_words_behind_space,
    lemma_words_from_word, no_space, number_in, parse_number, split_words, texts, words,
};
use vstd::prelude::*;
use vstd::string::*;

verus! {

/// The parameters in an `iTunSMPB` tag.
#[derive(Debug, Clone, Copy, PartialEq, Eq, Structural)]
pub struct ItunesSmpb {
    /// Lead-in samples of the encoder.
    pub encoder_delay: u64,
    /// Padding samples to strip from the end.
    pub trailing_padding: u64,
    /// The number of valid samples, which is authoritative where it is given.
    pub total_pcm_samples: Option<u64>,
}

/// The number that a hexadecimal word of up to 64 bits stands for.
pub open spec fn hex_word(w: Seq<char>) -> Option<nat> {
    number_in(w, 16, u64::MAX as nat)
}

/// Whether every word is hexadecimal.
pub open spec fn all_hex(ws: Seq<Seq<char>>) -> bool {
    forall|i: int| 0 <= i < ws.len() ==> hex_word(#[trigger] ws[i]) is Some
}

/// The parameters in the words of a tag: delay and padding in the second and
/// third, the sample count in the fourth if there is one. Nothing is taken from
/// fewer than three words, nor where one of them is not hexadecimal.
pub open spec fn smpb_of(ws: Seq<Seq<char>>) -> Option<ItunesSmpb> {
    if ws.len() < 3 || !all_hex(ws) {
        None
    } else {
        Some(
            ItunesSmpb {
                encoder_delay: hex_word(ws[1])->0 as u64,
                trailing_padding: hex_word(ws[2])->0 as u64,
                total_pcm_samples: if ws.len() > 3 {
                    Some(hex_word(ws[3])->0 as u64)
                } else {
                    None
                },
            },
        )
    }
}

/// Reads an `iTunSMPB` tag: hexadecimal words with white space between them.
pub fn parse_itunsmpb(value: &str) -> (r: Option<ItunesSmpb>)
    ensures
        r == smpb_of(words(value@)),
{
    let v = chars_of(value);
    let ws = split_words(v.as_slice());
    assert(forall|i: int| 0 <= i < ws@.len() ==> texts(ws@)[i] == (#[trigger] ws@[i])@);
    if ws.len() < 3 {
        return None;
    }
    let mut numbers: Vec<u64> = Vec::new();
    let mut i: usize = 0;
    while i < ws.len()
        invariant
            i <= ws@.len(),
            numbers@.len() == i,
            texts(ws@) == words(value@),
            forall|j: int| 0 <= j < ws@.len() ==> texts(ws@)[j] == (#[trigger] ws@[j])@,
            forall|j: int|
                0 <= j < i ==> hex_word(#[trigger] words(value@)[j]) == Some(numbers@[j] as nat),
        decreases ws@.len() - i,
    {
        assert(words(value@)[i as int] == ws@[i as int]@);
        match parse_number(ws[i].as_str(), 16, u64::MAX) {
            Some(n) => numbers.push(n),
            None => {
                return None;
            },
        }
        i = i + 1;
    }
    assert(hex_word(words(value@)[1]) == Some(numbers@[1] as nat));
    assert(hex_word(words(value@)[2]) == Some(numbers@[2] as nat));
    let total_pcm_samples = if numbers.len() > 3 {
        assert(hex_word(words(value@)[3]) == Some(numbers@[3] as nat));
        Some(numbers[3])
    } else {
        None
    };
    Some(
        ItunesSmpb {
            encoder_delay: numbers[1],
            trailing_padding: numbers[2],
            total_pcm_samples,
        },
    )
}

// ---- written tags ---------------------------------------------------------

/// The hexadecimal digit of a number below sixteen, in either case.
pub open spec fn hex_char(d: nat, upper: bool) -> char {
    if d < 10 {
        (48 + d) as u8 as char
    } else if upper {
        (55 + d) as u8 as char
    } else {
        (87 + d) as u8 as char
    }
}

/// A number in hexadecimal digits, with zeros in front up to a width.
pub open spec fn hex_padded(n: nat, width: nat, upper: bool) -> Seq<char>
    decreases n, width,
{
    let last = hex_char(n % 16, upper);
    if n < 16 && width <= 1 {
        seq![last]
    } else {
        let rest: nat = if width == 0 {
            0
        } else {
            (width - 1) as nat
        };
        hex_padded(n / 16, rest, upper).push(last)
    }
}

/// A number as it is written into a tag, and the white space behind it.
pub ghost struct HexField {
    pub number: u64,
    pub width: nat,
    pub upper: bool,
    pub gap: Seq<char>,
}

impl HexField {
    pub open spec fn word(&self) -> Seq<char> {
        hex_padded(self.number as nat, self.width, self.upper)
    }
}

/// The text of a tag with some numbers.
pub open spec fn tag_text(fields: Seq<HexField>) -> Seq<char>
    decreases fields.len(),
{
    if fields.len() == 0 {
        Seq::empty()
    } else {
        fields[0].word() + (fields[0].gap + tag_text(fields.skip(1)))
    }
}

/// Whether there is white space, and nothing else, between any two numbers.
pub open spec fn is_spaced(fields: Seq<HexField>) -> bool {
    &&& forall|i: int| 0 <= i < fields.len() ==> all_space((#[trigger] fields[i]).gap)
    &&& forall|i: int| 0 <= i < fields.len() - 1 ==> (#[trigger] fields[i]).gap.len() > 0
}

proof fn lemma_hex_padded(n: nat, width: nat, upper: bool)
    ensures
        ({
            let s = hex_padded(n, width, upper);
            &&& s.len() > 0
            &&& s[0] != '+'
            &&& no_space(s)
            &&& all_digits(s, 16)
            &&& digits_value(s, 16) == n
        }),
    decreases n, width,
{
    let s = hex_padded(n, width, upper);
    let last = hex_char(n % 16, upper);
    assert(digit_value(last) == Some(n % 16) && !is_space(last) && last != '+');
    if n < 16 && width <= 1 {
        assert(s.drop_last() =~= Seq::<char>::empty());
        assert(digits_value(s.drop_last(), 16) == 0);
    } else {
        let rest: nat = if width == 0 {
            0
        } else {
            (width - 1) as nat
        };
        let front = hex_padded(n / 16, rest, upper);
        lemma_hex_padded(n / 16, rest, upper);
        assert(s == front.push(last));
        assert(s.drop_last() =~= front);
        assert(s[0] == front[0]);
        assert forall|i: int| 0 <= i < s.len() implies !is_space(#[trigger] s[i]) && (digit_value(
            s[i],
        ) matches Some(d) && d < 16) by {
            if i < front.len() {
                assert(s[i] == front[i]);
            }
        }
    }
}

proof fn lemma_words_of_tag(fields: Seq<HexField>)
    requires
        is_spaced(fields),
    ensures
        words(tag_text(fields)) == fields.map_values(|f: HexField| f.word()),
    decreases fields.len(),
{
    let ws = fields.map_values(|f: HexField| f.word());
    if fields.len() == 0 {
        assert(ws =~= Seq::<Seq<char>>::empty());
    } else {
        let f = fields[0];
        let tail = fields.skip(1);
        assert forall|i: int| 0 <= i < tail.len() implies all_space((#[trigger] tail[i]).gap) by {
            assert(tail[i] == fields[i + 1]);
        }
        assert forall|i: int| 0 <= i < tail.len() - 1 implies (#[trigger] tail[i]).gap.len() > 0 by {
            assert(tail[i] == fields[i + 1]);
        }
        lemma_words_of_tag(tail);
        lemma_hex_padded(f.number as nat, f.width, f.upper);
        let after = f.gap + tag_text(tail);
        if after.len() > 0 && f.gap.len() == 0 {
            assert(tail.len() == 0);
            assert(after.len() == 0);
        }
        if f.gap.len() > 0 {
            assert(after[0] == f.gap[0]);
        }
        lemma_words_from_word(f.word(), after);
        lemma_words_behind_space(f.gap, tag_text(tail));
        assert(seq![f.word()] + tail.map_values(|f: HexField| f.word()) =~= ws);
    }
}

/// A tag that is written from numbers is read back as those numbers, in whatever
/// width and case they are written and whatever white space stands around them.
pub proof fn law_written_tags_are_read_back(
    lead: Seq<char>,
    fields: Seq<HexField>,
    value: &str,
    r: Option<ItunesSmpb>,
)
    requires
        fields.len() >= 3,
        all_space(lead),
        is_spaced(fields),
        value@ == lead + tag_text(fields),
        call_ensures(parse_itunsmpb, (value,), r),
    ensures
        r == Some(
            ItunesSmpb {
                encoder_delay: fields[1].number,
                trailing_padding: fields[2].number,
                total_pcm_samples: if fields.len() > 3 {
                    Some(fields[3].number)
                } else {
                    None
                },
            },
        ),
{
    lemma_words_behind_space(lead, tag_text(fields));
    lemma_words_of_tag(fields);
    let ws = words(value@);
    assert forall|i: int| 0 <= i < ws.len() implies hex_word(#[trigger] ws[i]) == Some(
        fields[i].number as nat,
    ) by {
        let f = fields[i];
        assert(ws[i] == f.word());
        lemma_hex_padded(f.number as nat, f.width, f.upper);
    }
    assert(all_hex(ws));
    assert(hex_word(ws[1]) == Some(fields[1].number as nat));
    assert(hex_word(ws[2]) == Some(fields[2].number as nat));
    if fields.len() > 3 {
        assert(hex_word(ws[3]) == Some(fields[3].number as nat));
    }
}

/// A tag gives nothing where it has fewer than three words, or where any of its
/// words is not hexadecimal; otherwise it gives what its words say.
pub proof fn law_malformed_tags_give_nothing(value: &str, r: Option<ItunesSmpb>, i: int)
    requires
        call_ensures(parse_itunsmpb, (value,), r),
    ensures
        words(value@).len() < 3 ==> r is None,
        0 <= i < words(value@).len() && number_in(words(value@)[i], 16, 0xffff_ffff_ffff_ffff)
            is None ==> r is None,
        words(value@).len() >= 3 && (forall|j: int|
            0 <= j < words(value@).len() ==> number_in(
                #[trigger] words(value@)[j],
                16,
                0xffff_ffff_ffff_ffff,
            ) is Some) ==> r is Some,
{
}

} // verus!
