//! Small helpers on strings and byte vectors that several modules share.

use vstd::prelude::*;
use crate::trusted::{hex_bytes, hex_digit, hex_text, hex_value, texts};

verus! {

/// Whether the string holds exactly the given text.
pub fn same_text(held: &String, text: &str) -> (same: bool)
    ensures
        same == (held@ == text@),
{
    let other = text.to_owned();
    *held == other
}

/// Whether some item of the list reads `text`.
pub open spec fn spec_holds_text(list: Seq<String>, text: Seq<char>) -> bool {
    exists|i: int| 0 <= i < list.len() && (#[trigger] list[i])@ == text
}

/// Whether some item of the list reads `text`.
pub fn holds_text(list: &Vec<String>, text: &str) -> (found: bool)
    ensures
        found == spec_holds_text(list@, text@),
{
    let mut i: usize = 0;
    while i < list.len()
        invariant
            i <= list@.len(),
            forall|t: int| 0 <= t < i ==> (#[trigger] list@[t])@ != text@,
        decreases list@.len() - i,
    {
        if same_text(&list[i], text) {
            return true;
        }
        i += 1;
    }
    false
}

/// A copy of the bytes.
pub fn copy_bytes(bytes: &[u8]) -> (copy: Vec<u8>)
    ensures
        copy@ == bytes@,
{
    let mut copy: Vec<u8> = Vec::new();
    let mut i: usize = 0;
    while i < bytes.len()
        invariant
            i <= bytes@.len(),
            copy@ == bytes@.take(i as int),
        decreases bytes@.len() - i,
    {
        copy.push(bytes[i]);
        proof {
            assert(bytes@.take(i as int).push(bytes@[i as int]) =~= bytes@.take(i + 1));
        }
        i += 1;
    }
    proof {
        assert(bytes@.take(bytes@.len() as int) =~= bytes@);
    }
    copy
}

/// Appends `more` to `out`.
pub fn append_bytes(out: &mut Vec<u8>, more: &[u8])
    ensures
        final(out)@ == old(out)@ + more@,
{
    let mut i: usize = 0;
    while i < more.len()
        invariant
            i <= more@.len(),
            out@ == old(out)@ + more@.take(i as int),
        decreases more@.len() - i,
    {
        out.push(more[i]);
        proof {
            assert(more@.take(i as int).push(more@[i as int]) =~= more@.take(i + 1));
            assert((old(out)@ + more@.take(i as int)).push(more@[i as int]) =~= old(out)@ + more@.take(i + 1));
        }
        i += 1;
    }
    proof {
        assert(more@.take(more@.len() as int) =~= more@);
    }
}


/// The 32 bytes as an array.
pub fn array32(bytes: &[u8]) -> (out: [u8; 32])
    requires
        bytes@.len() == 32,
    ensures
        out@ == bytes@,
{
    let mut out = [0u8; 32];
    let mut i: usize = 0;
    while i < 32
        invariant
            i <= 32,
            bytes@.len() == 32,
            out@.len() == 32,
            forall|t: int| 0 <= t < i ==> out@[t] == bytes@[t],
        decreases 32 - i,
    {
        out[i] = bytes[i];
        i += 1;
    }
    proof {
        assert(out@ =~= bytes@);
    }
    out
}

/// The two byte strings joined.
pub fn join_bytes(first: &[u8], second: &[u8]) -> (joined: Vec<u8>)
    ensures
        joined@ == first@ + second@,
{
    let mut joined = copy_bytes(first);
    append_bytes(&mut joined, second);
    joined
}

/// The bytes from `start` to `end`.
pub fn slice_bytes(bytes: &[u8], start: usize, end: usize) -> (part: Vec<u8>)
    requires
        start <= end <= bytes@.len(),
    ensures
        part@ == bytes@.subrange(start as int, end as int),
{
    let mut part: Vec<u8> = Vec::new();
    let mut i: usize = start;
    while i < end
        invariant
            start <= i <= end <= bytes@.len(),
            part@ == bytes@.subrange(start as int, i as int),
        decreases end - i,
    {
        part.push(bytes[i]);
        proof {
            assert(bytes@.subrange(start as int, i as int).push(bytes@[i as int]) =~= bytes@.subrange(
                start as int,
                i + 1,
            ));
        }
        i += 1;
    }
    part
}

/// Whether the character is white space: one of the characters that
/// Unicode marks as such.
pub open spec fn spec_is_space(c: char) -> bool {
    let n = c as u32;
    (0x09 <= n <= 0x0D) || n == 0x20 || n == 0x85 || n == 0xA0 || n == 0x1680 || (0x2000 <= n <= 0x200A) || n
        == 0x2028 || n == 0x2029 || n == 0x202F || n == 0x205F || n == 0x3000
}

/// Whether the character is white space.
pub fn is_space(c: char) -> (space: bool)
    ensures
        space == spec_is_space(c),
{
    let n: u32 = c as u32;
    (0x09 <= n && n <= 0x0D) || n == 0x20 || n == 0x85 || n == 0xA0 || n == 0x1680 || (0x2000 <= n && n <= 0x200A)
        || n == 0x2028 || n == 0x2029 || n == 0x202F || n == 0x205F || n == 0x3000
}

/// Where the word begins that reaches up to position `n`: `n` itself where
/// no word reaches there.
pub open spec fn word_start(text: Seq<char>, n: int) -> int
    decreases n,
{
    if n <= 0 || spec_is_space(text[n - 1]) {
        n
    } else {
        word_start(text, n - 1)
    }
}

/// Whether a word ends at position `n`: the character before is no white
/// space, and the text ends there or goes on with white space.
pub open spec fn ends_word(text: Seq<char>, n: int) -> bool {
    0 < n <= text.len() && !spec_is_space(text[n - 1]) && (n == text.len() || spec_is_space(text[n]))
}

/// The words that end within the first `n` characters of the text, in order.
pub open spec fn words_upto(text: Seq<char>, n: int) -> Seq<Seq<char>>
    decreases n,
{
    if n <= 0 {
        Seq::empty()
    } else if ends_word(text, n) {
        words_upto(text, n - 1).push(text.subrange(word_start(text, n), n))
    } else {
        words_upto(text, n - 1)
    }
}

/// The words of the text: its longest stretches without white space, in
/// order.
pub open spec fn spec_words(text: Seq<char>) -> Seq<Seq<char>> {
    words_upto(text, text.len() as int)
}

/// The words of the text: its longest stretches without white space, in
/// order.
pub fn split_words(text: &str) -> (words: Vec<String>)
    ensures
        texts(words@) == spec_words(text@),
{
    let len = text.unicode_len();
    let mut words: Vec<String> = Vec::new();
    let mut start: usize = 0;
    let mut i: usize = 0;
    proof {
        assert(texts(words@) =~= words_upto(text@, 0));
    }
    while i < len
        invariant
            i <= len,
            len == text@.len(),
            start <= i,
            start == word_start(text@, i as int),
            texts(words@) == words_upto(text@, i as int),
        decreases len - i,
    {
        let c = text.get_char(i);
        if is_space(c) {
            start = i + 1;
        } else {
            let last = if i + 1 == len {
                true
            } else {
                is_space(text.get_char(i + 1))
            };
            if last {
                let ghost before = words@;
                let word = text.substring_char(start, i + 1).to_owned();
                words.push(word);
                proof {
                    assert(texts(words@) =~= texts(before).push(text@.subrange(start as int, i + 1)));
                }
            }
        }
        i += 1;
    }
    words
}

/// The text of one hexadecimal digit.
fn digit_text(nibble: u8) -> (text: &'static str)
    requires
        nibble < 16,
    ensures
        text@ == seq![hex_digit(nibble)],
{
    proof {
        reveal_strlit("0");
        reveal_strlit("1");
        reveal_strlit("2");
        reveal_strlit("3");
        reveal_strlit("4");
        reveal_strlit("5");
        reveal_strlit("6");
        reveal_strlit("7");
        reveal_strlit("8");
        reveal_strlit("9");
        reveal_strlit("a");
        reveal_strlit("b");
        reveal_strlit("c");
        reveal_strlit("d");
        reveal_strlit("e");
        reveal_strlit("f");
    }
    let text = match nibble {
        0 => "0",
        1 => "1",
        2 => "2",
        3 => "3",
        4 => "4",
        5 => "5",
        6 => "6",
        7 => "7",
        8 => "8",
        9 => "9",
        10 => "a",
        11 => "b",
        12 => "c",
        13 => "d",
        14 => "e",
        _ => "f",
    };
    proof {
        assert(text@ =~= seq![hex_digit(nibble)]);
    }
    text
}

/// The lowercase hexadecimal text of the bytes: two digits for each byte.
pub fn hex_encode(bytes: &[u8]) -> (text: String)
    ensures
        text@ == hex_text(bytes@),
{
    let mut text = String::new();
    let mut i: usize = 0;
    proof {
        assert(text@ =~= hex_text(bytes@.take(0)));
    }
    while i < bytes.len()
        invariant
            i <= bytes@.len(),
            text@ == hex_text(bytes@.take(i as int)),
        decreases bytes@.len() - i,
    {
        let byte = bytes[i];
        let ghost before = text@;
        text = text.concat(digit_text(byte / 16)).concat(digit_text(byte % 16));
        proof {
            let shorter = bytes@.take(i as int);
            let longer = bytes@.take(i + 1);
            assert(text@ == before + seq![hex_digit(byte / 16)] + seq![hex_digit(byte % 16)]);
            assert forall|k: int| 0 <= k < 2 * longer.len() implies text@[k] == hex_text(longer)[k] by {
                if k < 2 * i {
                    assert(text@[k] == before[k]);
                    assert(longer[k / 2] == shorter[k / 2]);
                } else {
                    assert(longer[k / 2] == byte);
                }
            }
            assert(text@ =~= hex_text(longer));
        }
        i += 1;
    }
    proof {
        assert(bytes@.take(bytes@.len() as int) =~= bytes@);
    }
    text
}

/// The value of one hexadecimal digit given as an ASCII byte, in either case.
fn nibble_of(c: u8) -> (value: Option<u8>)
    ensures
        value == hex_value(c),
{
    if 48 <= c && c <= 57 {
        Some(c - 48)
    } else if 97 <= c && c <= 102 {
        Some(c - 87)
    } else if 65 <= c && c <= 70 {
        Some(c - 55)
    } else {
        None
    }
}

/// The bytes that a hexadecimal text spells: `None` unless it has an even
/// length and holds hexadecimal digits only, of either case.
pub fn hex_decode(text: &[u8]) -> (bytes: Option<Vec<u8>>)
    ensures
        bytes.is_some() <==> hex_bytes(text@).is_some(),
        bytes matches Some(b) ==> b@ == hex_bytes(text@).unwrap(),
{
    if text.len() % 2 != 0 {
        return None;
    }
    let len = text.len();
    let half = len / 2;
    let mut bytes: Vec<u8> = Vec::new();
    let mut i: usize = 0;
    while i < half
        invariant
            i <= half,
            len == text@.len(),
            half * 2 == len,
            bytes@.len() == i,
            forall|k: int| 0 <= k < 2 * i ==> hex_value(#[trigger] text@[k]).is_some(),
            forall|t: int|
                0 <= t < i ==> #[trigger] bytes@[t] == (hex_value(text@[2 * t]).unwrap() * 16 + hex_value(
                    text@[2 * t + 1],
                ).unwrap()) as u8,
        decreases half - i,
    {
        let high = match nibble_of(text[2 * i]) {
            Some(value) => value,
            None => {
                return None;
            },
        };
        let low = match nibble_of(text[2 * i + 1]) {
            Some(value) => value,
            None => {
                return None;
            },
        };
        bytes.push(high * 16 + low);
        i += 1;
    }
    proof {
        assert(bytes@ =~= hex_bytes(text@).unwrap());
    }
    Some(bytes)
}

/// The value of a decimal digit; `None` for any other character.
pub open spec fn digit_value(c: char) -> Option<int> {
    if 48 <= c as u32 <= 57 {
        Some(c as u32 - 48)
    } else {
        None
    }
}

/// Whether the text holds decimal digits only.
pub open spec fn all_digits(text: Seq<char>) -> bool {
    forall|i: int| 0 <= i < text.len() ==> digit_value(#[trigger] text[i]).is_some()
}

/// The number that decimal digits spell.
pub open spec fn digits_value(text: Seq<char>) -> int
    decreases text.len(),
{
    if text.len() == 0 {
        0
    } else {
        digits_value(text.drop_last()) * 10 + (match digit_value(text.last()) {
            Some(d) => d,
            None => 0,
        })
    }
}

/// The number that a decimal text spells as a 32-bit signed integer: an
/// optional sign, then at least one digit and nothing else; `None` where the
/// text is no such number or the number does not fit.
pub open spec fn decimal_i32(text: Seq<char>) -> Option<i32> {
    let signed = text.len() > 0 && (text[0] == '-' || text[0] == '+');
    let digits = if signed {
        text.skip(1)
    } else {
        text
    };
    let value = if text.len() > 0 && text[0] == '-' {
        -digits_value(digits)
    } else {
        digits_value(digits)
    };
    if digits.len() > 0 && all_digits(digits) && i32::MIN <= value <= i32::MAX {
        Some(value as i32)
    } else {
        None
    }
}

/// One digit more makes the number no smaller.
proof fn lemma_digits_grow(text: Seq<char>)
    requires
        text.len() > 0,
    ensures
        digits_value(text) >= digits_value(text.drop_last()) >= 0,
    decreases text.len(),
{
    if text.drop_last().len() > 0 {
        lemma_digits_grow(text.drop_last());
    }
}

/// The number that a decimal text spells as a 32-bit signed integer.
pub fn parse_i32(text: &str) -> (value: Option<i32>)
    ensures
        value == decimal_i32(text@),
{
    let len = text.unicode_len();
    if len == 0 {
        return None;
    }
    let first = text.get_char(0);
    let negative = first == '-';
    let start: usize = if first == '-' || first == '+' {
        1
    } else {
        0
    };
    if start == len {
        return None;
    }
    let ghost digits = text@.skip(start as int);
    proof {
        assert(text@.skip(0) =~= text@);
        assert(text@[0] == first);
        assert(digits == if text@[0] == '-' || text@[0] == '+' {
            text@.skip(1)
        } else {
            text@
        });
        assert(digits.len() == len - start);
    }
    let limit: u64 = 0x8000_0000;
    let mut sum: u64 = 0;
    let mut i: usize = start;
    proof {
        assert(digits.take(0) =~= Seq::<char>::empty());
    }
    while i < len
        invariant
            start <= i <= len,
            len == text@.len(),
            digits == text@.skip(start as int),
            digits == if text@[0] == '-' || text@[0] == '+' {
                text@.skip(1)
            } else {
                text@
            },
            limit == 0x8000_0000,
            all_digits(digits.take(i - start)),
            digits_value(digits.take(i - start)) >= 0,
            sum <= limit + 1,
            sum == if digits_value(digits.take(i - start)) <= limit {
                digits_value(digits.take(i - start))
            } else {
                limit + 1
            },
        decreases len - i,
    {
        let c = text.get_char(i);
        let code: u32 = c as u32;
        proof {
            assert(digits[i - start] == c);
        }
        if code < 48 || code > 57 {
            proof {
                assert(digit_value(digits[i - start]).is_none());
                assert(!all_digits(digits));
                assert(decimal_i32(text@).is_none());
            }
            return None;
        }
        let digit: u64 = (code - 48) as u64;
        proof {
            let shorter = digits.take(i - start);
            let longer = digits.take(i - start + 1);
            assert(longer.drop_last() =~= shorter);
            assert(longer.last() == c);
            lemma_digits_grow(longer);
            assert forall|k: int| 0 <= k < longer.len() implies digit_value(#[trigger] longer[k]).is_some() by {
                if k < shorter.len() {
                    assert(longer[k] == shorter[k]);
                }
            }
        }
        if sum <= limit {
            sum = sum * 10 + digit;
            if sum > limit {
                sum = limit + 1;
            }
        }
        i += 1;
    }
    proof {
        assert(digits.take(len - start) =~= digits);
        assert(all_digits(digits));
        assert(negative == (text@[0] == '-'));
    }
    if negative {
        if sum <= limit {
            Some((0 - sum as i64) as i32)
        } else {
            None
        }
    } else {
        if sum < limit {
            Some(sum as i32)
        } else {
            None
        }
    }
}

} // verus!
