//! Decimal numbers, blank strings and lists of words.
use vstd::arithmetic::power::{lemma_pow0, lemma_pow_positive, pow};
use vstd::prelude::*;
use vstd::string::*;

verus! {

/// The character for a decimal digit.
pub open spec fn digit(d: nat) -> char {
    if d == 0 {
        '0'
    } else if d == 1 {
        '1'
    } else if d == 2 {
        '2'
    } else if d == 3 {
        '3'
    } else if d == 4 {
        '4'
    } else if d == 5 {
        '5'
    } else if d == 6 {
        '6'
    } else if d == 7 {
        '7'
    } else if d == 8 {
        '8'
    } else {
        '9'
    }
}

/// `n` in decimal, without leading zeros.
pub open spec fn decimal(n: nat) -> Seq<char>
    decreases n,
{
    if n < 10 {
        seq![digit(n)]
    } else {
        decimal(n / 10).push(digit(n % 10))
    }
}

/// The value of a decimal digit.
pub open spec fn digit_value(c: char) -> Option<nat> {
    if '0' <= c && c <= '9' {
        Some((c as int - '0' as int) as nat)
    } else {
        None
    }
}

/// The number that a run of decimal digits stands for; zero for an empty run.
pub open spec fn digits_value(s: Seq<char>) -> Option<nat>
    decreases s.len(),
{
    if s.len() == 0 {
        Some(0)
    } else {
        match (digits_value(s.drop_last()), digit_value(s.last())) {
            (Some(high), Some(low)) => Some(high * 10 + low),
            _ => None,
        }
    }
}

/// The number that `s` stands for: at least one decimal digit, after a plus sign if there is one.
pub open spec fn unsigned_value(s: Seq<char>) -> Option<nat> {
    let digits = if s.len() > 0 && s[0] == '+' {
        s.drop_first()
    } else {
        s
    };
    if digits.len() == 0 {
        None
    } else {
        digits_value(digits)
    }
}

/// What is left of `s` without the sign that it begins with, if it begins with one.
pub open spec fn without_sign(s: Seq<char>) -> Seq<char> {
    if s.len() > 0 && (s[0] == '+' || s[0] == '-') {
        s.drop_first()
    } else {
        s
    }
}

/// Whether `s` is negative, and the number without its sign: at least one decimal digit, after a
/// sign if there is one.
pub open spec fn number_parts(s: Seq<char>) -> Option<(bool, nat)> {
    if without_sign(s).len() == 0 {
        None
    } else {
        match digits_value(without_sign(s)) {
            Some(n) => Some((s[0] == '-', n)),
            None => None,
        }
    }
}

/// The number that `s` stands for, which may have a sign.
pub open spec fn signed_value(s: Seq<char>) -> Option<int> {
    match number_parts(s) {
        Some((negative, n)) => Some(
            if negative {
                -(n as int)
            } else {
                n as int
            },
        ),
        None => None,
    }
}

/// `n` in decimal, after a minus sign where it is negative.
pub open spec fn signed_decimal(n: int) -> Seq<char> {
    if n < 0 {
        "-"@ + decimal((-n) as nat)
    } else {
        decimal(n as nat)
    }
}

/// The digit `d` as a string.
fn digit_text(d: u64) -> (text: &'static str)
    requires
        d < 10,
    ensures
        text@ == seq![digit(d as nat)],
{
    proof {
        reveal_strlit("0");
        reveal_strlit("1");
        reveal_strlit("2");
        reveal_strlit("3");
        reveal_strlit("4");
        reveal_strlit("5");
        reveal_strlit("6");
        reveal_strlit("7");
        reveal_strlit("8");
        reveal_strlit("9");
    }
    let text = if d == 0 {
        "0"
    } else if d == 1 {
        "1"
    } else if d == 2 {
        "2"
    } else if d == 3 {
        "3"
    } else if d == 4 {
        "4"
    } else if d == 5 {
        "5"
    } else if d == 6 {
        "6"
    } else if d == 7 {
        "7"
    } else if d == 8 {
        "8"
    } else {
        "9"
    };
    assert(text@ =~= seq![digit(d as nat)]);
    text
}

/// Appends `n` in decimal.
pub fn append_decimal(out: &mut String, n: u64)
    ensures
        final(out)@ == old(out)@ + decimal(n as nat),
    decreases n,
{
    if n >= 10 {
        append_decimal(out, n / 10);
    }
    out.append(digit_text(n % 10));
    assert(out@ =~= old(out)@ + decimal(n as nat));
}

/// `n` in decimal.
pub fn decimal_text(n: u64) -> (text: String)
    ensures
        text@ == decimal(n as nat),
{
    let mut text = String::new();
    append_decimal(&mut text, n);
    assert(text@ =~= decimal(n as nat));
    text
}

/// `n` in decimal, after a minus sign where it is negative.
pub fn signed_text(n: i32) -> (text: String)
    ensures
        text@ == signed_decimal(n as int),
{
    if n < 0 {
        "-".to_owned().concat(decimal_text((0 - n as i64) as u64).as_str())
    } else {
        decimal_text(n as u64)
    }
}

/// Reads the sign and the size of a number, where the size is at most `max`.
fn read_parts(text: &str, max: u64) -> (parts: Option<(bool, u64)>)
    ensures
        match number_parts(text@) {
            Some((negative, n)) => parts == if n <= max {
                Some((negative, n as u64))
            } else {
                None
            },
            None => parts is None,
        },
{
    let mut value: u128 = 0;
    let mut negative: bool = false;
    let mut seen: bool = false;
    let mut first: bool = true;
    let ghost digits = without_sign(text@);
    let ghost lead = text@.len() - digits.len();
    for c in chars: text.chars()
        invariant
            chars.seq() == text@,
            digits == without_sign(text@),
            lead == text@.len() - digits.len(),
            first == (chars.index() == 0),
            first ==> value == 0 && !negative,
            !first ==> negative == (text@[0] == '-'),
            seen == (chars.index() > lead),
            value <= max,
            chars.index() >= lead ==> digits_value(digits.take(chars.index() - lead)) == Some(
                value as nat,
            ),
    {
        let ghost i = chars.index();
        assert(c == text@[i]);
        if first && (c == '+' || c == '-') {
            first = false;
            negative = c == '-';
            assert(digits.take(0).len() == 0);
        } else {
            first = false;
            assert(i >= lead);
            proof {
                if i == 0 {
                    assert(digits.take(0).len() == 0);
                }
                assert(digits.take(i + 1 - lead).drop_last() =~= digits.take(i - lead));
                assert(digits.take(i + 1 - lead).last() == c);
            }
            if !('0' <= c && c <= '9') {
                proof {
                    lemma_bad_digit(digits, i - lead);
                }
                return None;
            }
            value = value * 10 + (c as u128 - '0' as u128);
            seen = true;
            if value > max as u128 {
                proof {
                    lemma_value_grows(digits, i + 1 - lead);
                }
                return None;
            }
        }
    }
    assert(digits.take(digits.len() as int) =~= digits);
    if seen {
        Some((negative, value as u64))
    } else {
        None
    }
}

/// Reads a number that is at most `max`; `None` where `text` is no number or a larger one.
pub fn read_unsigned(text: &str, max: u64) -> (value: Option<u64>)
    ensures
        match unsigned_value(text@) {
            Some(n) => value == if n <= max {
                Some(n as u64)
            } else {
                None
            },
            None => value is None,
        },
{
    proof {
        if text@.len() > 0 && text@[0] == '-' {
            lemma_bad_digit(text@, 0);
        }
    }
    match read_parts(text, max) {
        Some((negative, value)) => if negative {
            None
        } else {
            Some(value)
        },
        None => None,
    }
}

/// Reads a number with or without a sign; `None` where `text` is no number or does not fit.
pub fn read_signed(text: &str) -> (value: Option<i32>)
    ensures
        match signed_value(text@) {
            Some(n) => value == if i32::MIN <= n <= i32::MAX {
                Some(n as i32)
            } else {
                None
            },
            None => value is None,
        },
{
    match read_parts(text, 0x8000_0000) {
        Some((negative, size)) => if negative {
            Some((0 - size as i64) as i32)
        } else if size <= i32::MAX as u64 {
            Some(size as i32)
        } else {
            None
        },
        None => None,
    }
}

/// A run with a character in it that is no digit stands for no number.
proof fn lemma_bad_digit(s: Seq<char>, i: int)
    requires
        0 <= i < s.len(),
        digit_value(s[i]) is None,
    ensures
        digits_value(s) is None,
    decreases s.len(),
{
    if i < s.len() - 1 {
        lemma_bad_digit(s.drop_last(), i);
    }
}

/// More digits never make the number smaller.
proof fn lemma_value_grows(s: Seq<char>, n: int)
    requires
        0 <= n <= s.len(),
    ensures
        digits_value(s) matches Some(all) ==> digits_value(s.take(n)) matches Some(some) && some
            <= all,
    decreases s.len(),
{
    if n < s.len() {
        lemma_value_grows(s.drop_last(), n);
        assert(s.drop_last().take(n) =~= s.take(n));
    } else {
        assert(s.take(n) =~= s);
    }
}

/// What is written in decimal is read back.
pub proof fn law_decimal_reads_back(n: nat)
    ensures
        unsigned_value(decimal(n)) == Some(n),
{
    lemma_decimal(n);
}

/// What is written with its sign is read back.
pub proof fn law_signed_decimal_reads_back(n: int)
    ensures
        signed_value(signed_decimal(n)) == Some(n),
        n >= 0 ==> writes(signed_decimal(n), n as nat),
        n < 0 ==> signed_decimal(n)[0] == '-' && writes(signed_decimal(n).drop_first(), (-n) as nat),
{
    reveal_strlit("-");
    let size = (if n < 0 {
        -n
    } else {
        n
    }) as nat;
    lemma_decimal(size);
    assert(without_sign(signed_decimal(n)) =~= decimal(size));
    law_numbers_are_written_in_digits(size);
}

/// Decimal numbers are made of digits.
pub proof fn lemma_decimal(n: nat)
    ensures
        decimal(n).len() > 0,
        digit_value(decimal(n)[0]) is Some,
        digits_value(decimal(n)) == Some(n),
    decreases n,
{
    if n < 10 {
        let s = decimal(n);
        assert(s.drop_last().len() == 0);
        assert(digits_value(s.drop_last()) == Some(0nat));
    } else {
        lemma_decimal(n / 10);
        assert(decimal(n).drop_last() =~= decimal(n / 10));
    }
}

/// The characters that count as white space.
pub open spec fn white_space(c: char) -> bool {
    ||| '\u{9}' <= c <= '\u{d}'
    ||| c == ' '
    ||| c == '\u{85}'
    ||| c == '\u{a0}'
    ||| c == '\u{1680}'
    ||| '\u{2000}' <= c <= '\u{200a}'
    ||| c == '\u{2028}'
    ||| c == '\u{2029}'
    ||| c == '\u{202f}'
    ||| c == '\u{205f}'
    ||| c == '\u{3000}'
}

/// Nothing but white space.
pub open spec fn blank(s: Seq<char>) -> bool {
    forall|i: int| 0 <= i < s.len() ==> white_space(#[trigger] s[i])
}

/// Whether `c` is white space.
pub fn is_white_space(c: char) -> (yes: bool)
    ensures
        yes == white_space(c),
{
    ('\u{9}' <= c && c <= '\u{d}') || c == ' ' || c == '\u{85}' || c == '\u{a0}' || c == '\u{1680}'
        || ('\u{2000}' <= c && c <= '\u{200a}') || c == '\u{2028}' || c == '\u{2029}' || c
        == '\u{202f}' || c == '\u{205f}' || c == '\u{3000}'
}

/// Whether `text` is empty or holds nothing but white space.
pub fn is_blank(text: &str) -> (yes: bool)
    ensures
        yes == blank(text@),
{
    for c in chars: text.chars()
        invariant
            chars.seq() == text@,
            forall|i: int| 0 <= i < chars.index() ==> white_space(#[trigger] text@[i]),
    {
        if !is_white_space(c) {
            assert(!white_space(text@[chars.index() as int]));
            return false;
        }
    }
    true
}

/// Whether two strings hold the same characters.
pub fn same_text(a: &str, b: &str) -> (yes: bool)
    ensures
        yes == (a@ == b@),
{
    a.to_owned() == b.to_owned()
}

/// The characters of each word of a list.
pub open spec fn texts(words: Seq<String>) -> Seq<Seq<char>> {
    words.map_values(|word: String| word@)
}

/// The words with `separator` between them.
pub open spec fn joined(words: Seq<Seq<char>>, separator: Seq<char>) -> Seq<char>
    decreases words.len(),
{
    if words.len() == 0 {
        Seq::empty()
    } else if words.len() == 1 {
        words[0]
    } else {
        joined(words.drop_last(), separator) + separator + words.last()
    }
}

/// Joins the words with single spaces.
pub fn join_words(words: &Vec<String>) -> (text: String)
    ensures
        text@ == joined(texts(words@), " "@),
{
    let mut text = String::new();
    let mut i: usize = 0;
    while i < words.len()
        invariant
            i <= words@.len(),
            text@ == joined(texts(words@).take(i as int), " "@),
        decreases words@.len() - i,
    {
        proof {
            assert(texts(words@).take(i + 1).drop_last() =~= texts(words@).take(i as int));
        }
        if i > 0 {
            text.append(" ");
        }
        text.append(words[i].as_str());
        assert(text@ =~= joined(texts(words@).take(i + 1), " "@));
        i += 1;
    }
    assert(texts(words@).take(i as int) =~= texts(words@));
    text
}

/// Appends one word to a list.
pub fn add_word(words: &mut Vec<String>, word: &str)
    ensures
        texts(final(words)@) == texts(old(words)@).push(word@),
{
    words.push(word.to_owned());
    assert(texts(words@) =~= texts(old(words)@).push(word@));
}

/// Nothing but the digits from 0 to 9.
pub open spec fn all_digits(s: Seq<char>) -> bool {
    forall|i: int| 0 <= i < s.len() ==> '0' <= #[trigger] s[i] && s[i] <= '9'
}

/// `s` is how `n` is written: digits without a zero in front, unless the only one is zero, that read
/// as `n`.
pub open spec fn writes(s: Seq<char>, n: nat) -> bool {
    &&& s.len() > 0
    &&& all_digits(s)
    &&& s[0] == '0' ==> s.len() == 1
    &&& unsigned_value(s) == Some(n)
}

/// A number is a run of digits, at least one, with a plus sign in front or not; nothing else is.
pub proof fn law_numbers_are_made_of_digits(s: Seq<char>)
    ensures
        unsigned_value(s) is Some <==> {
            ||| s.len() > 0 && all_digits(s)
            ||| s.len() > 1 && s[0] == '+' && all_digits(s.drop_first())
        },
        s.len() > 1 && s[0] == '+' && all_digits(s.drop_first()) ==> unsigned_value(s)
            == unsigned_value(s.drop_first()),
{
    let digits = if s.len() > 0 && s[0] == '+' {
        s.drop_first()
    } else {
        s
    };
    lemma_digits(digits);
    if s.len() > 0 && s[0] == '+' {
        assert(!all_digits(s));
        if all_digits(digits) && digits.len() > 0 {
            assert('0' <= digits[0]);
        }
    }
}

/// A run stands for a number exactly when it holds nothing but digits.
proof fn lemma_digits(s: Seq<char>)
    ensures
        digits_value(s) is Some <==> all_digits(s),
    decreases s.len(),
{
    if s.len() > 0 {
        let less = s.drop_last();
        lemma_digits(less);
        if all_digits(s) {
            assert forall|i: int| 0 <= i < less.len() implies '0' <= #[trigger] less[i] && less[i]
                <= '9' by {
                assert(less[i] == s[i]);
            }
            assert('0' <= s[s.len() - 1]);
        } else if all_digits(less) {
            let i = choose|i: int| 0 <= i < s.len() && !('0' <= #[trigger] s[i] && s[i] <= '9');
            if i < less.len() {
                assert('0' <= less[i]);
            }
        }
    }
}

/// Digits count by their place: a digit alone is its distance from 0, and digits in front of `low`
/// count ten times for every digit of `low`.
pub proof fn law_digits_count_by_place(high: Seq<char>, low: Seq<char>)
    requires
        high.len() > 0,
        low.len() > 0,
        all_digits(high),
        all_digits(low),
    ensures
        unsigned_value(high) is Some,
        unsigned_value(low) is Some,
        unsigned_value(high + low) == Some(
            (unsigned_value(high)->0 * pow(10, low.len()) + unsigned_value(low)->0) as nat,
        ),
        low.len() == 1 ==> unsigned_value(low)->0 == low[0] as int - '0' as int,
{
    law_numbers_are_made_of_digits(high);
    law_numbers_are_made_of_digits(low);
    assert('0' <= high[0]);
    assert('0' <= low[0]);
    lemma_places(high, low);
    assert((high + low)[0] == high[0]);
    if low.len() == 1 {
        assert(digits_value(low.drop_last()) == Some(0nat));
        assert(unsigned_value(low) == digits_value(low));
    }
}

/// The same for runs that may be empty.
proof fn lemma_places(high: Seq<char>, low: Seq<char>)
    requires
        all_digits(high),
        all_digits(low),
    ensures
        digits_value(high) matches Some(h) && digits_value(low) matches Some(l) && digits_value(
            high + low,
        ) == Some((h * pow(10, low.len()) + l) as nat) && h * pow(10, low.len()) >= 0,
    decreases low.len(),
{
    lemma_digits(high);
    lemma_digits(low);
    let h = digits_value(high)->0;
    lemma_pow_positive(10, low.len());
    let q = pow(10, low.len());
    assert(h * q >= 0) by (nonlinear_arith)
        requires
            h >= 0,
            q > 0,
    ;
    if low.len() == 0 {
        lemma_pow0(10);
        assert(high + low =~= high);
    } else {
        let less = low.drop_last();
        assert forall|i: int| 0 <= i < less.len() implies '0' <= #[trigger] less[i] && less[i]
            <= '9' by {
            assert(less[i] == low[i]);
        }
        lemma_places(high, less);
        assert((high + low).drop_last() =~= high + less);
        assert((high + low).last() == low.last());
        assert('0' <= low[low.len() - 1]);
        assert(pow(10, low.len()) == pow(10, less.len()) * 10) by {
            vstd::arithmetic::power::lemma_pow1(10);
            vstd::arithmetic::power::lemma_pow_adds(10, less.len(), 1);
        }
        let p = pow(10, less.len());
        assert((h * p) * 10 == h * (p * 10)) by (nonlinear_arith);
    }
}

/// A minus sign turns a number around; without one a signed number is read like any other.
pub proof fn law_minus_turns_numbers_around(s: Seq<char>)
    ensures
        s.len() > 0 && s[0] == '-' ==> signed_value(s) == (if s.len() > 1 && all_digits(
            s.drop_first(),
        ) {
            Some(-(unsigned_value(s.drop_first())->0))
        } else {
            None
        }),
        s.len() == 0 || s[0] != '-' ==> signed_value(s) == (match unsigned_value(s) {
            Some(n) => Some(n as int),
            None => None,
        }),
{
    if s.len() > 0 && s[0] == '-' {
        let digits = s.drop_first();
        lemma_digits(digits);
        if digits.len() > 0 && all_digits(digits) {
            assert('0' <= digits[0]);
        }
    }
}

/// Numbers are written as they are read, without a zero in front.
pub proof fn law_numbers_are_written_in_digits(n: nat)
    ensures
        writes(decimal(n), n),
    decreases n,
{
    lemma_decimal(n);
    lemma_digits(decimal(n));
    law_decimal_reads_back(n);
    lemma_no_leading_zero(n);
}

/// Only zero begins with a zero.
proof fn lemma_no_leading_zero(n: nat)
    ensures
        decimal(n).len() > 0,
        decimal(n)[0] == '0' ==> n == 0 && decimal(n).len() == 1,
    decreases n,
{
    if n >= 10 {
        lemma_no_leading_zero(n / 10);
        assert(decimal(n)[0] == decimal(n / 10)[0]);
    }
}

/// Words are joined in order with the separator between each two of them.
pub proof fn law_joined_words_follow_each_other(
    words: Seq<Seq<char>>,
    word: Seq<char>,
    separator: Seq<char>,
)
    ensures
        joined(seq![word], separator) == word,
        words.len() > 0 ==> joined(words.push(word), separator) == joined(words, separator)
            + separator + word,
{
    assert(words.push(word).drop_last() =~= words);
}

/// A list of words has the characters of each word in its place.
pub proof fn law_lists_keep_their_words(words: Seq<String>)
    ensures
        texts(words).len() == words.len(),
        forall|i: int| 0 <= i < words.len() ==> #[trigger] texts(words)[i] == words[i]@,
{
}

} // verus!
