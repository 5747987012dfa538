//! Decimal digits and string comparison.

use vstd::prelude::*;
use vstd::std_specs::iter::IteratorSpec;

verus! {

/// Whether `c` is one of the ASCII digits `0` to `9`.
pub open spec fn is_digit(c: char) -> bool {
    '0' <= c && c <= '9'
}

/// The number that an ASCII digit stands for.
pub open spec fn digit_value(c: char) -> nat {
    (c as u32 - '0' as u32) as nat
}

/// Whether every character of `s` is an ASCII digit.
pub open spec fn all_digits(s: Seq<char>) -> bool {
    forall|i: int| 0 <= i < s.len() ==> is_digit(#[trigger] s[i])
}

/// The number written by the digits of `s` in base ten; 0 for the empty
/// sequence.
pub open spec fn decimal(s: Seq<char>) -> nat
    decreases s.len(),
{
    if s.len() == 0 {
        0
    } else {
        decimal(s.drop_last()) * 10 + digit_value(s.last())
    }
}

/// A number never gets smaller when digits are appended to it.
pub proof fn lemma_decimal_grows(s: Seq<char>, j: int, k: int)
    requires
        0 <= j <= k <= s.len(),
    ensures
        decimal(s.take(j)) <= decimal(s.take(k)),
    decreases k - j,
{
    if j < k {
        lemma_decimal_grows(s, j, k - 1);
        assert(s.take(k).drop_last() =~= s.take(k - 1));
    }
}

/// Whether two strings hold the same characters.
pub fn same_text(a: &str, b: &str) -> (r: bool)
    ensures
        r == (a@ == b@),
{
    let x = a.to_owned();
    let y = b.to_owned();
    x == y
}

/// Whether `c` is an ASCII digit.
pub fn char_is_digit(c: char) -> (r: bool)
    ensures
        r == is_digit(c),
{
    '0' <= c && c <= '9'
}

/// Reads the characters of `chars` from `start` up to `end` as a decimal
/// number.
///
/// Returns the number when that range is not empty, holds digits only and
/// the number fits in 64 bits; `None` otherwise.
pub(crate) fn parse_decimal(chars: &Vec<char>, start: usize, end: usize) -> (r: Option<u64>)
    requires
        start <= end <= chars@.len(),
    ensures
        r is Some <==> (start < end && all_digits(chars@.subrange(start as int, end as int))
            && decimal(chars@.subrange(start as int, end as int)) <= u64::MAX),
        r matches Some(v) ==> v == decimal(chars@.subrange(start as int, end as int)),
{
    if start == end {
        return None;
    }
    let ghost digits = chars@.subrange(start as int, end as int);
    let mut value: u64 = 0;
    let mut i: usize = start;
    while i < end
        invariant
            start <= i <= end <= chars@.len(),
            digits == chars@.subrange(start as int, end as int),
            all_digits(digits.take(i - start)),
            value == decimal(digits.take(i - start)),
        decreases end - i,
    {
        let c = chars[i];
        assert(c == digits[i - start]);
        if !char_is_digit(c) {
            return None;
        }
        let d: u64 = (c as u32 - '0' as u32) as u64;
        proof {
            assert(digits.take(i - start + 1).drop_last() =~= digits.take(i - start));
            assert(digits.take(i - start + 1).last() == c);
            lemma_decimal_grows(digits, i - start + 1, digits.len() as int);
            assert(digits.take(digits.len() as int) =~= digits);
        }
        if value > (u64::MAX - d) / 10 {
            return None;
        }
        value = value * 10 + d;
        i += 1;
    }
    assert(digits.take(end - start) =~= digits);
    Some(value)
}

/// What a text means as a whole number: an optional sign and then digits
/// alone, at least one; nothing for any other text.
pub open spec fn integer_of_text(s: Seq<char>) -> Option<int> {
    if s.len() > 0 && (s[0] == '-' || s[0] == '+') {
        if s.len() > 1 && all_digits(s.skip(1)) {
            if s[0] == '-' {
                Some(-(decimal(s.skip(1)) as int))
            } else {
                Some(decimal(s.skip(1)) as int)
            }
        } else {
            None
        }
    } else if s.len() > 0 && all_digits(s) {
        Some(decimal(s) as int)
    } else {
        None
    }
}

/// Reads a text as a whole number of 64 bits with a sign: the number where
/// the text is one and the number fits, `None` otherwise.
pub fn parse_integer(s: &str) -> (r: Option<i64>)
    ensures
        match integer_of_text(s@) {
            Some(value) if i64::MIN <= value <= i64::MAX => r == Some(value as i64),
            _ => r is None,
        },
{
    let chars = to_chars(s);
    let len = chars.len();
    if len == 0 {
        return None;
    }
    let signed = chars[0] == '-' || chars[0] == '+';
    let start: usize = if signed {
        1
    } else {
        0
    };
    assert(chars@.subrange(start as int, len as int) =~= chars@.skip(start as int));
    assert(chars@.skip(0) =~= chars@);
    if !signed {
        assert(!is_digit('-') && !is_digit('+'));
    }
    match parse_decimal(&chars, start, len) {
        Some(magnitude) => {
            if chars[0] == '-' {
                if magnitude <= 0x7fff_ffff_ffff_ffff {
                    Some(-(magnitude as i64))
                } else if magnitude == 0x8000_0000_0000_0000 {
                    Some(i64::MIN)
                } else {
                    None
                }
            } else if magnitude <= 0x7fff_ffff_ffff_ffff {
                Some(magnitude as i64)
            } else {
                None
            }
        },
        None => None,
    }
}

/// The character of a digit.
pub open spec fn digit_char(d: int) -> char {
    if d == 0 {
        '0'
    } else if d == 1 {
        '1'
    } else if d == 2 {
        '2'
    } else if d == 3 {
        '3'
    } else if d == 4 {
        '4'
    } else if d == 5 {
        '5'
    } else if d == 6 {
        '6'
    } else if d == 7 {
        '7'
    } else if d == 8 {
        '8'
    } else {
        '9'
    }
}

/// A natural number written in base ten, without leading zeros.
pub open spec fn nat_text(n: nat) -> Seq<char>
    decreases n,
{
    if n < 10 {
        seq![digit_char(n as int)]
    } else {
        nat_text(n / 10).push(digit_char((n % 10) as int))
    }
}

/// A whole number written in base ten, with a minus sign where it is
/// negative.
pub open spec fn int_text(i: int) -> Seq<char> {
    if i < 0 {
        seq!['-'] + nat_text((-i) as nat)
    } else {
        nat_text(i as nat)
    }
}

/// A natural number that is written in base ten reads as itself.
pub proof fn lemma_text_reads_back(n: nat)
    ensures
        nat_text(n).len() > 0,
        all_digits(nat_text(n)),
        decimal(nat_text(n)) == n,
    decreases n,
{
    if n < 10 {
        let text = nat_text(n);
        assert(text.len() == 1);
        assert(is_digit(text[0]) && digit_value(text[0]) == n);
        assert(text.drop_last() =~= Seq::<char>::empty());
        assert(decimal(text.drop_last()) == 0);
    } else {
        let front = nat_text(n / 10);
        let last = digit_char((n % 10) as int);
        lemma_text_reads_back(n / 10);
        let text = nat_text(n);
        assert(text == front.push(last));
        assert(text.drop_last() =~= front);
        assert(is_digit(last) && digit_value(last) == n % 10);
        assert forall|i: int| 0 <= i < text.len() implies is_digit(#[trigger] text[i]) by {
            if i < front.len() {
                assert(text[i] == front[i]);
            }
        }
    }
}

/// The text of one digit.
fn digit_text(d: u8) -> (r: &'static str)
    requires
        d < 10,
    ensures
        r@ == seq![digit_char(d as int)],
{
    proof {
        reveal_strlit("0");
        reveal_strlit("1");
        reveal_strlit("2");
        reveal_strlit("3");
        reveal_strlit("4");
        reveal_strlit("5");
        reveal_strlit("6");
        reveal_strlit("7");
        reveal_strlit("8");
        reveal_strlit("9");
    }
    let r = if d == 0 {
        "0"
    } else if d == 1 {
        "1"
    } else if d == 2 {
        "2"
    } else if d == 3 {
        "3"
    } else if d == 4 {
        "4"
    } else if d == 5 {
        "5"
    } else if d == 6 {
        "6"
    } else if d == 7 {
        "7"
    } else if d == 8 {
        "8"
    } else {
        "9"
    };
    assert(r@ =~= seq![digit_char(d as int)]);
    r
}

/// Appends a natural number, written in base ten, to a text.
fn append_natural(out: &mut String, n: u64)
    ensures
        final(out)@ == old(out)@ + nat_text(n as nat),
    decreases n,
{
    if n >= 10 {
        append_natural(out, n / 10);
    }
    let ghost before = out@;
    out.append(digit_text((n % 10) as u8));
    proof {
        if n >= 10 {
            assert(out@ =~= old(out)@ + nat_text(n as nat));
        } else {
            assert(out@ =~= old(out)@ + nat_text(n as nat));
        }
    }
}

/// A whole number written in base ten.
pub fn integer_text(i: i64) -> (r: String)
    ensures
        r@ == int_text(i as int),
{
    let mut out = String::new();
    if i < 0 {
        proof {
            reveal_strlit("-");
        }
        out.append("-");
        assert(out@ =~= seq!['-']);
        let magnitude: u64 = if i == i64::MIN {
            0x8000_0000_0000_0000
        } else {
            (-i) as u64
        };
        append_natural(&mut out, magnitude);
    } else {
        append_natural(&mut out, i as u64);
        assert(Seq::<char>::empty() + nat_text(i as nat) =~= nat_text(i as nat));
    }
    out
}

/// A rule of 79 tildes.
pub open spec fn rule() -> Seq<char> {
    Seq::new(79, |i: int| '~')
}

/// `message` in the boxed form used for logs: a header line, a rule, the
/// message, a rule, and a closing bracket.
pub open spec fn boxed(message: Seq<char>) -> Seq<char> {
    "Syntax(\n"@ + rule() + "\n"@ + message + "\n"@ + rule() + "\n)"@
}

/// Builds the boxed form of `message`.
pub fn boxed_text(message: &str) -> (r: String)
    ensures
        r@ == boxed(message@),
{
    let line = "~~~~~~~~~~~~~~~~~~~~~~~~~~~~~~~~~~~~~~~~~~~~~~~~~~~~~~~~~~~~~~~~~~~~~~~~~~~~~~~";
    proof {
        reveal_strlit("~~~~~~~~~~~~~~~~~~~~~~~~~~~~~~~~~~~~~~~~~~~~~~~~~~~~~~~~~~~~~~~~~~~~~~~~~~~~~~~");
        assert(line@ =~= rule());
    }
    let mut out = String::from_str("Syntax(\n");
    out.append(line);
    out.append("\n");
    out.append(message);
    out.append("\n");
    out.append(line);
    out.append("\n)");
    out
}

/// Whether `i` starts a run of 19 digits in `s`.
pub open spec fn long_number_at(s: Seq<char>, i: int) -> bool {
    &&& 0 <= i
    &&& i + 19 <= s.len()
    &&& forall|j: int| i <= j < i + 19 ==> is_digit(#[trigger] s[j])
}

/// Whether no number written in `s` has more than 18 digits, so that each
/// fits in 64 bits with a sign.
pub open spec fn short_numbers(s: Seq<char>) -> bool {
    forall|i: int| !long_number_at(s, i)
}

/// Whether no number written in `s` has more than 18 digits.
pub fn has_short_numbers(s: &str) -> (r: bool)
    ensures
        r == short_numbers(s@),
{
    let text = to_chars(s);
    short_run(&text)
}

/// Whether no run of digits in `text` is longer than 18.
pub fn short_run(text: &Vec<char>) -> (r: bool)
    ensures
        r == short_numbers(text@),
{
    let ghost all = text@;
    let mut index: usize = 0;
    let mut run: u8 = 0;
    while index < text.len()
        invariant
            all == text@,
            index <= text.len(),
            run <= 18,
            run <= index,
            forall|j: int| index - run <= j < index ==> is_digit(#[trigger] all[j]),
            index - run == 0 || !is_digit(all[index - run - 1]),
            forall|i: int| i + 19 <= index ==> !long_number_at(all, i),
        decreases text.len() - index,
    {
        if char_is_digit(text[index]) {
            if run == 18 {
                assert(long_number_at(all, index - 18));
                return false;
            }
            run = run + 1;
        } else {
            run = 0;
        }
        index = index + 1;
        proof {
            assert forall|i: int| i + 19 <= index implies !long_number_at(all, i) by {
                if i + 19 == index && long_number_at(all, i) {
                    if run == 0 {
                        assert(is_digit(all[index - 1]));
                    } else {
                        assert(is_digit(all[index - run - 1]));
                    }
                }
            }
        }
    }
    true
}

/// The characters of `s`, one by one.
pub fn to_chars(s: &str) -> (r: Vec<char>)
    ensures
        r@ == s@,
{
    let mut chars = s.chars();
    let mut out: Vec<char> = Vec::new();
    let ghost all = s@;
    assert(all.skip(0) =~= all);
    loop
        invariant
            all == s@,
            out@.len() <= all.len(),
            chars.remaining() == all.skip(out@.len() as int),
            out@ == all.take(out@.len() as int),
        ensures
            out@ == all,
        decreases all.len() - out@.len(),
    {
        let ghost before = chars;
        let ghost index = out@.len() as int;
        match chars.next() {
            Some(c) => {
                proof {
                    vstd::string::next_postcondition(&before, &chars, Some(c));
                    assert(c == all[index]);
                    assert(all.skip(index).drop_first() =~= all.skip(index + 1));
                }
                out.push(c);
                assert(out@ =~= all.take(index + 1));
            },
            None => {
                proof {
                    vstd::string::next_postcondition(&before, &chars, None);
                    assert(all.take(index) =~= all);
                }
                break ;
            },
        }
    }
    out
}

/// Whether `part` stands in `s` at `i`.
pub open spec fn occurs_at(s: Seq<char>, part: Seq<char>, i: int) -> bool {
    0 <= i && i + part.len() <= s.len() && s.subrange(i, i + part.len()) == part
}

/// Whether `part` stands somewhere in `s`.
pub open spec fn holds_part(s: Seq<char>, part: Seq<char>) -> bool {
    exists|i: int| occurs_at(s, part, i)
}

/// Whether `part` stands in `s` at `i`.
pub fn part_at(s: &Vec<char>, part: &Vec<char>, i: usize) -> (r: bool)
    requires
        i + part@.len() <= s@.len(),
    ensures
        r == occurs_at(s@, part@, i as int),
{
    let mut k: usize = 0;
    let whole = s.len();
    while k < part.len()
        invariant
            k <= part.len(),
            whole == s@.len(),
            i + part@.len() <= s@.len(),
            s@.len() <= usize::MAX,
            forall|j: int| 0 <= j < k ==> s@[i + j] == part@[j],
        decreases part.len() - k,
    {
        if s[i + k] != part[k] {
            assert(s@.subrange(i as int, i + part@.len())[k as int] != part@[k as int]);
            return false;
        }
        k += 1;
    }
    assert(s@.subrange(i as int, i + part@.len()) =~= part@);
    true
}

/// Whether `part` stands somewhere in `s`.
pub fn contains_part(s: &str, part: &str) -> (r: bool)
    ensures
        r == holds_part(s@, part@),
{
    let text = to_chars(s);
    let wanted = to_chars(part);
    part_within(&text, &wanted)
}

/// Whether the characters of `wanted` stand somewhere in `text`.
pub fn part_within(text: &Vec<char>, wanted: &Vec<char>) -> (r: bool)
    ensures
        r == holds_part(text@, wanted@),
{
    if wanted.len() > text.len() {
        return false;
    }
    let last = text.len() - wanted.len();
    let mut i: usize = 0;
    while i < last
        invariant
            i <= last,
            last == text@.len() - wanted@.len(),
            forall|j: int| j < i ==> !occurs_at(text@, wanted@, j),
        decreases last - i,
    {
        if part_at(text, wanted, i) {
            return true;
        }
        i += 1;
    }
    part_at(text, wanted, last)
}

} // verus!
