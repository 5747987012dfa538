//! Where a text holds template markup, and which markup the template
//! engine is handed.
//!
//! A text is read from left to right. Markup opens with `{{` or `{%` and
//! closes with `}}` or `%}`; inside markup a string runs from a quote to
//! the next quote of its kind. The engine is handed a text only where every
//! piece of markup stands on one line behind ASCII alone, names none but
//! the tags and filters listed here, and holds no number of more than 18
//! digits, no range and no opening inside a string.

use vstd::prelude::*;
use crate::text::{is_digit, occurs_at, part_at, to_chars};

verus! {

/// Where a reading stands: in plain text, in markup, or in a string inside
/// markup that the given quote closes.
#[derive(Debug, Clone, Copy, PartialEq, Eq, Structural)]
pub enum Mode {
    Text,
    Markup,
    Quoted(char),
}

/// How far a reading has come: where it stands; whether the line has held
/// ASCII alone so far; whether the line on which the spaces just read began
/// had held ASCII alone up to them; and how many digits in a row the markup
/// has just held.
#[derive(Debug, Clone, Copy, PartialEq, Eq, Structural)]
pub struct Reading {
    pub mode: Mode,
    pub plain: bool,
    pub kept: bool,
    pub digits: u8,
}

/// Whether markup opens in `text` at `i`: with `{{` or with `{%`.
pub open spec fn opens_at(text: Seq<char>, i: int) -> bool {
    0 <= i && i + 1 < text.len() && text[i] == '{' && (text[i + 1] == '{' || text[i + 1] == '%')
}

/// Whether markup closes in `text` at `i`: with `}}` or with `%}`.
pub open spec fn closes_at(text: Seq<char>, i: int) -> bool {
    0 <= i && i + 1 < text.len() && (text[i] == '}' || text[i] == '%') && text[i + 1] == '}'
}

/// Whether a character is one of ASCII.
pub open spec fn is_plain(c: char) -> bool {
    (c as u32) < 128
}

/// Whether a character may separate the words of markup.
pub open spec fn is_space(c: char) -> bool {
    c == ' ' || c == '\n' || c == '\r'
}

/// Whether a character may stand in the name of a tag or a filter.
pub open spec fn is_name_part(c: char) -> bool {
    ('a' <= c && c <= 'z') || ('A' <= c && c <= 'Z') || is_digit(c) || c == '_' || c == '-'
}

/// The first place at or behind `i` that holds no space.
pub open spec fn name_start(text: Seq<char>, i: int) -> int
    decreases text.len() - i,
{
    if 0 <= i < text.len() && is_space(text[i]) {
        name_start(text, i + 1)
    } else {
        i
    }
}

/// The first place at or behind `i` that holds no part of a name.
pub open spec fn name_end(text: Seq<char>, i: int) -> int
    decreases text.len() - i,
{
    if 0 <= i < text.len() && is_name_part(text[i]) {
        name_end(text, i + 1)
    } else {
        i
    }
}

/// Whether the name that stands in `text` from `from` up to `to` is `word`.
pub open spec fn names(text: Seq<char>, from: int, to: int, word: Seq<char>) -> bool {
    to - from == word.len() && occurs_at(text, word, from)
}

/// Whether the name from `from` up to `to` is that of a filter that the
/// engine is handed: one that changes or takes apart a text or a list or
/// rounds a number, and neither computes on numbers without a check, nor
/// sorts by an order that may be none, nor formats a date.
pub open spec fn filter_allowed(text: Seq<char>, from: int, to: int) -> bool {
    ||| names(text, from, to, "downcase"@)
    ||| names(text, from, to, "upcase"@)
    ||| names(text, from, to, "capitalize"@)
    ||| names(text, from, to, "strip"@)
    ||| names(text, from, to, "lstrip"@)
    ||| names(text, from, to, "rstrip"@)
    ||| names(text, from, to, "strip_newlines"@)
    ||| names(text, from, to, "replace"@)
    ||| names(text, from, to, "replace_first"@)
    ||| names(text, from, to, "remove"@)
    ||| names(text, from, to, "remove_first"@)
    ||| names(text, from, to, "append"@)
    ||| names(text, from, to, "prepend"@)
    ||| names(text, from, to, "split"@)
    ||| names(text, from, to, "join"@)
    ||| names(text, from, to, "first"@)
    ||| names(text, from, to, "last"@)
    ||| names(text, from, to, "reverse"@)
    ||| names(text, from, to, "uniq"@)
    ||| names(text, from, to, "compact"@)
    ||| names(text, from, to, "concat"@)
    ||| names(text, from, to, "map"@)
    ||| names(text, from, to, "where"@)
    ||| names(text, from, to, "size"@)
    ||| names(text, from, to, "default"@)
    ||| names(text, from, to, "url_encode"@)
    ||| names(text, from, to, "url_decode"@)
    ||| names(text, from, to, "truncate"@)
    ||| names(text, from, to, "truncatewords"@)
    ||| names(text, from, to, "at_least"@)
    ||| names(text, from, to, "at_most"@)
    ||| names(text, from, to, "ceil"@)
    ||| names(text, from, to, "floor"@)
    ||| names(text, from, to, "round"@)
    ||| names(text, from, to, "escape"@)
    ||| names(text, from, to, "escape_once"@)
    ||| names(text, from, to, "strip_html"@)
    ||| names(text, from, to, "newline_to_br"@)
    ||| names(text, from, to, "sort_natural"@)
}

/// Whether the name from `from` up to `to` is that of a tag that the
/// engine is handed: a condition, a loop over a list, an assignment or a
/// capture.
pub open spec fn tag_allowed(text: Seq<char>, from: int, to: int) -> bool {
    ||| names(text, from, to, "if"@)
    ||| names(text, from, to, "elsif"@)
    ||| names(text, from, to, "else"@)
    ||| names(text, from, to, "endif"@)
    ||| names(text, from, to, "unless"@)
    ||| names(text, from, to, "endunless"@)
    ||| names(text, from, to, "case"@)
    ||| names(text, from, to, "when"@)
    ||| names(text, from, to, "endcase"@)
    ||| names(text, from, to, "for"@)
    ||| names(text, from, to, "endfor"@)
    ||| names(text, from, to, "break"@)
    ||| names(text, from, to, "continue"@)
    ||| names(text, from, to, "assign"@)
    ||| names(text, from, to, "capture"@)
    ||| names(text, from, to, "endcapture"@)
}

/// Whether a filter that the engine is handed is named behind the pipe at
/// `i`.
pub open spec fn pipes_well(text: Seq<char>, i: int) -> bool {
    let from = name_start(text, i + 1);
    filter_allowed(text, from, name_end(text, from))
}

/// Whether a tag that the engine is handed is named behind the `{%` at
/// `i`; a hyphen right behind it belongs to the opening.
pub open spec fn tags_well(text: Seq<char>, i: int) -> bool {
    let behind = if i + 2 < text.len() && text[i + 2] == '-' {
        i + 3
    } else {
        i + 2
    };
    let from = name_start(text, behind);
    tag_allowed(text, from, name_end(text, from))
}

/// Whether the opening at `i` takes the spaces before it with it: a hyphen
/// follows it.
pub open spec fn takes_spaces(text: Seq<char>, i: int) -> bool {
    i + 2 < text.len() && text[i + 2] == '-'
}

/// The message for markup behind a character outside ASCII on its line.
pub open spec fn line_not_plain() -> Seq<char> {
    "Template holds markup behind a character outside ASCII on its line"@
}

/// The message for a tag that the engine is not handed.
pub open spec fn tag_unsupported() -> Seq<char> {
    "Template names a tag that is not supported"@
}

/// The message for a filter that the engine is not handed.
pub open spec fn filter_unsupported() -> Seq<char> {
    "Template names a filter that is not supported"@
}

/// The message for markup that does not end on its line.
pub open spec fn lines_unsupported() -> Seq<char> {
    "Template holds markup that does not end on its line"@
}

/// The message for markup that opens inside a string.
pub open spec fn nesting_unsupported() -> Seq<char> {
    "Template opens markup inside a string"@
}

/// The message for markup that counts through a range.
pub open spec fn range_unsupported() -> Seq<char> {
    "Template counts through a range"@
}

/// The message for markup with a number of more than 18 digits.
pub open spec fn number_too_long() -> Seq<char> {
    "Template holds a number of more than 18 digits"@
}

/// A reading at the start of a text.
pub open spec fn start() -> Reading {
    Reading { mode: Mode::Text, plain: true, kept: true, digits: 0 }
}

/// A reading one character further, or the reason why the text is not
/// handed to the engine.
///
/// Markup may open only where the line has held ASCII alone, or, where the
/// opening takes the spaces before it with it, where the line on which
/// they begin had; and a tag only with a name that is allowed. In markup, a line may not
/// end, two dots may not stand in a row, a pipe must name a filter that is
/// allowed, and no more than 18 digits may stand in a row; a quote opens a
/// string. In a string, a line may not end and markup may not open.
pub open spec fn step(text: Seq<char>, i: int, reading: Reading) -> Result<Reading, Seq<char>> {
    let c = text[i];
    let plain = c == '\n' || (reading.plain && is_plain(c));
    let kept = if is_space(c) {
        reading.kept
    } else {
        plain
    };
    match reading.mode {
        Mode::Text => if opens_at(text, i) {
            if !(if takes_spaces(text, i) {
                reading.kept
            } else {
                reading.plain
            }) {
                Err(line_not_plain())
            } else if text[i + 1] == '%' && !tags_well(text, i) {
                Err(tag_unsupported())
            } else {
                Ok(Reading { mode: Mode::Markup, plain, kept, digits: 0 })
            }
        } else {
            Ok(Reading { mode: Mode::Text, plain, kept, digits: 0 })
        },
        Mode::Markup => if c == '\n' {
            Err(lines_unsupported())
        } else if c == '"' || c == '\'' {
            Ok(Reading { mode: Mode::Quoted(c), plain, kept, digits: 0 })
        } else if closes_at(text, i) {
            Ok(Reading { mode: Mode::Text, plain, kept, digits: 0 })
        } else if c == '.' && i + 1 < text.len() && text[i + 1] == '.' {
            Err(range_unsupported())
        } else if c == '|' && !pipes_well(text, i) {
            Err(filter_unsupported())
        } else if is_digit(c) {
            if reading.digits >= 18 {
                Err(number_too_long())
            } else {
                Ok(Reading { mode: Mode::Markup, plain, kept, digits: (reading.digits + 1) as u8 })
            }
        } else {
            Ok(Reading { mode: Mode::Markup, plain, kept, digits: 0 })
        },
        Mode::Quoted(quote) => if c == '\n' {
            Err(lines_unsupported())
        } else if opens_at(text, i) {
            Err(nesting_unsupported())
        } else if c == quote {
            Ok(Reading { mode: Mode::Markup, plain, kept, digits: 0 })
        } else {
            Ok(Reading { mode: reading.mode, plain, kept, digits: 0 })
        },
    }
}

/// The reading of the first `n` characters of a text, or the first reason
/// met on the way.
pub open spec fn read_to(text: Seq<char>, n: nat) -> Result<Reading, Seq<char>>
    decreases n,
{
    if n == 0 {
        Ok(start())
    } else {
        match read_to(text, (n - 1) as nat) {
            Ok(reading) => step(text, n - 1, reading),
            Err(reason) => Err(reason),
        }
    }
}

/// Why a text is not handed to the template engine: the first reason that
/// a reading of the whole text meets, or `None` where it meets none.
pub open spec fn refusal(text: Seq<char>) -> Option<Seq<char>> {
    match read_to(text, text.len()) {
        Ok(_) => None,
        Err(reason) => Some(reason),
    }
}

/// A reason that was met stays the reason however far the reading goes.
pub proof fn lemma_reason_stays(text: Seq<char>, n: nat, m: nat)
    requires
        n <= m,
        read_to(text, n) is Err,
    ensures
        read_to(text, m) == read_to(text, n),
    decreases m,
{
    if n < m {
        lemma_reason_stays(text, n, (m - 1) as nat);
    }
}

/// The first place at or behind `i` that holds no space.
fn skip_spaces(text: &Vec<char>, i: usize) -> (r: usize)
    requires
        i <= text.len(),
    ensures
        r == name_start(text@, i as int),
        i <= r <= text.len(),
{
    let mut at: usize = i;
    while at < text.len() && (text[at] == ' ' || text[at] == '\n' || text[at] == '\r')
        invariant
            i <= at <= text.len(),
            name_start(text@, i as int) == name_start(text@, at as int),
        decreases text.len() - at,
    {
        at += 1;
    }
    at
}

/// Whether a character may stand in a name.
fn name_part(c: char) -> (r: bool)
    ensures
        r == is_name_part(c),
{
    ('a' <= c && c <= 'z') || ('A' <= c && c <= 'Z') || ('0' <= c && c <= '9') || c == '_' || c == '-'
}

/// The first place at or behind `i` that holds no part of a name.
fn skip_name(text: &Vec<char>, i: usize) -> (r: usize)
    requires
        i <= text.len(),
    ensures
        r == name_end(text@, i as int),
        i <= r <= text.len(),
{
    let mut at: usize = i;
    while at < text.len() && name_part(text[at])
        invariant
            i <= at <= text.len(),
            name_end(text@, i as int) == name_end(text@, at as int),
        decreases text.len() - at,
    {
        at += 1;
    }
    at
}

/// Whether the name from `from` up to `to` is `word`.
fn is_named(text: &Vec<char>, from: usize, to: usize, word: &str) -> (r: bool)
    requires
        from <= to <= text.len(),
    ensures
        r == names(text@, from as int, to as int, word@),
{
    let wanted = to_chars(word);
    to - from == wanted.len() && part_at(text, &wanted, from)
}

/// Whether the name from `from` up to `to` is that of an allowed filter.
fn is_filter(text: &Vec<char>, from: usize, to: usize) -> (r: bool)
    requires
        from <= to <= text.len(),
    ensures
        r == filter_allowed(text@, from as int, to as int),
{
    is_named(text, from, to, "downcase") || is_named(text, from, to, "upcase") || is_named(
        text,
        from,
        to,
        "capitalize",
    ) || is_named(text, from, to, "strip") || is_named(text, from, to, "lstrip") || is_named(
        text,
        from,
        to,
        "rstrip",
    ) || is_named(text, from, to, "strip_newlines") || is_named(text, from, to, "replace") || is_named(
        text,
        from,
        to,
        "replace_first",
    ) || is_named(text, from, to, "remove") || is_named(text, from, to, "remove_first") || is_named(
        text,
        from,
        to,
        "append",
    ) || is_named(text, from, to, "prepend") || is_named(text, from, to, "split") || is_named(
        text,
        from,
        to,
        "join",
    ) || is_named(text, from, to, "first") || is_named(text, from, to, "last") || is_named(
        text,
        from,
        to,
        "reverse",
    ) || is_named(text, from, to, "uniq") || is_named(text, from, to, "compact") || is_named(
        text,
        from,
        to,
        "concat",
    ) || is_named(text, from, to, "map") || is_named(text, from, to, "where") || is_named(
        text,
        from,
        to,
        "size",
    ) || is_named(text, from, to, "default") || is_named(text, from, to, "url_encode") || is_named(
        text,
        from,
        to,
        "url_decode",
    ) || is_named(text, from, to, "truncate") || is_named(text, from, to, "truncatewords") || is_named(
        text,
        from,
        to,
        "at_least",
    ) || is_named(text, from, to, "at_most") || is_named(text, from, to, "ceil") || is_named(
        text,
        from,
        to,
        "floor",
    ) || is_named(text, from, to, "round") || is_named(text, from, to, "escape") || is_named(
        text,
        from,
        to,
        "escape_once",
    ) || is_named(text, from, to, "strip_html") || is_named(text, from, to, "newline_to_br") || is_named(
        text,
        from,
        to,
        "sort_natural",
    )
}

/// Whether the name from `from` up to `to` is that of an allowed tag.
fn is_tag(text: &Vec<char>, from: usize, to: usize) -> (r: bool)
    requires
        from <= to <= text.len(),
    ensures
        r == tag_allowed(text@, from as int, to as int),
{
    is_named(text, from, to, "if") || is_named(text, from, to, "elsif") || is_named(text, from, to, "else")
        || is_named(text, from, to, "endif") || is_named(text, from, to, "unless") || is_named(
        text,
        from,
        to,
        "endunless",
    ) || is_named(text, from, to, "case") || is_named(text, from, to, "when") || is_named(
        text,
        from,
        to,
        "endcase",
    ) || is_named(text, from, to, "for") || is_named(text, from, to, "endfor") || is_named(
        text,
        from,
        to,
        "break",
    ) || is_named(text, from, to, "continue") || is_named(text, from, to, "assign") || is_named(
        text,
        from,
        to,
        "capture",
    ) || is_named(text, from, to, "endcapture")
}

/// Whether markup opens in `text` at `i`.
fn opening(text: &Vec<char>, i: usize) -> (r: bool)
    requires
        i < text.len(),
    ensures
        r == opens_at(text@, i as int),
{
    text.len() - i > 1 && text[i] == '{' && (text[i + 1] == '{' || text[i + 1] == '%')
}

/// Whether markup closes in `text` at `i`.
fn closing(text: &Vec<char>, i: usize) -> (r: bool)
    requires
        i < text.len(),
    ensures
        r == closes_at(text@, i as int),
{
    text.len() - i > 1 && (text[i] == '}' || text[i] == '%') && text[i + 1] == '}'
}

/// Whether an allowed filter is named behind the pipe at `i`.
fn piped_well(text: &Vec<char>, i: usize) -> (r: bool)
    requires
        i < text.len(),
    ensures
        r == pipes_well(text@, i as int),
{
    let from = skip_spaces(text, i + 1);
    let to = skip_name(text, from);
    is_filter(text, from, to)
}

/// Whether an allowed tag is named behind the `{%` at `i`.
fn tagged_well(text: &Vec<char>, i: usize) -> (r: bool)
    requires
        opens_at(text@, i as int),
    ensures
        r == tags_well(text@, i as int),
{
    let behind: usize = if text.len() - i > 2 && text[i + 2] == '-' {
        i + 3
    } else {
        i + 2
    };
    let from = skip_spaces(text, behind);
    let to = skip_name(text, from);
    is_tag(text, from, to)
}

/// A reading one character further, or the reason why the text is not
/// handed to the engine.
pub fn advance(text: &Vec<char>, i: usize, reading: Reading) -> (r: Result<Reading, String>)
    requires
        i < text.len(),
    ensures
        match step(text@, i as int, reading) {
            Ok(next) => r == Ok::<Reading, String>(next),
            Err(reason) => r matches Err(given) && given@ == reason,
        },
{
    let c = text[i];
    let plain = c == '\n' || (reading.plain && (c as u32) < 128);
    let kept = if c == ' ' || c == '\n' || c == '\r' {
        reading.kept
    } else {
        plain
    };
    match reading.mode {
        Mode::Text => {
            if opening(text, i) {
                let spaces = text.len() - i > 2 && text[i + 2] == '-';
                if (spaces && !reading.kept) || (!spaces && !reading.plain) {
                    Err("Template holds markup behind a character outside ASCII on its line".to_owned())
                } else if text[i + 1] == '%' && !tagged_well(text, i) {
                    Err("Template names a tag that is not supported".to_owned())
                } else {
                    Ok(Reading { mode: Mode::Markup, plain, kept, digits: 0 })
                }
            } else {
                Ok(Reading { mode: Mode::Text, plain, kept, digits: 0 })
            }
        },
        Mode::Markup => {
            if c == '\n' {
                Err("Template holds markup that does not end on its line".to_owned())
            } else if c == '"' || c == '\'' {
                Ok(Reading { mode: Mode::Quoted(c), plain, kept, digits: 0 })
            } else if closing(text, i) {
                Ok(Reading { mode: Mode::Text, plain, kept, digits: 0 })
            } else if c == '.' && text.len() - i > 1 && text[i + 1] == '.' {
                Err("Template counts through a range".to_owned())
            } else if c == '|' && !piped_well(text, i) {
                Err("Template names a filter that is not supported".to_owned())
            } else if '0' <= c && c <= '9' {
                if reading.digits >= 18 {
                    Err("Template holds a number of more than 18 digits".to_owned())
                } else {
                    Ok(Reading { mode: Mode::Markup, plain, kept, digits: reading.digits + 1 })
                }
            } else {
                Ok(Reading { mode: Mode::Markup, plain, kept, digits: 0 })
            }
        },
        Mode::Quoted(quote) => {
            if c == '\n' {
                Err("Template holds markup that does not end on its line".to_owned())
            } else if opening(text, i) {
                Err("Template opens markup inside a string".to_owned())
            } else if c == quote {
                Ok(Reading { mode: Mode::Markup, plain, kept, digits: 0 })
            } else {
                Ok(Reading { mode: reading.mode, plain, kept, digits: 0 })
            }
        },
    }
}

/// Why a text is not handed to the template engine, if it is not.
pub fn refused(body: &str) -> (r: Option<String>)
    ensures
        match refusal(body@) {
            Some(reason) => r matches Some(given) && given@ == reason,
            None => r is None,
        },
{
    let text = to_chars(body);
    let mut reading = Reading { mode: Mode::Text, plain: true, kept: true, digits: 0 };
    let mut i: usize = 0;
    while i < text.len()
        invariant
            i <= text.len(),
            text@ == body@,
            read_to(text@, i as nat) == Ok::<Reading, Seq<char>>(reading),
        decreases text.len() - i,
    {
        match advance(&text, i, reading) {
            Ok(next) => {
                reading = next;
            },
            Err(reason) => {
                proof {
                    assert(read_to(text@, (i + 1) as nat) == Err::<Reading, Seq<char>>(reason@));
                    lemma_reason_stays(text@, (i + 1) as nat, text@.len());
                }
                return Some(reason);
            },
        }
        i += 1;
    }
    None
}

} // verus!
