//! String literals and their escapes (ECMA-262 12.9.4).
//!
//! A literal is always consumed to its closing quote, even when part of it is
//! out of subset, so the text after it is read as code and not as a second
//! string. An escape the engine cannot represent yields an `Unsupported` token
//! spanning the whole literal.
use vstd::prelude::*;
use vstd::string::*;
use vstd::utf8::*;

use crate::diag::{Boundary, CompileError, malformed};
use crate::lex::{
    Class, Fault, Kind, Lexed, Lexer, TokenKind, at, eaten, hex_digit_value, hex_value,
    is_digit, is_digit_opt, is_hex_digit, is_line_terminator, is_malformed, lemma_eaten_bounds,
    line_terminator, subset, unpaired_surrogate,
};
use crate::text::{decimal, push_char, push_decimal, push_str};
use crate::utf8::boff;

verus! {

/// `char::from_u32`: the documentation says it returns the `char` whose value
/// is `v` when `v` is a Unicode scalar value, and `None` otherwise. The
/// contract claims exactly that.
#[verifier::external_body]
fn char_from(v: u32) -> (r: Option<char>)
    ensures
        is_scalar(v) ==> r == Some(v as char),
        !is_scalar(v) ==> r is None,
{
    char::from_u32(v)
}

/// What one escape sequence contributes: where it ends, the characters it
/// appends to the literal's value, and the capability phrase when it is real
/// JavaScript this engine cannot represent.
pub type Escaped = Result<(nat, Seq<char>, Option<Seq<char>>), Fault>;

/// 16 to the power `n`.
pub open spec fn pow16(n: nat) -> nat
    decreases n,
{
    if n == 0 { 1 } else { 16 * pow16((n - 1) as nat) }
}

/// Exactly `n` hexadecimal digits stand at `p`.
pub open spec fn hex_run(cs: Seq<char>, p: nat, n: nat) -> bool {
    &&& p + n <= cs.len()
    &&& forall|i: int| p <= i < p + n ==> is_hex_digit(#[trigger] cs[i])
}

/// What a short `\x` or `\u` escape is reported as.
pub open spec fn hex_digits_needed(n: nat, origin: nat) -> Seq<char> {
    "needs "@ + decimal(n) + " hexadecimal digits after the `"@ + (if n == 2 {
        "\\x"@
    } else {
        "\\u"@
    }) + "` escape at byte "@ + decimal(origin)
}

/// What a `\u{` escape without digits or a closing brace is reported as.
pub open spec fn unclosed_code_point(origin: nat) -> Seq<char> {
    "needs hexadecimal digits and a `}` to close the `\\u{` escape at byte "@ + decimal(origin)
}

/// What a `\u{...}` beyond U+10FFFF is reported as.
pub open spec fn code_point_too_large(origin: nat) -> Seq<char> {
    "needs a code point of at most U+10FFFF in the `\\u{}` escape at byte "@ + decimal(origin)
}

/// What an unclosed string literal is reported as.
pub open spec fn unclosed_string(quote: char, opened: nat, why: Seq<char>) -> Seq<char> {
    "needs a `"@ + seq![quote] + "` to close the string opened at byte "@ + decimal(opened) + why
}

/// The character a surrogate pair stands for.
pub open spec fn paired(high: nat, low: nat) -> nat {
    (0x10000 + (high - 0xd800) * 1024 + (low - 0xdc00)) as nat
}

/// `\xHH` or `\uHHHH` with its digits at `p`: exactly `n` hexadecimal digits,
/// then the code unit they spell. A high surrogate is a character only when the
/// very next escape is a `\u` low surrogate.
pub open spec fn code_unit(cs: Seq<char>, p: nat, n: nat, origin: nat) -> Escaped {
    if !hex_run(cs, p, n) {
        Err(Fault { what: hex_digits_needed(n, origin), offset: origin })
    } else {
        let unit = hex_value(cs.subrange(p as int, p + n as int));
        let e = p + n;
        if is_scalar(unit as u32) {
            Ok((e, seq![(unit as u32) as char], None))
        } else if 0xd800 <= unit <= 0xdbff && at(cs, e as int) == Some('\\') && at(cs, e + 1int)
            == Some('u') && hex_run(cs, e + 2, 4) && 0xdc00 <= hex_value(
            cs.subrange(e + 2 as int, e + 6 as int),
        ) <= 0xdfff {
            let low = hex_value(cs.subrange(e + 2 as int, e + 6 as int));
            Ok((e + 6, seq![(paired(unit, low) as u32) as char], None))
        } else {
            Ok((e, seq![], Some(unpaired_surrogate())))
        }
    }
}

/// `\u{...}` with its brace at `p`: a code point in braces, any number of
/// digits.
pub open spec fn code_point(cs: Seq<char>, p: nat, origin: nat) -> Escaped {
    let s = p + 1;
    let e = eaten(cs, s, Class::HexDigit);
    if at(cs, e as int) != Some('}') || e == s {
        Err(Fault { what: unclosed_code_point(origin), offset: origin })
    } else {
        let v = hex_value(cs.subrange(s as int, e as int));
        if v > 0x10ffff {
            Err(Fault { what: code_point_too_large(origin), offset: origin })
        } else if is_scalar(v as u32) {
            Ok((e + 1, seq![(v as u32) as char], None))
        } else {
            Ok((e + 1, seq![], Some(unpaired_surrogate())))
        }
    }
}

/// One escape sequence whose backslash is at `p`.
pub open spec fn escape(cs: Seq<char>, p: nat) -> Escaped {
    let origin = boff(cs, p as int);
    let q = p + 1;
    if q >= cs.len() {
        // The unterminated-string diagnostic is the better one, and it is
        // what the literal produces next.
        Ok((q, seq![], None))
    } else {
        let c = cs[q as int];
        let r = q + 1;
        if c == 'b' {
            Ok((r, seq!['\u{8}'], None))
        } else if c == 'f' {
            Ok((r, seq!['\u{c}'], None))
        } else if c == 'n' {
            Ok((r, seq!['\n'], None))
        } else if c == 'r' {
            Ok((r, seq!['\r'], None))
        } else if c == 't' {
            Ok((r, seq!['\t'], None))
        } else if c == 'v' {
            Ok((r, seq!['\u{b}'], None))
        } else if c == '0' && !is_digit_opt(at(cs, r as int)) {
            Ok((r, seq!['\0'], None))
        } else if is_digit(c) {
            Ok((eaten(cs, r, Class::Digit), seq![], Some("legacy octal escapes in string literals"@)))
        } else if c == 'x' {
            code_unit(cs, r, 2, origin)
        } else if c == 'u' && at(cs, r as int) == Some('{') {
            code_point(cs, r, origin)
        } else if c == 'u' {
            code_unit(cs, r, 4, origin)
        } else if is_line_terminator(c) {
            // A line continuation: the escape and the terminator both vanish,
            // and CRLF is one terminator.
            if c == '\r' && at(cs, r as int) == Some('\n') {
                Ok((r + 1, seq![], None))
            } else {
                Ok((r, seq![], None))
            }
        } else {
            Ok((r, seq![c], None))
        }
    }
}

pub proof fn lemma_escape_bounds(cs: Seq<char>, p: nat)
    requires
        p < cs.len(),
    ensures
        escape(cs, p) matches Ok((j, _, _)) ==> p < j <= cs.len(),
{
    let r = p + 2;
    if r <= cs.len() {
        lemma_eaten_bounds(cs, r, Class::Digit);
        if r < cs.len() {
            lemma_eaten_bounds(cs, r + 1, Class::HexDigit);
        }
    }
}

/// The body of a string literal from `i`, the literal opened at byte `opened`
/// with quote `quote`; `value` is what it holds so far and `refusal` the first
/// escape the engine cannot represent.
pub open spec fn string_body(
    cs: Seq<char>,
    opened: nat,
    quote: char,
    i: nat,
    value: Seq<char>,
    refusal: Option<Seq<char>>,
) -> Lexed
    decreases cs.len() - i,
    via string_body_decreases
{
    if i >= cs.len() {
        Err(Fault { what: unclosed_string(quote, opened, "; the source ends first"@), offset: opened })
    } else if cs[i as int] == quote {
        Ok((
            match refusal {
                Some(phrase) => Kind::Unsupported(Boundary::Subset, phrase),
                None => Kind::Str(value),
            },
            i + 1,
        ))
    } else if cs[i as int] == '\n' || cs[i as int] == '\r' {
        // U+2028 and U+2029 are legal inside a string literal, so only these
        // two end it.
        Err(Fault { what: unclosed_string(quote, opened, "; the line ends first"@), offset: opened })
    } else if cs[i as int] == '\\' {
        match escape(cs, i) {
            Err(f) => Err(f),
            Ok((j, add, phrase)) => string_body(
                cs,
                opened,
                quote,
                j,
                value + add,
                if refusal is Some { refusal } else { phrase },
            ),
        }
    } else {
        string_body(cs, opened, quote, i + 1, value.push(cs[i as int]), refusal)
    }
}

#[via_fn]
proof fn string_body_decreases(
    cs: Seq<char>,
    opened: nat,
    quote: char,
    i: nat,
    value: Seq<char>,
    refusal: Option<Seq<char>>,
) {
    if i < cs.len() {
        lemma_escape_bounds(cs, i);
    }
}

/// A string literal from `p`, which holds its opening quote.
pub open spec fn string(cs: Seq<char>, p: nat) -> Lexed {
    string_body(cs, boff(cs, p as int), cs[p as int], p + 1, seq![], None)
}

/// The phrase an escape handed back, in spec terms.
pub open spec fn phrase_view(o: Option<&'static str>) -> Option<Seq<char>> {
    match o {
        Some(s) => Some(s@),
        None => None,
    }
}

/// The executable outcome `r` of an escape, with the cursor at `pos` and the
/// value grown from `before` to `after`, is the spec outcome `x`.
pub open spec fn escaped_as(
    r: Result<Option<&'static str>, CompileError>,
    pos: nat,
    before: Seq<char>,
    after: Seq<char>,
    x: Escaped,
) -> bool {
    match x {
        Ok((j, add, phrase)) => r matches Ok(o) && pos == j && after == before + add && phrase_view(
            o,
        ) == phrase,
        Err(f) => r matches Err(e) && is_malformed(e, f.what, f.offset),
    }
}

proof fn lemma_hex_value_bound(ds: Seq<char>)
    requires
        forall|i: int| 0 <= i < ds.len() ==> is_hex_digit(#[trigger] ds[i]),
    ensures
        hex_value(ds) < pow16(ds.len()),
    decreases ds.len(),
{
    if ds.len() > 0 {
        lemma_hex_value_bound(ds.drop_last());
    }
}

proof fn lemma_hex_stays_large(cs: Seq<char>, start: int, k: int, end: int)
    requires
        0 <= start <= k <= end <= cs.len(),
        hex_value(cs.subrange(start, k)) > u32::MAX,
    ensures
        hex_value(cs.subrange(start, end)) > u32::MAX,
    decreases end - k,
{
    if k < end {
        assert(cs.subrange(start, k + 1).drop_last() =~= cs.subrange(start, k));
        lemma_hex_stays_large(cs, start, k + 1, end);
    }
}

/// The value of one hexadecimal digit.
fn hex_digit(c: char) -> (v: u32)
    requires
        is_hex_digit(c),
    ensures
        v == hex_digit_value(c),
        v < 16,
{
    if '0' <= c && c <= '9' {
        (c as u32) - ('0' as u32)
    } else if 'a' <= c && c <= 'f' {
        (c as u32) - ('a' as u32) + 10
    } else {
        (c as u32) - ('A' as u32) + 10
    }
}

/// The value of the hexadecimal digits `start..end`, when it fits `u32`.
fn parse_hex(cs: &Vec<char>, start: usize, end: usize) -> (r: Option<u32>)
    requires
        start <= end <= cs@.len(),
        forall|i: int| start <= i < end ==> is_hex_digit(#[trigger] cs@[i]),
    ensures
        hex_value(cs@.subrange(start as int, end as int)) <= u32::MAX ==> r == Some(
            hex_value(cs@.subrange(start as int, end as int)) as u32,
        ),
        hex_value(cs@.subrange(start as int, end as int)) > u32::MAX ==> r is None,
{
    let mut v: u32 = 0;
    let mut i = start;
    while i < end
        invariant
            start <= i <= end <= cs@.len(),
            forall|j: int| start <= j < end ==> is_hex_digit(#[trigger] cs@[j]),
            v == hex_value(cs@.subrange(start as int, i as int)),
        decreases end - i,
    {
        let d = hex_digit(cs[i]);
        let ghost prefix = cs@.subrange(start as int, i as int);
        let ghost next = cs@.subrange(start as int, i + 1);
        assert(next.drop_last() =~= prefix);
        if v > (u32::MAX - d) / 16 {
            proof {
                assert(hex_value(next) > u32::MAX);
                lemma_hex_stays_large(cs@, start as int, i + 1, end as int);
            }
            return None;
        }
        v = v * 16 + d;
        i += 1;
    }
    Some(v)
}

impl Lexer {
    /// Exactly `n` hexadecimal digits, as the number they spell.
    fn hex(&mut self, n: usize, origin: usize) -> (r: Result<u32, CompileError>)
        requires
            old(self).wf(),
            n == 2 || n == 4,
        ensures
            final(self).wf(),
            final(self).chars@ == old(self).chars@,
            hex_run(old(self).chars@, old(self).pos as nat, n as nat) ==> (r matches Ok(u) && u
                == hex_value(old(self).chars@.subrange(old(self).pos as int, old(self).pos + n))
                && final(self).pos == old(self).pos + n),
            !hex_run(old(self).chars@, old(self).pos as nat, n as nat) ==> (r matches Err(e)
                && is_malformed(e, hex_digits_needed(n as nat, origin as nat), origin as nat)),
    {
        let ghost cs = self.chars@;
        let start = self.pos;
        let mut v: u32 = 0;
        let mut i: usize = 0;
        while i < n
            invariant
                self.wf(),
                self.chars@ == cs,
                cs == old(self).chars@,
                start == old(self).pos,
                n == 2 || n == 4,
                i <= n,
                self.pos == start + i,
                forall|j: int| start <= j < start + i ==> is_hex_digit(#[trigger] cs[j]),
                v == hex_value(cs.subrange(start as int, start + i)),
                v < pow16(i as nat),
            decreases n - i,
        {
            let c = self.peek();
            let ok = match c {
                Some(d) => ('0' <= d && d <= '9') || ('a' <= d && d <= 'f') || ('A' <= d && d <= 'F'),
                None => false,
            };
            if !ok {
                let mut what = String::new();
                push_str(&mut what, "needs ");
                push_decimal(&mut what, n);
                push_str(&mut what, " hexadecimal digits after the `");
                if n == 2 {
                    push_str(&mut what, "\\x");
                } else {
                    push_str(&mut what, "\\u");
                }
                push_str(&mut what, "` escape at byte ");
                push_decimal(&mut what, origin);
                proof {
                    assert(what@ =~= hex_digits_needed(n as nat, origin as nat));
                    assert(!is_hex_digit(cs[start + i]) || start + i >= cs.len());
                }
                return Err(malformed(what.as_str(), origin));
            }
            let d = hex_digit(self.chars[self.pos]);
            let ghost prefix = cs.subrange(start as int, start + i);
            let ghost next = cs.subrange(start as int, start + i + 1);
            assert(next.drop_last() =~= prefix);
            proof {
                reveal_with_fuel(pow16, 5);
                assert(pow16(i as nat) <= 4096);
            }
            v = v * 16 + d;
            self.bump();
            i += 1;
        }
        Ok(v)
    }

    /// `\xHH` or `\uHHHH` with the cursor on the first digit.
    fn code_unit(&mut self, n: usize, origin: usize, value: &mut String) -> (r: Result<
        Option<&'static str>,
        CompileError,
    >)
        requires
            old(self).wf(),
            n == 2 || n == 4,
        ensures
            final(self).wf(),
            final(self).chars@ == old(self).chars@,
            escaped_as(
                r,
                final(self).pos as nat,
                old(value)@,
                final(value)@,
                code_unit(old(self).chars@, old(self).pos as nat, n as nat, origin as nat),
            ),
    {
        let ghost cs = self.chars@;
        let ghost p = self.pos as nat;
        let unit = match self.hex(n, origin) {
            Ok(u) => u,
            Err(e) => return Err(e),
        };
        proof {
            let ds = cs.subrange(p as int, p + n as int);
            assert forall|i: int| 0 <= i < ds.len() implies is_hex_digit(#[trigger] ds[i]) by {
                assert(ds[i] == cs[p + i]);
            }
            lemma_hex_value_bound(ds);
            reveal_with_fuel(pow16, 5);
        }
        match char_from(unit) {
            Some(c) => {
                push_char(value, c);
                assert(value@ =~= old(value)@ + seq![c]);
                Ok(None)
            },
            None => {
                if 0xd800 <= unit && unit <= 0xdbff {
                    // Half a character: the other half must be the very next
                    // escape, spelled the same way.
                    let resumed_pos = self.pos;
                    let resumed_byte = self.byte;
                    if self.peek() == Some('\\') && self.peek_at(1) == Some('u') {
                        self.bump();
                        self.bump();
                        match self.hex(4, origin) {
                            Ok(low) => {
                                if 0xdc00 <= low && low <= 0xdfff {
                                    let combined = 0x10000 + (unit - 0xd800) * 1024 + (low - 0xdc00);
                                    assert(is_scalar(combined));
                                    match char_from(combined) {
                                        Some(c) => push_char(value, c),
                                        None => push_char(value, '\u{fffd}'),
                                    }
                                    assert(value@ =~= old(value)@ + seq![(combined as u32) as char]);
                                    return Ok(None);
                                }
                            },
                            Err(_) => {},
                        }
                        self.pos = resumed_pos;
                        self.byte = resumed_byte;
                    }
                }
                assert(value@ =~= old(value)@ + seq![]);
                Ok(Some("unpaired surrogates in string literals"))
            },
        }
    }

    /// `\u{...}` with the cursor on the brace.
    fn code_point(&mut self, origin: usize, value: &mut String) -> (r: Result<
        Option<&'static str>,
        CompileError,
    >)
        requires
            old(self).wf(),
            old(self).pos < old(self).chars@.len(),
        ensures
            final(self).wf(),
            final(self).chars@ == old(self).chars@,
            escaped_as(
                r,
                final(self).pos as nat,
                old(value)@,
                final(value)@,
                code_point(old(self).chars@, old(self).pos as nat, origin as nat),
            ),
    {
        self.bump();
        let start = self.pos;
        proof {
            lemma_eaten_bounds(self.chars@, start as nat, Class::HexDigit);
        }
        self.eat_while(Class::HexDigit);
        let end = self.pos;
        if self.peek() != Some('}') || end == start {
            let mut what = String::new();
            push_str(&mut what, "needs hexadecimal digits and a `}` to close the `\\u{` escape at byte ");
            push_decimal(&mut what, origin);
            return Err(malformed(what.as_str(), origin));
        }
        self.bump();
        let point = parse_hex(&self.chars, start, end);
        let fits = match point {
            Some(v) => v <= 0x10ffff,
            None => false,
        };
        if !fits {
            let mut what = String::new();
            push_str(&mut what, "needs a code point of at most U+10FFFF in the `\\u{}` escape at byte ");
            push_decimal(&mut what, origin);
            return Err(malformed(what.as_str(), origin));
        }
        let v = match point {
            Some(v) => v,
            None => 0,
        };
        match char_from(v) {
            Some(c) => {
                push_char(value, c);
                assert(value@ =~= old(value)@ + seq![c]);
                Ok(None)
            },
            None => {
                assert(value@ =~= old(value)@ + seq![]);
                Ok(Some("unpaired surrogates in string literals"))
            },
        }
    }

    /// One escape sequence with the cursor on its backslash, appending what it
    /// contributes to `value`. Returns the capability phrase when the escape is
    /// real JavaScript this engine cannot represent.
    #[verifier::rlimit(40)]
    fn escape(&mut self, value: &mut String) -> (r: Result<Option<&'static str>, CompileError>)
        requires
            old(self).wf(),
            old(self).pos < old(self).chars@.len(),
        ensures
            final(self).wf(),
            final(self).chars@ == old(self).chars@,
            escaped_as(
                r,
                final(self).pos as nat,
                old(value)@,
                final(value)@,
                escape(old(self).chars@, old(self).pos as nat),
            ),
    {
        let origin = self.byte;
        self.bump();
        let c = match self.peek() {
            Some(c) => c,
            None => {
                assert(old(value)@ + seq![] =~= value@);
                return Ok(None);
            },
        };
        self.bump();
        let digit_next = match self.peek() {
            Some(d) => '0' <= d && d <= '9',
            None => false,
        };
        if c == 'b' {
            push_char(value, '\u{8}');
        } else if c == 'f' {
            push_char(value, '\u{c}');
        } else if c == 'n' {
            push_char(value, '\n');
        } else if c == 'r' {
            push_char(value, '\r');
        } else if c == 't' {
            push_char(value, '\t');
        } else if c == 'v' {
            push_char(value, '\u{b}');
        } else if c == '0' && !digit_next {
            push_char(value, '\0');
        } else if '0' <= c && c <= '9' {
            // A legacy octal escape: a strict-mode error rather than a value.
            self.eat_while(Class::Digit);
            assert(old(value)@ + seq![] =~= value@);
            return Ok(Some("legacy octal escapes in string literals"));
        } else if c == 'x' {
            return self.code_unit(2, origin, value);
        } else if c == 'u' && self.peek() == Some('{') {
            return self.code_point(origin, value);
        } else if c == 'u' {
            return self.code_unit(4, origin, value);
        } else if line_terminator(c) {
            if c == '\r' && self.peek() == Some('\n') {
                self.bump();
            }
            assert(old(value)@ + seq![] =~= value@);
            return Ok(None);
        } else {
            // Every other character stands for itself.
            push_char(value, c);
        }
        assert(value@ =~= old(value)@ + seq![value@.last()]);
        Ok(None)
    }

    /// A string literal and its value, with the cursor on the opening quote.
    pub(crate) fn string(&mut self) -> (r: Result<TokenKind, CompileError>)
        requires
            old(self).wf(),
            old(self).pos < old(self).chars@.len(),
        ensures
            final(self).wf(),
            final(self).chars@ == old(self).chars@,
            crate::lex::lexed_as(r, final(self).pos as nat, string(old(self).chars@, old(self).pos as nat)),
    {
        let ghost cs = self.chars@;
        let ghost goal = string(cs, self.pos as nat);
        let opened = self.byte;
        let quote = self.chars[self.pos];
        self.bump();
        let mut value = String::new();
        let mut refusal: Option<&'static str> = None;
        loop
            invariant
                self.wf(),
                self.chars@ == cs,
                cs == old(self).chars@,
                opened == boff(cs, old(self).pos as int),
                quote == cs[old(self).pos as int],
                string_body(cs, opened as nat, quote, self.pos as nat, value@, phrase_view(refusal))
                    == goal,
                goal == string(old(self).chars@, old(self).pos as nat),
            decreases cs.len() - self.pos,
        {
            let c = match self.peek() {
                Some(c) => c,
                None => {
                    let mut what = String::new();
                    push_str(&mut what, "needs a `");
                    push_char(&mut what, quote);
                    push_str(&mut what, "` to close the string opened at byte ");
                    push_decimal(&mut what, opened);
                    push_str(&mut what, "; the source ends first");
                    proof {
                        assert(what@ =~= unclosed_string(quote, opened as nat, "; the source ends first"@));
                    }
                    return Err(malformed(what.as_str(), opened));
                },
            };
            if c == quote {
                self.bump();
                return Ok(match refusal {
                    Some(phrase) => subset(phrase),
                    None => TokenKind::Str(value),
                });
            }
            if c == '\n' || c == '\r' {
                let mut what = String::new();
                push_str(&mut what, "needs a `");
                push_char(&mut what, quote);
                push_str(&mut what, "` to close the string opened at byte ");
                push_decimal(&mut what, opened);
                push_str(&mut what, "; the line ends first");
                proof {
                    assert(what@ =~= unclosed_string(quote, opened as nat, "; the line ends first"@));
                }
                return Err(malformed(what.as_str(), opened));
            }
            if c == '\\' {
                let ghost before = value@;
                let ghost i = self.pos as nat;
                proof {
                    lemma_escape_bounds(cs, i);
                }
                match self.escape(&mut value) {
                    Ok(phrase) => {
                        if refusal.is_none() {
                            refusal = phrase;
                        }
                    },
                    Err(e) => return Err(e),
                }
            } else {
                push_char(&mut value, c);
                self.bump();
            }
        }
    }
}

} // verus!
