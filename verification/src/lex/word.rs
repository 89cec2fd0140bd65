//! Argument references, names and keywords, and template literals.
use vstd::prelude::*;
use vstd::string::*;

use crate::diag::Boundary;
use crate::lex::{
    Class, Kind, Lexer, TokenKind, decimal_value, eaten, full_js, lemma_eaten_bounds,
    parse_decimal, string_of, subset, too_many_arguments,
};
use crate::text::push_str;

verus! {

/// The characters `start..end` spell `lit`.
pub fn text_is(cs: &Vec<char>, start: usize, end: usize, lit: &str) -> (r: bool)
    requires
        start <= end <= cs@.len(),
    ensures
        r == (cs@.subrange(start as int, end as int) == lit@),
{
    let n = lit.unicode_len();
    if end - start != n {
        return false;
    }
    let mut i: usize = 0;
    while i < n
        invariant
            start <= end <= cs@.len(),
            end - start == n == lit@.len(),
            i <= n,
            forall|j: int| 0 <= j < i ==> cs@[start + j] == lit@[j],
        decreases n - i,
    {
        if cs[start + i] != lit.get_char(i) {
            assert(cs@.subrange(start as int, end as int)[i as int] != lit@[i as int]);
            return false;
        }
        i += 1;
    }
    assert(cs@.subrange(start as int, end as int) =~= lit@);
    true
}

/// `$N` from `p`, which holds the `$`: the argument's index, or the boundary
/// when it does not fit `u64`.
pub open spec fn argument(cs: Seq<char>, p: nat) -> (Kind, nat) {
    let q = eaten(cs, p + 1, Class::Digit);
    let v = decimal_value(cs.subrange(p + 1 as int, q as int));
    if v <= u64::MAX {
        (Kind::Arg(v as u64), q)
    } else {
        (Kind::Unsupported(Boundary::Subset, too_many_arguments()), q)
    }
}

/// The keywords that are real tokens.
pub open spec fn keyword(w: Seq<char>) -> Option<Kind> {
    if w == "function"@ { Some(Kind::Function) }
    else if w == "return"@ { Some(Kind::Return) }
    else if w == "if"@ { Some(Kind::If) }
    else if w == "else"@ { Some(Kind::Else) }
    else if w == "while"@ { Some(Kind::While) }
    else if w == "for"@ { Some(Kind::For) }
    else if w == "let"@ { Some(Kind::Let) }
    else if w == "const"@ { Some(Kind::Const) }
    else if w == "var"@ { Some(Kind::Var) }
    else if w == "typeof"@ { Some(Kind::Typeof) }
    else if w == "true"@ { Some(Kind::True) }
    else if w == "false"@ { Some(Kind::False) }
    else if w == "null"@ { Some(Kind::Null) }
    else if w == "undefined"@ { Some(Kind::Undefined) }
    else if w == "try"@ { Some(Kind::Try) }
    else if w == "catch"@ { Some(Kind::Catch) }
    else if w == "finally"@ { Some(Kind::Finally) }
    else if w == "throw"@ { Some(Kind::Throw) }
    else { None }
}

/// ECMA-262 reserved words this engine cannot lower yet. Anything not listed
/// and not a keyword is an ordinary identifier.
pub open spec fn is_reserved(w: Seq<char>) -> bool {
    w == "await"@ || w == "async"@ || w == "break"@ || w == "case"@ || w == "class"@
        || w == "continue"@ || w == "debugger"@ || w == "default"@ || w == "delete"@ || w
        == "do"@ || w == "enum"@ || w == "export"@ || w == "extends"@ || w == "import"@ || w
        == "in"@ || w == "instanceof"@ || w == "new"@ || w == "of"@ || w == "static"@ || w
        == "super"@ || w == "switch"@ || w == "this"@ || w == "void"@ || w == "with"@ || w
        == "yield"@
}

/// What the word `w` is: a keyword token, `eval` and the reserved words by
/// name, or an identifier.
pub open spec fn word_kind(w: Seq<char>) -> Kind {
    match keyword(w) {
        Some(k) => k,
        None => if w == "eval"@ {
            Kind::Unsupported(Boundary::FullJs, "the `eval` function"@)
        } else if is_reserved(w) {
            Kind::Unsupported(Boundary::FullJs, "the `"@ + w + "` keyword"@)
        } else {
            Kind::Ident(w)
        },
    }
}

/// An identifier or a reserved word from `p`.
pub open spec fn word(cs: Seq<char>, p: nat) -> (Kind, nat) {
    let q = eaten(cs, p, Class::Ident);
    (word_kind(cs.subrange(p as int, q as int)), q)
}

/// The end of a template literal whose body starts at `p`: after the closing
/// backtick, or the end of the source. A backslash takes the character after
/// it along.
pub open spec fn template_end(cs: Seq<char>, p: nat) -> nat
    decreases cs.len() - p,
{
    if p >= cs.len() {
        p
    } else if cs[p as int] == '`' {
        p + 1
    } else if cs[p as int] == '\\' && p + 1 < cs.len() {
        template_end(cs, p + 2)
    } else {
        template_end(cs, p + 1)
    }
}

pub proof fn lemma_template_end_bounds(cs: Seq<char>, p: nat)
    requires
        p <= cs.len(),
    ensures
        p <= template_end(cs, p) <= cs.len(),
    decreases cs.len() - p,
{
    if p < cs.len() && cs[p as int] != '`' {
        if cs[p as int] == '\\' && p + 1 < cs.len() {
            lemma_template_end_bounds(cs, p + 2);
        } else {
            lemma_template_end_bounds(cs, p + 1);
        }
    }
}

/// A template literal from `p`, which holds the backtick, consumed whole: the
/// substitutions inside are not scanned.
pub open spec fn template(cs: Seq<char>, p: nat) -> (Kind, nat) {
    (Kind::Unsupported(Boundary::Subset, "template literals"@), template_end(cs, p + 1))
}

/// The keyword token spelled by `start..end`, if it spells one.
fn keyword_at(cs: &Vec<char>, start: usize, end: usize) -> (r: Option<TokenKind>)
    requires
        start <= end <= cs@.len(),
    ensures
        match r {
            Some(t) => keyword(cs@.subrange(start as int, end as int)) == Some(t@),
            None => keyword(cs@.subrange(start as int, end as int)) is None,
        },
{
    if text_is(cs, start, end, "function") { Some(TokenKind::Function) }
    else if text_is(cs, start, end, "return") { Some(TokenKind::Return) }
    else if text_is(cs, start, end, "if") { Some(TokenKind::If) }
    else if text_is(cs, start, end, "else") { Some(TokenKind::Else) }
    else if text_is(cs, start, end, "while") { Some(TokenKind::While) }
    else if text_is(cs, start, end, "for") { Some(TokenKind::For) }
    else if text_is(cs, start, end, "let") { Some(TokenKind::Let) }
    else if text_is(cs, start, end, "const") { Some(TokenKind::Const) }
    else if text_is(cs, start, end, "var") { Some(TokenKind::Var) }
    else if text_is(cs, start, end, "typeof") { Some(TokenKind::Typeof) }
    else if text_is(cs, start, end, "true") { Some(TokenKind::True) }
    else if text_is(cs, start, end, "false") { Some(TokenKind::False) }
    else if text_is(cs, start, end, "null") { Some(TokenKind::Null) }
    else if text_is(cs, start, end, "undefined") { Some(TokenKind::Undefined) }
    else if text_is(cs, start, end, "try") { Some(TokenKind::Try) }
    else if text_is(cs, start, end, "catch") { Some(TokenKind::Catch) }
    else if text_is(cs, start, end, "finally") { Some(TokenKind::Finally) }
    else if text_is(cs, start, end, "throw") { Some(TokenKind::Throw) }
    else { None }
}

/// Whether `start..end` spells a reserved word.
fn reserved_at(cs: &Vec<char>, start: usize, end: usize) -> (r: bool)
    requires
        start <= end <= cs@.len(),
    ensures
        r == is_reserved(cs@.subrange(start as int, end as int)),
{
    text_is(cs, start, end, "await") || text_is(cs, start, end, "async") || text_is(cs, start, end, "break")
        || text_is(cs, start, end, "case") || text_is(cs, start, end, "class") || text_is(cs, start, end, "continue")
        || text_is(cs, start, end, "debugger") || text_is(cs, start, end, "default") || text_is(cs, start, end, "delete")
        || text_is(cs, start, end, "do") || text_is(cs, start, end, "enum") || text_is(cs, start, end, "export")
        || text_is(cs, start, end, "extends") || text_is(cs, start, end, "import") || text_is(cs, start, end, "in")
        || text_is(cs, start, end, "instanceof") || text_is(cs, start, end, "new") || text_is(cs, start, end, "of")
        || text_is(cs, start, end, "static") || text_is(cs, start, end, "super") || text_is(cs, start, end, "switch")
        || text_is(cs, start, end, "this") || text_is(cs, start, end, "void") || text_is(cs, start, end, "with")
        || text_is(cs, start, end, "yield")
}

impl Lexer {
    /// `$N`, the Nth argument of this call.
    pub(crate) fn argument(&mut self) -> (k: TokenKind)
        requires
            old(self).wf(),
            old(self).pos < old(self).chars@.len(),
        ensures
            final(self).wf(),
            final(self).chars@ == old(self).chars@,
            (k@, final(self).pos as nat) == argument(old(self).chars@, old(self).pos as nat),
    {
        self.bump();
        let start = self.pos;
        proof {
            lemma_eaten_bounds(self.chars@, start as nat, Class::Digit);
        }
        self.eat_while(Class::Digit);
        match parse_decimal(&self.chars, start, self.pos) {
            Some(index) => TokenKind::Arg(index),
            None => subset("more than 64 call arguments"),
        }
    }

    /// An identifier or a reserved word. The keywords are real tokens; the
    /// reserved words can never be a name, so they refuse here and say which
    /// keyword they are.
    pub(crate) fn word(&mut self) -> (k: TokenKind)
        requires
            old(self).wf(),
        ensures
            final(self).wf(),
            final(self).chars@ == old(self).chars@,
            (k@, final(self).pos as nat) == word(old(self).chars@, old(self).pos as nat),
    {
        let start = self.pos;
        proof {
            lemma_eaten_bounds(self.chars@, start as nat, Class::Ident);
        }
        self.eat_while(Class::Ident);
        let end = self.pos;
        let ghost w = self.chars@.subrange(start as int, end as int);
        match keyword_at(&self.chars, start, end) {
            Some(k) => k,
            None => {
                if text_is(&self.chars, start, end, "eval") {
                    // A function the engine would have to implement.
                    full_js("the `eval` function")
                } else if reserved_at(&self.chars, start, end) {
                    let name = string_of(&self.chars, start, end);
                    let mut phrase = String::new();
                    push_str(&mut phrase, "the `");
                    push_str(&mut phrase, name.as_str());
                    push_str(&mut phrase, "` keyword");
                    full_js(phrase.as_str())
                } else {
                    TokenKind::Ident(string_of(&self.chars, start, end))
                }
            },
        }
    }

    /// A template literal, consumed whole so what follows it is not mistaken
    /// for code.
    pub(crate) fn template(&mut self) -> (k: TokenKind)
        requires
            old(self).wf(),
            old(self).pos < old(self).chars@.len(),
        ensures
            final(self).wf(),
            final(self).chars@ == old(self).chars@,
            (k@, final(self).pos as nat) == template(old(self).chars@, old(self).pos as nat),
    {
        self.bump();
        let ghost goal = template_end(self.chars@, self.pos as nat);
        loop
            invariant_except_break
                template_end(self.chars@, self.pos as nat) == goal,
            invariant
                self.wf(),
                self.chars@ == old(self).chars@,
                goal == template_end(old(self).chars@, (old(self).pos + 1) as nat),
            ensures
                self.pos == goal,
            decreases self.chars@.len() - self.pos,
        {
            let c = match self.peek() {
                Some(c) => c,
                None => break,
            };
            self.bump();
            if c == '\\' && self.pos < self.chars.len() {
                self.bump();
            } else if c == '`' {
                break;
            }
        }
        subset("template literals")
    }
}

} // verus!
