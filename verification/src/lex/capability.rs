//! The capability phrase of a token the lexer reads but the rest of the
//! pipeline may not lower yet.
//!
//! Keeping the phrase beside the lexer is what keeps a lexeme's diagnostic the
//! same before and after the milestone that turned it from an `Unsupported`
//! into a real kind.
use vstd::prelude::*;
use vstd::string::*;

use crate::diag::Boundary;
use crate::lex::{Kind, TokenKind, Unlowered};
use crate::text::push_str;

verus! {

/// The boundary and noun phrase for a token of kind `k` that the caller cannot
/// lower, or `None` for a kind that already carries its own phrase or that is
/// always lowered. An identifier is absent on purpose: only the parser may say
/// what a name means.
pub open spec fn capability(k: Kind) -> Option<(Boundary, Seq<char>)> {
    match k {
        Kind::LBrace | Kind::RBrace => Some((Boundary::ThirdBinding, "block statements"@)),
        Kind::Lt | Kind::LtEq | Kind::Gt | Kind::GtEq | Kind::EqEq | Kind::BangEq
        | Kind::EqEqEq | Kind::BangEqEq => Some((Boundary::Subset, "comparison operators"@)),
        Kind::Eq | Kind::PlusEq | Kind::MinusEq | Kind::StarEq | Kind::SlashEq
        | Kind::PercentEq => Some((Boundary::Subset, "assignment"@)),
        Kind::PlusPlus | Kind::MinusMinus => Some(
            (Boundary::Subset, "the increment and decrement operators"@),
        ),
        Kind::AmpAmp | Kind::PipePipe => Some((Boundary::Subset, "logical operators"@)),
        Kind::LBracket | Kind::RBracket => Some((Boundary::ThirdBinding, "array literals"@)),
        Kind::Dot => Some((Boundary::ThirdBinding, "property access"@)),
        Kind::Colon => Some((Boundary::FullJs, "labelled statements"@)),
        Kind::Question => Some((Boundary::Subset, "conditional expressions"@)),
        Kind::Bang => Some((Boundary::Subset, "the logical `!` operator"@)),
        Kind::Comma => Some((Boundary::Subset, "the comma operator"@)),
        Kind::Str(_) => Some((Boundary::Subset, "string literals"@)),
        Kind::True | Kind::False => Some((Boundary::Subset, "boolean literals"@)),
        Kind::Null => Some((Boundary::Subset, "the `null` literal"@)),
        Kind::Undefined => Some((Boundary::FullJs, "the `undefined` value"@)),
        Kind::Typeof => Some((Boundary::FullJs, "the `typeof` operator"@)),
        Kind::Function => Some((Boundary::FullJs, "the `function` keyword"@)),
        Kind::Return => Some((Boundary::FullJs, "the `return` keyword"@)),
        Kind::If => Some((Boundary::FullJs, "the `if` keyword"@)),
        Kind::Else => Some((Boundary::FullJs, "the `else` keyword"@)),
        Kind::While => Some((Boundary::FullJs, "the `while` keyword"@)),
        Kind::For => Some((Boundary::FullJs, "the `for` keyword"@)),
        Kind::Let => Some((Boundary::FullJs, "the `let` keyword"@)),
        Kind::Const => Some((Boundary::FullJs, "the `const` keyword"@)),
        Kind::Var => Some((Boundary::FullJs, "the `var` keyword"@)),
        Kind::Try => Some((Boundary::FullJs, "the `try` keyword"@)),
        Kind::Catch => Some((Boundary::FullJs, "the `catch` keyword"@)),
        Kind::Finally => Some((Boundary::FullJs, "the `finally` keyword"@)),
        Kind::Throw => Some((Boundary::FullJs, "the `throw` keyword"@)),
        _ => None,
    }
}

fn phrase(boundary: Boundary, text: &str) -> (u: Option<Unlowered>)
    ensures
        u matches Some(v) && v.boundary == boundary && v.phrase@ == text@,
{
    let mut phrase = String::new();
    push_str(&mut phrase, text);
    Some(Unlowered { boundary, phrase })
}

/// The delimiters and one-character operators among the kinds with a phrase.
pub open spec fn is_delimiter(k: Kind) -> bool {
    k is LBrace || k is RBrace || k is LBracket || k is RBracket || k is Dot || k is Colon
        || k is Question || k is Bang || k is Comma
}

/// The comparison, assignment, update and logical operators.
pub open spec fn is_operator(k: Kind) -> bool {
    k is Lt || k is LtEq || k is Gt || k is GtEq || k is EqEq || k is BangEq || k is EqEqEq
        || k is BangEqEq || k is Eq || k is PlusEq || k is MinusEq || k is StarEq || k is SlashEq
        || k is PercentEq || k is PlusPlus || k is MinusMinus || k is AmpAmp || k is PipePipe
}

/// The literals and the two words that are values or facilities.
pub open spec fn is_value_word(k: Kind) -> bool {
    k is Str || k is True || k is False || k is Null || k is Undefined || k is Typeof
}

/// The statement keywords.
pub open spec fn is_statement_keyword(k: Kind) -> bool {
    k is Function || k is Return || k is If || k is Else || k is While || k is For || k is Let
        || k is Const || k is Var || k is Try || k is Catch || k is Finally || k is Throw
}

/// The phrase of `k` and its boundary, in the form [`TokenKind::capability`]
/// returns.
pub open spec fn phrased(k: Kind, r: Option<Unlowered>) -> bool {
    match r {
        Some(u) => capability(k) == Some((u.boundary, u.phrase@)),
        None => capability(k) is None,
    }
}

fn delimiter_phrase(k: &TokenKind) -> (r: Option<Unlowered>)
    requires
        is_delimiter(k@),
    ensures
        phrased(k@, r),
{
    match k {
        // A block or an object body is a world beyond the two bindings a call
        // has.
        TokenKind::LBrace | TokenKind::RBrace => phrase(Boundary::ThirdBinding, "block statements"),
        TokenKind::LBracket | TokenKind::RBracket => phrase(Boundary::ThirdBinding, "array literals"),
        TokenKind::Dot => phrase(Boundary::ThirdBinding, "property access"),
        // A `:` that neither an object literal nor `?:` consumed is a label.
        TokenKind::Colon => phrase(Boundary::FullJs, "labelled statements"),
        TokenKind::Question => phrase(Boundary::Subset, "conditional expressions"),
        TokenKind::Bang => phrase(Boundary::Subset, "the logical `!` operator"),
        _ => phrase(Boundary::Subset, "the comma operator"),
    }
}

fn operator_phrase(k: &TokenKind) -> (r: Option<Unlowered>)
    requires
        is_operator(k@),
    ensures
        phrased(k@, r),
{
    match k {
        TokenKind::Lt | TokenKind::LtEq | TokenKind::Gt | TokenKind::GtEq | TokenKind::EqEq
        | TokenKind::BangEq | TokenKind::EqEqEq | TokenKind::BangEqEq => phrase(
            Boundary::Subset,
            "comparison operators",
        ),
        TokenKind::Eq | TokenKind::PlusEq | TokenKind::MinusEq | TokenKind::StarEq
        | TokenKind::SlashEq | TokenKind::PercentEq => phrase(Boundary::Subset, "assignment"),
        TokenKind::PlusPlus | TokenKind::MinusMinus => phrase(
            Boundary::Subset,
            "the increment and decrement operators",
        ),
        _ => phrase(Boundary::Subset, "logical operators"),
    }
}

fn value_word_phrase(k: &TokenKind) -> (r: Option<Unlowered>)
    requires
        is_value_word(k@),
    ensures
        phrased(k@, r),
{
    match k {
        TokenKind::Str(_) => phrase(Boundary::Subset, "string literals"),
        TokenKind::True | TokenKind::False => phrase(Boundary::Subset, "boolean literals"),
        TokenKind::Null => phrase(Boundary::Subset, "the `null` literal"),
        // Not names either: each is a value or facility the engine would have
        // to implement.
        TokenKind::Undefined => phrase(Boundary::FullJs, "the `undefined` value"),
        _ => phrase(Boundary::FullJs, "the `typeof` operator"),
    }
}

fn keyword_phrase(k: &TokenKind) -> (r: Option<Unlowered>)
    requires
        is_statement_keyword(k@),
    ensures
        phrased(k@, r),
{
    match k {
        TokenKind::Function => phrase(Boundary::FullJs, "the `function` keyword"),
        TokenKind::Return => phrase(Boundary::FullJs, "the `return` keyword"),
        TokenKind::If => phrase(Boundary::FullJs, "the `if` keyword"),
        TokenKind::Else => phrase(Boundary::FullJs, "the `else` keyword"),
        TokenKind::While => phrase(Boundary::FullJs, "the `while` keyword"),
        TokenKind::For => phrase(Boundary::FullJs, "the `for` keyword"),
        TokenKind::Let => phrase(Boundary::FullJs, "the `let` keyword"),
        TokenKind::Const => phrase(Boundary::FullJs, "the `const` keyword"),
        TokenKind::Var => phrase(Boundary::FullJs, "the `var` keyword"),
        TokenKind::Try => phrase(Boundary::FullJs, "the `try` keyword"),
        TokenKind::Catch => phrase(Boundary::FullJs, "the `catch` keyword"),
        TokenKind::Finally => phrase(Boundary::FullJs, "the `finally` keyword"),
        _ => phrase(Boundary::FullJs, "the `throw` keyword"),
    }
}

impl TokenKind {
    /// The capability phrase for a token the lexer graduated but the rest of
    /// the pipeline may not lower yet, or `None` for a token it does lower.
    /// The caller decides whether it can lower the token; this only decides
    /// what to call it if it cannot.
    pub fn capability(&self) -> (r: Option<Unlowered>)
        ensures
            phrased(self@, r),
    {
        match self {
            TokenKind::LBrace | TokenKind::RBrace | TokenKind::LBracket | TokenKind::RBracket
            | TokenKind::Dot | TokenKind::Colon | TokenKind::Question | TokenKind::Bang
            | TokenKind::Comma => delimiter_phrase(self),
            TokenKind::Lt | TokenKind::LtEq | TokenKind::Gt | TokenKind::GtEq | TokenKind::EqEq
            | TokenKind::BangEq | TokenKind::EqEqEq | TokenKind::BangEqEq | TokenKind::Eq
            | TokenKind::PlusEq | TokenKind::MinusEq | TokenKind::StarEq | TokenKind::SlashEq
            | TokenKind::PercentEq | TokenKind::PlusPlus | TokenKind::MinusMinus
            | TokenKind::AmpAmp | TokenKind::PipePipe => operator_phrase(self),
            TokenKind::Str(_) | TokenKind::True | TokenKind::False | TokenKind::Null
            | TokenKind::Undefined | TokenKind::Typeof => value_word_phrase(self),
            TokenKind::Function | TokenKind::Return | TokenKind::If | TokenKind::Else
            | TokenKind::While | TokenKind::For | TokenKind::Let | TokenKind::Const
            | TokenKind::Var | TokenKind::Try | TokenKind::Catch | TokenKind::Finally
            | TokenKind::Throw => keyword_phrase(self),
            // Already carrying its own phrase, or always lowered.
            _ => None,
        }
    }
}

} // verus!
