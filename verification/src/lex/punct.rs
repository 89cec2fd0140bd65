//! Operators and delimiters, longest form first.
use vstd::prelude::*;
use vstd::string::*;

use crate::diag::Boundary;
use crate::lex::{Kind, Lexer, TokenKind, at, full_js, subset, third};
use crate::text::{push_char, push_str};

verus! {

/// A token this engine names with `phrase` and reads no further into.
pub open spec fn refused(phrase: Seq<char>) -> Kind {
    Kind::Unsupported(Boundary::Subset, phrase)
}

/// The operator or delimiter at `p` and where it ends. The forms are tried in
/// descending length, so `>>>=` never reads as `>>` `>=` and `**` never as two
/// `*`. A character that is no punctuation the engine knows names itself.
pub open spec fn punctuation(cs: Seq<char>, p: nat) -> (Kind, nat) {
    let c0 = cs[p as int];
    let c1 = at(cs, p + 1int);
    let c2 = at(cs, p + 2int);
    let c3 = at(cs, p + 3int);
    if c0 == '>' && c1 == Some('>') && c2 == Some('>') && c3 == Some('=') {
        (refused("assignment"@), p + 4)
    } else if c0 == '=' && c1 == Some('=') && c2 == Some('=') {
        (Kind::EqEqEq, p + 3)
    } else if c0 == '!' && c1 == Some('=') && c2 == Some('=') {
        (Kind::BangEqEq, p + 3)
    } else if c0 == '>' && c1 == Some('>') && c2 == Some('>') {
        (refused("bitwise operators"@), p + 3)
    } else if (c0 == '<' || c0 == '>' || c0 == '*') && c1 == Some(c0) && c2 == Some('=') {
        (refused("assignment"@), p + 3)
    } else if (c0 == '&' || c0 == '|' || c0 == '?') && c1 == Some(c0) && c2 == Some('=') {
        (refused("logical assignment"@), p + 3)
    } else if c0 == '.' && c1 == Some('.') && c2 == Some('.') {
        (Kind::Unsupported(Boundary::ThirdBinding, "the spread and rest syntax"@), p + 3)
    } else if c0 == '*' && c1 == Some('*') {
        (refused("exponentiation"@), p + 2)
    } else if c0 == '+' && c1 == Some('+') {
        (Kind::PlusPlus, p + 2)
    } else if c0 == '-' && c1 == Some('-') {
        (Kind::MinusMinus, p + 2)
    } else if c0 == '=' && c1 == Some('>') {
        (Kind::Unsupported(Boundary::FullJs, "arrow functions"@), p + 2)
    } else if c0 == '=' && c1 == Some('=') {
        (Kind::EqEq, p + 2)
    } else if c0 == '!' && c1 == Some('=') {
        (Kind::BangEq, p + 2)
    } else if (c0 == '<' || c0 == '>') && c1 == Some(c0) {
        (refused("bitwise operators"@), p + 2)
    } else if c0 == '<' && c1 == Some('=') {
        (Kind::LtEq, p + 2)
    } else if c0 == '>' && c1 == Some('=') {
        (Kind::GtEq, p + 2)
    } else if c0 == '&' && c1 == Some('&') {
        (Kind::AmpAmp, p + 2)
    } else if c0 == '|' && c1 == Some('|') {
        (Kind::PipePipe, p + 2)
    } else if c0 == '?' && c1 == Some('?') {
        (refused("the nullish coalescing operator"@), p + 2)
    } else if c0 == '?' && c1 == Some('.') {
        (refused("optional chaining"@), p + 2)
    } else if c0 == '+' && c1 == Some('=') {
        (Kind::PlusEq, p + 2)
    } else if c0 == '-' && c1 == Some('=') {
        (Kind::MinusEq, p + 2)
    } else if c0 == '*' && c1 == Some('=') {
        (Kind::StarEq, p + 2)
    } else if c0 == '/' && c1 == Some('=') {
        (Kind::SlashEq, p + 2)
    } else if c0 == '%' && c1 == Some('=') {
        (Kind::PercentEq, p + 2)
    } else if (c0 == '&' || c0 == '|' || c0 == '^') && c1 == Some('=') {
        (refused("assignment"@), p + 2)
    } else {
        (single(c0), p + 1)
    }
}

/// The one-character punctuation `c`, or `c` naming itself.
pub open spec fn single(c: char) -> Kind {
    if c == '+' { Kind::Plus }
    else if c == '-' { Kind::Minus }
    else if c == '*' { Kind::Star }
    else if c == '/' { Kind::Slash }
    else if c == '%' { Kind::Percent }
    else if c == '!' { Kind::Bang }
    else if c == '=' { Kind::Eq }
    else if c == '<' { Kind::Lt }
    else if c == '>' { Kind::Gt }
    else if c == '(' { Kind::LParen }
    else if c == ')' { Kind::RParen }
    else if c == '{' { Kind::LBrace }
    else if c == '}' { Kind::RBrace }
    else if c == ';' { Kind::Semi }
    else if c == ',' { Kind::Comma }
    else if c == '[' { Kind::LBracket }
    else if c == ']' { Kind::RBracket }
    else if c == '.' { Kind::Dot }
    else if c == ':' { Kind::Colon }
    else if c == '&' || c == '|' || c == '^' || c == '~' { refused("bitwise operators"@) }
    else if c == '?' { Kind::Question }
    else { refused("the character `"@ + seq![c] + "`"@) }
}

fn single_token(c: char) -> (k: TokenKind)
    ensures
        k@ == single(c),
{
    if c == '+' { TokenKind::Plus }
    else if c == '-' { TokenKind::Minus }
    else if c == '*' { TokenKind::Star }
    else if c == '/' { TokenKind::Slash }
    else if c == '%' { TokenKind::Percent }
    else if c == '!' { TokenKind::Bang }
    else if c == '=' { TokenKind::Eq }
    else if c == '<' { TokenKind::Lt }
    else if c == '>' { TokenKind::Gt }
    else if c == '(' { TokenKind::LParen }
    else if c == ')' { TokenKind::RParen }
    else if c == '{' { TokenKind::LBrace }
    else if c == '}' { TokenKind::RBrace }
    else if c == ';' { TokenKind::Semi }
    else if c == ',' { TokenKind::Comma }
    else if c == '[' { TokenKind::LBracket }
    else if c == ']' { TokenKind::RBracket }
    else if c == '.' { TokenKind::Dot }
    else if c == ':' { TokenKind::Colon }
    else if c == '&' || c == '|' || c == '^' || c == '~' { subset("bitwise operators") }
    else if c == '?' { TokenKind::Question }
    else {
        // Not ASCII punctuation the engine knows: name the character itself,
        // whole, however many bytes it takes.
        let mut phrase = String::new();
        push_str(&mut phrase, "the character `");
        push_char(&mut phrase, c);
        push_str(&mut phrase, "`");
        proof {
            assert(phrase@ =~= "the character `"@ + seq![c] + "`"@);
        }
        subset(phrase.as_str())
    }
}

impl Lexer {
    /// Moves past `n` characters.
    pub(crate) fn advance(&mut self, n: usize)
        requires
            old(self).wf(),
            old(self).pos + n <= old(self).chars@.len(),
        ensures
            final(self).wf(),
            final(self).chars@ == old(self).chars@,
            final(self).pos == old(self).pos + n,
    {
        let mut i: usize = 0;
        while i < n
            invariant
                self.wf(),
                self.chars@ == old(self).chars@,
                i <= n,
                self.pos == old(self).pos + i,
                old(self).pos + n <= old(self).chars@.len(),
            decreases n - i,
        {
            self.bump();
            i += 1;
        }
    }

    /// Operators and delimiters, longest form first.
    #[verifier::rlimit(40)]
    pub(crate) fn punctuation(&mut self) -> (k: TokenKind)
        requires
            old(self).wf(),
            old(self).pos < old(self).chars@.len(),
        ensures
            final(self).wf(),
            final(self).chars@ == old(self).chars@,
            (k@, final(self).pos as nat) == punctuation(old(self).chars@, old(self).pos as nat),
    {
        let c0 = self.chars[self.pos];
        let c1 = self.peek_at(1);
        let c2 = self.peek_at(2);
        let c3 = self.peek_at(3);
        let (len, kind): (usize, TokenKind) = if c0 == '>' && c1 == Some('>') && c2 == Some('>') && c3 == Some('=') {
            (4, subset("assignment"))
        } else if c0 == '=' && c1 == Some('=') && c2 == Some('=') {
            (3, TokenKind::EqEqEq)
        } else if c0 == '!' && c1 == Some('=') && c2 == Some('=') {
            (3, TokenKind::BangEqEq)
        } else if c0 == '>' && c1 == Some('>') && c2 == Some('>') {
            (3, subset("bitwise operators"))
        } else if (c0 == '<' || c0 == '>' || c0 == '*') && c1 == Some(c0) && c2 == Some('=') {
            (3, subset("assignment"))
        } else if (c0 == '&' || c0 == '|' || c0 == '?') && c1 == Some(c0) && c2 == Some('=') {
            (3, subset("logical assignment"))
        } else if c0 == '.' && c1 == Some('.') && c2 == Some('.') {
            (3, third("the spread and rest syntax"))
        } else if c0 == '*' && c1 == Some('*') {
            (2, subset("exponentiation"))
        } else if c0 == '+' && c1 == Some('+') {
            (2, TokenKind::PlusPlus)
        } else if c0 == '-' && c1 == Some('-') {
            (2, TokenKind::MinusMinus)
        } else if c0 == '=' && c1 == Some('>') {
            (2, full_js("arrow functions"))
        } else if c0 == '=' && c1 == Some('=') {
            (2, TokenKind::EqEq)
        } else if c0 == '!' && c1 == Some('=') {
            (2, TokenKind::BangEq)
        } else if (c0 == '<' || c0 == '>') && c1 == Some(c0) {
            (2, subset("bitwise operators"))
        } else if c0 == '<' && c1 == Some('=') {
            (2, TokenKind::LtEq)
        } else if c0 == '>' && c1 == Some('=') {
            (2, TokenKind::GtEq)
        } else if c0 == '&' && c1 == Some('&') {
            (2, TokenKind::AmpAmp)
        } else if c0 == '|' && c1 == Some('|') {
            (2, TokenKind::PipePipe)
        } else if c0 == '?' && c1 == Some('?') {
            (2, subset("the nullish coalescing operator"))
        } else if c0 == '?' && c1 == Some('.') {
            (2, subset("optional chaining"))
        } else if c0 == '+' && c1 == Some('=') {
            (2, TokenKind::PlusEq)
        } else if c0 == '-' && c1 == Some('=') {
            (2, TokenKind::MinusEq)
        } else if c0 == '*' && c1 == Some('=') {
            (2, TokenKind::StarEq)
        } else if c0 == '/' && c1 == Some('=') {
            (2, TokenKind::SlashEq)
        } else if c0 == '%' && c1 == Some('=') {
            (2, TokenKind::PercentEq)
        } else if (c0 == '&' || c0 == '|' || c0 == '^') && c1 == Some('=') {
            (2, subset("assignment"))
        } else {
            (1, single_token(c0))
        };
        self.advance(len);
        kind
    }
}

} // verus!
