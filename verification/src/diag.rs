//! Compile diagnostics.
//!
//! Every message speaks for the engine, never about the author: the subset is
//! small and grows by demand, so the common rejection is a good script that is
//! simply ahead of the engine.
//!
//! Three constructors: [`unsupported`] (real JavaScript the engine does not
//! lower yet), [`host_table`] (a request the embedder's host table cannot
//! answer) and [`malformed`] (source the engine cannot read to the end). Each
//! carries a [`Boundary`], the machine-readable half of the same fact.
use vstd::prelude::*;
use vstd::string::*;

use crate::text::{decimal, push_decimal, push_str};

verus! {

/// Which kind of boundary a rejection ran into, in a form that survives a
/// caller with no room for a `String`.
#[derive(Debug, Clone, Copy, PartialEq, Eq, Structural)]
pub enum Boundary {
    /// Real JavaScript whose meaning needs a runtime this compiler does not
    /// emit yet.
    FullJs,
    /// A construct that would need a third world beyond the host import table
    /// and this call's arguments.
    ThirdBinding,
    /// Inside the expression subset in shape but not lowered yet, or source the
    /// engine cannot read to the end.
    Subset,
}

/// The text of [`Boundary::terse`] for each boundary.
pub open spec fn terse_text(b: Boundary) -> Seq<char> {
    match b {
        Boundary::FullJs => "full JS needs a runtime this engine does not emit yet"@,
        Boundary::ThirdBinding => "the world is only the two bindings; this needs a third"@,
        Boundary::Subset => "outside the expression subset this engine lowers"@,
    }
}

impl Boundary {
    /// The fmt-free summary of this boundary.
    pub fn terse(self) -> (r: &'static str)
        ensures
            r@ == terse_text(self),
    {
        match self {
            Boundary::FullJs => "full JS needs a runtime this engine does not emit yet",
            Boundary::ThirdBinding => "the world is only the two bindings; this needs a third",
            Boundary::Subset => "outside the expression subset this engine lowers",
        }
    }
}

/// A compile failure that names the engine's capability boundary.
#[derive(Debug, Clone)]
pub struct CompileError {
    /// The whole sentence, phrased as what the engine cannot do yet.
    pub message: String,
    /// Where the construct starts, in bytes from the start of the source.
    pub offset: usize,
    /// The same fact, coarse enough to cross a fmt-free boundary.
    pub boundary: Boundary,
}

/// The sentence of an [`unsupported`] diagnostic.
pub open spec fn unsupported_text(construct: Seq<char>) -> Seq<char> {
    "this engine does not support "@ + construct + " yet"@
}

/// The sentence of a [`host_table`] or [`malformed`] diagnostic.
pub open spec fn engine_text(what: Seq<char>) -> Seq<char> {
    "this engine "@ + what
}

/// How a [`CompileError`] reads: the sentence, then where it starts.
pub open spec fn rendered_text(message: Seq<char>, offset: nat) -> Seq<char> {
    message + " (at byte "@ + decimal(offset) + ")"@
}

impl CompileError {
    /// The sentence followed by the byte offset it points at,
    /// `"{message} (at byte {offset})"`.
    pub fn rendered(&self) -> (r: String)
        ensures
            r@ == rendered_text(self.message@, self.offset as nat),
    {
        let mut s = self.message.clone();
        push_str(&mut s, " (at byte ");
        push_decimal(&mut s, self.offset);
        push_str(&mut s, ")");
        s
    }
}

/// "this engine does not support {construct} yet".
///
/// `construct` is a noun phrase naming the capability, specific enough that a
/// reader can tell which part of their script is ahead of the engine.
pub fn unsupported(boundary: Boundary, construct: &str, offset: usize) -> (e: CompileError)
    ensures
        e.message@ == unsupported_text(construct@),
        e.offset == offset,
        e.boundary == boundary,
{
    let mut message = String::new();
    push_str(&mut message, "this engine does not support ");
    push_str(&mut message, construct);
    push_str(&mut message, " yet");
    CompileError { message, offset, boundary }
}

/// "this engine {what}", against the host table an embedder declared. Always
/// [`Boundary::ThirdBinding`]: the host table is the third world that
/// boundary names.
pub fn host_table(what: &str, offset: usize) -> (e: CompileError)
    ensures
        e.message@ == engine_text(what@),
        e.offset == offset,
        e.boundary == Boundary::ThirdBinding,
{
    let mut message = String::new();
    push_str(&mut message, "this engine ");
    push_str(&mut message, what);
    CompileError { message, offset, boundary: Boundary::ThirdBinding }
}

/// "this engine {what}", for input the engine cannot finish reading. Always
/// [`Boundary::Subset`].
pub fn malformed(what: &str, offset: usize) -> (e: CompileError)
    ensures
        e.message@ == engine_text(what@),
        e.offset == offset,
        e.boundary == Boundary::Subset,
{
    let mut message = String::new();
    push_str(&mut message, "this engine ");
    push_str(&mut message, what);
    CompileError { message, offset, boundary: Boundary::Subset }
}

} // verus!
