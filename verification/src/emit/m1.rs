//! The pieces of statement-tree lowering that speak only of the tree: what a
//! function is called in the `name` custom section, how a list of host names
//! reads in a diagnostic, and which ECMA-262 type an expression certainly has.
use vstd::prelude::*;
use vstd::string::*;

use crate::ast::m1::{Expr, ExprKind, FuncId, Program, UnaryOp};
use crate::emit::entry_name;
use crate::text::{decimal, push_decimal, push_str};

verus! {

/// What function `id` is called in the `name` custom section. The script is
/// the export name; an anonymous function expression is named after where it
/// was written, which is the only thing that tells two of them apart.
pub open spec fn debug_name_text(program: Program, id: FuncId) -> Seq<char> {
    if id.0 == 0 {
        entry_name()
    } else {
        match program.functions@[id.0 as int].name {
            Some(name) => name@,
            None => "<anonymous@"@ + decimal(program.functions@[id.0 as int].span.0 as nat) + ">"@,
        }
    }
}

/// What function `id` is called in the `name` custom section.
pub fn debug_name(program: &Program, id: FuncId) -> (r: String)
    requires
        (id.0 as int) < program.functions@.len(),
    ensures
        r@ == debug_name_text(*program, id),
{
    if id == Program::script_id() {
        let mut entry = String::new();
        push_str(&mut entry, "main");
        proof {
            reveal_strlit("main");
            assert(entry@ =~= entry_name());
        }
        return entry;
    }
    let f = program.func(id);
    match &f.name {
        Some(name) => name.clone(),
        None => {
            let mut text = String::new();
            push_str(&mut text, "<anonymous@");
            push_decimal(&mut text, f.span.offset());
            push_str(&mut text, ">");
            text
        },
    }
}

/// A name in backquotes.
pub open spec fn quoted(name: Seq<char>) -> Seq<char> {
    "`"@ + name + "`"@
}

/// The names in backquotes, separated by `, `.
pub open spec fn comma_separated(names: Seq<Seq<char>>) -> Seq<char>
    decreases names.len(),
{
    if names.len() == 0 {
        Seq::empty()
    } else if names.len() == 1 {
        quoted(names[0])
    } else {
        comma_separated(names.drop_last()) + ", "@ + quoted(names.last())
    }
}

/// `` `a`, `b` and `c` ``, or "no host functions at all", which is the answer
/// a reader of an empty table most needs.
pub open spec fn list_text(names: Seq<Seq<char>>) -> Seq<char> {
    if names.len() == 0 {
        "no host functions at all"@
    } else if names.len() == 1 {
        quoted(names[0])
    } else {
        comma_separated(names.drop_last()) + " and "@ + quoted(names.last())
    }
}

/// The character sequences of a list of string slices.
pub open spec fn strs_view(names: Seq<&str>) -> Seq<Seq<char>> {
    names.map_values(|n: &str| n@)
}

/// Lists host names for a diagnostic sentence.
pub fn list(names: &[&str]) -> (r: String)
    ensures
        r@ == list_text(strs_view(names@)),
{
    let ghost ns = strs_view(names@);
    let mut text = String::new();
    if names.len() == 0 {
        push_str(&mut text, "no host functions at all");
        return text;
    }
    let last = names.len() - 1;
    let mut i: usize = 0;
    while i < last
        invariant
            i <= last,
            last == names@.len() - 1,
            ns == strs_view(names@),
            text@ == comma_separated(ns.take(i as int)),
        decreases last - i,
    {
        if i > 0 {
            push_str(&mut text, ", ");
        }
        push_str(&mut text, "`");
        push_str(&mut text, names[i]);
        push_str(&mut text, "`");
        proof {
            let t = ns.take(i + 1);
            assert(t.drop_last() =~= ns.take(i as int));
            assert(t.last() == names@[i as int]@);
            if i == 0 {
                assert(text@ =~= quoted(t[0]));
            } else {
                assert(text@ =~= comma_separated(t.drop_last()) + ", "@ + quoted(t.last()));
            }
        }
        i += 1;
    }
    if last > 0 {
        push_str(&mut text, " and ");
    }
    push_str(&mut text, "`");
    push_str(&mut text, names[last]);
    push_str(&mut text, "`");
    proof {
        assert(ns.drop_last() =~= ns.take(last as int));
        assert(ns.last() == names@[last as int]@);
        if last == 0 {
            assert(text@ =~= quoted(ns[0]));
        } else {
            assert(text@ =~= comma_separated(ns.drop_last()) + " and "@ + quoted(ns.last()));
        }
    }
    text
}

/// The ECMA-262 type an expression has whatever its operands hold, as the
/// phrase a diagnostic uses, or `None` when only running it can tell: a
/// literal, and the unary operators whose result type does not depend on
/// their operand. A function is an Object in the specification, but it is
/// what `typeof` answers and what a reader of the diagnostic wrote.
pub open spec fn static_type_text(e: Expr) -> Option<Seq<char>> {
    match e.kind {
        ExprKind::Int(_) | ExprKind::Num(_) => Some("a Number"@),
        ExprKind::Str(_) => Some("a String"@),
        ExprKind::Bool(_) => Some("a Boolean"@),
        ExprKind::Object(_) => Some("an Object"@),
        ExprKind::Function(_) => Some("a function"@),
        ExprKind::Null => Some("Null"@),
        ExprKind::Undefined => Some("Undefined"@),
        // 13.5.4 and 13.5.5: both are ToNumber of the operand.
        ExprKind::Unary(UnaryOp::Plus, _) | ExprKind::Unary(UnaryOp::Neg, _) => Some("a Number"@),
        // 13.5.7: ToBoolean, negated.
        ExprKind::Unary(UnaryOp::Not, _) => Some("a Boolean"@),
        // 13.5.3: always one of five strings.
        ExprKind::Unary(UnaryOp::TypeOf, _) => Some("a String"@),
        // 13.4: ToNumeric, and this engine has no BigInt.
        ExprKind::Update { .. } => Some("a Number"@),
        _ => None,
    }
}

/// The type `expr` certainly has, for a diagnostic that can name it before
/// the program runs.
pub fn static_type(expr: &Expr) -> (r: Option<&'static str>)
    ensures
        match r {
            Some(s) => static_type_text(*expr) == Some(s@),
            None => static_type_text(*expr) is None,
        },
{
    match &expr.kind {
        ExprKind::Int(_) | ExprKind::Num(_) => Some("a Number"),
        ExprKind::Str(_) => Some("a String"),
        ExprKind::Bool(_) => Some("a Boolean"),
        ExprKind::Object(_) => Some("an Object"),
        ExprKind::Function(_) => Some("a function"),
        ExprKind::Null => Some("Null"),
        ExprKind::Undefined => Some("Undefined"),
        ExprKind::Unary(UnaryOp::Plus, _) | ExprKind::Unary(UnaryOp::Neg, _) => Some("a Number"),
        ExprKind::Unary(UnaryOp::Not, _) => Some("a Boolean"),
        ExprKind::Unary(UnaryOp::TypeOf, _) => Some("a String"),
        ExprKind::Update { .. } => Some("a Number"),
        _ => None,
    }
}

} // verus!
