//! [`crate::ast::Program`] -> [`crate::ir::Module`].
//!
//! The whole program becomes one exported function named `main`, taking as
//! many `i32` parameters as the highest `$N` the source names, and returning
//! `i32`. Every host name the source used becomes a zero-argument `js.<name>`
//! import, in sorted order, so the same source always produces the same import
//! table. Nothing here can fail.
//!
//! `/` and `%` lower to `i32.div_s` and `i32.rem_s`, which trap on a zero
//! divisor (and `i32::MIN / -1`). A trap is loud; a fabricated `0` would be a
//! wrong number flowing on into the rest of the expression.
use vstd::prelude::*;
use vstd::string::*;
use vstd::utf8::*;

use crate::ast::{BinaryOp, Expr, Program, UnaryOp};
use crate::ir::{Export, ExportKind, Func, FuncType, Import, Ins, Module, ValType};
use crate::order::{
    bytes_lt, lemma_bytes_lt_irreflexive, lemma_bytes_lt_total, lemma_bytes_lt_transitive,
    less_than,
};

verus! {

/// The name every compiled program exports.
pub open spec fn entry_name() -> Seq<char> {
    "main"@
}

/// The module every host name is imported from.
pub open spec fn host_module_name() -> Seq<char> {
    "js"@
}

/// Every host name the expression mentions.
pub open spec fn host_names(e: Expr) -> Set<Seq<char>>
    decreases e,
{
    match e {
        Expr::Int(_) | Expr::Arg(_) => Set::empty(),
        Expr::Host(name) => set![name@],
        Expr::Unary(_, operand) => host_names(*operand),
        Expr::Binary(_, lhs, rhs) => host_names(*lhs).union(host_names(*rhs)),
    }
}

/// How many parameters `main` declares: one past the highest `$N` used, so
/// `$2` alone still means three, and a source naming no argument means zero.
pub open spec fn arg_count(e: Expr) -> nat
    decreases e,
{
    match e {
        Expr::Int(_) | Expr::Host(_) => 0,
        Expr::Arg(index) => index as nat + 1,
        Expr::Unary(_, operand) => arg_count(*operand),
        Expr::Binary(_, lhs, rhs) => {
            let l = arg_count(*lhs);
            let r = arg_count(*rhs);
            if l >= r { l } else { r }
        },
    }
}

/// Every `$N` in the expression has an `N` below `u32::MAX`, so the
/// parameter count is a `u32`.
pub open spec fn args_fit(e: Expr) -> bool
    decreases e,
{
    match e {
        Expr::Int(_) | Expr::Host(_) => true,
        Expr::Arg(index) => index < u32::MAX,
        Expr::Unary(_, operand) => args_fit(*operand),
        Expr::Binary(_, lhs, rhs) => args_fit(*lhs) && args_fit(*rhs),
    }
}

/// The instruction each binary operator becomes.
pub open spec fn binary_ins(op: BinaryOp) -> Ins {
    match op {
        BinaryOp::Add => Ins::I32Add,
        BinaryOp::Sub => Ins::I32Sub,
        BinaryOp::Mul => Ins::I32Mul,
        BinaryOp::Div => Ins::I32DivS,
        BinaryOp::Rem => Ins::I32RemS,
    }
}

/// Post-order emission: operands first, then the operator. `$N` is local
/// `N`; a host name is the call of its position in the import table; a
/// negation is `0 - x`.
pub open spec fn lowered(e: Expr, hosts: Seq<Seq<char>>) -> Seq<Ins>
    decreases e,
{
    match e {
        Expr::Int(value) => seq![Ins::I32Const(value)],
        Expr::Arg(index) => seq![Ins::LocalGet(index)],
        Expr::Host(name) => seq![Ins::Call(hosts.index_of(name@) as u32)],
        Expr::Unary(UnaryOp::Neg, operand) => seq![Ins::I32Const(0)] + lowered(*operand, hosts)
            + seq![Ins::I32Sub],
        Expr::Binary(op, lhs, rhs) => lowered(*lhs, hosts) + lowered(*rhs, hosts) + seq![
            binary_ins(op),
        ],
    }
}

/// The body `lower` emits refers only to what the module has: every call
/// targets one of the host imports, at the position of the name it calls, and
/// every argument read is one of `main`'s parameters.
pub proof fn law_lowered_refers_within(e: Expr, hosts: Seq<Seq<char>>)
    requires
        host_names(e).subset_of(hosts.to_set()),
        hosts.len() <= u32::MAX,
    ensures
        forall|i: int|
            0 <= i < lowered(e, hosts).len() ==> match #[trigger] lowered(e, hosts)[i] {
                Ins::Call(f) => f < hosts.len(),
                Ins::LocalGet(n) => n < arg_count(e),
                _ => true,
            },
    decreases e,
{
    let body = lowered(e, hosts);
    match e {
        Expr::Int(_) | Expr::Arg(_) => {},
        Expr::Host(name) => {
            assert(host_names(e).contains(name@));
            assert(hosts.to_set().contains(name@));
            assert(hosts.contains(name@));
            let k = hosts.index_of(name@);
            assert(0 <= k < hosts.len());
        },
        Expr::Unary(UnaryOp::Neg, operand) => {
            law_lowered_refers_within(*operand, hosts);
            let inner = lowered(*operand, hosts);
            assert forall|i: int| 0 <= i < body.len() implies match #[trigger] body[i] {
                Ins::Call(f) => f < hosts.len(),
                Ins::LocalGet(n) => n < arg_count(e),
                _ => true,
            } by {
                if 1 <= i < 1 + inner.len() {
                    assert(body[i] == inner[i - 1]);
                }
            }
        },
        Expr::Binary(op, lhs, rhs) => {
            assert(host_names(*lhs).subset_of(host_names(e)));
            assert(host_names(*rhs).subset_of(host_names(e)));
            law_lowered_refers_within(*lhs, hosts);
            law_lowered_refers_within(*rhs, hosts);
            let l = lowered(*lhs, hosts);
            let r = lowered(*rhs, hosts);
            assert forall|i: int| 0 <= i < body.len() implies match #[trigger] body[i] {
                Ins::Call(f) => f < hosts.len(),
                Ins::LocalGet(n) => n < arg_count(e),
                _ => true,
            } by {
                if i < l.len() {
                    assert(body[i] == l[i]);
                } else if i < l.len() + r.len() {
                    assert(body[i] == r[i - l.len()]);
                }
            }
        },
    }
}

// -- what the lowered code computes --------------------------------------------

/// A mathematical integer wrapped to 32-bit two's complement.
pub open spec fn wrap32(x: int) -> i32 {
    x as i32
}

/// Division rounded toward zero.
pub open spec fn quotient_toward_zero(a: int, b: int) -> int {
    let q = (if a < 0 { -a } else { a }) / (if b < 0 { -b } else { b });
    if (a < 0) == (b < 0) { q } else { -q }
}

/// Signed 32-bit division as wasm's `i32.div_s` defines it: rounded toward
/// zero, trapping (`None`) on a zero divisor and on `i32::MIN / -1`.
pub open spec fn div_s(a: i32, b: i32) -> Option<i32> {
    if b == 0 || (a == i32::MIN && b == -1) {
        None
    } else {
        Some(quotient_toward_zero(a as int, b as int) as i32)
    }
}

/// Signed 32-bit remainder as wasm's `i32.rem_s` defines it: the sign of the
/// dividend, trapping (`None`) on a zero divisor only.
pub open spec fn rem_s(a: i32, b: i32) -> Option<i32> {
    if b == 0 {
        None
    } else {
        Some((a - b * quotient_toward_zero(a as int, b as int)) as i32)
    }
}

/// The value of an integer-subset expression with arguments `args` and each
/// host name `n` answering `host(n)`, or `None` where evaluation traps. The
/// operators are 32-bit: `+ - *` wrap, `/` rounds toward zero, `%` takes the
/// dividend's sign, and a negation is `0 - x`.
pub open spec fn value(e: Expr, args: Seq<i32>, host: spec_fn(Seq<char>) -> i32) -> Option<i32>
    decreases e,
{
    match e {
        Expr::Int(v) => Some(v),
        Expr::Arg(i) => Some(args[i as int]),
        Expr::Host(name) => Some(host(name@)),
        Expr::Unary(UnaryOp::Neg, operand) => match value(*operand, args, host) {
            Some(v) => Some(wrap32(0 - v)),
            None => None,
        },
        Expr::Binary(op, lhs, rhs) => match (value(*lhs, args, host), value(*rhs, args, host)) {
            (Some(a), Some(b)) => match op {
                BinaryOp::Add => Some(wrap32(a + b)),
                BinaryOp::Sub => Some(wrap32(a - b)),
                BinaryOp::Mul => Some(wrap32(a * b)),
                BinaryOp::Div => div_s(a, b),
                BinaryOp::Rem => rem_s(a, b),
            },
            _ => None,
        },
    }
}

/// One instruction of the integer vocabulary run on an operand stack, with
/// `locals` as the function's locals and import `f` answering `call(f)`;
/// `None` where wasm traps or the stack is too short.
pub open spec fn step(ins: Ins, s: Seq<i32>, locals: Seq<i32>, call: spec_fn(u32) -> i32) -> Option<Seq<i32>> {
    match ins {
        Ins::I32Const(v) => Some(s.push(v)),
        Ins::LocalGet(i) => if i < locals.len() { Some(s.push(locals[i as int])) } else { None },
        Ins::Call(f) => Some(s.push(call(f))),
        _ => if s.len() < 2 {
            None
        } else {
            let a = s[s.len() - 2];
            let b = s[s.len() - 1];
            let rest = s.take(s.len() - 2);
            let r = match ins {
                Ins::I32Add => Some(wrap32(a + b)),
                Ins::I32Sub => Some(wrap32(a - b)),
                Ins::I32Mul => Some(wrap32(a * b)),
                Ins::I32DivS => div_s(a, b),
                _ => rem_s(a, b),
            };
            match r {
                Some(v) => Some(rest.push(v)),
                None => None,
            }
        },
    }
}

/// A straight-line instruction sequence run from stack `s`.
pub open spec fn run(code: Seq<Ins>, s: Seq<i32>, locals: Seq<i32>, call: spec_fn(u32) -> i32) -> Option<Seq<i32>>
    decreases code.len(),
{
    if code.len() == 0 {
        Some(s)
    } else {
        match step(code[0], s, locals, call) {
            Some(t) => run(code.drop_first(), t, locals, call),
            None => None,
        }
    }
}

/// Running two sequences one after the other is running their concatenation.
pub proof fn lemma_run_append(a: Seq<Ins>, b: Seq<Ins>, s: Seq<i32>, locals: Seq<i32>, call: spec_fn(u32) -> i32)
    ensures
        run(a + b, s, locals, call) == match run(a, s, locals, call) {
            Some(t) => run(b, t, locals, call),
            None => None,
        },
    decreases a.len(),
{
    if a.len() == 0 {
        assert(a + b =~= b);
    } else {
        assert((a + b)[0] == a[0]);
        assert((a + b).drop_first() =~= a.drop_first() + b);
        if let Some(t) = step(a[0], s, locals, call) {
            lemma_run_append(a.drop_first(), b, t, locals, call);
        }
    }
}

proof fn lemma_run_one(ins: Ins, s: Seq<i32>, locals: Seq<i32>, call: spec_fn(u32) -> i32)
    ensures
        run(seq![ins], s, locals, call) == step(ins, s, locals, call),
{
    let one = seq![ins];
    assert(one[0] == ins);
    assert(one.drop_first() =~= Seq::<Ins>::empty());
    if let Some(t) = step(ins, s, locals, call) {
        assert(run(one.drop_first(), t, locals, call) == Some(t));
    }
}

/// What `main`'s body computes: run on any stack with the call's arguments as
/// its locals, and with import `i` answering the host function named
/// `hosts[i]`, the lowered code of an expression pushes exactly the value of
/// the expression, and traps exactly where the expression's evaluation does.
pub proof fn law_lowered_code_computes_the_value(
    e: Expr,
    hosts: Seq<Seq<char>>,
    args: Seq<i32>,
    host: spec_fn(Seq<char>) -> i32,
    call: spec_fn(u32) -> i32,
    s: Seq<i32>,
)
    requires
        host_names(e).subset_of(hosts.to_set()),
        hosts.len() <= u32::MAX,
        arg_count(e) <= args.len(),
        forall|i: int| 0 <= i < hosts.len() ==> call(i as u32) == host(#[trigger] hosts[i]),
    ensures
        run(lowered(e, hosts), s, args, call) == match value(e, args, host) {
            Some(v) => Some(s.push(v)),
            None => None,
        },
    decreases e,
{
    match e {
        Expr::Int(v) => {
            lemma_run_one(Ins::I32Const(v), s, args, call);
        },
        Expr::Arg(i) => {
            lemma_run_one(Ins::LocalGet(i), s, args, call);
        },
        Expr::Host(name) => {
            assert(host_names(e).contains(name@));
            assert(hosts.contains(name@));
            let k = hosts.index_of(name@);
            assert(0 <= k < hosts.len() && hosts[k] == name@);
            assert(call(k as u32) == host(hosts[k]));
            lemma_run_one(Ins::Call(k as u32), s, args, call);
        },
        Expr::Unary(UnaryOp::Neg, operand) => {
            let zero = seq![Ins::I32Const(0)];
            let inner = lowered(*operand, hosts);
            let sub = seq![Ins::I32Sub];
            assert(lowered(e, hosts) == zero + inner + sub);
            lemma_run_append(zero + inner, sub, s, args, call);
            lemma_run_append(zero, inner, s, args, call);
            lemma_run_one(Ins::I32Const(0), s, args, call);
            law_lowered_code_computes_the_value(*operand, hosts, args, host, call, s.push(0));
            if let Some(v) = value(*operand, args, host) {
                let t = s.push(0).push(v);
                lemma_run_one(Ins::I32Sub, t, args, call);
                assert(t.take(t.len() - 2) =~= s);
            }
        },
        Expr::Binary(op, lhs, rhs) => {
            assert(host_names(*lhs).subset_of(host_names(e)));
            assert(host_names(*rhs).subset_of(host_names(e)));
            let l = lowered(*lhs, hosts);
            let r = lowered(*rhs, hosts);
            let last = seq![binary_ins(op)];
            assert(lowered(e, hosts) == l + r + last);
            lemma_run_append(l + r, last, s, args, call);
            lemma_run_append(l, r, s, args, call);
            law_lowered_code_computes_the_value(*lhs, hosts, args, host, call, s);
            if let Some(a) = value(*lhs, args, host) {
                law_lowered_code_computes_the_value(*rhs, hosts, args, host, call, s.push(a));
                if let Some(b) = value(*rhs, args, host) {
                    let t = s.push(a).push(b);
                    lemma_run_one(binary_ins(op), t, args, call);
                    assert(t.take(t.len() - 2) =~= s);
                    assert(t[t.len() - 2] == a);
                    assert(t[t.len() - 1] == b);
                }
            }
        },
    }
}

/// The character sequences of a list of strings.
pub open spec fn names_view(v: Seq<String>) -> Seq<Seq<char>> {
    v.map_values(|s: String| s@)
}

/// Strictly increasing by UTF-8 bytes: sorted, and nothing twice.
pub open spec fn sorted_names(hs: Seq<Seq<char>>) -> bool {
    forall|i: int, j: int|
        0 <= i < j < hs.len() ==> bytes_lt(encode_utf8(#[trigger] hs[i]), encode_utf8(#[trigger] hs[j]))
}

/// No name is listed twice.
pub open spec fn distinct_names(hs: Seq<Seq<char>>) -> bool {
    forall|i: int, j: int| 0 <= i < j < hs.len() ==> #[trigger] hs[i] != #[trigger] hs[j]
}

proof fn lemma_sorted_distinct(hs: Seq<Seq<char>>)
    requires
        sorted_names(hs),
    ensures
        distinct_names(hs),
{
    assert forall|i: int, j: int| 0 <= i < j < hs.len() implies #[trigger] hs[i] != #[trigger] hs[j] by {
        if hs[i] == hs[j] {
            lemma_bytes_lt_irreflexive(encode_utf8(hs[i]));
        }
    }
}

/// The import table is a function of the set of host names: two tables that
/// are both sorted and name the same hosts are the same table. With the
/// contract of [`lower`] this is why the same source always produces the same
/// import table.
pub proof fn law_sorted_names_unique(a: Seq<Seq<char>>, b: Seq<Seq<char>>)
    requires
        sorted_names(a),
        sorted_names(b),
        a.to_set() == b.to_set(),
    ensures
        a == b,
    decreases a.len(),
{
    if a.len() == 0 {
        if b.len() > 0 {
            assert(b.to_set().contains(b[0]));
        }
        assert(a =~= b);
    } else {
        assert(a.to_set().contains(a[0]));
        assert(b.len() > 0);
        assert(b.to_set().contains(b[0]));
        let j = choose|j: int| 0 <= j < b.len() && b[j] == a[0];
        let i = choose|i: int| 0 <= i < a.len() && a[i] == b[0];
        if i > 0 {
            // a[0] sorts before a[i] == b[0], but b[0] sorts no later than b[j] == a[0].
            assert(bytes_lt(encode_utf8(a[0]), encode_utf8(a[i])));
            if j > 0 {
                assert(bytes_lt(encode_utf8(b[0]), encode_utf8(b[j])));
                lemma_bytes_lt_total(encode_utf8(a[0]), encode_utf8(b[0]));
            } else {
                lemma_bytes_lt_irreflexive(encode_utf8(a[0]));
            }
        }
        assert(a[0] == b[0]);
        let ra = a.drop_first();
        let rb = b.drop_first();
        lemma_sorted_distinct(a);
        lemma_sorted_distinct(b);
        assert(sorted_names(ra)) by {
            assert forall|x: int, y: int| 0 <= x < y < ra.len() implies bytes_lt(
                encode_utf8(#[trigger] ra[x]),
                encode_utf8(#[trigger] ra[y]),
            ) by {
                assert(ra[x] == a[x + 1] && ra[y] == a[y + 1]);
            }
        }
        assert(sorted_names(rb)) by {
            assert forall|x: int, y: int| 0 <= x < y < rb.len() implies bytes_lt(
                encode_utf8(#[trigger] rb[x]),
                encode_utf8(#[trigger] rb[y]),
            ) by {
                assert(rb[x] == b[x + 1] && rb[y] == b[y + 1]);
            }
        }
        assert(ra.to_set() =~= rb.to_set()) by {
            assert forall|n: Seq<char>| ra.to_set().contains(n) implies rb.to_set().contains(n) by {
                let k = choose|k: int| 0 <= k < ra.len() && ra[k] == n;
                assert(a[k + 1] == n);
                assert(a.to_set().contains(n));
                let m = choose|m: int| 0 <= m < b.len() && b[m] == n;
                if m == 0 {
                    assert(a[0] != a[k + 1]);
                }
                assert(rb[m - 1] == n);
            }
            assert forall|n: Seq<char>| rb.to_set().contains(n) implies ra.to_set().contains(n) by {
                let k = choose|k: int| 0 <= k < rb.len() && rb[k] == n;
                assert(b[k + 1] == n);
                assert(b.to_set().contains(n));
                let m = choose|m: int| 0 <= m < a.len() && a[m] == n;
                if m == 0 {
                    assert(b[0] != b[k + 1]);
                }
                assert(ra[m - 1] == n);
            }
        }
        law_sorted_names_unique(ra, rb);
        assert(a =~= seq![a[0]] + ra);
        assert(b =~= seq![b[0]] + rb);
    }
}

proof fn lemma_utf8_injective(a: Seq<char>, b: Seq<char>)
    requires
        encode_utf8(a) == encode_utf8(b),
    ensures
        a == b,
{
    encode_utf8_decode_utf8(a);
    encode_utf8_decode_utf8(b);
}

/// Adds `name` to the sorted list unless it is already there.
fn insert_sorted(out: &mut Vec<String>, name: &String)
    requires
        sorted_names(names_view(old(out)@)),
    ensures
        sorted_names(names_view(final(out)@)),
        names_view(final(out)@).to_set() == names_view(old(out)@).to_set().insert(name@),
{
    let ghost hs = names_view(out@);
    let key = name.as_str().as_bytes();
    let ghost k = encode_utf8(name@);
    let mut i: usize = 0;
    while i < out.len() && less_than(out[i].as_str().as_bytes(), key)
        invariant
            i <= out@.len(),
            hs == names_view(out@),
            k == key@,
            forall|j: int| 0 <= j < i ==> bytes_lt(encode_utf8(#[trigger] hs[j]), k),
        decreases out.len() - i,
    {
        i += 1;
    }
    if i < out.len() && out[i] == *name {
        assert(names_view(out@).to_set() =~= names_view(out@).to_set().insert(name@)) by {
            assert(names_view(out@)[i as int] == name@);
        }
        return;
    }
    let ghost old_out = out@;
    out.insert(i, name.clone());
    proof {
        let ns = names_view(out@);
        assert(ns =~= hs.insert(i as int, name@));
        if (i as int) < hs.len() {
            let next = encode_utf8(hs[i as int]);
            lemma_bytes_lt_total(next, k);
            if next == k {
                lemma_utf8_injective(hs[i as int], name@);
            }
            assert(bytes_lt(k, next));
        }
        assert forall|a: int, b: int| 0 <= a < b < ns.len() implies bytes_lt(
            encode_utf8(#[trigger] ns[a]),
            encode_utf8(#[trigger] ns[b]),
        ) by {
            if b < i {
            } else if a < i && b == i {
            } else if a < i && b > i {
                assert(ns[b] == hs[b - 1]);
                if b - 1 > i {
                    assert(bytes_lt(k, encode_utf8(hs[i as int])));
                    assert(bytes_lt(encode_utf8(hs[i as int]), encode_utf8(hs[b - 1])));
                    lemma_bytes_lt_transitive(k, encode_utf8(hs[i as int]), encode_utf8(hs[b - 1]));
                }
                lemma_bytes_lt_transitive(encode_utf8(hs[a]), k, encode_utf8(hs[b - 1]));
            } else if a == i {
                assert(ns[b] == hs[b - 1]);
                if b - 1 > i {
                    lemma_bytes_lt_transitive(k, encode_utf8(hs[i as int]), encode_utf8(hs[b - 1]));
                }
            } else {
                assert(ns[a] == hs[a - 1]);
                assert(ns[b] == hs[b - 1]);
            }
        }
        assert(ns.to_set() =~= hs.to_set().insert(name@)) by {
            assert forall|x: Seq<char>| ns.to_set().contains(x) <==> hs.to_set().insert(name@).contains(x) by {
                if x == name@ {
                    assert(ns[i as int] == x);
                }
                if hs.to_set().contains(x) {
                    let j = choose|j: int| 0 <= j < hs.len() && hs[j] == x;
                    if j < i {
                        assert(ns[j] == x);
                    } else {
                        assert(ns[j + 1] == x);
                    }
                }
                if ns.to_set().contains(x) {
                    let j = choose|j: int| 0 <= j < ns.len() && ns[j] == x;
                    if j < i {
                        assert(hs[j] == x);
                    } else if j > i {
                        assert(hs[j - 1] == x);
                    }
                }
            }
        }
    }
}

/// Every host name the expression mentions, added to a sorted, duplicate-free
/// list: `g+g` imports `js.g` once, and the import order depends on the names
/// rather than on where they appear.
fn collect_hosts(expr: &Expr, out: &mut Vec<String>)
    requires
        sorted_names(names_view(old(out)@)),
    ensures
        sorted_names(names_view(final(out)@)),
        names_view(final(out)@).to_set() == names_view(old(out)@).to_set().union(
            host_names(*expr),
        ),
    decreases expr,
{
    match expr {
        Expr::Int(_) | Expr::Arg(_) => {
            assert(names_view(out@).to_set() =~= names_view(out@).to_set().union(
                host_names(*expr),
            ));
        },
        Expr::Host(name) => {
            insert_sorted(out, name);
            assert(names_view(old(out)@).to_set().insert(name@) =~= names_view(
                old(out)@,
            ).to_set().union(host_names(*expr)));
        },
        Expr::Unary(_, operand) => collect_hosts(operand, out),
        Expr::Binary(_, lhs, rhs) => {
            collect_hosts(lhs, out);
            collect_hosts(rhs, out);
            assert(names_view(final(out)@).to_set() =~= names_view(old(out)@).to_set().union(
                host_names(*expr),
            ));
        },
    }
}

/// How many parameters `main` declares.
fn argument_count(expr: &Expr) -> (n: u32)
    requires
        args_fit(*expr),
    ensures
        n == arg_count(*expr),
    decreases expr,
{
    match expr {
        Expr::Int(_) | Expr::Host(_) => 0,
        Expr::Arg(index) => index + 1,
        Expr::Unary(_, operand) => argument_count(operand),
        Expr::Binary(_, lhs, rhs) => {
            let l = argument_count(lhs);
            let r = argument_count(rhs);
            if l >= r { l } else { r }
        },
    }
}

/// Post-order emission of `expr`, host names resolved to their position in
/// `hosts`.
fn emit(expr: &Expr, hosts: &[String], out: &mut Vec<Ins>)
    requires
        host_names(*expr).subset_of(names_view(hosts@).to_set()),
        distinct_names(names_view(hosts@)),
    ensures
        final(out)@ == old(out)@ + lowered(*expr, names_view(hosts@)),
    decreases expr,
{
    match expr {
        Expr::Int(value) => out.push(Ins::I32Const(*value)),
        // Parameters occupy the first local indices, in order.
        Expr::Arg(index) => out.push(Ins::LocalGet(*index)),
        // Imports occupy the first function indices, in the order of `hosts`.
        Expr::Host(name) => {
            let ghost hs = names_view(hosts@);
            assert(hs.to_set().contains(name@));
            let mut i: usize = 0;
            while hosts[i] != *name
                invariant
                    i < hosts@.len(),
                    hs == names_view(hosts@),
                    hs.to_set().contains(name@),
                    forall|j: int| 0 <= j < i ==> hs[j] != name@,
                decreases hosts@.len() - i,
            {
                i += 1;
                if i == hosts.len() {
                    assert(false) by {
                        let j = choose|j: int| 0 <= j < hs.len() && hs[j] == name@;
                        assert(hs[j] != name@);
                    }
                }
            }
            assert(hs.index_of(name@) == i as int) by {
                assert(hs[i as int] == name@);
                let w = hs.index_of(name@);
                assert(0 <= w < hs.len() && hs[w] == name@);
                if w < i {
                    assert(hs[w] != name@);
                } else if w > i {
                    assert(hs[i as int] != hs[w]);
                }
            }
            out.push(Ins::Call(i as u32));
        },
        // wasm has no integer negation: `0 - x` is the standard encoding.
        Expr::Unary(UnaryOp::Neg, operand) => {
            out.push(Ins::I32Const(0));
            emit(operand, hosts, out);
            out.push(Ins::I32Sub);
        },
        Expr::Binary(op, lhs, rhs) => {
            emit(lhs, hosts, out);
            emit(rhs, hosts, out);
            out.push(
                match op {
                    BinaryOp::Add => Ins::I32Add,
                    BinaryOp::Sub => Ins::I32Sub,
                    BinaryOp::Mul => Ins::I32Mul,
                    BinaryOp::Div => Ins::I32DivS,
                    BinaryOp::Rem => Ins::I32RemS,
                },
            );
        },
    }
    assert(final(out)@ =~= old(out)@ + lowered(*expr, names_view(hosts@)));
}

/// A function type as the pair of its parameter and result lists.
pub open spec fn type_view(t: FuncType) -> (Seq<ValType>, Seq<ValType>) {
    (t.params@, t.results@)
}

fn same_types(a: &Vec<ValType>, b: &Vec<ValType>) -> (r: bool)
    ensures
        r == (a@ == b@),
{
    if a.len() != b.len() {
        return false;
    }
    let mut i: usize = 0;
    while i < a.len()
        invariant
            i <= a@.len(),
            a@.len() == b@.len(),
            a@.take(i as int) == b@.take(i as int),
        decreases a.len() - i,
    {
        if a[i] != b[i] {
            return false;
        }
        assert(a@.take(i + 1) =~= a@.take(i as int).push(a@[i as int]));
        assert(b@.take(i + 1) =~= b@.take(i as int).push(b@[i as int]));
        i += 1;
    }
    assert(a@ =~= a@.take(i as int));
    assert(b@ =~= b@.take(i as int));
    true
}

/// Index of `wanted` in `types`, appending it first if it is not there. Two
/// functions with the same signature share one type index.
fn intern(types: &mut Vec<FuncType>, wanted: FuncType) -> (index: u32)
    requires
        old(types)@.len() < u32::MAX,
    ensures
        (exists|i: int| 0 <= i < old(types)@.len() && type_view(#[trigger] old(types)@[i])
            == type_view(wanted)) ==> {
            &&& final(types)@ == old(types)@
            &&& index < old(types)@.len()
            &&& type_view(old(types)@[index as int]) == type_view(wanted)
            &&& forall|j: int|
                0 <= j < index ==> type_view(#[trigger] old(types)@[j]) != type_view(wanted)
        },
        !(exists|i: int| 0 <= i < old(types)@.len() && type_view(#[trigger] old(types)@[i])
            == type_view(wanted)) ==> {
            &&& final(types)@ == old(types)@.push(wanted)
            &&& index == old(types)@.len()
        },
{
    let mut i: usize = 0;
    while i < types.len()
        invariant
            i <= types@.len(),
            types@ == old(types)@,
            old(types)@.len() < u32::MAX,
            forall|j: int| 0 <= j < i ==> type_view(#[trigger] types@[j]) != type_view(wanted),
        decreases types.len() - i,
    {
        if same_types(&types[i].params, &wanted.params) && same_types(
            &types[i].results,
            &wanted.results,
        ) {
            assert(type_view(types@[i as int]) == type_view(wanted));
            return i as u32;
        }
        i += 1;
    }
    let n = types.len();
    types.push(wanted);
    n as u32
}

/// The signature every host import has: no parameters, one `i32` result.
pub open spec fn host_type() -> (Seq<ValType>, Seq<ValType>) {
    (Seq::empty(), seq![ValType::I32])
}

/// The signature of `main`: `arity` `i32` parameters, one `i32` result.
pub open spec fn main_type(arity: nat) -> (Seq<ValType>, Seq<ValType>) {
    (Seq::new(arity, |i: int| ValType::I32), seq![ValType::I32])
}

/// The type section a program's module gets: the host type first when there
/// are imports, then `main`'s type unless it is the same.
pub open spec fn module_types(has_hosts: bool, arity: nat) -> Seq<(Seq<ValType>, Seq<ValType>)> {
    if !has_hosts {
        seq![main_type(arity)]
    } else if arity == 0 {
        seq![host_type()]
    } else {
        seq![host_type(), main_type(arity)]
    }
}

/// The type index `main` gets.
pub open spec fn main_type_index(has_hosts: bool, arity: nat) -> u32 {
    if has_hosts && arity > 0 { 1 } else { 0 }
}

/// The host names a module imports, in import order.
pub open spec fn import_names(imports: Seq<Import>) -> Seq<Seq<char>> {
    imports.map_values(|i: Import| i.name@)
}

/// Lowers a program of the integer subset to a module: one exported `main`
/// whose body is the post-order emission of the expression, and one
/// zero-argument import per distinct host name, sorted by UTF-8 bytes.
pub fn lower(program: &Program) -> (module: Module)
    requires
        args_fit(program.expr),
    ensures
        sorted_names(import_names(module.imports@)),
        import_names(module.imports@).to_set() == host_names(program.expr),
        forall|i: int|
            0 <= i < module.imports@.len() ==> (#[trigger] module.imports@[i]).module@
                == host_module_name() && module.imports@[i].type_index == 0,
        module.types@.map_values(|t: FuncType| type_view(t)) == module_types(
            module.imports@.len() > 0,
            arg_count(program.expr),
        ),
        module.funcs@.len() == 1,
        module.funcs@[0].type_index == main_type_index(
            module.imports@.len() > 0,
            arg_count(program.expr),
        ),
        module.funcs@[0].locals@.len() == 0,
        module.funcs@[0].body@ == lowered(program.expr, import_names(module.imports@)),
        module.exports@.len() == 1,
        module.exports@[0].name@ == entry_name(),
        module.exports@[0].kind == ExportKind::Func,
        module.exports@[0].index == module.imports@.len() as u32,
{
    let mut hosts: Vec<String> = Vec::new();
    assert(names_view(hosts@).to_set() =~= Set::empty());
    collect_hosts(&program.expr, &mut hosts);
    let ghost hs = names_view(hosts@);
    proof {
        lemma_sorted_distinct(hs);
        assert(hs.to_set() =~= host_names(program.expr));
    }
    let mut types: Vec<FuncType> = Vec::new();
    // Import types first: imported functions come first in the index space.
    let host_type_index = if hosts.len() == 0 {
        0
    } else {
        let mut results: Vec<ValType> = Vec::new();
        results.push(ValType::I32);
        intern(&mut types, FuncType { params: Vec::new(), results })
    };
    let arity = argument_count(&program.expr);
    let mut params: Vec<ValType> = Vec::new();
    let mut k: u32 = 0;
    while k < arity
        invariant
            k <= arity,
            params@ == Seq::new(k as nat, |i: int| ValType::I32),
        decreases arity - k,
    {
        params.push(ValType::I32);
        assert(params@ =~= Seq::new((k + 1) as nat, |i: int| ValType::I32));
        k += 1;
    }
    let mut results: Vec<ValType> = Vec::new();
    results.push(ValType::I32);
    let ghost before = types@;
    let main_type_index = intern(&mut types, FuncType { params, results });
    proof {
        let tv = types@.map_values(|t: FuncType| type_view(t));
        if hs.len() > 0 {
            assert(type_view(before[0]) == host_type());
            if arity > 0 {
                assert(main_type(arity as nat).0.len() > 0);
                assert(tv =~= module_types(true, arity as nat));
            } else {
                assert(main_type(0) =~= host_type());
                assert(tv =~= module_types(true, arity as nat));
            }
        } else {
            assert(tv =~= module_types(false, arity as nat));
        }
    }

    let mut body: Vec<Ins> = Vec::new();
    emit(&program.expr, hosts.as_slice(), &mut body);

    let mut imports: Vec<Import> = Vec::new();
    let mut i: usize = 0;
    while i < hosts.len()
        invariant
            i <= hosts@.len(),
            hs == names_view(hosts@),
            host_type_index == 0,
            imports@.len() == i,
            forall|j: int|
                0 <= j < i ==> (#[trigger] imports@[j]).name@ == hs[j] && imports@[j].module@
                    == host_module_name() && imports@[j].type_index == 0,
        decreases hosts.len() - i,
    {
        imports.push(
            Import {
                module: String::from_str("js"),
                name: hosts[i].clone(),
                type_index: host_type_index,
            },
        );
        proof {
            reveal_strlit("js");
        }
        i += 1;
    }
    assert(import_names(imports@) =~= hs);
    let mut funcs: Vec<Func> = Vec::new();
    funcs.push(Func { type_index: main_type_index, locals: Vec::new(), body });
    let mut exports: Vec<Export> = Vec::new();
    exports.push(
        Export { name: String::from_str("main"), kind: ExportKind::Func, index: hosts.len() as u32 },
    );
    proof {
        reveal_strlit("main");
    }
    Module { types, imports, funcs, exports }
}

} // verus!

pub mod m1;
