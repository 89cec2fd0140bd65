//! Source text as characters, and where each character starts in bytes.
use vstd::prelude::*;
use vstd::string::*;
use vstd::utf8::*;
use vstd::std_specs::iter::IteratorSpec;

verus! {

broadcast use {vstd::string::axiom_spec_iter, vstd::string::next_postcondition};

/// The characters of `s`, in order.
pub fn chars_of(s: &str) -> (r: Vec<char>)
    ensures
        r@ == s@,
{
    let mut it = s.chars();
    let mut r: Vec<char> = Vec::new();
    loop
        invariant
            it.obeys_prophetic_iter_laws(),
            r@ + it.remaining() == s@,
        decreases s@.len() - r@.len(),
    {
        match it.next() {
            Some(c) => {
                r.push(c);
                assert(r@ + it.remaining() =~= s@);
            },
            None => {
                assert(r@ =~= s@);
                return r;
            },
        }
    }
}

/// Where character `i` of `cs` starts, in bytes: the UTF-8 length of the
/// characters before it.
pub open spec fn boff(cs: Seq<char>, i: int) -> nat {
    encode_utf8(cs.take(i)).len()
}

/// How many UTF-8 bytes `c` takes.
pub open spec fn char_width(c: char) -> nat {
    encode_scalar(c as u32).len()
}

/// Encoding a concatenation is concatenating the encodings.
pub proof fn lemma_encode_utf8_append(a: Seq<char>, b: Seq<char>)
    ensures
        encode_utf8(a + b) == encode_utf8(a) + encode_utf8(b),
    decreases a.len(),
{
    if a.len() == 0 {
        assert(a + b =~= b);
    } else {
        lemma_encode_utf8_append(a.drop_first(), b);
        assert((a + b).drop_first() =~= a.drop_first() + b);
    }
}

/// One more character moves the byte offset by that character's width.
pub proof fn lemma_boff_step(cs: Seq<char>, i: int)
    requires
        0 <= i < cs.len(),
    ensures
        boff(cs, i + 1) == boff(cs, i) + char_width(cs[i]),
{
    assert(cs.take(i + 1) =~= cs.take(i) + seq![cs[i]]);
    lemma_encode_utf8_append(cs.take(i), seq![cs[i]]);
    let one = seq![cs[i]];
    assert(one.drop_first() =~= Seq::<char>::empty());
    assert(encode_utf8(Seq::<char>::empty()) =~= Seq::<u8>::empty());
    assert(encode_utf8(one) =~= encode_scalar(cs[i] as u32) + encode_utf8(one.drop_first()));
}

/// Byte offsets grow with character positions, up to the whole encoding.
pub proof fn lemma_boff_mono(cs: Seq<char>, i: int, j: int)
    requires
        0 <= i <= j <= cs.len(),
    ensures
        boff(cs, i) <= boff(cs, j),
        boff(cs, cs.len() as int) == encode_utf8(cs).len(),
    decreases j - i,
{
    assert(cs.take(cs.len() as int) =~= cs);
    if i < j {
        lemma_boff_step(cs, j - 1);
        lemma_boff_mono(cs, i, j - 1);
    }
}

/// The UTF-8 width of `c`.
pub fn width(c: char) -> (w: usize)
    ensures
        w == char_width(c),
        1 <= w <= 4,
{
    proof {
        char_is_scalar(c);
    }
    let v = c as u32;
    if v < 0x80 {
        1
    } else if v < 0x800 {
        2
    } else if v < 0x10000 {
        3
    } else {
        4
    }
}

} // verus!
