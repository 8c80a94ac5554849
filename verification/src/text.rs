//! Small conversions between strings and their letters.
use vstd::prelude::*;

verus! {

/// The letters of `word`, in order.
pub fn char_vec(word: &str) -> (v: Vec<char>)
    ensures
        v@ == word@,
{
    let mut v: Vec<char> = Vec::new();
    for c in it: word.chars()
        invariant
            v@ == it.seq().take(it.index() as int),
    {
        v.push(c);
    }
    v
}

} // verus!

verus! {

/// Whether `a` and `b` are the same text.
pub fn same_text(a: &str, b: &str) -> (r: bool)
    ensures
        r == (a@ == b@),
{
    let va = char_vec(a);
    let vb = char_vec(b);
    if va.len() != vb.len() {
        return false;
    }
    let mut i: usize = 0;
    while i < va.len()
        invariant
            0 <= i <= va@.len(),
            va@.len() == vb@.len(),
            va@ == a@,
            vb@ == b@,
            forall|k: int| 0 <= k < i ==> va@[k] == vb@[k],
        decreases va@.len() - i,
    {
        if va[i] != vb[i] {
            return false;
        }
        i = i + 1;
    }
    assert(va@ =~= vb@);
    true
}

} // verus!

verus! {

/// Where letter `p` of `s` begins in the UTF-8 encoding of `s`, in bytes.
pub open spec fn byte_offset(s: Seq<char>, p: int) -> nat {
    vstd::utf8::encode_utf8(s.take(p)).len()
}

/// Encoding a concatenation concatenates the encodings.
pub proof fn lemma_encode_concat(a: Seq<char>, b: Seq<char>)
    ensures
        vstd::utf8::encode_utf8(a + b) == vstd::utf8::encode_utf8(a) + vstd::utf8::encode_utf8(b),
    decreases a.len(),
{
    if a.len() > 0 {
        assert((a + b).drop_first() =~= a.drop_first() + b);
        lemma_encode_concat(a.drop_first(), b);
        assert((a + b)[0] == a[0]);
        assert(vstd::utf8::encode_utf8(a + b) =~= vstd::utf8::encode_utf8(a) + vstd::utf8::encode_utf8(b));
    } else {
        assert(a + b =~= b);
        assert(vstd::utf8::encode_utf8(a) =~= Seq::<u8>::empty());
        assert(vstd::utf8::encode_utf8(a) + vstd::utf8::encode_utf8(b) =~= vstd::utf8::encode_utf8(b));
    }
}

/// The next letter begins after the bytes of the current one.
proof fn lemma_offset_step(s: Seq<char>, p: int)
    requires
        0 <= p < s.len(),
    ensures
        byte_offset(s, p + 1) == byte_offset(s, p) + vstd::utf8::encode_scalar(s[p] as u32).len(),
{
    let one = seq![s[p]];
    assert(s.take(p + 1) =~= s.take(p) + one);
    lemma_encode_concat(s.take(p), one);
    assert(one.drop_first() =~= Seq::<char>::empty());
    assert(vstd::utf8::encode_utf8(one.drop_first()) =~= Seq::<u8>::empty());
    assert(vstd::utf8::encode_utf8(one) =~= vstd::utf8::encode_scalar(s[p] as u32));
}

/// How many bytes `c` takes in UTF-8.
fn char_width(c: char) -> (w: usize)
    ensures
        w == vstd::utf8::encode_scalar(c as u32).len(),
        1 <= w <= 4,
{
    let u: u32 = c as u32;
    proof {
        vstd::utf8::char_is_scalar(c);
    }
    if u <= 0x7F {
        1
    } else if u <= 0x7FF {
        2
    } else if u <= 0xFFFF {
        3
    } else {
        4
    }
}

/// The byte offset of every letter of `s`, and of its end.
pub fn letter_offsets(s: &str) -> (v: Vec<usize>)
    ensures
        v@.len() == s@.len() + 1,
        forall|p: int| 0 <= p <= s@.len() ==> #[trigger] v@[p] == byte_offset(s@, p),
        forall|i: int, j: int| 0 <= i < j <= s@.len() ==> v@[i] < v@[j],
        v@[s@.len() as int] == vstd::utf8::encode_utf8(s@).len(),
{
    broadcast use vstd::slice::group_slice_axioms;
    let total: usize = s.as_bytes().len();
    let cs = char_vec(s);
    let mut v: Vec<usize> = Vec::new();
    let mut off: usize = 0;
    v.push(0);
    proof {
        assert(s@.take(0) =~= Seq::<char>::empty());
        assert(s@.take(s@.len() as int) =~= s@);
    }
    let mut p: usize = 0;
    while p < cs.len()
        invariant
            cs@ == s@,
            total == byte_offset(s@, s@.len() as int),
            0 <= p <= cs@.len(),
            v@.len() == p + 1,
            off == v@[p as int],
            forall|i: int| 0 <= i <= p ==> #[trigger] v@[i] == byte_offset(s@, i),
            forall|i: int, j: int| 0 <= i < j <= p ==> v@[i] < v@[j],
        decreases cs@.len() - p,
    {
        let w = char_width(cs[p]);
        proof {
            lemma_offset_step(s@, p as int);
            let rest = s@.subrange(p + 1, s@.len() as int);
            assert(s@.take(s@.len() as int) =~= s@.take(p + 1) + rest);
            lemma_encode_concat(s@.take(p + 1), rest);
        }
        off = off + w;
        v.push(off);
        p = p + 1;
    }
    v
}

} // verus!
