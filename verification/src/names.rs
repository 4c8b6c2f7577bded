//! The order of names: byte by byte over their UTF-8 encoding, a shorter
//! name before every longer one that starts with it.

use vstd::prelude::*;
use vstd::utf8::{encode_utf8, encode_utf8_decode_utf8};

verus! {

/// Whether `a` comes before `b`, given that both agree on their first `i`
/// bytes.
pub open spec fn before_from(a: Seq<u8>, b: Seq<u8>, i: int) -> bool
    decreases a.len() - i,
{
    if i >= b.len() {
        false
    } else if i >= a.len() {
        true
    } else if a[i] != b[i] {
        a[i] < b[i]
    } else {
        before_from(a, b, i + 1)
    }
}

/// Whether the name `a` comes before the name `b`.
pub open spec fn name_before(a: Seq<char>, b: Seq<char>) -> bool {
    before_from(encode_utf8(a), encode_utf8(b), 0)
}

/// Two byte strings that agree from `i` on, where neither comes before the
/// other, are equal from `i` on.
pub proof fn lemma_neither_before(a: Seq<u8>, b: Seq<u8>, i: int)
    requires
        0 <= i <= a.len(),
        i <= b.len(),
        !before_from(a, b, i),
        !before_from(b, a, i),
    ensures
        a.len() == b.len(),
        forall|k: int| i <= k < a.len() ==> a[k] == b[k],
    decreases a.len() - i,
{
    if i < a.len() && i < b.len() {
        lemma_neither_before(a, b, i + 1);
    }
}

/// No byte string comes before itself.
pub proof fn lemma_not_before_itself(a: Seq<u8>, i: int)
    requires
        0 <= i,
    ensures
        !before_from(a, a, i),
    decreases a.len() - i,
{
    if i < a.len() {
        lemma_not_before_itself(a, i + 1);
    }
}

/// The order carries over: before `b`, which is before `c`, is before `c`.
pub proof fn lemma_before_carries(a: Seq<u8>, b: Seq<u8>, c: Seq<u8>, i: int)
    requires
        0 <= i,
        before_from(a, b, i),
        before_from(b, c, i),
    ensures
        before_from(a, c, i),
    decreases a.len() - i,
{
    if i < a.len() && a[i] == b[i] && b[i] == c[i] {
        lemma_before_carries(a, b, c, i + 1);
    }
}

/// Of two different names, one comes before the other.
pub proof fn lemma_names_ordered(a: Seq<char>, b: Seq<char>)
    requires
        a != b,
    ensures
        name_before(a, b) || name_before(b, a),
{
    let x = encode_utf8(a);
    let y = encode_utf8(b);
    if !before_from(x, y, 0) && !before_from(y, x, 0) {
        lemma_neither_before(x, y, 0);
        assert(x =~= y);
        encode_utf8_decode_utf8(a);
        encode_utf8_decode_utf8(b);
    }
}

/// No name comes before itself.
pub proof fn lemma_name_not_before_itself(a: Seq<char>)
    ensures
        !name_before(a, a),
{
    lemma_not_before_itself(encode_utf8(a), 0);
}

/// The order of names carries over.
pub proof fn lemma_name_order_carries(a: Seq<char>, b: Seq<char>, c: Seq<char>)
    requires
        name_before(a, b),
        name_before(b, c),
    ensures
        name_before(a, c),
{
    lemma_before_carries(encode_utf8(a), encode_utf8(b), encode_utf8(c), 0);
}

/// Decides `name_before`.
pub fn comes_before(a: &str, b: &str) -> (before: bool)
    ensures
        before == name_before(a@, b@),
{
    let x = a.as_bytes();
    let y = b.as_bytes();
    let mut i: usize = 0;
    while i < x.len() && i < y.len()
        invariant
            x@ == encode_utf8(a@),
            y@ == encode_utf8(b@),
            i <= x@.len(),
            i <= y@.len(),
            name_before(a@, b@) == before_from(x@, y@, i as int),
        decreases x@.len() - i,
    {
        if x[i] != y[i] {
            return x[i] < y[i];
        }
        i += 1;
    }
    i < y.len()
}

} // verus!
