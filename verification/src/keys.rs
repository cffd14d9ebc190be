//! The order in which parameter names are signed: byte by byte over their
//! UTF-8 encoding.

use vstd::prelude::*;
use vstd::string::StringSliceAdditionalSpecFns;
use vstd::utf8::{decode_utf8, encode_utf8, encode_utf8_decode_utf8};

verus! {

/// Whether `a` stands strictly before `b` in lexicographic order: at the
/// first position where they differ `a` holds the smaller byte, or `a` ends
/// there and `b` goes on.
pub open spec fn bytes_before(a: Seq<u8>, b: Seq<u8>) -> bool
    decreases a.len(),
{
    if b.len() == 0 {
        false
    } else if a.len() == 0 {
        true
    } else if a[0] != b[0] {
        a[0] < b[0]
    } else {
        bytes_before(a.drop_first(), b.drop_first())
    }
}

/// Whether the name `a` is signed before the name `b`.
pub open spec fn key_before(a: Seq<char>, b: Seq<char>) -> bool {
    bytes_before(encode_utf8(a), encode_utf8(b))
}

/// No byte string stands before itself.
pub proof fn lemma_bytes_before_irreflexive(a: Seq<u8>)
    ensures
        !bytes_before(a, a),
    decreases a.len(),
{
    if a.len() > 0 {
        lemma_bytes_before_irreflexive(a.drop_first());
    }
}

/// Of two byte strings at most one stands before the other.
pub proof fn lemma_bytes_before_asymmetric(a: Seq<u8>, b: Seq<u8>)
    requires
        bytes_before(a, b),
    ensures
        !bytes_before(b, a),
    decreases a.len(),
{
    if a.len() > 0 && b.len() > 0 && a[0] == b[0] {
        lemma_bytes_before_asymmetric(a.drop_first(), b.drop_first());
    }
}

/// The order is transitive.
pub proof fn lemma_bytes_before_transitive(a: Seq<u8>, b: Seq<u8>, c: Seq<u8>)
    requires
        bytes_before(a, b),
        bytes_before(b, c),
    ensures
        bytes_before(a, c),
    decreases a.len(),
{
    if a.len() > 0 && b.len() > 0 && c.len() > 0 && a[0] == b[0] && b[0] == c[0] {
        lemma_bytes_before_transitive(a.drop_first(), b.drop_first(), c.drop_first());
    }
}

/// Two different byte strings are ordered one way or the other.
pub proof fn lemma_bytes_before_total(a: Seq<u8>, b: Seq<u8>)
    ensures
        a == b || bytes_before(a, b) || bytes_before(b, a),
    decreases a.len(),
{
    if a.len() == 0 || b.len() == 0 {
        if a.len() == 0 && b.len() == 0 {
            assert(a =~= b);
        }
    } else if a[0] == b[0] {
        lemma_bytes_before_total(a.drop_first(), b.drop_first());
        if a.drop_first() == b.drop_first() {
            assert(a =~= seq![a[0]] + a.drop_first());
            assert(b =~= seq![b[0]] + b.drop_first());
        }
    }
}

/// Two names with the same UTF-8 encoding are the same name.
pub proof fn lemma_encoding_determines_key(a: Seq<char>, b: Seq<char>)
    requires
        encode_utf8(a) == encode_utf8(b),
    ensures
        a == b,
{
    encode_utf8_decode_utf8(a);
    encode_utf8_decode_utf8(b);
    assert(decode_utf8(encode_utf8(a)) == a);
    assert(decode_utf8(encode_utf8(b)) == b);
}

/// No name is signed before itself.
pub proof fn lemma_key_before_irreflexive(a: Seq<char>)
    ensures
        !key_before(a, a),
{
    lemma_bytes_before_irreflexive(encode_utf8(a));
}

/// Of two names at most one is signed before the other.
pub proof fn lemma_key_before_asymmetric(a: Seq<char>, b: Seq<char>)
    requires
        key_before(a, b),
    ensures
        !key_before(b, a),
{
    lemma_bytes_before_asymmetric(encode_utf8(a), encode_utf8(b));
}

/// The order of names is transitive.
pub proof fn lemma_key_before_transitive(a: Seq<char>, b: Seq<char>, c: Seq<char>)
    requires
        key_before(a, b),
        key_before(b, c),
    ensures
        key_before(a, c),
{
    lemma_bytes_before_transitive(encode_utf8(a), encode_utf8(b), encode_utf8(c));
}

/// Two different names are ordered one way or the other.
pub proof fn lemma_key_before_total(a: Seq<char>, b: Seq<char>)
    ensures
        a == b || key_before(a, b) || key_before(b, a),
{
    lemma_bytes_before_total(encode_utf8(a), encode_utf8(b));
    if encode_utf8(a) == encode_utf8(b) {
        lemma_encoding_determines_key(a, b);
    }
}

/// How one name stands to another in signing order.
#[derive(Clone, Copy, Debug, PartialEq, Eq)]
pub enum KeyOrder {
    /// The first name is signed before the second.
    Before,
    /// The two names are the same.
    Same,
    /// The first name is signed after the second.
    After,
}

/// Compares two names byte by byte.
pub fn compare_keys(a: &str, b: &str) -> (order: KeyOrder)
    ensures
        (order is Before) == key_before(a@, b@),
        (order is Same) == (a@ == b@),
        (order is After) == key_before(b@, a@),
{
    let x = a.as_bytes();
    let y = b.as_bytes();
    let mut i: usize = 0;
    assert(x@.skip(0) =~= x@ && y@.skip(0) =~= y@);
    while i < x.len() && i < y.len()
        invariant
            i <= x@.len(),
            i <= y@.len(),
            x@ == encode_utf8(a@),
            y@ == encode_utf8(b@),
            bytes_before(x@, y@) == bytes_before(x@.skip(i as int), y@.skip(i as int)),
            bytes_before(y@, x@) == bytes_before(y@.skip(i as int), x@.skip(i as int)),
            (x@ == y@) == (x@.skip(i as int) == y@.skip(i as int)),
        decreases x@.len() - i,
    {
        let ghost xs = x@.skip(i as int);
        let ghost ys = y@.skip(i as int);
        assert(xs[0] == x@[i as int] && ys[0] == y@[i as int]);
        assert(xs.drop_first() =~= x@.skip(i + 1));
        assert(ys.drop_first() =~= y@.skip(i + 1));
        if x[i] < y[i] {
            proof {
                lemma_bytes_before_asymmetric(xs, ys);
                lemma_known_order(a@, b@);
            }
            return KeyOrder::Before;
        }
        if x[i] > y[i] {
            proof {
                lemma_bytes_before_asymmetric(ys, xs);
                lemma_known_order(b@, a@);
            }
            return KeyOrder::After;
        }
        proof {
            if xs.drop_first() == ys.drop_first() {
                assert(xs =~= seq![xs[0]] + xs.drop_first());
                assert(ys =~= seq![ys[0]] + ys.drop_first());
            }
        }
        i = i + 1;
    }
    let ghost xs = x@.skip(i as int);
    let ghost ys = y@.skip(i as int);
    if i < y.len() {
        proof {
            assert(xs.len() == 0 && ys.len() > 0);
            lemma_known_order(a@, b@);
        }
        KeyOrder::Before
    } else if i < x.len() {
        proof {
            assert(ys.len() == 0 && xs.len() > 0);
            lemma_known_order(b@, a@);
        }
        KeyOrder::After
    } else {
        proof {
            assert(xs =~= ys);
            lemma_encoding_determines_key(a@, b@);
            lemma_key_before_irreflexive(a@);
        }
        KeyOrder::Same
    }
}

/// Whether two names are the same.
pub fn same_key(a: &str, b: &str) -> (same: bool)
    ensures
        same == (a@ == b@),
{
    match compare_keys(a, b) {
        KeyOrder::Same => true,
        _ => false,
    }
}

/// A name signed before another differs from it and is not signed after it.
proof fn lemma_known_order(a: Seq<char>, b: Seq<char>)
    requires
        key_before(a, b),
    ensures
        a != b,
        !key_before(b, a),
{
    lemma_key_before_asymmetric(a, b);
    if a == b {
        lemma_key_before_irreflexive(a);
    }
}

} // verus!
