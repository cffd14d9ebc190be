//! The signature of a flat parameter set.
//!
//! The entries that hold a boolean, a number or a string are taken in
//! ascending order of their names; their values are written one after the
//! other behind the merchant's password, each behind a `|`; the SHA-1 digest
//! of that text, in lower-case hexadecimal, is the signature. Entries that
//! hold anything else are passed over.

use vstd::prelude::*;
use vstd::string::{StringExecFns, StringSliceAdditionalSpecFns};
use vstd::utf8::encode_utf8;
use crate::digest::{hex_text, sha1, sha1_digest, to_hex, SHA1_MAX_MESSAGE_BYTES};
use crate::error::{ErrorView, FondyError};
use crate::json::{
    distinct_keys, has_key, index_of, number_text, Entries, JsonModel, JsonObject, JsonValue,
};
use crate::keys::{
    compare_keys, key_before, lemma_key_before_asymmetric, lemma_key_before_irreflexive,
    lemma_key_before_total, lemma_key_before_transitive, KeyOrder,
};

verus! {

/// Whether a value is signed: booleans, numbers and strings are.
pub open spec fn is_scalar(value: JsonModel) -> bool {
    value is Bool || value is Integer || value is Decimal || value is String
}

/// A signed value as it is written into the text that is hashed: `true` or
/// `false`, a number by its digits, a string as it stands.
pub open spec fn scalar_text(value: JsonModel) -> Seq<char> {
    match value {
        JsonModel::Bool(b) => if b {
            seq!['t', 'r', 'u', 'e']
        } else {
            seq!['f', 'a', 'l', 's', 'e']
        },
        JsonModel::String(text) => text,
        number => number_text(number),
    }
}

/// Whether `entries` has a signed value under `key`.
pub open spec fn is_signed_key(entries: Entries, key: Seq<char>) -> bool {
    has_key(entries, key) && is_scalar(entries[index_of(entries, key)].1)
}

/// Whether every name in `order` is signed before all that follow it.
pub open spec fn ascending(order: Seq<Seq<char>>) -> bool {
    forall|i: int, j: int|
        0 <= i < j < order.len() ==> key_before(#[trigger] order[i], #[trigger] order[j])
}

/// Whether `order` lists the names of the signed entries of `entries`, each
/// once, in ascending order.
pub open spec fn is_signing_order(order: Seq<Seq<char>>, entries: Entries) -> bool {
    &&& ascending(order)
    &&& forall|key: Seq<char>| #[trigger] order.contains(key) <==> is_signed_key(entries, key)
}

/// The names of the signed entries in the order in which they are signed.
pub open spec fn signing_order(entries: Entries) -> Seq<Seq<char>> {
    choose|order: Seq<Seq<char>>| is_signing_order(order, entries)
}

/// `secret` followed, for each name in `order`, by `|` and the value under
/// that name.
pub open spec fn joined(secret: Seq<char>, order: Seq<Seq<char>>, entries: Entries) -> Seq<char>
    decreases order.len(),
{
    if order.len() == 0 {
        secret
    } else {
        joined(secret, order.drop_last(), entries) + seq!['|'] + scalar_text(
            entries[index_of(entries, order.last())].1,
        )
    }
}

/// The text that is hashed for `entries` under the password `secret`.
pub open spec fn signing_text(secret: Seq<char>, entries: Entries) -> Seq<char> {
    joined(secret, signing_order(entries), entries)
}

/// The signature that belongs to a text: the SHA-1 digest of its UTF-8
/// encoding in lower-case hexadecimal.
pub open spec fn signature_of_text(text: Seq<char>) -> Seq<char> {
    hex_text(sha1_digest(encode_utf8(text)))
}

/// The signature of `entries` under the password `secret`.
pub open spec fn signature_text(secret: Seq<char>, entries: Entries) -> Seq<char> {
    signature_of_text(signing_text(secret, entries))
}

/// Whether a text is short enough to be hashed.
pub open spec fn fits_sha1(text: Seq<char>) -> bool {
    encode_utf8(text).len() <= SHA1_MAX_MESSAGE_BYTES
}

/// The error for a value that is no object.
pub open spec fn not_a_mapping() -> ErrorView {
    ErrorView::SignatureError("Json data must be dictionary"@)
}

/// The error for parameters whose text is too long to be hashed.
pub open spec fn text_too_long() -> ErrorView {
    ErrorView::SignatureError("Signed text is too long"@)
}

/// An ascending sequence holds no name twice.
proof fn lemma_ascending_distinct(order: Seq<Seq<char>>, i: int, j: int)
    requires
        ascending(order),
        0 <= i < order.len(),
        0 <= j < order.len(),
        i != j,
    ensures
        order[i] != order[j],
{
    if i < j {
        assert(key_before(order[i], order[j]));
    } else {
        assert(key_before(order[j], order[i]));
    }
    lemma_key_before_irreflexive(order[i]);
}

/// Two ascending sequences that hold the same names are the same sequence.
pub proof fn lemma_ascending_unique(a: Seq<Seq<char>>, b: Seq<Seq<char>>)
    requires
        ascending(a),
        ascending(b),
        forall|key: Seq<char>| a.contains(key) <==> b.contains(key),
    ensures
        a == b,
    decreases a.len(),
{
    if a.len() == 0 {
        if b.len() > 0 {
            assert(b.contains(b[0]));
            assert(a.contains(b[0]));
        }
        assert(a =~= b);
    } else {
        let top = a.last();
        assert(a.contains(top));
        assert(b.contains(top));
        let at = choose|i: int| 0 <= i < b.len() && b[i] == top;
        // `top` is the last name of `b` too: a later one would stand in `a`
        // before `top`, and after it in `b`.
        if at != b.len() - 1 {
            let later = b.last();
            assert(key_before(b[at], b[b.len() - 1]));
            assert(b.contains(later));
            assert(a.contains(later));
            let back = choose|i: int| 0 <= i < a.len() && a[i] == later;
            if back == a.len() - 1 {
                lemma_key_before_irreflexive(top);
            } else {
                assert(key_before(a[back], a[a.len() - 1]));
                lemma_key_before_asymmetric(top, later);
            }
        }
        let a0 = a.drop_last();
        let b0 = b.drop_last();
        assert(ascending(a0)) by {
            assert forall|i: int, j: int| 0 <= i < j < a0.len() implies key_before(
                #[trigger] a0[i],
                #[trigger] a0[j],
            ) by {
                assert(key_before(a[i], a[j]));
            }
        }
        assert(ascending(b0)) by {
            assert forall|i: int, j: int| 0 <= i < j < b0.len() implies key_before(
                #[trigger] b0[i],
                #[trigger] b0[j],
            ) by {
                assert(key_before(b[i], b[j]));
            }
        }
        assert forall|key: Seq<char>| a0.contains(key) <==> b0.contains(key) by {
            if a0.contains(key) {
                let i = choose|i: int| 0 <= i < a0.len() && a0[i] == key;
                assert(a[i] == key);
                lemma_ascending_distinct(a, i, a.len() - 1);
                assert(a.contains(key));
                assert(b.contains(key));
                let j = choose|j: int| 0 <= j < b.len() && b[j] == key;
                assert(b0[j] == key);
            }
            if b0.contains(key) {
                let j = choose|j: int| 0 <= j < b0.len() && b0[j] == key;
                assert(b[j] == key);
                lemma_ascending_distinct(b, j, b.len() - 1);
                assert(b.contains(key));
                assert(a.contains(key));
                let i = choose|i: int| 0 <= i < a.len() && a[i] == key;
                assert(a0[i] == key);
            }
        }
        lemma_ascending_unique(a0, b0);
        assert(a =~= a0.push(top));
        assert(b =~= b0.push(top));
    }
}

/// A sequence that lists the signed names in ascending order is the order
/// in which they are signed.
pub proof fn lemma_signing_order_is(order: Seq<Seq<char>>, entries: Entries)
    requires
        is_signing_order(order, entries),
    ensures
        signing_order(entries) == order,
{
    let chosen = signing_order(entries);
    assert(is_signing_order(chosen, entries));
    assert forall|key: Seq<char>| chosen.contains(key) <==> order.contains(key) by {
        assert(chosen.contains(key) <==> is_signed_key(entries, key));
        assert(order.contains(key) <==> is_signed_key(entries, key));
    }
    lemma_ascending_unique(chosen, order);
}

/// In entries with distinct names, the entry found under a name is the one
/// that stands there.
pub proof fn lemma_index_of(entries: Entries, i: int)
    requires
        distinct_keys(entries),
        0 <= i < entries.len(),
    ensures
        has_key(entries, entries[i].0),
        index_of(entries, entries[i].0) == i,
{
    assert(entries[i].0 == entries[i].0);
    let found = index_of(entries, entries[i].0);
    assert(0 <= found < entries.len() && entries[found].0 == entries[i].0);
}

/// `order` with `key` put in at its place.
spec fn with_key(order: Seq<Seq<char>>, key: Seq<char>) -> Seq<Seq<char>>
    decreases order.len(),
{
    if order.len() == 0 {
        seq![key]
    } else if key_before(order.last(), key) {
        order.push(key)
    } else {
        with_key(order.drop_last(), key).push(order.last())
    }
}

/// Putting a new name into an ascending sequence keeps it ascending and
/// adds that name and no other.
proof fn lemma_with_key(order: Seq<Seq<char>>, key: Seq<char>)
    requires
        ascending(order),
        !order.contains(key),
    ensures
        ascending(with_key(order, key)),
        forall|x: Seq<char>| #[trigger]
            with_key(order, key).contains(x) <==> (order.contains(x) || x == key),
    decreases order.len(),
{
    let grown = with_key(order, key);
    if order.len() == 0 {
        assert(grown[0] == key);
        assert forall|x: Seq<char>| #[trigger] grown.contains(x) <==> (order.contains(x) || x
            == key) by {
            if grown.contains(x) {
                let i = choose|i: int| 0 <= i < grown.len() && grown[i] == x;
                assert(i == 0);
            }
        }
    } else if key_before(order.last(), key) {
        assert forall|i: int, j: int| 0 <= i < j < grown.len() implies key_before(
            #[trigger] grown[i],
            #[trigger] grown[j],
        ) by {
            if j < order.len() {
                assert(key_before(order[i], order[j]));
            } else if i < order.len() - 1 {
                assert(key_before(order[i], order[order.len() - 1]));
                lemma_key_before_transitive(order[i], order.last(), key);
            }
        }
        assert forall|x: Seq<char>| #[trigger] grown.contains(x) <==> (order.contains(x) || x
            == key) by {
            if grown.contains(x) {
                let i = choose|i: int| 0 <= i < grown.len() && grown[i] == x;
                if i < order.len() {
                    assert(order[i] == x);
                }
            }
            if order.contains(x) {
                let i = choose|i: int| 0 <= i < order.len() && order[i] == x;
                assert(grown[i] == x);
            }
            if x == key {
                assert(grown[order.len() as int] == key);
            }
        }
    } else {
        let front = order.drop_last();
        let top = order.last();
        assert(ascending(front)) by {
            assert forall|i: int, j: int| 0 <= i < j < front.len() implies key_before(
                #[trigger] front[i],
                #[trigger] front[j],
            ) by {
                assert(key_before(order[i], order[j]));
            }
        }
        assert(!front.contains(key)) by {
            if front.contains(key) {
                let i = choose|i: int| 0 <= i < front.len() && front[i] == key;
                assert(order[i] == key);
            }
        }
        lemma_with_key(front, key);
        let inner = with_key(front, key);
        assert(order[order.len() - 1] == top);
        assert(top != key);
        lemma_key_before_total(top, key);
        assert(key_before(key, top));
        assert forall|i: int, j: int| 0 <= i < j < grown.len() implies key_before(
            #[trigger] grown[i],
            #[trigger] grown[j],
        ) by {
            if j < inner.len() {
                assert(key_before(inner[i], inner[j]));
            } else {
                assert(inner.contains(inner[i]));
                if inner[i] != key {
                    assert(front.contains(inner[i]));
                    let k = choose|k: int| 0 <= k < front.len() && front[k] == inner[i];
                    assert(key_before(order[k], order[order.len() - 1]));
                }
            }
        }
        assert forall|x: Seq<char>| #[trigger] grown.contains(x) <==> (order.contains(x) || x
            == key) by {
            if grown.contains(x) {
                let i = choose|i: int| 0 <= i < grown.len() && grown[i] == x;
                if i < inner.len() {
                    assert(inner.contains(inner[i]));
                    if x != key {
                        assert(front.contains(x));
                        let k = choose|k: int| 0 <= k < front.len() && front[k] == x;
                        assert(order[k] == x);
                    }
                }
            }
            if order.contains(x) {
                let i = choose|i: int| 0 <= i < order.len() && order[i] == x;
                if i < front.len() {
                    assert(front[i] == x);
                    assert(front.contains(x));
                    assert(inner.contains(x));
                    let k = choose|k: int| 0 <= k < inner.len() && inner[k] == x;
                    assert(grown[k] == x);
                } else {
                    assert(grown[inner.len() as int] == x);
                }
            }
            if x == key {
                assert(inner.contains(key));
                let k = choose|k: int| 0 <= k < inner.len() && inner[k] == key;
                assert(grown[k] == key);
            }
        }
    }
}

/// Whether one of the first `n` entries holds a signed value under `key`.
spec fn signed_within(entries: Entries, key: Seq<char>, n: int) -> bool {
    exists|i: int| 0 <= i < n && (#[trigger] entries[i]).0 == key && is_scalar(entries[i].1)
}

/// The signed names among the first `n` entries can be listed in ascending
/// order.
proof fn lemma_order_of_prefix(entries: Entries, n: int) -> (order: Seq<Seq<char>>)
    requires
        distinct_keys(entries),
        0 <= n <= entries.len(),
    ensures
        ascending(order),
        forall|key: Seq<char>| #[trigger] order.contains(key) <==> signed_within(entries, key, n),
    decreases n,
{
    if n == 0 {
        let order = Seq::<Seq<char>>::empty();
        assert forall|key: Seq<char>| #[trigger]
            order.contains(key) <==> signed_within(entries, key, n) by {}
        order
    } else {
        let shorter = lemma_order_of_prefix(entries, n - 1);
        let entry = entries[n - 1];
        if is_scalar(entry.1) {
            assert(!shorter.contains(entry.0)) by {
                if shorter.contains(entry.0) {
                    assert(signed_within(entries, entry.0, n - 1));
                }
            }
            lemma_with_key(shorter, entry.0);
            let order = with_key(shorter, entry.0);
            assert forall|key: Seq<char>| #[trigger]
                order.contains(key) <==> signed_within(entries, key, n) by {
                if signed_within(entries, key, n) {
                    let i = choose|i: int|
                        0 <= i < n && (#[trigger] entries[i]).0 == key && is_scalar(entries[i].1);
                    if i < n - 1 {
                        assert(signed_within(entries, key, n - 1));
                    }
                }
                if shorter.contains(key) {
                    assert(signed_within(entries, key, n - 1));
                }
                if key == entry.0 {
                    assert(entries[n - 1].0 == key);
                }
            }
            order
        } else {
            assert forall|key: Seq<char>| #[trigger]
                shorter.contains(key) <==> signed_within(entries, key, n) by {
                if signed_within(entries, key, n) {
                    let i = choose|i: int|
                        0 <= i < n && (#[trigger] entries[i]).0 == key && is_scalar(entries[i].1);
                    assert(signed_within(entries, key, n - 1));
                }
                if shorter.contains(key) {
                    assert(signed_within(entries, key, n - 1));
                }
            }
            shorter
        }
    }
}

/// Every parameter set has an order in which it is signed: the names of its
/// signed entries, each once, ascending.
pub proof fn lemma_signing_order_exists(entries: Entries)
    requires
        distinct_keys(entries),
    ensures
        is_signing_order(signing_order(entries), entries),
{
    let order = lemma_order_of_prefix(entries, entries.len() as int);
    assert forall|key: Seq<char>| #[trigger]
        order.contains(key) <==> is_signed_key(entries, key) by {
        if signed_within(entries, key, entries.len() as int) {
            let i = choose|i: int|
                0 <= i < entries.len() && (#[trigger] entries[i]).0 == key && is_scalar(
                    entries[i].1,
                );
            lemma_index_of(entries, i);
        }
        if is_signed_key(entries, key) {
            let i = index_of(entries, key);
            assert(entries[i].0 == key);
        }
    }
    assert(is_signing_order(order, entries));
}

/// Whether two parameter sets hold the same signed entries: the same names,
/// with values that are written alike.
pub open spec fn same_signed_entries(a: Entries, b: Entries) -> bool {
    forall|key: Seq<char>|
        #![trigger is_signed_key(a, key)]
        #![trigger is_signed_key(b, key)]
        (is_signed_key(a, key) <==> is_signed_key(b, key)) && (is_signed_key(a, key)
            ==> scalar_text(a[index_of(a, key)].1) == scalar_text(b[index_of(b, key)].1))
}

/// The same names, with values written alike, give the same text.
proof fn lemma_joined_alike(secret: Seq<char>, order: Seq<Seq<char>>, a: Entries, b: Entries)
    requires
        same_signed_entries(a, b),
        forall|i: int| 0 <= i < order.len() ==> is_signed_key(a, #[trigger] order[i]),
    ensures
        joined(secret, order, a) == joined(secret, order, b),
    decreases order.len(),
{
    if order.len() > 0 {
        let front = order.drop_last();
        assert forall|i: int| 0 <= i < front.len() implies is_signed_key(
            a,
            #[trigger] front[i],
        ) by {
            assert(front[i] == order[i]);
        }
        lemma_joined_alike(secret, front, a, b);
        assert(is_signed_key(a, order[order.len() - 1]));
    }
}

/// Parameter sets that hold the same signed entries are signed alike.
pub proof fn lemma_signed_entries_decide(secret: Seq<char>, a: Entries, b: Entries)
    requires
        distinct_keys(a),
        distinct_keys(b),
        same_signed_entries(a, b),
    ensures
        signing_text(secret, a) == signing_text(secret, b),
        signature_text(secret, a) == signature_text(secret, b),
{
    lemma_signing_order_exists(a);
    let order = signing_order(a);
    assert(is_signing_order(order, b)) by {
        assert forall|key: Seq<char>| #[trigger]
            order.contains(key) <==> is_signed_key(b, key) by {
            assert(order.contains(key) <==> is_signed_key(a, key));
        }
    }
    lemma_signing_order_is(order, b);
    assert forall|i: int| 0 <= i < order.len() implies is_signed_key(a, #[trigger] order[i]) by {
        assert(order.contains(order[i]));
    }
    lemma_joined_alike(secret, order, a, b);
}

/// Determinism: two parameter sets that hold the same entries, in whatever
/// order they were inserted, have the same signature under the same
/// password.
pub proof fn lemma_signature_ignores_insertion_order(secret: Seq<char>, a: Entries, b: Entries)
    requires
        distinct_keys(a),
        distinct_keys(b),
        forall|entry: (Seq<char>, JsonModel)| a.contains(entry) <==> b.contains(entry),
    ensures
        signing_text(secret, a) == signing_text(secret, b),
        signature_text(secret, a) == signature_text(secret, b),
{
    assert forall|key: Seq<char>|
        #![trigger is_signed_key(a, key)]
        #![trigger is_signed_key(b, key)]
        (is_signed_key(a, key) <==> is_signed_key(b, key)) && (is_signed_key(a, key)
            ==> scalar_text(a[index_of(a, key)].1) == scalar_text(b[index_of(b, key)].1)) by {
        if has_key(a, key) {
            let i = index_of(a, key);
            assert(a.contains(a[i]));
            assert(b.contains(a[i]));
            let j = choose|j: int| 0 <= j < b.len() && b[j] == a[i];
            lemma_index_of(b, j);
        }
        if has_key(b, key) {
            let j = index_of(b, key);
            assert(b.contains(b[j]));
            assert(a.contains(b[j]));
            let i = choose|i: int| 0 <= i < a.len() && a[i] == b[j];
            lemma_index_of(a, i);
        }
    }
    lemma_signed_entries_decide(secret, a, b);
}

/// Scalar filtering: an entry that holds an array, an object or null has no
/// part in the signature; the parameters without it are signed alike.
pub proof fn lemma_unsigned_entry_ignored(secret: Seq<char>, entries: Entries, at: int)
    requires
        distinct_keys(entries),
        0 <= at < entries.len(),
        !is_scalar(entries[at].1),
    ensures
        signing_text(secret, entries.remove(at)) == signing_text(secret, entries),
        signature_text(secret, entries.remove(at)) == signature_text(secret, entries),
{
    let rest = entries.remove(at);
    assert(distinct_keys(rest)) by {
        assert forall|i: int, j: int| 0 <= i < rest.len() && 0 <= j < rest.len() && i
            != j implies #[trigger] rest[i].0 != #[trigger] rest[j].0 by {
            let i0 = if i < at { i } else { i + 1 };
            let j0 = if j < at { j } else { j + 1 };
            assert(rest[i] == entries[i0] && rest[j] == entries[j0]);
        }
    }
    assert forall|key: Seq<char>|
        #![trigger is_signed_key(rest, key)]
        #![trigger is_signed_key(entries, key)]
        (is_signed_key(rest, key) <==> is_signed_key(entries, key)) && (is_signed_key(rest, key)
            ==> scalar_text(rest[index_of(rest, key)].1) == scalar_text(
            entries[index_of(entries, key)].1,
        )) by {
        if has_key(rest, key) {
            let i = index_of(rest, key);
            let i0 = if i < at { i } else { i + 1 };
            assert(rest[i] == entries[i0]);
            lemma_index_of(entries, i0);
        }
        if has_key(entries, key) {
            let i0 = index_of(entries, key);
            if i0 != at {
                let i = if i0 < at { i0 } else { i0 - 1 };
                assert(rest[i] == entries[i0]);
                lemma_index_of(rest, i);
            } else {
                lemma_index_of(entries, at);
            }
        }
    }
    lemma_signed_entries_decide(secret, rest, entries);
}

/// Writes a signed value as it enters the text that is hashed; `None` for a
/// value that is not signed.
pub fn scalar_to_text(value: &JsonValue) -> (text: Option<String>)
    ensures
        text is Some == is_scalar(value@),
        text matches Some(t) ==> t@ == scalar_text(value@),
{
    match value {
        JsonValue::Bool(b) => {
            proof {
                reveal_strlit("true");
                reveal_strlit("false");
            }
            let text = if *b {
                String::from_str("true")
            } else {
                String::from_str("false")
            };
            assert(text@ =~= scalar_text(value@));
            Some(text)
        },
        JsonValue::Number(n) => Some(n.to_text()),
        JsonValue::String(s) => Some(s.clone()),
        _ => None,
    }
}

/// The names at the positions `order` of `entries`.
spec fn names_at(order: Seq<usize>, entries: Entries) -> Seq<Seq<char>> {
    Seq::new(order.len(), |p: int| entries[order[p] as int].0)
}

/// `entries` without the entry named `key`, if there is one.
pub open spec fn without_key(entries: Entries, key: Seq<char>) -> Entries {
    if has_key(entries, key) {
        entries.remove(index_of(entries, key))
    } else {
        entries
    }
}

/// `entries` without the entry at the position `skip`, where one is given.
spec fn kept(entries: Entries, skip: Option<usize>) -> Entries {
    match skip {
        Some(at) => entries.remove(at as int),
        None => entries,
    }
}

/// Where the entry at `j` stands once the entry at `skip` is taken out.
spec fn moved(j: int, skip: Option<usize>) -> int {
    match skip {
        Some(at) => if j > at {
            j - 1
        } else {
            j
        },
        None => j,
    }
}

/// Whether `order` holds the positions of the signed entries of `entries`
/// other than `skip`, each once, ascending by name.
spec fn is_position_order(order: Seq<usize>, entries: Entries, skip: Option<usize>) -> bool {
    &&& forall|p: int|
        0 <= p < order.len() ==> (#[trigger] order[p]) < entries.len() && Some(order[p]) != skip
            && is_scalar(entries[order[p] as int].1)
    &&& ascending(names_at(order, entries))
    &&& forall|j: int|
        0 <= j < entries.len() && Some(j as usize) != skip && is_scalar(
            #[trigger] entries[j].1,
        ) ==> order.contains(j as usize)
}

/// Positions in signing order name the signing order of the entries that
/// are kept, and each name is found there with the value it has.
proof fn lemma_position_order(order: Seq<usize>, entries: Entries, skip: Option<usize>)
    requires
        distinct_keys(entries),
        entries.len() <= usize::MAX,
        skip matches Some(at) ==> at < entries.len(),
        is_position_order(order, entries, skip),
    ensures
        distinct_keys(kept(entries, skip)),
        signing_order(kept(entries, skip)) == names_at(order, entries),
        forall|p: int|
            0 <= p < order.len() ==> kept(entries, skip)[index_of(
                kept(entries, skip),
                #[trigger] names_at(order, entries)[p],
            )].1 == entries[order[p] as int].1,
{
    let rest = kept(entries, skip);
    let names = names_at(order, entries);
    assert forall|i: int, j: int| 0 <= i < rest.len() && 0 <= j < rest.len() && i
        != j implies #[trigger] rest[i].0 != #[trigger] rest[j].0 by {
        match skip {
            Some(at) => {
                let i0 = if i < at { i } else { i + 1 };
                let j0 = if j < at { j } else { j + 1 };
                assert(rest[i] == entries[i0] && rest[j] == entries[j0]);
            },
            None => {},
        }
    }
    assert forall|p: int| 0 <= p < order.len() implies has_key(rest, #[trigger] names[p])
        && rest[index_of(rest, names[p])].1 == entries[order[p] as int].1 && is_signed_key(
        rest,
        names[p],
    ) by {
        let j = order[p] as int;
        assert(rest[moved(j, skip)] == entries[j]);
        lemma_index_of(rest, moved(j, skip));
    }
    assert forall|key: Seq<char>| #[trigger]
        names.contains(key) <==> is_signed_key(rest, key) by {
        if names.contains(key) {
            let p = choose|p: int| 0 <= p < names.len() && names[p] == key;
            assert(is_signed_key(rest, names[p]));
        }
        if is_signed_key(rest, key) {
            let i = index_of(rest, key);
            let j = match skip {
                Some(at) => if i < at {
                    i
                } else {
                    i + 1
                },
                None => i,
            };
            assert(rest[i] == entries[j]);
            assert(0 <= j < entries.len() && Some(j as usize) != skip);
            assert(is_scalar(entries[j].1));
            assert(order.contains(j as usize));
            let p = choose|p: int| 0 <= p < order.len() && order[p] == j as usize;
            assert(names[p] == key);
        }
    }
    lemma_signing_order_is(names, rest);
}

/// Whether a value is signed.
fn holds_scalar(value: &JsonValue) -> (scalar: bool)
    ensures
        scalar == is_scalar(value@),
{
    match value {
        JsonValue::Bool(_) => true,
        JsonValue::Number(_) => true,
        JsonValue::String(_) => true,
        _ => false,
    }
}

/// The positions of the signed entries of `object` other than `skip`, in
/// the order in which they are signed.
fn sorted_positions(object: &JsonObject, skip: Option<usize>) -> (order: Vec<usize>)
    ensures
        distinct_keys(object@),
        object@.len() <= usize::MAX,
        is_position_order(order@, object@, skip),
{
    let n = object.len();
    let mut order: Vec<usize> = Vec::new();
    let mut i: usize = 0;
    while i < n
        invariant
            i <= n,
            n == object@.len(),
            distinct_keys(object@),
            forall|p: int|
                0 <= p < order@.len() ==> (#[trigger] order@[p]) < i && Some(order@[p]) != skip
                    && is_scalar(object@[order@[p] as int].1),
            forall|p: int, q: int|
                0 <= p < q < order@.len() ==> key_before(
                    object@[(#[trigger] order@[p]) as int].0,
                    object@[(#[trigger] order@[q]) as int].0,
                ),
            forall|j: int|
                0 <= j < i && Some(j as usize) != skip && is_scalar(#[trigger] object@[j].1)
                    ==> order@.contains(j as usize),
        decreases n - i,
    {
        let skipped = match skip {
            Some(at) => at == i,
            None => false,
        };
        if !skipped && holds_scalar(object.value_at(i)) {
            let key = object.key_at(i);
            // Find the first position whose name is not signed before `key`.
            let mut at: usize = 0;
            while at < order.len() && matches!(
                compare_keys(object.key_at(order[at]), key),
                KeyOrder::Before
            )
                invariant
                    at <= order@.len(),
                    i < n,
                    n == object@.len(),
                    key@ == object@[i as int].0,
                    forall|p: int| 0 <= p < order@.len() ==> (#[trigger] order@[p]) < i,
                    forall|p: int|
                        0 <= p < at ==> key_before(
                            object@[(#[trigger] order@[p]) as int].0,
                            key@,
                        ),
                decreases order@.len() - at,
            {
                at = at + 1;
            }
            let ghost before = order@;
            proof {
                // Every name from `at` on is signed after `key`.
                assert forall|q: int| at <= q < before.len() implies key_before(
                    key@,
                    object@[(#[trigger] before[q]) as int].0,
                ) by {
                    let first = object@[before[at as int] as int].0;
                    assert(!key_before(first, key@));
                    assert(before[at as int] < i);
                    assert(first != key@);
                    lemma_key_before_total(first, key@);
                    if q > at {
                        lemma_key_before_transitive(key@, first, object@[before[q] as int].0);
                    }
                }
            }
            order.insert(at, i);
            proof {
                assert forall|p: int, q: int| 0 <= p < q < order@.len() implies key_before(
                    object@[(#[trigger] order@[p]) as int].0,
                    object@[(#[trigger] order@[q]) as int].0,
                ) by {
                    if q < at {
                        assert(order@[p] == before[p] && order@[q] == before[q]);
                    } else if q == at {
                        assert(order@[p] == before[p]);
                    } else if p < at {
                        assert(order@[p] == before[p] && order@[q] == before[q - 1]);
                    } else if p == at {
                        assert(order@[q] == before[q - 1]);
                    } else {
                        assert(order@[p] == before[p - 1] && order@[q] == before[q - 1]);
                    }
                }
                assert forall|p: int| 0 <= p < order@.len() implies (#[trigger] order@[p]) < i
                    + 1 && Some(order@[p]) != skip && is_scalar(object@[order@[p] as int].1) by {
                    if p < at {
                        assert(order@[p] == before[p]);
                    } else if p > at {
                        assert(order@[p] == before[p - 1]);
                    }
                }
                assert forall|j: int|
                    0 <= j < i + 1 && Some(j as usize) != skip && is_scalar(
                        #[trigger] object@[j].1,
                    ) implies order@.contains(j as usize) by {
                    if j == i {
                        assert(order@[at as int] == i);
                    } else {
                        assert(before.contains(j as usize));
                        let p = choose|p: int| 0 <= p < before.len() && before[p] == j as usize;
                        if p < at {
                            assert(order@[p] == before[p]);
                        } else {
                            assert(order@[p + 1] == before[p]);
                        }
                    }
                }
            }
        }
        i = i + 1;
    }
    assert(ascending(names_at(order@, object@)));
    order
}

/// The text that is hashed to sign the entries of `object` other than the
/// one at `skip`, under `password`.
fn signing_string_skipping(password: &str, object: &JsonObject, skip: Option<usize>) -> (text:
    String)
    requires
        skip matches Some(at) ==> at < object@.len(),
    ensures
        text@ == signing_text(password@, kept(object@, skip)),
{
    let order = sorted_positions(object, skip);
    proof {
        lemma_position_order(order@, object@, skip);
    }
    let ghost names = names_at(order@, object@);
    let ghost rest = kept(object@, skip);
    let mut text = String::from_str(password);
    let mut p: usize = 0;
    assert(names.take(0) =~= Seq::empty());
    while p < order.len()
        invariant
            p <= order@.len(),
            names == names_at(order@, object@),
            rest == kept(object@, skip),
            is_position_order(order@, object@, skip),
            forall|q: int|
                0 <= q < order@.len() ==> rest[index_of(rest, #[trigger] names[q])].1
                    == object@[order@[q] as int].1,
            text@ == joined(password@, names.take(p as int), rest),
        decreases order@.len() - p,
    {
        let at = order[p];
        proof {
            reveal_strlit("|");
            assert(names.take(p + 1).drop_last() =~= names.take(p as int));
            assert(names.take(p + 1).last() == names[p as int]);
        }
        text.append("|");
        match scalar_to_text(object.value_at(at)) {
            Some(value) => {
                text.append(value.as_str());
            },
            None => {},
        }
        p = p + 1;
    }
    assert(names.take(p as int) =~= names);
    text
}

/// The text that is hashed to sign the parameters `object` under
/// `password`.
pub fn object_signing_string(password: &str, object: &JsonObject) -> (text: String)
    ensures
        text@ == signing_text(password@, object@),
{
    signing_string_skipping(password, object, None)
}

/// The text that is hashed to sign the parameters `object` without the
/// entry named `key`, under `password`.
pub fn object_signing_string_without(password: &str, object: &JsonObject, key: &str) -> (text:
    String)
    ensures
        text@ == signing_text(password@, without_key(object@, key@)),
{
    let skip = object.position(key);
    signing_string_skipping(password, object, skip)
}

/// The text that is hashed to sign `json_data` under `password`.
///
/// Fails, with a `SignatureError`, exactly when `json_data` is no object.
pub fn signing_string(password: &str, json_data: &JsonValue) -> (result: Result<
    String,
    FondyError,
>)
    ensures
        match result {
            Ok(text) => json_data@ matches JsonModel::Object(entries) && text@ == signing_text(
                password@,
                entries,
            ),
            Err(error) => !(json_data@ is Object) && error@ == not_a_mapping(),
        },
{
    match json_data {
        JsonValue::Object(object) => Ok(object_signing_string(password, object)),
        _ => Err(FondyError::SignatureError(String::from_str("Json data must be dictionary"))),
    }
}

/// The signature that belongs to a text that was put together for signing;
/// `None` where the text is too long to be hashed.
pub fn sign_text(text: &str) -> (signature: Option<String>)
    ensures
        signature is Some == fits_sha1(text@),
        signature matches Some(s) ==> s@ == signature_of_text(text@) && s@.len() == 40,
{
    let bytes = text.as_bytes();
    if bytes.len() as u64 <= SHA1_MAX_MESSAGE_BYTES {
        let digest = sha1(bytes);
        Some(to_hex(digest.as_slice()))
    } else {
        None
    }
}

/// Signs a flat parameter set with the merchant's password.
///
/// Fails, with a `SignatureError`, where `json_data` is no object, and where
/// the text to be hashed is longer than SHA-1 takes.
pub fn calculate_signature(password: &str, json_data: &JsonValue) -> (result: Result<
    String,
    FondyError,
>)
    ensures
        match result {
            Ok(signature) => json_data@ matches JsonModel::Object(entries) && fits_sha1(
                signing_text(password@, entries),
            ) && signature@ == signature_text(password@, entries) && signature@.len() == 40,
            Err(error) => match json_data@ {
                JsonModel::Object(entries) => !fits_sha1(signing_text(password@, entries))
                    && error@ == text_too_long(),
                _ => error@ == not_a_mapping(),
            },
        },
{
    match signing_string(password, json_data) {
        Ok(text) => match sign_text(text.as_str()) {
            Some(signature) => Ok(signature),
            None => Err(FondyError::SignatureError(String::from_str("Signed text is too long"))),
        },
        Err(error) => Err(error),
    }
}

} // verus!
