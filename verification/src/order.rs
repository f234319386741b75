//! The two total orders on byte strings by which records are kept: plain
//! lexicographic order, and length first with lexicographic order among keys
//! of one length.

use vstd::prelude::*;

verus! {

/// How the keys of a table are ordered.
#[derive(Clone, Copy, Debug, PartialEq, Eq, Structural)]
pub enum KeyOrder {
    /// Byte by byte; a proper prefix comes first.
    Lexicographic,
    /// Shorter keys first; keys of one length byte by byte.
    LengthFirst,
}

/// How one key stands to another.
#[derive(Clone, Copy, Debug, PartialEq, Eq, Structural)]
pub enum KeyRelation {
    Less,
    Equal,
    Greater,
}

/// `a` and `b` agree on their first `k` bytes, and there `a` ends while `b`
/// goes on, or `a` has the smaller byte.
pub open spec fn parts_at(a: Seq<u8>, b: Seq<u8>, k: int) -> bool {
    &&& 0 <= k <= a.len()
    &&& k < b.len()
    &&& forall|j: int| 0 <= j < k ==> a[j] == b[j]
    &&& k < a.len() ==> a[k] < b[k]
}

/// `a` comes before `b` in lexicographic order.
pub open spec fn lex_lt(a: Seq<u8>, b: Seq<u8>) -> bool {
    exists|k: int| parts_at(a, b, k)
}

/// `a` comes before `b` in the given order.
pub open spec fn key_lt(order: KeyOrder, a: Seq<u8>, b: Seq<u8>) -> bool {
    match order {
        KeyOrder::Lexicographic => lex_lt(a, b),
        KeyOrder::LengthFirst => a.len() < b.len() || (a.len() == b.len() && lex_lt(a, b)),
    }
}

/// Every key comes before all keys behind it.
pub open spec fn ascending(order: KeyOrder, keys: Seq<Seq<u8>>) -> bool {
    forall|i: int, j: int| 0 <= i < j < keys.len() ==> key_lt(order, keys[i], keys[j])
}

/// How many of `keys` come before `key`.
pub open spec fn count_below(order: KeyOrder, keys: Seq<Seq<u8>>, key: Seq<u8>) -> int
    decreases keys.len(),
{
    if keys.len() == 0 {
        0
    } else {
        count_below(order, keys.drop_last(), key) + if key_lt(order, keys.last(), key) {
            1int
        } else {
            0int
        }
    }
}

/// No key comes before itself.
pub proof fn lemma_key_lt_irreflexive(order: KeyOrder, a: Seq<u8>)
    ensures
        !key_lt(order, a, a),
{
}

/// Of two keys at most one comes before the other.
pub proof fn lemma_key_lt_asymmetric(order: KeyOrder, a: Seq<u8>, b: Seq<u8>)
    requires
        key_lt(order, a, b),
    ensures
        !key_lt(order, b, a),
{
    if lex_lt(a, b) && lex_lt(b, a) {
        let k1 = choose|k: int| parts_at(a, b, k);
        let k2 = choose|k: int| parts_at(b, a, k);
        if k1 < k2 {
            assert(b[k1] == a[k1]);
        } else if k2 < k1 {
            assert(a[k2] == b[k2]);
        }
        assert(false);
    }
}

/// Coming before is transitive.
pub proof fn lemma_key_lt_transitive(order: KeyOrder, a: Seq<u8>, b: Seq<u8>, c: Seq<u8>)
    requires
        key_lt(order, a, b),
        key_lt(order, b, c),
    ensures
        key_lt(order, a, c),
{
    if lex_lt(a, b) && lex_lt(b, c) {
        let k1 = choose|k: int| parts_at(a, b, k);
        let k2 = choose|k: int| parts_at(b, c, k);
        let k = if k1 <= k2 {
            k1
        } else {
            k2
        };
        assert forall|j: int| 0 <= j < k implies a[j] == c[j] by {
            assert(a[j] == b[j]);
            assert(b[j] == c[j]);
        }
        if k1 < k2 {
            assert(b[k1] == c[k1]);
        } else if k2 < k1 {
            assert(a[k2] == b[k2]);
        }
        assert(parts_at(a, c, k));
    }
}

/// Of two different keys one comes before the other.
pub proof fn lemma_key_lt_total(order: KeyOrder, a: Seq<u8>, b: Seq<u8>)
    ensures
        a == b || key_lt(order, a, b) || key_lt(order, b, a),
{
    if a.len() == b.len() || order == KeyOrder::Lexicographic {
        lemma_first_difference(a, b, 0);
    }
}

/// Two keys that agree on their first `from` bytes are equal or one comes
/// lexicographically before the other.
proof fn lemma_first_difference(a: Seq<u8>, b: Seq<u8>, from: int)
    requires
        0 <= from <= a.len(),
        from <= b.len(),
        forall|j: int| 0 <= j < from ==> a[j] == b[j],
    ensures
        a == b || lex_lt(a, b) || lex_lt(b, a),
    decreases a.len() - from,
{
    if from == a.len() {
        if from == b.len() {
            assert(a =~= b);
        } else {
            assert(parts_at(a, b, from));
        }
    } else if from == b.len() {
        assert(parts_at(b, a, from));
    } else if a[from] < b[from] {
        assert(parts_at(a, b, from));
    } else if b[from] < a[from] {
        assert(parts_at(b, a, from));
    } else {
        lemma_first_difference(a, b, from + 1);
    }
}

/// In an ascending sequence the keys before position `at` are exactly those
/// that come before a key which fits at `at`.
pub proof fn lemma_count_below_at(order: KeyOrder, keys: Seq<Seq<u8>>, key: Seq<u8>, at: int)
    requires
        0 <= at <= keys.len(),
        forall|j: int| 0 <= j < at ==> key_lt(order, keys[j], key),
        forall|j: int| at <= j < keys.len() ==> !key_lt(order, keys[j], key),
    ensures
        count_below(order, keys, key) == at,
    decreases keys.len(),
{
    if keys.len() > 0 {
        let front = keys.drop_last();
        if at == keys.len() {
            lemma_count_below_at(order, front, key, at - 1);
        } else {
            lemma_count_below_at(order, front, key, at);
        }
    }
}

/// Compares two keys lexicographically.
pub fn compare_lex(a: &[u8], b: &[u8]) -> (relation: KeyRelation)
    ensures
        relation == KeyRelation::Less <==> lex_lt(a@, b@),
        relation == KeyRelation::Equal <==> a@ == b@,
        relation == KeyRelation::Greater <==> lex_lt(b@, a@),
{
    let mut i: usize = 0;
    while i < a.len() && i < b.len()
        invariant
            i <= a.len(),
            i <= b.len(),
            forall|j: int| 0 <= j < i ==> a@[j] == b@[j],
        decreases a.len() - i,
    {
        if a[i] < b[i] {
            proof {
                assert(parts_at(a@, b@, i as int));
                lemma_key_lt_asymmetric(KeyOrder::Lexicographic, a@, b@);
            }
            return KeyRelation::Less;
        }
        if a[i] > b[i] {
            proof {
                assert(parts_at(b@, a@, i as int));
                lemma_key_lt_asymmetric(KeyOrder::Lexicographic, b@, a@);
            }
            return KeyRelation::Greater;
        }
        i = i + 1;
    }
    if a.len() < b.len() {
        proof {
            assert(parts_at(a@, b@, i as int));
            lemma_key_lt_asymmetric(KeyOrder::Lexicographic, a@, b@);
        }
        KeyRelation::Less
    } else if a.len() > b.len() {
        proof {
            assert(parts_at(b@, a@, i as int));
            lemma_key_lt_asymmetric(KeyOrder::Lexicographic, b@, a@);
        }
        KeyRelation::Greater
    } else {
        proof {
            assert(a@ =~= b@);
            lemma_key_lt_irreflexive(KeyOrder::Lexicographic, a@);
        }
        KeyRelation::Equal
    }
}

/// Compares two keys in the given order.
pub fn compare_keys(order: KeyOrder, a: &[u8], b: &[u8]) -> (relation: KeyRelation)
    ensures
        relation == KeyRelation::Less <==> key_lt(order, a@, b@),
        relation == KeyRelation::Equal <==> a@ == b@,
        relation == KeyRelation::Greater <==> key_lt(order, b@, a@),
{
    match order {
        KeyOrder::Lexicographic => compare_lex(a, b),
        KeyOrder::LengthFirst => {
            if a.len() < b.len() {
                KeyRelation::Less
            } else if a.len() > b.len() {
                KeyRelation::Greater
            } else {
                compare_lex(a, b)
            }
        },
    }
}

} // verus!
