//! Byte strings and their lexicographic order.
//!
//! Public keys and commitments reach the accumulator as raw bytes. Maps keyed
//! by them need equality, and the per-signer map also needs the order that a
//! sorted map of byte strings iterates in.

use vstd::prelude::*;

verus! {

/// `a` sorts strictly before `b`: at the first position where they differ `a`
/// holds the smaller byte, or `a` ends there and `b` goes on.
pub open spec fn lex_less(a: Seq<u8>, b: Seq<u8>) -> bool {
    exists|i: int| #[trigger] diverges_below(a, b, i)
}

/// `a` and `b` agree on their first `i` bytes, and at position `i` either `a`
/// has ended while `b` has not, or `a` holds the smaller byte.
pub open spec fn diverges_below(a: Seq<u8>, b: Seq<u8>, i: int) -> bool {
    &&& 0 <= i <= a.len()
    &&& i < b.len()
    &&& forall|j: int| 0 <= j < i ==> a[j] == b[j]
    &&& i < a.len() ==> a[i] < b[i]
}

/// How two byte strings stand to each other.
#[derive(Clone, Copy, Debug, PartialEq, Eq, Structural)]
pub enum ByteOrder {
    /// The first sorts before the second.
    Before,
    /// Both hold the same bytes.
    Same,
    /// The first sorts after the second.
    After,
}

/// No byte string sorts before itself.
pub proof fn lemma_lex_irreflexive(a: Seq<u8>)
    ensures
        !lex_less(a, a),
{
    if lex_less(a, a) {
        let i = choose|i: int| #[trigger] diverges_below(a, a, i);
        assert(diverges_below(a, a, i));
    }
}

/// Two byte strings never sort before each other.
pub proof fn lemma_lex_asymmetric(a: Seq<u8>, b: Seq<u8>)
    requires
        lex_less(a, b),
    ensures
        !lex_less(b, a),
{
    if lex_less(b, a) {
        let i = choose|i: int| #[trigger] diverges_below(a, b, i);
        let j = choose|j: int| #[trigger] diverges_below(b, a, j);
        assert(diverges_below(a, b, i));
        assert(diverges_below(b, a, j));
        if i < j {
            assert(b[i] == a[i]);
        } else if j < i {
            assert(a[j] == b[j]);
        }
    }
}

/// The order is transitive.
pub proof fn lemma_lex_transitive(a: Seq<u8>, b: Seq<u8>, c: Seq<u8>)
    requires
        lex_less(a, b),
        lex_less(b, c),
    ensures
        lex_less(a, c),
{
    let i = choose|i: int| #[trigger] diverges_below(a, b, i);
    let j = choose|j: int| #[trigger] diverges_below(b, c, j);
    assert(diverges_below(a, b, i));
    assert(diverges_below(b, c, j));
    let m = if i <= j { i } else { j };
    assert forall|k: int| 0 <= k < m implies a[k] == c[k] by {
        assert(a[k] == b[k]);
        assert(b[k] == c[k]);
    }
    if i < j {
        assert(b[i] == c[i]);
    }
    assert(diverges_below(a, c, m));
}

/// Any two byte strings are equal or one sorts before the other.
pub proof fn lemma_lex_total(a: Seq<u8>, b: Seq<u8>)
    ensures
        lex_less(a, b) || a == b || lex_less(b, a),
{
    lemma_lex_total_from(a, b, 0);
}

proof fn lemma_lex_total_from(a: Seq<u8>, b: Seq<u8>, i: int)
    requires
        0 <= i <= a.len(),
        i <= b.len(),
        forall|j: int| 0 <= j < i ==> a[j] == b[j],
    ensures
        lex_less(a, b) || a == b || lex_less(b, a),
    decreases a.len() - i,
{
    if i == a.len() {
        if i == b.len() {
            assert(a =~= b);
        } else {
            assert(diverges_below(a, b, i));
        }
    } else if i == b.len() {
        assert(diverges_below(b, a, i));
    } else if a[i] < b[i] {
        assert(diverges_below(a, b, i));
    } else if b[i] < a[i] {
        assert(diverges_below(b, a, i));
    } else {
        lemma_lex_total_from(a, b, i + 1);
    }
}

/// Whether `a` and `b` hold the same bytes.
pub fn bytes_equal(a: &[u8], b: &[u8]) -> (same: bool)
    ensures
        same <==> a@ == b@,
{
    if a.len() != b.len() {
        return false;
    }
    let mut i: usize = 0;
    while i < a.len()
        invariant
            a@.len() == b@.len(),
            i <= a@.len(),
            forall|j: int| 0 <= j < i ==> a@[j] == b@[j],
        decreases a@.len() - i,
    {
        if a[i] != b[i] {
            return false;
        }
        i += 1;
    }
    assert(a@ =~= b@);
    true
}

/// Compares `a` with `b` in lexicographic order.
pub fn compare_bytes(a: &[u8], b: &[u8]) -> (order: ByteOrder)
    ensures
        order == ByteOrder::Before <==> lex_less(a@, b@),
        order == ByteOrder::Same <==> a@ == b@,
        order == ByteOrder::After <==> lex_less(b@, a@),
{
    let mut i: usize = 0;
    while i < a.len() && i < b.len()
        invariant
            i <= a@.len(),
            i <= b@.len(),
            forall|j: int| 0 <= j < i ==> a@[j] == b@[j],
        decreases a@.len() - i,
    {
        if a[i] < b[i] {
            proof {
                assert(diverges_below(a@, b@, i as int));
                lemma_lex_asymmetric(a@, b@);
                lemma_lex_irreflexive(a@);
            }
            return ByteOrder::Before;
        }
        if b[i] < a[i] {
            proof {
                assert(diverges_below(b@, a@, i as int));
                lemma_lex_asymmetric(b@, a@);
                lemma_lex_irreflexive(a@);
            }
            return ByteOrder::After;
        }
        i += 1;
    }
    if i < b.len() {
        proof {
            assert(diverges_below(a@, b@, i as int));
            lemma_lex_asymmetric(a@, b@);
            lemma_lex_irreflexive(a@);
        }
        ByteOrder::Before
    } else if i < a.len() {
        proof {
            assert(diverges_below(b@, a@, i as int));
            lemma_lex_asymmetric(b@, a@);
            lemma_lex_irreflexive(a@);
        }
        ByteOrder::After
    } else {
        proof {
            assert(a@ =~= b@);
            lemma_lex_irreflexive(a@);
        }
        ByteOrder::Same
    }
}

} // verus!
