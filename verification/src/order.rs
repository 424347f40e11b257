//! The order in which corpus files are read: by file name, byte by byte.

use vstd::prelude::*;
use vstd::string::*;
use vstd::utf8::encode_utf8;

verus! {

/// The UTF-8 bytes of a name.
pub open spec fn name_bytes(name: String) -> Seq<u8> {
    encode_utf8(name@)
}

/// Whether `a` comes no later than `b` in byte-wise lexicographic order.
pub open spec fn bytes_le(a: Seq<u8>, b: Seq<u8>) -> bool
    decreases a.len(),
{
    if a.len() == 0 {
        true
    } else if b.len() == 0 {
        false
    } else if a[0] < b[0] {
        true
    } else if a[0] > b[0] {
        false
    } else {
        bytes_le(a.drop_first(), b.drop_first())
    }
}

/// Of any two byte strings one comes no later than the other.
pub proof fn lemma_bytes_le_total(a: Seq<u8>, b: Seq<u8>)
    ensures
        bytes_le(a, b) || bytes_le(b, a),
    decreases a.len(),
{
    if a.len() > 0 && b.len() > 0 && a[0] == b[0] {
        lemma_bytes_le_total(a.drop_first(), b.drop_first());
    }
}

/// The byte-wise order is transitive.
pub proof fn lemma_bytes_le_transitive(a: Seq<u8>, b: Seq<u8>, c: Seq<u8>)
    requires
        bytes_le(a, b),
        bytes_le(b, c),
    ensures
        bytes_le(a, c),
    decreases a.len(),
{
    if a.len() > 0 && b.len() > 0 && c.len() > 0 && a[0] == b[0] && b[0] == c[0] {
        lemma_bytes_le_transitive(a.drop_first(), b.drop_first(), c.drop_first());
    }
}

/// Compares two byte strings in byte-wise lexicographic order.
pub fn bytes_no_later(a: &[u8], b: &[u8]) -> (r: bool)
    ensures
        r == bytes_le(a@, b@),
{
    let mut k: usize = 0;
    assert(a@.subrange(0, a@.len() as int) =~= a@);
    assert(b@.subrange(0, b@.len() as int) =~= b@);
    while k < a.len() && k < b.len() && a[k] == b[k]
        invariant
            k <= a@.len(),
            k <= b@.len(),
            bytes_le(a@, b@) == bytes_le(a@.subrange(k as int, a@.len() as int), b@.subrange(k as int, b@.len() as int)),
        decreases a@.len() - k,
    {
        let ghost rest_a = a@.subrange(k as int, a@.len() as int);
        let ghost rest_b = b@.subrange(k as int, b@.len() as int);
        proof {
            assert(rest_a.drop_first() =~= a@.subrange(k + 1, a@.len() as int));
            assert(rest_b.drop_first() =~= b@.subrange(k + 1, b@.len() as int));
        }
        k = k + 1;
    }
    if k == a.len() {
        true
    } else if k == b.len() {
        false
    } else {
        a[k] < b[k]
    }
}

/// The positions of `names` ordered by name, byte by byte.
pub fn name_order(names: &Vec<String>) -> (order: Vec<usize>)
    ensures
        order@.len() == names@.len(),
        order@.no_duplicates(),
        forall|i: int| 0 <= i < order@.len() ==> #[trigger] order@[i] < names@.len(),
        forall|i: int, j: int|
            0 <= i < j < order@.len() ==> bytes_le(
                name_bytes(names@[order@[i] as int]),
                name_bytes(names@[order@[j] as int]),
            ),
{
    let mut order: Vec<usize> = Vec::new();
    let mut n: usize = 0;
    while n < names.len()
        invariant
            n <= names@.len(),
            order@.len() == n,
            order@.no_duplicates(),
            forall|i: int| 0 <= i < order@.len() ==> #[trigger] order@[i] < n,
            forall|i: int, j: int|
                0 <= i < j < order@.len() ==> bytes_le(
                    name_bytes(names@[order@[i] as int]),
                    name_bytes(names@[order@[j] as int]),
                ),
        decreases names@.len() - n,
    {
        let key = names[n].as_str().as_bytes();
        let mut p: usize = n;
        while p > 0 && !bytes_no_later(names[order[p - 1]].as_str().as_bytes(), key)
            invariant
                p <= n,
                order@.len() == n,
                forall|i: int| 0 <= i < order@.len() ==> #[trigger] order@[i] < n,
                n < names@.len(),
                key@ == name_bytes(names@[n as int]),
                forall|i: int| p <= i < n ==> !bytes_le(
                    name_bytes(names@[#[trigger] order@[i] as int]),
                    key@,
                ),
            decreases p,
        {
            p = p - 1;
        }
        let ghost before = order@;
        proof {
            assert forall|i: int| p <= i < n implies bytes_le(key@, name_bytes(names@[#[trigger] order@[i] as int])) by {
                lemma_bytes_le_total(key@, name_bytes(names@[order@[i] as int]));
            }
            if p > 0 {
                assert(bytes_le(name_bytes(names@[order@[p - 1] as int]), key@));
                assert forall|i: int| 0 <= i < p implies bytes_le(
                    name_bytes(names@[#[trigger] order@[i] as int]),
                    key@,
                ) by {
                    if i < p - 1 {
                        lemma_bytes_le_transitive(
                            name_bytes(names@[order@[i] as int]),
                            name_bytes(names@[order@[p - 1] as int]),
                            key@,
                        );
                    }
                }
            }
        }
        order.insert(p, n);
        proof {
            assert forall|i: int| 0 <= i < order@.len() implies #[trigger] order@[i] < n + 1 by {
                if i < p {
                    assert(order@[i] == before[i]);
                } else if i > p {
                    assert(order@[i] == before[i - 1]);
                }
            }
            assert(order@.no_duplicates()) by {
                assert forall|a: int, b: int| 0 <= a < order@.len() && 0 <= b < order@.len() && a != b implies order@[a]
                    != order@[b] by {
                    if a != p && b != p {
                        let a0 = if a < p { a } else { a - 1 };
                        let b0 = if b < p { b } else { b - 1 };
                        assert(order@[a] == before[a0]);
                        assert(order@[b] == before[b0]);
                    } else if a == p {
                        let b0 = if b < p { b } else { b - 1 };
                        assert(order@[b] == before[b0]);
                    } else {
                        let a0 = if a < p { a } else { a - 1 };
                        assert(order@[a] == before[a0]);
                    }
                }
            }
            assert forall|i: int, j: int| 0 <= i < j < order@.len() implies bytes_le(
                name_bytes(names@[order@[i] as int]),
                name_bytes(names@[order@[j] as int]),
            ) by {
                let i0 = if i < p { i } else { i - 1 };
                let j0 = if j < p { j } else { j - 1 };
                if i != p && j != p {
                    assert(order@[i] == before[i0]);
                    assert(order@[j] == before[j0]);
                } else if i == p {
                    assert(order@[j] == before[j0]);
                } else {
                    assert(order@[i] == before[i0]);
                }
            }
        }
        n = n + 1;
    }
    order
}

} // verus!
