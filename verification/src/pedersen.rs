//! What the generator-based schemes share: the capacity of an instance, the
//! layout of the committed vector, and the comparison of commitments.

use crate::field::FieldElement;
use vstd::prelude::*;

verus! {

/// The largest capacity exponent an instance can be set up with.
pub const MAX_LOG2_CAPACITY: u32 = 12;

/// The capacity exponent of the instances that the factory sets up.
pub const DEFAULT_LOG2_CAPACITY: u32 = 6;

/// 2 to the power `k`.
pub open spec fn two_to(k: nat) -> nat
    decreases k,
{
    if k == 0 {
        1
    } else {
        2 * two_to((k - 1) as nat)
    }
}

/// Powers of two grow with the exponent.
pub proof fn lemma_two_to_monotonic(a: nat, b: nat)
    requires
        a <= b,
    ensures
        1 <= two_to(a) <= two_to(b),
    decreases b,
{
    if b == 0 {
    } else if a == b {
        lemma_two_to_monotonic(0, (b - 1) as nat);
    } else {
        lemma_two_to_monotonic(a, (b - 1) as nat);
    }
}

/// 2^12 is 4096.
pub proof fn lemma_two_to_max()
    ensures
        two_to(MAX_LOG2_CAPACITY as nat) == 4096,
{
    reveal_with_fuel(two_to, 13);
}

/// The number of generators of an instance with capacity exponent `k`.
pub(crate) fn capacity_of(k: u32) -> (n: usize)
    requires
        k <= MAX_LOG2_CAPACITY,
    ensures
        n == two_to(k as nat),
        1 <= n <= 4096,
{
    let mut n: usize = 1;
    let mut i: u32 = 0;
    while i < k
        invariant
            i <= k,
            k <= MAX_LOG2_CAPACITY,
            n == two_to(i as nat),
            1 <= n <= 4096,
        decreases k - i,
    {
        proof {
            lemma_two_to_monotonic((i + 1) as nat, MAX_LOG2_CAPACITY as nat);
            lemma_two_to_max();
        }
        n = n * 2;
        i = i + 1;
    }
    n
}

/// Every member of `values` is smaller than `bound`.
pub open spec fn all_below(values: Seq<nat>, bound: nat) -> bool {
    forall|i: int| 0 <= i < values.len() ==> values[i] < bound
}

/// Whether every element of `values` is smaller than `bound`.
pub fn check_all_below(values: &Vec<FieldElement>, bound: &FieldElement) -> (ok: bool)
    ensures
        ok == all_below(values.deep_view(), bound.value()),
{
    let mut ok = true;
    let mut i: usize = 0;
    while i < values.len()
        invariant
            i <= values.len(),
            ok == all_below(values.deep_view().take(i as int), bound.value()),
        decreases values.len() - i,
    {
        let below = values[i].is_below(bound);
        proof {
            let all = values.deep_view();
            let before = all.take(i as int);
            let after = all.take(i + 1);
            assert(after[i as int] == values[i as int].value());
            assert forall|j: int| 0 <= j < before.len() implies before[j] == after[j] by {}
            if ok && below {
                assert forall|j: int| 0 <= j < after.len() implies after[j] < bound.value() by {
                    if j < i {
                        assert(before[j] < bound.value());
                    }
                }
            } else if !ok {
                let j = choose|j: int| 0 <= j < before.len() && !(before[j] < bound.value());
                assert(!(after[j] < bound.value()));
            }
        }
        ok = ok && below;
        i = i + 1;
    }
    proof {
        assert(values.deep_view().take(values.len() as int) =~= values.deep_view());
    }
    ok
}

/// The vector that is committed to for `value`: its length, its members in
/// order, then zeros up to `size`.
///
/// The length in front keeps a value apart from the same value with zeros
/// appended.
pub open spec fn padded(value: Seq<nat>, size: nat) -> Seq<nat> {
    Seq::new(
        size,
        |i: int|
            if i == 0 {
                value.len()
            } else if i <= value.len() {
                value[i - 1]
            } else {
                0
            },
    )
}

/// What a generator-based scheme commits to for a value: the padded vector,
/// where the value fits the capacity and value and randomness are scalars.
pub open spec fn committed_vector(value: Seq<nat>, randomness: nat, k: nat, order: nat) -> Option<
    Seq<nat>,
> {
    if value.len() < two_to(k) && all_below(value, order) && randomness < order {
        Some(padded(value, two_to(k)))
    } else {
        None
    }
}

/// The padded vector of a value of scalars is a vector of scalars.
pub proof fn lemma_padded_below(value: Seq<nat>, size: nat, bound: nat)
    requires
        all_below(value, bound),
        value.len() < bound,
    ensures
        all_below(padded(value, size), bound),
{
    assert forall|i: int| 0 <= i < padded(value, size).len() implies padded(value, size)[i]
        < bound by {
        if 0 < i && i <= value.len() {
            assert(value[i - 1] < bound);
        }
    }
}

/// Two values with the same padded vector are the same value.
pub proof fn lemma_padded_injective(a: Seq<nat>, b: Seq<nat>, size: nat)
    requires
        a.len() < size,
        b.len() < size,
        padded(a, size) == padded(b, size),
    ensures
        a == b,
{
    assert(padded(a, size)[0] == a.len());
    assert(padded(b, size)[0] == b.len());
    assert forall|i: int| 0 <= i < a.len() implies a[i] == b[i] by {
        assert(padded(a, size)[i + 1] == a[i]);
        assert(padded(b, size)[i + 1] == b[i]);
    }
    assert(a =~= b);
}

/// Values that are committed to as the same vector are the same value,
/// whatever the randomness.
pub proof fn lemma_committed_vector_injective(
    a: Seq<nat>,
    randomness_a: nat,
    b: Seq<nat>,
    randomness_b: nat,
    k: nat,
    order: nat,
)
    requires
        committed_vector(a, randomness_a, k, order) is Some,
        committed_vector(a, randomness_a, k, order) == committed_vector(b, randomness_b, k, order),
    ensures
        a == b,
{
    lemma_padded_injective(a, b, two_to(k));
}

/// Lays `values` out as the vector that is committed to.
pub(crate) fn pad_values(values: &Vec<FieldElement>, size: usize) -> (p: Vec<FieldElement>)
    requires
        values.len() < size,
    ensures
        p.len() == size,
        p.deep_view() == padded(values.deep_view(), size as nat),
{
    let mut p: Vec<FieldElement> = Vec::new();
    p.push(FieldElement::from_u64(values.len() as u64));
    let mut i: usize = 0;
    while i < values.len()
        invariant
            i <= values.len(),
            values.len() < size,
            p.len() == i + 1,
            p[0].value() == values.len(),
            forall|j: int| 0 <= j < i ==> p[j + 1] == values[j],
        decreases values.len() - i,
    {
        p.push(values[i]);
        i = i + 1;
    }
    while p.len() < size
        invariant
            values.len() < p.len() <= size,
            p[0].value() == values.len(),
            forall|j: int| 0 <= j < values.len() ==> p[j + 1] == values[j],
            forall|j: int| values.len() < j < p.len() ==> p[j].value() == 0,
        decreases size - p.len(),
    {
        p.push(FieldElement::zero());
    }
    proof {
        let want = padded(values.deep_view(), size as nat);
        let have = p.deep_view();
        assert forall|j: int| 0 <= j < size implies have[j] == want[j] by {
            if 0 < j && j <= values.len() {
                assert(p[(j - 1) + 1] == values[j - 1]);
            }
        }
        assert(have =~= want);
    }
    p
}

/// Whether two byte strings are the same, read to the end whatever is found
/// on the way.
pub fn bytes_equal(a: &Vec<u8>, b: &Vec<u8>) -> (same: bool)
    ensures
        same == (a@ == b@),
{
    if a.len() != b.len() {
        return false;
    }
    let mut differing: u8 = 0;
    let mut i: usize = 0;
    proof {
        assert(a@.take(0) =~= b@.take(0));
    }
    while i < a.len()
        invariant
            i <= a.len(),
            a.len() == b.len(),
            (differing == 0) == (a@.take(i as int) == b@.take(i as int)),
        decreases a.len() - i,
    {
        let x = a[i] ^ b[i];
        proof {
            let p = a[i as int];
            let q = b[i as int];
            assert((p ^ q == 0) == (p == q)) by (bit_vector);
            assert((differing | x == 0) == (differing == 0 && x == 0)) by (bit_vector);
            let a0 = a@.take(i as int);
            let b0 = b@.take(i as int);
            let a1 = a@.take(i + 1);
            let b1 = b@.take(i + 1);
            assert(a1 =~= a0.push(p));
            assert(b1 =~= b0.push(q));
            if a1 == b1 {
                assert(a1.drop_last() =~= a0);
                assert(b1.drop_last() =~= b0);
                assert(a1.last() == p);
                assert(b1.last() == q);
            }
        }
        differing = differing | x;
        i = i + 1;
    }
    proof {
        assert(a@.take(a.len() as int) =~= a@);
        assert(b@.take(b.len() as int) =~= b@);
    }
    differing == 0
}

/// A copy of a byte string.
pub fn copy_bytes(source: &Vec<u8>) -> (copy: Vec<u8>)
    ensures
        copy@ == source@,
{
    let mut copy: Vec<u8> = Vec::new();
    let mut i: usize = 0;
    while i < source.len()
        invariant
            i <= source.len(),
            copy@ == source@.take(i as int),
        decreases source.len() - i,
    {
        copy.push(source[i]);
        proof {
            assert(source@.take(i + 1) =~= source@.take(i as int).push(source[i as int]));
        }
        i = i + 1;
    }
    proof {
        assert(source@.take(source.len() as int) =~= source@);
    }
    copy
}

/// A copy of a table of byte strings.
pub fn copy_table(source: &Vec<Vec<u8>>) -> (copy: Vec<Vec<u8>>)
    ensures
        copy.deep_view() == source.deep_view(),
{
    let mut copy: Vec<Vec<u8>> = Vec::new();
    let mut i: usize = 0;
    while i < source.len()
        invariant
            i <= source.len(),
            copy.len() == i,
            forall|j: int| 0 <= j < i ==> copy[j]@ == source[j]@,
        decreases source.len() - i,
    {
        copy.push(copy_bytes(&source[i]));
        i = i + 1;
    }
    proof {
        assert forall|j: int| 0 <= j < source.len() implies copy.deep_view()[j]
            == source.deep_view()[j] by {
            lemma_bytes_deep_view(copy[j]);
            lemma_bytes_deep_view(source[j]);
        }
        assert(copy.deep_view() =~= source.deep_view());
    }
    copy
}

/// The deep view of a byte string is the string.
pub proof fn lemma_bytes_deep_view(bytes: Vec<u8>)
    ensures
        bytes.deep_view() == bytes@,
{
    assert(bytes.deep_view() =~= bytes@);
}

} // verus!
