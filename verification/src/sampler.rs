//! Deterministic sub-samples of a sequence: skip a prefix, then keep every
//! `stride`-th element of what remains.

use vstd::prelude::*;

verus! {

/// How many elements a sample holds: one for each full stride that fits into
/// what remains after the first `start - 1` elements.
pub open spec fn sample_len(len: nat, start: nat, stride: nat) -> nat
    recommends
        start >= 1,
        stride >= 1,
{
    if start - 1 >= len {
        0
    } else {
        ((len - (start - 1)) / (stride as int)) as nat
    }
}

/// The position in the input of the `k`-th element of a sample: the last
/// element of the `k`-th stride after the skipped prefix.
pub open spec fn sample_position(k: int, start: nat, stride: nat) -> int {
    (start - 1) + (k + 1) * stride - 1
}

/// The sample of `values` taken from the 1-based position `start` with the
/// given stride.
pub open spec fn sampled<T>(values: Seq<T>, start: nat, stride: nat) -> Seq<T>
    recommends
        start >= 1,
        stride >= 1,
{
    Seq::new(
        sample_len(values.len(), start, stride),
        |k: int| values[sample_position(k, start, stride)],
    )
}

/// Every position of a sample lies inside the input.
pub proof fn lemma_sample_position_in_range(len: nat, start: nat, stride: nat, k: int)
    requires
        start >= 1,
        stride >= 1,
        0 <= k < sample_len(len, start, stride),
    ensures
        start - 1 <= sample_position(k, start, stride) < len,
{
    let rest = len - (start - 1);
    let count = rest / (stride as int);
    assert(count * stride <= rest) by (nonlinear_arith)
        requires
            count == rest / (stride as int),
            stride >= 1,
            rest >= 0,
    ;
    assert((k + 1) * stride <= count * stride) by (nonlinear_arith)
        requires
            0 <= k + 1 <= count,
            stride >= 1,
    ;
    assert((k + 1) * stride >= 1) by (nonlinear_arith)
        requires
            k + 1 >= 1,
            stride >= 1,
    ;
}

/// The element at `index` of an input of length `len` is one that the sample
/// keeps: it lies after the skipped prefix and, counted from the end of that
/// prefix, its index leaves the remainder `stride - 1`.
pub open spec fn is_kept(index: int, len: nat, start: nat, stride: nat) -> bool {
    &&& start - 1 <= index < len
    &&& (index - (start - 1)) % (stride as int) == stride - 1
}

/// Every position of a sample is that of an element that the sample keeps.
pub proof fn lemma_sample_position_is_kept(len: nat, start: nat, stride: nat, k: int)
    requires
        start >= 1,
        stride >= 1,
        0 <= k < sample_len(len, start, stride),
    ensures
        is_kept(sample_position(k, start, stride), len, start, stride),
{
    lemma_sample_position_in_range(len, start, stride, k);
    let offset = sample_position(k, start, stride) - (start - 1);
    assert(offset == k * stride + (stride - 1)) by (nonlinear_arith)
        requires
            offset == (k + 1) * stride - 1,
    ;
    vstd::arithmetic::div_mod::lemma_fundamental_div_mod_converse(
        offset,
        stride as int,
        k,
        stride - 1,
    );
}

/// Every element that the sample keeps stands at a position of the sample:
/// the sample leaves none of them out.
pub proof fn lemma_kept_is_sample_position(len: nat, start: nat, stride: nat, index: int)
    requires
        start >= 1,
        stride >= 1,
        is_kept(index, len, start, stride),
    ensures
        ({
            let k = (index - (start - 1)) / (stride as int);
            &&& 0 <= k < sample_len(len, start, stride)
            &&& sample_position(k, start, stride) == index
        }),
{
    let offset = index - (start - 1);
    let rest = len - (start - 1);
    let k = offset / (stride as int);
    vstd::arithmetic::div_mod::lemma_fundamental_div_mod(offset, stride as int);
    assert(offset == k * stride + (stride - 1)) by (nonlinear_arith)
        requires
            offset == stride * k + (stride - 1),
    ;
    assert((k + 1) * stride == k * stride + stride) by (nonlinear_arith);
    assert(k >= 0) by (nonlinear_arith)
        requires
            offset >= 0,
            stride >= 1,
            k == offset / (stride as int),
    ;
    assert(k + 1 <= rest / (stride as int)) by (nonlinear_arith)
        requires
            (k + 1) * stride <= rest,
            stride >= 1,
    ;
}

/// Takes the sample of `input` that starts at the 1-based position `start`
/// and keeps every `n`-th element from there: after the first `start - 1`
/// elements are dropped, the `n`-th, `2n`-th, ... of the rest. The sample is
/// empty when fewer than `n` elements remain.
pub fn sample<T: Copy>(input: &Vec<T>, start: usize, n: usize) -> (out: Vec<T>)
    requires
        start >= 1,
        n >= 1,
    ensures
        out@ == sampled(input@, start as nat, n as nat),
{
    let mut out: Vec<T> = Vec::new();
    let skip: usize = start - 1;
    if skip >= input.len() {
        assert(out@ =~= sampled(input@, start as nat, n as nat));
        return out;
    }
    let count: usize = (input.len() - skip) / n;
    let mut k: usize = 0;
    let mut end: usize = skip;
    while k < count
        invariant
            start >= 1,
            n >= 1,
            skip == start - 1,
            skip < input.len(),
            count == sample_len(input@.len(), start as nat, n as nat),
            k <= count,
            end == skip + k * n,
            end <= input.len(),
            out@.len() == k,
            forall|j: int|
                0 <= j < k ==> out@[j] == input@[sample_position(j, start as nat, n as nat)],
        decreases count - k,
    {
        proof {
            lemma_sample_position_in_range(input@.len(), start as nat, n as nat, k as int);
            assert((k + 1) * n == k * n + n) by (nonlinear_arith);
        }
        end = end + n;
        out.push(input[end - 1]);
        k = k + 1;
    }
    assert(out@ =~= sampled(input@, start as nat, n as nat));
    out
}

} // verus!
