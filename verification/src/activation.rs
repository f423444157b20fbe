//! ReLU on plain `i8` tensors (negatives become 0) and on zero-point
//! quantized `u8` tensors (values below the zero point become the zero point).
use vstd::prelude::*;
use crate::tensor::{t2, t3, t4, filled4, fill4, shaped4};

verus! {

pub open spec fn relu_val(v: i8) -> i8 {
    if v < 0 { 0 } else { v }
}

pub open spec fn relu_vec(s: Seq<i8>) -> Seq<i8> {
    Seq::new(s.len(), |i: int| relu_val(s[i]))
}

pub open spec fn relu_mat(s: Seq<Seq<i8>>) -> Seq<Seq<i8>> {
    Seq::new(s.len(), |i: int| relu_vec(s[i]))
}

pub open spec fn relu_t3(s: Seq<Seq<Seq<i8>>>) -> Seq<Seq<Seq<i8>>> {
    Seq::new(s.len(), |i: int| relu_mat(s[i]))
}

pub open spec fn relu_t4(s: Seq<Seq<Seq<Seq<i8>>>>) -> Seq<Seq<Seq<Seq<i8>>>> {
    Seq::new(s.len(), |i: int| relu_t3(s[i]))
}

/// The quantized ReLU: the zero point stands for the real value 0.
pub open spec fn relu_u8_val(v: u8, zero_point: u8) -> u8 {
    if v < zero_point { zero_point } else { v }
}

pub open spec fn relu_u8_vec(s: Seq<u8>, zp: u8) -> Seq<u8> {
    Seq::new(s.len(), |i: int| relu_u8_val(s[i], zp))
}

pub open spec fn relu_u8_mat(s: Seq<Seq<u8>>, zp: u8) -> Seq<Seq<u8>> {
    Seq::new(s.len(), |i: int| relu_u8_vec(s[i], zp))
}

pub open spec fn relu_u8_t3(s: Seq<Seq<Seq<u8>>>, zp: u8) -> Seq<Seq<Seq<u8>>> {
    Seq::new(s.len(), |i: int| relu_u8_mat(s[i], zp))
}

pub open spec fn relu_u8_t4(s: Seq<Seq<Seq<Seq<u8>>>>, zp: u8) -> Seq<Seq<Seq<Seq<u8>>>> {
    Seq::new(s.len(), |i: int| relu_u8_t3(s[i], zp))
}

/// For each value, whether it passed the ReLU unchanged (it is at least the zero point).
pub open spec fn kept_vec(s: Seq<u8>, zp: u8) -> Seq<bool> {
    Seq::new(s.len(), |i: int| s[i] >= zp)
}

/// `mask` with its first `s.len()` entries replaced by whether `s` passed the ReLU.
pub open spec fn mark_vec(mask: Seq<bool>, s: Seq<u8>, zp: u8) -> Seq<bool> {
    Seq::new(mask.len(), |l: int| if l < s.len() { s[l] >= zp } else { mask[l] })
}

pub open spec fn mark_mat(mask: Seq<Seq<bool>>, s: Seq<Seq<u8>>, zp: u8) -> Seq<Seq<bool>> {
    Seq::new(mask.len(), |k: int| if k < s.len() { mark_vec(mask[k], s[k], zp) } else { mask[k] })
}

pub open spec fn mark_t3(mask: Seq<Seq<Seq<bool>>>, s: Seq<Seq<Seq<u8>>>, zp: u8) -> Seq<Seq<Seq<bool>>> {
    Seq::new(mask.len(), |j: int| if j < s.len() { mark_mat(mask[j], s[j], zp) } else { mask[j] })
}

pub open spec fn mark_t4(mask: Seq<Seq<Seq<Seq<bool>>>>, s: Seq<Seq<Seq<Seq<u8>>>>, zp: u8) -> Seq<Seq<Seq<Seq<bool>>>> {
    Seq::new(mask.len(), |i: int| if i < s.len() { mark_t3(mask[i], s[i], zp) } else { mask[i] })
}

/// Every entry of `s` fits in the same position of `mask`.
pub open spec fn fits_vec<A, B>(s: Seq<A>, mask: Seq<B>) -> bool {
    s.len() <= mask.len()
}

pub open spec fn fits_mat<A, B>(s: Seq<Seq<A>>, mask: Seq<Seq<B>>) -> bool {
    s.len() <= mask.len() && forall|k: int| 0 <= k < s.len() ==> fits_vec(#[trigger] s[k], mask[k])
}

pub open spec fn fits_t3<A, B>(s: Seq<Seq<Seq<A>>>, mask: Seq<Seq<Seq<B>>>) -> bool {
    s.len() <= mask.len() && forall|j: int| 0 <= j < s.len() ==> fits_mat(#[trigger] s[j], mask[j])
}

pub open spec fn fits_t4<A, B>(s: Seq<Seq<Seq<Seq<A>>>>, mask: Seq<Seq<Seq<Seq<B>>>>) -> bool {
    s.len() <= mask.len() && forall|i: int| 0 <= i < s.len() ==> fits_t3(#[trigger] s[i], mask[i])
}

/// No part of `s` is longer than the matching part of its first element:
/// the shape that a tensor built from the first element's dimensions can hold.
pub open spec fn bounded_by_first_t4<T>(s: Seq<Seq<Seq<Seq<T>>>>) -> bool {
    &&& s.len() > 0
    &&& s[0].len() > 0
    &&& s[0][0].len() > 0
    &&& forall|i: int| 0 <= i < s.len() ==> (#[trigger] s[i]).len() <= s[0].len()
    &&& forall|i: int, j: int| 0 <= i < s.len() && 0 <= j < s[i].len() ==> (#[trigger] s[i][j]).len() <= s[0][0].len()
    &&& forall|i: int, j: int, k: int| 0 <= i < s.len() && 0 <= j < s[i].len() && 0 <= k < s[i][j].len()
        ==> (#[trigger] s[i][j][k]).len() <= s[0][0][0].len()
}

/// Replaces each negative entry by 0.
pub fn relu(input: &mut [i8])
    ensures
        final(input)@ == relu_vec(old(input)@),
{
    let n = input.len();
    for i in 0..n
        invariant
            n == old(input)@.len(),
            input@.len() == n,
            forall|j: int| 0 <= j < i ==> input@[j] == relu_val(old(input)@[j]),
            forall|j: int| i <= j < n ==> input@[j] == old(input)@[j],
    {
        if input[i] < 0 {
            input[i] = 0;
        }
    }
    assert(input@ =~= relu_vec(old(input)@));
}

/// Replaces each negative entry of a matrix by 0.
pub fn relu2d(input: &mut Vec<Vec<i8>>)
    ensures
        t2(final(input)@) == relu_mat(t2(old(input)@)),
{
    let n = input.len();
    for i in 0..n
        invariant
            n == old(input)@.len(),
            input@.len() == n,
            forall|j: int| 0 <= j < i ==> (#[trigger] input@[j])@ == relu_vec(old(input)@[j]@),
            forall|j: int| i <= j < n ==> #[trigger] input@[j] == old(input)@[j],
    {
        relu(&mut input[i]);
    }
    assert(t2(input@) =~= relu_mat(t2(old(input)@)));
}

fn relu3d(input: &mut Vec<Vec<Vec<i8>>>)
    ensures
        t3(final(input)@) == relu_t3(t3(old(input)@)),
{
    let n = input.len();
    for i in 0..n
        invariant
            n == old(input)@.len(),
            input@.len() == n,
            forall|j: int| 0 <= j < i ==> t2((#[trigger] input@[j])@) == relu_mat(t2(old(input)@[j]@)),
            forall|j: int| i <= j < n ==> #[trigger] input@[j] == old(input)@[j],
    {
        relu2d(&mut input[i]);
    }
    assert(t3(input@) =~= relu_t3(t3(old(input)@)));
}

/// Replaces each negative entry of a 4-dimensional tensor by 0.
pub fn relu4d(input: &mut Vec<Vec<Vec<Vec<i8>>>>)
    ensures
        t4(final(input)@) == relu_t4(t4(old(input)@)),
{
    let n = input.len();
    for i in 0..n
        invariant
            n == old(input)@.len(),
            input@.len() == n,
            forall|j: int| 0 <= j < i ==> t3((#[trigger] input@[j])@) == relu_t3(t3(old(input)@[j]@)),
            forall|j: int| i <= j < n ==> #[trigger] input@[j] == old(input)@[j],
    {
        relu3d(&mut input[i]);
    }
    assert(t4(input@) =~= relu_t4(t4(old(input)@)));
}

/// Raises each entry below the zero point to it, and tells for each entry
/// whether it was kept (it was at least the zero point).
pub fn relu_u8(input: &mut [u8], zero_point: u8) -> (kept: Vec<bool>)
    ensures
        final(input)@ == relu_u8_vec(old(input)@, zero_point),
        kept@ == kept_vec(old(input)@, zero_point),
{
    let mut flags: Vec<bool> = Vec::new();
    let n = input.len();
    for i in 0..n
        invariant
            n == old(input)@.len(),
            input@.len() == n,
            flags@.len() == i,
            forall|j: int| 0 <= j < i ==> input@[j] == relu_u8_val(old(input)@[j], zero_point),
            forall|j: int| 0 <= j < i ==> flags@[j] == (old(input)@[j] >= zero_point),
            forall|j: int| i <= j < n ==> input@[j] == old(input)@[j],
    {
        if input[i] < zero_point {
            input[i] = zero_point;
            flags.push(false);
        } else {
            flags.push(true);
        }
    }
    assert(input@ =~= relu_u8_vec(old(input)@, zero_point));
    assert(flags@ =~= kept_vec(old(input)@, zero_point));
    flags
}

fn relu_row_u8(input: &mut Vec<u8>, zero_point: u8)
    ensures
        final(input)@ == relu_u8_vec(old(input)@, zero_point),
{
    let n = input.len();
    for i in 0..n
        invariant
            n == old(input)@.len(),
            input@.len() == n,
            forall|j: int| 0 <= j < i ==> input@[j] == relu_u8_val(old(input)@[j], zero_point),
            forall|j: int| i <= j < n ==> input@[j] == old(input)@[j],
    {
        if input[i] < zero_point {
            input[i] = zero_point;
        }
    }
    assert(input@ =~= relu_u8_vec(old(input)@, zero_point));
}

/// Raises each entry of a matrix below the zero point to it.
pub fn relu2d_u8(input: &mut Vec<Vec<u8>>, zero_point: u8)
    ensures
        t2(final(input)@) == relu_u8_mat(t2(old(input)@), zero_point),
{
    let n = input.len();
    for i in 0..n
        invariant
            n == old(input)@.len(),
            input@.len() == n,
            forall|j: int| 0 <= j < i ==> (#[trigger] input@[j])@ == relu_u8_vec(old(input)@[j]@, zero_point),
            forall|j: int| i <= j < n ==> #[trigger] input@[j] == old(input)@[j],
    {
        relu_row_u8(&mut input[i], zero_point);
    }
    assert(t2(input@) =~= relu_u8_mat(t2(old(input)@), zero_point));
}

fn relu_mark_row(input: &mut Vec<u8>, zero_point: u8, mask: &mut Vec<bool>)
    requires
        old(input)@.len() <= old(mask)@.len(),
    ensures
        final(input)@ == relu_u8_vec(old(input)@, zero_point),
        final(mask)@ == mark_vec(old(mask)@, old(input)@, zero_point),
{
    let n = input.len();
    for l in 0..n
        invariant
            n == old(input)@.len(),
            n <= old(mask)@.len(),
            input@.len() == n,
            mask@.len() == old(mask)@.len(),
            forall|j: int| 0 <= j < l ==> input@[j] == relu_u8_val(old(input)@[j], zero_point),
            forall|j: int| l <= j < n ==> input@[j] == old(input)@[j],
            forall|j: int| 0 <= j < l ==> mask@[j] == (old(input)@[j] >= zero_point),
            forall|j: int| l <= j < mask@.len() ==> mask@[j] == old(mask)@[j],
    {
        if input[l] < zero_point {
            input[l] = zero_point;
            mask[l] = false;
        } else {
            mask[l] = true;
        }
    }
    assert(input@ =~= relu_u8_vec(old(input)@, zero_point));
    assert(mask@ =~= mark_vec(old(mask)@, old(input)@, zero_point));
}

fn relu_mark_mat(input: &mut Vec<Vec<u8>>, zero_point: u8, mask: &mut Vec<Vec<bool>>)
    requires
        fits_mat(t2(old(input)@), t2(old(mask)@)),
    ensures
        t2(final(input)@) == relu_u8_mat(t2(old(input)@), zero_point),
        t2(final(mask)@) == mark_mat(t2(old(mask)@), t2(old(input)@), zero_point),
{
    let n = input.len();
    for k in 0..n
        invariant
            n == old(input)@.len(),
            fits_mat(t2(old(input)@), t2(old(mask)@)),
            input@.len() == n,
            mask@.len() == old(mask)@.len(),
            forall|j: int| 0 <= j < k ==> (#[trigger] input@[j])@ == relu_u8_vec(old(input)@[j]@, zero_point),
            forall|j: int| k <= j < n ==> #[trigger] input@[j] == old(input)@[j],
            forall|j: int| 0 <= j < k ==> (#[trigger] mask@[j])@ == mark_vec(old(mask)@[j]@, old(input)@[j]@, zero_point),
            forall|j: int| k <= j < mask@.len() ==> #[trigger] mask@[j] == old(mask)@[j],
    {
        assert(fits_vec(t2(old(input)@)[k as int], t2(old(mask)@)[k as int]));
        relu_mark_row(&mut input[k], zero_point, &mut mask[k]);
    }
    assert(t2(input@) =~= relu_u8_mat(t2(old(input)@), zero_point));
    assert(t2(mask@) =~= mark_mat(t2(old(mask)@), t2(old(input)@), zero_point));
}

fn relu_mark_t3(input: &mut Vec<Vec<Vec<u8>>>, zero_point: u8, mask: &mut Vec<Vec<Vec<bool>>>)
    requires
        fits_t3(t3(old(input)@), t3(old(mask)@)),
    ensures
        t3(final(input)@) == relu_u8_t3(t3(old(input)@), zero_point),
        t3(final(mask)@) == mark_t3(t3(old(mask)@), t3(old(input)@), zero_point),
{
    let n = input.len();
    for j in 0..n
        invariant
            n == old(input)@.len(),
            fits_t3(t3(old(input)@), t3(old(mask)@)),
            input@.len() == n,
            mask@.len() == old(mask)@.len(),
            forall|r: int| 0 <= r < j ==> t2((#[trigger] input@[r])@) == relu_u8_mat(t2(old(input)@[r]@), zero_point),
            forall|r: int| j <= r < n ==> #[trigger] input@[r] == old(input)@[r],
            forall|r: int| 0 <= r < j ==> t2((#[trigger] mask@[r])@) == mark_mat(t2(old(mask)@[r]@), t2(old(input)@[r]@), zero_point),
            forall|r: int| j <= r < mask@.len() ==> #[trigger] mask@[r] == old(mask)@[r],
    {
        assert(fits_mat(t3(old(input)@)[j as int], t3(old(mask)@)[j as int]));
        relu_mark_mat(&mut input[j], zero_point, &mut mask[j]);
    }
    assert(t3(input@) =~= relu_u8_t3(t3(old(input)@), zero_point));
    assert(t3(mask@) =~= mark_t3(t3(old(mask)@), t3(old(input)@), zero_point));
}

/// Raises each entry of a 4-dimensional tensor below the zero point to it, and
/// tells in a tensor shaped after the input's first element whether each entry was kept;
/// positions that the input does not reach stay `false`.
pub fn relu4d_u8(input: &mut Vec<Vec<Vec<Vec<u8>>>>, zero_point: u8) -> (kept: Vec<Vec<Vec<Vec<bool>>>>)
    requires
        bounded_by_first_t4(t4(old(input)@)),
    ensures
        t4(final(input)@) == relu_u8_t4(t4(old(input)@), zero_point),
        t4(kept@) == mark_t4(
            filled4(
                false,
                t4(old(input)@).len(),
                t4(old(input)@)[0].len(),
                t4(old(input)@)[0][0].len(),
                t4(old(input)@)[0][0][0].len(),
            ),
            t4(old(input)@),
            zero_point,
        ),
{
    let ghost s = t4(old(input)@);
    let mut flags = fill4(false, input.len(), input[0].len(), input[0][0].len(), input[0][0][0].len());
    let ghost m0 = t4(flags@);
    proof {
        assert forall|i: int| 0 <= i < s.len() implies fits_t3(#[trigger] s[i], m0[i]) by {
            assert forall|j: int| 0 <= j < s[i].len() implies fits_mat(#[trigger] s[i][j], m0[i][j]) by {
                assert forall|k: int| 0 <= k < s[i][j].len() implies fits_vec(#[trigger] s[i][j][k], m0[i][j][k]) by {
                    assert(s[i][j][k].len() <= s[0][0][0].len());
                }
                assert(s[i][j].len() <= s[0][0].len());
            }
            assert(s[i].len() <= s[0].len());
        }
    }
    let n = input.len();
    assert(flags@.len() == m0.len());
    assert(forall|r: int| 0 <= r < n ==> t3((#[trigger] flags@[r])@) == m0[r]);
    for i in 0..n
        invariant
            s == t4(old(input)@),
            n == s.len(),
            fits_t4(s, m0),
            m0.len() == n,
            input@.len() == n,
            flags@.len() == n,
            forall|r: int| 0 <= r < i ==> t3((#[trigger] input@[r])@) == relu_u8_t3(s[r], zero_point),
            forall|r: int| i <= r < n ==> #[trigger] input@[r] == old(input)@[r],
            forall|r: int| 0 <= r < i ==> t3((#[trigger] flags@[r])@) == mark_t3(m0[r], s[r], zero_point),
            forall|r: int| i <= r < n ==> t3((#[trigger] flags@[r])@) == m0[r],
    {
        assert(fits_t3(s[i as int], m0[i as int]));
        relu_mark_t3(&mut input[i], zero_point, &mut flags[i]);
    }
    assert(t4(input@) =~= relu_u8_t4(s, zero_point));
    assert(t4(flags@) =~= mark_t4(m0, s, zero_point));
    flags
}

/// The ReLU keeps the shape of a tensor.
pub proof fn lemma_relu_t4_shaped(s: Seq<Seq<Seq<Seq<i8>>>>, a: nat, b: nat, c: nat, d: nat)
    requires
        shaped4(s, a, b, c, d),
    ensures
        shaped4(relu_t4(s), a, b, c, d),
{
    let r = relu_t4(s);
    assert forall|i: int, j: int| 0 <= i < a && 0 <= j < b implies (#[trigger] r[i][j]).len() == c by {
        assert(s[i][j].len() == c);
    }
    assert forall|i: int, j: int, k: int| 0 <= i < a && 0 <= j < b && 0 <= k < c implies (#[trigger] r[i][j][k]).len() == d by {
        assert(s[i][j][k].len() == d);
    }
}

/// The quantized ReLU keeps the shape of a tensor.
pub proof fn lemma_relu_u8_t4_shaped(s: Seq<Seq<Seq<Seq<u8>>>>, zp: u8, a: nat, b: nat, c: nat, d: nat)
    requires
        shaped4(s, a, b, c, d),
    ensures
        shaped4(relu_u8_t4(s, zp), a, b, c, d),
{
    let r = relu_u8_t4(s, zp);
    assert forall|i: int, j: int| 0 <= i < a && 0 <= j < b implies (#[trigger] r[i][j]).len() == c by {
        assert(s[i][j].len() == c);
    }
    assert forall|i: int, j: int, k: int| 0 <= i < a && 0 <= j < b && 0 <= k < c implies (#[trigger] r[i][j][k]).len() == d by {
        assert(s[i][j][k].len() == d);
    }
}

/// A tensor of one shape with a first entry at every level is bounded by its first element.
pub proof fn lemma_shaped_bounded_by_first<T>(s: Seq<Seq<Seq<Seq<T>>>>, a: nat, b: nat, c: nat, d: nat)
    requires
        shaped4(s, a, b, c, d),
        a > 0,
        b > 0,
        c > 0,
    ensures
        bounded_by_first_t4(s),
{
    assert(s[0].len() == b);
    assert(s[0][0].len() == c);
    assert(s[0][0][0].len() == d);
}

/// The ReLU is idempotent, and what it gives is never negative.
pub proof fn lemma_relu_idempotent(s: Seq<i8>)
    ensures
        relu_vec(relu_vec(s)) == relu_vec(s),
        forall|i: int| 0 <= i < s.len() ==> #[trigger] relu_vec(s)[i] >= 0,
{
    assert(relu_vec(relu_vec(s)) =~= relu_vec(s));
}

/// The quantized ReLU is idempotent; what it gives is never below the zero point; and an
/// entry is reported kept exactly where the ReLU leaves it unchanged.
pub proof fn lemma_relu_u8_idempotent(s: Seq<u8>, zp: u8)
    ensures
        relu_u8_vec(relu_u8_vec(s, zp), zp) == relu_u8_vec(s, zp),
        forall|i: int| 0 <= i < s.len() ==> #[trigger] relu_u8_vec(s, zp)[i] >= zp,
        forall|i: int| 0 <= i < s.len() ==> (#[trigger] kept_vec(s, zp)[i] <==> relu_u8_vec(s, zp)[i] == s[i]),
{
    assert(relu_u8_vec(relu_u8_vec(s, zp), zp) =~= relu_u8_vec(s, zp));
}

} // verus!
