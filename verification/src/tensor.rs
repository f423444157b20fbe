//! Nested vectors as tensors: their mathematical views, constant tensors,
//! and the flattening of a 4-dimensional batch into rows.
use vstd::prelude::*;
use vstd::arithmetic::div_mod::lemma_fundamental_div_mod_converse;

verus! {

/// The matrix that a vector of rows holds.
pub open spec fn t2<T>(v: Seq<Vec<T>>) -> Seq<Seq<T>> {
    Seq::new(v.len(), |i: int| v[i]@)
}

/// The 3-dimensional tensor that nested vectors hold.
pub open spec fn t3<T>(v: Seq<Vec<Vec<T>>>) -> Seq<Seq<Seq<T>>> {
    Seq::new(v.len(), |i: int| t2(v[i]@))
}

/// The 4-dimensional tensor that nested vectors hold.
pub open spec fn t4<T>(v: Seq<Vec<Vec<Vec<T>>>>) -> Seq<Seq<Seq<Seq<T>>>> {
    Seq::new(v.len(), |i: int| t3(v[i]@))
}

pub open spec fn filled1<T>(x: T, n: nat) -> Seq<T> {
    Seq::new(n, |_i: int| x)
}

pub open spec fn filled2<T>(x: T, a: nat, b: nat) -> Seq<Seq<T>> {
    Seq::new(a, |_i: int| filled1(x, b))
}

pub open spec fn filled3<T>(x: T, a: nat, b: nat, c: nat) -> Seq<Seq<Seq<T>>> {
    Seq::new(a, |_i: int| filled2(x, b, c))
}

pub open spec fn filled4<T>(x: T, a: nat, b: nat, c: nat, d: nat) -> Seq<Seq<Seq<Seq<T>>>> {
    Seq::new(a, |_i: int| filled3(x, b, c, d))
}

/// `n` copies of `x`.
pub fn fill1<T: Copy>(x: T, n: usize) -> (v: Vec<T>)
    ensures
        v@ == filled1(x, n as nat),
{
    let mut v: Vec<T> = Vec::new();
    for i in 0..n
        invariant
            v@ =~= filled1(x, i as nat),
    {
        v.push(x);
    }
    v
}

/// An `a` x `b` matrix of `x`.
pub fn fill2<T: Copy>(x: T, a: usize, b: usize) -> (v: Vec<Vec<T>>)
    ensures
        t2(v@) == filled2(x, a as nat, b as nat),
{
    let mut v: Vec<Vec<T>> = Vec::new();
    for i in 0..a
        invariant
            v@.len() == i,
            forall|r: int| 0 <= r < i ==> (#[trigger] v@[r])@ == filled1(x, b as nat),
    {
        v.push(fill1(x, b));
    }
    assert(t2(v@) =~= filled2(x, a as nat, b as nat));
    v
}

/// An `a` x `b` x `c` tensor of `x`.
pub fn fill3<T: Copy>(x: T, a: usize, b: usize, c: usize) -> (v: Vec<Vec<Vec<T>>>)
    ensures
        t3(v@) == filled3(x, a as nat, b as nat, c as nat),
{
    let mut v: Vec<Vec<Vec<T>>> = Vec::new();
    for i in 0..a
        invariant
            v@.len() == i,
            forall|r: int| 0 <= r < i ==> t2((#[trigger] v@[r])@) == filled2(x, b as nat, c as nat),
    {
        v.push(fill2(x, b, c));
    }
    assert(t3(v@) =~= filled3(x, a as nat, b as nat, c as nat));
    v
}

/// An `a` x `b` x `c` x `d` tensor of `x`.
pub fn fill4<T: Copy>(x: T, a: usize, b: usize, c: usize, d: usize) -> (v: Vec<Vec<Vec<Vec<T>>>>)
    ensures
        t4(v@) == filled4(x, a as nat, b as nat, c as nat, d as nat),
{
    let mut v: Vec<Vec<Vec<Vec<T>>>> = Vec::new();
    for i in 0..a
        invariant
            v@.len() == i,
            forall|r: int| 0 <= r < i ==> t3((#[trigger] v@[r])@) == filled3(x, b as nat, c as nat, d as nat),
    {
        v.push(fill3(x, b, c, d));
    }
    assert(t4(v@) =~= filled4(x, a as nat, b as nat, c as nat, d as nat));
    v
}

/// `s` has `a` images of `b` channels of `c` rows of `d` entries.
pub open spec fn shaped4<T>(s: Seq<Seq<Seq<Seq<T>>>>, a: nat, b: nat, c: nat, d: nat) -> bool {
    &&& s.len() == a
    &&& forall|i: int| 0 <= i < a ==> (#[trigger] s[i]).len() == b
    &&& forall|i: int, j: int| 0 <= i < a && 0 <= j < b ==> (#[trigger] s[i][j]).len() == c
    &&& forall|i: int, j: int, k: int| 0 <= i < a && 0 <= j < b && 0 <= k < c ==> (#[trigger] s[i][j][k]).len() == d
}

/// A constant tensor has the shape it was made with.
pub proof fn lemma_filled4_shaped<T>(x: T, a: nat, b: nat, c: nat, d: nat)
    ensures
        shaped4(filled4(x, a, b, c, d), a, b, c, d),
{
}

/// The rows that flattening a batch gives: row `i` lists the entries of image `i`
/// channel by channel, each channel row by row, with the first image's extents.
pub open spec fn flatten4<T>(s: Seq<Seq<Seq<Seq<T>>>>) -> Seq<Seq<T>> {
    let b = s[0].len() as int;
    let c = s[0][0].len() as int;
    let d = s[0][0][0].len() as int;
    Seq::new(s.len(), |i: int| Seq::new((b * c * d) as nat, |t: int| s[i][t / (c * d)][(t % (c * d)) / d][t % d]))
}

/// Position `j * c * d + p * d + q` of a flattened image holds channel `j`, row `p`, column `q`.
pub proof fn lemma_flat_index(j: int, p: int, q: int, c: int, d: int)
    requires
        0 <= j,
        0 <= p < c,
        0 <= q < d,
    ensures
        (j * (c * d) + p * d + q) / (c * d) == j,
        ((j * (c * d) + p * d + q) % (c * d)) / d == p,
        (j * (c * d) + p * d + q) % d == q,
{
    let t = j * (c * d) + p * d + q;
    let r = p * d + q;
    assert(0 <= p * d) by (nonlinear_arith)
        requires
            0 <= p,
            0 <= d,
    ;
    assert(r < c * d) by (nonlinear_arith)
        requires
            0 <= p < c,
            0 <= q < d,
            r == p * d + q,
    ;
    assert(c * d != 0) by (nonlinear_arith)
        requires
            0 < c,
            0 < d,
    ;
    lemma_fundamental_div_mod_converse(t, c * d, j, r);
    lemma_fundamental_div_mod_converse(r, d, p, q);
    assert(t == (j * c + p) * d + q) by (nonlinear_arith)
        requires
            t == j * (c * d) + p * d + q,
    ;
    lemma_fundamental_div_mod_converse(t, d, j * c + p, q);
}

/// Flattens each image of a batch into one row: channel by channel, each channel
/// row by row, with the extents of the first image.
pub fn flatten<T: Copy>(t: &Vec<Vec<Vec<Vec<T>>>>) -> (r: Vec<Vec<T>>)
    requires
        t@.len() > 0,
        t@[0]@.len() > 0,
        t@[0]@[0]@.len() > 0,
        shaped4(t4(t@), t@.len() as nat, t4(t@)[0].len(), t4(t@)[0][0].len(), t4(t@)[0][0][0].len()),
        t4(t@)[0].len() * t4(t@)[0][0].len() * t4(t@)[0][0][0].len() <= usize::MAX,
    ensures
        t2(r@) == flatten4(t4(t@)),
{
    let ghost s = t4(t@);
    let n = t.len();
    let b = t[0].len();
    let c = t[0][0].len();
    let d = t[0][0][0].len();
    let ghost f = flatten4(s);
    assert(b * c * d <= usize::MAX);
    assert(c * d <= b * c * d || b == 0) by (nonlinear_arith)
        requires
            0 <= b,
            0 <= c,
            0 <= d,
    ;
    let ghost ci = c as int;
    let ghost di = d as int;
    let mut r: Vec<Vec<T>> = Vec::new();
    for i in 0..n
        invariant
            ci == c,
            di == d,
            s == t4(t@),
            f == flatten4(s),
            n == s.len(),
            b == s[0].len(),
            c == s[0][0].len(),
            d == s[0][0][0].len(),
            shaped4(s, n as nat, b as nat, c as nat, d as nat),
            b * c * d <= usize::MAX,
            r@.len() == i,
            forall|k: int| 0 <= k < i ==> (#[trigger] r@[k])@ == f[k],
    {
        let mut row: Vec<T> = Vec::new();
        assert(0 * (ci * di) == 0) by (nonlinear_arith);
        for j in 0..b
            invariant
                ci == c,
                di == d,
                s == t4(t@),
                n == s.len(),
                0 <= i < n,
                b == s[0].len(),
                c == s[0][0].len(),
                d == s[0][0][0].len(),
                shaped4(s, n as nat, b as nat, c as nat, d as nat),
                row@.len() == j * (c * d),
                forall|x: int| 0 <= x < row@.len() ==> #[trigger] row@[x] == s[i as int][x / (ci * di)][(x % (ci * di)) / di][x % di],
        {
            assert(j * (ci * di) + 0 * di == j * (ci * di)) by (nonlinear_arith);
            for p in 0..c
                invariant
                    ci == c,
                    di == d,
                    s == t4(t@),
                    n == s.len(),
                    0 <= i < n,
                    0 <= j < b,
                    b == s[0].len(),
                    c == s[0][0].len(),
                    d == s[0][0][0].len(),
                    shaped4(s, n as nat, b as nat, c as nat, d as nat),
                    row@.len() == j * (c * d) + p * d,
                    forall|x: int| 0 <= x < row@.len() ==> #[trigger] row@[x] == s[i as int][x / (ci * di)][(x % (ci * di)) / di][x % di],
            {
                for q in 0..d
                    invariant
                        ci == c,
                        di == d,
                        s == t4(t@),
                        n == s.len(),
                        0 <= i < n,
                        0 <= j < b,
                        0 <= p < c,
                        b == s[0].len(),
                        c == s[0][0].len(),
                        d == s[0][0][0].len(),
                        shaped4(s, n as nat, b as nat, c as nat, d as nat),
                        row@.len() == j * (c * d) + p * d + q,
                        forall|x: int| 0 <= x < row@.len() ==> #[trigger] row@[x] == s[i as int][x / (ci * di)][(x % (ci * di)) / di][x % di],
                {
                    proof {
                        lemma_flat_index(j as int, p as int, q as int, c as int, d as int);
                    }
                    assert(s[i as int][j as int].len() == c);
                    assert(s[i as int][j as int][p as int].len() == d);
                    let v = t[i][j][p][q];
                    row.push(v);
                }
                assert(j * (c * d) + p * d + d == j * (c * d) + (p + 1) * d) by (nonlinear_arith);
            }
            assert(j * (c * d) + c * d == (j + 1) * (c * d)) by (nonlinear_arith);
        }
        assert(b * (ci * di) == b * ci * di) by (nonlinear_arith);
        assert(row@ =~= f[i as int]);
        r.push(row);
    }
    assert(t2(r@) =~= f);
    r
}

/// A copy of a 4-dimensional tensor.
pub fn copy4<T: Copy>(t: &Vec<Vec<Vec<Vec<T>>>>) -> (r: Vec<Vec<Vec<Vec<T>>>>)
    ensures
        t4(r@) == t4(t@),
{
    let mut r: Vec<Vec<Vec<Vec<T>>>> = Vec::new();
    for i in 0..t.len()
        invariant
            r@.len() == i,
            forall|k: int| 0 <= k < i ==> t3((#[trigger] r@[k])@) == t3(t@[k]@),
    {
        let mut a: Vec<Vec<Vec<T>>> = Vec::new();
        let m = t[i].len();
        for j in 0..m
            invariant
                0 <= i < t@.len(),
                m == t@[i as int]@.len(),
                a@.len() == j,
                forall|k: int| 0 <= k < j ==> t2((#[trigger] a@[k])@) == t2(t@[i as int]@[k]@),
        {
            a.push(copy2(&t[i][j]));
        }
        assert(t3(a@) =~= t3(t@[i as int]@));
        r.push(a);
    }
    assert(t4(r@) =~= t4(t@));
    r
}

/// A copy of a matrix.
pub fn copy2<T: Copy>(t: &Vec<Vec<T>>) -> (r: Vec<Vec<T>>)
    ensures
        t2(r@) == t2(t@),
{
    let mut r: Vec<Vec<T>> = Vec::new();
    for i in 0..t.len()
        invariant
            r@.len() == i,
            forall|k: int| 0 <= k < i ==> (#[trigger] r@[k])@ == t@[k]@,
    {
        let mut row: Vec<T> = Vec::new();
        let m = t[i].len();
        for j in 0..m
            invariant
                0 <= i < t@.len(),
                m == t@[i as int]@.len(),
                row@ =~= t@[i as int]@.subrange(0, j as int),
        {
            row.push(t[i][j]);
        }
        r.push(row);
    }
    assert(t2(r@) =~= t2(t@));
    r
}

} // verus!
