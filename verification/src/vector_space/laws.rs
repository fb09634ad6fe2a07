//! Laws of the arithmetic of vectors and matrices over an exact field: the
//! vector space laws of coordinate sequences, and the associativity of the
//! matrix product.
use vstd::prelude::*;
use crate::field::ExactField;
use crate::field::Field;
use super::all_in_field;
use super::column;
use super::dot;
use super::is_grid;
use super::negated;
use super::product;
use super::scaled;
use super::sum;
use super::zeros;

verus! {

/// The sum of the first `n` terms `t(0), t(1), ...`, accumulated from zero in
/// the order of the indices.
pub open spec fn sum_of<F: Field>(t: spec_fn(int) -> F::Value, n: nat) -> F::Value
    decreases n,
{
    if n == 0 {
        F::zero_value()
    } else {
        F::add_value(sum_of::<F>(t, (n - 1) as nat), t(n - 1))
    }
}

/// Whether the first `n` terms of `t` belong to the field.
pub open spec fn terms_in_field<F: Field>(t: spec_fn(int) -> F::Value, n: nat) -> bool {
    forall|k: int| 0 <= k < n ==> F::in_field(#[trigger] t(k))
}

/// The terms `x[k] * y[k]` of a dot product.
pub open spec fn product_terms<F: Field>(x: Seq<F::Value>, y: Seq<F::Value>) -> spec_fn(
    int,
) -> F::Value {
    |k: int| F::mul_value(x[k], y[k])
}

/// The terms `t(k) * c`.
pub open spec fn terms_times<F: Field>(t: spec_fn(int) -> F::Value, c: F::Value) -> spec_fn(
    int,
) -> F::Value {
    |k: int| F::mul_value(t(k), c)
}

/// The terms `a * t(k)`.
pub open spec fn times_terms<F: Field>(a: F::Value, t: spec_fn(int) -> F::Value) -> spec_fn(
    int,
) -> F::Value {
    |k: int| F::mul_value(a, t(k))
}

/// The terms `t(k) + u(k)`.
pub open spec fn added_terms<F: Field>(
    t: spec_fn(int) -> F::Value,
    u: spec_fn(int) -> F::Value,
) -> spec_fn(int) -> F::Value {
    |k: int| F::add_value(t(k), u(k))
}

/// The terms `f(k, l)` for a fixed `l`.
pub open spec fn along_first<F: Field>(f: spec_fn(int, int) -> F::Value, l: int) -> spec_fn(
    int,
) -> F::Value {
    |k: int| f(k, l)
}

/// The terms `f(k, l)` for a fixed `k`.
pub open spec fn along_second<F: Field>(f: spec_fn(int, int) -> F::Value, k: int) -> spec_fn(
    int,
) -> F::Value {
    |l: int| f(k, l)
}

/// For each `l`, the sum of `f(k, l)` over the first `p` values of `k`.
pub open spec fn summed_over_first<F: Field>(f: spec_fn(int, int) -> F::Value, p: nat) -> spec_fn(
    int,
) -> F::Value {
    |l: int| sum_of::<F>(along_first::<F>(f, l), p)
}

/// For each `k`, the sum of `f(k, l)` over the first `q` values of `l`.
pub open spec fn summed_over_second<F: Field>(f: spec_fn(int, int) -> F::Value, q: nat) -> spec_fn(
    int,
) -> F::Value {
    |k: int| sum_of::<F>(along_second::<F>(f, k), q)
}

/// Zero absorbs under multiplication: `a * 0 == 0` and `0 * a == 0`.
pub proof fn lemma_mul_zero<F: ExactField>(a: F::Value)
    requires
        F::in_field(a),
    ensures
        F::mul_value(a, F::zero_value()) == F::zero_value(),
        F::mul_value(F::zero_value(), a) == F::zero_value(),
{
    let z = F::zero_value();
    let x = F::mul_value(a, z);
    F::lemma_identities();
    F::lemma_closed(a, z);
    F::lemma_closed(x, x);
    F::lemma_add_zero(z);
    F::lemma_distributive(a, z, z);
    assert(x == F::add_value(x, x));
    let n = F::neg_value(x);
    F::lemma_add_neg(x);
    F::lemma_add_associative(x, x, n);
    F::lemma_add_zero(x);
    assert(x == z);
    F::lemma_mul_commutative(a, z);
}

/// Multiplication distributes over addition on the right too:
/// `(a + b) * c == a * c + b * c`.
pub proof fn lemma_distributive_right<F: ExactField>(a: F::Value, b: F::Value, c: F::Value)
    requires
        F::in_field(a),
        F::in_field(b),
        F::in_field(c),
    ensures
        F::mul_value(F::add_value(a, b), c) == F::add_value(
            F::mul_value(a, c),
            F::mul_value(b, c),
        ),
{
    F::lemma_closed(a, b);
    F::lemma_mul_commutative(F::add_value(a, b), c);
    F::lemma_distributive(c, a, b);
    F::lemma_mul_commutative(c, a);
    F::lemma_mul_commutative(c, b);
}

/// Two sums may be added term by term: `(a + b) + (x + y) == (a + x) + (b + y)`.
pub proof fn lemma_add_interchange<F: ExactField>(
    a: F::Value,
    b: F::Value,
    x: F::Value,
    y: F::Value,
)
    requires
        F::in_field(a),
        F::in_field(b),
        F::in_field(x),
        F::in_field(y),
    ensures
        F::add_value(F::add_value(a, b), F::add_value(x, y)) == F::add_value(
            F::add_value(a, x),
            F::add_value(b, y),
        ),
{
    F::lemma_closed(x, y);
    F::lemma_closed(b, x);
    F::lemma_closed(b, y);
    F::lemma_closed(x, b);
    // (a + b) + (x + y) == a + (b + (x + y))
    F::lemma_add_associative(a, b, F::add_value(x, y));
    // b + (x + y) == (b + x) + y == (x + b) + y == x + (b + y)
    F::lemma_add_associative(b, x, y);
    F::lemma_add_commutative(b, x);
    F::lemma_add_associative(x, b, y);
    // a + (x + (b + y)) == (a + x) + (b + y)
    F::lemma_add_associative(a, x, F::add_value(b, y));
}

/// A sum of terms of the field belongs to the field.
pub proof fn lemma_sum_in_field<F: ExactField>(t: spec_fn(int) -> F::Value, n: nat)
    requires
        terms_in_field::<F>(t, n),
    ensures
        F::in_field(sum_of::<F>(t, n)),
    decreases n,
{
    if n == 0 {
        F::lemma_identities();
    } else {
        lemma_sum_in_field::<F>(t, (n - 1) as nat);
        F::lemma_closed(sum_of::<F>(t, (n - 1) as nat), t(n - 1));
    }
}

/// Sums of equal terms are equal.
pub proof fn lemma_sum_of_equal_terms<F: Field>(
    t: spec_fn(int) -> F::Value,
    u: spec_fn(int) -> F::Value,
    n: nat,
)
    requires
        forall|k: int| 0 <= k < n ==> #[trigger] t(k) == u(k),
    ensures
        sum_of::<F>(t, n) == sum_of::<F>(u, n),
    decreases n,
{
    if n > 0 {
        lemma_sum_of_equal_terms::<F>(t, u, (n - 1) as nat);
        assert(t(n - 1) == u(n - 1));
    }
}

/// A dot product is the sum of its terms.
pub proof fn lemma_dot_is_sum<F: Field>(x: Seq<F::Value>, y: Seq<F::Value>, n: nat)
    ensures
        dot::<F>(x, y, n) == sum_of::<F>(product_terms::<F>(x, y), n),
    decreases n,
{
    if n > 0 {
        lemma_dot_is_sum::<F>(x, y, (n - 1) as nat);
    }
}

/// A factor on the right goes into a sum: `(Σ t(k)) * c == Σ (t(k) * c)`.
pub proof fn lemma_sum_times<F: ExactField>(t: spec_fn(int) -> F::Value, c: F::Value, n: nat)
    requires
        terms_in_field::<F>(t, n),
        F::in_field(c),
    ensures
        F::mul_value(sum_of::<F>(t, n), c) == sum_of::<F>(terms_times::<F>(t, c), n),
    decreases n,
{
    if n == 0 {
        lemma_mul_zero::<F>(c);
    } else {
        let m = (n - 1) as nat;
        lemma_sum_times::<F>(t, c, m);
        lemma_sum_in_field::<F>(t, m);
        assert(F::in_field(t(n - 1)));
        lemma_distributive_right::<F>(sum_of::<F>(t, m), t(n - 1), c);
    }
}

/// A factor on the left goes into a sum: `a * (Σ t(k)) == Σ (a * t(k))`.
pub proof fn lemma_times_sum<F: ExactField>(a: F::Value, t: spec_fn(int) -> F::Value, n: nat)
    requires
        terms_in_field::<F>(t, n),
        F::in_field(a),
    ensures
        F::mul_value(a, sum_of::<F>(t, n)) == sum_of::<F>(times_terms::<F>(a, t), n),
    decreases n,
{
    if n == 0 {
        lemma_mul_zero::<F>(a);
    } else {
        let m = (n - 1) as nat;
        lemma_times_sum::<F>(a, t, m);
        lemma_sum_in_field::<F>(t, m);
        assert(F::in_field(t(n - 1)));
        F::lemma_distributive(a, sum_of::<F>(t, m), t(n - 1));
    }
}

/// The sum of sums is the sum of the added terms:
/// `Σ (t(k) + u(k)) == Σ t(k) + Σ u(k)`.
pub proof fn lemma_sum_of_added_terms<F: ExactField>(
    t: spec_fn(int) -> F::Value,
    u: spec_fn(int) -> F::Value,
    n: nat,
)
    requires
        terms_in_field::<F>(t, n),
        terms_in_field::<F>(u, n),
    ensures
        sum_of::<F>(added_terms::<F>(t, u), n) == F::add_value(
            sum_of::<F>(t, n),
            sum_of::<F>(u, n),
        ),
    decreases n,
{
    if n == 0 {
        F::lemma_identities();
        F::lemma_add_zero(F::zero_value());
    } else {
        let m = (n - 1) as nat;
        lemma_sum_of_added_terms::<F>(t, u, m);
        lemma_sum_in_field::<F>(t, m);
        lemma_sum_in_field::<F>(u, m);
        assert(F::in_field(t(n - 1)));
        assert(F::in_field(u(n - 1)));
        lemma_add_interchange::<F>(sum_of::<F>(t, m), sum_of::<F>(u, m), t(n - 1), u(n - 1));
    }
}

/// Vector addition is commutative: `a + b == b + a`, for vectors of one
/// length over the field.
pub proof fn lemma_vector_sum_commutative<F: ExactField>(a: Seq<F::Value>, b: Seq<F::Value>)
    requires
        a.len() == b.len(),
        all_in_field::<F>(a),
        all_in_field::<F>(b),
    ensures
        sum::<F>(a, b) == sum::<F>(b, a),
{
    assert forall|i: int| 0 <= i < a.len() implies #[trigger] sum::<F>(a, b)[i] == sum::<F>(
        b,
        a,
    )[i] by {
        assert(F::in_field(a[i]) && F::in_field(b[i]));
        F::lemma_add_commutative(a[i], b[i]);
    }
    assert(sum::<F>(a, b) =~= sum::<F>(b, a));
}

/// Vector addition is associative: `(a + b) + c == a + (b + c)`, for vectors
/// of one length over the field.
pub proof fn lemma_vector_sum_associative<F: ExactField>(
    a: Seq<F::Value>,
    b: Seq<F::Value>,
    c: Seq<F::Value>,
)
    requires
        a.len() == b.len(),
        b.len() == c.len(),
        all_in_field::<F>(a),
        all_in_field::<F>(b),
        all_in_field::<F>(c),
    ensures
        sum::<F>(sum::<F>(a, b), c) == sum::<F>(a, sum::<F>(b, c)),
{
    let left = sum::<F>(sum::<F>(a, b), c);
    let right = sum::<F>(a, sum::<F>(b, c));
    assert forall|i: int| 0 <= i < a.len() implies #[trigger] left[i] == right[i] by {
        assert(F::in_field(a[i]) && F::in_field(b[i]) && F::in_field(c[i]));
        F::lemma_add_associative(a[i], b[i], c[i]);
    }
    assert(left =~= right);
}

/// The zero vector is the identity of vector addition: `a + 0 == a`.
pub proof fn lemma_vector_sum_zero<F: ExactField>(a: Seq<F::Value>)
    requires
        all_in_field::<F>(a),
    ensures
        sum::<F>(a, zeros::<F>(a.len())) == a,
{
    let with_zero = sum::<F>(a, zeros::<F>(a.len()));
    assert forall|i: int| 0 <= i < a.len() implies #[trigger] with_zero[i] == a[i] by {
        assert(F::in_field(a[i]));
        F::lemma_add_zero(a[i]);
    }
    assert(with_zero =~= a);
}

/// Every vector has an additive inverse: `a + (-a) == 0`.
pub proof fn lemma_vector_sum_negated<F: ExactField>(a: Seq<F::Value>)
    requires
        all_in_field::<F>(a),
    ensures
        sum::<F>(a, negated::<F>(a)) == zeros::<F>(a.len()),
{
    let cancelled = sum::<F>(a, negated::<F>(a));
    assert forall|i: int| 0 <= i < a.len() implies #[trigger] cancelled[i] == F::zero_value() by {
        assert(F::in_field(a[i]));
        F::lemma_add_neg(a[i]);
    }
    assert(cancelled =~= zeros::<F>(a.len()));
}

/// Scaling distributes over vector addition: `(a + b) * k == a * k + b * k`.
pub proof fn lemma_scaling_distributes<F: ExactField>(
    a: Seq<F::Value>,
    b: Seq<F::Value>,
    k: F::Value,
)
    requires
        a.len() == b.len(),
        all_in_field::<F>(a),
        all_in_field::<F>(b),
        F::in_field(k),
    ensures
        scaled::<F>(sum::<F>(a, b), k) == sum::<F>(scaled::<F>(a, k), scaled::<F>(b, k)),
{
    let left = scaled::<F>(sum::<F>(a, b), k);
    let right = sum::<F>(scaled::<F>(a, k), scaled::<F>(b, k));
    assert forall|i: int| 0 <= i < a.len() implies #[trigger] left[i] == right[i] by {
        assert(F::in_field(a[i]) && F::in_field(b[i]));
        lemma_distributive_right::<F>(a[i], b[i], k);
    }
    assert(left =~= right);
}

/// Scaling by one changes nothing: `a * 1 == a`.
pub proof fn lemma_scaling_by_one<F: ExactField>(a: Seq<F::Value>)
    requires
        all_in_field::<F>(a),
    ensures
        scaled::<F>(a, F::one_value()) == a,
{
    let same = scaled::<F>(a, F::one_value());
    assert forall|i: int| 0 <= i < a.len() implies #[trigger] same[i] == a[i] by {
        assert(F::in_field(a[i]));
        F::lemma_mul_one(a[i]);
    }
    assert(same =~= a);
}

/// Whether `f(k, l)` belongs to the field for the first `p` values of `k`
/// and the first `q` values of `l`.
pub open spec fn table_in_field<F: Field>(f: spec_fn(int, int) -> F::Value, p: nat, q: nat) -> bool {
    forall|k: int, l: int| 0 <= k < p && 0 <= l < q ==> F::in_field(#[trigger] f(k, l))
}

/// A double sum may be taken in either order:
/// `Σ_l Σ_k f(k, l) == Σ_k Σ_l f(k, l)`.
pub proof fn lemma_sum_exchange<F: ExactField>(f: spec_fn(int, int) -> F::Value, p: nat, q: nat)
    requires
        table_in_field::<F>(f, p, q),
    ensures
        sum_of::<F>(summed_over_first::<F>(f, p), q) == sum_of::<F>(
            summed_over_second::<F>(f, q),
            p,
        ),
    decreases q,
{
    if q == 0 {
        lemma_sum_of_zeros::<F>(summed_over_second::<F>(f, 0), p);
    } else {
        let m = (q - 1) as nat;
        let last = along_first::<F>(f, m as int);
        let before = summed_over_second::<F>(f, m);
        lemma_sum_exchange::<F>(f, p, m);
        assert forall|k: int| 0 <= k < p implies F::in_field(#[trigger] before(k)) by {
            assert forall|l: int| 0 <= l < m implies F::in_field(
                #[trigger] along_second::<F>(f, k)(l),
            ) by {
                assert(F::in_field(f(k, l)));
            }
            lemma_sum_in_field::<F>(along_second::<F>(f, k), m);
        }
        assert forall|k: int| 0 <= k < p implies F::in_field(#[trigger] last(k)) by {
            assert(F::in_field(f(k, m as int)));
        }
        lemma_sum_of_added_terms::<F>(before, last, p);
        assert forall|k: int| 0 <= k < p implies #[trigger] summed_over_second::<F>(f, q)(k)
            == added_terms::<F>(before, last)(k) by {
            assert(along_second::<F>(f, k)(q - 1) == last(k));
        }
        lemma_sum_of_equal_terms::<F>(
            summed_over_second::<F>(f, q),
            added_terms::<F>(before, last),
            p,
        );
    }
}

/// A sum of zeros is zero.
pub proof fn lemma_sum_of_zeros<F: ExactField>(t: spec_fn(int) -> F::Value, n: nat)
    requires
        forall|k: int| 0 <= k < n ==> #[trigger] t(k) == F::zero_value(),
    ensures
        sum_of::<F>(t, n) == F::zero_value(),
    decreases n,
{
    if n > 0 {
        lemma_sum_of_zeros::<F>(t, (n - 1) as nat);
        assert(t(n - 1) == F::zero_value());
        F::lemma_identities();
        F::lemma_add_zero(F::zero_value());
    }
}

/// Whether every entry of the grid `g` belongs to the field.
pub open spec fn grid_in_field<F: Field>(g: Seq<Seq<F::Value>>) -> bool {
    forall|i: int| 0 <= i < g.len() ==> all_in_field::<F>(#[trigger] g[i])
}

/// The term `a[i][k] * (b[k][l] * c[l][j])` of entry `(i, j)` of a product of
/// three matrices.
pub open spec fn triple_terms<F: Field>(
    a: Seq<Seq<F::Value>>,
    b: Seq<Seq<F::Value>>,
    c: Seq<Seq<F::Value>>,
    i: int,
    j: int,
) -> spec_fn(int, int) -> F::Value {
    |k: int, l: int| F::mul_value(a[i][k], F::mul_value(b[k][l], c[l][j]))
}

/// The product of matrices over the field is a matrix over the field, of as
/// many rows as the left factor and as many columns as the right one.
pub proof fn lemma_product_in_field<F: ExactField>(
    a: Seq<Seq<F::Value>>,
    b: Seq<Seq<F::Value>>,
    m: nat,
    p: nat,
    n: nat,
)
    requires
        is_grid(a, m, p),
        is_grid(b, p, n),
        grid_in_field::<F>(a),
        grid_in_field::<F>(b),
    ensures
        is_grid(product::<F>(a, b, n), m, n),
        grid_in_field::<F>(product::<F>(a, b, n)),
{
    let ab = product::<F>(a, b, n);
    assert forall|i: int| 0 <= i < ab.len() implies all_in_field::<F>(#[trigger] ab[i]) by {
        assert forall|j: int| 0 <= j < ab[i].len() implies F::in_field(#[trigger] ab[i][j]) by {
            lemma_dot_is_sum::<F>(a[i], column(b, j), p);
            let t = product_terms::<F>(a[i], column(b, j));
            assert forall|k: int| 0 <= k < p implies F::in_field(#[trigger] t(k)) by {
                assert(all_in_field::<F>(a[i]));
                assert(all_in_field::<F>(b[k]));
                assert(F::in_field(a[i][k]));
                assert(F::in_field(b[k][j]));
                F::lemma_closed(a[i][k], b[k][j]);
            }
            lemma_sum_in_field::<F>(t, p);
        }
    }
}

/// Matrix multiplication is associative: for `a` of `m` by `p`, `b` of `p` by
/// `q` and `c` of `q` by `n` entries of the field, `(a * b) * c` and
/// `a * (b * c)` are the same matrix.
pub proof fn lemma_product_associative<F: ExactField>(
    a: Seq<Seq<F::Value>>,
    b: Seq<Seq<F::Value>>,
    c: Seq<Seq<F::Value>>,
    m: nat,
    p: nat,
    q: nat,
    n: nat,
)
    requires
        is_grid(a, m, p),
        is_grid(b, p, q),
        is_grid(c, q, n),
        grid_in_field::<F>(a),
        grid_in_field::<F>(b),
        grid_in_field::<F>(c),
    ensures
        product::<F>(product::<F>(a, b, q), c, n) == product::<F>(a, product::<F>(b, c, n), n),
{
    let ab = product::<F>(a, b, q);
    let bc = product::<F>(b, c, n);
    let left = product::<F>(ab, c, n);
    let right = product::<F>(a, bc, n);
    assert forall|i: int, j: int| 0 <= i < m && 0 <= j < n implies #[trigger] left[i][j]
        == right[i][j] by {
        lemma_entry_associative::<F>(a, b, c, m, p, q, n, i, j);
    }
    assert(left =~~= right);
}

/// Entry `(i, j)` of `(a * b) * c` is entry `(i, j)` of `a * (b * c)`: both
/// are the double sum of the terms `a[i][k] * (b[k][l] * c[l][j])`.
proof fn lemma_entry_associative<F: ExactField>(
    a: Seq<Seq<F::Value>>,
    b: Seq<Seq<F::Value>>,
    c: Seq<Seq<F::Value>>,
    m: nat,
    p: nat,
    q: nat,
    n: nat,
    i: int,
    j: int,
)
    requires
        is_grid(a, m, p),
        is_grid(b, p, q),
        is_grid(c, q, n),
        grid_in_field::<F>(a),
        grid_in_field::<F>(b),
        grid_in_field::<F>(c),
        0 <= i < m,
        0 <= j < n,
    ensures
        product::<F>(product::<F>(a, b, q), c, n)[i][j] == product::<F>(
            a,
            product::<F>(b, c, n),
            n,
        )[i][j],
{
    let ab = product::<F>(a, b, q);
    let bc = product::<F>(b, c, n);
    let f = triple_terms::<F>(a, b, c, i, j);
    assert forall|k: int, l: int| 0 <= k < p && 0 <= l < q implies F::in_field(
        #[trigger] f(k, l),
    ) by {
        assert(all_in_field::<F>(a[i]));
        assert(all_in_field::<F>(b[k]));
        assert(all_in_field::<F>(c[l]));
        assert(F::in_field(a[i][k]) && F::in_field(b[k][l]) && F::in_field(c[l][j]));
        F::lemma_closed(b[k][l], c[l][j]);
        F::lemma_closed(a[i][k], F::mul_value(b[k][l], c[l][j]));
    }
    // The left side, term by term: (Σ_k a[i][k] * b[k][l]) * c[l][j].
    let left_terms = product_terms::<F>(ab[i], column(c, j));
    lemma_dot_is_sum::<F>(ab[i], column(c, j), q);
    assert forall|l: int| 0 <= l < q implies #[trigger] left_terms(l) == summed_over_first::<F>(
        f,
        p,
    )(l) by {
        let g = product_terms::<F>(a[i], column(b, l));
        lemma_dot_is_sum::<F>(a[i], column(b, l), p);
        assert(all_in_field::<F>(c[l]));
        assert(F::in_field(c[l][j]));
        assert forall|k: int| 0 <= k < p implies F::in_field(#[trigger] g(k)) by {
            assert(all_in_field::<F>(a[i]));
            assert(all_in_field::<F>(b[k]));
            assert(F::in_field(a[i][k]) && F::in_field(b[k][l]));
            F::lemma_closed(a[i][k], b[k][l]);
        }
        lemma_sum_times::<F>(g, c[l][j], p);
        assert forall|k: int| 0 <= k < p implies #[trigger] terms_times::<F>(g, c[l][j])(k)
            == along_first::<F>(f, l)(k) by {
            assert(all_in_field::<F>(a[i]));
            assert(all_in_field::<F>(b[k]));
            assert(F::in_field(a[i][k]) && F::in_field(b[k][l]));
            F::lemma_mul_associative(a[i][k], b[k][l], c[l][j]);
        }
        lemma_sum_of_equal_terms::<F>(terms_times::<F>(g, c[l][j]), along_first::<F>(f, l), p);
    }
    lemma_sum_of_equal_terms::<F>(left_terms, summed_over_first::<F>(f, p), q);
    // The right side, term by term: a[i][k] * (Σ_l b[k][l] * c[l][j]).
    let right_terms = product_terms::<F>(a[i], column(bc, j));
    lemma_dot_is_sum::<F>(a[i], column(bc, j), p);
    assert forall|k: int| 0 <= k < p implies #[trigger] right_terms(k) == summed_over_second::<F>(
        f,
        q,
    )(k) by {
        let h = product_terms::<F>(b[k], column(c, j));
        lemma_dot_is_sum::<F>(b[k], column(c, j), q);
        assert(all_in_field::<F>(a[i]));
        assert(F::in_field(a[i][k]));
        assert forall|l: int| 0 <= l < q implies F::in_field(#[trigger] h(l)) by {
            assert(all_in_field::<F>(b[k]));
            assert(all_in_field::<F>(c[l]));
            assert(F::in_field(b[k][l]) && F::in_field(c[l][j]));
            F::lemma_closed(b[k][l], c[l][j]);
        }
        lemma_times_sum::<F>(a[i][k], h, q);
        assert forall|l: int| 0 <= l < q implies #[trigger] times_terms::<F>(a[i][k], h)(l)
            == along_second::<F>(f, k)(l) by {}
        lemma_sum_of_equal_terms::<F>(times_terms::<F>(a[i][k], h), along_second::<F>(f, k), q);
    }
    lemma_sum_of_equal_terms::<F>(right_terms, summed_over_second::<F>(f, q), p);
    lemma_sum_exchange::<F>(f, p, q);
}

} // verus!
