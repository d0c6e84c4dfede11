//! Various utility functions used throughout Conrod.

use vstd::prelude::*;
use vstd::std_specs::cmp::PartialOrdIs;
use vstd::std_specs::cmp::PartialOrdSpec;
use vstd::std_specs::cmp::PartialEqSpec;
use vstd::std_specs::ops::AddSpec;
use vstd::std_specs::ops::SubSpec;
use std::borrow::Cow;
use vstd::string::StrSliceExecFns;

verus! {

/// The index of the first `'.'` in `s`, if there is one.
pub open spec fn decimal_point(s: Seq<char>) -> Option<int>
    decreases s.len(),
{
    if s.len() == 0 {
        None
    } else if s.last() == '.' && decimal_point(s.drop_last()) is None {
        Some(s.len() - 1)
    } else {
        decimal_point(s.drop_last())
    }
}

/// A `'.'` with none before it is the first one.
pub(crate) proof fn lemma_decimal_point_at(s: Seq<char>, i: int)
    requires
        0 <= i < s.len(),
        s[i] == '.',
        forall|j: int| 0 <= j < i ==> s[j] != '.',
    ensures
        decimal_point(s) == Some(i),
    decreases s.len(),
{
    if i < s.len() - 1 {
        lemma_decimal_point_at(s.drop_last(), i);
    } else {
        lemma_no_decimal_point(s.drop_last());
    }
}

/// A text without a `'.'` has no decimal point.
pub(crate) proof fn lemma_no_decimal_point(s: Seq<char>)
    requires
        forall|j: int| 0 <= j < s.len() ==> s[j] != '.',
    ensures
        decimal_point(s) is None,
    decreases s.len(),
{
    if s.len() > 0 {
        lemma_no_decimal_point(s.drop_last());
    }
}


/// Ten to the power `n`.
pub open spec fn pow10(n: nat) -> int
    decreases n,
{
    if n == 0 {
        1
    } else {
        10 * pow10((n - 1) as nat)
    }
}

/// The number of digits that tell apart `pixel_range` pixel positions: the smallest number of
/// digits from `n` on whose power of ten reaches `pixel_range` (looking no further than 20).
pub open spec fn pixel_precision(pixel_range: int, n: nat) -> nat
    decreases 20 - n,
{
    if n >= 20 || pow10(n) >= pixel_range {
        n
    } else {
        pixel_precision(pixel_range, n + 1)
    }
}

/// The text `s` of a value, cut to a length suited to showing the value across `pixel_range`
/// pixels: a text without a decimal point stays whole; otherwise, with `p` the pixel precision,
/// it is cut to `min_string_len + p - 1` characters, or to the decimal point's position plus
/// `p` if that is shorter.
pub open spec fn truncated_val_string(s: Seq<char>, min_string_len: nat, pixel_range: nat) -> Seq<char> {
    match decimal_point(s) {
        None => s,
        Some(idx) => {
            let precision = pixel_precision(pixel_range as int, 1);
            let min_len = min_string_len + precision - 1;
            let truncate_len = if min_len >= precision && idx < min_len - precision {
                idx + precision
            } else {
                min_len
            };
            if s.len() > truncate_len {
                s.take(truncate_len)
            } else {
                s
            }
        },
    }
}

/// The position of the first `'.'` in `s`, if any.
fn find_decimal_point_in(s: &str) -> (r: Option<usize>)
    ensures
        decimal_point(s@) == (match r {
            Some(i) => Some(i as int),
            None => None,
        }),
        r matches Some(i) ==> i < s@.len(),
{
    let n = s.unicode_len();
    let mut i: usize = 0;
    while i < n
        invariant
            n == s@.len(),
            i <= n,
            forall|j: int| 0 <= j < i ==> s@[j] != '.',
        decreases n - i,
    {
        if s.get_char(i) == '.' {
            proof {
                lemma_decimal_point_at(s@, i as int);
            }
            return Some(i);
        }
        i = i + 1;
    }
    proof {
        lemma_no_decimal_point(s@);
    }
    None
}

/// Get a suitable string from the text `s` of a value, given the minimum length
/// `min_string_len` that the value's maximum and range need, and the number of pixels
/// `pixel_range` across which it is shown (see `truncated_val_string`). Lengths count
/// characters.
pub fn truncate_val_string(s: &str, min_string_len: usize, pixel_range: usize) -> (r: String)
    requires
        pixel_range <= 10_000_000_000_000_000_000u128,
        min_string_len + 20 <= usize::MAX,
    ensures
        r@ == truncated_val_string(s@, min_string_len as nat, pixel_range as nat),
{
    let n = s.unicode_len();
    let decimal = find_decimal_point_in(s);
    match decimal {
        None => s.to_owned(),
        Some(idx) => {
            proof {
                assert(pow10(19) == 10_000_000_000_000_000_000int) by {
                    reveal_with_fuel(pow10, 20);
                }
                assert(pow10(1) == 10) by {
                    reveal_with_fuel(pow10, 2);
                }
            }
            let mut precision: usize = 1;
            let mut pow: u128 = 10;
            while pow < pixel_range as u128
                invariant
                    1 <= precision <= 19,
                    pow >= 10,
                    pow == pow10(precision as nat),
                    pixel_range <= 10_000_000_000_000_000_000u128,
                    pow10(19) == 10_000_000_000_000_000_000int,
                    pixel_precision(pixel_range as int, 1) == pixel_precision(
                        pixel_range as int,
                        precision as nat,
                    ),
                decreases 19 - precision,
            {
                precision = precision + 1;
                pow = pow * 10;
            }
            let min_len = min_string_len + (precision - 1);
            let truncate_len = if min_len >= precision && idx < min_len - precision {
                idx + precision
            } else {
                min_len
            };
            if n > truncate_len {
                s.substring_char(0, truncate_len).to_owned()
            } else {
                s.to_owned()
            }
        },
    }
}

/// Compare two `PartialOrd` values and return the min.
///
/// `a` is returned when `a <= b`, otherwise `b`.
pub fn partial_min<T: PartialOrd>(a: T, b: T) -> (r: T)
    ensures
        r == a || r == b,
        T::obeys_partial_cmp_spec() ==> r == (if a.is_le(&b) { a } else { b }),
{
    if a <= b {
        a
    } else {
        b
    }
}

/// Compare two `PartialOrd` values and return the max.
///
/// `a` is returned when `a >= b`, otherwise `b`.
pub fn partial_max<T: PartialOrd>(a: T, b: T) -> (r: T)
    ensures
        r == a || r == b,
        T::obeys_partial_cmp_spec() ==> r == (if a.is_ge(&b) { a } else { b }),
{
    if a >= b {
        a
    } else {
        b
    }
}

/// What `clamp` computes, given its three arguments and the order of `T`.
pub open spec fn clamp_result<T: PartialOrd>(n: T, start: T, end: T) -> T {
    if start.is_le(&end) {
        if n.is_lt(&start) {
            start
        } else if n.is_gt(&end) {
            end
        } else {
            n
        }
    } else {
        if n.is_lt(&end) {
            end
        } else if n.is_gt(&start) {
            start
        } else {
            n
        }
    }
}

/// Clamp a value between some range.
///
/// The range bounds may be given in either order.
pub fn clamp<T: PartialOrd>(n: T, start: T, end: T) -> (r: T)
    ensures
        r == n || r == start || r == end,
        T::obeys_partial_cmp_spec() ==> r == clamp_result(n, start, end),
{
    if start <= end {
        if n < start {
            start
        } else if n > end {
            end
        } else {
            n
        }
    } else {
        if n < end {
            end
        } else if n > start {
            start
        } else {
            n
        }
    }
}


/// The floored modulo of `a` by `b`: the remainder takes the sign of the divisor, and its
/// magnitude is below that of the divisor.
pub open spec fn floored_modulo(a: int, b: int) -> int {
    let e = a % abs(b);
    if e == 0 {
        0
    } else if b > 0 {
        e
    } else {
        e + b
    }
}

/// The absolute value of an integer.
pub open spec fn abs(x: int) -> int {
    if x < 0 {
        -x
    } else {
        x
    }
}

/// Rust's remainder operator on signed integers: the result takes the sign of `x`.
pub open spec fn truncated_rem(x: int, d: int) -> int {
    if x == 0 {
        0
    } else if x > 0 && d > 0 {
        x % d
    } else if x < 0 && d < 0 {
        ((x * -1) % (d * -1)) * -1
    } else if x < 0 {
        ((x * -1) % d) * -1
    } else {
        x % (d * -1)
    }
}

proof fn lemma_truncated_rem_adjusts_to_floored(x: int, d: int)
    requires
        d != 0,
    ensures
        ({
            let r = truncated_rem(x, d);
            (if (r > 0 && d < 0) || (r < 0 && d > 0) { r + d } else { r })
        }) == floored_modulo(x, d),
{
    let dd = abs(d);
    if x == 0 {
        vstd::arithmetic::div_mod::lemma_fundamental_div_mod_converse(x, dd, 0, 0);
    } else if x > 0 {
        assert(truncated_rem(x, d) == x % dd);
    } else {
        let m = (-x) % dd;
        let q = (-x) / dd;
        vstd::arithmetic::div_mod::lemma_fundamental_div_mod(-x, dd);
        assert(-x == dd * q + m);
        assert(0 <= m < dd);
        assert(truncated_rem(x, d) == -m);
        if m == 0 {
            assert(x == (-q) * dd + 0) by (nonlinear_arith)
                requires -x == dd * q + m, m == 0;
            vstd::arithmetic::div_mod::lemma_fundamental_div_mod_converse(x, dd, -q, 0);
        } else {
            assert(x == (-q - 1) * dd + (dd - m)) by (nonlinear_arith)
                requires -x == dd * q + m;
            vstd::arithmetic::div_mod::lemma_fundamental_div_mod_converse(x, dd, -q - 1, dd - m);
        }
    }
}

/// The modulo function.
///
/// Unlike Rust's `%` (whose result takes the sign of `a`), the result takes the sign of `b`.
pub fn modulo(a: i64, b: i64) -> (r: i64)
    requires
        b != 0,
        !(a == i64::MIN && b == -1),
    ensures
        r == floored_modulo(a as int, b as int),
{
    let r = match a.checked_rem(b) {
        Some(r) => r,
        None => 0,
    };
    proof {
        lemma_truncated_rem_adjusts_to_floored(a as int, b as int);
    }
    if (r > 0 && b < 0) || (r < 0 && b > 0) {
        r + b
    } else {
        r
    }
}

/// Add `a` and `b`.
pub fn vec2_add<T>(a: [T; 2], b: [T; 2]) -> (r: [T; 2])
    where
        T: std::ops::Add<Output = T> + Copy,
    requires
        a[0].add_req(b[0]),
        a[1].add_req(b[1]),
    ensures
        T::obeys_add_spec() ==> r@ == seq![a[0].add_spec(b[0]), a[1].add_spec(b[1])],
{
    [a[0] + b[0], a[1] + b[1]]
}

/// Subtract `b` from `a`.
pub fn vec2_sub<T>(a: [T; 2], b: [T; 2]) -> (r: [T; 2])
    where
        T: std::ops::Sub<Output = T> + Copy,
    requires
        a[0].sub_req(b[0]),
        a[1].sub_req(b[1]),
    ensures
        T::obeys_sub_spec() ==> r@ == seq![a[0].sub_spec(b[0]), a[1].sub_spec(b[1])],
{
    [a[0] - b[0], a[1] - b[1]]
}

/// A type returned by the `iter_diff` function.
///
/// Represents the way in which the elements of a new sequence differ from those of some
/// existing sequence.
pub enum IterDiff<E> {
    /// The index of the first non-matching element along with the new sequence's remaining
    /// elements, starting with the first mis-matched element.
    FirstMismatch(usize, Vec<E>),
    /// The remaining elements of the new sequence.
    Longer(Vec<E>),
    /// The total number of elements that were in the new sequence.
    Shorter(usize),
}

/// The first `n` elements of `a` and `b` compare equal.
pub open spec fn agree_up_to<E: PartialEq>(a: Seq<E>, b: Seq<E>, n: int) -> bool {
    forall|j: int| 0 <= j < n ==> #[trigger] a[j].eq_spec(&b[j])
}

/// The lengths and remaining elements that `iter_diff` reports, whatever `==` means for `E`.
pub open spec fn iter_diff_shape<E>(a: Seq<E>, b: Seq<E>, d: Option<IterDiff<E>>) -> bool {
    match d {
        None => a.len() == b.len(),
        Some(IterDiff::FirstMismatch(i, rest)) => {
            &&& i < a.len()
            &&& i < b.len()
            &&& rest@ == b.subrange(i as int, b.len() as int)
        },
        Some(IterDiff::Longer(rest)) => {
            &&& a.len() < b.len()
            &&& rest@ == b.subrange(a.len() as int, b.len() as int)
        },
        Some(IterDiff::Shorter(n)) => b.len() < a.len() && n == b.len(),
    }
}

/// What `iter_diff` reports about the existing elements `a` and the new elements `b`.
pub open spec fn iter_diff_describes<E: PartialEq>(
    a: Seq<E>,
    b: Seq<E>,
    d: Option<IterDiff<E>>,
) -> bool {
    match d {
        None => a.len() == b.len() && agree_up_to(a, b, a.len() as int),
        Some(IterDiff::FirstMismatch(i, rest)) => {
            &&& i < a.len()
            &&& i < b.len()
            &&& agree_up_to(a, b, i as int)
            &&& !a[i as int].eq_spec(&b[i as int])
            &&& rest@ == b.subrange(i as int, b.len() as int)
        },
        Some(IterDiff::Longer(rest)) => {
            &&& a.len() < b.len()
            &&& agree_up_to(a, b, a.len() as int)
            &&& rest@ == b.subrange(a.len() as int, b.len() as int)
        },
        Some(IterDiff::Shorter(n)) => {
            &&& b.len() < a.len()
            &&& n == b.len()
            &&& agree_up_to(a, b, b.len() as int)
        },
    }
}

/// Compares every element of `a` and `b` in lock-step.
///
/// If `b` holds fewer elements than `a` (and they agree so far), the number of `b` elements is
/// returned as `IterDiff::Shorter`.
///
/// If the two elements of a step differ, the index of those elements along with the remaining
/// elements of `b` are returned as `IterDiff::FirstMismatch`.
///
/// If `a` becomes exhausted before `b`, the remaining `b` elements are returned as
/// `IterDiff::Longer`.
///
/// Returns `None` when both hold the same elements.
pub fn iter_diff<E: PartialEq>(a: &[E], b: Vec<E>) -> (r: Option<IterDiff<E>>)
    ensures
        iter_diff_shape(a@, b@, r),
        E::obeys_eq_spec() ==> iter_diff_describes(a@, b@, r),
{
    let ghost b0 = b@;
    let mut new_elems = b;
    let mut i: usize = 0;
    while i < a.len()
        invariant
            new_elems@ == b0,
            b@ == b0,
            0 <= i <= a.len(),
            i <= b0.len(),
            E::obeys_eq_spec() ==> agree_up_to(a@, b0, i as int),
        decreases a.len() - i,
    {
        if i >= new_elems.len() {
            return Some(IterDiff::Shorter(i));
        }
        if a[i] != new_elems[i] {
            let rest = new_elems.split_off(i);
            return Some(IterDiff::FirstMismatch(i, rest));
        }
        i = i + 1;
    }
    if i < new_elems.len() {
        let rest = new_elems.split_off(i);
        Some(IterDiff::Longer(rest))
    } else {
        None
    }
}

/// The length of the longest common prefix of `a` and `b`, comparing elements with `==`.
pub open spec fn common_prefix_len<E: PartialEq>(a: Seq<E>, b: Seq<E>, k: int) -> bool {
    &&& 0 <= k <= a.len()
    &&& k <= b.len()
    &&& agree_up_to(a, b, k)
    &&& (k < a.len() && k < b.len() ==> !a[k].eq_spec(&b[k]))
}

/// What `write_if_different` returns for the existing `elems` and the `new_elems`.
///
/// When both hold the same elements, `elems` is borrowed. Otherwise a new vector of the same
/// length as `new_elems` is made: its elements before the first difference are clones of those
/// of `elems`, and the others are those of `new_elems`.
pub open spec fn write_if_different_result<T: PartialEq + Clone>(
    elems: Seq<T>,
    new_elems: Seq<T>,
    r: Cow<'_, [T]>,
) -> bool {
    match r {
        Cow::Borrowed(b) => {
            &&& b@ == elems
            &&& elems.len() == new_elems.len()
            &&& agree_up_to(elems, new_elems, elems.len() as int)
        },
        Cow::Owned(v) => {
            &&& !(elems.len() == new_elems.len() && agree_up_to(elems, new_elems, elems.len() as int))
            &&& v@.len() == new_elems.len()
            &&& exists|k: int|
                {
                    &&& #[trigger] common_prefix_len(elems, new_elems, k)
                    &&& forall|j: int| 0 <= j < k ==> cloned(elems[j], #[trigger] v@[j])
                    &&& forall|j: int| k <= j < v@.len() ==> #[trigger] v@[j] == new_elems[j]
                }
        },
    }
}

/// Clones the first `n` elements of `elems` into a new vector.
fn clone_prefix<T: Clone>(elems: &[T], n: usize) -> (v: Vec<T>)
    requires
        n <= elems@.len(),
    ensures
        v@.len() == n,
        forall|j: int| 0 <= j < n ==> cloned(elems@[j], #[trigger] v@[j]),
{
    let mut v: Vec<T> = Vec::new();
    let mut i: usize = 0;
    while i < n
        invariant
            i <= n,
            n <= elems@.len(),
            v@.len() == i,
            forall|j: int| 0 <= j < i ==> cloned(elems@[j], #[trigger] v@[j]),
        decreases n - i,
    {
        v.push(elems[i].clone());
        i = i + 1;
    }
    v
}

/// Returns `Borrowed` `elems` if `elems` contains the same elements as `new_elems`.
///
/// Allocates a new `Vec<T>` and returns `Owned` if either the number of elements or the elements
/// themselves differ.
pub fn write_if_different<'a, T: PartialEq + Clone>(elems: &'a [T], new_elems: Vec<T>) -> (r: Cow<'a, [T]>)
    ensures
        T::obeys_eq_spec() ==> write_if_different_result(elems@, new_elems@, r),
{
    let ghost ne = new_elems@;
    match iter_diff(elems, new_elems) {
        Some(IterDiff::FirstMismatch(i, mismatch)) => {
            let mut v = clone_prefix(elems, i);
            let mut mismatch = mismatch;
            v.append(&mut mismatch);
            proof {
                if T::obeys_eq_spec() {
                    assert(common_prefix_len(elems@, ne, i as int));
                }
            }
            Cow::Owned(v)
        },
        Some(IterDiff::Longer(remaining)) => {
            let mut v = clone_prefix(elems, elems.len());
            let mut remaining = remaining;
            v.append(&mut remaining);
            proof {
                if T::obeys_eq_spec() {
                    assert(common_prefix_len(elems@, ne, elems@.len() as int));
                }
            }
            Cow::Owned(v)
        },
        Some(IterDiff::Shorter(num_new_elems)) => {
            let v = clone_prefix(elems, num_new_elems);
            proof {
                if T::obeys_eq_spec() {
                    assert(common_prefix_len(elems@, ne, num_new_elems as int));
                }
            }
            Cow::Owned(v)
        },
        None => Cow::Borrowed(elems),
    }
}

/// Compares two sequences to see if they hold the same elements.
pub fn iter_eq<T: PartialEq>(a: &[T], b: &[T]) -> (r: bool)
    ensures
        T::obeys_eq_spec() ==> (r <==> a@.len() == b@.len() && agree_up_to(a@, b@, a@.len() as int)),
{
    let mut i: usize = 0;
    loop
        invariant
            0 <= i <= a.len(),
            i <= b.len(),
            T::obeys_eq_spec() ==> agree_up_to(a@, b@, i as int),
        decreases a.len() - i,
    {
        if i == a.len() || i == b.len() {
            return i == a.len() && i == b.len();
        }
        if a[i] != b[i] {
            return false;
        }
        i = i + 1;
    }
}

/// For integers, `clamp` keeps the value within the range between its bounds, given in either
/// order, and leaves a value within the range as it is.
pub proof fn law_clamp_in_range(n: i64, start: i64, end: i64)
    ensures
        ({
            let r = clamp_result(n, start, end);
            let lo = if start <= end { start } else { end };
            let hi = if start <= end { end } else { start };
            &&& lo <= r <= hi
            &&& (lo <= n <= hi ==> r == n)
        }),
{
}

/// For integers, clamping twice is clamping once, and the order of the bounds does not matter.
pub proof fn law_clamp_idempotent_and_symmetric(n: i64, start: i64, end: i64)
    ensures
        clamp_result(clamp_result(n, start, end), start, end) == clamp_result(n, start, end),
        clamp_result(n, start, end) == clamp_result(n, end, start),
{
}

/// The order of `T` is total and strict on the values of `xs`: any two are equal or one is less
/// than the other, never both ways; greater is less the other way round, less-or-equal is less or
/// equal, and less is transitive. (No NaN among them, for floats.)
pub open spec fn totally_ordered_on<T: PartialOrd>(xs: Seq<T>) -> bool {
    &&& forall|i: int, j: int|
        #![trigger xs[i], xs[j]]
        0 <= i < xs.len() && 0 <= j < xs.len() ==> {
            &&& (xs[i].is_lt(&xs[j]) || xs[i] == xs[j] || xs[j].is_lt(&xs[i]))
            &&& !(xs[i].is_lt(&xs[j]) && (xs[j].is_lt(&xs[i]) || xs[i] == xs[j]))
            &&& (xs[i].is_gt(&xs[j]) <==> xs[j].is_lt(&xs[i]))
            &&& (xs[i].is_le(&xs[j]) <==> (xs[i].is_lt(&xs[j]) || xs[i] == xs[j]))
        }
    &&& forall|i: int, j: int, k: int|
        #![trigger xs[i], xs[j], xs[k]]
        0 <= i < xs.len() && 0 <= j < xs.len() && 0 <= k < xs.len() && xs[i].is_lt(&xs[j])
            && xs[j].is_lt(&xs[k]) ==> xs[i].is_lt(&xs[k])
}

/// For any type whose order is total on the three values, clamping twice is clamping once, and
/// the order of the bounds does not matter.
pub proof fn law_clamp_idempotent_and_symmetric_when_total<T: PartialOrd>(n: T, start: T, end: T)
    requires
        totally_ordered_on(seq![n, start, end]),
    ensures
        clamp_result(clamp_result(n, start, end), start, end) == clamp_result(n, start, end),
        clamp_result(n, start, end) == clamp_result(n, end, start),
{
    let xs = seq![n, start, end];
    assert(xs[0] == n && xs[1] == start && xs[2] == end);
}

/// For integers, `partial_min` gives the smaller and `partial_max` the larger of two values.
pub proof fn law_min_max(a: i64, b: i64)
    ensures
        (if a.is_le(&b) { a } else { b }) <= a,
        (if a.is_le(&b) { a } else { b }) <= b,
        (if a.is_ge(&b) { a } else { b }) >= a,
        (if a.is_ge(&b) { a } else { b }) >= b,
{
}

/// The floored modulo takes the sign of the divisor, is smaller in magnitude than the divisor,
/// and differs from the dividend by a multiple of the divisor.
pub proof fn law_modulo_range(a: int, b: int)
    requires
        b != 0,
    ensures
        b > 0 ==> 0 <= floored_modulo(a, b) < b,
        b < 0 ==> b < floored_modulo(a, b) <= 0,
        (a - floored_modulo(a, b)) % abs(b) == 0,
{
    let m = abs(b);
    let e = a % m;
    assert(0 <= e < m);
    assert((a - e) % m == 0) by {
        vstd::arithmetic::div_mod::lemma_fundamental_div_mod(a, m);
        vstd::arithmetic::div_mod::lemma_mod_multiples_basic(a / m, m);
        assert(a - e == m * (a / m));
        vstd::arithmetic::mul::lemma_mul_is_commutative(m, a / m);
    }
    if e != 0 && b < 0 {
        assert((a - (e + b)) % m == 0) by {
            vstd::arithmetic::div_mod::lemma_fundamental_div_mod(a, m);
            assert(a - (e + b) == m * (a / m) + m);
            vstd::arithmetic::mul::lemma_mul_is_distributive_add(m, a / m, 1);
            vstd::arithmetic::div_mod::lemma_mod_multiples_basic(a / m + 1, m);
            vstd::arithmetic::mul::lemma_mul_is_commutative(m, a / m + 1);
        }
    }
}

/// Two sequences compare equal (`iter_eq`) exactly when `iter_diff` finds no difference
/// between them.
pub proof fn law_iter_eq_iff_no_diff<E: PartialEq>(a: Seq<E>, b: Seq<E>, d: Option<IterDiff<E>>)
    requires
        iter_diff_describes(a, b, d),
    ensures
        (d is None) <==> (a.len() == b.len() && agree_up_to(a, b, a.len() as int)),
{
    match d {
        Some(IterDiff::FirstMismatch(i, _)) => {
            assert(!a[i as int].eq_spec(&b[i as int]));
        },
        _ => {},
    }
}

/// For elements whose clones and comparisons are exact, `write_if_different` always gives the
/// new elements: borrowed when they are the existing ones, owned otherwise.
pub proof fn law_write_if_different_gives_new_elems<T: PartialEq + Clone>(
    elems: Seq<T>,
    new_elems: Seq<T>,
    r: Cow<'_, [T]>,
)
    requires
        forall|a: T, b: T| #[trigger] a.eq_spec(&b) <==> a == b,
        forall|a: T, b: T| #[trigger] cloned(a, b) ==> a == b,
        write_if_different_result(elems, new_elems, r),
    ensures
        match r {
            Cow::Borrowed(b) => b@ == new_elems && elems == new_elems,
            Cow::Owned(v) => v@ == new_elems && elems != new_elems,
        },
{
    match r {
        Cow::Borrowed(b) => {
            assert forall|j: int| 0 <= j < elems.len() implies #[trigger] elems[j] == new_elems[j] by {
                assert(elems[j].eq_spec(&new_elems[j]));
            }
            assert(elems =~= new_elems);
        },
        Cow::Owned(v) => {
            let k = choose|k: int|
                {
                    &&& #[trigger] common_prefix_len(elems, new_elems, k)
                    &&& forall|j: int| 0 <= j < k ==> cloned(elems[j], #[trigger] v@[j])
                    &&& forall|j: int| k <= j < v@.len() ==> #[trigger] v@[j] == new_elems[j]
                };
            assert forall|j: int| 0 <= j < k implies #[trigger] v@[j] == new_elems[j] by {
                assert(cloned(elems[j], v@[j]));
                assert(elems[j].eq_spec(&new_elems[j]));
            }
            assert(v@ =~= new_elems);
            if elems == new_elems {
                assert(agree_up_to(elems, new_elems, elems.len() as int));
            }
        },
    }
}

} // verus!
