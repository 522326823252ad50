use vstd::prelude::*;

verus! {

/// The smallest multiple of `m` that is at least `x`.
pub open spec fn align_up(x: int, m: int) -> int {
    if x % m == 0 {
        x
    } else {
        x + (m - x % m)
    }
}

/// Rounds `value` up to the nearest multiple of `multiple`.
pub fn align_to_preferred_multiple(value: usize, multiple: usize) -> (r: usize)
    requires
        multiple > 0,
        align_up(value as int, multiple as int) <= usize::MAX,
    ensures
        r == align_up(value as int, multiple as int),
        r % multiple == 0,
        value <= r < value + multiple,
{
    let rem = value % multiple;
    if rem == 0 {
        value
    } else {
        proof {
            lemma_align_up_is_multiple(value as int, multiple as int);
        }
        value + (multiple - rem)
    }
}

/// Rounds `value` up to a multiple of `multiple`, or gives `None` where that
/// multiple does not fit in a `usize`.
pub fn checked_align(value: usize, multiple: usize) -> (r: Option<usize>)
    requires
        multiple > 0,
    ensures
        r == (if align_up(value as int, multiple as int) <= usize::MAX {
            Some(align_up(value as int, multiple as int) as usize)
        } else {
            None::<usize>
        }),
{
    let rem = value % multiple;
    if rem == 0 {
        Some(value)
    } else {
        let pad = multiple - rem;
        if value > usize::MAX - pad {
            None
        } else {
            Some(value + pad)
        }
    }
}

/// An aligned value is a multiple, lies in `[x, x + m)`, and is the least such.
pub proof fn lemma_align_up_is_multiple(x: int, m: int)
    requires
        m > 0,
        x >= 0,
    ensures
        align_up(x, m) % m == 0,
        x <= align_up(x, m) < x + m,
        forall|y: int| y >= x && #[trigger] (y % m) == 0 ==> align_up(x, m) <= y,
{
    vstd::arithmetic::div_mod::lemma_fundamental_div_mod(x, m);
    if x % m != 0 {
        let q = x / m;
        assert(align_up(x, m) == m * (q + 1)) by (nonlinear_arith)
            requires
                x == m * q + x % m,
                align_up(x, m) == x + (m - x % m),
        ;
        vstd::arithmetic::div_mod::lemma_mod_multiples_basic(q + 1, m);
    }
    assert forall|y: int| y >= x && #[trigger] (y % m) == 0 implies align_up(x, m) <= y by {
        vstd::arithmetic::div_mod::lemma_fundamental_div_mod(y, m);
        if x % m != 0 && y < align_up(x, m) {
            let q = x / m;
            assert(align_up(x, m) == m * (q + 1)) by (nonlinear_arith)
                requires
                    x == m * q + x % m,
                    align_up(x, m) == x + (m - x % m),
            ;
            if y / m <= x / m {
                assert(m * (y / m) <= m * (x / m)) by (nonlinear_arith)
                    requires y / m <= x / m, m > 0;
            } else {
                assert(m * (y / m) >= m * (x / m + 1)) by (nonlinear_arith)
                    requires y / m >= x / m + 1, m > 0;
            }
        }
    }
}

/// Aligning is idempotent: an aligned value aligns to itself.
pub proof fn lemma_align_idempotent(x: int, m: int)
    requires
        m > 0,
        x >= 0,
    ensures
        align_up(align_up(x, m), m) == align_up(x, m),
{
    lemma_align_up_is_multiple(x, m);
}

/// Aligning keeps order: `x <= y` gives `align(x) <= align(y)`.
pub proof fn lemma_align_monotonic(x: int, y: int, m: int)
    requires
        m > 0,
        0 <= x <= y,
    ensures
        align_up(x, m) <= align_up(y, m),
{
    lemma_align_up_is_multiple(x, m);
    lemma_align_up_is_multiple(y, m);
}

} // verus!
