use vstd::prelude::*;

use crate::fixed::{normalize, normalized, Vec2, SCALE};

verus! {

/// Relies on `rand::random::<u32>`: one value from the thread-local
/// generator. Nothing is promised of it beyond its type.
#[verifier::external_body]
fn draw_u32() -> (r: u32) {
    rand::random::<u32>()
}

/// A random value in `[0, n)`.
pub fn random_below(n: u32) -> (r: u32)
    requires
        n > 0,
    ensures
        r < n,
{
    draw_u32() % n
}

/// A random unit direction: a vector with components drawn from `[-1, 1]`
/// (in milli-units), scaled to unit length. Should both components come out
/// zero, the direction is along the x axis.
pub fn random_direction() -> (r: Vec2)
    ensures
        r.is_unit(),
        exists|x: int, y: int|
            -SCALE <= x <= SCALE && -SCALE <= y <= SCALE && (x != 0 || y != 0) && r
                == #[trigger] normalized(x, y),
{
    let x: i64 = random_below(2 * SCALE as u32 + 1) as i64 - SCALE;
    let y: i64 = random_below(2 * SCALE as u32 + 1) as i64 - SCALE;
    if x == 0 && y == 0 {
        normalize(SCALE, 0)
    } else {
        normalize(x, y)
    }
}

} // verus!
