//! Dice: a single trusted roll of one uniform die in [1, 6], and a
//! verified helper that rolls a handful of dice and orders them highest
//! first, as combat compares them.

use rand::distributions::Distribution;
use vstd::prelude::*;

verus! {

/// Every die in `s` shows a face between 1 and 6.
pub open spec fn dice_in_range(s: Seq<u8>) -> bool {
    forall|i: int| 0 <= i < s.len() ==> 1 <= #[trigger] s[i] <= 6
}

/// `s` is ordered highest first.
pub open spec fn desc_sorted(s: Seq<u8>) -> bool {
    forall|i: int, j: int| 0 <= i <= j < s.len() ==> s[i] >= s[j]
}

/// Relies on rand's `thread_rng` and `Uniform::from(1..7)`: the sample
/// is drawn from the half-open range [1, 7), so it lies in [1, 6].
#[verifier::external_body]
fn roll_die() -> (r: u8)
    ensures
        1 <= r <= 6,
{
    let faces = rand::distributions::Uniform::from(1u8..7u8);
    faces.sample(&mut rand::thread_rng())
}

/// Roll `n` independent dice and hand them back highest first.
pub(crate) fn roll_dice_sorted(n: usize) -> (v: Vec<u8>)
    requires
        1 <= n <= 3,
    ensures
        v@.len() == n,
        dice_in_range(v@),
        desc_sorted(v@),
{
    let mut v: Vec<u8> = Vec::new();
    let mut i: usize = 0;
    while i < n
        invariant
            i <= n,
            v@.len() == i,
            dice_in_range(v@),
        decreases n - i,
    {
        v.push(roll_die());
        i += 1;
    }
    if n >= 2 {
        if v[0] < v[1] {
            let t = v[0];
            v[0] = v[1];
            v[1] = t;
        }
        if n == 3 {
            if v[1] < v[2] {
                let t = v[1];
                v[1] = v[2];
                v[2] = t;
            }
            if v[0] < v[1] {
                let t = v[0];
                v[0] = v[1];
                v[1] = t;
            }
        }
    }
    v
}

} // verus!
