//! Selecting which of the six pose parameters `[wx, wy, wz, tx, ty, tz]` an
//! estimation optimises.
use vstd::prelude::*;

verus! {

/// Number of pose parameters (three for rotation, three for translation).
pub const POSE_DOF: usize = 6;

/// Every parameter is optimised.
pub const DOF_ALL: [bool; 6] = [true, true, true, true, true, true];

/// Only the rotation is optimised.
pub const DOF_ROTATION: [bool; 6] = [true, true, true, false, false, false];

/// Only the translation is optimised.
pub const DOF_TRANSLATION: [bool; 6] = [false, false, false, true, true, true];

/// Number of parameters among the first `p` that `mask` marks.
pub open spec fn marked_before(mask: [bool; 6], p: int) -> nat
    decreases p,
{
    if p <= 0 {
        0
    } else {
        marked_before(mask, p - 1) + if mask[p - 1] {
            1nat
        } else {
            0nat
        }
    }
}

/// Number of parameters that `mask` marks.
pub open spec fn marked_count(mask: [bool; 6]) -> nat {
    marked_before(mask, 6)
}

/// `active` lists, in increasing order, exactly the parameters that `mask`
/// marks.
pub open spec fn lists_active(mask: [bool; 6], active: Seq<usize>) -> bool {
    &&& forall|c: int| 0 <= c < active.len() ==> #[trigger] active[c] < 6 && mask[active[c] as int]
    &&& forall|a: int, b: int| 0 <= a < b < active.len() ==> active[a] < active[b]
    &&& forall|p: int| 0 <= p < 6 && mask[p] ==> exists|c: int| 0 <= c < active.len() && #[trigger] active[c] == p
}

/// The indices of the parameters that `mask` marks, in increasing order (the
/// columns kept from the full pose Jacobian).
pub fn active_dofs(mask: [bool; 6]) -> (active: Vec<usize>)
    ensures
        lists_active(mask, active@),
        active@.len() == marked_count(mask),
        active@.len() <= 6,
{
    let mut active: Vec<usize> = Vec::new();
    let mut p: usize = 0;
    while p < POSE_DOF
        invariant
            p <= 6,
            active@.len() <= p,
            active@.len() == marked_before(mask, p as int),
            forall|c: int| 0 <= c < active@.len() ==> #[trigger] active@[c] < p && mask[active@[c] as int],
            forall|a: int, b: int| 0 <= a < b < active@.len() ==> active@[a] < active@[b],
            forall|q: int| 0 <= q < p && mask[q] ==> exists|c: int| 0 <= c < active@.len() && #[trigger] active@[c] == q,
        decreases 6 - p,
    {
        if mask[p] {
            let ghost before = active@;
            active.push(p);
            proof {
                assert forall|q: int| 0 <= q < p + 1 && mask[q] implies exists|c: int|
                    0 <= c < active@.len() && #[trigger] active@[c] == q by {
                    if q == p {
                        assert(active@[before.len() as int] == q);
                    } else {
                        let c = choose|c: int| 0 <= c < before.len() && #[trigger] before[c] == q;
                        assert(active@[c] == q);
                    }
                }
            }
        }
        p = p + 1;
    }
    active
}

/// The full six-entry parameter step: `values[c]` at position `active[c]`,
/// and `zero` at every parameter that is not active.
pub fn expand_dofs<T: Copy>(active: &[usize], values: &[T], zero: T) -> (full: Vec<T>)
    requires
        active@.len() == values@.len(),
        forall|c: int| 0 <= c < active@.len() ==> #[trigger] active@[c] < 6,
        forall|a: int, b: int| 0 <= a < b < active@.len() ==> active@[a] != active@[b],
    ensures
        full@.len() == 6,
        forall|c: int| 0 <= c < active@.len() ==> full@[#[trigger] active@[c] as int] == values@[c],
        forall|p: int|
            0 <= p < 6 && (forall|c: int| 0 <= c < active@.len() ==> #[trigger] active@[c] != p)
                ==> full@[p] == zero,
{
    let mut full: Vec<T> = Vec::new();
    while full.len() < POSE_DOF
        invariant
            full@.len() <= 6,
            forall|p: int| 0 <= p < full@.len() ==> full@[p] == zero,
        decreases 6 - full@.len(),
    {
        full.push(zero);
    }
    let mut c: usize = 0;
    while c < active.len()
        invariant
            active@.len() == values@.len(),
            forall|d: int| 0 <= d < active@.len() ==> #[trigger] active@[d] < 6,
            forall|a: int, b: int| 0 <= a < b < active@.len() ==> active@[a] != active@[b],
            c <= active@.len(),
            full@.len() == 6,
            forall|d: int| 0 <= d < c ==> full@[#[trigger] active@[d] as int] == values@[d],
            forall|p: int|
                0 <= p < 6 && (forall|d: int| 0 <= d < c ==> #[trigger] active@[d] != p) ==> full@[p]
                    == zero,
        decreases active@.len() - c,
    {
        let p = active[c];
        full.set(p, values[c]);
        proof {
            assert forall|d: int| 0 <= d < c + 1 implies full@[#[trigger] active@[d] as int]
                == values@[d] by {
                if d < c {
                    assert(active@[d] != active@[c as int]);
                }
            }
            assert forall|q: int|
                0 <= q < 6 && (forall|d: int| 0 <= d < c + 1 ==> #[trigger] active@[d] != q)
                    implies full@[q] == zero by {
                assert(active@[c as int] != q);
                assert forall|d: int| 0 <= d < c implies #[trigger] active@[d] != q by {
                }
            }
        }
        c = c + 1;
    }
    full
}

/// Whether `n_points` correspondences, two equations each, are at least as
/// many as the `n_dof` parameters to estimate.
pub fn enough_points(n_points: usize, n_dof: usize) -> (ok: bool)
    ensures
        ok == (2 * n_points >= n_dof),
{
    n_points >= n_dof / 2 + n_dof % 2
}


/// What a pose estimation does with its input.
#[derive(Debug)]
pub enum PoseInput {
    /// The numbers of 3D points and of 2D observations differ.
    CountMismatch,
    /// There is no correspondence at all.
    NoPoints,
    /// The mask selects no parameter: the initial pose is returned as it is.
    NothingToOptimize,
    /// Two equations per correspondence are fewer than the `n_dof` parameters.
    TooFewPoints { n_dof: usize, n_points: usize },
    /// Estimation proceeds over the listed parameters.
    Ready { active: Vec<usize> },
}

/// Checks the input of a pose estimation with `n_3d` model points, `n_2d`
/// observations and the parameter mask `mask`, in this order: the counts
/// agree, there is a correspondence, some parameter is selected, and there
/// are enough correspondences for the selected parameters.
pub fn check_pose_input(n_3d: usize, n_2d: usize, mask: [bool; 6]) -> (r: PoseInput)
    ensures
        n_3d != n_2d ==> r is CountMismatch,
        n_3d == n_2d && n_3d == 0 ==> r is NoPoints,
        n_3d == n_2d && n_3d > 0 && marked_count(mask) == 0 ==> r is NothingToOptimize,
        n_3d == n_2d && n_3d > 0 && marked_count(mask) > 0 && 2 * n_3d < marked_count(mask) ==> r
            == (PoseInput::TooFewPoints { n_dof: marked_count(mask) as usize, n_points: n_3d }),
        n_3d == n_2d && n_3d > 0 && marked_count(mask) > 0 && 2 * n_3d >= marked_count(mask) ==> (
        r matches PoseInput::Ready { active } && lists_active(mask, active@)),
{
    if n_3d != n_2d {
        return PoseInput::CountMismatch;
    }
    if n_3d == 0 {
        return PoseInput::NoPoints;
    }
    let active = active_dofs(mask);
    let n_dof = active.len();
    if n_dof == 0 {
        PoseInput::NothingToOptimize
    } else if !enough_points(n_3d, n_dof) {
        PoseInput::TooFewPoints { n_dof, n_points: n_3d }
    } else {
        PoseInput::Ready { active }
    }
}

} // verus!
