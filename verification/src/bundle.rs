//! The layout of the unknowns in bundle adjustment.
//!
//! The parameter vector holds six pose parameters for every camera that is
//! not held fixed, followed by three coordinates for every point:
//! `[camera fixed.. (6 each) | point 0.. (3 each)]`. When the first camera is
//! held fixed (to remove the gauge freedom) it owns no column.
use vstd::prelude::*;

verus! {

/// Why a bundle-adjustment input is refused.
#[derive(Debug, PartialEq, Eq, Structural)]
pub enum BundleError {
    /// The first camera is to be held fixed but there is no camera.
    NoCameraToFix,
    /// The number of unknowns does not fit in `usize`.
    TooManyUnknowns,
    /// Two residuals per observation are fewer than the unknowns.
    TooFewObservations { unknowns: usize, residuals: usize },
}

/// Shape of a bundle-adjustment problem.
#[derive(Debug, PartialEq, Eq, Structural)]
pub struct BundleLayout {
    pub n_cameras: usize,
    pub n_points: usize,
    pub fix_first_camera: bool,
}

impl BundleLayout {
    /// Number of cameras without columns (1 when the first camera is fixed).
    pub open spec fn fixed(&self) -> nat {
        if self.fix_first_camera {
            1
        } else {
            0
        }
    }

    /// The layout describes at least the fixed cameras and fits in `usize`.
    pub open spec fn valid(&self) -> bool {
        &&& self.n_cameras >= self.fixed()
        &&& 6 * (self.n_cameras - self.fixed()) + 3 * self.n_points <= usize::MAX
    }

    /// Number of camera columns.
    pub open spec fn spec_camera_columns(&self) -> nat {
        (6 * (self.n_cameras - self.fixed())) as nat
    }

    /// Number of columns (unknowns) in all.
    pub open spec fn spec_columns(&self) -> nat {
        self.spec_camera_columns() + 3 * (self.n_points as nat)
    }

    /// Column of parameter `k < 6` of camera `cam >= fixed`.
    pub open spec fn camera_col(&self, cam: int, k: int) -> int {
        6 * (cam - self.fixed()) + k
    }

    /// Column of coordinate `k < 3` of point `point`.
    pub open spec fn point_col(&self, point: int, k: int) -> int {
        self.spec_camera_columns() + 3 * point + k
    }

    /// A layout for `n_cameras` cameras and `n_points` points.
    pub fn new(n_cameras: usize, n_points: usize, fix_first_camera: bool) -> (l: BundleLayout)
        ensures
            l.n_cameras == n_cameras,
            l.n_points == n_points,
            l.fix_first_camera == fix_first_camera,
    {
        BundleLayout { n_cameras, n_points, fix_first_camera }
    }

    /// The layout of a problem with `n_cameras` cameras, `n_points` points and
    /// `n_observations` observations, or why the input is refused: no camera
    /// to fix, more unknowns than `usize` holds, or fewer residuals than
    /// unknowns (checked in this order).
    pub fn checked(
        n_cameras: usize,
        n_points: usize,
        n_observations: usize,
        fix_first_camera: bool,
    ) -> (r: Result<BundleLayout, BundleError>)
        ensures
            fix_first_camera && n_cameras == 0 ==> r == Err::<BundleLayout, BundleError>(
                BundleError::NoCameraToFix,
            ),
            !(fix_first_camera && n_cameras == 0) && !Self::new_spec(
                n_cameras,
                n_points,
                fix_first_camera,
            ).valid() ==> r == Err::<BundleLayout, BundleError>(BundleError::TooManyUnknowns),
            Self::new_spec(n_cameras, n_points, fix_first_camera).valid() && 2 * n_observations
                >= Self::new_spec(n_cameras, n_points, fix_first_camera).spec_columns() ==> r
                == Ok::<BundleLayout, BundleError>(
                Self::new_spec(n_cameras, n_points, fix_first_camera),
            ),
            Self::new_spec(n_cameras, n_points, fix_first_camera).valid() && 2 * n_observations
                < Self::new_spec(n_cameras, n_points, fix_first_camera).spec_columns() ==> r
                == Err::<BundleLayout, BundleError>(
                BundleError::TooFewObservations {
                    unknowns: Self::new_spec(
                        n_cameras,
                        n_points,
                        fix_first_camera,
                    ).spec_columns() as usize,
                    residuals: (2 * n_observations) as usize,
                },
            ),
            r matches Ok(l) ==> l.n_cameras == n_cameras && l.n_points == n_points
                && l.fix_first_camera == fix_first_camera,
            r is Ok <==> {
                let free = n_cameras - (if fix_first_camera {
                    1int
                } else {
                    0int
                });
                &&& free >= 0
                &&& 6 * free + 3 * n_points <= usize::MAX
                &&& 2 * n_observations >= 6 * free + 3 * n_points
            },
    {
        if fix_first_camera && n_cameras == 0 {
            return Err(BundleError::NoCameraToFix);
        }
        let fixed: usize = if fix_first_camera {
            1
        } else {
            0
        };
        let free = n_cameras - fixed;
        if free > usize::MAX / 6 {
            return Err(BundleError::TooManyUnknowns);
        }
        let cam_cols = 6 * free;
        if n_points > (usize::MAX - cam_cols) / 3 {
            return Err(BundleError::TooManyUnknowns);
        }
        let layout = BundleLayout { n_cameras, n_points, fix_first_camera };
        if layout.rows_suffice(n_observations) {
            Ok(layout)
        } else {
            Err(BundleError::TooFewObservations { unknowns: layout.columns(), residuals: 2 * n_observations })
        }
    }

    /// The layout with the given fields.
    pub open spec fn new_spec(n_cameras: usize, n_points: usize, fix_first_camera: bool) -> BundleLayout {
        BundleLayout { n_cameras, n_points, fix_first_camera }
    }

    /// Number of cameras without columns.
    pub fn fixed_cameras(&self) -> (f: usize)
        ensures
            f == self.fixed(),
            self.fix_first_camera ==> f == 1,
            !self.fix_first_camera ==> f == 0,
    {
        if self.fix_first_camera {
            1
        } else {
            0
        }
    }

    /// Number of camera columns: six per camera that is not fixed.
    pub fn camera_columns(&self) -> (c: usize)
        requires
            self.valid(),
        ensures
            c == self.spec_camera_columns(),
            self.fix_first_camera ==> c == 6 * (self.n_cameras - 1),
            !self.fix_first_camera ==> c == 6 * self.n_cameras,
    {
        6 * (self.n_cameras - self.fixed_cameras())
    }

    /// Number of unknowns.
    pub fn columns(&self) -> (c: usize)
        requires
            self.valid(),
        ensures
            c == self.spec_columns(),
            self.fix_first_camera ==> c == 6 * (self.n_cameras - 1) + 3 * self.n_points,
            !self.fix_first_camera ==> c == 6 * self.n_cameras + 3 * self.n_points,
    {
        self.camera_columns() + 3 * self.n_points
    }

    /// First column of camera `cam`, or `None` for a fixed camera.
    pub fn camera_base(&self, cam: usize) -> (b: Option<usize>)
        requires
            self.valid(),
            cam < self.n_cameras,
        ensures
            b == if cam < self.fixed() {
                None::<usize>
            } else {
                Some(self.camera_col(cam as int, 0) as usize)
            },
            b matches Some(base) ==> base + 6 <= self.spec_camera_columns(),
            b is None <==> (self.fix_first_camera && cam == 0),
            self.fix_first_camera && cam > 0 ==> b == Some((6 * (cam - 1)) as usize),
            !self.fix_first_camera ==> b == Some((6 * cam) as usize),
    {
        let fixed = self.fixed_cameras();
        if cam < fixed {
            None
        } else {
            Some(6 * (cam - fixed))
        }
    }

    /// First column of point `point`.
    pub fn point_base(&self, point: usize) -> (b: usize)
        requires
            self.valid(),
            point < self.n_points,
        ensures
            b == self.point_col(point as int, 0),
            self.fix_first_camera ==> b == 6 * (self.n_cameras - 1) + 3 * point,
            !self.fix_first_camera ==> b == 6 * self.n_cameras + 3 * point,
            b + 3 <= self.spec_columns(),
    {
        self.camera_columns() + 3 * point
    }

    /// Whether `n_observations` observations, two residuals each, give at
    /// least as many equations as there are unknowns.
    pub fn rows_suffice(&self, n_observations: usize) -> (ok: bool)
        requires
            self.valid(),
        ensures
            ok == (2 * n_observations >= self.spec_columns()),
            self.fix_first_camera ==> ok == (2 * n_observations >= 6 * (self.n_cameras - 1) + 3
                * self.n_points),
            !self.fix_first_camera ==> ok == (2 * n_observations >= 6 * self.n_cameras + 3
                * self.n_points),
    {
        let c = self.columns();
        n_observations >= c / 2 + c % 2
    }
}

/// The fix flag alone decides how many cameras own no column: one when the
/// first camera is held fixed, none otherwise, whatever the counts.
pub proof fn lemma_fixed_is_the_flag(l: BundleLayout)
    ensures
        l.fix_first_camera ==> l.fixed() == 1,
        !l.fix_first_camera ==> l.fixed() == 0,
        l.fix_first_camera && l.n_cameras >= 1 ==> l.spec_camera_columns() == 6 * (l.n_cameras - 1),
        !l.fix_first_camera ==> l.spec_camera_columns() == 6 * l.n_cameras,
        l.fix_first_camera ==> forall|cam: int, k: int| #[trigger] l.camera_col(cam, k) == 6 * (cam - 1) + k,
        !l.fix_first_camera ==> forall|cam: int, k: int| #[trigger] l.camera_col(cam, k) == 6 * cam + k,
{
}

/// A layout built from given counts and flag keeps them.
pub proof fn lemma_new_keeps_fields(n_cameras: usize, n_points: usize, fix_first_camera: bool)
    ensures
        BundleLayout::new_spec(n_cameras, n_points, fix_first_camera).n_cameras == n_cameras,
        BundleLayout::new_spec(n_cameras, n_points, fix_first_camera).n_points == n_points,
        BundleLayout::new_spec(n_cameras, n_points, fix_first_camera).fix_first_camera
            == fix_first_camera,
{
}

/// Every camera parameter column lies before the point columns, every point
/// column lies before the end, and no two parameters share a column.
pub proof fn lemma_columns_disjoint(l: BundleLayout)
    requires
        l.valid(),
    ensures
        forall|cam: int, k: int|
            l.fixed() <= cam < l.n_cameras && 0 <= k < 6 ==> 0 <= #[trigger] l.camera_col(cam, k)
                < l.spec_camera_columns(),
        forall|p: int, k: int|
            0 <= p < l.n_points && 0 <= k < 3 ==> l.spec_camera_columns() <= #[trigger] l.point_col(
                p,
                k,
            ) < l.spec_columns(),
        forall|c1: int, k1: int, c2: int, k2: int|
            0 <= k1 < 6 && 0 <= k2 < 6 && #[trigger] l.camera_col(c1, k1) == #[trigger] l.camera_col(
                c2,
                k2,
            ) ==> c1 == c2 && k1 == k2,
        forall|p1: int, k1: int, p2: int, k2: int|
            0 <= k1 < 3 && 0 <= k2 < 3 && #[trigger] l.point_col(p1, k1) == #[trigger] l.point_col(
                p2,
                k2,
            ) ==> p1 == p2 && k1 == k2,
{
}

/// Every column belongs to a camera parameter or a point coordinate.
pub proof fn lemma_columns_covered(l: BundleLayout, c: int)
    requires
        l.valid(),
        0 <= c < l.spec_columns(),
    ensures
        c < l.spec_camera_columns() ==> l.fixed() <= c / 6 + l.fixed() < l.n_cameras && l.camera_col(
            c / 6 + l.fixed(),
            c % 6,
        ) == c,
        c >= l.spec_camera_columns() ==> 0 <= (c - l.spec_camera_columns()) / 3 < l.n_points
            && l.point_col((c - l.spec_camera_columns()) / 3, (c - l.spec_camera_columns()) % 3)
            == c,
{
}


/// The observations of point `point`: the indices `k`, in increasing order,
/// with `points_of_obs[k] == point` (where `points_of_obs[k]` is the point
/// that observation `k` sees).
pub fn observations_of_point(points_of_obs: &[usize], point: usize) -> (ks: Vec<usize>)
    ensures
        forall|c: int| 0 <= c < ks@.len() ==> #[trigger] ks@[c] < points_of_obs@.len()
            && points_of_obs@[ks@[c] as int] == point,
        forall|a: int, b: int| 0 <= a < b < ks@.len() ==> ks@[a] < ks@[b],
        forall|k: int|
            0 <= k < points_of_obs@.len() && points_of_obs@[k] == point ==> exists|c: int|
                0 <= c < ks@.len() && #[trigger] ks@[c] == k,
{
    let mut ks: Vec<usize> = Vec::new();
    let mut k: usize = 0;
    while k < points_of_obs.len()
        invariant
            k <= points_of_obs@.len(),
            forall|c: int| 0 <= c < ks@.len() ==> #[trigger] ks@[c] < k && points_of_obs@[ks@[c] as int] == point,
            forall|a: int, b: int| 0 <= a < b < ks@.len() ==> ks@[a] < ks@[b],
            forall|j: int|
                0 <= j < k && points_of_obs@[j] == point ==> exists|c: int|
                    0 <= c < ks@.len() && #[trigger] ks@[c] == j,
        decreases points_of_obs@.len() - k,
    {
        if points_of_obs[k] == point {
            let ghost before = ks@;
            ks.push(k);
            proof {
                assert forall|j: int| 0 <= j < k + 1 && points_of_obs@[j] == point implies exists|c: int|
                    0 <= c < ks@.len() && #[trigger] ks@[c] == j by {
                    if j == k {
                        assert(ks@[before.len() as int] == j);
                    } else {
                        let c = choose|c: int| 0 <= c < before.len() && #[trigger] before[c] == j;
                        assert(ks@[c] == j);
                    }
                }
            }
        }
        k = k + 1;
    }
    ks
}

} // verus!
