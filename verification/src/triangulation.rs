//! The input checks of triangulation.
use vstd::prelude::*;

verus! {

/// Why a triangulation input is refused.
#[derive(Debug, PartialEq, Eq, Structural)]
pub enum ViewsError {
    /// A point needs at least two views to be triangulated.
    TooFewViews,
    /// The numbers of views and of observations differ.
    CountMismatch,
}

/// Checks that `n_views` views with `n_observations` observations (one per
/// view) can be triangulated: at least two views, then one observation per view.
pub fn check_views(n_views: usize, n_observations: usize) -> (r: Result<(), ViewsError>)
    ensures
        n_views < 2 ==> r == Err::<(), ViewsError>(ViewsError::TooFewViews),
        n_views >= 2 && n_views != n_observations ==> r == Err::<(), ViewsError>(
            ViewsError::CountMismatch,
        ),
        n_views >= 2 && n_views == n_observations ==> r == Ok::<(), ViewsError>(()),
{
    if n_views < 2 {
        Err(ViewsError::TooFewViews)
    } else if n_views != n_observations {
        Err(ViewsError::CountMismatch)
    } else {
        Ok(())
    }
}

} // verus!
