use learning_lm::bundle::{observations_of_point, BundleError, BundleLayout};
use learning_lm::dof::{
    active_dofs, check_pose_input, enough_points, expand_dofs, PoseInput, DOF_ALL, DOF_ROTATION, DOF_TRANSLATION,
};
use learning_lm::shape::{check_least_squares, check_square_system, check_tall, product_shape, ShapeError as E};
use learning_lm::triangulation::{check_views, ViewsError};

#[test]
fn active_dofs_of_the_masks() {
    assert_eq!(active_dofs(DOF_ALL), vec![0, 1, 2, 3, 4, 5]);
    assert_eq!(active_dofs(DOF_ROTATION), vec![0, 1, 2]);
    assert_eq!(active_dofs(DOF_TRANSLATION), vec![3, 4, 5]);
    assert_eq!(active_dofs([false; 6]), Vec::<usize>::new());
    assert_eq!(active_dofs([false, true, false, false, true, false]), vec![1, 4]);
}

#[test]
fn expand_dofs_puts_zero_at_fixed_parameters() {
    assert_eq!(expand_dofs(&[3, 4, 5], &[0.5, -1.0, 2.0], 0.0), vec![0.0, 0.0, 0.0, 0.5, -1.0, 2.0]);
    assert_eq!(expand_dofs(&[1, 4], &[7, 8], 0), vec![0, 7, 0, 0, 8, 0]);
    assert_eq!(expand_dofs::<i32>(&[], &[], 0), vec![0; 6]);
}

#[test]
fn enough_points_counts_two_equations_per_point() {
    assert!(!enough_points(2, 6));
    assert!(enough_points(3, 6));
    assert!(!enough_points(1, 3));
    assert!(enough_points(2, 3));
    assert!(enough_points(0, 0));
}

#[test]
fn bundle_layout_with_first_camera_fixed() {
    let l = BundleLayout::new(3, 25, true);
    assert_eq!(l.fixed_cameras(), 1);
    assert_eq!(l.camera_columns(), 12);
    assert_eq!(l.columns(), 87);
    assert_eq!(l.camera_base(0), None);
    assert_eq!(l.camera_base(1), Some(0));
    assert_eq!(l.camera_base(2), Some(6));
    assert_eq!(l.point_base(0), 12);
    assert_eq!(l.point_base(24), 84);
    assert!(l.rows_suffice(75));
    assert!(l.rows_suffice(44));
    assert!(!l.rows_suffice(43));
}

#[test]
fn bundle_layout_without_gauge_fix() {
    let l = BundleLayout::new(3, 25, false);
    assert_eq!(l.fixed_cameras(), 0);
    assert_eq!(l.camera_columns(), 18);
    assert_eq!(l.columns(), 93);
    assert_eq!(l.camera_base(0), Some(0));
    assert_eq!(l.camera_base(2), Some(12));
    assert_eq!(l.point_base(1), 21);
    assert!(l.rows_suffice(47));
    assert!(!l.rows_suffice(46));
}

#[test]
fn bundle_layout_columns_form_a_partition() {
    for fix in [true, false] {
        let l = BundleLayout::new(4, 5, fix);
        let mut owners = vec![0usize; l.columns()];
        for cam in 0..4 {
            if let Some(base) = l.camera_base(cam) {
                for k in 0..6 {
                    owners[base + k] += 1;
                }
            }
        }
        for p in 0..5 {
            for k in 0..3 {
                owners[l.point_base(p) + k] += 1;
            }
        }
        assert!(owners.iter().all(|&n| n == 1));
        assert_eq!(l.camera_base(0).is_none(), fix);
    }
}

#[test]
fn observations_of_point_selects_in_order() {
    let points_of_obs = [0, 1, 2, 0, 1, 2, 1];
    assert_eq!(observations_of_point(&points_of_obs, 1), vec![1, 4, 6]);
    assert_eq!(observations_of_point(&points_of_obs, 0), vec![0, 3]);
    assert_eq!(observations_of_point(&points_of_obs, 5), Vec::<usize>::new());
    assert_eq!(observations_of_point(&[], 0), Vec::<usize>::new());
}

#[test]
fn pose_input_outcomes() {
    assert!(matches!(check_pose_input(3, 4, DOF_ALL), PoseInput::CountMismatch));
    assert!(matches!(check_pose_input(0, 0, DOF_ALL), PoseInput::NoPoints));
    assert!(matches!(check_pose_input(0, 0, [false; 6]), PoseInput::NoPoints));
    assert!(matches!(check_pose_input(5, 5, [false; 6]), PoseInput::NothingToOptimize));
    assert!(matches!(
        check_pose_input(2, 2, DOF_ALL),
        PoseInput::TooFewPoints { n_dof: 6, n_points: 2 }
    ));
    assert!(matches!(
        check_pose_input(1, 1, DOF_ROTATION),
        PoseInput::TooFewPoints { n_dof: 3, n_points: 1 }
    ));
    match check_pose_input(3, 3, DOF_ALL) {
        PoseInput::Ready { active } => assert_eq!(active, vec![0, 1, 2, 3, 4, 5]),
        other => panic!("unexpected {other:?}"),
    }
    match check_pose_input(2, 2, DOF_TRANSLATION) {
        PoseInput::Ready { active } => assert_eq!(active, vec![3, 4, 5]),
        other => panic!("unexpected {other:?}"),
    }
}

#[test]
fn bundle_input_outcomes() {
    assert_eq!(BundleLayout::checked(0, 5, 100, true), Err(BundleError::NoCameraToFix));
    assert_eq!(BundleLayout::checked(usize::MAX / 5, 0, 100, false), Err(BundleError::TooManyUnknowns));
    assert_eq!(BundleLayout::checked(1, usize::MAX / 3 + 1, 0, true), Err(BundleError::TooManyUnknowns));
    assert_eq!(
        BundleLayout::checked(3, 25, 43, true),
        Err(BundleError::TooFewObservations { unknowns: 87, residuals: 86 })
    );
    let l = BundleLayout::checked(3, 25, 75, true).unwrap();
    assert_eq!((l.n_cameras, l.n_points, l.fix_first_camera), (3, 25, true));
    assert_eq!(l.columns(), 87);
    let empty = BundleLayout::checked(0, 0, 0, false).unwrap();
    assert_eq!(empty.columns(), 0);
}

#[test]
fn triangulation_input_outcomes() {
    assert_eq!(check_views(0, 0), Err(ViewsError::TooFewViews));
    assert_eq!(check_views(1, 1), Err(ViewsError::TooFewViews));
    assert_eq!(check_views(2, 3), Err(ViewsError::CountMismatch));
    assert_eq!(check_views(3, 3), Ok(()));
}

#[test]
fn shape_check_outcomes() {
    assert_eq!(check_square_system(3, 2, 3), Err(E::NotSquare { rows: 3, cols: 2 }));
    assert_eq!(check_square_system(3, 3, 2), Err(E::RhsLength { rows: 3, rhs: 2 }));
    assert_eq!(check_square_system(3, 3, 3), Ok(()));
    assert_eq!(check_tall(2, 3), Err(E::Wide { rows: 2, cols: 3 }));
    assert_eq!(check_tall(3, 3), Ok(()));
    assert_eq!(check_least_squares(5, 3, 4), Err(E::RhsLength { rows: 5, rhs: 4 }));
    assert_eq!(check_least_squares(2, 3, 2), Err(E::Wide { rows: 2, cols: 3 }));
    assert_eq!(check_least_squares(5, 3, 5), Ok(()));
    assert_eq!(product_shape(2, 3, 4, 5), Err(E::Inner { left_cols: 3, right_rows: 4 }));
    assert_eq!(product_shape(2, 3, 3, 5), Ok((2, 5)));
}
