use raster_filters::structures::w_matrix::{KernelError, W_matrix, DEFAULT_BLUR_KERNEL};

#[test]
fn total_weight_of_a_small_cross() {
    let m = W_matrix::new(vec![0, 1, 0, 2, 3, 2, 0, 1, 0], 3).unwrap();
    assert_eq!(m.get_total_weight(), 9);
    assert_eq!(m.size(), 3);
    assert_eq!(m.weight(), &vec![0u8, 1, 0, 2, 3, 2, 0, 1, 0]);
}

#[test]
fn total_weight_does_not_wrap_at_a_byte() {
    let m = W_matrix::new(vec![255; 25], 5).unwrap();
    assert_eq!(m.get_total_weight(), 6375);
}

#[test]
fn default_blur_kernel_is_the_five_by_five_pyramid() {
    let m = W_matrix::default_blur();
    assert_eq!(m.size(), 5);
    assert_eq!(
        m.weight(),
        &vec![
            5u8, 5, 10, 5, 5, 5, 10, 15, 10, 5, 10, 15, 30, 15, 10, 5, 10, 15, 10, 5, 5, 5, 10, 5,
            5
        ]
    );
    assert_eq!(m.weight().as_slice(), &DEFAULT_BLUR_KERNEL[..]);
    assert_eq!(m.get_total_weight(), 230);
}

#[test]
fn even_side_is_rejected() {
    assert_eq!(W_matrix::new(vec![1, 1, 1, 1], 2).unwrap_err(), KernelError::EvenSize);
    assert_eq!(W_matrix::new(vec![], 0).unwrap_err(), KernelError::EvenSize);
}

#[test]
fn wrong_number_of_weights_is_rejected() {
    assert_eq!(W_matrix::new(vec![1, 1, 1, 1], 3).unwrap_err(), KernelError::WeightCountMismatch);
    assert_eq!(W_matrix::new(vec![1, 1], 1).unwrap_err(), KernelError::WeightCountMismatch);
    assert_eq!(W_matrix::new(vec![], 1).unwrap_err(), KernelError::WeightCountMismatch);
}

#[test]
fn side_whose_square_does_not_fit_is_rejected() {
    assert_eq!(
        W_matrix::new(vec![1], usize::MAX).unwrap_err(),
        KernelError::WeightCountMismatch
    );
}

#[test]
fn all_zero_weights_are_rejected() {
    assert_eq!(W_matrix::new(vec![0; 9], 3).unwrap_err(), KernelError::ZeroTotalWeight);
    assert_eq!(W_matrix::new(vec![0], 1).unwrap_err(), KernelError::ZeroTotalWeight);
}

#[test]
fn even_side_is_reported_before_the_other_faults() {
    assert_eq!(W_matrix::new(vec![0, 0, 0], 2).unwrap_err(), KernelError::EvenSize);
    assert_eq!(W_matrix::new(vec![0, 0], 3).unwrap_err(), KernelError::WeightCountMismatch);
}

#[test]
fn single_cell_kernel_is_accepted() {
    let m = W_matrix::new(vec![7], 1).unwrap();
    assert_eq!(m.get_total_weight(), 7);
}
