use gpu_shark::gui_layout::{
    scale_for_dpi, scale_to_client, to_logical_point, BASE_CLIENT_HEIGHT, BASE_CLIENT_WIDTH,
};

#[test]
fn supported_dpi_sizes_are_exact() {
    assert_eq!(scale_for_dpi(BASE_CLIENT_WIDTH, 96), 964);
    assert_eq!(scale_for_dpi(BASE_CLIENT_WIDTH, 120), 1205);
    assert_eq!(scale_for_dpi(BASE_CLIENT_WIDTH, 144), 1446);
    assert_eq!(scale_for_dpi(BASE_CLIENT_WIDTH, 192), 1928);
}

#[test]
fn hit_testing_maps_back_to_logical_coordinates() {
    for dpi in [96, 120, 144, 192] {
        let width = scale_for_dpi(BASE_CLIENT_WIDTH, dpi);
        let height = scale_for_dpi(BASE_CLIENT_HEIGHT, dpi);
        let physical_x = scale_to_client(200, BASE_CLIENT_WIDTH, width);
        let physical_y = scale_to_client(240, BASE_CLIENT_HEIGHT, height);
        let (logical_x, logical_y) = to_logical_point(physical_x, physical_y, width, height);
        assert!((199..=200).contains(&logical_x));
        assert!((239..=240).contains(&logical_y));
    }
}

#[test]
fn low_dpi_counts_as_the_default() {
    assert_eq!(scale_for_dpi(100, 0), 100);
    assert_eq!(scale_for_dpi(100, 72), 100);
}

#[test]
fn scaling_rounds_half_up_and_truncates_negatives_toward_zero() {
    // 3 * 120 / 96 = 3.75, plus the half step gives 4.
    assert_eq!(scale_for_dpi(3, 120), 4);
    // (-3 * 120 + 48) / 96 = -312 / 96 = -3.25, toward zero -3.
    assert_eq!(scale_for_dpi(-3, 120), -3);
    // The default DPI keeps non-negative lengths; -1 becomes 0.
    assert_eq!(scale_for_dpi(-1, 96), 0);
}

#[test]
fn empty_client_areas_leave_coordinates_unchanged() {
    assert_eq!(to_logical_point(10, 20, 0, 500), (10, 20));
    assert_eq!(scale_to_client(17, 964, 0), 17);
    assert_eq!(scale_to_client(17, 0, 500), 17);
}

#[test]
fn huge_coordinates_saturate_instead_of_overflowing() {
    assert_eq!(to_logical_point(i32::MAX, 0, 1, 1), (i32::MAX / 1, 0));
    assert_eq!(scale_to_client(i32::MAX, 964, 1928), i32::MAX / 964);
}
