use wgpu_2d_sample::run_select::{minimal_sample_run_id, texture_sample_run_id};

#[test]
fn texture_sample_by_number_or_name() {
    assert_eq!(texture_sample_run_id(None), 99);
    assert_eq!(texture_sample_run_id(Some("3")), 3);
    assert_eq!(texture_sample_run_id(Some("+7")), 7);
    assert_eq!(texture_sample_run_id(Some("-2")), -2);
    assert_eq!(texture_sample_run_id(Some("introduction")), 0);
    assert_eq!(texture_sample_run_id(Some("uniform")), 1);
    assert_eq!(texture_sample_run_id(Some("multi_bind_group")), 2);
    assert_eq!(texture_sample_run_id(Some("2d_array")), 3);
    assert_eq!(texture_sample_run_id(Some("bing_group_multi_entry")), 4);
    assert_eq!(texture_sample_run_id(Some("bindless")), 5);
    assert_eq!(texture_sample_run_id(Some("tilemap")), 6);
}

#[test]
fn texture_sample_default() {
    assert_eq!(texture_sample_run_id(Some("")), 99);
    assert_eq!(texture_sample_run_id(Some("-")), 99);
    assert_eq!(texture_sample_run_id(Some("Tilemap")), 99);
    assert_eq!(texture_sample_run_id(Some(" 3")), 99);
    assert_eq!(texture_sample_run_id(Some("99999999999")), 99);
    assert_eq!(texture_sample_run_id(Some("2147483647")), 2147483647);
}

#[test]
fn minimal_sample_by_number_or_name() {
    assert_eq!(minimal_sample_run_id(None), 0);
    assert_eq!(minimal_sample_run_id(Some("2")), 2);
    assert_eq!(minimal_sample_run_id(Some("polygon_simple")), 0);
    assert_eq!(minimal_sample_run_id(Some("viewport")), 1);
    assert_eq!(minimal_sample_run_id(Some("viewport_strech")), 1);
    assert_eq!(minimal_sample_run_id(Some("viewport_stretch")), 0);
}

#[test]
fn numbers_follow_i32_parsing() {
    assert_eq!(texture_sample_run_id(Some("-2147483648")), -2147483648);
    assert_eq!(texture_sample_run_id(Some("2147483648")), 99);
    assert_eq!(texture_sample_run_id(Some("-2147483649")), 99);
    assert_eq!(texture_sample_run_id(Some("+")), 99);
    assert_eq!(texture_sample_run_id(Some("007")), 7);
    assert_eq!(texture_sample_run_id(Some("-0")), 0);
    assert_eq!(texture_sample_run_id(Some("12a")), 99);
    assert_eq!(texture_sample_run_id(Some("+-1")), 99);
    assert_eq!(texture_sample_run_id(Some("１")), 99);
    assert_eq!(texture_sample_run_id(Some("00000000000000000000042")), 42);
}
