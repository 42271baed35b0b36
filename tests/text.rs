use solhat_ui::text::{compact_label, output_file_name, truncate_to};

#[test]
fn short_text_is_kept() {
    assert_eq!(truncate_to("abc", 35), "abc");
    assert_eq!(truncate_to("", 3), "");
}

#[test]
fn long_text_keeps_its_end() {
    assert_eq!(truncate_to("/home/user/captures/sun.ser", 12), "...s/sun.ser");
    let r = truncate_to("abcdefgh", 6);
    assert_eq!(r, "...fgh");
    assert_eq!(r.chars().count(), 6);
    assert_eq!(truncate_to("abcdef", 6), "...def");
}

#[test]
fn truncation_counts_characters() {
    assert_eq!(truncate_to("ééééé", 4), "...é");
}

#[test]
fn compact_label_drops_spaces_and_dots() {
    assert_eq!(compact_label("1.5 x"), "15x");
    assert_eq!(compact_label("..  "), "");
    assert_eq!(compact_label("Scale2_0"), "Scale2_0");
}

#[test]
fn output_name_at_unit_scale() {
    assert_eq!(output_file_name("sun_001", "Sun", "1.0x", true, "v1"), "sun_001_Sun_v1.tif");
    assert_eq!(output_file_name("moon", "Moon", "1.0x", true, ""), "moon_Moon.tif");
}

#[test]
fn output_name_with_drizzle_scale() {
    assert_eq!(output_file_name("sun", "Sun", "1.5 x", false, "v2"), "sun_Sun_15x_v2.tif");
    assert_eq!(output_file_name("sun", "Sun", "2.0 x", false, ""), "sun_Sun_20x.tif");
}

#[test]
fn short_text_is_kept_under_tiny_limit() {
    assert_eq!(truncate_to("a", 2), "a");
    assert_eq!(truncate_to("", 1), "");
}
