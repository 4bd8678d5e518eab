use ef_core::theme::{error_color, run_button_fill, success_color, warning_color};

#[test]
fn each_colour_follows_the_windows_appearance() {
    assert_eq!(run_button_fill(true), (34, 110, 60));
    assert_eq!(run_button_fill(false), (38, 132, 70));
    assert_eq!(error_color(true), (240, 120, 120));
    assert_eq!(error_color(false), (178, 34, 34));
    assert_eq!(warning_color(true), (226, 178, 84));
    assert_eq!(warning_color(false), (150, 100, 0));
    assert_eq!(success_color(true), (120, 200, 140));
    assert_eq!(success_color(false), (20, 110, 50));
}
