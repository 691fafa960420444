use sharew::save::{screenshot_dir, screenshot_name};
use sharew::text::{px_label, write_decimal};

#[test]
fn numbers_are_written_in_decimal() {
    for n in [0u128, 7, 10, 99, 100, 1234567890, u128::MAX] {
        assert_eq!(write_decimal(n), format!("{n}"));
    }
}

#[test]
fn labels_name_the_unit() {
    assert_eq!(px_label(4), "4 px");
    assert_eq!(px_label(0), "0 px");
    assert_eq!(px_label(100), "100 px");
    assert_eq!(px_label(-3), "-3 px");
    assert_eq!(px_label(i32::MIN), "-2147483648 px");
}

#[test]
fn screenshots_are_named_by_their_time() {
    assert_eq!(screenshot_name(0), "Screenshot-0.png");
    assert_eq!(screenshot_name(1700000000123), "Screenshot-1700000000123.png");
    assert_ne!(screenshot_name(12), screenshot_name(120));
}

#[test]
fn screenshots_are_kept_under_the_home_directory() {
    let dir = screenshot_dir(Some("/home/ada".to_string()));
    assert_eq!(dir, ["/home/ada", "Pictures", "Screenshots"]);
    assert_eq!(screenshot_dir(None), [".", "Pictures", "Screenshots"]);
}
