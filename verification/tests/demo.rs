use hackernews::demo::check_protection;
use hackernews::demo::get_data;
use hackernews::demo::SliderPosition;

#[test]
fn get_data_returns_the_numbers_below_the_bound() {
    assert_eq!(get_data(5), vec![0, 1, 2, 3, 4]);
    assert_eq!(get_data(0), Vec::<u8>::new());
    assert_eq!(get_data(1), vec![0]);
}

#[test]
fn protection_check_grants_access() {
    assert!(check_protection());
}

#[test]
fn slider_toggles_between_its_positions() {
    let p = SliderPosition::Off;
    let once = p.toggle();
    assert_eq!(once, SliderPosition::On);
    assert_eq!(once.toggle(), SliderPosition::Off);
}

#[test]
fn slider_labels_match_positions() {
    assert_eq!(SliderPosition::On.label(), "On");
    assert_eq!(SliderPosition::Off.label(), "Off");
}
