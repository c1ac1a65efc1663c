use gated_proxy::config::Config;
use gated_proxy::haywire::HaywireDetector;

#[test]
fn run_of_the_configured_length_is_haywire() {
    let detector = HaywireDetector::new(14);
    assert!(detector.check_haywire("//////////////"));
    assert!(!detector.check_haywire("/////////////"));
}

#[test]
fn default_limit_is_forty() {
    assert_eq!(Config::default_haywire_char_repeats(), 40);
    let detector = HaywireDetector::new(Config::default_haywire_char_repeats());
    assert!(detector.check_haywire(&"x".repeat(40)));
    assert!(!detector.check_haywire(&"x".repeat(39)));
}

#[test]
fn run_in_the_middle_is_found() {
    let detector = HaywireDetector::new(3);
    assert!(detector.check_haywire("abcccd"));
    assert!(!detector.check_haywire("abccdd"));
    assert!(detector.check_haywire("aabbb"));
}

#[test]
fn interrupted_run_starts_anew() {
    let detector = HaywireDetector::new(4);
    assert!(!detector.check_haywire("aaabaaa"));
    assert!(detector.check_haywire("aaabaaaa"));
}

#[test]
fn limits_below_two_need_one_repeat() {
    for limit in [0usize, 1, 2] {
        let detector = HaywireDetector::new(limit);
        assert!(!detector.check_haywire(""));
        assert!(!detector.check_haywire("a"));
        assert!(!detector.check_haywire("abab"));
        assert!(detector.check_haywire("abb"));
    }
}

#[test]
fn characters_count_and_not_bytes() {
    let detector = HaywireDetector::new(3);
    // Six bytes, but two characters.
    assert!(!detector.check_haywire("\u{20ac}\u{20ac}"));
    assert!(detector.check_haywire("\u{20ac}\u{20ac}\u{20ac}"));
}

#[test]
fn haywire_text_stays_haywire_when_it_grows() {
    let detector = HaywireDetector::new(3);
    assert!(detector.check_haywire("!!!"));
    assert!(detector.check_haywire("before !!! after"));
}

#[test]
fn fewer_repeats_flag_more() {
    let text = "zzzzz";
    for limit in 0..=5 {
        assert!(HaywireDetector::new(limit).check_haywire(text));
    }
    assert!(!HaywireDetector::new(6).check_haywire(text));
}
