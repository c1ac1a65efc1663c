use gated_proxy::load::SampleWindow;

const SEC: u64 = 1_000_000_000;

#[test]
fn window_starts_with_one_sample_for_each_second() {
    let window = SampleWindow::filled(3, 7, 5 * SEC);
    assert_eq!(window.samples, vec![(5 * SEC, 7), (5 * SEC, 7), (5 * SEC, 7)]);
    assert_eq!(window.size, 3);
}

#[test]
fn samples_leave_when_they_are_as_old_as_the_window() {
    let mut window = SampleWindow::filled(2, 0, 0);
    window.slide(1, SEC);
    assert_eq!(window.samples, vec![(0, 0), (0, 0), (SEC, 1)]);
    // Less than two whole seconds are not too old yet.
    window.slide(2, 2 * SEC - 1);
    assert_eq!(window.samples, vec![(0, 0), (0, 0), (SEC, 1), (2 * SEC - 1, 2)]);
    window.slide(3, 2 * SEC);
    assert_eq!(window.samples, vec![(SEC, 1), (2 * SEC - 1, 2), (2 * SEC, 3)]);
    window.slide(4, 3 * SEC);
    assert_eq!(window.samples, vec![(2 * SEC - 1, 2), (2 * SEC, 3), (3 * SEC, 4)]);
    assert_eq!(window.size, 2);
}

#[test]
fn window_holds_more_samples_than_seconds_when_they_come_fast() {
    let mut window = SampleWindow::filled(1, 0, 0);
    for i in 1..=10 {
        window.slide(i, SEC + i * SEC / 10);
    }
    let expected: Vec<(u64, u64)> = (1..=10).map(|i| (SEC + i * SEC / 10, i)).collect();
    assert_eq!(window.samples, expected);
}

#[test]
fn newest_sample_is_alone_after_a_long_pause() {
    let mut window = SampleWindow::filled(60, 0.0, 0);
    window.slide(0.5, SEC);
    window.slide(0.75, 1000 * SEC);
    assert_eq!(window.samples, vec![(1000 * SEC, 0.75)]);
}

#[test]
fn window_of_no_length_stays_empty() {
    let mut window = SampleWindow::filled(0, 0.5, 0);
    assert!(window.samples.is_empty());
    window.slide(1.5, 1);
    assert!(window.samples.is_empty());
}

#[test]
fn window_is_what_was_taken_in_its_last_seconds() {
    let times = [0, SEC / 2, 3 * SEC, 3 * SEC, 4 * SEC + 1, 9 * SEC, 13 * SEC, 14 * SEC - 1];
    let mut window = SampleWindow::filled(5, 100, 0);
    let mut all: Vec<(u64, usize)> = vec![(0, 100); 5];
    for (i, now) in times.iter().enumerate() {
        window.slide(i, *now);
        all.push((*now, i));
        let young: Vec<(u64, usize)> =
            all.iter().copied().filter(|(taken, _)| now - taken < 5 * SEC).collect();
        assert_eq!(window.samples, young);
    }
}
