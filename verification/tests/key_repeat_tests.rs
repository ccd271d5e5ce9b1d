use ionconnect::key_repeat::KeyRepeater;

const NOW: u64 = 1_000;

fn repeater() -> KeyRepeater<fn(u32) -> bool> {
    fn repeatable(keycode: u32) -> bool {
        keycode != 99
    }
    KeyRepeater::new(500, 30, repeatable as fn(u32) -> bool)
}

#[test]
fn does_not_repeat_before_the_initial_delay() {
    let mut repeater = repeater();
    repeater.on_press(30, NOW);

    assert_eq!(repeater.tick(NOW), None);
    assert_eq!(repeater.tick(NOW + 499), None);
}

#[test]
fn repeats_at_the_configured_interval_after_the_delay() {
    let mut repeater = repeater();
    repeater.on_press(30, NOW);

    let first = NOW + 500;
    assert_eq!(repeater.tick(first), Some(30));
    assert_eq!(repeater.tick(first), None);
    assert_eq!(repeater.tick(first + 30), Some(30));
    assert_eq!(repeater.tick(first + 60), Some(30));
}

#[test]
fn releasing_the_key_stops_the_repetition() {
    let mut repeater = repeater();
    repeater.on_press(30, NOW);
    repeater.on_release(30);

    assert_eq!(repeater.tick(NOW + 5_000), None);
    assert_eq!(repeater.next_deadline(), None);
}

#[test]
fn releasing_a_different_key_does_not_stop_the_repetition() {
    let mut repeater = repeater();
    repeater.on_press(30, NOW);
    repeater.on_release(31);

    assert_eq!(repeater.tick(NOW + 500), Some(30));
}

#[test]
fn the_last_key_pressed_takes_over_the_repetition() {
    let mut repeater = repeater();
    repeater.on_press(30, NOW);
    let second = NOW + 250;
    repeater.on_press(31, second);

    assert_eq!(repeater.tick(NOW + 500), None);
    assert_eq!(repeater.tick(second + 500), Some(31));
}

#[test]
fn a_non_repeatable_key_cancels_instead_of_repeating() {
    let mut repeater = repeater();
    repeater.on_press(30, NOW);
    repeater.on_press(99, NOW + 10);

    assert_eq!(repeater.tick(NOW + 1_000), None);
    assert_eq!(repeater.next_deadline(), None);
}

#[test]
fn clear_stops_everything() {
    let mut repeater = repeater();
    repeater.on_press(30, NOW);
    repeater.clear();

    assert_eq!(repeater.tick(NOW + 1_000), None);
}

#[test]
fn next_deadline_tracks_the_pending_repetition() {
    let mut repeater = repeater();
    assert_eq!(repeater.next_deadline(), None);

    repeater.on_press(30, NOW);
    assert_eq!(repeater.next_deadline(), Some(NOW + 500));

    let fired = NOW + 500;
    repeater.tick(fired);
    assert_eq!(repeater.next_deadline(), Some(fired + 30));
}

#[test]
fn a_long_stall_does_not_produce_a_burst_of_catch_up_repetitions() {
    let mut repeater = repeater();
    repeater.on_press(30, NOW);

    let late = NOW + 5_000;
    assert_eq!(repeater.tick(late), Some(30));
    assert_eq!(repeater.tick(late), None);
}

#[test]
fn one_tick_per_instant_even_after_a_stall() {
    let mut repeater = repeater();
    repeater.on_press(7, 0);
    assert_eq!(repeater.tick(1_000_000), Some(7));
    assert_eq!(repeater.tick(1_000_000), None);
    assert_eq!(repeater.next_deadline(), Some(1_000_030));
}
