use bevy::utils::Duration;
use frame_sequencer::sequencer::{ConfigurationError, Sequencer};

fn started() -> Sequencer {
    let mut sequencer = Sequencer::new(vec![1000, 5000, 10000]).unwrap();
    sequencer.advance(1000);
    assert_eq!(sequencer.current_index(), Some(0));
    sequencer
}

#[test]
fn wraparound() {
    let mut sequencer = started();
    sequencer.advance(400);
    assert_eq!(sequencer.current_index(), Some(0));
    sequencer.advance(600);
    assert_eq!(sequencer.current_index(), Some(1));
    sequencer.advance(4999);
    assert_eq!(sequencer.current_index(), Some(1));
    sequencer.advance(1);
    assert_eq!(sequencer.current_index(), Some(2));
    sequencer.advance(10000);
    assert_eq!(sequencer.current_index(), Some(0));
    assert_eq!(sequencer.remaining(), 1000);
}

#[test]
fn wraparound_with_large_ticks() {
    let mut sequencer = started();
    sequencer.advance(1500);
    assert_eq!(sequencer.current_index(), Some(1));
    sequencer.advance(7000);
    assert_eq!(sequencer.current_index(), Some(2));
    sequencer.advance(10001);
    assert_eq!(sequencer.current_index(), Some(0));
}

#[test]
fn construction_is_repeatable() {
    let first = Sequencer::new(vec![1000, 5000, 10000]).unwrap();
    let second = Sequencer::new(vec![1000, 5000, 10000]).unwrap();
    assert_eq!(first, second);
    assert_eq!(first.current_index(), None);
    assert_eq!(first.remaining(), 1000);
    assert_eq!(first.durations(), &[1000, 5000, 10000]);
    assert_eq!(first, Sequencer::standard());
}

#[test]
fn first_fire_enters_frame_zero_with_its_whole_duration() {
    let mut first = Sequencer::new(vec![1000, 5000, 10000]).unwrap();
    let mut second = Sequencer::new(vec![1000, 5000, 10000]).unwrap();
    first.advance(1000);
    second.advance(1000);
    assert_eq!(first.current_index(), Some(0));
    assert_eq!(first.remaining(), 1000);
    assert_eq!(first, second);
}

#[test]
fn countdown_before_the_first_frame() {
    let mut sequencer = Sequencer::new(vec![1000, 5000, 10000]).unwrap();
    sequencer.advance(999);
    assert_eq!(sequencer.current_index(), None);
    assert_eq!(sequencer.remaining(), 1);
    sequencer.advance(1);
    assert_eq!(sequencer.current_index(), Some(0));
    assert_eq!(sequencer.remaining(), 1000);
}

#[test]
fn new_refuses_an_empty_list() {
    assert_eq!(Sequencer::new(Vec::new()), Err(ConfigurationError::EmptyDurations));
}

#[test]
fn new_refuses_a_zero_duration() {
    assert_eq!(
        Sequencer::new(vec![0]),
        Err(ConfigurationError::ZeroDuration { index: 0 })
    );
    assert_eq!(
        Sequencer::new(vec![3, 7, 0, 5, 0]),
        Err(ConfigurationError::ZeroDuration { index: 2 })
    );
}

#[test]
fn partial_tick_takes_the_elapsed_time_off() {
    let mut sequencer = started();
    sequencer.advance(400);
    assert_eq!(sequencer.remaining(), 600);
    sequencer.advance(599);
    assert_eq!(sequencer.remaining(), 1);
    assert_eq!(sequencer.current_index(), Some(0));
}

#[test]
fn exact_expiry_fires() {
    let mut sequencer = started();
    sequencer.advance(999);
    assert_eq!(sequencer.current_index(), Some(0));
    sequencer.advance(1);
    assert_eq!(sequencer.current_index(), Some(1));
    assert_eq!(sequencer.remaining(), 5000);
}

#[test]
fn overshoot_fires_only_once() {
    let mut sequencer = started();
    sequencer.advance(1_000_000);
    assert_eq!(sequencer.current_index(), Some(1));
    assert_eq!(sequencer.remaining(), 5000);
    sequencer.advance(u64::MAX);
    assert_eq!(sequencer.current_index(), Some(2));
    assert_eq!(sequencer.remaining(), 10000);
}

#[test]
fn zero_elapsed_changes_nothing() {
    let mut fresh = Sequencer::standard();
    let mut running = started();
    running.advance(250);
    for _ in 0..100 {
        fresh.advance(0);
        running.advance(0);
    }
    assert_eq!(fresh, Sequencer::standard());
    assert_eq!(running.current_index(), Some(0));
    assert_eq!(running.remaining(), 750);
}

#[test]
fn single_frame_wraps_to_itself() {
    let mut sequencer = Sequencer::new(vec![10]).unwrap();
    sequencer.advance(10);
    assert_eq!(sequencer.current_index(), Some(0));
    sequencer.advance(4);
    assert_eq!(sequencer.remaining(), 6);
    sequencer.advance(6);
    assert_eq!(sequencer.current_index(), Some(0));
    assert_eq!(sequencer.remaining(), 10);
}

#[test]
fn largest_duration_and_tick() {
    let mut sequencer = Sequencer::new(vec![u64::MAX, 1]).unwrap();
    sequencer.advance(u64::MAX - 1);
    assert_eq!(sequencer.current_index(), None);
    assert_eq!(sequencer.remaining(), 1);
    sequencer.advance(u64::MAX);
    assert_eq!(sequencer.current_index(), Some(0));
    assert_eq!(sequencer.remaining(), u64::MAX);
    sequencer.advance(u64::MAX);
    assert_eq!(sequencer.current_index(), Some(1));
    assert_eq!(sequencer.remaining(), 1);
}

#[test]
fn agrees_with_a_repeating_engine_timer() {
    let durations: Vec<u64> = vec![1000, 5000, 10000];
    let mut sequencer = Sequencer::new(durations.clone()).unwrap();
    sequencer.advance(1000);
    let mut frame: usize = 0;
    let mut timer = bevy::core::Timer::new(Duration::from_millis(durations[frame]), true);
    let deltas: [u64; 24] = [
        16, 17, 0, 500, 466, 1, 1, 4998, 1, 3, 9996, 1, 20000, 999, 1, 0, 0, 2500, 2500, 1,
        9999, 1, 1000, 123456,
    ];
    for delta in deltas {
        if timer.tick(Duration::from_millis(delta)).finished() {
            frame = if frame + 1 < durations.len() { frame + 1 } else { 0 };
            timer.reset();
            timer.set_duration(Duration::from_millis(durations[frame]));
        }
        sequencer.advance(delta);
        assert_eq!(sequencer.current_index(), Some(frame));
        assert_eq!(
            Duration::from_millis(sequencer.remaining()),
            timer.duration() - timer.elapsed()
        );
    }
    assert_eq!(frame, 2);
}
