use dining_philosophers::{
    narration, philosopher, ConfigurationError, Delays, PhilosopherState, Table, Turn,
    MAX_SLEEP_TIME, MIN_SLEEP_TIME, PHILOSOPHERS,
};

use PhilosopherState::{Eating, Thinking};

#[test]
fn the_customary_settings() {
    assert_eq!(PHILOSOPHERS, 5);
    assert_eq!(MIN_SLEEP_TIME, 5000);
    assert_eq!(MAX_SLEEP_TIME, 15000);
    let delays = Delays::default();
    assert_eq!(delays.min(), 5000);
    assert_eq!(delays.max(), 15000);
}

#[test]
fn delays_keep_their_bounds() {
    let delays = Delays::new(3, 9).unwrap();
    assert_eq!(delays.min(), 3);
    assert_eq!(delays.max(), 9);
}

#[test]
fn an_empty_range_of_delays_is_turned_down() {
    assert!(matches!(Delays::new(5, 5), Err(ConfigurationError::EmptyDelayRange)));
    assert!(matches!(Delays::new(6, 5), Err(ConfigurationError::EmptyDelayRange)));
    assert!(matches!(Delays::new(0, 0), Err(ConfigurationError::EmptyDelayRange)));
    assert!(Delays::new(0, 1).is_ok());
    assert!(Delays::new(u32::MAX - 1, u32::MAX).is_ok());
}

#[test]
fn a_pause_lies_within_its_range() {
    let delays = Delays::default();
    for _ in 0..1000 {
        let millis = delays.sleep_random_time();
        assert!(5000 <= millis && millis < 15000, "{}", millis);
    }
}

#[test]
fn a_range_of_one_leaves_no_choice() {
    let delays = Delays::new(7, 8).unwrap();
    for _ in 0..100 {
        assert_eq!(delays.sleep_random_time(), 7);
    }
    let top = Delays::new(u32::MAX - 1, u32::MAX).unwrap();
    assert_eq!(top.sleep_random_time(), u64::from(u32::MAX - 1));
}

#[test]
fn pauses_differ() {
    let delays = Delays::new(10, 2_000_000_000).unwrap();
    let drawn: Vec<u64> = (0..64).map(|_| delays.sleep_random_time()).collect();
    assert!(drawn.iter().all(|millis| 10 <= *millis && *millis < 2_000_000_000));
    assert!(drawn.iter().any(|millis| *millis != 10));
    assert!(drawn.iter().any(|millis| *millis != drawn[0]));
}

#[test]
fn narration_of_thinking_and_eating() {
    assert_eq!(narration(3, Thinking), "Philosopher 3 thinking...");
    assert_eq!(narration(3, Eating), "Philosopher 3 eating!");
    assert_eq!(narration(0, Thinking), "Philosopher 0 thinking...");
    assert_eq!(narration(0, Eating), "Philosopher 0 eating!");
}

#[test]
fn narration_writes_the_number_in_decimal() {
    assert_eq!(narration(9, Eating), "Philosopher 9 eating!");
    assert_eq!(narration(10, Eating), "Philosopher 10 eating!");
    assert_eq!(narration(1234567890, Thinking), "Philosopher 1234567890 thinking...");
    assert_eq!(narration(usize::MAX, Eating), format!("Philosopher {} eating!", usize::MAX));
    for id in 0..1200usize {
        assert_eq!(narration(id, Thinking), format!("Philosopher {} thinking...", id));
    }
}

#[test]
fn after_thinking_a_philosopher_eats() {
    let table = Table::<5>::new().unwrap();
    let delays = Delays::new(20, 30).unwrap();
    let turn = philosopher(2, &table, Thinking, &delays).unwrap();
    assert_eq!(turn.activity, Eating);
    assert!(20 <= turn.millis && turn.millis < 30);
    assert_eq!(turn.seen, vec![Thinking, Thinking, Eating, Thinking, Thinking]);
    assert_eq!(table.snapshot().unwrap(), vec![Thinking, Thinking, Eating, Thinking, Thinking]);
}

#[test]
fn after_eating_a_philosopher_thinks() {
    let table = Table::<5>::new().unwrap();
    let delays = Delays::new(1, 2).unwrap();
    let eats = philosopher(4, &table, Thinking, &delays).unwrap();
    assert_eq!(eats.activity, Eating);
    assert_eq!(eats.millis, 1);
    assert_eq!(eats.seen, vec![Thinking, Thinking, Thinking, Thinking, Eating]);
    let thinks = philosopher(4, &table, eats.activity, &delays).unwrap();
    assert_eq!(thinks.activity, Thinking);
    assert_eq!(thinks.millis, 1);
    assert_eq!(thinks.seen, vec![Thinking; 5]);
    assert_eq!(table.snapshot().unwrap(), vec![Thinking; 5]);
}

#[test]
fn philosophers_take_turns_round_the_table() {
    let table = Table::<3>::new().unwrap();
    let delays = Delays::default();
    for round in 0..30 {
        let id = round % 3;
        let eats = philosopher(id, &table, Thinking, &delays).unwrap();
        assert_eq!(eats.activity, Eating);
        assert_eq!(eats.seen[id], Eating);
        assert_eq!(eats.seen[(id + 1) % 3], Thinking);
        assert_eq!(eats.seen[(id + 2) % 3], Thinking);
        assert_eq!(table.snapshot().unwrap(), eats.seen);
        let thinks = philosopher(id, &table, Eating, &delays).unwrap();
        assert_eq!(thinks.activity, Thinking);
        assert_eq!(thinks.seen, vec![Thinking; 3]);
        assert_eq!(table.snapshot().unwrap(), vec![Thinking; 3]);
    }
}

#[test]
fn thinking_and_eating_follow_each_other() {
    let eats = Turn::after(Thinking, 12, vec![Thinking, Eating]);
    assert_eq!(eats.activity, Eating);
    assert_eq!(eats.millis, 12);
    assert_eq!(eats.seen, vec![Thinking, Eating]);
    let thinks = Turn::after(Eating, 0, vec![Thinking, Thinking]);
    assert_eq!(thinks.activity, Thinking);
    assert_eq!(thinks.millis, 0);
    assert_eq!(thinks.seen, vec![Thinking, Thinking]);
    let again = Turn::after(Turn::after(Thinking, 1, Vec::new()).activity, u64::MAX, Vec::new());
    assert_eq!(again.activity, Thinking);
    assert_eq!(again.millis, u64::MAX);
}
