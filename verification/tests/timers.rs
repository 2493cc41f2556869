use led_control::gpio_config::GpioConfig;
use led_control::timers::{ledc_timer, timer_plan, LedcTimer, TimerError, LEDC_TIMERS};

fn cfg(channel: u16, frequency: u32) -> GpioConfig {
    GpioConfig { gpio: 20 + channel, channel, alias: format!("light_{}", channel), frequency }
}

#[test]
fn ledc_timer_covers_four_timers() {
    assert_eq!(ledc_timer(0), Some(LedcTimer::Timer0));
    assert_eq!(ledc_timer(3), Some(LedcTimer::Timer3));
    assert_eq!(ledc_timer(LEDC_TIMERS), None);
}

#[test]
fn each_gpio_runs_at_its_own_frequency() {
    let t = vec![cfg(0, 1000), cfg(1, 5000)];
    let plan = timer_plan(&t).unwrap();
    assert_eq!(plan.frequencies, vec![1000, 5000]);
    assert_eq!(plan.timer_of, vec![0, 1]);
    for (k, c) in t.iter().enumerate() {
        assert_eq!(plan.frequencies[plan.timer_of[k]], c.frequency);
    }
}

#[test]
fn equal_frequencies_share_a_timer() {
    let t = vec![cfg(0, 1000), cfg(1, 5000), cfg(2, 1000), cfg(0, 1000)];
    let plan = timer_plan(&t).unwrap();
    assert_eq!(plan.frequencies, vec![1000, 5000]);
    assert_eq!(plan.timer_of, vec![0, 1, 0, 0]);
}

#[test]
fn empty_table_needs_no_timer() {
    let plan = timer_plan(&Vec::new()).unwrap();
    assert!(plan.frequencies.is_empty());
    assert!(plan.timer_of.is_empty());
}

#[test]
fn four_frequencies_fit() {
    let t = vec![cfg(0, 1), cfg(1, 2), cfg(2, 3), cfg(3, 4), cfg(4, 2)];
    let plan = timer_plan(&t).unwrap();
    assert_eq!(plan.frequencies, vec![1, 2, 3, 4]);
    assert_eq!(plan.timer_of, vec![0, 1, 2, 3, 1]);
}

#[test]
fn five_frequencies_are_too_many() {
    let t = vec![cfg(0, 1), cfg(1, 2), cfg(2, 3), cfg(3, 4), cfg(4, 5)];
    assert!(matches!(timer_plan(&t), Err(TimerError::TooManyFrequencies)));
}

#[test]
fn channel_disagreement_is_refused() {
    let t = vec![cfg(0, 1000), cfg(1, 5000), cfg(0, 2000)];
    assert!(matches!(timer_plan(&t), Err(TimerError::ChannelConflict)));
}

#[test]
fn channel_disagreement_is_reported_first() {
    let t = vec![cfg(0, 1), cfg(1, 2), cfg(2, 3), cfg(3, 4), cfg(4, 5), cfg(0, 6)];
    assert!(matches!(timer_plan(&t), Err(TimerError::ChannelConflict)));
}
