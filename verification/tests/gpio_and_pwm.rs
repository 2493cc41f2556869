use led_control::gpio_config::{find_alias, GpioConfig};
use led_control::pwm::{channel_index, driver_plan, find_driver, ledc_channel, select_driver, DriverError, DriverSpec, LedcChannel};

fn cfg(gpio: u16, channel: u16, alias: &str, frequency: u32) -> GpioConfig {
    GpioConfig { gpio, channel, alias: alias.to_string(), frequency }
}

fn table() -> Vec<GpioConfig> {
    vec![
        cfg(23, 0, "light_1", 1000),
        cfg(22, 1, "light_2", 5000),
        cfg(21, 0, "light_3", 2000),
    ]
}

#[test]
fn find_alias_returns_first_match() {
    let mut t = table();
    t.push(cfg(19, 2, "light_2", 100));
    assert_eq!(find_alias(&t, &"light_2".to_string()), Some(1));
    assert_eq!(find_alias(&t, &"light_3".to_string()), Some(2));
    assert_eq!(find_alias(&t, &"missing".to_string()), None);
    assert_eq!(find_alias(&Vec::new(), &"light_1".to_string()), None);
}

#[test]
fn ledc_channel_covers_zero_to_seven() {
    assert_eq!(ledc_channel(0), Some(LedcChannel::Channel0));
    assert_eq!(ledc_channel(3), Some(LedcChannel::Channel3));
    assert_eq!(ledc_channel(7), Some(LedcChannel::Channel7));
    assert_eq!(ledc_channel(8), None);
    assert_eq!(ledc_channel(u16::MAX), None);
}

#[test]
fn channel_index_numbers() {
    assert_eq!(channel_index(LedcChannel::Channel0), 0);
    assert_eq!(channel_index(LedcChannel::Channel5), 5);
    assert_eq!(channel_index(LedcChannel::Channel7), 7);
}

#[test]
fn driver_plan_follows_the_table() {
    let plan = driver_plan(&table()).unwrap();
    assert_eq!(
        plan,
        vec![
            DriverSpec { channel: LedcChannel::Channel0, pin: 23 },
            DriverSpec { channel: LedcChannel::Channel1, pin: 22 },
            DriverSpec { channel: LedcChannel::Channel0, pin: 21 },
        ]
    );
    assert_eq!(driver_plan(&Vec::new()), Some(Vec::new()));
}

#[test]
fn driver_plan_rejects_channel_above_seven() {
    let mut t = table();
    t.push(cfg(5, 8, "bad", 1000));
    assert_eq!(driver_plan(&t), None);
}

#[test]
fn find_driver_takes_first_on_channel() {
    assert_eq!(find_driver(&vec![0, 1, 0], 0), Some(0));
    assert_eq!(find_driver(&vec![0, 1, 0], 1), Some(1));
    assert_eq!(find_driver(&vec![0, 1, 0], 2), None);
}

#[test]
fn select_driver_unknown_alias() {
    let t = table();
    assert_eq!(select_driver(&t, &vec![0, 1, 0], &"nope".to_string()), Err(DriverError::ConfigNotFound));
}

#[test]
fn select_driver_without_driver_on_channel() {
    let t = table();
    assert_eq!(select_driver(&t, &vec![0], &"light_2".to_string()), Err(DriverError::DriverNotFound));
    assert_eq!(select_driver(&t, &Vec::new(), &"light_1".to_string()), Err(DriverError::DriverNotFound));
}

#[test]
fn select_driver_shares_channel_driver() {
    // light_3 is on channel 0, whose first driver is the one of light_1.
    let t = table();
    let drivers = vec![0, 1, 0];
    assert_eq!(select_driver(&t, &drivers, &"light_1".to_string()), Ok(0));
    assert_eq!(select_driver(&t, &drivers, &"light_2".to_string()), Ok(1));
    assert_eq!(select_driver(&t, &drivers, &"light_3".to_string()), Ok(0));
}

#[test]
fn every_alias_has_a_driver_when_built_from_plan() {
    let t = table();
    let plan = driver_plan(&t).unwrap();
    let drivers: Vec<u32> = plan
        .iter()
        .map(|d| channel_index(d.channel))
        .collect();
    for (k, c) in t.iter().enumerate() {
        let i = select_driver(&t, &drivers, &c.alias).unwrap();
        assert_eq!(drivers[i], c.channel as u32);
        assert!(i <= k);
    }
}
