use vstd::prelude::*;

use crate::gpio_config::{GpioConfig, has_alias, is_first_with_alias, find_alias};

verus! {

/// The eight LEDC channels of the ESP32.
#[derive(PartialEq, Eq, Structural, Clone, Copy, Debug)]
pub enum LedcChannel {
    Channel0,
    Channel1,
    Channel2,
    Channel3,
    Channel4,
    Channel5,
    Channel6,
    Channel7,
}

/// The number of an LEDC channel.
pub open spec fn channel_number(c: LedcChannel) -> int {
    match c {
        LedcChannel::Channel0 => 0,
        LedcChannel::Channel1 => 1,
        LedcChannel::Channel2 => 2,
        LedcChannel::Channel3 => 3,
        LedcChannel::Channel4 => 4,
        LedcChannel::Channel5 => 5,
        LedcChannel::Channel6 => 6,
        LedcChannel::Channel7 => 7,
    }
}

/// Each LEDC channel carries its own number: channel k is numbered k, so
/// different channels have different numbers.
pub proof fn lemma_channel_numbers()
    ensures
        channel_number(LedcChannel::Channel0) == 0,
        channel_number(LedcChannel::Channel1) == 1,
        channel_number(LedcChannel::Channel2) == 2,
        channel_number(LedcChannel::Channel3) == 3,
        channel_number(LedcChannel::Channel4) == 4,
        channel_number(LedcChannel::Channel5) == 5,
        channel_number(LedcChannel::Channel6) == 6,
        channel_number(LedcChannel::Channel7) == 7,
        forall|a: LedcChannel, b: LedcChannel| channel_number(a) == channel_number(b) ==> a == b,
        forall|a: LedcChannel| 0 <= #[trigger] channel_number(a) < 8,
{
}

/// The LEDC channel with the configured number, or `None` for a number
/// above 7, which names no channel.
pub fn ledc_channel(channel: u16) -> (res: Option<LedcChannel>)
    ensures
        res is Some <==> channel < 8,
        res matches Some(c) ==> channel_number(c) == channel,
        channel == 0 ==> res == Some(LedcChannel::Channel0),
        channel == 1 ==> res == Some(LedcChannel::Channel1),
        channel == 2 ==> res == Some(LedcChannel::Channel2),
        channel == 3 ==> res == Some(LedcChannel::Channel3),
        channel == 4 ==> res == Some(LedcChannel::Channel4),
        channel == 5 ==> res == Some(LedcChannel::Channel5),
        channel == 6 ==> res == Some(LedcChannel::Channel6),
        channel == 7 ==> res == Some(LedcChannel::Channel7),
{
    match channel {
        0 => Some(LedcChannel::Channel0),
        1 => Some(LedcChannel::Channel1),
        2 => Some(LedcChannel::Channel2),
        3 => Some(LedcChannel::Channel3),
        4 => Some(LedcChannel::Channel4),
        5 => Some(LedcChannel::Channel5),
        6 => Some(LedcChannel::Channel6),
        7 => Some(LedcChannel::Channel7),
        _ => None,
    }
}

/// The number of an LEDC channel, as the driver reports it.
pub fn channel_index(c: LedcChannel) -> (res: u32)
    ensures
        res == channel_number(c),
{
    match c {
        LedcChannel::Channel0 => 0,
        LedcChannel::Channel1 => 1,
        LedcChannel::Channel2 => 2,
        LedcChannel::Channel3 => 3,
        LedcChannel::Channel4 => 4,
        LedcChannel::Channel5 => 5,
        LedcChannel::Channel6 => 6,
        LedcChannel::Channel7 => 7,
    }
}

/// What one PWM driver is made of: its LEDC channel and its output pin.
#[derive(PartialEq, Eq, Structural, Clone, Copy, Debug)]
pub struct DriverSpec {
    pub channel: LedcChannel,
    pub pin: i32,
}

/// Every configuration names a valid LEDC channel.
pub open spec fn all_channels_valid(configs: Seq<GpioConfig>) -> bool {
    forall|i: int| 0 <= i < configs.len() ==> configs[i].channel < 8
}

/// `plan` holds one driver per configuration, in the same order, on the
/// configured channel and pin.
pub open spec fn plan_matches(configs: Seq<GpioConfig>, plan: Seq<DriverSpec>) -> bool {
    &&& plan.len() == configs.len()
    &&& forall|i: int|
        0 <= i < configs.len() ==> {
            &&& channel_number(#[trigger] plan[i].channel) == configs[i].channel
            &&& plan[i].pin == configs[i].gpio
        }
}

/// The drivers to build for the configuration table, one per entry and in
/// its order; `None` when some entry names a channel above 7 (no driver can
/// be built for it).
pub fn driver_plan(configs: &Vec<GpioConfig>) -> (res: Option<Vec<DriverSpec>>)
    ensures
        res is Some <==> all_channels_valid(configs@),
        res matches Some(plan) ==> plan_matches(configs@, plan@),
{
    let mut plan: Vec<DriverSpec> = Vec::new();
    let mut i: usize = 0;
    while i < configs.len()
        invariant
            i <= configs.len(),
            plan_matches(configs@.take(i as int), plan@),
            all_channels_valid(configs@.take(i as int)),
        decreases configs.len() - i,
    {
        let c = &configs[i];
        match ledc_channel(c.channel) {
            Some(ch) => {
                plan.push(DriverSpec { channel: ch, pin: c.gpio as i32 });
            },
            None => {
                assert(!all_channels_valid(configs@)) by {
                    assert(configs@[i as int].channel >= 8);
                }
                return None;
            },
        }
        i = i + 1;
        assert(configs@.take(i as int).drop_last() =~= configs@.take(i - 1));
    }
    assert(configs@.take(configs.len() as int) =~= configs@);
    Some(plan)
}

/// Why no PWM driver could be handed out.
#[derive(PartialEq, Eq, Structural, Clone, Copy, Debug)]
pub enum DriverError {
    /// No configuration carries the requested alias.
    ConfigNotFound,
    /// No driver runs on the channel of the requested configuration.
    DriverNotFound,
}

/// `i` is the first driver whose channel is `channel`.
pub open spec fn is_first_driver_on(drivers: Seq<u32>, channel: u16, i: int) -> bool {
    &&& 0 <= i < drivers.len()
    &&& drivers[i] == channel
    &&& forall|j: int| 0 <= j < i ==> drivers[j] != channel
}

/// Some driver runs on `channel`.
pub open spec fn has_driver_on(drivers: Seq<u32>, channel: u16) -> bool {
    exists|i: int| 0 <= i < drivers.len() && drivers[i] == channel
}

/// The channel of the first configuration with alias `alias`.
pub open spec fn target_channel(configs: Seq<GpioConfig>, alias: Seq<char>) -> u16 {
    configs[choose|i: int| is_first_with_alias(configs, alias, i)].channel
}

/// Position of the first driver (of `drivers`, given by their channels)
/// that runs on `channel`.
pub fn find_driver(drivers: &Vec<u32>, channel: u16) -> (res: Option<usize>)
    ensures
        res is None <==> !has_driver_on(drivers@, channel),
        res matches Some(i) ==> is_first_driver_on(drivers@, channel, i as int),
        res matches Some(i) ==> i < drivers.len() && drivers@[i as int] == channel
            && forall|j: int| 0 <= j < i ==> drivers@[j] != channel,
        res is None ==> forall|j: int| 0 <= j < drivers.len() ==> drivers@[j] != channel,
{
    let mut i: usize = 0;
    while i < drivers.len()
        invariant
            i <= drivers.len(),
            forall|j: int| 0 <= j < i ==> drivers@[j] != channel,
        decreases drivers.len() - i,
    {
        if drivers[i] == channel as u32 {
            return Some(i);
        }
        i = i + 1;
    }
    None
}

/// The driver that serves the GPIO with alias `alias`: the first
/// configuration with that alias gives a channel, and the first driver on
/// that channel is chosen. `drivers` holds the channel of each driver.
pub fn select_driver(configs: &Vec<GpioConfig>, drivers: &Vec<u32>, alias: &String) -> (res: Result<usize, DriverError>)
    ensures
        res is Ok <==> has_alias(configs@, alias@) && has_driver_on(drivers@, target_channel(configs@, alias@)),
        res == Err::<usize, DriverError>(DriverError::ConfigNotFound) <==> !has_alias(configs@, alias@),
        res == Err::<usize, DriverError>(DriverError::DriverNotFound) <==> (has_alias(configs@, alias@)
            && !has_driver_on(drivers@, target_channel(configs@, alias@))),
        res matches Ok(i) ==> has_alias(configs@, alias@)
            && is_first_driver_on(drivers@, target_channel(configs@, alias@), i as int),
{
    match find_alias(configs, alias) {
        None => Err(DriverError::ConfigNotFound),
        Some(t) => {
            proof {
                lemma_first_alias_unique(configs@, alias@, t as int);
            }
            match find_driver(drivers, configs[t].channel) {
                None => Err(DriverError::DriverNotFound),
                Some(i) => Ok(i),
            }
        },
    }
}

/// The channel the driver search looks for is the channel of the first
/// entry that carries the alias.
pub proof fn lemma_target_channel(configs: Seq<GpioConfig>, alias: Seq<char>, t: int)
    requires
        0 <= t < configs.len(),
        configs[t].alias@ == alias,
        forall|j: int| 0 <= j < t ==> configs[j].alias@ != alias,
    ensures
        target_channel(configs, alias) == configs[t].channel,
{
    lemma_first_alias_unique(configs, alias, t);
}

/// The first position with a given alias is unique, so it is the one that
/// `target_channel` picks.
proof fn lemma_first_alias_unique(configs: Seq<GpioConfig>, alias: Seq<char>, t: int)
    requires
        is_first_with_alias(configs, alias, t),
    ensures
        target_channel(configs, alias) == configs[t].channel,
{
    let c = choose|i: int| is_first_with_alias(configs, alias, i);
    assert(is_first_with_alias(configs, alias, c));
    if c < t {
        assert(configs[c].alias@ != alias);
    } else if t < c {
        assert(configs[t].alias@ != alias);
    }
}

/// `drivers` holds, in order, the channel of each driver built from `plan`.
pub open spec fn drivers_follow_plan(plan: Seq<DriverSpec>, drivers: Seq<u32>) -> bool {
    &&& drivers.len() == plan.len()
    &&& forall|i: int| 0 <= i < plan.len() ==> drivers[i] == channel_number(#[trigger] plan[i].channel)
}

/// Once one driver has been built per configuration, following the plan,
/// every alias of the table is served: the driver search for it succeeds,
/// and the driver found runs on the channel of the aliased configuration
/// and comes no later than that configuration.
pub proof fn lemma_configured_alias_has_driver(
    configs: Seq<GpioConfig>,
    plan: Seq<DriverSpec>,
    drivers: Seq<u32>,
    alias: Seq<char>,
)
    requires
        plan_matches(configs, plan),
        drivers_follow_plan(plan, drivers),
        has_alias(configs, alias),
    ensures
        has_driver_on(drivers, target_channel(configs, alias)),
        forall|t: int, i: int|
            #[trigger] is_first_with_alias(configs, alias, t)
            && #[trigger] is_first_driver_on(drivers, target_channel(configs, alias), i) ==> i <= t,
{
    let w = choose|i: int| 0 <= i < configs.len() && configs[i].alias@ == alias;
    let t = lemma_first_alias_exists(configs, alias, w);
    lemma_first_alias_unique(configs, alias, t);
    assert(drivers[t] == channel_number(plan[t].channel));
    assert(drivers[t] == configs[t].channel);
    let c = choose|i: int| is_first_with_alias(configs, alias, i);
    assert(is_first_with_alias(configs, alias, c));
    assert(c == t) by {
        if c < t {
            assert(configs[c].alias@ != alias);
        } else if t < c {
            assert(configs[t].alias@ != alias);
        }
    }
    assert forall|t2: int, i: int|
        #[trigger] is_first_with_alias(configs, alias, t2)
        && #[trigger] is_first_driver_on(drivers, target_channel(configs, alias), i) implies i <= t2 by {
        lemma_first_alias_unique(configs, alias, t2);
        if i > t2 {
            assert(drivers[t2] == channel_number(plan[t2].channel));
            assert(drivers[t2] != target_channel(configs, alias));
        }
    }
}

/// GPIOs on the same channel share the same PWM driver: when the aliased
/// configurations of two aliases name the same channel, the driver search
/// picks the same driver for both. (An entry whose alias repeats an earlier
/// entry's alias is never addressed: the alias reaches the earlier entry.)
pub proof fn lemma_same_channel_same_driver(
    configs: Seq<GpioConfig>,
    drivers: Seq<u32>,
    alias1: Seq<char>,
    alias2: Seq<char>,
    i1: int,
    i2: int,
)
    requires
        has_alias(configs, alias1),
        has_alias(configs, alias2),
        target_channel(configs, alias1) == target_channel(configs, alias2),
        is_first_driver_on(drivers, target_channel(configs, alias1), i1),
        is_first_driver_on(drivers, target_channel(configs, alias2), i2),
    ensures
        i1 == i2,
{
    let c = target_channel(configs, alias1);
    if i1 < i2 {
        assert(drivers[i1] != c);
    } else if i2 < i1 {
        assert(drivers[i2] != c);
    }
}

/// From any position carrying `alias`, the first position carrying it.
proof fn lemma_first_alias_exists(configs: Seq<GpioConfig>, alias: Seq<char>, w: int) -> (t: int)
    requires
        0 <= w < configs.len(),
        configs[w].alias@ == alias,
    ensures
        is_first_with_alias(configs, alias, t),
    decreases w,
{
    if exists|j: int| 0 <= j < w && configs[j].alias@ == alias {
        let j = choose|j: int| 0 <= j < w && configs[j].alias@ == alias;
        lemma_first_alias_exists(configs, alias, j)
    } else {
        w
    }
}

} // verus!
