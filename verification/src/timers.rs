use vstd::prelude::*;

use crate::gpio_config::GpioConfig;

verus! {

/// Number of LEDC timers of the ESP32 (one speed mode).
pub const LEDC_TIMERS: usize = 4;

/// The four LEDC timers.
#[derive(PartialEq, Eq, Structural, Clone, Copy, Debug)]
pub enum LedcTimer {
    Timer0,
    Timer1,
    Timer2,
    Timer3,
}

/// The number of an LEDC timer.
pub open spec fn timer_number(t: LedcTimer) -> int {
    match t {
        LedcTimer::Timer0 => 0,
        LedcTimer::Timer1 => 1,
        LedcTimer::Timer2 => 2,
        LedcTimer::Timer3 => 3,
    }
}

/// Each LEDC timer carries its own number: timer k is numbered k, so
/// different timers have different numbers.
pub proof fn lemma_timer_numbers()
    ensures
        timer_number(LedcTimer::Timer0) == 0,
        timer_number(LedcTimer::Timer1) == 1,
        timer_number(LedcTimer::Timer2) == 2,
        timer_number(LedcTimer::Timer3) == 3,
        forall|a: LedcTimer, b: LedcTimer| timer_number(a) == timer_number(b) ==> a == b,
        forall|a: LedcTimer| 0 <= #[trigger] timer_number(a) < LEDC_TIMERS,
{
}

/// The LEDC timer with the given number, or `None` beyond the last timer.
pub fn ledc_timer(index: usize) -> (res: Option<LedcTimer>)
    ensures
        res is Some <==> index < LEDC_TIMERS,
        res matches Some(t) ==> timer_number(t) == index,
        index == 0 ==> res == Some(LedcTimer::Timer0),
        index == 1 ==> res == Some(LedcTimer::Timer1),
        index == 2 ==> res == Some(LedcTimer::Timer2),
        index == 3 ==> res == Some(LedcTimer::Timer3),
{
    match index {
        0 => Some(LedcTimer::Timer0),
        1 => Some(LedcTimer::Timer1),
        2 => Some(LedcTimer::Timer2),
        3 => Some(LedcTimer::Timer3),
        _ => None,
    }
}

/// Which timer runs each GPIO: timer `t` runs at `frequencies[t]`, and the
/// GPIO of entry `k` is driven by timer `timer_of[k]`.
pub struct TimerPlan {
    pub frequencies: Vec<u32>,
    pub timer_of: Vec<usize>,
}

/// Why no timer plan exists for a configuration table.
#[derive(PartialEq, Eq, Structural, Clone, Copy, Debug)]
pub enum TimerError {
    /// Two entries on one channel ask for different frequencies; a channel
    /// runs off a single timer.
    ChannelConflict,
    /// The entries ask for more distinct frequencies than there are timers.
    TooManyFrequencies,
}

/// Entries on one channel ask for one frequency.
pub open spec fn channels_agree(configs: Seq<GpioConfig>) -> bool {
    forall|i: int, j: int|
        0 <= i < configs.len() && 0 <= j < configs.len() && configs[i].channel == configs[j].channel
            ==> configs[i].frequency == configs[j].frequency
}

/// `w` names `LEDC_TIMERS + 1` entries whose frequencies are pairwise
/// different.
pub open spec fn distinct_frequency_witness(configs: Seq<GpioConfig>, w: Seq<int>) -> bool {
    &&& w.len() == LEDC_TIMERS + 1
    &&& forall|t: int| 0 <= t < w.len() ==> 0 <= #[trigger] w[t] < configs.len()
    &&& forall|s: int, t: int|
        0 <= s < w.len() && 0 <= t < w.len() && s != t ==> configs[w[s]].frequency != configs[w[t]].frequency
}

/// The entries ask for more distinct frequencies than there are timers.
pub open spec fn too_many_frequencies(configs: Seq<GpioConfig>) -> bool {
    exists|w: Seq<int>| distinct_frequency_witness(configs, w)
}

/// Some entry asks for frequency `f`.
pub open spec fn frequency_used(configs: Seq<GpioConfig>, f: u32) -> bool {
    exists|k: int| 0 <= k < configs.len() && configs[k].frequency == f
}

/// `frequencies` and `timer_of` are a timer plan for `configs`: at most
/// `LEDC_TIMERS` timers at pairwise different frequencies, each used by
/// some entry, and the timer of every entry runs at its frequency.
pub open spec fn plan_serves(configs: Seq<GpioConfig>, frequencies: Seq<u32>, timer_of: Seq<usize>) -> bool {
    &&& frequencies.len() <= LEDC_TIMERS
    &&& timer_of.len() == configs.len()
    &&& forall|k: int| 0 <= k < configs.len() ==> {
        &&& #[trigger] timer_of[k] < frequencies.len()
        &&& frequencies[timer_of[k] as int] == configs[k].frequency
    }
    &&& forall|s: int, t: int|
        0 <= s < frequencies.len() && 0 <= t < frequencies.len() && s != t ==> frequencies[s] != frequencies[t]
    &&& forall|t: int| 0 <= t < frequencies.len() ==> frequency_used(configs, #[trigger] frequencies[t])
}

/// Position of `f` in `frequencies`, if present.
fn position_of(frequencies: &Vec<u32>, f: u32) -> (res: Option<usize>)
    ensures
        res is None <==> !frequencies@.contains(f),
        res matches Some(t) ==> t < frequencies.len() && frequencies@[t as int] == f,
{
    let mut i: usize = 0;
    while i < frequencies.len()
        invariant
            i <= frequencies.len(),
            forall|j: int| 0 <= j < i ==> frequencies@[j] != f,
        decreases frequencies.len() - i,
    {
        if frequencies[i] == f {
            return Some(i);
        }
        i = i + 1;
    }
    None
}

/// Whether two entries on one channel ask for different frequencies.
fn has_channel_conflict(configs: &Vec<GpioConfig>) -> (res: bool)
    ensures
        res == !channels_agree(configs@),
{
    let mut i: usize = 0;
    while i < configs.len()
        invariant
            i <= configs.len(),
            forall|a: int, b: int|
                0 <= a < i && 0 <= b < i && configs@[a].channel == configs@[b].channel
                    ==> configs@[a].frequency == configs@[b].frequency,
        decreases configs.len() - i,
    {
        let mut j: usize = 0;
        while j < i
            invariant
                i < configs.len(),
                j <= i,
                forall|a: int, b: int|
                    0 <= a < i && 0 <= b < i && configs@[a].channel == configs@[b].channel
                        ==> configs@[a].frequency == configs@[b].frequency,
                forall|b: int|
                    0 <= b < j && configs@[i as int].channel == configs@[b].channel
                        ==> configs@[i as int].frequency == configs@[b].frequency,
            decreases i - j,
        {
            if configs[i].channel == configs[j].channel && configs[i].frequency != configs[j].frequency {
                return true;
            }
            j = j + 1;
        }
        i = i + 1;
    }
    false
}

/// A table that has a timer plan asks for at most `LEDC_TIMERS`
/// different frequencies.
proof fn lemma_plan_bounds_frequencies(configs: Seq<GpioConfig>, frequencies: Seq<u32>, timer_of: Seq<usize>)
    requires
        plan_serves(configs, frequencies, timer_of),
    ensures
        !too_many_frequencies(configs),
{
    if too_many_frequencies(configs) {
        let w = choose|w: Seq<int>| distinct_frequency_witness(configs, w);
        lemma_witness_exceeds_plan(configs, frequencies, timer_of, w);
    }
}

/// Five entries with different frequencies would need five different
/// timers of a plan that has at most four.
proof fn lemma_witness_exceeds_plan(
    configs: Seq<GpioConfig>,
    frequencies: Seq<u32>,
    timer_of: Seq<usize>,
    w: Seq<int>,
)
    requires
        plan_serves(configs, frequencies, timer_of),
    ensures
        !distinct_frequency_witness(configs, w),
{
    if distinct_frequency_witness(configs, w) {
    let t0 = timer_of[w[0]] as int;
    let t1 = timer_of[w[1]] as int;
    let t2 = timer_of[w[2]] as int;
    let t3 = timer_of[w[3]] as int;
    let t4 = timer_of[w[4]] as int;
    assert(0 <= w[0] < configs.len());
    assert(0 <= w[1] < configs.len());
    assert(0 <= w[2] < configs.len());
    assert(0 <= w[3] < configs.len());
    assert(0 <= w[4] < configs.len());
    assert(frequencies[t0] == configs[w[0]].frequency);
    assert(frequencies[t1] == configs[w[1]].frequency);
    assert(frequencies[t2] == configs[w[2]].frequency);
    assert(frequencies[t3] == configs[w[3]].frequency);
    assert(frequencies[t4] == configs[w[4]].frequency);
    assert(configs[w[0]].frequency != configs[w[1]].frequency);
    assert(configs[w[0]].frequency != configs[w[2]].frequency);
    assert(configs[w[0]].frequency != configs[w[3]].frequency);
    assert(configs[w[0]].frequency != configs[w[4]].frequency);
    assert(configs[w[1]].frequency != configs[w[2]].frequency);
    assert(configs[w[1]].frequency != configs[w[3]].frequency);
    assert(configs[w[1]].frequency != configs[w[4]].frequency);
    assert(configs[w[2]].frequency != configs[w[3]].frequency);
    assert(configs[w[2]].frequency != configs[w[4]].frequency);
    assert(configs[w[3]].frequency != configs[w[4]].frequency);
    }
}

/// The LEDC timers for the configuration table: one timer per distinct
/// frequency, in the order in which the entries first ask for it, so that
/// every GPIO runs at its configured frequency. Fails when two entries on
/// one channel disagree on the frequency, or when more frequencies are
/// asked for than there are timers.
pub fn timer_plan(configs: &Vec<GpioConfig>) -> (res: Result<TimerPlan, TimerError>)
    ensures
        res is Ok <==> channels_agree(configs@) && !too_many_frequencies(configs@),
        res matches Err(e) ==> (e == TimerError::ChannelConflict <==> !channels_agree(configs@)),
        res matches Ok(plan) ==> plan_serves(configs@, plan.frequencies@, plan.timer_of@),
{
    if has_channel_conflict(configs) {
        return Err(TimerError::ChannelConflict);
    }
    let mut frequencies: Vec<u32> = Vec::new();
    let mut timer_of: Vec<usize> = Vec::new();
    let ghost mut witness: Seq<int> = Seq::empty();
    let mut k: usize = 0;
    while k < configs.len()
        invariant
            k <= configs.len(),
            channels_agree(configs@),
            frequencies.len() <= LEDC_TIMERS,
            timer_of.len() == k,
            witness.len() == frequencies.len(),
            forall|j: int| 0 <= j < k ==> {
                &&& #[trigger] timer_of@[j] < frequencies.len()
                &&& frequencies@[timer_of@[j] as int] == configs@[j].frequency
            },
            forall|s: int, t: int|
                0 <= s < frequencies.len() && 0 <= t < frequencies.len() && s != t
                    ==> frequencies@[s] != frequencies@[t],
            forall|t: int| 0 <= t < frequencies.len() ==> {
                &&& 0 <= #[trigger] witness[t] < k
                &&& configs@[witness[t]].frequency == frequencies@[t]
            },
        decreases configs.len() - k,
    {
        let f = configs[k].frequency;
        match position_of(&frequencies, f) {
            Some(t) => {
                timer_of.push(t);
            },
            None => {
                if frequencies.len() == LEDC_TIMERS {
                    proof {
                        let w = witness.push(k as int);
                        assert forall|s: int, t: int|
                            0 <= s < w.len() && 0 <= t < w.len() && s != t
                                implies configs@[w[s]].frequency != configs@[w[t]].frequency by {
                            if s < witness.len() && t < witness.len() {
                                assert(configs@[witness[s]].frequency == frequencies@[s]);
                                assert(configs@[witness[t]].frequency == frequencies@[t]);
                            } else if s < witness.len() {
                                assert(configs@[witness[s]].frequency == frequencies@[s]);
                                assert(frequencies@.contains(frequencies@[s]));
                            } else {
                                assert(configs@[witness[t]].frequency == frequencies@[t]);
                                assert(frequencies@.contains(frequencies@[t]));
                            }
                        }
                        assert forall|t: int| 0 <= t < w.len() implies 0 <= #[trigger] w[t] < configs@.len() by {
                            if t < witness.len() {
                                assert(0 <= witness[t] < k);
                            }
                        }
                        assert(distinct_frequency_witness(configs@, w));
                    }
                    return Err(TimerError::TooManyFrequencies);
                }
                proof {
                    witness = witness.push(k as int);
                }
                timer_of.push(frequencies.len());
                frequencies.push(f);
                assert forall|s: int, t: int|
                    0 <= s < frequencies.len() && 0 <= t < frequencies.len() && s != t
                        implies frequencies@[s] != frequencies@[t] by {
                    if s == frequencies.len() - 1 {
                        assert(!frequencies@.drop_last().contains(f));
                        assert(frequencies@.drop_last()[t] == frequencies@[t]);
                    } else if t == frequencies.len() - 1 {
                        assert(frequencies@.drop_last()[s] == frequencies@[s]);
                    }
                }
            },
        }
        k = k + 1;
    }
    proof {
        assert forall|t: int| 0 <= t < frequencies.len() implies frequency_used(configs@, #[trigger] frequencies@[t]) by {
            assert(configs@[witness[t]].frequency == frequencies@[t]);
        }
        assert(plan_serves(configs@, frequencies@, timer_of@));
        lemma_plan_bounds_frequencies(configs@, frequencies@, timer_of@);
    }
    Ok(TimerPlan { frequencies, timer_of })
}

/// Entries on one channel are driven by one timer.
pub proof fn lemma_same_channel_same_timer(
    configs: Seq<GpioConfig>,
    frequencies: Seq<u32>,
    timer_of: Seq<usize>,
    i: int,
    j: int,
)
    requires
        plan_serves(configs, frequencies, timer_of),
        channels_agree(configs),
        0 <= i < configs.len(),
        0 <= j < configs.len(),
        configs[i].channel == configs[j].channel,
    ensures
        timer_of[i] == timer_of[j],
{
    assert(timer_of[i] < frequencies.len());
    assert(timer_of[j] < frequencies.len());
}

} // verus!
