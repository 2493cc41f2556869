use vstd::prelude::*;

verus! {

/// One entry of the GPIO configuration file: which pin is driven, on which
/// LEDC channel, at which PWM frequency, and under which alias the REST API
/// addresses it.
#[derive(Debug)]
pub struct GpioConfig {
    pub gpio: u16,
    pub channel: u16,
    pub alias: String,
    pub frequency: u32,
}

/// `i` is the first position of `configs` whose alias is `alias`.
pub open spec fn is_first_with_alias(configs: Seq<GpioConfig>, alias: Seq<char>, i: int) -> bool {
    &&& 0 <= i < configs.len()
    &&& configs[i].alias@ == alias
    &&& forall|j: int| 0 <= j < i ==> configs[j].alias@ != alias
}

/// Some entry of `configs` has the alias `alias`.
pub open spec fn has_alias(configs: Seq<GpioConfig>, alias: Seq<char>) -> bool {
    exists|i: int| 0 <= i < configs.len() && configs[i].alias@ == alias
}

/// Position of the first configuration whose alias is `alias`, or `None`
/// when no configuration carries that alias.
pub fn find_alias(configs: &Vec<GpioConfig>, alias: &String) -> (res: Option<usize>)
    ensures
        res is None <==> !has_alias(configs@, alias@),
        res matches Some(i) ==> is_first_with_alias(configs@, alias@, i as int),
        res matches Some(i) ==> i < configs.len() && configs@[i as int].alias@ == alias@
            && forall|j: int| 0 <= j < i ==> configs@[j].alias@ != alias@,
        res is None ==> forall|j: int| 0 <= j < configs.len() ==> configs@[j].alias@ != alias@,
{
    let mut i: usize = 0;
    while i < configs.len()
        invariant
            i <= configs.len(),
            forall|j: int| 0 <= j < i ==> configs@[j].alias@ != alias@,
        decreases configs.len() - i,
    {
        if configs[i].alias == *alias {
            return Some(i);
        }
        i = i + 1;
    }
    None
}

} // verus!
