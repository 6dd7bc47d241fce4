use vstd::prelude::*;
use vstd::string::StringExecFns;

verus! {

/// A play state as a form offers it: the label shown, and the value stored.
#[derive(Debug)]
pub struct PlayState<'a> {
    pub display: &'a str,
    pub value: &'a str,
}

/// A platform of the configured allow-list. `slug` is the value stored.
#[derive(Debug)]
pub struct Platform {
    pub name: String,
    pub short_name: String,
    pub slug: String,
}

/// The values that a play state may take, in the order in which they are offered.
pub open spec fn play_state_values() -> Seq<Seq<char>> {
    seq![
        "unplayed"@,
        "unfinished"@,
        "beaten"@,
        "completed"@,
        "100_percent"@,
        "wont_beat"@,
        "multiplayer"@,
        "null"@,
    ]
}

/// The labels of the play states, in the same order.
pub open spec fn play_state_labels() -> Seq<Seq<char>> {
    seq![
        "Unplayed"@,
        "Unfinished"@,
        "Beaten"@,
        "Completed"@,
        "100%"@,
        "Won't Beat"@,
        "Multiplayer"@,
        "Null"@,
    ]
}

/// The slugs of the configured platforms, in their order.
pub open spec fn platform_slugs(platforms: Seq<Platform>) -> Seq<Seq<char>> {
    Seq::new(platforms.len(), |i: int| platforms[i].slug@)
}

/// Both values lie in their allow-lists.
pub open spec fn enum_values_valid(
    play_state: Seq<char>,
    platform: Seq<char>,
    slugs: Seq<Seq<char>>,
) -> bool {
    slugs.contains(platform) && play_state_values().contains(play_state)
}

/// The play states, in the order in which a form offers them.
pub fn get_play_states<'a>() -> (r: Vec<PlayState<'a>>)
    ensures
        r@.len() == 8,
        forall|i: int|
            0 <= i < 8 ==> (#[trigger] r@[i]).value@ == play_state_values()[i] && r@[i].display@
                == play_state_labels()[i],
{
    vec![
        PlayState { display: "Unplayed", value: "unplayed" },
        PlayState { display: "Unfinished", value: "unfinished" },
        PlayState { display: "Beaten", value: "beaten" },
        PlayState { display: "Completed", value: "completed" },
        PlayState { display: "100%", value: "100_percent" },
        PlayState { display: "Won't Beat", value: "wont_beat" },
        PlayState { display: "Multiplayer", value: "multiplayer" },
        PlayState { display: "Null", value: "null" },
    ]
}

/// Whether `play_state` is one of the eight values.
pub fn is_valid_play_state(play_state: &String) -> (r: bool)
    ensures
        r == play_state_values().contains(play_state@),
{
    let states = get_play_states();
    let mut i: usize = 0;
    while i < states.len()
        invariant
            i <= states.len(),
            states@.len() == 8,
            forall|k: int| 0 <= k < 8 ==> (#[trigger] states@[k]).value@ == play_state_values()[k],
            forall|k: int| 0 <= k < i ==> play_state_values()[k] != play_state@,
        decreases states.len() - i,
    {
        if *play_state == String::from_str(states[i].value) {
            assert(play_state_values()[i as int] == play_state@);
            return true;
        }
        i += 1;
    }
    proof {
        assert(play_state_values().len() == 8);
    }
    false
}

/// Whether `platform` is the slug of a configured platform.
pub fn is_valid_platform(platform: &String, platforms: &Vec<Platform>) -> (r: bool)
    ensures
        r == platform_slugs(platforms@).contains(platform@),
{
    let mut i: usize = 0;
    while i < platforms.len()
        invariant
            i <= platforms.len(),
            forall|k: int| 0 <= k < i ==> platform_slugs(platforms@)[k] != platform@,
        decreases platforms.len() - i,
    {
        if platforms[i].slug == *platform {
            assert(platform_slugs(platforms@)[i as int] == platform@);
            return true;
        }
        i += 1;
    }
    false
}

/// Whether a play state and a platform both lie in their allow-lists.
pub fn are_valid_enum_values(play_state: &String, platform: &String, platforms: &Vec<Platform>) -> (r:
    bool)
    ensures
        r == enum_values_valid(play_state@, platform@, platform_slugs(platforms@)),
{
    is_valid_platform(platform, platforms) && is_valid_play_state(play_state)
}

} // verus!
