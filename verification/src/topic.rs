//! The MQTT topics under which the lights are known to Home Assistant.

use vstd::prelude::*;
use vstd::string::{StrSliceExecFns, StringExecFns};

verus! {

/// What every topic of a light begins with.
pub open spec fn light_prefix() -> Seq<char> {
    "homeassistant/dmx/"@
}

/// What the command topic of a light ends with.
pub open spec fn command_suffix() -> Seq<char> {
    "/set"@
}

/// Whether the text begins with the prefix.
pub open spec fn starts_with(text: Seq<char>, prefix: Seq<char>) -> bool {
    prefix.len() <= text.len() && text.subrange(0, prefix.len() as int) == prefix
}

/// The text up to its first slash, or all of it where it has none.
pub open spec fn first_segment(text: Seq<char>) -> Seq<char> {
    if text.contains('/') {
        text.subrange(0, text.index_of_first('/')->0)
    } else {
        text
    }
}

/// The topic on which the state of the light is published.
pub fn state_topic(light_id: &str) -> (topic: String)
    ensures
        topic@ == light_prefix() + light_id@,
{
    "homeassistant/dmx/".to_string().concat(light_id)
}

/// The topic on which the light takes commands.
pub fn command_topic(light_id: &str) -> (topic: String)
    ensures
        topic@ == light_prefix() + light_id@ + command_suffix(),
{
    state_topic(light_id).concat("/set")
}

/// The id of the light that a topic belongs to: what stands between the prefix of
/// the light topics and the next slash. A topic that does not begin with the
/// prefix belongs to no light.
pub fn light_of_topic(topic: &str) -> (light_id: Option<String>)
    ensures
        starts_with(topic@, light_prefix()) ==> (light_id matches Some(id) && id@
            == first_segment(topic@.subrange(light_prefix().len() as int, topic@.len() as int))),
        !starts_with(topic@, light_prefix()) ==> light_id is None,
{
    let prefix = "homeassistant/dmx/";
    let length = topic.unicode_len();
    let start = prefix.unicode_len();
    if length < start {
        return None;
    }
    let mut i: usize = 0;
    while i < start
        invariant
            i <= start <= length,
            start == prefix@.len(),
            length == topic@.len(),
            prefix@ == light_prefix(),
            forall|k: int| 0 <= k < i ==> topic@[k] == prefix@[k],
        decreases start - i,
    {
        if topic.get_char(i) != prefix.get_char(i) {
            assert(topic@.subrange(0, start as int)[i as int] != prefix@[i as int]);
            return None;
        }
        i += 1;
    }
    assert(topic@.subrange(0, start as int) =~= prefix@);
    let ghost rest = topic@.subrange(start as int, length as int);
    let mut end: usize = start;
    while end < length && topic.get_char(end) != '/'
        invariant
            start <= end <= length,
            length == topic@.len(),
            rest == topic@.subrange(start as int, length as int),
            forall|k: int| 0 <= k < end - start ==> rest[k] != '/',
        decreases length - end,
    {
        end += 1;
    }
    proof {
        if end < length {
            assert(rest[end - start] == '/');
            rest.index_of_first_ensures('/');
            let first = rest.index_of_first('/')->0;
            assert(first == end - start);
        } else {
            assert(!rest.contains('/'));
        }
        assert(topic@.subrange(start as int, end as int) =~= first_segment(rest));
    }
    Some(topic.substring_char(start, end).to_owned())
}

/// The topics of a light lead back to the light: the id that is read from the
/// state topic or the command topic of a light is the id of that light, as long as
/// the id holds no slash.
pub proof fn topics_name_their_light(light_id: Seq<char>)
    requires
        !light_id.contains('/'),
    ensures
        starts_with(light_prefix() + light_id, light_prefix()),
        first_segment(
            (light_prefix() + light_id).subrange(
                light_prefix().len() as int,
                (light_prefix() + light_id).len() as int,
            ),
        ) == light_id,
        starts_with(light_prefix() + light_id + command_suffix(), light_prefix()),
        first_segment(
            (light_prefix() + light_id + command_suffix()).subrange(
                light_prefix().len() as int,
                (light_prefix() + light_id + command_suffix()).len() as int,
            ),
        ) == light_id,
{
    reveal_strlit("/set");
    let prefix = light_prefix();
    let state = prefix + light_id;
    let command = prefix + light_id + command_suffix();
    assert(state.subrange(0, prefix.len() as int) =~= prefix);
    assert(command.subrange(0, prefix.len() as int) =~= prefix);
    assert(state.subrange(prefix.len() as int, state.len() as int) =~= light_id);
    let rest = command.subrange(prefix.len() as int, command.len() as int);
    assert(rest =~= light_id + command_suffix());
    assert(rest[light_id.len() as int] == '/');
    rest.index_of_first_ensures('/');
    let first = rest.index_of_first('/')->0;
    assert(first == light_id.len()) by {
        if first < light_id.len() {
            assert(light_id[first] == '/');
        }
    }
    assert(rest.subrange(0, first) =~= light_id);
}

} // verus!
