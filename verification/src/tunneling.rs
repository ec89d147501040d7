//! Secure-tunneling topic codec.
//!
//! The protocol has a single topic, `$aws/things/<name>/tunnels/notify`,
//! carrying no payload beyond the fixed literal, so parsing yields a unit
//! result.

use vstd::prelude::*;

use crate::common::{
    find_slash, is_valid_bridge, is_valid_mqtt_topic, is_valid_prefix, is_valid_thing_name,
    AWS_THINGS_PREFIX, TUNNELS_API_BRIDGE,
    lemma_name_chars_ascii, lemma_segments_cons, lemma_segments_len, lemma_segments_single,
    spec_mqtt_ok, spec_segments, spec_valid_thing_name, str_eq, Error,
};

verus! {

/// What parsing an arbitrary topic string yields: unit when it is the
/// tunneling notification topic of a valid thing, the most specific
/// failure otherwise.
pub open spec fn spec_match_tunneling(t: Seq<char>) -> Result<(), Error> {
    if !spec_mqtt_ok(t) {
        Err(Error::MqttTopicFailed)
    } else if !"$aws/things/"@.is_prefix_of(t) {
        Err(Error::NoMatch)
    } else {
        let s = t.skip("$aws/things/"@.len() as int);
        let segs = spec_segments(s);
        if segs.len() < 2 {
            Err(Error::FAIL)
        } else if !spec_valid_thing_name(segs[0]) {
            Err(Error::ThingnameParseFailed)
        } else {
            let rest = s.skip(segs[0].len() as int);
            if !"/tunnels/"@.is_prefix_of(rest) {
                Err(Error::RootParseFailed)
            } else if rest.skip("/tunnels/"@.len() as int) == "notify"@ {
                Ok(())
            } else {
                Err(Error::NoMatch)
            }
        }
    }
}

/// Checks whether the given topic is the secure-tunneling notification
/// topic.
pub fn match_topic(topic: &str) -> (r: Result<(), Error>)
    ensures
        r == spec_match_tunneling(topic@),
{
    if let Err(e) = is_valid_mqtt_topic(topic) {
        return Err(e);
    }
    let s = match is_valid_prefix(topic, AWS_THINGS_PREFIX) {
        Ok(s) => s,
        Err(e) => { return Err(e) },
    };
    let n = s.unicode_len();
    let mid = match find_slash(s) {
        Some(i) => i,
        None => {
            proof {
                lemma_segments_single(s@);
            }
            return Err(Error::FAIL);
        },
    };
    let thing_name = s.substring_char(0, mid);
    let after = s.substring_char(mid, n);
    proof {
        assert(s@ =~= s@.take(mid as int) + seq!['/'] + s@.skip(mid as int + 1));
        lemma_segments_cons(s@.take(mid as int), s@.skip(mid as int + 1));
        lemma_segments_len(s@.skip(mid as int + 1));
        assert(thing_name@ == spec_segments(s@)[0]);
        assert(after@ =~= s@.skip(mid as int));
    }
    if let Err(e) = is_valid_thing_name(thing_name) {
        return Err(e);
    }
    let body = match is_valid_bridge(after, TUNNELS_API_BRIDGE) {
        Ok(b) => b,
        Err(e) => { return Err(e) },
    };
    if str_eq(body, "notify") {
        Ok(())
    } else {
        Err(Error::NoMatch)
    }
}


/// The canonical tunneling notification topic for a thing.
pub open spec fn spec_tunneling_topic(th: Seq<char>) -> Seq<char> {
    "$aws/things/"@ + th + "/tunnels/"@ + "notify"@
}

/// The notification topic of every valid thing name parses successfully:
/// the protocol's single message type is reachable.
pub proof fn lemma_tunneling_round_trip(th: Seq<char>)
    requires
        spec_valid_thing_name(th),
    ensures
        spec_match_tunneling(spec_tunneling_topic(th)) == Ok::<(), Error>(()),
{
    broadcast use vstd::utf8::is_ascii_chars_concat;
    broadcast use vstd::utf8::is_ascii_chars_encode_utf8;

    reveal_strlit("$aws/things/");
    reveal_strlit("/tunnels/");
    reveal_strlit("notify");
    lemma_name_chars_ascii(th);
    let topic = spec_tunneling_topic(th);
    assert(vstd::utf8::is_ascii_chars("$aws/things/"@));
    assert(vstd::utf8::is_ascii_chars("/tunnels/"@));
    assert(vstd::utf8::is_ascii_chars("notify"@));
    assert(vstd::utf8::is_ascii_chars(topic));
    assert(topic.len() >= 12);
    assert(topic.len() <= 12 + th.len() + 9 + 6);
    assert(spec_mqtt_ok(topic));
    assert("$aws/things/"@.is_prefix_of(topic)) by {
        assert(topic.subrange(0, 12) =~= "$aws/things/"@);
    }
    let s = th + "/tunnels/"@ + "notify"@;
    assert(topic.skip("$aws/things/"@.len() as int) =~= s);
    assert(s =~= th + seq!['/'] + ("/tunnels/"@.skip(1) + "notify"@));
    lemma_segments_cons(th, "/tunnels/"@.skip(1) + "notify"@);
    lemma_segments_len("/tunnels/"@.skip(1) + "notify"@);
    let segs = spec_segments(s);
    assert(segs[0] == th);
    assert(segs.len() >= 2);
    let rest = s.skip(th.len() as int);
    assert(rest =~= "/tunnels/"@ + "notify"@);
    assert("/tunnels/"@.is_prefix_of(rest)) by {
        assert(rest.subrange(0, 9) =~= "/tunnels/"@);
    }
    assert(rest.skip("/tunnels/"@.len() as int) =~= "notify"@);
}

} // verus!
