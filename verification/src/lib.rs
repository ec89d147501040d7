//! Topic-string codecs for an IoT device-to-cloud messaging fabric.
//!
//! Every message between a device and the cloud is routed through a
//! hierarchical, `/`-delimited topic string rooted at `$aws/things/`.
//! This crate assembles such topic strings from structured parameters and
//! parses incoming topic strings back into typed descriptions, for the
//! device shadow, jobs, defender-metrics and secure-tunneling protocols.
//! A small exponential-backoff sequence generator is included for retrying
//! failed publish or subscribe attempts.

use vstd::prelude::*;

pub mod backoff_algo;
pub mod common;
pub mod defender;
pub mod jobs;
pub mod shadow;
pub mod tunneling;

pub use common::Error;

use crate::common::{
    find_slash, is_valid_mqtt_topic, is_valid_prefix, is_valid_thing_name, lemma_name_chars_ascii,
    lemma_prefix_index, lemma_segments_cons, lemma_segments_len, lemma_segments_single,
    slash_free, spec_mqtt_ok, spec_segments, spec_valid_thing_name, str_starts_with,
    AWS_THINGS_PREFIX, DEFENDER_API_BRIDGE, JOBS_API_BRIDGE, NAMED_SHADOW_API_BRIDGE,
    SHADOW_API_BRIDGE, TUNNELS_API_BRIDGE,
};

verus! {

/// Which protocol an incoming topic string belongs to.
#[derive(Debug, PartialEq, Eq, Structural, Clone, Copy)]
pub enum TopicType {
    Other,
    NamedShadow,
    Shadow,
    Jobs,
    Defender,
    Tunneling,
}

/// Which protocol, if any, should handle the topic string: the bridge
/// segment after the thing name is tested against each protocol's
/// literal, named shadow before classic shadow (whose bridge is a prefix
/// of the named one).
pub open spec fn spec_match_topic_type(t: Seq<char>) -> Result<TopicType, Error> {
    if !spec_mqtt_ok(t) {
        Err(Error::MqttTopicFailed)
    } else if !"$aws/things/"@.is_prefix_of(t) {
        Err(Error::NoMatch)
    } else {
        let s = t.skip("$aws/things/"@.len() as int);
        let segs = spec_segments(s);
        if segs.len() < 2 {
            Err(Error::NoMatch)
        } else if !spec_valid_thing_name(segs[0]) {
            Err(Error::ThingnameParseFailed)
        } else {
            let rest = s.skip(segs[0].len() as int);
            if "/shadow/name/"@.is_prefix_of(rest) {
                Ok(TopicType::NamedShadow)
            } else if "/shadow/"@.is_prefix_of(rest) {
                Ok(TopicType::Shadow)
            } else if "/jobs/"@.is_prefix_of(rest) {
                Ok(TopicType::Jobs)
            } else if "/defender/metrics/"@.is_prefix_of(rest) {
                Ok(TopicType::Defender)
            } else if "/tunnels/"@.is_prefix_of(rest) {
                Ok(TopicType::Tunneling)
            } else {
                Err(Error::NoMatch)
            }
        }
    }
}

/// Given the topic string of an incoming message, determine which
/// protocol it belongs to, without parsing past the bridge segment.
pub fn match_topic_type<'a>(topic: &'a str) -> (r: Result<TopicType, Error>)
    ensures
        r == spec_match_topic_type(topic@),
{
    if let Err(e) = is_valid_mqtt_topic(topic) {
        return Err(e);
    }
    let s = match is_valid_prefix(topic, AWS_THINGS_PREFIX) {
        Ok(s) => s,
        Err(e) => { return Err(e) },
    };
    let n = s.unicode_len();
    let mid = match find_slash(s) {
        Some(i) => i,
        None => {
            proof {
                lemma_segments_single(s@);
            }
            return Err(Error::NoMatch);
        },
    };
    let thing_name = s.substring_char(0, mid);
    let rest = s.substring_char(mid, n);
    proof {
        assert(s@ =~= s@.take(mid as int) + seq!['/'] + s@.skip(mid as int + 1));
        lemma_segments_cons(s@.take(mid as int), s@.skip(mid as int + 1));
        lemma_segments_len(s@.skip(mid as int + 1));
        assert(thing_name@ == spec_segments(s@)[0]);
        assert(rest@ =~= s@.skip(mid as int));
    }
    if let Err(e) = is_valid_thing_name(thing_name) {
        return Err(e);
    }
    if str_starts_with(rest, NAMED_SHADOW_API_BRIDGE) {
        Ok(TopicType::NamedShadow)
    } else if str_starts_with(rest, SHADOW_API_BRIDGE) {
        Ok(TopicType::Shadow)
    } else if str_starts_with(rest, JOBS_API_BRIDGE) {
        Ok(TopicType::Jobs)
    } else if str_starts_with(rest, DEFENDER_API_BRIDGE) {
        Ok(TopicType::Defender)
    } else if str_starts_with(rest, TUNNELS_API_BRIDGE) {
        Ok(TopicType::Tunneling)
    } else {
        Err(Error::NoMatch)
    }
}

/// Classifier exclusivity: for a well-formed topic under
/// `$aws/things/<name>/`, each protocol's bridge segment routes to that
/// protocol and to no other, and an unrecognized bridge segment routes
/// nowhere (`NoMatch`).  The only overlap is by design: the classic
/// shadow bridge is a prefix of the named-shadow bridge, and the named
/// form wins.
pub proof fn lemma_classifier_exclusive(th: Seq<char>, rest: Seq<char>)
    requires
        spec_valid_thing_name(th),
        rest.len() > 0,
        rest[0] == '/',
        spec_mqtt_ok("$aws/things/"@ + th + rest),
    ensures
        "/shadow/name/"@.is_prefix_of(rest) ==> spec_match_topic_type("$aws/things/"@ + th + rest)
            == Ok::<TopicType, Error>(TopicType::NamedShadow),
        "/shadow/"@.is_prefix_of(rest) && !"/shadow/name/"@.is_prefix_of(rest)
            ==> spec_match_topic_type("$aws/things/"@ + th + rest) == Ok::<TopicType, Error>(
            TopicType::Shadow,
        ),
        "/jobs/"@.is_prefix_of(rest) ==> spec_match_topic_type("$aws/things/"@ + th + rest)
            == Ok::<TopicType, Error>(TopicType::Jobs),
        "/defender/metrics/"@.is_prefix_of(rest) ==> spec_match_topic_type(
            "$aws/things/"@ + th + rest,
        ) == Ok::<TopicType, Error>(TopicType::Defender),
        "/tunnels/"@.is_prefix_of(rest) ==> spec_match_topic_type("$aws/things/"@ + th + rest)
            == Ok::<TopicType, Error>(TopicType::Tunneling),
        (!"/shadow/"@.is_prefix_of(rest) && !"/jobs/"@.is_prefix_of(rest)
            && !"/defender/metrics/"@.is_prefix_of(rest) && !"/tunnels/"@.is_prefix_of(rest))
            ==> spec_match_topic_type("$aws/things/"@ + th + rest) == Err::<TopicType, Error>(
            Error::NoMatch,
        ),
{
    reveal_strlit("$aws/things/");
    reveal_strlit("/shadow/name/");
    reveal_strlit("/shadow/");
    reveal_strlit("/jobs/");
    reveal_strlit("/defender/metrics/");
    reveal_strlit("/tunnels/");
    lemma_name_chars_ascii(th);
    let topic = "$aws/things/"@ + th + rest;
    assert("$aws/things/"@.is_prefix_of(topic)) by {
        assert(topic.subrange(0, 12) =~= "$aws/things/"@);
    }
    let s = topic.skip("$aws/things/"@.len() as int);
    assert(s =~= th + rest);
    assert(s =~= th + seq!['/'] + rest.skip(1));
    lemma_segments_cons(th, rest.skip(1));
    lemma_segments_len(rest.skip(1));
    let segs = spec_segments(s);
    assert(segs[0] == th);
    assert(segs.len() >= 2);
    assert(s.skip(segs[0].len() as int) =~= rest);
    // The bridges differ pairwise within their common length, so at most
    // one of them (besides the shadow pair) can be a prefix of `rest`.
    if "/shadow/"@.is_prefix_of(rest) {
        lemma_prefix_index("/shadow/"@, rest, 1);
    }
    if "/jobs/"@.is_prefix_of(rest) {
        lemma_prefix_index("/jobs/"@, rest, 1);
    }
    if "/defender/metrics/"@.is_prefix_of(rest) {
        lemma_prefix_index("/defender/metrics/"@, rest, 1);
    }
    if "/tunnels/"@.is_prefix_of(rest) {
        lemma_prefix_index("/tunnels/"@, rest, 1);
    }
    if "/shadow/name/"@.is_prefix_of(rest) {
        lemma_prefix_index("/shadow/name/"@, rest, 1);
    }
}


/// A malformed thing name is rejected with `ThingnameParseFailed` by the
/// classifier and by every protocol's parser: for any topic under
/// `$aws/things/` whose first segment is not a valid thing name, parsing
/// fails with exactly that error, never a generic one.
pub proof fn lemma_parse_rejects_bad_thing_name(th: Seq<char>, rest: Seq<char>)
    requires
        slash_free(th),
        !spec_valid_thing_name(th),
        rest.len() > 0,
        rest[0] == '/',
        spec_mqtt_ok("$aws/things/"@ + th + rest),
    ensures
        spec_match_topic_type("$aws/things/"@ + th + rest) == Err::<TopicType, Error>(
            Error::ThingnameParseFailed,
        ),
        crate::shadow::spec_match_shadow("$aws/things/"@ + th + rest) == Err::<
            (Seq<char>, Option<Seq<char>>, crate::shadow::Topic),
            Error,
        >(Error::ThingnameParseFailed),
        crate::jobs::spec_match_jobs("$aws/things/"@ + th + rest) == Err::<
            (Seq<char>, Option<Seq<char>>, crate::jobs::Topic),
            Error,
        >(Error::ThingnameParseFailed),
        crate::defender::spec_match_defender("$aws/things/"@ + th + rest) == Err::<
            (Seq<char>, crate::defender::Topic),
            Error,
        >(Error::ThingnameParseFailed),
        crate::tunneling::spec_match_tunneling("$aws/things/"@ + th + rest) == Err::<(), Error>(
            Error::ThingnameParseFailed,
        ),
{
    reveal_strlit("$aws/things/");
    let topic = "$aws/things/"@ + th + rest;
    assert("$aws/things/"@.is_prefix_of(topic)) by {
        assert(topic.subrange(0, 12) =~= "$aws/things/"@);
    }
    let s = topic.skip("$aws/things/"@.len() as int);
    assert(s =~= th + rest);
    assert(s =~= th + seq!['/'] + rest.skip(1));
    lemma_segments_cons(th, rest.skip(1));
    lemma_segments_len(rest.skip(1));
    let segs = spec_segments(s);
    assert(segs[0] == th);
    assert(segs.len() >= 2);
}

} // verus!
