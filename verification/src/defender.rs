//! Defender-metrics topic codec.
//!
//! A defender topic has the form
//! `$aws/things/<name>/defender/metrics/<json|cbor>[/accepted|rejected]`:
//! the operation token picks the report format, and the suffix is absent
//! on the publish topic.

use arrayvec::ArrayString;
use vstd::prelude::*;
use vstd::utf8::is_ascii_chars;

use crate::common::{
    find_slash, is_valid_bridge, is_valid_mqtt_topic, is_valid_prefix, is_valid_thing_name,
    lemma_name_chars_ascii, lemma_segments_cons, lemma_segments_len, lemma_segments_single,
    slash_free, spec_mqtt_ok, spec_segments, spec_valid_thing_name, str_eq, topic_buffer_chars,
    topic_buffer_new, topic_buffer_push, Error, ACCEPTED, AWS_THINGS_PREFIX,
    DEFENDER_API_BRIDGE, REJECTED, SUFFIX_ACCEPTED, SUFFIX_REJECTED, TOPIC_BUFFER_LENGTH,
};

verus! {

/// A parsed defender topic: whose device it addresses and which API it
/// is for.
#[derive(Debug)]
pub struct ThingDefender<'a> {
    pub thing_name: &'a str,
    pub api: Topic,
}

/// The kind of a defender message: a report format together with the
/// response outcome, or the bare publish topic.
#[derive(Debug, PartialEq, Eq, Structural, Clone, Copy)]
pub enum Topic {
    JsonReportPublish,
    JsonReportAccepted,
    JsonReportRejected,
    CborReportPublish,
    CborReportAccepted,
    CborReportRejected,
}

/// The report-format token of a message type.
pub open spec fn spec_op(t: Topic) -> Seq<char> {
    match t {
        Topic::JsonReportPublish | Topic::JsonReportAccepted | Topic::JsonReportRejected => "json"@,
        _ => "cbor"@,
    }
}

/// The outcome suffix of a message type, with its leading `/`; empty for
/// the publish topics.
pub open spec fn spec_suffix(t: Topic) -> Seq<char> {
    match t {
        Topic::JsonReportAccepted | Topic::CborReportAccepted => "/accepted"@,
        Topic::JsonReportRejected | Topic::CborReportRejected => "/rejected"@,
        _ => Seq::<char>::empty(),
    }
}

/// The canonical defender topic string for the given parameters.
pub open spec fn spec_defender_topic(th: Seq<char>, t: Topic) -> Seq<char> {
    "$aws/things/"@ + th + "/defender/metrics/"@ + spec_op(t) + spec_suffix(t)
}

/// Which inputs assembly accepts, and what it produces.
pub open spec fn spec_get_topic(th: Seq<char>, t: Topic) -> Result<Seq<char>, Error> {
    if !spec_valid_thing_name(th) {
        Err(Error::ThingnameParseFailed)
    } else {
        Ok(spec_defender_topic(th, t))
    }
}

/// What parsing the part after the `/defender/metrics/` bridge yields,
/// given the already-extracted thing name.
pub open spec fn spec_match_defender_body(th: Seq<char>, body: Seq<char>) -> Result<
    (Seq<char>, Topic),
    Error,
> {
    let segs = spec_segments(body);
    if segs.len() == 1 {
        if segs[0] == "json"@ {
            Ok((th, Topic::JsonReportPublish))
        } else if segs[0] == "cbor"@ {
            Ok((th, Topic::CborReportPublish))
        } else {
            Err(Error::MessageTypeParseFailed)
        }
    } else if segs.len() == 2 {
        if segs[0] == "json"@ && segs[1] == "accepted"@ {
            Ok((th, Topic::JsonReportAccepted))
        } else if segs[0] == "json"@ && segs[1] == "rejected"@ {
            Ok((th, Topic::JsonReportRejected))
        } else if segs[0] == "cbor"@ && segs[1] == "accepted"@ {
            Ok((th, Topic::CborReportAccepted))
        } else if segs[0] == "cbor"@ && segs[1] == "rejected"@ {
            Ok((th, Topic::CborReportRejected))
        } else {
            Err(Error::MessageTypeParseFailed)
        }
    } else {
        Err(Error::NoMatch)
    }
}

/// What parsing an arbitrary topic string yields: the thing name and the
/// message type, or the most specific failure.
pub open spec fn spec_match_defender(t: Seq<char>) -> Result<(Seq<char>, Topic), Error> {
    if !spec_mqtt_ok(t) {
        Err(Error::MqttTopicFailed)
    } else if !"$aws/things/"@.is_prefix_of(t) {
        Err(Error::NoMatch)
    } else {
        let s = t.skip("$aws/things/"@.len() as int);
        let segs = spec_segments(s);
        if segs.len() < 2 {
            Err(Error::FAIL)
        } else if !spec_valid_thing_name(segs[0]) {
            Err(Error::ThingnameParseFailed)
        } else {
            let rest = s.skip(segs[0].len() as int);
            if !"/defender/metrics/"@.is_prefix_of(rest) {
                Err(Error::RootParseFailed)
            } else {
                spec_match_defender_body(segs[0], rest.skip("/defender/metrics/"@.len() as int))
            }
        }
    }
}

fn op(api: &Topic) -> (r: &'static str)
    ensures
        r@ == spec_op(*api),
{
    match api {
        Topic::JsonReportPublish | Topic::JsonReportAccepted | Topic::JsonReportRejected => "json",
        _ => "cbor",
    }
}

fn suffix(topic_type: &Topic) -> (r: &'static str)
    ensures
        r@ == spec_suffix(*topic_type),
{
    proof {
        reveal_strlit("");
        assert(""@ =~= Seq::<char>::empty());
    }
    match topic_type {
        Topic::JsonReportAccepted | Topic::CborReportAccepted => SUFFIX_ACCEPTED,
        Topic::JsonReportRejected | Topic::CborReportRejected => SUFFIX_REJECTED,
        _ => "",
    }
}

/// ASCII-ness and lengths of the tokens this codec concatenates.
proof fn lemma_defender_literals()
    ensures
        is_ascii_chars("$aws/things/"@) && "$aws/things/"@.len() == 12,
        is_ascii_chars("/defender/metrics/"@) && "/defender/metrics/"@.len() == 18,
        is_ascii_chars("json"@) && "json"@.len() == 4,
        is_ascii_chars("cbor"@) && "cbor"@.len() == 4,
        is_ascii_chars("/accepted"@) && "/accepted"@.len() == 9,
        is_ascii_chars("/rejected"@) && "/rejected"@.len() == 9,
        is_ascii_chars(Seq::<char>::empty()),
{
    reveal_strlit("$aws/things/");
    reveal_strlit("/defender/metrics/");
    reveal_strlit("json");
    reveal_strlit("cbor");
    reveal_strlit("/accepted");
    reveal_strlit("/rejected");
}

/// ASCII-ness and length of the token parts of a message type.
proof fn lemma_defender_token_facts(t: Topic)
    ensures
        is_ascii_chars(spec_op(t)),
        spec_op(t).len() == 4,
        is_ascii_chars(spec_suffix(t)),
        spec_suffix(t).len() <= 9,
{
    lemma_defender_literals();
}

/// Assembles the defender topic string for the given thing and message
/// type.
pub fn get_topic<'a>(thing_name: &'a str, api: Topic) -> (r: Result<
    ArrayString<TOPIC_BUFFER_LENGTH>,
    Error,
>)
    ensures
        (match r {
            Ok(buf) => spec_get_topic(thing_name@, api) == Ok::<Seq<char>, Error>(
                topic_buffer_chars(buf),
            ),
            Err(e) => spec_get_topic(thing_name@, api) == Err::<Seq<char>, Error>(e),
        }),
{
    broadcast use vstd::utf8::is_ascii_chars_concat;

    if let Err(e) = is_valid_thing_name(thing_name) {
        return Err(e);
    }
    proof {
        lemma_defender_literals();
        lemma_defender_token_facts(api);
        lemma_name_chars_ascii(thing_name@);
    }
    let op_tok = op(&api);
    let suffix_tok = suffix(&api);
    let mut s = topic_buffer_new();
    topic_buffer_push(&mut s, "$aws/things/");
    topic_buffer_push(&mut s, thing_name);
    topic_buffer_push(&mut s, "/defender/metrics/");
    topic_buffer_push(&mut s, op_tok);
    topic_buffer_push(&mut s, suffix_tok);
    proof {
        assert(topic_buffer_chars(s) =~= spec_defender_topic(thing_name@, api));
    }
    Ok(s)
}

fn match_body<'a>(thing_name: &'a str, body: &'a str) -> (r: Result<ThingDefender<'a>, Error>)
    ensures
        (match r {
            Ok(td) => td.thing_name == thing_name && spec_match_defender_body(thing_name@, body@)
                == Ok::<(Seq<char>, Topic), Error>((td.thing_name@, td.api)),
            Err(e) => spec_match_defender_body(thing_name@, body@) == Err::<
                (Seq<char>, Topic),
                Error,
            >(e),
        }),
{
    let bn = body.unicode_len();
    match find_slash(body) {
        // A publish topic: the report format alone
        None => {
            proof {
                lemma_segments_single(body@);
            }
            if str_eq(body, "json") {
                Ok(ThingDefender { thing_name, api: Topic::JsonReportPublish })
            } else if str_eq(body, "cbor") {
                Ok(ThingDefender { thing_name, api: Topic::CborReportPublish })
            } else {
                Err(Error::MessageTypeParseFailed)
            }
        },
        Some(i1) => {
            let seg0 = body.substring_char(0, i1);
            let rest1 = body.substring_char(i1 + 1, bn);
            proof {
                assert(body@ =~= body@.take(i1 as int) + seq!['/'] + body@.skip(i1 as int + 1));
                lemma_segments_cons(seg0@, rest1@);
                lemma_segments_len(rest1@);
            }
            match find_slash(rest1) {
                // A response topic: format and outcome
                None => {
                    proof {
                        lemma_segments_single(rest1@);
                    }
                    let is_json = str_eq(seg0, "json");
                    let is_cbor = str_eq(seg0, "cbor");
                    let is_acc = str_eq(rest1, ACCEPTED);
                    let is_rej = str_eq(rest1, REJECTED);
                    if is_json && is_acc {
                        Ok(ThingDefender { thing_name, api: Topic::JsonReportAccepted })
                    } else if is_json && is_rej {
                        Ok(ThingDefender { thing_name, api: Topic::JsonReportRejected })
                    } else if is_cbor && is_acc {
                        Ok(ThingDefender { thing_name, api: Topic::CborReportAccepted })
                    } else if is_cbor && is_rej {
                        Ok(ThingDefender { thing_name, api: Topic::CborReportRejected })
                    } else {
                        Err(Error::MessageTypeParseFailed)
                    }
                },
                // Three segments or more: not a defender topic
                Some(i2) => {
                    proof {
                        assert(rest1@ =~= rest1@.take(i2 as int) + seq!['/'] + rest1@.skip(
                            i2 as int + 1,
                        ));
                        lemma_segments_cons(rest1@.take(i2 as int), rest1@.skip(i2 as int + 1));
                        lemma_segments_len(rest1@.skip(i2 as int + 1));
                    }
                    Err(Error::NoMatch)
                },
            }
        },
    }
}

/// Parses an incoming topic string as a defender topic, yielding the
/// thing name and the message type.
pub fn match_topic<'a>(topic: &'a str) -> (r: Result<ThingDefender<'a>, Error>)
    ensures
        (match r {
            Ok(td) => spec_match_defender(topic@) == Ok::<(Seq<char>, Topic), Error>(
                (td.thing_name@, td.api),
            ),
            Err(e) => spec_match_defender(topic@) == Err::<(Seq<char>, Topic), Error>(e),
        }),
{
    if let Err(e) = is_valid_mqtt_topic(topic) {
        return Err(e);
    }
    let s = match is_valid_prefix(topic, AWS_THINGS_PREFIX) {
        Ok(s) => s,
        Err(e) => { return Err(e) },
    };
    let n = s.unicode_len();
    let mid = match find_slash(s) {
        Some(i) => i,
        None => {
            proof {
                lemma_segments_single(s@);
            }
            return Err(Error::FAIL);
        },
    };
    let thing_name = s.substring_char(0, mid);
    let after = s.substring_char(mid, n);
    proof {
        assert(s@ =~= s@.take(mid as int) + seq!['/'] + s@.skip(mid as int + 1));
        lemma_segments_cons(s@.take(mid as int), s@.skip(mid as int + 1));
        lemma_segments_len(s@.skip(mid as int + 1));
        assert(thing_name@ == spec_segments(s@)[0]);
        assert(after@ =~= s@.skip(mid as int));
    }
    if let Err(e) = is_valid_thing_name(thing_name) {
        return Err(e);
    }
    let body = match is_valid_bridge(after, DEFENDER_API_BRIDGE) {
        Ok(b) => b,
        Err(e) => { return Err(e) },
    };
    match_body(thing_name, body)
}


/// The outcome-suffix token of a message type, without the leading `/`;
/// `None` for the publish topics.
pub open spec fn spec_suffix_word(t: Topic) -> Option<Seq<char>> {
    match t {
        Topic::JsonReportAccepted | Topic::CborReportAccepted => Some("accepted"@),
        Topic::JsonReportRejected | Topic::CborReportRejected => Some("rejected"@),
        _ => None,
    }
}

/// Round trip: parsing an assembled defender topic gives back exactly
/// the thing name and message type that went in, for every valid thing
/// name and every message type, the publish topics included.
#[verifier::rlimit(100)]
pub proof fn lemma_defender_round_trip(t: Topic, th: Seq<char>)
    requires
        spec_valid_thing_name(th),
    ensures
        spec_get_topic(th, t) == Ok::<Seq<char>, Error>(spec_defender_topic(th, t)),
        spec_match_defender(spec_defender_topic(th, t)) == Ok::<(Seq<char>, Topic), Error>(
            (th, t),
        ),
{
    broadcast use vstd::utf8::is_ascii_chars_concat;
    broadcast use vstd::utf8::is_ascii_chars_encode_utf8;

    lemma_defender_literals();
    lemma_defender_token_facts(t);
    lemma_name_chars_ascii(th);
    reveal_strlit("$aws/things/");
    reveal_strlit("/defender/metrics/");
    reveal_strlit("json");
    reveal_strlit("cbor");
    reveal_strlit("accepted");
    reveal_strlit("rejected");
    reveal_strlit("/accepted");
    reveal_strlit("/rejected");
    assert("json"@[0] == 'j' && "cbor"@[0] == 'c');
    assert("accepted"@[0] == 'a' && "rejected"@[0] == 'r');
    let topic = spec_defender_topic(th, t);
    let opsfx = spec_op(t) + spec_suffix(t);
    assert(is_ascii_chars(topic));
    assert(topic.len() >= 12);
    assert(topic.len() <= 12 + th.len() + 18 + opsfx.len());
    assert(spec_mqtt_ok(topic));
    assert("$aws/things/"@.is_prefix_of(topic)) by {
        assert(topic.subrange(0, 12) =~= "$aws/things/"@);
    }
    let s = th + "/defender/metrics/"@ + opsfx;
    assert(topic.skip("$aws/things/"@.len() as int) =~= s);
    assert(s =~= th + seq!['/'] + ("/defender/metrics/"@.skip(1) + opsfx));
    lemma_segments_cons(th, "/defender/metrics/"@.skip(1) + opsfx);
    lemma_segments_len("/defender/metrics/"@.skip(1) + opsfx);
    let segs = spec_segments(s);
    assert(segs[0] == th);
    assert(segs.len() >= 2);
    let rest = s.skip(th.len() as int);
    assert(rest =~= "/defender/metrics/"@ + opsfx);
    assert("/defender/metrics/"@.is_prefix_of(rest)) by {
        assert(rest.subrange(0, 18) =~= "/defender/metrics/"@);
    }
    let body = rest.skip("/defender/metrics/"@.len() as int);
    assert(body =~= opsfx);
    match spec_suffix_word(t) {
        None => {
            assert(body =~= spec_op(t));
            assert(slash_free(spec_op(t)));
            lemma_segments_single(spec_op(t));
        },
        Some(w) => {
            assert(spec_suffix(t) =~= seq!['/'] + w);
            assert(body =~= spec_op(t) + seq!['/'] + w);
            assert(slash_free(spec_op(t)));
            assert(slash_free(w));
            lemma_segments_cons(spec_op(t), w);
            lemma_segments_single(w);
            assert(spec_segments(body) =~~= seq![spec_op(t), w]);
        },
    }
}

} // verus!
