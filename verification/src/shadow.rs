//! Device-shadow topic codec.
//!
//! A shadow topic takes one of two forms: classic (unnamed shadow),
//! `$aws/things/<name>/shadow/<op>[/<suffix>]`, or named,
//! `$aws/things/<name>/shadow/name/<shadow-name>/<op>[/<suffix>]`.
//! The shadow-name part is `None` for the classic shadow.

use arrayvec::ArrayString;
use vstd::prelude::*;
use vstd::utf8::is_ascii_chars;

use crate::common::{
    find_slash, is_valid_bridge, is_valid_mqtt_topic, is_valid_prefix, is_valid_shadow_name,
    is_valid_thing_name, lemma_name_chars_ascii, lemma_segments_cons, lemma_segments_len,
    lemma_segments_single, slash_free, spec_mqtt_ok, spec_opt_view, spec_segments,
    spec_valid_shadow_name, spec_valid_thing_name, str_eq, topic_buffer_chars, topic_buffer_new,
    topic_buffer_push, Error, ACCEPTED, AWS_THINGS_PREFIX, REJECTED, SHADOW_API_BRIDGE,
    SUFFIX_ACCEPTED, SUFFIX_REJECTED, TOPIC_BUFFER_LENGTH,
};

verus! {

/// A parsed shadow topic: whose device it addresses, which shadow
/// (`None` means the classic shadow), and what kind of message it is.
#[derive(Debug)]
pub struct ThingShadow<'a> {
    pub thing_name: &'a str,
    pub shadow_name: Option<&'a str>,
    pub shadow_op: Topic,
}

/// The kind of a shadow message: an operation (`get`, `delete`, `update`)
/// together with its outcome suffix, if any.
#[derive(Debug, PartialEq, Eq, Structural, Clone, Copy)]
pub enum Topic {
    Get,
    GetAccepted,
    GetRejected,
    Delete,
    DeleteAccepted,
    DeleteRejected,
    Update,
    UpdateAccepted,
    UpdateRejected,
    UpdateDocuments,
    UpdateDelta,
}

/// The operation token of a message type.
pub open spec fn spec_op(t: Topic) -> Seq<char> {
    match t {
        Topic::Get | Topic::GetAccepted | Topic::GetRejected => "get"@,
        Topic::Delete | Topic::DeleteAccepted | Topic::DeleteRejected => "delete"@,
        _ => "update"@,
    }
}

/// The outcome suffix of a message type, including its leading `/`;
/// empty for the bare operations.
pub open spec fn spec_suffix(t: Topic) -> Seq<char> {
    match t {
        Topic::GetAccepted | Topic::DeleteAccepted | Topic::UpdateAccepted => "/accepted"@,
        Topic::GetRejected | Topic::DeleteRejected | Topic::UpdateRejected => "/rejected"@,
        Topic::UpdateDocuments => "/documents"@,
        Topic::UpdateDelta => "/delta"@,
        _ => Seq::<char>::empty(),
    }
}

/// The canonical shadow topic string for the given parameters.
pub open spec fn spec_shadow_topic(th: Seq<char>, named: Option<Seq<char>>, t: Topic) -> Seq<
    char,
> {
    "$aws/things/"@ + th + (match named {
        None => "/shadow/"@,
        Some(sn) => "/shadow/name/"@ + sn + "/"@,
    }) + spec_op(t) + spec_suffix(t)
}

/// Which inputs assembly accepts, and the topic string it produces.
pub open spec fn spec_assemble_shadow(
    t: Topic,
    th: Seq<char>,
    named: Option<Seq<char>>,
) -> Result<Seq<char>, Error> {
    if !spec_valid_thing_name(th) {
        Err(Error::ThingnameParseFailed)
    } else if named matches Some(sn) && !spec_valid_shadow_name(sn) {
        Err(Error::ShadownameParseFailed)
    } else {
        Ok(spec_shadow_topic(th, named, t))
    }
}

/// The message type denoted by an operation token and an optional
/// outcome-suffix token.
pub open spec fn spec_find_message_type(op: Seq<char>, sfx: Option<Seq<char>>) -> Result<
    Topic,
    Error,
> {
    match sfx {
        None => if op == "get"@ {
            Ok(Topic::Get)
        } else if op == "delete"@ {
            Ok(Topic::Delete)
        } else if op == "update"@ {
            Ok(Topic::Update)
        } else {
            Err(Error::MessageTypeParseFailed)
        },
        Some(w) => if op == "get"@ && w == "accepted"@ {
            Ok(Topic::GetAccepted)
        } else if op == "get"@ && w == "rejected"@ {
            Ok(Topic::GetRejected)
        } else if op == "delete"@ && w == "accepted"@ {
            Ok(Topic::DeleteAccepted)
        } else if op == "delete"@ && w == "rejected"@ {
            Ok(Topic::DeleteRejected)
        } else if op == "update"@ && w == "accepted"@ {
            Ok(Topic::UpdateAccepted)
        } else if op == "update"@ && w == "rejected"@ {
            Ok(Topic::UpdateRejected)
        } else if op == "update"@ && w == "documents"@ {
            Ok(Topic::UpdateDocuments)
        } else if op == "update"@ && w == "delta"@ {
            Ok(Topic::UpdateDelta)
        } else {
            Err(Error::MessageTypeParseFailed)
        },
    }
}

/// What parsing the part after the `/shadow/` bridge yields, given the
/// already-extracted thing name.
pub open spec fn spec_match_shadow_body(th: Seq<char>, body: Seq<char>) -> Result<
    (Seq<char>, Option<Seq<char>>, Topic),
    Error,
> {
    let segs = spec_segments(body);
    if segs.len() == 1 {
        match spec_find_message_type(segs[0], None) {
            Ok(op) => Ok((th, None, op)),
            Err(e) => Err(e),
        }
    } else if segs.len() == 2 {
        match spec_find_message_type(segs[0], Some(segs[1])) {
            Ok(op) => Ok((th, None, op)),
            Err(e) => Err(e),
        }
    } else if segs.len() == 3 {
        if segs[0] != "name"@ {
            Err(Error::NoMatch)
        } else if !spec_valid_shadow_name(segs[1]) {
            Err(Error::ShadownameParseFailed)
        } else {
            match spec_find_message_type(segs[2], None) {
                Ok(op) => Ok((th, Some(segs[1]), op)),
                Err(e) => Err(e),
            }
        }
    } else if segs.len() == 4 {
        if segs[0] != "name"@ {
            Err(Error::NoMatch)
        } else if !spec_valid_shadow_name(segs[1]) {
            Err(Error::ShadownameParseFailed)
        } else {
            match spec_find_message_type(segs[2], Some(segs[3])) {
                Ok(op) => Ok((th, Some(segs[1]), op)),
                Err(e) => Err(e),
            }
        }
    } else {
        Err(Error::NoMatch)
    }
}

/// What parsing an arbitrary topic string yields: the thing name, the
/// optional shadow name, and the message type, or the most specific
/// failure.
pub open spec fn spec_match_shadow(t: Seq<char>) -> Result<
    (Seq<char>, Option<Seq<char>>, Topic),
    Error,
> {
    if !spec_mqtt_ok(t) {
        Err(Error::MqttTopicFailed)
    } else if !"$aws/things/"@.is_prefix_of(t) {
        Err(Error::NoMatch)
    } else {
        let s = t.skip("$aws/things/"@.len() as int);
        let segs = spec_segments(s);
        if segs.len() < 2 {
            Err(Error::NoMatch)
        } else if !spec_valid_thing_name(segs[0]) {
            Err(Error::ThingnameParseFailed)
        } else {
            let rest = s.skip(segs[0].len() as int);
            if !"/shadow/"@.is_prefix_of(rest) {
                Err(Error::RootParseFailed)
            } else {
                spec_match_shadow_body(segs[0], rest.skip("/shadow/"@.len() as int))
            }
        }
    }
}

fn op(topic_type: &Topic) -> (r: &'static str)
    ensures
        r@ == spec_op(*topic_type),
{
    match topic_type {
        Topic::Get | Topic::GetAccepted | Topic::GetRejected => "get",
        Topic::Delete | Topic::DeleteAccepted | Topic::DeleteRejected => "delete",
        _ => "update",
    }
}

fn suffix(topic_type: &Topic) -> (r: &'static str)
    ensures
        r@ == spec_suffix(*topic_type),
{
    proof {
        reveal_strlit("");
        assert(""@ =~= Seq::<char>::empty());
    }
    match topic_type {
        Topic::GetAccepted | Topic::DeleteAccepted | Topic::UpdateAccepted => SUFFIX_ACCEPTED,
        Topic::GetRejected | Topic::DeleteRejected | Topic::UpdateRejected => SUFFIX_REJECTED,
        Topic::UpdateDocuments => "/documents",
        Topic::UpdateDelta => "/delta",
        _ => "",
    }
}

/// ASCII-ness and lengths of the tokens this codec concatenates.
proof fn lemma_shadow_literals()
    ensures
        is_ascii_chars("$aws/things/"@) && "$aws/things/"@.len() == 12,
        is_ascii_chars("/shadow/"@) && "/shadow/"@.len() == 8,
        is_ascii_chars("/shadow/name/"@) && "/shadow/name/"@.len() == 13,
        is_ascii_chars("/"@) && "/"@.len() == 1,
        is_ascii_chars("get"@) && "get"@.len() == 3,
        is_ascii_chars("delete"@) && "delete"@.len() == 6,
        is_ascii_chars("update"@) && "update"@.len() == 6,
        is_ascii_chars("/accepted"@) && "/accepted"@.len() == 9,
        is_ascii_chars("/rejected"@) && "/rejected"@.len() == 9,
        is_ascii_chars("/documents"@) && "/documents"@.len() == 10,
        is_ascii_chars("/delta"@) && "/delta"@.len() == 6,
        is_ascii_chars(Seq::<char>::empty()),
{
    reveal_strlit("$aws/things/");
    reveal_strlit("/shadow/");
    reveal_strlit("/shadow/name/");
    reveal_strlit("/");
    reveal_strlit("get");
    reveal_strlit("delete");
    reveal_strlit("update");
    reveal_strlit("/accepted");
    reveal_strlit("/rejected");
    reveal_strlit("/documents");
    reveal_strlit("/delta");
}

/// ASCII-ness and length of the operation and suffix tokens of a message
/// type.
proof fn lemma_op_suffix_facts(t: Topic)
    ensures
        is_ascii_chars(spec_op(t)),
        spec_op(t).len() <= 6,
        is_ascii_chars(spec_suffix(t)),
        spec_suffix(t).len() <= 10,
{
    lemma_shadow_literals();
}

/// Assembles a shadow topic string for the given thing, message type and
/// (for a named shadow) shadow name.
pub fn assemble_topic<'a>(
    topic_type: Topic,
    thing_name: &'a str,
    named: Option<&'a str>,
) -> (r: Result<ArrayString<TOPIC_BUFFER_LENGTH>, Error>)
    ensures
        (match r {
            Ok(buf) => spec_assemble_shadow(topic_type, thing_name@, spec_opt_view(named))
                == Ok::<Seq<char>, Error>(topic_buffer_chars(buf)),
            Err(e) => spec_assemble_shadow(topic_type, thing_name@, spec_opt_view(named))
                == Err::<Seq<char>, Error>(e),
        }),
{
    broadcast use vstd::utf8::is_ascii_chars_concat;

    if let Err(e) = is_valid_thing_name(thing_name) {
        return Err(e);
    }
    proof {
        lemma_shadow_literals();
        lemma_op_suffix_facts(topic_type);
        lemma_name_chars_ascii(thing_name@);
    }
    let mut s = topic_buffer_new();
    topic_buffer_push(&mut s, "$aws/things/");
    topic_buffer_push(&mut s, thing_name);
    match named {
        // Classic shadow topic
        None => {
            let op_tok = op(&topic_type);
            let suffix_tok = suffix(&topic_type);
            topic_buffer_push(&mut s, "/shadow/");
            topic_buffer_push(&mut s, op_tok);
            topic_buffer_push(&mut s, suffix_tok);
            proof {
                assert(topic_buffer_chars(s) =~= spec_shadow_topic(thing_name@, None, topic_type));
            }
            Ok(s)
        },
        // Named shadow topic
        Some(shadow_name) => {
            if let Err(e) = is_valid_shadow_name(shadow_name) {
                return Err(e);
            }
            proof {
                lemma_name_chars_ascii(shadow_name@);
            }
            let op_tok = op(&topic_type);
            let suffix_tok = suffix(&topic_type);
            topic_buffer_push(&mut s, "/shadow/name/");
            topic_buffer_push(&mut s, shadow_name);
            topic_buffer_push(&mut s, "/");
            topic_buffer_push(&mut s, op_tok);
            topic_buffer_push(&mut s, suffix_tok);
            proof {
                assert(topic_buffer_chars(s) =~= spec_shadow_topic(
                    thing_name@,
                    Some(shadow_name@),
                    topic_type,
                ));
            }
            Ok(s)
        },
    }
}

fn find_message_type(op: &str, suffix: Option<&str>) -> (r: Result<Topic, Error>)
    ensures
        r == spec_find_message_type(op@, spec_opt_view(suffix)),
{
    match suffix {
        None => {
            if str_eq(op, "get") {
                Ok(Topic::Get)
            } else if str_eq(op, "delete") {
                Ok(Topic::Delete)
            } else if str_eq(op, "update") {
                Ok(Topic::Update)
            } else {
                Err(Error::MessageTypeParseFailed)
            }
        },
        Some(w) => {
            let is_get = str_eq(op, "get");
            let is_delete = str_eq(op, "delete");
            let is_update = str_eq(op, "update");
            let is_acc = str_eq(w, ACCEPTED);
            let is_rej = str_eq(w, REJECTED);
            if is_get && is_acc {
                Ok(Topic::GetAccepted)
            } else if is_get && is_rej {
                Ok(Topic::GetRejected)
            } else if is_delete && is_acc {
                Ok(Topic::DeleteAccepted)
            } else if is_delete && is_rej {
                Ok(Topic::DeleteRejected)
            } else if is_update && is_acc {
                Ok(Topic::UpdateAccepted)
            } else if is_update && is_rej {
                Ok(Topic::UpdateRejected)
            } else if is_update && str_eq(w, "documents") {
                Ok(Topic::UpdateDocuments)
            } else if is_update && str_eq(w, "delta") {
                Ok(Topic::UpdateDelta)
            } else {
                Err(Error::MessageTypeParseFailed)
            }
        },
    }
}

fn match_named<'a>(
    thing_name: &'a str,
    seg0: &'a str,
    seg1: &'a str,
    op: &'a str,
    sfx: Option<&'a str>,
    body: Ghost<Seq<char>>,
) -> (r: Result<ThingShadow<'a>, Error>)
    requires
        (match sfx {
            None => spec_segments(body@) == seq![seg0@, seg1@, op@],
            Some(w) => spec_segments(body@) == seq![seg0@, seg1@, op@, w@],
        }),
    ensures
        (match r {
            Ok(ts) => ts.thing_name == thing_name && spec_match_shadow_body(thing_name@, body@)
                == Ok::<(Seq<char>, Option<Seq<char>>, Topic), Error>(
                (ts.thing_name@, spec_opt_view(ts.shadow_name), ts.shadow_op),
            ),
            Err(e) => spec_match_shadow_body(thing_name@, body@) == Err::<
                (Seq<char>, Option<Seq<char>>, Topic),
                Error,
            >(e),
        }),
{
    if !str_eq(seg0, "name") {
        return Err(Error::NoMatch);
    }
    if let Err(e) = is_valid_shadow_name(seg1) {
        return Err(e);
    }
    match find_message_type(op, sfx) {
        Ok(t) => Ok(ThingShadow { thing_name, shadow_name: Some(seg1), shadow_op: t }),
        Err(e) => Err(e),
    }
}

#[verifier::rlimit(100)]
fn match_body<'a>(thing_name: &'a str, body: &'a str) -> (r: Result<ThingShadow<'a>, Error>)
    ensures
        (match r {
            Ok(ts) => ts.thing_name == thing_name && spec_match_shadow_body(thing_name@, body@)
                == Ok::<(Seq<char>, Option<Seq<char>>, Topic), Error>(
                (ts.thing_name@, spec_opt_view(ts.shadow_name), ts.shadow_op),
            ),
            Err(e) => spec_match_shadow_body(thing_name@, body@) == Err::<
                (Seq<char>, Option<Seq<char>>, Topic),
                Error,
            >(e),
        }),
{
    let bn = body.unicode_len();
    match find_slash(body) {
        // Classic shadow topic without suffix: a single segment
        None => {
            proof {
                lemma_segments_single(body@);
            }
            match find_message_type(body, None) {
                Ok(t) => Ok(ThingShadow { thing_name, shadow_name: None, shadow_op: t }),
                Err(e) => Err(e),
            }
        },
        Some(i1) => {
            let seg0 = body.substring_char(0, i1);
            let rest1 = body.substring_char(i1 + 1, bn);
            proof {
                assert(body@ =~= body@.take(i1 as int) + seq!['/'] + body@.skip(i1 as int + 1));
                lemma_segments_cons(seg0@, rest1@);
                lemma_segments_len(rest1@);
            }
            let n1 = rest1.unicode_len();
            match find_slash(rest1) {
                // Classic shadow topic with suffix: two segments
                None => {
                    proof {
                        lemma_segments_single(rest1@);
                    }
                    match find_message_type(seg0, Some(rest1)) {
                        Ok(t) => Ok(ThingShadow { thing_name, shadow_name: None, shadow_op: t }),
                        Err(e) => Err(e),
                    }
                },
                Some(i2) => {
                    let seg1 = rest1.substring_char(0, i2);
                    let rest2 = rest1.substring_char(i2 + 1, n1);
                    proof {
                        assert(rest1@ =~= rest1@.take(i2 as int) + seq!['/'] + rest1@.skip(
                            i2 as int + 1,
                        ));
                        lemma_segments_cons(seg1@, rest2@);
                        lemma_segments_len(rest2@);
                    }
                    let n2 = rest2.unicode_len();
                    match find_slash(rest2) {
                        // Named shadow topic without suffix: three segments
                        None => {
                            proof {
                                lemma_segments_single(rest2@);
                                assert(spec_segments(body@) =~~= seq![seg0@, seg1@, rest2@]);
                            }
                            match_named(thing_name, seg0, seg1, rest2, None, Ghost(body@))
                        },
                        Some(i3) => {
                            let seg2 = rest2.substring_char(0, i3);
                            let rest3 = rest2.substring_char(i3 + 1, n2);
                            proof {
                                assert(rest2@ =~= rest2@.take(i3 as int) + seq!['/']
                                    + rest2@.skip(i3 as int + 1));
                                lemma_segments_cons(seg2@, rest3@);
                                lemma_segments_len(rest3@);
                            }
                            match find_slash(rest3) {
                                // Named shadow topic with suffix: four segments
                                None => {
                                    proof {
                                        lemma_segments_single(rest3@);
                                        assert(spec_segments(body@) =~~= seq![
                                            seg0@,
                                            seg1@,
                                            seg2@,
                                            rest3@,
                                        ]);
                                    }
                                    match_named(thing_name, seg0, seg1, seg2, Some(rest3), Ghost(body@))
                                },
                                // Five segments or more: not a shadow topic
                                Some(i4) => {
                                    proof {
                                        assert(rest3@ =~= rest3@.take(i4 as int) + seq!['/']
                                            + rest3@.skip(i4 as int + 1));
                                        lemma_segments_cons(
                                            rest3@.take(i4 as int),
                                            rest3@.skip(i4 as int + 1),
                                        );
                                        lemma_segments_len(rest3@.skip(i4 as int + 1));
                                    }
                                    Err(Error::NoMatch)
                                },
                            }
                        },
                    }
                },
            }
        },
    }
}

/// Parses an incoming topic string as a shadow topic, yielding the thing
/// name, the optional shadow name, and the message type.
pub fn match_topic<'a>(topic: &'a str) -> (r: Result<ThingShadow<'a>, Error>)
    ensures
        (match r {
            Ok(ts) => spec_match_shadow(topic@) == Ok::<(Seq<char>, Option<Seq<char>>, Topic), Error>(
                (ts.thing_name@, spec_opt_view(ts.shadow_name), ts.shadow_op),
            ),
            Err(e) => spec_match_shadow(topic@) == Err::<
                (Seq<char>, Option<Seq<char>>, Topic),
                Error,
            >(e),
        }),
{
    if let Err(e) = is_valid_mqtt_topic(topic) {
        return Err(e);
    }
    let s = match is_valid_prefix(topic, AWS_THINGS_PREFIX) {
        Ok(s) => s,
        Err(e) => { return Err(e) },
    };
    let n = s.unicode_len();
    let mid = match find_slash(s) {
        Some(i) => i,
        None => {
            proof {
                lemma_segments_single(s@);
            }
            return Err(Error::NoMatch);
        },
    };
    let thing_name = s.substring_char(0, mid);
    let after = s.substring_char(mid, n);
    proof {
        assert(s@ =~= s@.take(mid as int) + seq!['/'] + s@.skip(mid as int + 1));
        lemma_segments_cons(s@.take(mid as int), s@.skip(mid as int + 1));
        lemma_segments_len(s@.skip(mid as int + 1));
        assert(thing_name@ == spec_segments(s@)[0]);
        assert(after@ =~= s@.skip(mid as int));
    }
    if let Err(e) = is_valid_thing_name(thing_name) {
        return Err(e);
    }
    let body = match is_valid_bridge(after, SHADOW_API_BRIDGE) {
        Ok(b) => b,
        Err(e) => { return Err(e) },
    };
    match_body(thing_name, body)
}


/// The outcome-suffix token of a message type, without the leading `/`;
/// `None` for the bare operations.
pub open spec fn spec_suffix_word(t: Topic) -> Option<Seq<char>> {
    match t {
        Topic::GetAccepted | Topic::DeleteAccepted | Topic::UpdateAccepted => Some("accepted"@),
        Topic::GetRejected | Topic::DeleteRejected | Topic::UpdateRejected => Some("rejected"@),
        Topic::UpdateDocuments => Some("documents"@),
        Topic::UpdateDelta => Some("delta"@),
        _ => None,
    }
}

/// The `(operation, suffix)` pair of every message type maps back to that
/// message type and to no other: the token table is a bijection.
pub proof fn lemma_message_type_bijection(t: Topic)
    ensures
        spec_find_message_type(spec_op(t), spec_suffix_word(t)) == Ok::<Topic, Error>(t),
{
    reveal_strlit("get");
    reveal_strlit("delete");
    reveal_strlit("update");
    reveal_strlit("accepted");
    reveal_strlit("rejected");
    reveal_strlit("documents");
    reveal_strlit("delta");
    assert("get"@.len() == 3 && "delete"@.len() == 6 && "update"@.len() == 6);
    assert("update"@[0] == 'u' && "delete"@[0] == 'd');
    assert("accepted"@.len() == 8 && "rejected"@.len() == 8);
    assert("documents"@.len() == 9 && "delta"@.len() == 5);
    assert("accepted"@[0] == 'a' && "rejected"@[0] == 'r');
}

/// Shape of the token pair: the suffix is either empty or `/` followed by
/// a non-empty, slash-free word, and the operation token is non-empty and
/// slash-free.
proof fn lemma_token_shapes(t: Topic)
    ensures
        spec_op(t).len() > 0,
        slash_free(spec_op(t)),
        (match spec_suffix_word(t) {
            None => spec_suffix(t) == Seq::<char>::empty(),
            Some(w) => spec_suffix(t) == seq!['/'] + w && w.len() > 0 && slash_free(w),
        }),
{
    reveal_strlit("get");
    reveal_strlit("delete");
    reveal_strlit("update");
    reveal_strlit("accepted");
    reveal_strlit("rejected");
    reveal_strlit("documents");
    reveal_strlit("delta");
    reveal_strlit("/accepted");
    reveal_strlit("/rejected");
    reveal_strlit("/documents");
    reveal_strlit("/delta");
    match spec_suffix_word(t) {
        None => {
            assert(spec_suffix(t) =~= Seq::<char>::empty());
        },
        Some(w) => {
            assert(spec_suffix(t) =~= seq!['/'] + w);
        },
    }
}

/// The `op` and suffix part of an assembled topic splits into the
/// expected one or two segments.
proof fn lemma_op_suffix_segments(t: Topic)
    ensures
        (match spec_suffix_word(t) {
            None => spec_segments(spec_op(t) + spec_suffix(t)) == seq![spec_op(t)],
            Some(w) => spec_segments(spec_op(t) + spec_suffix(t)) == seq![spec_op(t), w],
        }),
{
    lemma_token_shapes(t);
    match spec_suffix_word(t) {
        None => {
            assert(spec_op(t) + spec_suffix(t) =~= spec_op(t));
            lemma_segments_single(spec_op(t));
        },
        Some(w) => {
            assert(spec_op(t) + spec_suffix(t) =~= spec_op(t) + seq!['/'] + w);
            lemma_segments_cons(spec_op(t), w);
            lemma_segments_single(w);
            assert(seq![spec_op(t)] + seq![w] =~= seq![spec_op(t), w]);
        },
    }
}

/// Round trip: parsing an assembled shadow topic gives back exactly the
/// thing name, shadow name and message type that went in, for every
/// valid identifier set and every message type.
#[verifier::rlimit(100)]
pub proof fn lemma_shadow_round_trip(t: Topic, th: Seq<char>, named: Option<Seq<char>>)
    requires
        spec_valid_thing_name(th),
        (named matches Some(sn) ==> spec_valid_shadow_name(sn)),
    ensures
        spec_assemble_shadow(t, th, named) == Ok::<Seq<char>, Error>(spec_shadow_topic(th, named, t)),
        spec_match_shadow(spec_shadow_topic(th, named, t)) == Ok::<
            (Seq<char>, Option<Seq<char>>, Topic),
            Error,
        >((th, named, t)),
{
    broadcast use vstd::utf8::is_ascii_chars_concat;
    broadcast use vstd::utf8::is_ascii_chars_encode_utf8;

    lemma_shadow_literals();
    lemma_op_suffix_facts(t);
    lemma_token_shapes(t);
    lemma_name_chars_ascii(th);
    reveal_strlit("$aws/things/");
    reveal_strlit("/shadow/");
    reveal_strlit("/shadow/name/");
    reveal_strlit("/");
    reveal_strlit("name");
    let topic = spec_shadow_topic(th, named, t);
    let bridge: Seq<char> = match named {
        None => "/shadow/"@,
        Some(sn) => "/shadow/name/"@ + sn + "/"@,
    };
    let opsfx = spec_op(t) + spec_suffix(t);
    if let Some(sn) = named {
        lemma_name_chars_ascii(sn);
    }
    // The whole topic is ASCII, so its byte length is its character
    // length, which is within the MQTT limit.
    assert(is_ascii_chars(bridge));
    assert(is_ascii_chars(topic));
    assert(topic.len() >= 12);
    assert(topic.len() <= 12 + th.len() + bridge.len() + opsfx.len());
    assert(spec_mqtt_ok(topic));
    // Stripping the namespace prefix leaves the thing name, the bridge
    // and the tokens.
    let s = th + bridge + opsfx;
    assert("$aws/things/"@.is_prefix_of(topic)) by {
        assert(topic.subrange(0, 12) =~= "$aws/things/"@);
    }
    assert(topic.skip("$aws/things/"@.len() as int) =~= s);
    // The thing name is the first segment of the remainder.
    assert(bridge[0] == '/');
    let tail = bridge.skip(1) + opsfx;
    assert(s =~= th + seq!['/'] + tail);
    lemma_segments_cons(th, tail);
    lemma_segments_len(tail);
    let segs = spec_segments(s);
    assert(segs[0] == th);
    assert(segs.len() >= 2);
    // The bridge follows the thing name.
    let rest = s.skip(th.len() as int);
    assert(rest =~= bridge + opsfx);
    assert("/shadow/"@.is_prefix_of(rest)) by {
        match named {
            None => {
                assert(rest.subrange(0, 8) =~= "/shadow/"@);
            },
            Some(sn) => {
                reveal_strlit("/shadow/");
                reveal_strlit("/shadow/name/");
                assert(rest.subrange(0, 8) =~= "/shadow/"@);
            },
        }
    }
    let body = rest.skip("/shadow/"@.len() as int);
    lemma_op_suffix_segments(t);
    match named {
        None => {
            assert(body =~= opsfx);
            lemma_message_type_bijection(t);
            assert(spec_match_shadow_body(th, body) == Ok::<
                (Seq<char>, Option<Seq<char>>, Topic),
                Error,
            >((th, None, t)));
        },
        Some(sn) => {
            reveal_strlit("/shadow/");
            reveal_strlit("/shadow/name/");
            reveal_strlit("name");
            assert(body =~= "name"@ + seq!['/'] + (sn + seq!['/'] + opsfx));
            lemma_segments_cons("name"@, sn + seq!['/'] + opsfx);
            lemma_segments_cons(sn, opsfx);
            let bsegs = spec_segments(body);
            match spec_suffix_word(t) {
                None => {
                    assert(bsegs =~~= seq!["name"@, sn, spec_op(t)]);
                },
                Some(w) => {
                    assert(bsegs =~~= seq!["name"@, sn, spec_op(t), w]);
                },
            }
            lemma_message_type_bijection(t);
            assert(spec_match_shadow_body(th, body) == Ok::<
                (Seq<char>, Option<Seq<char>>, Topic),
                Error,
            >((th, Some(sn), t)));
        },
    }
}


/// A malformed shadow name in a named-shadow topic is rejected with
/// `ShadownameParseFailed`, never a generic error, whatever the operation
/// and suffix tokens say.
#[verifier::rlimit(100)]
pub proof fn lemma_parse_rejects_bad_shadow_name(t: Topic, th: Seq<char>, sn: Seq<char>)
    requires
        spec_valid_thing_name(th),
        slash_free(sn),
        !spec_valid_shadow_name(sn),
        spec_mqtt_ok(spec_shadow_topic(th, Some(sn), t)),
    ensures
        spec_match_shadow(spec_shadow_topic(th, Some(sn), t)) == Err::<
            (Seq<char>, Option<Seq<char>>, Topic),
            Error,
        >(Error::ShadownameParseFailed),
{
    lemma_shadow_literals();
    lemma_token_shapes(t);
    lemma_name_chars_ascii(th);
    reveal_strlit("$aws/things/");
    reveal_strlit("/shadow/");
    reveal_strlit("/shadow/name/");
    reveal_strlit("/");
    reveal_strlit("name");
    let topic = spec_shadow_topic(th, Some(sn), t);
    let bridge = "/shadow/name/"@ + sn + "/"@;
    let opsfx = spec_op(t) + spec_suffix(t);
    assert("$aws/things/"@.is_prefix_of(topic)) by {
        assert(topic.subrange(0, 12) =~= "$aws/things/"@);
    }
    let s = th + bridge + opsfx;
    assert(topic.skip("$aws/things/"@.len() as int) =~= s);
    assert(bridge[0] == '/');
    assert(s =~= th + seq!['/'] + (bridge.skip(1) + opsfx));
    lemma_segments_cons(th, bridge.skip(1) + opsfx);
    lemma_segments_len(bridge.skip(1) + opsfx);
    let segs = spec_segments(s);
    assert(segs[0] == th);
    assert(segs.len() >= 2);
    let rest = s.skip(th.len() as int);
    assert(rest =~= bridge + opsfx);
    assert("/shadow/"@.is_prefix_of(rest)) by {
        assert(rest.subrange(0, 8) =~= "/shadow/"@);
    }
    let body = rest.skip("/shadow/"@.len() as int);
    assert(body =~= "name"@ + seq!['/'] + (sn + seq!['/'] + opsfx));
    lemma_segments_cons("name"@, sn + seq!['/'] + opsfx);
    lemma_segments_cons(sn, opsfx);
    lemma_op_suffix_segments(t);
    let bsegs = spec_segments(body);
    match spec_suffix_word(t) {
        None => {
            assert(bsegs =~~= seq!["name"@, sn, spec_op(t)]);
        },
        Some(w) => {
            assert(bsegs =~~= seq!["name"@, sn, spec_op(t), w]);
        },
    }
    assert(spec_match_shadow_body(th, body) == Err::<
        (Seq<char>, Option<Seq<char>>, Topic),
        Error,
    >(Error::ShadownameParseFailed));
}

} // verus!
