//! Jobs topic codec.
//!
//! Jobs topics come in three shapes after the `/jobs/` bridge: a bare
//! notification (`notify`, `notify-next`), an operation with an outcome
//! suffix (`get`, `start-next`), and a per-job operation
//! (`<job-id>/get|update/<suffix>`).  Subscription topics for the per-job
//! operations carry the `+` wildcard in place of a concrete job id, and
//! the reserved literal `$next` addresses the next pending job.

use arrayvec::ArrayString;
use vstd::prelude::*;
use vstd::utf8::is_ascii_chars;

use crate::common::{
    find_slash, is_valid_bridge, is_valid_job_id, is_valid_mqtt_topic, is_valid_prefix,
    is_valid_thing_name, lemma_job_id_chars_are_name_chars, lemma_name_chars_ascii,
    lemma_segments_cons, lemma_segments_len, lemma_segments_single, slash_free, spec_mqtt_ok,
    spec_opt_view, spec_segments, spec_valid_job_id, spec_valid_thing_name, str_eq,
    topic_buffer_chars, topic_buffer_new, topic_buffer_push, Error, ACCEPTED,
    AWS_THINGS_PREFIX, JOBS_API_BRIDGE, REJECTED, SUFFIX_ACCEPTED, SUFFIX_REJECTED,
    TOPIC_BUFFER_LENGTH,
};

verus! {

/// A parsed jobs topic: whose device it addresses, which API it is for,
/// and the job id inside the topic, if the shape carries one.
#[derive(Debug)]
pub struct ThingJobs<'a> {
    pub thing_name: &'a str,
    pub api: Topic,
    pub id: Option<&'a str>,
}

/// The kind of a jobs message.  The last four use a job-id segment.
#[derive(Debug, PartialEq, PartialOrd, Clone, Copy)]
pub enum Topic {
    JobsChanged,
    NextJobChanged,
    GetPendingSuccess,
    GetPendingFailed,
    StartNextSuccess,
    StartNextFailed,
    DescribeSuccess,
    DescribeFailed,
    UpdateSuccess,
    UpdateFailed,
}

/// The job-id segment a subscription topic for this message type carries:
/// the `+` wildcard, or nothing.
pub open spec fn spec_id(t: Topic) -> Seq<char> {
    match t {
        Topic::DescribeSuccess | Topic::DescribeFailed | Topic::UpdateSuccess
            | Topic::UpdateFailed => "+/"@,
        _ => Seq::<char>::empty(),
    }
}

/// The operation token of a message type.
pub open spec fn spec_op(t: Topic) -> Seq<char> {
    match t {
        Topic::JobsChanged => "notify"@,
        Topic::NextJobChanged => "notify-next"@,
        Topic::GetPendingSuccess | Topic::GetPendingFailed => "get"@,
        Topic::StartNextSuccess | Topic::StartNextFailed => "start-next"@,
        Topic::DescribeSuccess | Topic::DescribeFailed => "get"@,
        Topic::UpdateSuccess | Topic::UpdateFailed => "update"@,
    }
}

/// The outcome suffix of a message type, with its leading `/`; empty for
/// the notification types.
pub open spec fn spec_suffix(t: Topic) -> Seq<char> {
    match t {
        Topic::GetPendingSuccess | Topic::StartNextSuccess | Topic::DescribeSuccess
            | Topic::UpdateSuccess => "/accepted"@,
        Topic::GetPendingFailed | Topic::StartNextFailed | Topic::DescribeFailed
            | Topic::UpdateFailed => "/rejected"@,
        _ => Seq::<char>::empty(),
    }
}

/// The canonical subscription topic string for the given thing and
/// message type.
pub open spec fn spec_jobs_topic(th: Seq<char>, t: Topic) -> Seq<char> {
    "$aws/things/"@ + th + "/jobs/"@ + spec_id(t) + spec_op(t) + spec_suffix(t)
}

/// Which inputs subscription-topic assembly accepts, and what it
/// produces.
pub open spec fn spec_get_topic(th: Seq<char>, t: Topic) -> Result<Seq<char>, Error> {
    if !spec_valid_thing_name(th) {
        Err(Error::ThingnameParseFailed)
    } else {
        Ok(spec_jobs_topic(th, t))
    }
}

/// A job-id segment of an incoming topic is acceptable when it is the
/// `+` wildcard, the reserved literal `$next`, or a valid job id.
pub open spec fn spec_job_id_token_ok(id: Seq<char>) -> bool {
    id == "+"@ || id == "$next"@ || spec_valid_job_id(id)
}

/// The message type denoted by an `operation/suffix` pair without a
/// job id.
pub open spec fn spec_find_pair(op: Seq<char>, w: Seq<char>) -> Result<Topic, Error> {
    if op == "get"@ && w == "accepted"@ {
        Ok(Topic::GetPendingSuccess)
    } else if op == "get"@ && w == "rejected"@ {
        Ok(Topic::GetPendingFailed)
    } else if op == "start-next"@ && w == "accepted"@ {
        Ok(Topic::StartNextSuccess)
    } else if op == "start-next"@ && w == "rejected"@ {
        Ok(Topic::StartNextFailed)
    } else {
        Err(Error::MessageTypeParseFailed)
    }
}

/// The message type denoted by an `operation/suffix` pair that follows a
/// job-id segment.
pub open spec fn spec_find_id_pair(op: Seq<char>, w: Seq<char>) -> Result<Topic, Error> {
    if op == "get"@ && w == "accepted"@ {
        Ok(Topic::DescribeSuccess)
    } else if op == "get"@ && w == "rejected"@ {
        Ok(Topic::DescribeFailed)
    } else if op == "update"@ && w == "accepted"@ {
        Ok(Topic::UpdateSuccess)
    } else if op == "update"@ && w == "rejected"@ {
        Ok(Topic::UpdateFailed)
    } else {
        Err(Error::MessageTypeParseFailed)
    }
}

/// What parsing the part after the `/jobs/` bridge yields, given the
/// already-extracted thing name.
pub open spec fn spec_match_jobs_body(th: Seq<char>, body: Seq<char>) -> Result<
    (Seq<char>, Option<Seq<char>>, Topic),
    Error,
> {
    let segs = spec_segments(body);
    if segs.len() == 1 {
        if segs[0] == "notify"@ {
            Ok((th, None, Topic::JobsChanged))
        } else if segs[0] == "notify-next"@ {
            Ok((th, None, Topic::NextJobChanged))
        } else {
            Err(Error::MessageTypeParseFailed)
        }
    } else if segs.len() == 2 {
        match spec_find_pair(segs[0], segs[1]) {
            Ok(api) => Ok((th, None, api)),
            Err(e) => Err(e),
        }
    } else if segs.len() == 3 {
        match spec_find_id_pair(segs[1], segs[2]) {
            Ok(api) => if spec_job_id_token_ok(segs[0]) {
                Ok((th, Some(segs[0]), api))
            } else {
                Err(Error::JobsIdParseFailed)
            },
            Err(e) => Err(e),
        }
    } else {
        Err(Error::NoMatch)
    }
}

/// What parsing an arbitrary topic string yields: the thing name, the
/// optional job id, and the message type, or the most specific failure.
pub open spec fn spec_match_jobs(t: Seq<char>) -> Result<
    (Seq<char>, Option<Seq<char>>, Topic),
    Error,
> {
    if !spec_mqtt_ok(t) {
        Err(Error::MqttTopicFailed)
    } else if !"$aws/things/"@.is_prefix_of(t) {
        Err(Error::NoMatch)
    } else {
        let s = t.skip("$aws/things/"@.len() as int);
        let segs = spec_segments(s);
        if segs.len() < 2 {
            Err(Error::FAIL)
        } else if !spec_valid_thing_name(segs[0]) {
            Err(Error::ThingnameParseFailed)
        } else {
            let rest = s.skip(segs[0].len() as int);
            if !"/jobs/"@.is_prefix_of(rest) {
                Err(Error::RootParseFailed)
            } else {
                spec_match_jobs_body(segs[0], rest.skip("/jobs/"@.len() as int))
            }
        }
    }
}

fn id(api: &Topic) -> (r: &'static str)
    ensures
        r@ == spec_id(*api),
{
    proof {
        reveal_strlit("");
        assert(""@ =~= Seq::<char>::empty());
    }
    match api {
        Topic::DescribeSuccess | Topic::DescribeFailed | Topic::UpdateSuccess
            | Topic::UpdateFailed => "+/",
        _ => "",
    }
}

fn op(api: &Topic) -> (r: &'static str)
    ensures
        r@ == spec_op(*api),
{
    match api {
        Topic::JobsChanged => "notify",
        Topic::NextJobChanged => "notify-next",
        Topic::GetPendingSuccess | Topic::GetPendingFailed => "get",
        Topic::StartNextSuccess | Topic::StartNextFailed => "start-next",
        Topic::DescribeSuccess | Topic::DescribeFailed => "get",
        Topic::UpdateSuccess | Topic::UpdateFailed => "update",
    }
}

fn suffix(topic_type: &Topic) -> (r: &'static str)
    ensures
        r@ == spec_suffix(*topic_type),
{
    proof {
        reveal_strlit("");
        assert(""@ =~= Seq::<char>::empty());
    }
    match topic_type {
        Topic::GetPendingSuccess | Topic::StartNextSuccess | Topic::DescribeSuccess
            | Topic::UpdateSuccess => SUFFIX_ACCEPTED,
        Topic::GetPendingFailed | Topic::StartNextFailed | Topic::DescribeFailed
            | Topic::UpdateFailed => SUFFIX_REJECTED,
        _ => "",
    }
}

/// ASCII-ness and lengths of the tokens this codec concatenates.
proof fn lemma_jobs_literals()
    ensures
        is_ascii_chars("$aws/things/"@) && "$aws/things/"@.len() == 12,
        is_ascii_chars("/jobs/"@) && "/jobs/"@.len() == 6,
        is_ascii_chars("/"@) && "/"@.len() == 1,
        is_ascii_chars("+/"@) && "+/"@.len() == 2,
        is_ascii_chars("notify"@) && "notify"@.len() == 6,
        is_ascii_chars("notify-next"@) && "notify-next"@.len() == 11,
        is_ascii_chars("get"@) && "get"@.len() == 3,
        is_ascii_chars("start-next"@) && "start-next"@.len() == 10,
        is_ascii_chars("update"@) && "update"@.len() == 6,
        is_ascii_chars("$next"@) && "$next"@.len() == 5,
        is_ascii_chars("/accepted"@) && "/accepted"@.len() == 9,
        is_ascii_chars("/rejected"@) && "/rejected"@.len() == 9,
        is_ascii_chars(Seq::<char>::empty()),
{
    reveal_strlit("$aws/things/");
    reveal_strlit("/jobs/");
    reveal_strlit("/");
    reveal_strlit("+/");
    reveal_strlit("notify");
    reveal_strlit("notify-next");
    reveal_strlit("get");
    reveal_strlit("start-next");
    reveal_strlit("update");
    reveal_strlit("$next");
    reveal_strlit("/accepted");
    reveal_strlit("/rejected");
}

/// ASCII-ness and length of the token parts of a message type.
proof fn lemma_jobs_token_facts(t: Topic)
    ensures
        is_ascii_chars(spec_id(t)),
        spec_id(t).len() <= 2,
        is_ascii_chars(spec_op(t)),
        spec_op(t).len() <= 11,
        is_ascii_chars(spec_suffix(t)),
        spec_suffix(t).len() <= 9,
{
    lemma_jobs_literals();
}

/// Assembles the subscription topic string for the given thing and
/// message type; per-job message types get the `+` wildcard in place of
/// a job id.
pub fn get_topic<'a>(thing_name: &'a str, api: Topic) -> (r: Result<
    ArrayString<TOPIC_BUFFER_LENGTH>,
    Error,
>)
    ensures
        (match r {
            Ok(buf) => spec_get_topic(thing_name@, api) == Ok::<Seq<char>, Error>(
                topic_buffer_chars(buf),
            ),
            Err(e) => spec_get_topic(thing_name@, api) == Err::<Seq<char>, Error>(e),
        }),
{
    broadcast use vstd::utf8::is_ascii_chars_concat;

    if let Err(e) = is_valid_thing_name(thing_name) {
        return Err(e);
    }
    proof {
        lemma_jobs_literals();
        lemma_jobs_token_facts(api);
        lemma_name_chars_ascii(thing_name@);
    }
    let id_tok = id(&api);
    let op_tok = op(&api);
    let suffix_tok = suffix(&api);
    let mut s = topic_buffer_new();
    topic_buffer_push(&mut s, "$aws/things/");
    topic_buffer_push(&mut s, thing_name);
    topic_buffer_push(&mut s, "/jobs/");
    topic_buffer_push(&mut s, id_tok);
    topic_buffer_push(&mut s, op_tok);
    topic_buffer_push(&mut s, suffix_tok);
    proof {
        assert(topic_buffer_chars(s) =~= spec_jobs_topic(thing_name@, api));
    }
    Ok(s)
}

fn find_pair(op: &str, w: &str) -> (r: Result<Topic, Error>)
    ensures
        r == spec_find_pair(op@, w@),
{
    let is_acc = str_eq(w, ACCEPTED);
    let is_rej = str_eq(w, REJECTED);
    let is_get = str_eq(op, "get");
    let is_start = str_eq(op, "start-next");
    if is_get && is_acc {
        Ok(Topic::GetPendingSuccess)
    } else if is_get && is_rej {
        Ok(Topic::GetPendingFailed)
    } else if is_start && is_acc {
        Ok(Topic::StartNextSuccess)
    } else if is_start && is_rej {
        Ok(Topic::StartNextFailed)
    } else {
        Err(Error::MessageTypeParseFailed)
    }
}

fn find_id_pair(op: &str, w: &str) -> (r: Result<Topic, Error>)
    ensures
        r == spec_find_id_pair(op@, w@),
{
    let is_acc = str_eq(w, ACCEPTED);
    let is_rej = str_eq(w, REJECTED);
    let is_get = str_eq(op, "get");
    let is_update = str_eq(op, "update");
    if is_get && is_acc {
        Ok(Topic::DescribeSuccess)
    } else if is_get && is_rej {
        Ok(Topic::DescribeFailed)
    } else if is_update && is_acc {
        Ok(Topic::UpdateSuccess)
    } else if is_update && is_rej {
        Ok(Topic::UpdateFailed)
    } else {
        Err(Error::MessageTypeParseFailed)
    }
}

#[verifier::rlimit(100)]
fn match_body<'a>(thing_name: &'a str, body: &'a str) -> (r: Result<ThingJobs<'a>, Error>)
    ensures
        (match r {
            Ok(tj) => tj.thing_name == thing_name && spec_match_jobs_body(thing_name@, body@)
                == Ok::<(Seq<char>, Option<Seq<char>>, Topic), Error>(
                (tj.thing_name@, spec_opt_view(tj.id), tj.api),
            ),
            Err(e) => spec_match_jobs_body(thing_name@, body@) == Err::<
                (Seq<char>, Option<Seq<char>>, Topic),
                Error,
            >(e),
        }),
{
    let bn = body.unicode_len();
    match find_slash(body) {
        // A bare notification: a single segment
        None => {
            proof {
                lemma_segments_single(body@);
            }
            if str_eq(body, "notify") {
                Ok(ThingJobs { thing_name, api: Topic::JobsChanged, id: None })
            } else if str_eq(body, "notify-next") {
                Ok(ThingJobs { thing_name, api: Topic::NextJobChanged, id: None })
            } else {
                Err(Error::MessageTypeParseFailed)
            }
        },
        Some(i1) => {
            let seg0 = body.substring_char(0, i1);
            let rest1 = body.substring_char(i1 + 1, bn);
            proof {
                assert(body@ =~= body@.take(i1 as int) + seq!['/'] + body@.skip(i1 as int + 1));
                lemma_segments_cons(seg0@, rest1@);
                lemma_segments_len(rest1@);
            }
            let n1 = rest1.unicode_len();
            match find_slash(rest1) {
                // An operation with its outcome suffix: two segments
                None => {
                    proof {
                        lemma_segments_single(rest1@);
                    }
                    match find_pair(seg0, rest1) {
                        Ok(api) => Ok(ThingJobs { thing_name, api, id: None }),
                        Err(e) => Err(e),
                    }
                },
                Some(i2) => {
                    let seg1 = rest1.substring_char(0, i2);
                    let rest2 = rest1.substring_char(i2 + 1, n1);
                    proof {
                        assert(rest1@ =~= rest1@.take(i2 as int) + seq!['/'] + rest1@.skip(
                            i2 as int + 1,
                        ));
                        lemma_segments_cons(seg1@, rest2@);
                        lemma_segments_len(rest2@);
                    }
                    match find_slash(rest2) {
                        // A per-job operation: job id, operation, suffix
                        None => {
                            proof {
                                lemma_segments_single(rest2@);
                            }
                            let api = match find_id_pair(seg1, rest2) {
                                Ok(api) => api,
                                Err(e) => { return Err(e) },
                            };
                            if !str_eq(seg0, "+") && !str_eq(seg0, "$next") {
                                if let Err(e) = is_valid_job_id(seg0) {
                                    return Err(e);
                                }
                            }
                            Ok(ThingJobs { thing_name, api, id: Some(seg0) })
                        },
                        // Four segments or more: not a jobs topic
                        Some(i3) => {
                            proof {
                                assert(rest2@ =~= rest2@.take(i3 as int) + seq!['/']
                                    + rest2@.skip(i3 as int + 1));
                                lemma_segments_cons(
                                    rest2@.take(i3 as int),
                                    rest2@.skip(i3 as int + 1),
                                );
                                lemma_segments_len(rest2@.skip(i3 as int + 1));
                            }
                            Err(Error::NoMatch)
                        },
                    }
                },
            }
        },
    }
}

/// Parses an incoming topic string as a jobs topic, yielding the thing
/// name, the job id (if the shape carries one), and the message type.
pub fn match_topic<'a>(topic: &'a str) -> (r: Result<ThingJobs<'a>, Error>)
    ensures
        (match r {
            Ok(tj) => spec_match_jobs(topic@) == Ok::<(Seq<char>, Option<Seq<char>>, Topic), Error>(
                (tj.thing_name@, spec_opt_view(tj.id), tj.api),
            ),
            Err(e) => spec_match_jobs(topic@) == Err::<
                (Seq<char>, Option<Seq<char>>, Topic),
                Error,
            >(e),
        }),
{
    if let Err(e) = is_valid_mqtt_topic(topic) {
        return Err(e);
    }
    let s = match is_valid_prefix(topic, AWS_THINGS_PREFIX) {
        Ok(s) => s,
        Err(e) => { return Err(e) },
    };
    let n = s.unicode_len();
    let mid = match find_slash(s) {
        Some(i) => i,
        None => {
            proof {
                lemma_segments_single(s@);
            }
            return Err(Error::FAIL);
        },
    };
    let thing_name = s.substring_char(0, mid);
    let after = s.substring_char(mid, n);
    proof {
        assert(s@ =~= s@.take(mid as int) + seq!['/'] + s@.skip(mid as int + 1));
        lemma_segments_cons(s@.take(mid as int), s@.skip(mid as int + 1));
        lemma_segments_len(s@.skip(mid as int + 1));
        assert(thing_name@ == spec_segments(s@)[0]);
        assert(after@ =~= s@.skip(mid as int));
    }
    if let Err(e) = is_valid_thing_name(thing_name) {
        return Err(e);
    }
    let body = match is_valid_bridge(after, JOBS_API_BRIDGE) {
        Ok(b) => b,
        Err(e) => { return Err(e) },
    };
    match_body(thing_name, body)
}

/// Which inputs a `GetPendingJobExecutions` request topic accepts, and
/// what it produces.
pub open spec fn spec_get_pending(th: Seq<char>) -> Result<Seq<char>, Error> {
    if !spec_valid_thing_name(th) {
        Err(Error::ThingnameParseFailed)
    } else {
        Ok("$aws/things/"@ + th + "/jobs/"@ + "get"@)
    }
}

/// Assembles the topic string for a `GetPendingJobExecutions` request.
pub fn get_pending<'a>(thing_name: &'a str) -> (r: Result<ArrayString<TOPIC_BUFFER_LENGTH>, Error>)
    ensures
        (match r {
            Ok(buf) => spec_get_pending(thing_name@) == Ok::<Seq<char>, Error>(
                topic_buffer_chars(buf),
            ),
            Err(e) => spec_get_pending(thing_name@) == Err::<Seq<char>, Error>(e),
        }),
{
    broadcast use vstd::utf8::is_ascii_chars_concat;

    if let Err(e) = is_valid_thing_name(thing_name) {
        return Err(e);
    }
    proof {
        lemma_jobs_literals();
        lemma_name_chars_ascii(thing_name@);
    }
    let mut s = topic_buffer_new();
    topic_buffer_push(&mut s, "$aws/things/");
    topic_buffer_push(&mut s, thing_name);
    topic_buffer_push(&mut s, "/jobs/");
    topic_buffer_push(&mut s, "get");
    Ok(s)
}

/// Which inputs a `StartNextPendingJobExecution` request topic accepts,
/// and what it produces.
pub open spec fn spec_start_next(th: Seq<char>) -> Result<Seq<char>, Error> {
    if !spec_valid_thing_name(th) {
        Err(Error::ThingnameParseFailed)
    } else {
        Ok("$aws/things/"@ + th + "/jobs/"@ + "start-next"@)
    }
}

/// Assembles the topic string for a `StartNextPendingJobExecution`
/// request.
pub fn start_next<'a>(thing_name: &'a str) -> (r: Result<ArrayString<TOPIC_BUFFER_LENGTH>, Error>)
    ensures
        (match r {
            Ok(buf) => spec_start_next(thing_name@) == Ok::<Seq<char>, Error>(
                topic_buffer_chars(buf),
            ),
            Err(e) => spec_start_next(thing_name@) == Err::<Seq<char>, Error>(e),
        }),
{
    broadcast use vstd::utf8::is_ascii_chars_concat;

    if let Err(e) = is_valid_thing_name(thing_name) {
        return Err(e);
    }
    proof {
        lemma_jobs_literals();
        lemma_name_chars_ascii(thing_name@);
    }
    let mut s = topic_buffer_new();
    topic_buffer_push(&mut s, "$aws/things/");
    topic_buffer_push(&mut s, thing_name);
    topic_buffer_push(&mut s, "/jobs/");
    topic_buffer_push(&mut s, "start-next");
    Ok(s)
}

/// Which inputs a `DescribeJobExecution` request topic accepts, and what
/// it produces: the job id may be the reserved literal `$next`.
pub open spec fn spec_describe(th: Seq<char>, id: Seq<char>) -> Result<Seq<char>, Error> {
    if !spec_valid_thing_name(th) {
        Err(Error::ThingnameParseFailed)
    } else if id != "$next"@ && !spec_valid_job_id(id) {
        Err(Error::JobsIdParseFailed)
    } else {
        Ok("$aws/things/"@ + th + "/jobs/"@ + id + "/"@ + "get"@)
    }
}

/// Assembles the topic string for a `DescribeJobExecution` request.
pub fn describe<'a>(thing_name: &'a str, id: &'a str) -> (r: Result<
    ArrayString<TOPIC_BUFFER_LENGTH>,
    Error,
>)
    ensures
        (match r {
            Ok(buf) => spec_describe(thing_name@, id@) == Ok::<Seq<char>, Error>(
                topic_buffer_chars(buf),
            ),
            Err(e) => spec_describe(thing_name@, id@) == Err::<Seq<char>, Error>(e),
        }),
{
    broadcast use vstd::utf8::is_ascii_chars_concat;

    if let Err(e) = is_valid_thing_name(thing_name) {
        return Err(e);
    }
    if !str_eq(id, "$next") {
        if let Err(e) = is_valid_job_id(id) {
            return Err(e);
        }
        proof {
            lemma_job_id_chars_are_name_chars(id@);
            lemma_name_chars_ascii(id@);
        }
    }
    proof {
        lemma_jobs_literals();
        lemma_name_chars_ascii(thing_name@);
    }
    let mut s = topic_buffer_new();
    topic_buffer_push(&mut s, "$aws/things/");
    topic_buffer_push(&mut s, thing_name);
    topic_buffer_push(&mut s, "/jobs/");
    topic_buffer_push(&mut s, id);
    topic_buffer_push(&mut s, "/");
    topic_buffer_push(&mut s, "get");
    Ok(s)
}

/// Which inputs an `UpdateJobExecution` request topic accepts, and what
/// it produces: the job id must be concrete and valid.
pub open spec fn spec_update(th: Seq<char>, id: Seq<char>) -> Result<Seq<char>, Error> {
    if !spec_valid_thing_name(th) {
        Err(Error::ThingnameParseFailed)
    } else if !spec_valid_job_id(id) {
        Err(Error::JobsIdParseFailed)
    } else {
        Ok("$aws/things/"@ + th + "/jobs/"@ + id + "/"@ + "update"@)
    }
}

/// Assembles the topic string for an `UpdateJobExecution` request.
pub fn update<'a>(thing_name: &'a str, id: &'a str) -> (r: Result<
    ArrayString<TOPIC_BUFFER_LENGTH>,
    Error,
>)
    ensures
        (match r {
            Ok(buf) => spec_update(thing_name@, id@) == Ok::<Seq<char>, Error>(
                topic_buffer_chars(buf),
            ),
            Err(e) => spec_update(thing_name@, id@) == Err::<Seq<char>, Error>(e),
        }),
{
    broadcast use vstd::utf8::is_ascii_chars_concat;

    if let Err(e) = is_valid_thing_name(thing_name) {
        return Err(e);
    }
    if let Err(e) = is_valid_job_id(id) {
        return Err(e);
    }
    proof {
        lemma_jobs_literals();
        lemma_name_chars_ascii(thing_name@);
        lemma_job_id_chars_are_name_chars(id@);
        lemma_name_chars_ascii(id@);
    }
    let mut s = topic_buffer_new();
    topic_buffer_push(&mut s, "$aws/things/");
    topic_buffer_push(&mut s, thing_name);
    topic_buffer_push(&mut s, "/jobs/");
    topic_buffer_push(&mut s, id);
    topic_buffer_push(&mut s, "/");
    topic_buffer_push(&mut s, "update");
    Ok(s)
}


/// The job-id segment of a subscription topic, as parsing returns it:
/// the `+` wildcard for the per-job message types, nothing otherwise.
pub open spec fn spec_id_seg(t: Topic) -> Option<Seq<char>> {
    match t {
        Topic::DescribeSuccess | Topic::DescribeFailed | Topic::UpdateSuccess
            | Topic::UpdateFailed => Some("+"@),
        _ => None,
    }
}

/// The outcome-suffix token of a message type, without the leading `/`;
/// `None` for the notification types.
pub open spec fn spec_suffix_word(t: Topic) -> Option<Seq<char>> {
    match t {
        Topic::GetPendingSuccess | Topic::StartNextSuccess | Topic::DescribeSuccess
            | Topic::UpdateSuccess => Some("accepted"@),
        Topic::GetPendingFailed | Topic::StartNextFailed | Topic::DescribeFailed
            | Topic::UpdateFailed => Some("rejected"@),
        _ => None,
    }
}

/// Round trip: parsing an assembled jobs subscription topic gives back
/// exactly the thing name and message type that went in, with the `+`
/// wildcard as the job id for the per-job message types, for every valid
/// thing name and every message type.
#[verifier::rlimit(100)]
pub proof fn lemma_jobs_round_trip(t: Topic, th: Seq<char>)
    requires
        spec_valid_thing_name(th),
    ensures
        spec_get_topic(th, t) == Ok::<Seq<char>, Error>(spec_jobs_topic(th, t)),
        spec_match_jobs(spec_jobs_topic(th, t)) == Ok::<
            (Seq<char>, Option<Seq<char>>, Topic),
            Error,
        >((th, spec_id_seg(t), t)),
{
    broadcast use vstd::utf8::is_ascii_chars_concat;
    broadcast use vstd::utf8::is_ascii_chars_encode_utf8;

    lemma_jobs_literals();
    lemma_jobs_token_facts(t);
    lemma_name_chars_ascii(th);
    reveal_strlit("$aws/things/");
    reveal_strlit("/jobs/");
    reveal_strlit("/");
    reveal_strlit("+");
    reveal_strlit("+/");
    reveal_strlit("notify");
    reveal_strlit("notify-next");
    reveal_strlit("get");
    reveal_strlit("start-next");
    reveal_strlit("update");
    reveal_strlit("accepted");
    reveal_strlit("rejected");
    reveal_strlit("/accepted");
    reveal_strlit("/rejected");
    assert("accepted"@[0] == 'a' && "rejected"@[0] == 'r');
    let topic = spec_jobs_topic(th, t);
    let opsfx = spec_id(t) + spec_op(t) + spec_suffix(t);
    assert(is_ascii_chars(topic));
    assert(topic.len() >= 12);
    assert(topic.len() <= 12 + th.len() + 6 + opsfx.len());
    assert(spec_mqtt_ok(topic));
    assert("$aws/things/"@.is_prefix_of(topic)) by {
        assert(topic.subrange(0, 12) =~= "$aws/things/"@);
    }
    let s = th + "/jobs/"@ + opsfx;
    assert(topic.skip("$aws/things/"@.len() as int) =~= s);
    assert(s =~= th + seq!['/'] + ("/jobs/"@.skip(1) + opsfx));
    lemma_segments_cons(th, "/jobs/"@.skip(1) + opsfx);
    lemma_segments_len("/jobs/"@.skip(1) + opsfx);
    let segs = spec_segments(s);
    assert(segs[0] == th);
    assert(segs.len() >= 2);
    let rest = s.skip(th.len() as int);
    assert(rest =~= "/jobs/"@ + opsfx);
    assert("/jobs/"@.is_prefix_of(rest)) by {
        assert(rest.subrange(0, 6) =~= "/jobs/"@);
    }
    let body = rest.skip("/jobs/"@.len() as int);
    assert(body =~= opsfx);
    // The word after the operation, and the wildcard segment, decompose
    // the body into its expected segments.
    match t {
        Topic::JobsChanged | Topic::NextJobChanged => {
            assert(body =~= spec_op(t));
            assert(slash_free(spec_op(t)));
            lemma_segments_single(spec_op(t));
            assert("notify"@.len() == 6 && "notify-next"@.len() == 11);
        },
        Topic::GetPendingSuccess | Topic::GetPendingFailed | Topic::StartNextSuccess
            | Topic::StartNextFailed => {
            let w = spec_suffix_word(t)->Some_0;
            assert(spec_suffix(t) =~= seq!['/'] + w);
            assert(body =~= spec_op(t) + seq!['/'] + w);
            assert(slash_free(spec_op(t)));
            assert(slash_free(w));
            lemma_segments_cons(spec_op(t), w);
            lemma_segments_single(w);
            let bsegs = spec_segments(body);
            assert(bsegs =~~= seq![spec_op(t), w]);
            assert("get"@.len() == 3 && "start-next"@.len() == 10);
        },
        Topic::DescribeSuccess | Topic::DescribeFailed | Topic::UpdateSuccess
            | Topic::UpdateFailed => {
            let w = spec_suffix_word(t)->Some_0;
            assert(spec_suffix(t) =~= seq!['/'] + w);
            assert(body =~= "+"@ + seq!['/'] + (spec_op(t) + seq!['/'] + w));
            assert(slash_free("+"@));
            assert(slash_free(spec_op(t)));
            assert(slash_free(w));
            lemma_segments_cons("+"@, spec_op(t) + seq!['/'] + w);
            lemma_segments_cons(spec_op(t), w);
            lemma_segments_single(w);
            let bsegs = spec_segments(body);
            assert(bsegs =~~= seq!["+"@, spec_op(t), w]);
            assert("get"@.len() == 3 && "update"@.len() == 6);
            assert(spec_job_id_token_ok("+"@));
        },
    }
}


/// A malformed job id in a per-job topic is rejected with
/// `JobsIdParseFailed`, never a generic error, once the operation and
/// suffix tokens name a per-job message type.  The `+` wildcard and the
/// reserved literal `$next` are the only tokens exempt from job-id
/// validation.
#[verifier::rlimit(100)]
pub proof fn lemma_parse_rejects_bad_job_id(t: Topic, th: Seq<char>, id: Seq<char>)
    requires
        spec_valid_thing_name(th),
        slash_free(id),
        !spec_job_id_token_ok(id),
        (t == Topic::DescribeSuccess || t == Topic::DescribeFailed || t == Topic::UpdateSuccess
            || t == Topic::UpdateFailed),
        spec_mqtt_ok(
            "$aws/things/"@ + th + "/jobs/"@ + id + "/"@ + spec_op(t) + spec_suffix(t),
        ),
    ensures
        spec_match_jobs("$aws/things/"@ + th + "/jobs/"@ + id + "/"@ + spec_op(t) + spec_suffix(t))
            == Err::<(Seq<char>, Option<Seq<char>>, Topic), Error>(Error::JobsIdParseFailed),
{
    lemma_jobs_literals();
    lemma_name_chars_ascii(th);
    reveal_strlit("$aws/things/");
    reveal_strlit("/jobs/");
    reveal_strlit("/");
    reveal_strlit("get");
    reveal_strlit("update");
    reveal_strlit("accepted");
    reveal_strlit("rejected");
    reveal_strlit("/accepted");
    reveal_strlit("/rejected");
    let topic = "$aws/things/"@ + th + "/jobs/"@ + id + "/"@ + spec_op(t) + spec_suffix(t);
    let w = spec_suffix_word(t)->Some_0;
    assert(spec_suffix(t) =~= seq!['/'] + w);
    let opsfx = id + "/"@ + spec_op(t) + spec_suffix(t);
    assert("$aws/things/"@.is_prefix_of(topic)) by {
        assert(topic.subrange(0, 12) =~= "$aws/things/"@);
    }
    let s = th + "/jobs/"@ + opsfx;
    assert(topic.skip("$aws/things/"@.len() as int) =~= s);
    assert(s =~= th + seq!['/'] + ("/jobs/"@.skip(1) + opsfx));
    lemma_segments_cons(th, "/jobs/"@.skip(1) + opsfx);
    lemma_segments_len("/jobs/"@.skip(1) + opsfx);
    let segs = spec_segments(s);
    assert(segs[0] == th);
    assert(segs.len() >= 2);
    let rest = s.skip(th.len() as int);
    assert(rest =~= "/jobs/"@ + opsfx);
    assert("/jobs/"@.is_prefix_of(rest)) by {
        assert(rest.subrange(0, 6) =~= "/jobs/"@);
    }
    let body = rest.skip("/jobs/"@.len() as int);
    assert(body =~= id + seq!['/'] + (spec_op(t) + seq!['/'] + w));
    assert(slash_free(spec_op(t)));
    assert(slash_free(w));
    lemma_segments_cons(id, spec_op(t) + seq!['/'] + w);
    lemma_segments_cons(spec_op(t), w);
    lemma_segments_single(w);
    let bsegs = spec_segments(body);
    assert(bsegs =~~= seq![id, spec_op(t), w]);
    assert(spec_find_id_pair(spec_op(t), w) == Ok::<Topic, Error>(t));
    assert(spec_match_jobs_body(th, body) == Err::<
        (Seq<char>, Option<Seq<char>>, Topic),
        Error,
    >(Error::JobsIdParseFailed));
}

} // verus!
