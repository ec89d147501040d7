//! Shared grammar primitives: error taxonomy, length limits, identifier
//! validation, and the helpers that strip a literal prefix or bridge
//! segment from a topic string.

use vstd::prelude::*;
use arrayvec::ArrayString;
use vstd::string::StringSliceAdditionalSpecFns;
use vstd::utf8::{encode_utf8, is_ascii_chars};

verus! {

/// The common namespace prefix of every topic this crate handles.
pub const AWS_THINGS_PREFIX: &'static str = "$aws/things/";

/// Bridge segment of classic (unnamed) shadow topics.
pub const SHADOW_API_BRIDGE: &'static str = "/shadow/";

/// Bridge segment of named shadow topics.
pub const NAMED_SHADOW_API_BRIDGE: &'static str = "/shadow/name/";

/// Bridge segment of jobs topics.
pub const JOBS_API_BRIDGE: &'static str = "/jobs/";

/// Bridge segment of defender-metrics topics.
pub const DEFENDER_API_BRIDGE: &'static str = "/defender/metrics/";

/// Bridge segment of secure-tunneling topics.
pub const TUNNELS_API_BRIDGE: &'static str = "/tunnels/";

/// Suffix of response topics reporting success.
pub const SUFFIX_ACCEPTED: &'static str = "/accepted";

/// Suffix of response topics reporting failure.
pub const SUFFIX_REJECTED: &'static str = "/rejected";

/// Success suffix as a bare segment token.
pub const ACCEPTED: &'static str = "accepted";

/// Failure suffix as a bare segment token.
pub const REJECTED: &'static str = "rejected";

/// Limit imposed by the MQTT specification on a topic string's byte length.
pub const MQTT_TOPIC_LENGTH_MAX: usize = 65535;

/// A thing (device) name must be shorter than this.
pub const THINGNAME_MAX_LENGTH: usize = 128;

/// A named shadow's name must be shorter than this.
pub const SHADOW_NAME_LENGTH_MAX: usize = 64;

/// A job id must be shorter than this.
pub const JOBID_MAX_LENGTH: usize = 64;

/// Worst-case byte length of any topic this crate assembles; reached by a
/// named-shadow topic with maximal names: the common prefix, a thing
/// name, the named-shadow bridge, a shadow name, `/`, `update` and
/// `/documents`.
pub const TOPIC_BUFFER_LENGTH: usize = THINGNAME_MAX_LENGTH + SHADOW_NAME_LENGTH_MAX + 40;

/// How a topic-string operation can fail, from the least specific
/// (`FAIL`, a generic precondition violation) to protocol-specific
/// parse failures.
#[derive(Debug, PartialEq, Eq, Structural, Clone, Copy)]
pub enum Error {
    /// Generic precondition violation.
    FAIL,
    /// The raw topic string fails the basic length checks.
    MqttTopicFailed,
    /// The thing name inside the topic is not a valid identifier.
    ThingnameParseFailed,
    /// The namespace was recognized but the operation/suffix tokens do not
    /// map to any known message type.
    MessageTypeParseFailed,
    /// The protocol bridge segment was expected but not found.
    RootParseFailed,
    /// The shadow name inside a named-shadow topic is not a valid identifier.
    ShadownameParseFailed,
    /// The job id inside a jobs topic is not a valid identifier.
    JobsIdParseFailed,
    /// The topic does not belong to this protocol's namespace at all.
    NoMatch,
}

/// Characters permitted in thing names and shadow names.
pub open spec fn spec_name_char(c: char) -> bool {
    ||| c == '-'
    ||| c == '_'
    ||| c == ':'
    ||| '0' <= c <= '9'
    ||| 'A' <= c <= 'Z'
    ||| 'a' <= c <= 'z'
}

/// Characters permitted in job ids: as for names, but without `:`.
pub open spec fn spec_job_id_char(c: char) -> bool {
    ||| c == '-'
    ||| c == '_'
    ||| '0' <= c <= '9'
    ||| 'A' <= c <= 'Z'
    ||| 'a' <= c <= 'z'
}

/// A valid identifier is non-empty, shorter than `max_len`, and drawn
/// entirely from the name alphabet.
pub open spec fn spec_valid_name(s: Seq<char>, max_len: int) -> bool {
    0 < s.len() < max_len && forall|i: int| 0 <= i < s.len() ==> spec_name_char(#[trigger] s[i])
}

pub open spec fn spec_valid_thing_name(s: Seq<char>) -> bool {
    spec_valid_name(s, THINGNAME_MAX_LENGTH as int)
}

pub open spec fn spec_valid_shadow_name(s: Seq<char>) -> bool {
    spec_valid_name(s, SHADOW_NAME_LENGTH_MAX as int)
}

/// A valid job id is non-empty, shorter than `JOBID_MAX_LENGTH`, and drawn
/// entirely from the job-id alphabet.
pub open spec fn spec_valid_job_id(s: Seq<char>) -> bool {
    0 < s.len() < JOBID_MAX_LENGTH && forall|i: int|
        0 <= i < s.len() ==> spec_job_id_char(#[trigger] s[i])
}

/// A parameter string passes the raw length checks: non-empty and shorter
/// than `max_len` bytes (UTF-8 encoded).
pub open spec fn spec_param_ok(s: Seq<char>, max_len: int) -> bool {
    0 < encode_utf8(s).len() < max_len
}

/// A raw topic string is acceptable when its byte length is within the
/// MQTT limit.
pub open spec fn spec_mqtt_ok(s: Seq<char>) -> bool {
    spec_param_ok(s, MQTT_TOPIC_LENGTH_MAX as int)
}

/// Every character of the name alphabet is ASCII, and none of them is `/`.
pub proof fn lemma_name_chars_ascii(s: Seq<char>)
    requires
        forall|i: int| 0 <= i < s.len() ==> spec_name_char(#[trigger] s[i]),
    ensures
        is_ascii_chars(s),
        forall|i: int| 0 <= i < s.len() ==> #[trigger] s[i] != '/',
{
    assert forall|i: int| 0 <= i < s.len() implies '\0' <= #[trigger] s[i] <= '\u{7f}' by {
        assert(spec_name_char(s[i]));
    }
}

/// Every character of the job-id alphabet is a name character.
pub proof fn lemma_job_id_chars_are_name_chars(s: Seq<char>)
    requires
        forall|i: int| 0 <= i < s.len() ==> spec_job_id_char(#[trigger] s[i]),
    ensures
        forall|i: int| 0 <= i < s.len() ==> spec_name_char(#[trigger] s[i]),
{
}

fn is_name_char(c: char) -> (b: bool)
    ensures
        b == spec_name_char(c),
{
    c == '-' || c == '_' || c == ':' || ('0' <= c && c <= '9') || ('A' <= c && c <= 'Z') || ('a'
        <= c && c <= 'z')
}

fn is_job_id_char(c: char) -> (b: bool)
    ensures
        b == spec_job_id_char(c),
{
    c == '-' || c == '_' || ('0' <= c && c <= '9') || ('A' <= c && c <= 'Z') || ('a' <= c && c
        <= 'z')
}

/// Raw length check shared by every validator: non-empty and shorter than
/// `max_len` bytes.
fn is_valid_param(s: &str, max_len: usize) -> (r: Result<(), Error>)
    ensures
        r == (if spec_param_ok(s@, max_len as int) {
            Ok::<(), Error>(())
        } else {
            Err::<(), Error>(Error::FAIL)
        }),
{
    let n = s.as_bytes().len();
    proof {
        assert(n == encode_utf8(s@).len());
    }
    if n > 0 && n < max_len {
        Ok(())
    } else {
        Err(Error::FAIL)
    }
}

/// Is the raw topic string within the MQTT length limits?
pub fn is_valid_mqtt_topic(mqtt_topic: &str) -> (r: Result<(), Error>)
    ensures
        r == (if spec_mqtt_ok(mqtt_topic@) {
            Ok::<(), Error>(())
        } else {
            Err::<(), Error>(Error::MqttTopicFailed)
        }),
{
    match is_valid_param(mqtt_topic, MQTT_TOPIC_LENGTH_MAX) {
        Ok(()) => Ok(()),
        Err(_) => Err(Error::MqttTopicFailed),
    }
}

/// Shared identifier check: length limits plus the name alphabet.
fn is_valid_name(name: &str, max_len: usize) -> (r: Result<(), Error>)
    ensures
        r == (if spec_valid_name(name@, max_len as int) {
            Ok::<(), Error>(())
        } else {
            Err::<(), Error>(Error::FAIL)
        }),
{
    proof {
        broadcast use vstd::utf8::is_ascii_chars_encode_utf8;

    }
    if let Err(e) = is_valid_param(name, max_len) {
        proof {
            if spec_valid_name(name@, max_len as int) {
                lemma_name_chars_ascii(name@);
                assert(encode_utf8(name@).len() == name@.len());
            }
        }
        return Err(e);
    }
    let n = name.unicode_len();
    let mut i: usize = 0;
    while i < n
        invariant
            n == name@.len(),
            i <= n,
            forall|j: int| 0 <= j < i ==> spec_name_char(#[trigger] name@[j]),
        decreases n - i,
    {
        let c = name.get_char(i);
        if !is_name_char(c) {
            return Err(Error::FAIL);
        }
        i += 1;
    }
    proof {
        lemma_name_chars_ascii(name@);
        assert(encode_utf8(name@).len() == name@.len());
    }
    Ok(())
}

/// Is the string a valid thing (device) name?
pub fn is_valid_thing_name(thing_name: &str) -> (r: Result<(), Error>)
    ensures
        r == (if spec_valid_thing_name(thing_name@) {
            Ok::<(), Error>(())
        } else {
            Err::<(), Error>(Error::ThingnameParseFailed)
        }),
{
    match is_valid_name(thing_name, THINGNAME_MAX_LENGTH) {
        Ok(()) => Ok(()),
        Err(_) => Err(Error::ThingnameParseFailed),
    }
}

/// Is the string a valid shadow name?
pub fn is_valid_shadow_name(shadow_name: &str) -> (r: Result<(), Error>)
    ensures
        r == (if spec_valid_shadow_name(shadow_name@) {
            Ok::<(), Error>(())
        } else {
            Err::<(), Error>(Error::ShadownameParseFailed)
        }),
{
    match is_valid_name(shadow_name, SHADOW_NAME_LENGTH_MAX) {
        Ok(()) => Ok(()),
        Err(_) => Err(Error::ShadownameParseFailed),
    }
}

/// Is the string a valid job id?
pub fn is_valid_job_id(job_id: &str) -> (r: Result<(), Error>)
    ensures
        r == (if spec_valid_job_id(job_id@) {
            Ok::<(), Error>(())
        } else {
            Err::<(), Error>(Error::JobsIdParseFailed)
        }),
{
    proof {
        broadcast use vstd::utf8::is_ascii_chars_encode_utf8;

    }
    if let Err(_) = is_valid_param(job_id, JOBID_MAX_LENGTH) {
        proof {
            if spec_valid_job_id(job_id@) {
                lemma_job_id_chars_are_name_chars(job_id@);
                lemma_name_chars_ascii(job_id@);
                assert(encode_utf8(job_id@).len() == job_id@.len());
            }
        }
        return Err(Error::JobsIdParseFailed);
    }
    let n = job_id.unicode_len();
    let mut i: usize = 0;
    while i < n
        invariant
            n == job_id@.len(),
            i <= n,
            forall|j: int| 0 <= j < i ==> spec_job_id_char(#[trigger] job_id@[j]),
        decreases n - i,
    {
        let c = job_id.get_char(i);
        if !is_job_id_char(c) {
            return Err(Error::JobsIdParseFailed);
        }
        i += 1;
    }
    proof {
        lemma_job_id_chars_are_name_chars(job_id@);
        lemma_name_chars_ascii(job_id@);
        assert(encode_utf8(job_id@).len() == job_id@.len());
    }
    Ok(())
}

/// The view of an optional borrowed string.
pub open spec fn spec_opt_view(o: Option<&str>) -> Option<Seq<char>> {
    match o {
        Some(s) => Some(s@),
        None => None,
    }
}

/// No `/` occurs in the sequence.
pub open spec fn slash_free(s: Seq<char>) -> bool {
    forall|i: int| 0 <= i < s.len() ==> #[trigger] s[i] != '/'
}

/// The `/`-delimited segments of a topic remainder, in order.  Splitting
/// the empty string yields one empty segment, and every `/` starts a new
/// segment, so the result always holds at least one segment.
pub open spec fn spec_segments(s: Seq<char>) -> Seq<Seq<char>>
    decreases s.len(),
{
    if s.len() == 0 {
        seq![Seq::<char>::empty()]
    } else if s[0] == '/' {
        seq![Seq::<char>::empty()] + spec_segments(s.drop_first())
    } else {
        let rest = spec_segments(s.drop_first());
        seq![seq![s[0]] + rest[0]] + rest.skip(1)
    }
}

pub proof fn lemma_segments_len(s: Seq<char>)
    ensures
        spec_segments(s).len() >= 1,
    decreases s.len(),
{
    if s.len() > 0 {
        lemma_segments_len(s.drop_first());
    }
}

/// A slash-free string is a single segment.
pub proof fn lemma_segments_single(s: Seq<char>)
    requires
        slash_free(s),
    ensures
        spec_segments(s) == seq![s],
    decreases s.len(),
{
    if s.len() == 0 {
        assert(spec_segments(s) =~~= seq![s]);
    } else {
        assert(s[0] != '/');
        assert(slash_free(s.drop_first()));
        lemma_segments_single(s.drop_first());
        lemma_segments_len(s.drop_first());
        assert(seq![s[0]] + spec_segments(s.drop_first())[0] =~= s);
        assert(spec_segments(s) =~~= seq![s]);
    }
}

/// Splitting at the first `/`: a slash-free head becomes the first
/// segment, and the tail after the `/` splits independently.
pub proof fn lemma_segments_cons(a: Seq<char>, b: Seq<char>)
    requires
        slash_free(a),
    ensures
        spec_segments(a + seq!['/'] + b) == seq![a] + spec_segments(b),
    decreases a.len(),
{
    let s = a + seq!['/'] + b;
    lemma_segments_len(b);
    if a.len() == 0 {
        assert(s[0] == '/');
        assert(s.drop_first() =~= b);
        assert(spec_segments(s) =~~= seq![a] + spec_segments(b));
    } else {
        assert(s[0] == a[0]);
        assert(a[0] != '/');
        assert(s.drop_first() =~= a.drop_first() + seq!['/'] + b);
        assert(slash_free(a.drop_first()));
        lemma_segments_cons(a.drop_first(), b);
        let rest = spec_segments(s.drop_first());
        assert(rest == seq![a.drop_first()] + spec_segments(b));
        assert(rest[0] == a.drop_first());
        assert(seq![s[0]] + rest[0] =~= a);
        assert(rest.skip(1) =~= spec_segments(b));
        assert(spec_segments(s) =~~= seq![a] + spec_segments(b));
    }
}

/// Index of the first `/` in the string, if any.
pub(crate) fn find_slash(s: &str) -> (r: Option<usize>)
    ensures
        match r {
            Some(i) => i < s@.len() && s@[i as int] == '/' && slash_free(s@.take(i as int)),
            None => slash_free(s@),
        },
{
    let n = s.unicode_len();
    let mut i: usize = 0;
    while i < n
        invariant
            n == s@.len(),
            i <= n,
            forall|j: int| 0 <= j < i ==> #[trigger] s@[j] != '/',
        decreases n - i,
    {
        if s.get_char(i) == '/' {
            assert(slash_free(s@.take(i as int)));
            return Some(i);
        }
        i += 1;
    }
    None
}

/// Character-for-character string equality.
pub(crate) fn str_eq(a: &str, b: &str) -> (r: bool)
    ensures
        r == (a@ == b@),
{
    let n = a.unicode_len();
    if n != b.unicode_len() {
        return false;
    }
    let mut i: usize = 0;
    while i < n
        invariant
            n == a@.len(),
            n == b@.len(),
            i <= n,
            forall|j: int| 0 <= j < i ==> a@[j] == b@[j],
        decreases n - i,
    {
        if a.get_char(i) != b.get_char(i) {
            return false;
        }
        i += 1;
    }
    assert(a@ =~= b@);
    true
}

/// A prefix fixes the characters it covers.
pub proof fn lemma_prefix_index(p: Seq<char>, s: Seq<char>, i: int)
    requires
        p.is_prefix_of(s),
        0 <= i < p.len(),
    ensures
        s[i] == p[i],
{
    assert(s.subrange(0, p.len() as int)[i] == s[i]);
}

/// Strips `lit` from the front of `s`, if `s` starts with it.
fn strip_literal<'a>(s: &'a str, lit: &str) -> (r: Option<&'a str>)
    ensures
        match r {
            Some(rest) => lit@.is_prefix_of(s@) && rest@ == s@.skip(lit@.len() as int),
            None => !lit@.is_prefix_of(s@),
        },
{
    let n = s.unicode_len();
    let m = lit.unicode_len();
    if m > n {
        return None;
    }
    let mut i: usize = 0;
    while i < m
        invariant
            n == s@.len(),
            m == lit@.len(),
            m <= n,
            i <= m,
            forall|j: int| 0 <= j < i ==> chars_agree(s@, lit@, j),
        decreases m - i,
    {
        if s.get_char(i) != lit.get_char(i) {
            assert(!lit@.is_prefix_of(s@));
            return None;
        }
        assert(chars_agree(s@, lit@, i as int));
        i += 1;
    }
    assert forall|j: int| 0 <= j < lit@.len() implies s@[j] == lit@[j] by {
        assert(chars_agree(s@, lit@, j));
    }
    assert(lit@ =~= s@.subrange(0, lit@.len() as int));
    let rest = s.substring_char(m, n);
    assert(rest@ =~= s@.skip(lit@.len() as int));
    Some(rest)
}

/// The characters of `s` and `lit` agree at index `j`.
pub open spec fn chars_agree(s: Seq<char>, lit: Seq<char>, j: int) -> bool {
    0 <= j < lit.len() && j < s.len() && s[j] == lit[j]
}

/// Does `s` start with `lit`?
pub(crate) fn str_starts_with(s: &str, lit: &str) -> (r: bool)
    ensures
        r == lit@.is_prefix_of(s@),
{
    strip_literal(s, lit).is_some()
}

/// Strips the expected namespace prefix; a mismatch means the topic is not
/// ours at all (`NoMatch`).
pub fn is_valid_prefix<'a>(s: &'a str, pre: &str) -> (r: Result<&'a str, Error>)
    ensures
        match r {
            Ok(rest) => pre@.is_prefix_of(s@) && rest@ == s@.skip(pre@.len() as int),
            Err(e) => !pre@.is_prefix_of(s@) && e == Error::NoMatch,
        },
{
    match strip_literal(s, pre) {
        Some(rest) => Ok(rest),
        None => Err(Error::NoMatch),
    }
}

#[verifier::external_type_specification]
#[verifier::external_body]
pub struct ExArrayString<const CAP: usize>(ArrayString<CAP>);

/// The characters held by a fixed-capacity topic buffer.
pub uninterp spec fn topic_buffer_chars(b: ArrayString<TOPIC_BUFFER_LENGTH>) -> Seq<char>;

/// Relies on arrayvec's ArrayString::new: a freshly created buffer holds
/// nothing.
#[verifier::external_body]
pub(crate) fn topic_buffer_new() -> (b: ArrayString<TOPIC_BUFFER_LENGTH>)
    ensures
        topic_buffer_chars(b) == Seq::<char>::empty(),
{
    ArrayString::new()
}

/// Relies on arrayvec's ArrayString::push_str: appends the string's bytes
/// to the buffer.  push_str panics only when the bytes do not fit, which
/// the precondition rules out: buffer contents and pushed string are both
/// ASCII, so their byte and character lengths agree and stay within the
/// buffer's capacity.
#[verifier::external_body]
pub(crate) fn topic_buffer_push(b: &mut ArrayString<TOPIC_BUFFER_LENGTH>, s: &str)
    requires
        is_ascii_chars(topic_buffer_chars(*old(b))),
        is_ascii_chars(s@),
        topic_buffer_chars(*old(b)).len() + s@.len() <= TOPIC_BUFFER_LENGTH,
    ensures
        topic_buffer_chars(*final(b)) == topic_buffer_chars(*old(b)) + s@,
{
    b.push_str(s)
}

/// Strips the expected protocol bridge segment; a mismatch means the
/// namespace was recognized but the sub-path is wrong (`RootParseFailed`).
pub fn is_valid_bridge<'a>(s: &'a str, bridge: &str) -> (r: Result<&'a str, Error>)
    ensures
        match r {
            Ok(rest) => bridge@.is_prefix_of(s@) && rest@ == s@.skip(bridge@.len() as int),
            Err(e) => !bridge@.is_prefix_of(s@) && e == Error::RootParseFailed,
        },
{
    match strip_literal(s, bridge) {
        Some(rest) => Ok(rest),
        None => Err(Error::RootParseFailed),
    }
}

} // verus!
