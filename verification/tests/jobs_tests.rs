use aws_iot_device_sdk::common::Error;
use aws_iot_device_sdk::jobs;

#[test]
fn get_topic_notify_next() {
    let topic = jobs::get_topic("chloe", jobs::Topic::NextJobChanged).unwrap();
    assert_eq!(&topic[..], "$aws/things/chloe/jobs/notify-next");
}

#[test]
fn get_topic_get_rejected() {
    let topic = jobs::get_topic("chloe", jobs::Topic::GetPendingFailed).unwrap();
    assert_eq!(&topic[..], "$aws/things/chloe/jobs/get/rejected");
}

#[test]
fn get_topic_id_update_rejected() {
    let topic = jobs::get_topic("chloe", jobs::Topic::UpdateFailed).unwrap();
    assert_eq!(&topic[..], "$aws/things/chloe/jobs/+/update/rejected");
}

#[test]
fn match_topic() {
    let jobs = jobs::match_topic("$aws/things/chloe/jobs/notify-next").unwrap();
    assert_eq!(jobs.api, jobs::Topic::NextJobChanged);
    assert_eq!(jobs.id, None);
}

#[test]
fn match_topic_with_op() {
    let jobs = jobs::match_topic("$aws/things/chloe/jobs/get/rejected").unwrap();
    assert_eq!(jobs.api, jobs::Topic::GetPendingFailed);
    assert_eq!(jobs.id, None);
}

#[test]
fn match_topic_with_id_op() {
    let jobs = jobs::match_topic("$aws/things/chloe/jobs/example-job-01/get/accepted").unwrap();
    assert_eq!(jobs.api, jobs::Topic::DescribeSuccess);
    let id = jobs.id.unwrap();
    assert_eq!(&id[..], "example-job-01");
}

#[test]
fn get_pending() {
    let topic = jobs::get_pending("chloe").unwrap();
    assert_eq!(&topic[..], "$aws/things/chloe/jobs/get");
}

#[test]
fn start_next() {
    let topic = jobs::start_next("chloe").unwrap();
    assert_eq!(&topic[..], "$aws/things/chloe/jobs/start-next");
}

#[test]
fn update() {
    let topic = jobs::update("chloe", "example-job-01").unwrap();
    assert_eq!(&topic[..], "$aws/things/chloe/jobs/example-job-01/update");
}

#[test]
fn describe_with_next_literal() {
    let topic = jobs::describe("chloe", "$next").unwrap();
    assert_eq!(&topic[..], "$aws/things/chloe/jobs/$next/get");
}

#[test]
fn describe_with_concrete_id() {
    let topic = jobs::describe("chloe", "example-job-01").unwrap();
    assert_eq!(&topic[..], "$aws/things/chloe/jobs/example-job-01/get");
}

#[test]
fn jobs_round_trip_every_message_type() {
    let no_id = [jobs::Topic::JobsChanged, jobs::Topic::NextJobChanged,
        jobs::Topic::GetPendingSuccess, jobs::Topic::GetPendingFailed,
        jobs::Topic::StartNextSuccess, jobs::Topic::StartNextFailed];
    for t in no_id {
        let topic = jobs::get_topic("chloe", t).unwrap();
        let parsed = jobs::match_topic(topic.as_str()).unwrap();
        assert_eq!(parsed.thing_name, "chloe");
        assert_eq!(parsed.api, t);
        assert_eq!(parsed.id, None);
    }
    let with_id = [jobs::Topic::DescribeSuccess, jobs::Topic::DescribeFailed,
        jobs::Topic::UpdateSuccess, jobs::Topic::UpdateFailed];
    for t in with_id {
        let topic = jobs::get_topic("chloe", t).unwrap();
        let parsed = jobs::match_topic(topic.as_str()).unwrap();
        assert_eq!(parsed.thing_name, "chloe");
        assert_eq!(parsed.api, t);
        assert_eq!(parsed.id, Some("+"));
    }
}

#[test]
fn match_accepts_next_literal_id() {
    let jobs = jobs::match_topic("$aws/things/chloe/jobs/$next/get/accepted").unwrap();
    assert_eq!(jobs.api, jobs::Topic::DescribeSuccess);
    assert_eq!(jobs.id, Some("$next"));
}

#[test]
fn jobs_errors_are_specific() {
    assert_eq!(
        jobs::match_topic("$aws/things/chloe").unwrap_err(),
        Error::FAIL
    );
    assert_eq!(
        jobs::match_topic("$aws/things/bad.name/jobs/notify").unwrap_err(),
        Error::ThingnameParseFailed
    );
    assert_eq!(
        jobs::match_topic("$aws/things/chloe/shadow/get").unwrap_err(),
        Error::RootParseFailed
    );
    assert_eq!(
        jobs::match_topic("$aws/things/chloe/jobs/fly").unwrap_err(),
        Error::MessageTypeParseFailed
    );
    assert_eq!(
        jobs::match_topic("$aws/things/chloe/jobs/bad.id/update/accepted").unwrap_err(),
        Error::JobsIdParseFailed
    );
    assert_eq!(
        jobs::match_topic("$aws/things/chloe/jobs/a/b/c/d").unwrap_err(),
        Error::NoMatch
    );
    assert_eq!(
        jobs::update("chloe", "bad.id").unwrap_err(),
        Error::JobsIdParseFailed
    );
    assert_eq!(
        jobs::describe("chloe", "").unwrap_err(),
        Error::JobsIdParseFailed
    );
}
