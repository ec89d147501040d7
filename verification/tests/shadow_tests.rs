use aws_iot_device_sdk::common::Error;
use aws_iot_device_sdk::shadow;

#[test]
fn assemble_named_topic_string() {
    let topic = shadow::assemble_topic(shadow::Topic::Get, "chloe", Some("common")).unwrap();
    assert_eq!("$aws/things/chloe/shadow/name/common/get", topic.as_str());
}

#[test]
fn assemble_classic_topic_string() {
    let topic = shadow::assemble_topic(shadow::Topic::Get, "chloe", None).unwrap();
    assert_eq!("$aws/things/chloe/shadow/get", topic.as_str());
}

#[test]
fn assemble_classic_topic_string_suffix() {
    let topic = shadow::assemble_topic(shadow::Topic::GetAccepted, "chloe", None).unwrap();
    assert_eq!("$aws/things/chloe/shadow/get/accepted", topic.as_str());
}

#[test]
fn match_classic_shadow_topic_string() {
    let topic = "$aws/things/chloe/shadow/get/accepted";
    let shadow = shadow::match_topic(topic).unwrap();
    assert_eq!(shadow.thing_name, "chloe");
    assert_eq!(shadow.shadow_name, None);
    assert_eq!(shadow.shadow_op, shadow::Topic::GetAccepted);
}

#[test]
fn match_named_shadow_topic_string() {
    let topic = "$aws/things/chloe/shadow/name/common/get/rejected";
    let shadow = shadow::match_topic(topic).unwrap();
    assert_eq!(shadow.thing_name, "chloe");
    assert_eq!(shadow.shadow_name.unwrap(), "common");
    assert_eq!(shadow.shadow_op, shadow::Topic::GetRejected);
}

#[test]
fn shadow_round_trip_named_get_accepted() {
    let topic = shadow::assemble_topic(shadow::Topic::GetAccepted, "chloe", Some("common")).unwrap();
    assert_eq!("$aws/things/chloe/shadow/name/common/get/accepted", topic.as_str());
    let parsed = shadow::match_topic(topic.as_str()).unwrap();
    assert_eq!(parsed.thing_name, "chloe");
    assert_eq!(parsed.shadow_name, Some("common"));
    assert_eq!(parsed.shadow_op, shadow::Topic::GetAccepted);
}

#[test]
fn shadow_round_trip_every_message_type() {
    let all = [
        shadow::Topic::Get,
        shadow::Topic::GetAccepted,
        shadow::Topic::GetRejected,
        shadow::Topic::Delete,
        shadow::Topic::DeleteAccepted,
        shadow::Topic::DeleteRejected,
        shadow::Topic::Update,
        shadow::Topic::UpdateAccepted,
        shadow::Topic::UpdateRejected,
        shadow::Topic::UpdateDocuments,
        shadow::Topic::UpdateDelta,
    ];
    for t in all {
        let topic = shadow::assemble_topic(t, "chloe", None).unwrap();
        let parsed = shadow::match_topic(topic.as_str()).unwrap();
        assert_eq!(parsed.thing_name, "chloe");
        assert_eq!(parsed.shadow_name, None);
        assert_eq!(parsed.shadow_op, t);
        let topic = shadow::assemble_topic(t, "chloe", Some("common")).unwrap();
        let parsed = shadow::match_topic(topic.as_str()).unwrap();
        assert_eq!(parsed.thing_name, "chloe");
        assert_eq!(parsed.shadow_name, Some("common"));
        assert_eq!(parsed.shadow_op, t);
    }
}

#[test]
fn assemble_rejects_bad_identifiers() {
    assert_eq!(
        shadow::assemble_topic(shadow::Topic::Get, "bad.name", None).unwrap_err(),
        Error::ThingnameParseFailed
    );
    assert_eq!(
        shadow::assemble_topic(shadow::Topic::Get, "", None).unwrap_err(),
        Error::ThingnameParseFailed
    );
    assert_eq!(
        shadow::assemble_topic(shadow::Topic::Get, "chloe", Some("bad.shadow")).unwrap_err(),
        Error::ShadownameParseFailed
    );
}

#[test]
fn match_rejects_bad_identifiers() {
    assert_eq!(
        shadow::match_topic("$aws/things/bad.name/shadow/get").unwrap_err(),
        Error::ThingnameParseFailed
    );
    assert_eq!(
        shadow::match_topic("$aws/things/chloe/shadow/name/bad.shadow/get").unwrap_err(),
        Error::ShadownameParseFailed
    );
}

#[test]
fn match_errors_are_specific() {
    assert_eq!(shadow::match_topic("").unwrap_err(), Error::MqttTopicFailed);
    assert_eq!(
        shadow::match_topic("other/things/chloe/shadow/get").unwrap_err(),
        Error::NoMatch
    );
    assert_eq!(
        shadow::match_topic("$aws/things/chloe/jobs/notify").unwrap_err(),
        Error::RootParseFailed
    );
    assert_eq!(
        shadow::match_topic("$aws/things/chloe/shadow/fly").unwrap_err(),
        Error::MessageTypeParseFailed
    );
    assert_eq!(
        shadow::match_topic("$aws/things/chloe/shadow/get/accepted/extra/more").unwrap_err(),
        Error::NoMatch
    );
    let parsed = shadow::match_topic("$aws/things/chloe/shadow/update/delta").unwrap();
    assert_eq!(parsed.shadow_op, shadow::Topic::UpdateDelta);
}
