use aws_iot_device_sdk::common::Error;
use aws_iot_device_sdk::{match_topic_type, TopicType};

#[test]
fn classifier_picks_each_protocol() {
    assert_eq!(
        match_topic_type("$aws/things/chloe/shadow/name/common/get/rejected").unwrap(),
        TopicType::NamedShadow
    );
    assert_eq!(
        match_topic_type("$aws/things/chloe/shadow/get").unwrap(),
        TopicType::Shadow
    );
    assert_eq!(
        match_topic_type("$aws/things/chloe/jobs/notify-next").unwrap(),
        TopicType::Jobs
    );
    assert_eq!(
        match_topic_type("$aws/things/chloe/defender/metrics/cbor").unwrap(),
        TopicType::Defender
    );
    assert_eq!(
        match_topic_type("$aws/things/chloe/tunnels/notify").unwrap(),
        TopicType::Tunneling
    );
}

#[test]
fn classifier_is_shallow() {
    // Classification succeeds even when full parsing would later fail.
    assert_eq!(
        match_topic_type("$aws/things/chloe/jobs/bad.id/update/accepted").unwrap(),
        TopicType::Jobs
    );
}

#[test]
fn classifier_rejects_unknown_bridge() {
    assert_eq!(
        match_topic_type("$aws/things/chloe/unknown/x").unwrap_err(),
        Error::NoMatch
    );
    assert_eq!(
        match_topic_type("other/things/chloe/shadow/get").unwrap_err(),
        Error::NoMatch
    );
    assert_eq!(
        match_topic_type("$aws/things/bad.name/shadow/get").unwrap_err(),
        Error::ThingnameParseFailed
    );
    assert_eq!(match_topic_type("").unwrap_err(), Error::MqttTopicFailed);
}
