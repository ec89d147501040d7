use aws_iot_device_sdk::common::Error;
use aws_iot_device_sdk::defender;

#[test]
fn get_topic_json() {
    let topic = defender::get_topic("chloe", defender::Topic::JsonReportPublish).unwrap();
    assert_eq!(&topic[..], "$aws/things/chloe/defender/metrics/json");
}

#[test]
fn get_topic_cbor_rejected() {
    let topic = defender::get_topic("chloe", defender::Topic::CborReportRejected).unwrap();
    assert_eq!(&topic[..], "$aws/things/chloe/defender/metrics/cbor/rejected");
}

#[test]
fn test_match_topic_some_name() {
    let defender = defender::match_topic("$aws/things/chloe/defender/metrics/json/accepted").unwrap();

    assert_eq!(defender.thing_name, "chloe");
    assert_eq!(defender.api, defender::Topic::JsonReportAccepted);
}

#[test]
fn defender_round_trip_every_message_type() {
    let all = [
        defender::Topic::JsonReportPublish,
        defender::Topic::JsonReportAccepted,
        defender::Topic::JsonReportRejected,
        defender::Topic::CborReportPublish,
        defender::Topic::CborReportAccepted,
        defender::Topic::CborReportRejected,
    ];
    for t in all {
        let topic = defender::get_topic("chloe", t).unwrap();
        let parsed = defender::match_topic(topic.as_str()).unwrap();
        assert_eq!(parsed.thing_name, "chloe");
        assert_eq!(parsed.api, t);
    }
}

#[test]
fn defender_errors_are_specific() {
    assert_eq!(
        defender::match_topic("$aws/things/chloe/defender/metrics/xml/accepted").unwrap_err(),
        Error::MessageTypeParseFailed
    );
    assert_eq!(
        defender::match_topic("$aws/things/chloe/shadow/get").unwrap_err(),
        Error::RootParseFailed
    );
    assert_eq!(
        defender::match_topic("$aws/things/chloe/defender/metrics/json/accepted/x").unwrap_err(),
        Error::NoMatch
    );
}
