use aws_iot_device_sdk::common::{
    is_valid_job_id, is_valid_mqtt_topic, is_valid_prefix, is_valid_shadow_name,
    is_valid_thing_name, Error,
};

#[test]
fn valid_mqtt_topic() -> Result<(), Error> {
    is_valid_mqtt_topic("hello/world")?;
    Ok(())
}

#[test]
fn valid_prefix() -> Result<(), Error> {
    is_valid_prefix("hello/world", "hello/")?;
    Ok(())
}

#[test]
fn valid_thing_name() -> Result<(), Error> {
    is_valid_thing_name("-_09AZaz:")?;
    Ok(())
}

#[test]
fn valid_shadow_name() -> Result<(), Error> {
    is_valid_shadow_name("common")?;
    Ok(())
}

#[test]
fn valid_job_id() -> Result<(), Error> {
    is_valid_job_id("_-09AZaz")?;
    Ok(())
}

#[test]
fn empty_mqtt_topic_rejected() {
    assert_eq!(is_valid_mqtt_topic(""), Err(Error::MqttTopicFailed));
}

#[test]
fn thing_name_length_limits() {
    let longest = "a".repeat(127);
    assert_eq!(is_valid_thing_name(&longest), Ok(()));
    let too_long = "a".repeat(128);
    assert_eq!(is_valid_thing_name(&too_long), Err(Error::ThingnameParseFailed));
    assert_eq!(is_valid_thing_name(""), Err(Error::ThingnameParseFailed));
}

#[test]
fn thing_name_alphabet_rejected() {
    assert_eq!(is_valid_thing_name("bad.name"), Err(Error::ThingnameParseFailed));
    assert_eq!(is_valid_thing_name("bad/name"), Err(Error::ThingnameParseFailed));
}

#[test]
fn shadow_name_length_limits() {
    let longest = "s".repeat(63);
    assert_eq!(is_valid_shadow_name(&longest), Ok(()));
    let too_long = "s".repeat(64);
    assert_eq!(is_valid_shadow_name(&too_long), Err(Error::ShadownameParseFailed));
}

#[test]
fn job_id_rejects_colon_and_limits() {
    assert_eq!(is_valid_job_id("has:colon"), Err(Error::JobsIdParseFailed));
    assert_eq!(is_valid_job_id(""), Err(Error::JobsIdParseFailed));
    let longest = "j".repeat(63);
    assert_eq!(is_valid_job_id(&longest), Ok(()));
    let too_long = "j".repeat(64);
    assert_eq!(is_valid_job_id(&too_long), Err(Error::JobsIdParseFailed));
}

#[test]
fn wrong_prefix_is_no_match() {
    assert_eq!(is_valid_prefix("hello/world", "bye/"), Err(Error::NoMatch));
}
