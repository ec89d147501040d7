use aws_iot_device_sdk::common::Error;
use aws_iot_device_sdk::tunneling;

#[test]
fn tunnels_match_topic() {
    let tunnels = tunneling::match_topic("$aws/things/chloe/tunnels/notify");
    assert_eq!(tunnels, Ok(()));
}

#[test]
fn tunnels_rejects_other_operations() {
    assert_eq!(
        tunneling::match_topic("$aws/things/chloe/tunnels/open"),
        Err(Error::NoMatch)
    );
    assert_eq!(
        tunneling::match_topic("$aws/things/chloe/jobs/notify"),
        Err(Error::RootParseFailed)
    );
}
