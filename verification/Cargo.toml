[package]
name = "aws_iot_device_sdk"
version = "0.1.0"
edition = "2021"

[dependencies]
arrayvec = "*"

[dev-dependencies]
rand = "*"
