use osd_core::SERVER_PORT;
use osd_core::advertise::{AdvertiseAction, AdvertiseState, AdvertiseTask, u32_to_decimal};
use osd_core::codec::encode_client_message;
use osd_core::mac::Mac;
use osd_core::message::{ClientMessage, Config, DeviceInfo, DeviceListing, ServerConfig, ServerMessage};
use osd_core::server_ip;

fn sample_info() -> DeviceInfo {
    DeviceInfo {
        hostname: Some("PC-D-7890AB".to_string()),
        mac_address: Mac::new("AA:BB:CC:DD:EE:FF").unwrap(),
    }
}

#[test]
fn retry_counter_counts_three_failures_in_order() {
    let mut task = AdvertiseTask::new(sample_info());
    assert_eq!(task.state(), AdvertiseState::Idle);

    let (event, action) = task.start();
    assert_eq!(event.message, "Attempting to connect to the server");
    assert_eq!(action, AdvertiseAction::ConnectWithTimeout);
    assert_eq!(task.state(), AdvertiseState::Connecting);

    let mut messages = Vec::new();
    for _ in 0..3 {
        let (event, action) = task.on_connect_failure();
        assert_eq!(action, AdvertiseAction::SleepThenConnect);
        assert_eq!(task.state(), AdvertiseState::Retrying);
        messages.push(event.message);
    }
    assert_eq!(task.retry_count(), 3);
    assert_eq!(
        messages,
        vec![
            "Can't connect to server, retrying in 5s. Try #1",
            "Can't connect to server, retrying in 5s. Try #2",
            "Can't connect to server, retrying in 5s. Try #3",
        ]
    );

    task.on_connect_success();
    assert_eq!(task.state(), AdvertiseState::Connected);
    let (payload, action) = task.begin_send();
    assert_eq!(action, AdvertiseAction::SendPayload);
    assert_eq!(task.state(), AdvertiseState::Sending);
    assert_eq!(payload, encode_client_message(&ClientMessage::Advertise(sample_info())));
}

#[test]
fn successful_send_completes_with_final_event() {
    let mut task = AdvertiseTask::new(sample_info());
    task.start();
    task.on_connect_success();
    task.begin_send();
    let (event, action) = task.on_send_result(true);
    assert_eq!(event.message, "Waiting for rebuild command");
    assert_eq!(action, AdvertiseAction::Stop);
    assert_eq!(task.state(), AdvertiseState::Done);
}

#[test]
fn failed_send_is_fatal_for_the_attempt() {
    let mut task = AdvertiseTask::new(sample_info());
    task.start();
    task.on_connect_success();
    task.begin_send();
    let (event, action) = task.on_send_result(false);
    assert_eq!(event.message, "Failed to send the advertisement");
    assert_eq!(action, AdvertiseAction::Stop);
    assert_eq!(task.state(), AdvertiseState::Failed);
}

#[test]
fn cancellation_during_retry_reaches_cancelled() {
    let mut task = AdvertiseTask::new(sample_info());
    task.start();
    task.on_connect_failure();
    assert_eq!(task.state(), AdvertiseState::Retrying);
    let (event, action) = task.request_cancel();
    assert_eq!(event.message, "Cancelled");
    assert_eq!(action, AdvertiseAction::Stop);
    assert_eq!(task.state(), AdvertiseState::Cancelled);
    assert_eq!(task.retry_count(), 1);
}

#[test]
fn cancellation_before_start_is_honoured() {
    let mut task = AdvertiseTask::new(sample_info());
    let (_, action) = task.request_cancel();
    assert_eq!(action, AdvertiseAction::Stop);
    assert_eq!(task.state(), AdvertiseState::Cancelled);
}

#[test]
fn decimal_rendering_is_exact() {
    assert_eq!(u32_to_decimal(0), "0");
    assert_eq!(u32_to_decimal(7), "7");
    assert_eq!(u32_to_decimal(42), "42");
    assert_eq!(u32_to_decimal(305), "305");
    assert_eq!(u32_to_decimal(u32::MAX), "4294967295");
}

#[test]
fn server_endpoint_is_fixed() {
    assert_eq!(server_ip(), (127, 0, 0, 1));
    assert_eq!(SERVER_PORT, 4056);
}

#[test]
fn config_types_hold_the_endpoint() {
    let config = Config { server: ServerConfig { address: (127, 0, 0, 1), port: SERVER_PORT } };
    assert_eq!(config.server.address, (127, 0, 0, 1));
    assert_eq!(config.server.port, 4056);
}

#[test]
fn server_message_variants_construct() {
    let listing = DeviceListing::new(sample_info(), 0);
    let messages = vec![
        ServerMessage::ConnectionSuccess(7),
        ServerMessage::StartBuilding,
        ServerMessage::DeviceList(vec![listing]),
    ];
    assert_eq!(messages.len(), 3);
}

#[test]
fn device_listing_records_identity_and_time() {
    let listing = DeviceListing::new(sample_info(), 1700000000000);
    assert_eq!(listing.info(), &sample_info());
    assert_eq!(listing.added(), 1700000000000);
}
