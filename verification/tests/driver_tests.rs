// Tests of the per-device driver state machine, the chunked send plan,
// the device-manager registry and the network-adapter policy.

use displaylink_driver::driver::{
    chunk_payload, dpms_should_blank, BufferInfo, DriverEvent, DriverPhase, DriverState,
    EventResponse,
};
use displaylink_driver::identity::device_label;
use displaylink_driver::manager::{DeviceInfo, DisplayLinkManager, InitDecision};
use displaylink_driver::network::{
    network_enabled, should_claim_network, KernelDriverStatus, NETWORK_INTERFACE,
    NET_BULK_IN_ENDPOINT, NET_BULK_OUT_ENDPOINT,
};

fn target_device(bus: u8, address: u8) -> DeviceInfo {
    DeviceInfo { vendor_id: 0x17E9, product_id: 0x4307, bus, address }
}

#[test]
fn test_network_constants() {
    assert_eq!(NETWORK_INTERFACE, 5);
    assert_eq!(NET_BULK_OUT_ENDPOINT, 0x05);
    assert_eq!(NET_BULK_IN_ENDPOINT, 0x85);
}

#[test]
fn test_network_adapter_creation() {
    // Note: This test requires a mock USB handle
    // In production, would use proper mocking framework
    println!("Network adapter module compiled successfully");
}

#[test]
fn test_network_claim_policy() {
    // A kernel driver in place: defer, never claim, never enabled.
    assert!(!should_claim_network(KernelDriverStatus::Active));
    assert!(!network_enabled(KernelDriverStatus::Active, true));
    // Unclaimed interface: attempt the claim; enabled only on success.
    assert!(should_claim_network(KernelDriverStatus::Inactive));
    assert!(network_enabled(KernelDriverStatus::Inactive, true));
    assert!(!network_enabled(KernelDriverStatus::Inactive, false));
    // A failed status query still attempts the claim.
    assert!(should_claim_network(KernelDriverStatus::Unknown));
    assert!(network_enabled(KernelDriverStatus::Unknown, true));
}

#[test]
fn test_device_label_format() {
    assert_eq!(device_label(1, 10), "1:10");
    assert_eq!(device_label(0, 0), "0:0");
    assert_eq!(device_label(255, 255), "255:255");
    assert_eq!(device_label(12, 3), "12:3");
}

#[test]
fn test_device_label_distinguishes_pairs() {
    // The pairs (1, 23) and (12, 3) must not collide.
    assert_ne!(device_label(1, 23), device_label(12, 3));
    assert_eq!(device_label(7, 9), device_label(7, 9));
}

#[test]
fn test_manager_scan_decisions() {
    let mut manager = DisplayLinkManager::new();
    assert_eq!(manager.device_count(), 0);

    let foreign = DeviceInfo { vendor_id: 0x1234, product_id: 0x4307, bus: 1, address: 4 };
    assert_eq!(manager.plan_device(foreign), InitDecision::NotOurs);

    let dock = target_device(1, 4);
    assert_eq!(manager.plan_device(dock), InitDecision::Initialize);
    manager.commit_device(dock);
    assert_eq!(manager.device_count(), 1);
    assert_eq!(manager.plan_device(dock), InitDecision::AlreadyActive);
}

#[test]
fn test_rescan_keeps_count_stable() {
    // Scanning the same hardware again initializes nothing and the
    // count stays put.
    let mut manager = DisplayLinkManager::new();
    let first = target_device(1, 4);
    let second = target_device(2, 7);
    for device in [first, second] {
        if manager.plan_device(device) == InitDecision::Initialize {
            manager.commit_device(device);
        }
    }
    assert_eq!(manager.device_count(), 2);
    for _ in 0..3 {
        for device in [first, second] {
            assert_ne!(manager.plan_device(device), InitDecision::Initialize);
            if manager.plan_device(device) == InitDecision::Initialize {
                manager.commit_device(device);
            }
        }
    }
    assert_eq!(manager.device_count(), 2);
}

#[test]
fn test_driver_lifecycle() {
    let mut driver = DriverState::new();
    assert_eq!(driver.phase, DriverPhase::Constructed);

    let probe = driver.begin_initialize();
    assert_eq!(driver.phase, DriverPhase::Initializing);
    assert_eq!(probe.test_packet, vec![0u8; 64]);
    assert_eq!(probe.blank_cmd, vec![0xAF, 0x20, 0x00, 0x1F, 0x01, 0x00]);

    driver.probe_result(true);
    assert_eq!(driver.phase, DriverPhase::Running);

    driver.request_stop();
    assert!(driver.poll_should_run() == false);
    assert_eq!(driver.phase, DriverPhase::Stopping);

    driver.finish_teardown();
    assert_eq!(driver.phase, DriverPhase::Terminated);
}

#[test]
fn test_failed_probe_stops_driver() {
    let mut driver = DriverState::new();
    driver.begin_initialize();
    driver.probe_result(false);
    assert_eq!(driver.phase, DriverPhase::Stopping);
    driver.finish_teardown();
    assert_eq!(driver.phase, DriverPhase::Terminated);
}

#[test]
fn test_buffer_ids_are_monotonic() {
    let mut driver = DriverState::new();
    driver.begin_initialize();
    driver.probe_result(true);
    let first: BufferInfo = driver.register_buffer(4, 2);
    let second: BufferInfo = driver.register_buffer(8, 8);
    assert_eq!(first.id, 0);
    assert_eq!(second.id, 1);
    assert_eq!(first.stride, 16);
    assert_eq!(second.stride, 32);
}

#[test]
fn test_mode_change_emits_mode_set_and_unblank() {
    let mut driver = DriverState::new();
    driver.begin_initialize();
    driver.probe_result(true);
    match driver.handle_event(DriverEvent::ModeChanged {
        width: 1920,
        height: 1080,
        refresh_rate: 60,
    }) {
        EventResponse::SetMode { mode_cmd, unblank_cmd } => {
            assert_eq!(mode_cmd.len(), 66);
            assert_eq!(&mode_cmd[0..6], &[0xAF, 0x20, 0x00, 0x10, 0x80, 0x07]);
            assert_eq!(unblank_cmd, vec![0xAF, 0x20, 0x00, 0x1F, 0x00, 0x00]);
        }
        _ => panic!("a supported mode change must emit a mode-set plan"),
    }
}

#[test]
fn test_generic_mode_formula() {
    // 800x600@60: blanking 160 and 20, pixel clock
    // 960 * 620 * 60 / 1000 = 35712 kHz.
    let mut driver = DriverState::new();
    driver.begin_initialize();
    driver.probe_result(true);
    match driver.handle_event(DriverEvent::ModeChanged {
        width: 800,
        height: 600,
        refresh_rate: 60,
    }) {
        EventResponse::SetMode { mode_cmd, .. } => {
            // width 800 = 0x0320 at 0x1000
            assert_eq!(&mode_cmd[0..6], &[0xAF, 0x20, 0x00, 0x10, 0x20, 0x03]);
            // horizontal blanking 160 = 0x00A0 at 0x1002
            assert_eq!(&mode_cmd[6..12], &[0xAF, 0x20, 0x02, 0x10, 0xA0, 0x00]);
            // pixel clock low half: 35712 = 0x8B80 at 0x1010
            assert_eq!(&mode_cmd[48..54], &[0xAF, 0x20, 0x10, 0x10, 0x80, 0x8B]);
        }
        _ => panic!("a supported mode change must emit a mode-set plan"),
    }
}

#[test]
fn test_unsupported_mode_is_dropped() {
    let mut driver = DriverState::new();
    driver.begin_initialize();
    driver.probe_result(true);
    let response = driver.handle_event(DriverEvent::ModeChanged {
        width: 0,
        height: 600,
        refresh_rate: 60,
    });
    assert!(matches!(response, EventResponse::Ignored));
}

#[test]
fn test_update_ready_full_path() {
    // End to end: a 2x2 all-red surface compresses to [4, 0x00, 0xF8],
    // framed by a full-screen damage rectangle and a sync.
    let mut driver = DriverState::new();
    driver.begin_initialize();
    driver.probe_result(true);
    let info = driver.register_buffer(2, 2);
    let red_frame: Vec<u8> = [0u8, 0, 255, 255].repeat(4);
    assert!(driver.write_buffer(info.id, &red_frame));
    match driver.handle_event(DriverEvent::UpdateReady { buffer_id: info.id }) {
        EventResponse::SendFrame { damage_cmd, pixel_chunks, sync_cmd } => {
            assert_eq!(damage_cmd.len(), 24);
            // Full-screen rectangle at the origin.
            assert_eq!(&damage_cmd[0..6], &[0xAF, 0x20, 0x00, 0x20, 0x00, 0x00]);
            assert_eq!(&damage_cmd[18..24], &[0xAF, 0x20, 0x06, 0x20, 0x02, 0x00]);
            let stream: Vec<u8> = pixel_chunks.concat();
            assert_eq!(stream, vec![4, 0x00, 0xF8]);
            assert_eq!(sync_cmd, vec![0xAF, 0x20, 0x00, 0xFF, 0xFF, 0xFF]);
        }
        _ => panic!("an update for a registered buffer must emit a frame plan"),
    }
}

#[test]
fn test_update_for_unknown_buffer_is_dropped() {
    let mut driver = DriverState::new();
    driver.begin_initialize();
    driver.probe_result(true);
    let response = driver.handle_event(DriverEvent::UpdateReady { buffer_id: 5 });
    assert!(matches!(response, EventResponse::Ignored));
}

#[test]
fn test_write_buffer_rejects_wrong_size() {
    let mut driver = DriverState::new();
    driver.begin_initialize();
    driver.probe_result(true);
    let info = driver.register_buffer(2, 2);
    assert!(!driver.write_buffer(info.id, &[0u8; 3]));
    assert!(!driver.write_buffer(99, &[0u8; 16]));
    assert!(driver.write_buffer(info.id, &[0u8; 16]));
}

#[test]
fn test_dpms_off_blanks_before_on_unblanks() {
    // A DPMS code of 3 (off) must yield a blank command before a code
    // of 0 (on) yields the unblank.
    let mut driver = DriverState::new();
    driver.begin_initialize();
    driver.probe_result(true);
    assert!(dpms_should_blank(3));
    assert!(!dpms_should_blank(0));
    let off = driver.handle_event(DriverEvent::PowerStateChanged { dpms_mode: 3 });
    let blank_bytes = match off {
        EventResponse::SetBlanking { blank_cmd } => blank_cmd,
        _ => panic!("a power event must emit a blanking command"),
    };
    assert_eq!(blank_bytes, vec![0xAF, 0x20, 0x00, 0x1F, 0x01, 0x00]);
    let on = driver.handle_event(DriverEvent::PowerStateChanged { dpms_mode: 0 });
    let unblank_bytes = match on {
        EventResponse::SetBlanking { blank_cmd } => blank_cmd,
        _ => panic!("a power event must emit a blanking command"),
    };
    assert_eq!(unblank_bytes, vec![0xAF, 0x20, 0x00, 0x1F, 0x00, 0x00]);
}

#[test]
fn test_cursor_and_crtc_events_have_no_protocol_effect() {
    let mut driver = DriverState::new();
    driver.begin_initialize();
    driver.probe_result(true);
    let events = [
        DriverEvent::CrtcStateChanged { state: 1 },
        DriverEvent::CursorSet { width: 64, height: 64, hot_x: 0, hot_y: 0 },
        DriverEvent::CursorMove { x: 10, y: 20 },
        DriverEvent::VendorDataReceived,
    ];
    for event in events {
        assert!(matches!(driver.handle_event(event), EventResponse::Ignored));
    }
}

#[test]
fn test_chunk_payload_splits_at_transfer_size() {
    let payload: Vec<u8> = vec![7u8; 40000];
    let chunks = chunk_payload(&payload);
    assert_eq!(chunks.len(), 3);
    assert_eq!(chunks[0].len(), 16384);
    assert_eq!(chunks[1].len(), 16384);
    assert_eq!(chunks[2].len(), 7232);
    assert_eq!(chunks.concat(), payload);
}

#[test]
fn test_chunk_payload_small_and_empty() {
    let chunks = chunk_payload(&[1, 2, 3]);
    assert_eq!(chunks.len(), 1);
    assert_eq!(chunks[0], vec![1, 2, 3]);
    let none = chunk_payload(&[]);
    assert!(none.is_empty());
}
