// Driver-wide tests: constants, arithmetic of the protocol, device
// identities, buffers and power management.

use displaylink_driver::identity::device_label;
use std::time::Duration;

#[test]
fn test_mode_configurations() {
    // Test standard display mode constants
    // Standard resolutions
    assert_eq!(1920 * 1080, 2_073_600); // Full HD pixels
    assert_eq!(1280 * 720, 921_600); // HD pixels
    assert_eq!(1024 * 768, 786_432); // XGA pixels
}

#[test]
fn test_rle_compression_concept() {
    // Test RLE compression concept
    // RLE compresses repeated pixels efficiently

    // 4 identical pixels should compress to a single run
    let repeated_pixel_size: i32 = 3; // [count, pixel_low, pixel_high]
    let original_size: i32 = 4 * 4; // 4 pixels * 4 bytes (BGRA)

    assert!(
        repeated_pixel_size < original_size,
        "RLE should compress repeated pixels"
    );
}

#[test]
fn test_color_conversion_math() {
    // Test BGRA32 to RGB565 conversion math
    // Red (255, 0, 0) in RGB
    let r8 = 255u8;
    let r5 = (r8 >> 3) as u16; // 5 bits
    let rgb565_red = r5 << 11;
    assert_eq!(rgb565_red, 0xF800, "Red conversion");

    // Green (0, 255, 0) in RGB
    let g8 = 255u8;
    let g6 = (g8 >> 2) as u16; // 6 bits
    let rgb565_green = g6 << 5;
    assert_eq!(rgb565_green, 0x07E0, "Green conversion");

    // Blue (0, 0, 255) in RGB
    let b8 = 255u8;
    let b5 = (b8 >> 3) as u16; // 5 bits
    assert_eq!(b5, 0x001F, "Blue conversion");
}

#[test]
fn test_command_structure() {
    // Test DisplayLink command structure
    // Register write command: [0xAF, 0x20, addr_low, addr_high, val_low, val_high]
    let cmd_header = vec![0xAF, 0x20];
    let addr = 0x1000u16.to_le_bytes();
    let value = 0x0780u16.to_le_bytes();

    let mut command = Vec::new();
    command.extend_from_slice(&cmd_header);
    command.extend_from_slice(&addr);
    command.extend_from_slice(&value);

    assert_eq!(command.len(), 6, "Command should be 6 bytes");
    assert_eq!(command[0], 0xAF, "Command marker");
    assert_eq!(command[1], 0x20, "Register write opcode");
}

#[test]
fn test_multi_monitor_device_id() {
    // Test device ID generation for multi-monitor support
    let device_id_1 = device_label(1, 10);
    let device_id_2 = device_label(1, 11);

    assert_ne!(
        device_id_1, device_id_2,
        "Different devices should have different IDs"
    );
}

#[test]
fn test_buffer_allocation() {
    // Test framebuffer allocation
    let width: i32 = 1920;
    let height: i32 = 1080;
    let stride: i32 = width * 4; // BGRA
    let buffer_size = (stride * height) as usize;

    let buffer: Vec<u8> = vec![0u8; buffer_size];

    assert_eq!(
        buffer.len(),
        buffer_size,
        "Buffer should be properly allocated"
    );
}

#[test]
fn test_timing_constants() {
    // Test USB timeout constants
    let control_timeout = Duration::from_secs(1);
    let bulk_timeout = Duration::from_secs(2);

    assert!(
        control_timeout > Duration::from_millis(0),
        "Control timeout should be positive"
    );
    assert!(
        bulk_timeout > Duration::from_millis(0),
        "Bulk timeout should be positive"
    );
    assert!(
        bulk_timeout > control_timeout,
        "Bulk timeout should be longer than control"
    );
}

#[test]
fn test_performance_calculations() {
    // Test buffer size calculations for performance
    // Full HD buffer size
    let buffer_size: i64 = 1920 * 1080 * 4; // BGRA
    assert_eq!(buffer_size, 8_294_400, "Full HD buffer size");

    // Max USB transfer size
    let max_transfer: i64 = 16384; // 16KB
    let chunks = (buffer_size + max_transfer - 1) / max_transfer;
    assert!(chunks > 500, "Should need multiple chunks for Full HD");
}

#[test]
fn test_dpms_states() {
    // Test DPMS power management states
    let dpms_on: i32 = 0;
    let dpms_off: i32 = 3;

    // Test state logic
    let should_blank_on = dpms_on != 0;
    let should_blank_off = dpms_off != 0;

    assert!(!should_blank_on, "Should not blank when ON");
    assert!(should_blank_off, "Should blank when OFF");
}
