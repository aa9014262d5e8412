// Tests of the wire-protocol codec: pixel conversion, run-length
// compression, display modes and the command builder.

use displaylink_driver::command::CommandBuilder;
use displaylink_driver::mode::DisplayMode;
use displaylink_driver::rle::RLECompressor;

#[test]
fn test_bgra_to_rgb565() {
    // Test conversion: Red (255, 0, 0) -> 0xF800
    let rgb565 = RLECompressor::bgra_to_rgb565(0, 0, 255, 255);
    assert_eq!(rgb565, 0xF800);

    // Test conversion: Green (0, 255, 0) -> 0x07E0
    let rgb565 = RLECompressor::bgra_to_rgb565(0, 255, 0, 255);
    assert_eq!(rgb565, 0x07E0);

    // Test conversion: Blue (0, 0, 255) -> 0x001F
    let rgb565 = RLECompressor::bgra_to_rgb565(255, 0, 0, 255);
    assert_eq!(rgb565, 0x001F);
}

#[test]
fn test_rle_compression() {
    let mut compressor = RLECompressor::new();

    // Create a simple test framebuffer: 4 red pixels
    let framebuffer: Vec<u8> = vec![
        0, 0, 255, 255, // Red pixel (BGRA)
        0, 0, 255, 255, 0, 0, 255, 255, 0, 0, 255, 255,
    ];

    let compressed = compressor.compress(&framebuffer, 2, 2);

    // Should compress to: [4, 0x00, 0xF8] (4 pixels, RGB565 red = 0xF800)
    assert!(!compressed.is_empty());
    assert_eq!(compressed[0], 4); // Run length
}

#[test]
fn test_display_mode() {
    let mode = DisplayMode::mode_1920x1080_60();
    assert_eq!(mode.width, 1920);
    assert_eq!(mode.height, 1080);
    assert_eq!(mode.refresh_rate, 60);
}

#[test]
fn test_command_builder() {
    let mut builder = CommandBuilder::new();
    let mode = DisplayMode::mode_1920x1080_60();
    let cmd = builder.set_mode(&mode);
    assert!(!cmd.is_empty());
}

#[test]
fn test_rle_uniform_run_record() {
    // A uniform frame of 4 red pixels is exactly one run record:
    // [count, pixel-low, pixel-high] with 0xF800 little-endian.
    let mut compressor = RLECompressor::new();
    let framebuffer: Vec<u8> = vec![
        0, 0, 255, 255, 0, 0, 255, 255, 0, 0, 255, 255, 0, 0, 255, 255,
    ];
    let compressed = compressor.compress(&framebuffer, 2, 2);
    assert_eq!(compressed, &[4, 0x00, 0xF8]);
}

#[test]
fn test_rle_long_run_splits_at_255() {
    // 300 equal pixels: one full 255-run record, then the 45 remaining.
    let mut compressor = RLECompressor::new();
    let mut framebuffer: Vec<u8> = Vec::new();
    for _ in 0..300 {
        framebuffer.extend_from_slice(&[0, 0, 255, 255]);
    }
    let compressed = compressor.compress(&framebuffer, 300, 1);
    assert_eq!(compressed, &[255, 0x00, 0xF8, 45, 0x00, 0xF8]);
}

#[test]
fn test_rle_single_pixel_raw_escape() {
    // A run of length 1 is emitted as the raw escape record
    // [0xAF, 0x00, pixel-low, pixel-high].
    let mut compressor = RLECompressor::new();
    let framebuffer: Vec<u8> = vec![0, 0, 255, 255];
    let compressed = compressor.compress(&framebuffer, 1, 1);
    assert_eq!(compressed, &[0xAF, 0x00, 0x00, 0xF8]);
}

#[test]
fn test_rle_alternating_pixels() {
    // Red, green, red: no run forms, three raw escapes.
    let mut compressor = RLECompressor::new();
    let framebuffer: Vec<u8> = vec![
        0, 0, 255, 255, // red
        0, 255, 0, 255, // green
        0, 0, 255, 255, // red
    ];
    let compressed = compressor.compress(&framebuffer, 3, 1);
    assert_eq!(
        compressed,
        &[0xAF, 0x00, 0x00, 0xF8, 0xAF, 0x00, 0xE0, 0x07, 0xAF, 0x00, 0x00, 0xF8]
    );
}

#[test]
fn test_rle_truncates_short_buffer() {
    // A 2x2 frame backed by only 7 bytes holds one complete pixel:
    // the output covers exactly that pixel and nothing more.
    let mut compressor = RLECompressor::new();
    let framebuffer: Vec<u8> = vec![0, 0, 255, 255, 0, 0, 255];
    let compressed = compressor.compress(&framebuffer, 2, 2);
    assert_eq!(compressed, &[0xAF, 0x00, 0x00, 0xF8]);
}

#[test]
fn test_rle_empty_input() {
    let mut compressor = RLECompressor::new();
    let framebuffer: Vec<u8> = Vec::new();
    let compressed = compressor.compress(&framebuffer, 0, 0);
    assert!(compressed.is_empty());
}

#[test]
fn test_rle_nonempty_for_nonempty_input() {
    // Any frame with at least one complete pixel compresses to at
    // least one record.
    let mut compressor = RLECompressor::new();
    let framebuffer: Vec<u8> = vec![12, 34, 56, 78];
    let compressed = compressor.compress(&framebuffer, 1, 1);
    assert!(compressed.len() >= 3);
}

#[test]
fn test_rle_reset_clears_output() {
    let mut compressor = RLECompressor::new();
    let framebuffer: Vec<u8> = vec![0, 0, 255, 255];
    compressor.compress(&framebuffer, 1, 1);
    compressor.reset();
    let empty: Vec<u8> = Vec::new();
    let compressed = compressor.compress(&empty, 0, 0);
    assert!(compressed.is_empty());
}

#[test]
fn test_set_mode_first_register_write() {
    // The first record programs the width: 1920 = 0x0780 little-endian
    // at register 0x1000.
    let mut builder = CommandBuilder::new();
    let mode = DisplayMode::mode_1920x1080_60();
    let cmd = builder.set_mode(&mode);
    assert_eq!(&cmd[0..6], &[0xAF, 0x20, 0x00, 0x10, 0x80, 0x07]);
}

#[test]
fn test_set_mode_is_eleven_records() {
    // 8 timing writes, a two-part pixel clock, output enable: 11
    // records of 6 bytes, each opening with the marker and opcode.
    let mut builder = CommandBuilder::new();
    let mode = DisplayMode::mode_1280x720_60();
    let cmd = builder.set_mode(&mode);
    assert_eq!(cmd.len(), 66);
    for k in 0..11 {
        assert_eq!(cmd[6 * k], 0xAF);
        assert_eq!(cmd[6 * k + 1], 0x20);
    }
}

#[test]
fn test_blank_screen_commands() {
    let mut builder = CommandBuilder::new();
    let blank = builder.blank_screen(true).to_vec();
    assert_eq!(blank, vec![0xAF, 0x20, 0x00, 0x1F, 0x01, 0x00]);
    let unblank = builder.blank_screen(false).to_vec();
    assert_eq!(unblank, vec![0xAF, 0x20, 0x00, 0x1F, 0x00, 0x00]);
}

#[test]
fn test_damage_rect_command() {
    let mut builder = CommandBuilder::new();
    let cmd = builder.damage_rect(16, 32, 640, 480);
    assert_eq!(cmd.len(), 24);
    // x = 16 at 0x2000
    assert_eq!(&cmd[0..6], &[0xAF, 0x20, 0x00, 0x20, 0x10, 0x00]);
    // y = 32 at 0x2002
    assert_eq!(&cmd[6..12], &[0xAF, 0x20, 0x02, 0x20, 0x20, 0x00]);
    // width = 640 = 0x0280 at 0x2004
    assert_eq!(&cmd[12..18], &[0xAF, 0x20, 0x04, 0x20, 0x80, 0x02]);
    // height = 480 = 0x01E0 at 0x2006
    assert_eq!(&cmd[18..24], &[0xAF, 0x20, 0x06, 0x20, 0xE0, 0x01]);
}

#[test]
fn test_sync_command() {
    let mut builder = CommandBuilder::new();
    let cmd = builder.sync().to_vec();
    assert_eq!(cmd, vec![0xAF, 0x20, 0x00, 0xFF, 0xFF, 0xFF]);
}

#[test]
fn test_set_mode_pixel_clock_split() {
    // 148500 kHz = 0x00024414: low half 0x4414 at 0x1010, high half
    // 0x0002 at 0x1012.
    let mut builder = CommandBuilder::new();
    let mode = DisplayMode::mode_1920x1080_60();
    let cmd = builder.set_mode(&mode).to_vec();
    assert_eq!(&cmd[48..54], &[0xAF, 0x20, 0x10, 0x10, 0x14, 0x44]);
    assert_eq!(&cmd[54..60], &[0xAF, 0x20, 0x12, 0x10, 0x02, 0x00]);
}

#[test]
fn test_mode_presets() {
    let m720 = DisplayMode::mode_1280x720_60();
    assert_eq!(m720.width, 1280);
    assert_eq!(m720.height, 720);
    assert_eq!(m720.pixel_clock, 74250);
    assert_eq!(m720.htotal, 1650);
    assert_eq!(m720.vtotal, 750);

    let m768 = DisplayMode::mode_1024x768_60();
    assert_eq!(m768.width, 1024);
    assert_eq!(m768.height, 768);
    assert_eq!(m768.pixel_clock, 65000);
    assert_eq!(m768.htotal, 1344);
    assert_eq!(m768.vtotal, 806);
}
