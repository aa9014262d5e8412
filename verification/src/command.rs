//! Register-write command encoding.
//!
//! Every command the device understands is a sequence of 6-byte register
//! writes `[0xAF, 0x20, addr-low, addr-high, value-low, value-high]`;
//! a 32-bit value is split into two consecutive 16-bit writes at `addr`
//! and `addr + 2`.

use crate::mode::DisplayMode;
use crate::rle::le16;
use vstd::prelude::*;

verus! {

/// Control-transfer direction: host to device.
pub const USB_DIR_OUT: u8 = 0x00;

/// Control-transfer direction: device to host.
pub const USB_DIR_IN: u8 = 0x80;

/// Vendor-specific request type.
pub const USB_TYPE_VENDOR: u8 = 0x40;

/// Request recipient: the device itself.
pub const USB_RECIP_DEVICE: u8 = 0x00;

/// Vendor request: write a register.
pub const DL_USB_REQUEST_WRITE_REG: u8 = 0x01;

/// Vendor request: read a register.
pub const DL_USB_REQUEST_READ_REG: u8 = 0x02;

/// Vendor request: channel command.
pub const DL_USB_REQUEST_CHANNEL: u8 = 0x12;

/// Channel command value: initialize.
pub const DL_CHAN_CMD_INIT: u16 = 0x0000;

/// Channel command value: blank.
pub const DL_CHAN_CMD_BLANK: u16 = 0x00FF;

/// Bulk transfers carry no extra header.
pub const DL_BULK_HEADER_SIZE: usize = 0;

/// Escape byte that opens every command record.
pub const CMD_MARKER: u8 = 0xAF;

/// Opcode of a register write, following the marker byte.
pub const CMD_WRITE_REG: u8 = 0x20;

/// Register that blanks or unblanks the panel.
pub const DL_REG_BLANK: u16 = 0x1F00;

/// Register whose write flushes the pending frame to the panel.
pub const DL_REG_SYNC: u16 = 0xFF00;

/// One 6-byte register-write record.
pub open spec fn reg16_record(addr: u16, value: u16) -> Seq<u8> {
    seq![CMD_MARKER, CMD_WRITE_REG] + le16(addr) + le16(value)
}

/// A 32-bit write: low half at `addr`, high half at `addr + 2`.
pub open spec fn reg32_records(addr: u16, value: u32) -> Seq<u8> {
    reg16_record(addr, (value % 0x10000) as u16) + reg16_record(
        (addr + 2) as u16,
        (value / 0x10000) as u16,
    )
}

/// The full mode-set command: the eight 16-bit timing registers at
/// `0x1000`..`0x100E` (active size, blanking, sync offset and sync width
/// per axis), the 32-bit pixel clock at `0x1010`, and the output-enable
/// write at `0x1014` — 11 register writes, 66 bytes.
pub open spec fn mode_cmd_spec(m: DisplayMode) -> Seq<u8> {
    reg16_record(0x1000, m.width as u16) + reg16_record(0x1002, (m.htotal - m.width) as u16)
        + reg16_record(0x1004, (m.hsync_start - m.width) as u16) + reg16_record(
        0x1006,
        (m.hsync_end - m.hsync_start) as u16,
    ) + reg16_record(0x1008, m.height as u16) + reg16_record(
        0x100A,
        (m.vtotal - m.height) as u16,
    ) + reg16_record(0x100C, (m.vsync_start - m.height) as u16) + reg16_record(
        0x100E,
        (m.vsync_end - m.vsync_start) as u16,
    ) + reg32_records(0x1010, m.pixel_clock) + reg16_record(0x1014, 0x0001)
}

/// The blank (or unblank) command.
pub open spec fn blank_cmd_spec(blank: bool) -> Seq<u8> {
    reg16_record(DL_REG_BLANK, if blank { 0x0001u16 } else { 0x0000u16 })
}

/// The damage-rectangle command: x, y, width, height at `0x2000`..`0x2006`.
pub open spec fn damage_cmd_spec(x: u16, y: u16, width: u16, height: u16) -> Seq<u8> {
    reg16_record(0x2000, x) + reg16_record(0x2002, y) + reg16_record(0x2004, width)
        + reg16_record(0x2006, height)
}

/// The sync/flush command.
pub open spec fn sync_cmd_spec() -> Seq<u8> {
    reg16_record(DL_REG_SYNC, 0xFFFF)
}

/// Command encoder. The command buffer is owned by the builder, cleared
/// and rebuilt by every operation; its view is the bytes it holds.
pub struct CommandBuilder {
    buffer: Vec<u8>,
}

impl View for CommandBuilder {
    type V = Seq<u8>;

    closed spec fn view(&self) -> Seq<u8> {
        self.buffer@
    }
}

impl CommandBuilder {
    pub fn new() -> (c: Self)
        ensures
            c@.len() == 0,
    {
        CommandBuilder { buffer: Vec::with_capacity(256) }
    }

    /// Append one 6-byte register write.
    fn write_reg16(&mut self, addr: u16, value: u16)
        ensures
            final(self)@ == old(self)@ + reg16_record(addr, value),
    {
        self.buffer.push(CMD_MARKER);
        self.buffer.push(CMD_WRITE_REG);
        self.buffer.push((addr % 256) as u8);
        self.buffer.push((addr / 256) as u8);
        self.buffer.push((value % 256) as u8);
        self.buffer.push((value / 256) as u8);
        proof {
            assert(final(self)@ =~= old(self)@ + reg16_record(addr, value));
        }
    }

    /// Append a 32-bit value as two 16-bit writes.
    fn write_reg32(&mut self, addr: u16, value: u32)
        requires
            addr + 2 <= 0xFFFF,
        ensures
            final(self)@ == old(self)@ + reg32_records(addr, value),
    {
        self.write_reg16(addr, (value % 0x10000) as u16);
        self.write_reg16(addr + 2, (value / 0x10000) as u16);
        proof {
            assert(final(self)@ =~= old(self)@ + reg32_records(addr, value));
        }
    }

    /// Build the mode-set command for `mode`.
    pub fn set_mode(&mut self, mode: &DisplayMode) -> (cmd: &[u8])
        requires
            mode.encodable(),
        ensures
            final(self)@ == mode_cmd_spec(*mode),
            cmd@ == final(self)@,
    {
        self.buffer.clear();

        // Horizontal timing: active size, blanking, sync offset, sync width.
        self.write_reg16(0x1000, mode.width as u16);
        self.write_reg16(0x1002, (mode.htotal - mode.width) as u16);
        self.write_reg16(0x1004, (mode.hsync_start - mode.width) as u16);
        self.write_reg16(0x1006, (mode.hsync_end - mode.hsync_start) as u16);

        // Vertical timing.
        self.write_reg16(0x1008, mode.height as u16);
        self.write_reg16(0x100A, (mode.vtotal - mode.height) as u16);
        self.write_reg16(0x100C, (mode.vsync_start - mode.height) as u16);
        self.write_reg16(0x100E, (mode.vsync_end - mode.vsync_start) as u16);

        // Pixel clock in kHz, then output enable.
        self.write_reg32(0x1010, mode.pixel_clock);
        self.write_reg16(0x1014, 0x0001);

        proof {
            assert(final(self)@ =~= mode_cmd_spec(*mode));
        }
        self.buffer.as_slice()
    }

    /// Build the blank (`true`) or unblank (`false`) command.
    pub fn blank_screen(&mut self, blank: bool) -> (cmd: &[u8])
        ensures
            final(self)@ == blank_cmd_spec(blank),
            cmd@ == final(self)@,
    {
        self.buffer.clear();
        self.write_reg16(DL_REG_BLANK, if blank { 0x0001 } else { 0x0000 });
        proof {
            assert(final(self)@ =~= blank_cmd_spec(blank));
        }
        self.buffer.as_slice()
    }

    /// Build the damage-rectangle command for the given region.
    pub fn damage_rect(&mut self, x: u16, y: u16, width: u16, height: u16) -> (cmd: &[u8])
        ensures
            final(self)@ == damage_cmd_spec(x, y, width, height),
            cmd@ == final(self)@,
    {
        self.buffer.clear();
        self.write_reg16(0x2000, x);
        self.write_reg16(0x2002, y);
        self.write_reg16(0x2004, width);
        self.write_reg16(0x2006, height);
        proof {
            assert(final(self)@ =~= damage_cmd_spec(x, y, width, height));
        }
        self.buffer.as_slice()
    }

    /// Build the sync/flush command.
    pub fn sync(&mut self) -> (cmd: &[u8])
        ensures
            final(self)@ == sync_cmd_spec(),
            cmd@ == final(self)@,
    {
        self.buffer.clear();
        self.write_reg16(DL_REG_SYNC, 0xFFFF);
        proof {
            assert(final(self)@ =~= sync_cmd_spec());
        }
        self.buffer.as_slice()
    }

    /// Drop the contents of the command buffer.
    pub fn reset(&mut self)
        ensures
            final(self)@.len() == 0,
    {
        self.buffer.clear();
    }
}

/// Law: the mode-set command is always exactly 11 register-write records,
/// each 6 bytes long — 66 bytes in all, a record boundary every 6 bytes
/// opening with the marker and the register-write opcode — whatever the
/// (encodable) mode.
pub proof fn lemma_mode_cmd_shape(m: DisplayMode)
    requires
        m.encodable(),
    ensures
        mode_cmd_spec(m).len() == 66,
        forall|k: int|
            0 <= k < 11 ==> #[trigger] mode_cmd_spec(m)[6 * k] == CMD_MARKER && mode_cmd_spec(
                m,
            )[6 * k + 1] == CMD_WRITE_REG,
{
    let s = mode_cmd_spec(m);
    assert(s.len() == 66);
    assert forall|k: int| 0 <= k < 11 implies #[trigger] s[6 * k] == CMD_MARKER && s[6 * k + 1]
        == CMD_WRITE_REG by {
        assert(s[0] == CMD_MARKER && s[1] == CMD_WRITE_REG);
        assert(s[6] == CMD_MARKER && s[7] == CMD_WRITE_REG);
        assert(s[12] == CMD_MARKER && s[13] == CMD_WRITE_REG);
        assert(s[18] == CMD_MARKER && s[19] == CMD_WRITE_REG);
        assert(s[24] == CMD_MARKER && s[25] == CMD_WRITE_REG);
        assert(s[30] == CMD_MARKER && s[31] == CMD_WRITE_REG);
        assert(s[36] == CMD_MARKER && s[37] == CMD_WRITE_REG);
        assert(s[42] == CMD_MARKER && s[43] == CMD_WRITE_REG);
        assert(s[48] == CMD_MARKER && s[49] == CMD_WRITE_REG);
        assert(s[54] == CMD_MARKER && s[55] == CMD_WRITE_REG);
        assert(s[60] == CMD_MARKER && s[61] == CMD_WRITE_REG);
    }
}

} // verus!
