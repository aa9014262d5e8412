//! Display modes: resolution, refresh rate and the full sync timing the
//! hardware's timing controller is programmed with.

use vstd::prelude::*;

verus! {

/// One display mode. Sizes and sync positions are in pixels (horizontal)
/// or lines (vertical); `refresh_rate` is in Hz and `pixel_clock` in kHz.
#[derive(Debug, Clone, Copy, PartialEq, Eq, Structural)]
pub struct DisplayMode {
    pub width: u32,
    pub height: u32,
    pub refresh_rate: u32,
    pub pixel_clock: u32,
    pub hsync_start: u32,
    pub hsync_end: u32,
    pub htotal: u32,
    pub vsync_start: u32,
    pub vsync_end: u32,
    pub vtotal: u32,
}

impl DisplayMode {
    /// The mode can be written to the 16-bit timing registers: every
    /// value and every difference the encoder takes is in range.
    pub open spec fn encodable(self) -> bool {
        &&& self.width <= self.hsync_start <= self.hsync_end <= 0xFFFF
        &&& self.width <= self.htotal <= 0xFFFF
        &&& self.height <= self.vsync_start <= self.vsync_end <= 0xFFFF
        &&& self.height <= self.vtotal <= 0xFFFF
    }

    /// The timing invariant of a fully-formed mode: on each axis the sync
    /// pulse starts after the active area, ends after it starts, and the
    /// total exceeds both.
    pub open spec fn timing_wf(self) -> bool {
        &&& 0 < self.width <= self.hsync_start < self.hsync_end < self.htotal <= 0xFFFF
        &&& 0 < self.height <= self.vsync_start < self.vsync_end < self.vtotal <= 0xFFFF
    }

    /// Standard 1920x1080 at 60 Hz.
    pub fn mode_1920x1080_60() -> (m: Self)
        ensures
            m == (DisplayMode {
                width: 1920,
                height: 1080,
                refresh_rate: 60,
                pixel_clock: 148500,
                hsync_start: 2008,
                hsync_end: 2052,
                htotal: 2200,
                vsync_start: 1084,
                vsync_end: 1089,
                vtotal: 1125,
            }),
            m.timing_wf(),
            m.encodable(),
    {
        DisplayMode {
            width: 1920,
            height: 1080,
            refresh_rate: 60,
            pixel_clock: 148500,  // kHz
            hsync_start: 1920 + 88,
            hsync_end: 1920 + 88 + 44,
            htotal: 2200,
            vsync_start: 1080 + 4,
            vsync_end: 1080 + 4 + 5,
            vtotal: 1125,
        }
    }

    /// Standard 1280x720 at 60 Hz.
    pub fn mode_1280x720_60() -> (m: Self)
        ensures
            m == (DisplayMode {
                width: 1280,
                height: 720,
                refresh_rate: 60,
                pixel_clock: 74250,
                hsync_start: 1390,
                hsync_end: 1430,
                htotal: 1650,
                vsync_start: 725,
                vsync_end: 730,
                vtotal: 750,
            }),
            m.timing_wf(),
            m.encodable(),
    {
        DisplayMode {
            width: 1280,
            height: 720,
            refresh_rate: 60,
            pixel_clock: 74250,  // kHz
            hsync_start: 1280 + 110,
            hsync_end: 1280 + 110 + 40,
            htotal: 1650,
            vsync_start: 720 + 5,
            vsync_end: 720 + 5 + 5,
            vtotal: 750,
        }
    }

    /// Standard 1024x768 at 60 Hz.
    pub fn mode_1024x768_60() -> (m: Self)
        ensures
            m == (DisplayMode {
                width: 1024,
                height: 768,
                refresh_rate: 60,
                pixel_clock: 65000,
                hsync_start: 1048,
                hsync_end: 1184,
                htotal: 1344,
                vsync_start: 771,
                vsync_end: 777,
                vtotal: 806,
            }),
            m.timing_wf(),
            m.encodable(),
    {
        DisplayMode {
            width: 1024,
            height: 768,
            refresh_rate: 60,
            pixel_clock: 65000,  // kHz
            hsync_start: 1024 + 24,
            hsync_end: 1024 + 24 + 136,
            htotal: 1344,
            vsync_start: 768 + 3,
            vsync_end: 768 + 3 + 6,
            vtotal: 806,
        }
    }
}

/// The generic blanking intervals used when no preset matches: a fifth of
/// the width and a thirtieth of the height.
pub open spec fn spec_h_blank(width: u32) -> int {
    width as int / 5
}

pub open spec fn spec_v_blank(height: u32) -> int {
    height as int / 30
}

/// The mode the driver derives for an observed resolution: the exact
/// preset for the three known resolutions, otherwise the generic
/// blanking-ratio formula with
/// `pixel_clock = (width + h_blank) * (height + v_blank) * refresh / 1000`.
pub open spec fn derived_mode(width: u32, height: u32, refresh_rate: u32) -> DisplayMode {
    if width == 1920 && height == 1080 {
        DisplayMode {
            width: 1920,
            height: 1080,
            refresh_rate,
            pixel_clock: 148500,
            hsync_start: 2008,
            hsync_end: 2052,
            htotal: 2200,
            vsync_start: 1084,
            vsync_end: 1089,
            vtotal: 1125,
        }
    } else if width == 1280 && height == 720 {
        DisplayMode {
            width: 1280,
            height: 720,
            refresh_rate,
            pixel_clock: 74250,
            hsync_start: 1390,
            hsync_end: 1430,
            htotal: 1650,
            vsync_start: 725,
            vsync_end: 730,
            vtotal: 750,
        }
    } else if width == 1024 && height == 768 {
        DisplayMode {
            width: 1024,
            height: 768,
            refresh_rate,
            pixel_clock: 65000,
            hsync_start: 1048,
            hsync_end: 1184,
            htotal: 1344,
            vsync_start: 771,
            vsync_end: 777,
            vtotal: 806,
        }
    } else {
        let hb = spec_h_blank(width);
        let vb = spec_v_blank(height);
        DisplayMode {
            width,
            height,
            refresh_rate,
            pixel_clock: ((width + hb) * (height + vb) * refresh_rate / 1000) as u32,
            hsync_start: (width + hb / 2) as u32,
            hsync_end: (width + hb / 2 + hb / 10) as u32,
            htotal: (width + hb) as u32,
            vsync_start: (height + vb / 2) as u32,
            vsync_end: (height + vb / 2 + vb / 10) as u32,
            vtotal: (height + vb) as u32,
        }
    }
}

/// A mode-change request the driver accepts: both totals fit the 16-bit
/// timing registers, the derived pixel clock fits 32 bits, and the frame's
/// BGRA byte size fits the address space.
pub open spec fn supported_mode_request(width: u32, height: u32, refresh_rate: u32) -> bool {
    &&& 0 < width
    &&& 0 < height
    &&& width + spec_h_blank(width) <= 0xFFFF
    &&& height + spec_v_blank(height) <= 0xFFFF
    &&& (width + spec_h_blank(width)) * (height + spec_v_blank(height)) <= u32::MAX
    &&& (width + spec_h_blank(width)) * (height + spec_v_blank(height)) * refresh_rate
        <= u32::MAX
    &&& width * height * 4 <= usize::MAX
}

/// Derive the full mode for an observed resolution.
pub fn mode_for(width: u32, height: u32, refresh_rate: u32) -> (m: DisplayMode)
    requires
        supported_mode_request(width, height, refresh_rate),
    ensures
        m == derived_mode(width, height, refresh_rate),
        m.encodable(),
        m.width == width && m.height == height && m.refresh_rate == refresh_rate,
{
    if width == 1920 && height == 1080 {
        DisplayMode { refresh_rate, ..DisplayMode::mode_1920x1080_60() }
    } else if width == 1280 && height == 720 {
        DisplayMode { refresh_rate, ..DisplayMode::mode_1280x720_60() }
    } else if width == 1024 && height == 768 {
        DisplayMode { refresh_rate, ..DisplayMode::mode_1024x768_60() }
    } else {
        let h_blank: u32 = width / 5;
        let v_blank: u32 = height / 30;
        let pixel_clock: u32 = (width + h_blank) * (height + v_blank) * refresh_rate / 1000;
        DisplayMode {
            width,
            height,
            refresh_rate,
            pixel_clock,
            hsync_start: width + h_blank / 2,
            hsync_end: width + h_blank / 2 + h_blank / 10,
            htotal: width + h_blank,
            vsync_start: height + v_blank / 2,
            vsync_end: height + v_blank / 2 + v_blank / 10,
            vtotal: height + v_blank,
        }
    }
}

} // verus!
