//! Per-device driver: lifecycle state machine, owned pixel surfaces, and
//! the translation of virtual-display events into command byte sequences.
//!
//! The driver owns no transport. Every event handler returns the exact
//! bytes to put on the wire, in order; the caller performs the transfers
//! and reports what it needs to (a failed mode-set send simply means
//! [`DriverState::register_buffer`] is never called for that mode).

use crate::command::{
    blank_cmd_spec, damage_cmd_spec, mode_cmd_spec, sync_cmd_spec, CommandBuilder,
};
use crate::mode::{derived_mode, mode_for, supported_mode_request, DisplayMode};
use crate::rle::{avail_pixels, rle_spec, RLECompressor};
use crate::DL_MAX_TRANSFER_SIZE;
use vstd::prelude::*;
use vstd::slice::slice_to_vec;

verus! {

/// USB interface number of the display function.
pub const DISPLAY_INTERFACE: u8 = 0;

/// Bulk OUT endpoint the command and pixel streams are written to.
pub const BULK_OUT_ENDPOINT: u8 = 0x01;

/// Bulk IN endpoint of the display function.
pub const BULK_IN_ENDPOINT: u8 = 0x81;

/// Timeout for a control transfer, in milliseconds.
pub const CONTROL_TIMEOUT_MS: u64 = 1000;

/// Timeout for a bulk transfer, in milliseconds.
pub const BULK_TIMEOUT_MS: u64 = 2000;

/// One owned pixel surface: BGRA8888 bytes, row stride `width * 4`.
pub struct FrameBuffer {
    pub id: i32,
    pub data: Vec<u8>,
    pub width: u32,
    pub height: u32,
    pub stride: u32,
}

impl FrameBuffer {
    /// The surface is consistent: stride covers one BGRA row, the byte
    /// buffer covers the whole frame, and the frame fits both the 16-bit
    /// damage registers and the address space.
    pub open spec fn wf(self) -> bool {
        &&& self.stride == self.width * 4
        &&& self.data@.len() == self.stride * self.height
        &&& self.width * self.height * 4 <= usize::MAX
        &&& self.width <= 0xFFFF
        &&& self.height <= 0xFFFF
    }

    /// The compressed stream of this surface's current contents.
    pub open spec fn stream_spec(self) -> Seq<u8> {
        rle_spec(self.data@, self.width * self.height, 0)
    }
}

/// The lifecycle of one device driver.
#[derive(Debug, Clone, Copy, PartialEq, Eq, Structural)]
pub enum DriverPhase {
    Constructed,
    Initializing,
    Running,
    Stopping,
    Terminated,
}

/// An event delivered by the virtual-display subsystem.
#[allow(inconsistent_fields)]
#[derive(Debug, Clone, Copy, PartialEq, Eq, Structural)]
pub enum DriverEvent {
    ModeChanged { width: u32, height: u32, refresh_rate: u32 },
    UpdateReady { buffer_id: i32 },
    PowerStateChanged { dpms_mode: i32 },
    CrtcStateChanged { state: i32 },
    CursorSet { width: i32, height: i32, hot_x: i32, hot_y: i32 },
    CursorMove { x: i32, y: i32 },
    VendorDataReceived,
}

/// What an event asks the transport to do. Byte sequences are sent in
/// field order, each chunk awaited before the next.
pub enum EventResponse {
    /// Send the mode-set command, then the unblank command; call
    /// [`DriverState::register_buffer`] only if both sends succeed.
    SetMode { mode_cmd: Vec<u8>, unblank_cmd: Vec<u8> },
    /// Send the damage rectangle, the pixel chunks in order, then sync.
    SendFrame { damage_cmd: Vec<u8>, pixel_chunks: Vec<Vec<u8>>, sync_cmd: Vec<u8> },
    /// Send the blank/unblank command.
    SetBlanking { blank_cmd: Vec<u8> },
    /// Nothing to send: an event with no protocol side effect, or one
    /// the driver drops (unknown buffer, unsupported mode request).
    Ignored,
}

/// The memory-region description handed to the event source when a
/// surface is registered.
#[derive(Debug, Clone, Copy, PartialEq, Eq, Structural)]
pub struct BufferInfo {
    pub id: i32,
    pub width: u32,
    pub height: u32,
    pub stride: u32,
}

/// The two payloads of the initialization probe: a zero-filled test
/// packet, then a first register write (blank).
pub struct ProbePlan {
    pub test_packet: Vec<u8>,
    pub blank_cmd: Vec<u8>,
}

/// Split a payload into transfer-sized chunks, front to back.
pub open spec fn chunks_spec(s: Seq<u8>, sz: int) -> Seq<Seq<u8>>
    decreases s.len() when 1 <= sz
{
    if s.len() == 0 {
        Seq::empty()
    } else if s.len() <= sz {
        seq![s]
    } else {
        seq![s.take(sz)] + chunks_spec(s.skip(sz), sz)
    }
}

/// Law: chunking loses and reorders nothing — the chunks concatenate
/// back to the payload.
pub proof fn lemma_chunks_flatten(s: Seq<u8>, sz: int)
    requires
        1 <= sz,
    ensures
        chunks_spec(s, sz).flatten() == s,
    decreases s.len(),
{
    if s.len() == 0 {
        assert(chunks_spec(s, sz).flatten() =~= s);
    } else if s.len() <= sz {
        assert(chunks_spec(s, sz) =~= seq![s]);
        seq![s].lemma_flatten_one_element();
    } else {
        lemma_chunks_flatten(s.skip(sz), sz);
        assert((seq![s.take(sz)] + chunks_spec(s.skip(sz), sz)).drop_first() =~= chunks_spec(
            s.skip(sz),
            sz,
        ));
        assert(chunks_spec(s, sz).flatten() =~= s.take(sz) + chunks_spec(
            s.skip(sz),
            sz,
        ).flatten());
        assert(s.take(sz) + s.skip(sz) =~= s);
    }
}

/// Law: no chunk is empty and none exceeds the transfer size.
pub proof fn lemma_chunks_sized(s: Seq<u8>, sz: int)
    requires
        1 <= sz,
    ensures
        forall|k: int|
            0 <= k < chunks_spec(s, sz).len() ==> 0 < (#[trigger] chunks_spec(s, sz)[k]).len()
                <= sz,
    decreases s.len(),
{
    if s.len() > sz {
        lemma_chunks_sized(s.skip(sz), sz);
        assert forall|k: int| 0 <= k < chunks_spec(s, sz).len() implies 0 < (
        #[trigger] chunks_spec(s, sz)[k]).len() <= sz by {
            if k > 0 {
                assert(chunks_spec(s, sz)[k] == chunks_spec(s.skip(sz), sz)[k - 1]);
            }
        }
    }
}

/// Split a payload into bulk-transfer chunks of at most
/// [`DL_MAX_TRANSFER_SIZE`] bytes each.
pub fn chunk_payload(data: &[u8]) -> (chunks: Vec<Vec<u8>>)
    ensures
        chunks.deep_view() == chunks_spec(data@, DL_MAX_TRANSFER_SIZE as int),
{
    let ghost szi: int = DL_MAX_TRANSFER_SIZE as int;
    let mut chunks: Vec<Vec<u8>> = Vec::new();
    let mut i: usize = 0;
    proof {
        assert(chunks.deep_view() =~~= Seq::<Seq<u8>>::empty());
        assert(data@.skip(0) =~= data@);
        assert(chunks.deep_view() + chunks_spec(data@.skip(0), szi) =~~= chunks_spec(
            data@,
            szi,
        ));
    }
    while i < data.len()
        invariant
            0 <= i <= data@.len(),
            szi == DL_MAX_TRANSFER_SIZE as int,
            chunks.deep_view() + chunks_spec(data@.skip(i as int), szi) =~~= chunks_spec(
                data@,
                szi,
            ),
        decreases data@.len() - i,
    {
        let remaining: usize = data.len() - i;
        let step: usize = if remaining <= DL_MAX_TRANSFER_SIZE {
            remaining
        } else {
            DL_MAX_TRANSFER_SIZE
        };
        let piece: &[u8] = vstd::slice::slice_subrange(data, i, i + step);
        let piece_vec: Vec<u8> = slice_to_vec(piece);
        let ghost before: Seq<Seq<u8>> = chunks.deep_view();
        let ghost tail: Seq<u8> = data@.skip(i as int);
        chunks.push(piece_vec);
        proof {
            assert(chunks.deep_view() =~~= before + seq![piece_vec@]);
            if remaining <= DL_MAX_TRANSFER_SIZE {
                assert(piece_vec@ =~= tail);
                assert(chunks_spec(tail, szi) =~= seq![tail]);
                assert(data@.skip(i + step) =~= Seq::<u8>::empty());
                assert(chunks_spec(data@.skip(i + step), szi) =~= Seq::<Seq<u8>>::empty());
                assert((before + seq![piece_vec@]) + chunks_spec(data@.skip(i + step), szi)
                    =~~= before + chunks_spec(tail, szi));
            } else {
                assert(piece_vec@ =~= tail.take(szi));
                assert(tail.skip(szi) =~= data@.skip(i + step));
                assert(chunks_spec(tail, szi) == seq![tail.take(szi)] + chunks_spec(
                    tail.skip(szi),
                    szi,
                ));
                assert((before + seq![piece_vec@]) + chunks_spec(data@.skip(i + step), szi)
                    =~~= before + chunks_spec(tail, szi));
            }
        }
        i = i + step;
    }
    proof {
        assert(data@.skip(i as int) =~= Seq::<u8>::empty());
        assert(chunks_spec(data@.skip(i as int), szi) =~= Seq::<Seq<u8>>::empty());
        assert(chunks.deep_view() + Seq::<Seq<u8>>::empty() =~~= chunks.deep_view());
    }
    chunks
}

/// Whether a power-management state asks for a blanked panel: every
/// state but fully-on does.
pub fn dpms_should_blank(dpms_mode: i32) -> (blank: bool)
    ensures
        blank == (dpms_mode != 0),
{
    dpms_mode != 0
}

/// Per-device driver state.
pub struct DriverState {
    pub phase: DriverPhase,
    pub running: bool,
    pub current_mode: Option<DisplayMode>,
    pub buffers: Vec<FrameBuffer>,
    pub compressor: RLECompressor,
    pub cmd_builder: CommandBuilder,
}

impl DriverState {
    /// Every owned surface is well-formed and sits at the index equal to
    /// its id: ids are assigned monotonically and never reused.
    pub open spec fn wf(self) -> bool {
        &&& forall|k: int|
            0 <= k < self.buffers@.len() ==> (#[trigger] self.buffers@[k]).wf()
                && self.buffers@[k].id == k
        &&& self.buffers@.len() <= i32::MAX
    }

    /// A fresh driver: constructed, running flag set, no mode, no
    /// surfaces.
    pub fn new() -> (s: Self)
        ensures
            s.wf(),
            s.phase == DriverPhase::Constructed,
            s.running == true,
            s.current_mode is None,
            s.buffers@.len() == 0,
    {
        DriverState {
            phase: DriverPhase::Constructed,
            running: true,
            current_mode: None,
            buffers: Vec::new(),
            compressor: RLECompressor::new(),
            cmd_builder: CommandBuilder::new(),
        }
    }

    /// Enter initialization and hand back the capability probe: a
    /// zero-filled test packet, then a first blank register write. If
    /// either transfer fails, initialization has failed.
    pub fn begin_initialize(&mut self) -> (probe: ProbePlan)
        requires
            old(self).phase == DriverPhase::Constructed,
            old(self).wf(),
        ensures
            final(self).wf(),
            final(self).phase == DriverPhase::Initializing,
            final(self).running == old(self).running,
            final(self).current_mode == old(self).current_mode,
            final(self).buffers@ == old(self).buffers@,
            probe.test_packet@ == Seq::new(64, |i: int| 0u8),
            probe.blank_cmd@ == blank_cmd_spec(true),
    {
        self.phase = DriverPhase::Initializing;
        let test_packet: Vec<u8> = vec![0u8; 64];
        let blank_cmd: Vec<u8> = slice_to_vec(self.cmd_builder.blank_screen(true));
        proof {
            assert(test_packet@ =~= Seq::new(64, |i: int| 0u8));
        }
        ProbePlan { test_packet, blank_cmd }
    }

    /// Record the probe's outcome: a working transport lets the driver
    /// run; a failed probe sends it straight to teardown.
    pub fn probe_result(&mut self, ok: bool)
        requires
            old(self).phase == DriverPhase::Initializing,
        ensures
            final(self).phase == (if ok {
                DriverPhase::Running
            } else {
                DriverPhase::Stopping
            }),
            final(self).running == old(self).running,
            final(self).current_mode == old(self).current_mode,
            final(self).buffers@ == old(self).buffers@,
            old(self).wf() ==> final(self).wf(),
    {
        if ok {
            self.phase = DriverPhase::Running;
        } else {
            self.phase = DriverPhase::Stopping;
        }
    }

    /// Clear the running flag. The loop observes the change on its next
    /// iteration; the stop is permanent.
    pub fn request_stop(&mut self)
        ensures
            final(self).running == false,
            final(self).phase == old(self).phase,
            final(self).current_mode == old(self).current_mode,
            final(self).buffers@ == old(self).buffers@,
            old(self).wf() ==> final(self).wf(),
    {
        self.running = false;
    }

    /// One loop-head check: keep running while the flag is set; once it
    /// is cleared, move to `Stopping` and never run again.
    pub fn poll_should_run(&mut self) -> (cont: bool)
        requires
            old(self).phase == DriverPhase::Running,
        ensures
            cont == old(self).running,
            final(self).running == old(self).running,
            final(self).phase == (if cont {
                DriverPhase::Running
            } else {
                DriverPhase::Stopping
            }),
            final(self).current_mode == old(self).current_mode,
            final(self).buffers@ == old(self).buffers@,
            old(self).wf() ==> final(self).wf(),
    {
        if self.running {
            true
        } else {
            self.phase = DriverPhase::Stopping;
            false
        }
    }

    /// Teardown ran: the driver is terminated for good.
    pub fn finish_teardown(&mut self)
        requires
            old(self).phase == DriverPhase::Stopping,
        ensures
            final(self).phase == DriverPhase::Terminated,
            final(self).running == old(self).running,
            final(self).current_mode == old(self).current_mode,
            final(self).buffers@ == old(self).buffers@,
            old(self).wf() ==> final(self).wf(),
    {
        self.phase = DriverPhase::Terminated;
    }

    /// Register a new surface for the given size: its id is the current
    /// surface count, its bytes start zero-filled. The returned region
    /// description goes to the event source, which fills exactly that
    /// region on future updates.
    pub fn register_buffer(&mut self, width: u32, height: u32) -> (info: BufferInfo)
        requires
            old(self).wf(),
            0 < width <= 0xFFFF,
            0 < height <= 0xFFFF,
            width * height * 4 <= usize::MAX,
            old(self).buffers@.len() < i32::MAX,
        ensures
            final(self).wf(),
            final(self).phase == old(self).phase,
            final(self).running == old(self).running,
            final(self).current_mode == old(self).current_mode,
            final(self).buffers@.len() == old(self).buffers@.len() + 1,
            final(self).buffers@.subrange(0, old(self).buffers@.len() as int) == old(
                self,
            ).buffers@,
            info.id == old(self).buffers@.len(),
            info.width == width && info.height == height && info.stride == width * 4,
            final(self).buffers@.last().id == info.id,
            final(self).buffers@.last().width == width,
            final(self).buffers@.last().height == height,
            final(self).buffers@.last().stride == width * 4,
            final(self).buffers@.last().data@ == Seq::new((width * height * 4) as nat,
                |i: int| 0u8),
    {
        let buffer_id: i32 = self.buffers.len() as i32;
        let stride: u32 = width * 4;
        proof {
            assert(stride * height == width * height * 4) by (nonlinear_arith)
                requires stride == width * 4;
        }
        let buffer_size: usize = (stride as usize) * (height as usize);
        let data: Vec<u8> = vec![0u8; buffer_size];
        let framebuffer = FrameBuffer { id: buffer_id, data, width, height, stride };
        self.buffers.push(framebuffer);
        proof {
            assert(self.buffers@.subrange(0, old(self).buffers@.len() as int) =~= old(
                self,
            ).buffers@);
            assert(self.buffers@.last().data@ =~= Seq::new((width * height * 4) as nat,
                |i: int| 0u8));
        }
        BufferInfo { id: buffer_id, width, height, stride }
    }

    /// Store freshly fetched pixel bytes into the owned surface with the
    /// given id — the pixel-fetch step of an update. The write is
    /// accepted only for a known surface and a byte count that covers
    /// the frame exactly; anything else is dropped.
    pub fn write_buffer(&mut self, buffer_id: i32, data: &[u8]) -> (accepted: bool)
        requires
            old(self).wf(),
        ensures
            final(self).wf(),
            final(self).phase == old(self).phase,
            final(self).running == old(self).running,
            final(self).current_mode == old(self).current_mode,
            accepted == (0 <= buffer_id < old(self).buffers@.len()
                && data@.len() == old(self).buffers@[buffer_id as int].data@.len()),
            final(self).buffers@.len() == old(self).buffers@.len(),
            forall|k: int|
                0 <= k < old(self).buffers@.len() && k != buffer_id
                    ==> final(self).buffers@[k] == old(self).buffers@[k],
            accepted ==> {
                &&& final(self).buffers@[buffer_id as int].id == old(self).buffers@[buffer_id
                    as int].id
                &&& final(self).buffers@[buffer_id as int].width == old(self).buffers@[
                    buffer_id as int].width
                &&& final(self).buffers@[buffer_id as int].height == old(self).buffers@[
                    buffer_id as int].height
                &&& final(self).buffers@[buffer_id as int].stride == old(self).buffers@[
                    buffer_id as int].stride
                &&& final(self).buffers@[buffer_id as int].data@ == data@
            },
            !accepted ==> final(self).buffers@ == old(self).buffers@,
    {
        if buffer_id < 0 {
            return false;
        }
        let idx: usize = buffer_id as usize;
        if idx >= self.buffers.len() {
            return false;
        }
        if data.len() != self.buffers[idx].data.len() {
            return false;
        }
        let fresh: Vec<u8> = slice_to_vec(data);
        let slot: &mut FrameBuffer = &mut self.buffers[idx];
        slot.data = fresh;
        true
    }

    /// Index of the owned surface with the given id, if any.
    fn find_buffer(&self, buffer_id: i32) -> (found: Option<usize>)
        ensures
            match found {
                Some(idx) => 0 <= idx < self.buffers@.len() && self.buffers@[idx as int].id
                    == buffer_id,
                None => forall|k: int|
                    0 <= k < self.buffers@.len() ==> (#[trigger] self.buffers@[k]).id
                        != buffer_id,
            },
    {
        let mut k: usize = 0;
        while k < self.buffers.len()
            invariant
                0 <= k <= self.buffers@.len(),
                forall|j: int|
                    0 <= j < k ==> (#[trigger] self.buffers@[j]).id != buffer_id,
            decreases self.buffers@.len() - k,
        {
            if self.buffers[k].id == buffer_id {
                return Some(k);
            }
            k = k + 1;
        }
        None
    }

    /// Runtime check of [`supported_mode_request`].
    fn check_supported(width: u32, height: u32, refresh_rate: u32) -> (ok: bool)
        ensures
            ok == supported_mode_request(width, height, refresh_rate),
    {
        if width == 0 || height == 0 {
            return false;
        }
        if width > 0xFFFF || height > 0xFFFF {
            return false;
        }
        let hb: u32 = width / 5;
        let vb: u32 = height / 30;
        if width + hb > 0xFFFF || height + vb > 0xFFFF {
            return false;
        }
        let wpb: u32 = width + hb;
        let hpb: u32 = height + vb;
        proof {
            assert((wpb as int) * (hpb as int) <= 0xFFFF * 0xFFFF) by (nonlinear_arith)
                requires
                    wpb <= 0xFFFF,
                    hpb <= 0xFFFF,
            ;
        }
        let pair: u64 = (wpb as u64) * (hpb as u64);
        if pair > u32::MAX as u64 {
            return false;
        }
        proof {
            assert((pair as int) * (refresh_rate as int) <= 0xFFFFFFFF * 0xFFFFFFFF)
                by (nonlinear_arith)
                requires
                    pair <= 0xFFFFFFFF,
                    refresh_rate <= 0xFFFFFFFFu32,
            ;
        }
        let triple: u64 = pair * (refresh_rate as u64);
        if triple > u32::MAX as u64 {
            return false;
        }
        proof {
            assert((width as int) * (height as int) * 4 <= 0xFFFF * 0xFFFF * 4)
                by (nonlinear_arith)
                requires
                    width <= 0xFFFF,
                    height <= 0xFFFF,
            ;
        }
        let frame: u64 = (width as u64) * (height as u64) * 4;
        if frame > usize::MAX as u64 {
            return false;
        }
        true
    }

    /// Dispatch one virtual-display event.
    ///
    /// * A mode change derives the full timing (preset or generic
    ///   formula), records it, and asks for a mode-set send followed by
    ///   an unblank; a request outside the supported range is dropped.
    /// * An update compresses the identified surface's current bytes —
    ///   from a transient copy — and asks for a full-frame damage
    ///   rectangle, the chunked pixel stream, and a sync, in that order;
    ///   an unknown buffer id drops the event.
    /// * A power-state change asks for a blank for every state but
    ///   fully-on, an unblank for fully-on.
    /// * CRTC, cursor and vendor-data events have no protocol side
    ///   effect.
    pub fn handle_event(&mut self, event: DriverEvent) -> (r: EventResponse)
        requires
            old(self).wf(),
            old(self).phase == DriverPhase::Running,
        ensures
            final(self).wf(),
            final(self).phase == old(self).phase,
            final(self).running == old(self).running,
            final(self).buffers@ == old(self).buffers@,
            match event {
                DriverEvent::ModeChanged { width, height, refresh_rate } => {
                    if supported_mode_request(width, height, refresh_rate) {
                        &&& final(self).current_mode == Some(
                            derived_mode(width, height, refresh_rate),
                        )
                        &&& r matches EventResponse::SetMode { mode_cmd, unblank_cmd }
                            && mode_cmd@ == mode_cmd_spec(
                            derived_mode(width, height, refresh_rate),
                        ) && unblank_cmd@ == blank_cmd_spec(false)
                    } else {
                        &&& final(self).current_mode == old(self).current_mode
                        &&& r matches EventResponse::Ignored
                    }
                },
                DriverEvent::UpdateReady { buffer_id } => {
                    &&& final(self).current_mode == old(self).current_mode
                    &&& if 0 <= buffer_id < old(self).buffers@.len() {
                        let fb = old(self).buffers@[buffer_id as int];
                        r matches EventResponse::SendFrame {
                            damage_cmd,
                            pixel_chunks,
                            sync_cmd,
                        } && damage_cmd@ == damage_cmd_spec(
                            0,
                            0,
                            fb.width as u16,
                            fb.height as u16,
                        ) && pixel_chunks.deep_view() == chunks_spec(
                            fb.stream_spec(),
                            DL_MAX_TRANSFER_SIZE as int,
                        ) && pixel_chunks.deep_view().flatten() == fb.stream_spec() && (
                        forall|k: int|
                            0 <= k < pixel_chunks.deep_view().len() ==> 0 < (
                            #[trigger] pixel_chunks.deep_view()[k]).len()
                                <= DL_MAX_TRANSFER_SIZE) && sync_cmd@ == sync_cmd_spec()
                    } else {
                        r matches EventResponse::Ignored
                    }
                },
                DriverEvent::PowerStateChanged { dpms_mode } => {
                    &&& final(self).current_mode == old(self).current_mode
                    &&& r matches EventResponse::SetBlanking { blank_cmd } && blank_cmd@
                        == blank_cmd_spec(dpms_mode != 0)
                },
                _ => {
                    &&& final(self).current_mode == old(self).current_mode
                    &&& r matches EventResponse::Ignored
                },
            },
    {
        match event {
            DriverEvent::ModeChanged { width, height, refresh_rate } => {
                if Self::check_supported(width, height, refresh_rate) {
                    let m: DisplayMode = mode_for(width, height, refresh_rate);
                    self.current_mode = Some(m);
                    let mode_cmd: Vec<u8> = slice_to_vec(self.cmd_builder.set_mode(&m));
                    let unblank_cmd: Vec<u8> = slice_to_vec(
                        self.cmd_builder.blank_screen(false),
                    );
                    EventResponse::SetMode { mode_cmd, unblank_cmd }
                } else {
                    EventResponse::Ignored
                }
            },
            DriverEvent::UpdateReady { buffer_id } => {
                match self.find_buffer(buffer_id) {
                    None => {
                        proof {
                            if 0 <= buffer_id < self.buffers@.len() {
                                assert(self.buffers@[buffer_id as int].id == buffer_id);
                            }
                        }
                        EventResponse::Ignored
                    },
                    Some(idx) => {
                        let ghost fb: FrameBuffer = self.buffers@[idx as int];
                        proof {
                            assert(fb.id == idx as int);
                            assert(idx as int == buffer_id);
                        }
                        let w: u32 = self.buffers[idx].width;
                        let h: u32 = self.buffers[idx].height;
                        // Transient copy: compression must never race with
                        // the event source refilling the surface.
                        let snapshot: Vec<u8> = slice_to_vec(
                            self.buffers[idx].data.as_slice(),
                        );
                        proof {
                            assert(fb.data@.len() == 4 * (w * h)) by (nonlinear_arith)
                                requires
                                    fb.data@.len() == fb.stride * fb.height,
                                    fb.stride == fb.width * 4,
                                    w == fb.width,
                                    h == fb.height,
                            ;
                            assert((4 * (w * h)) / 4 == w * h);
                            assert(avail_pixels(fb.data@.len() as int, w * h) == w * h);
                        }
                        let stream: Vec<u8> = slice_to_vec(
                            self.compressor.compress(
                                snapshot.as_slice(),
                                w as usize,
                                h as usize,
                            ),
                        );
                        proof {
                            assert(stream@ == fb.stream_spec());
                        }
                        let pixel_chunks: Vec<Vec<u8>> = chunk_payload(stream.as_slice());
                        proof {
                            lemma_chunks_flatten(fb.stream_spec(), DL_MAX_TRANSFER_SIZE as int);
                            lemma_chunks_sized(fb.stream_spec(), DL_MAX_TRANSFER_SIZE as int);
                        }
                        let damage_cmd: Vec<u8> = slice_to_vec(
                            self.cmd_builder.damage_rect(0, 0, w as u16, h as u16),
                        );
                        let sync_cmd: Vec<u8> = slice_to_vec(self.cmd_builder.sync());
                        EventResponse::SendFrame { damage_cmd, pixel_chunks, sync_cmd }
                    },
                }
            },
            DriverEvent::PowerStateChanged { dpms_mode } => {
                let blank: bool = dpms_should_blank(dpms_mode);
                let blank_cmd: Vec<u8> = slice_to_vec(self.cmd_builder.blank_screen(blank));
                EventResponse::SetBlanking { blank_cmd }
            },
            DriverEvent::CrtcStateChanged { .. } => EventResponse::Ignored,
            DriverEvent::CursorSet { .. } => EventResponse::Ignored,
            DriverEvent::CursorMove { .. } => EventResponse::Ignored,
            DriverEvent::VendorDataReceived => EventResponse::Ignored,
        }
    }
}

} // verus!
