//! Pixel codec, frame compositor and display session.
//!
//! The panel is a tri-color e-paper display of `DISPLAY_WIDTH` by
//! `DISPLAY_HEIGHT` pixels. A remote peer sends 32-byte payloads, each
//! encoding a run of 128 pixels at 2 bits per pixel over two interleaved
//! byte planes. The compositor writes such a run into an owned frame
//! buffer at a cursor-derived position, wrapping at the right edge; the
//! session tells the external panel driver when to physically refresh.

use vstd::prelude::*;
use vstd::pervasive::VecAdditionalExecFns;

verus! {

/// Width of the physical panel in pixels.
pub const DISPLAY_WIDTH: usize = 800;

/// Height of the physical panel in pixels.
pub const DISPLAY_HEIGHT: usize = 480;

/// Number of pixels in the frame buffer (DISPLAY_WIDTH * DISPLAY_HEIGHT).
pub const FRAME_PIXELS: usize = 384000;

/// Number of bytes in one pixel payload.
pub const PAYLOAD_BYTES: usize = 32;

/// Number of pixels encoded by one payload.
pub const RUN_PIXELS: usize = 128;

/// Largest cursor whose 128-pixel run still fits in the frame buffer,
/// plus one: cursor * RUN_PIXELS + RUN_PIXELS <= FRAME_PIXELS.
pub const CURSOR_LIMIT: u32 = 3000;

/// One pixel of the tri-color panel.
#[derive(Clone, Copy, PartialEq, Eq, Structural, Debug)]
pub enum TriColor {
    White,
    Black,
    Chromatic,
}

// ---------------------------------------------------------------------------
// Pixel codec
// ---------------------------------------------------------------------------

/// Bit `j` of byte `b`, least-significant bit first.
pub open spec fn bit_of(b: u8, j: u8) -> bool {
    (b >> j) & 1 == 1
}

/// The "black" plane bit of pixel `k`: bit `k % 8` of byte `2 * (k / 8)`.
pub open spec fn black_bit(payload: Seq<u8>, k: int) -> bool {
    bit_of(payload[2 * (k / 8)], (k % 8) as u8)
}

/// The "color" plane bit of pixel `k`: bit `k % 8` of byte `2 * (k / 8) + 1`.
pub open spec fn color_bit(payload: Seq<u8>, k: int) -> bool {
    bit_of(payload[2 * (k / 8) + 1], (k % 8) as u8)
}

/// A pixel whose two plane bits are both 1 is a no-op: the compositor
/// leaves the destination cell unchanged ("skip/transparent").
pub open spec fn pixel_is_noop(payload: Seq<u8>, k: int) -> bool {
    black_bit(payload, k) && color_bit(payload, k)
}

/// The color that pixel `k` of a payload decodes to. No-op pixels decode
/// to the White placeholder; the compositor never writes them.
pub open spec fn decoded_pixel(payload: Seq<u8>, k: int) -> TriColor {
    if pixel_is_noop(payload, k) {
        TriColor::White
    } else if !black_bit(payload, k) {
        TriColor::Black
    } else {
        TriColor::Chromatic
    }
}

/// Decodes a 32-byte payload into its 128 tri-color pixel values.
///
/// Pixel `k` is governed by bit `k % 8` (least-significant first) of the
/// byte pair at `2 * (k / 8)`: plane A ("black") at the even byte, plane B
/// ("color") at the odd one. The result is a total, deterministic function
/// of the payload: exactly 128 values, pinned pointwise by `decoded_pixel`.
pub fn bytes_to_color(payload: &PixelPayload) -> (colors: Vec<TriColor>)
    requires
        payload.well_formed(),
    ensures
        colors@.len() == RUN_PIXELS,
        forall|k: int| 0 <= k < RUN_PIXELS ==> colors@[k] == decoded_pixel(payload@, k),
{
    let mut colors: Vec<TriColor> = Vec::new();
    let mut k: usize = 0;
    while k < RUN_PIXELS
        invariant
            k <= RUN_PIXELS,
            payload@.len() == PAYLOAD_BYTES,
            colors@.len() == k,
            forall|m: int| 0 <= m < k ==> colors@[m] == decoded_pixel(payload@, m),
        decreases RUN_PIXELS - k,
    {
        let i: usize = k / 8;
        let j: u8 = (k % 8) as u8;
        let b0 = payload.byte(2 * i);
        let b1 = payload.byte(2 * i + 1);
        let black: u8 = (b0 >> j) & 1;
        let color: u8 = (b1 >> j) & 1;
        proof {
            assert((b0 >> j) & 1 == 0 || (b0 >> j) & 1 == 1) by (bit_vector);
        }
        let pixel = if black == 1 && color == 1 {
            TriColor::White
        } else if black == 0 {
            TriColor::Black
        } else {
            TriColor::Chromatic
        };
        colors.push(pixel);
        k = k + 1;
    }
    colors
}

/// The decode contract pins the output: any two sequences that satisfy it
/// for the same payload are equal, so decoding is deterministic.
pub proof fn lemma_decode_deterministic(payload: Seq<u8>, a: Seq<TriColor>, b: Seq<TriColor>)
    requires
        a.len() == RUN_PIXELS,
        b.len() == RUN_PIXELS,
        forall|k: int| 0 <= k < RUN_PIXELS ==> a[k] == decoded_pixel(payload, k),
        forall|k: int| 0 <= k < RUN_PIXELS ==> b[k] == decoded_pixel(payload, k),
    ensures
        a =~= b,
{
}

// ---------------------------------------------------------------------------
// Pixel payload
// ---------------------------------------------------------------------------

/// An immutable pixel payload: exactly 32 bytes, two interleaved bit
/// planes, 16 byte pairs each encoding 8 consecutive pixels. Any other
/// length is a protocol violation and is rejected by the constructor.
pub struct PixelPayload {
    bytes: Vec<u8>,
}

impl View for PixelPayload {
    type V = Seq<u8>;

    closed spec fn view(&self) -> Seq<u8> {
        self.bytes@
    }
}

impl PixelPayload {
    /// The length invariant: exactly 32 bytes.
    pub open spec fn well_formed(&self) -> bool {
        self@.len() == PAYLOAD_BYTES
    }

    /// Wraps raw written bytes; rejects any length other than 32.
    pub fn new(bytes: Vec<u8>) -> (r: Option<PixelPayload>)
        ensures
            bytes@.len() == PAYLOAD_BYTES <==> r is Some,
            r matches Some(p) ==> p@ == bytes@ && p.well_formed(),
    {
        if bytes.len() == PAYLOAD_BYTES {
            Some(PixelPayload { bytes })
        } else {
            None
        }
    }

    /// Byte `i` of the payload.
    pub fn byte(&self, i: usize) -> (b: u8)
        requires
            i < self@.len(),
        ensures
            b == self@[i as int],
    {
        self.bytes[i]
    }
}

// ---------------------------------------------------------------------------
// Frame compositor and display session
// ---------------------------------------------------------------------------

/// One command for the external panel-driver capability. The session
/// decides the order of commands; the surrounding program performs them
/// on the bus and surfaces any transport error to its caller.
#[derive(Clone, Copy, PartialEq, Eq, Structural, Debug)]
pub enum PanelRequest {
    /// Bring the panel up (reset sequence, background color).
    Init,
    /// Wake a sleeping panel.
    WakeUp,
    /// Put the panel to sleep.
    Sleep,
    /// Blank the panel's physical frame.
    ClearFrame,
    /// Block until the panel reports idle.
    WaitUntilIdle,
    /// Push the in-memory frame buffer to the panel and refresh.
    UpdateAndDisplayFrame,
}

/// Failures the display session itself detects.
#[derive(Clone, Copy, PartialEq, Eq, Structural, Debug)]
pub enum DisplayError {
    /// The cursor would place part of the 128-pixel run past the last row.
    CursorOutOfRange,
}

/// An entirely white frame.
pub open spec fn all_white() -> Seq<TriColor> {
    Seq::new(FRAME_PIXELS as nat, |i: int| TriColor::White)
}

/// How one `write_to_buffer` call relates the frame buffer after it to
/// the one before: each non-no-op pixel `k` of the payload is written at
/// linear address `cursor * RUN_PIXELS + k` (which is exactly the
/// row-wrapping placement on an 800-wide surface), no-op pixels leave
/// their cell unchanged, and every cell outside the run keeps its value.
pub open spec fn applied(
    before: Seq<TriColor>,
    after: Seq<TriColor>,
    payload: Seq<u8>,
    cursor: int,
) -> bool {
    let offset = cursor * RUN_PIXELS;
    &&& after.len() == before.len()
    &&& forall|k: int|
        0 <= k < RUN_PIXELS ==> after[offset + k] == (if pixel_is_noop(payload, k) {
            before[offset + k]
        } else {
            decoded_pixel(payload, k)
        })
    &&& forall|i: int|
        0 <= i < before.len() && !(offset <= i < offset + RUN_PIXELS) ==> after[i] == before[i]
}

/// The in-memory side of the display: the owned frame buffer and the
/// sleep flag of the physical panel. Allocated once, lives for the
/// process lifetime.
pub struct Display {
    buffer: Vec<TriColor>,
    sleeping: bool,
}

/// An all-white frame buffer.
fn white_frame() -> (v: Vec<TriColor>)
    ensures
        v@ == all_white(),
{
    let mut v: Vec<TriColor> = Vec::new();
    let mut i: usize = 0;
    while i < FRAME_PIXELS
        invariant
            i <= FRAME_PIXELS,
            v@.len() == i,
            forall|m: int| 0 <= m < i ==> v@[m] == TriColor::White,
        decreases FRAME_PIXELS - i,
    {
        v.push(TriColor::White);
        i = i + 1;
    }
    proof {
        assert(v@ =~= all_white());
    }
    v
}

impl Display {
    /// The frame buffer as a sequence of pixels, row-major: the cell at
    /// column `x` of row `y` is entry `y * DISPLAY_WIDTH + x`.
    pub closed spec fn frame_view(&self) -> Seq<TriColor> {
        self.buffer@
    }

    /// Whether the physical panel was last commanded to sleep.
    pub closed spec fn is_sleeping(&self) -> bool {
        self.sleeping
    }

    /// The frame buffer always holds exactly one pixel per panel cell.
    pub open spec fn well_formed(&self) -> bool {
        self.frame_view().len() == FRAME_PIXELS
    }

    /// Brings the display session up: an all-white frame buffer, an awake
    /// panel, and the commands that bring the physical panel to the same
    /// state (bring-up, then a blanked frame).
    pub fn new() -> (r: (Display, Vec<PanelRequest>))
        ensures
            r.0.well_formed(),
            !r.0.is_sleeping(),
            r.0.frame_view() == all_white(),
            r.1@ == seq![PanelRequest::Init, PanelRequest::ClearFrame],
    {
        let d = Display { buffer: white_frame(), sleeping: false };
        let mut requests: Vec<PanelRequest> = Vec::new();
        requests.push(PanelRequest::Init);
        requests.push(PanelRequest::ClearFrame);
        proof {
            assert(requests@ =~= seq![PanelRequest::Init, PanelRequest::ClearFrame]);
        }
        (d, requests)
    }

    /// Resets the frame buffer to all white and asks the panel to blank
    /// itself and settle, waking it first if it sleeps. Whatever the
    /// panel later reports, the in-memory buffer is white and the sleep
    /// flag is down when this returns.
    pub fn clear(&mut self) -> (requests: Vec<PanelRequest>)
        requires
            old(self).well_formed(),
        ensures
            final(self).well_formed(),
            final(self).frame_view() == all_white(),
            !final(self).is_sleeping(),
            requests@ == (if old(self).is_sleeping() {
                seq![PanelRequest::WakeUp, PanelRequest::ClearFrame, PanelRequest::WaitUntilIdle]
            } else {
                seq![PanelRequest::ClearFrame, PanelRequest::WaitUntilIdle]
            }),
    {
        let mut requests: Vec<PanelRequest> = Vec::new();
        if self.sleeping {
            requests.push(PanelRequest::WakeUp);
            self.sleeping = false;
        }
        self.buffer = white_frame();
        requests.push(PanelRequest::ClearFrame);
        requests.push(PanelRequest::WaitUntilIdle);
        proof {
            if old(self).is_sleeping() {
                assert(requests@ =~= seq![
                    PanelRequest::WakeUp,
                    PanelRequest::ClearFrame,
                    PanelRequest::WaitUntilIdle,
                ]);
            } else {
                assert(requests@ =~= seq![
                    PanelRequest::ClearFrame,
                    PanelRequest::WaitUntilIdle,
                ]);
            }
        }
        requests
    }

    /// Writes one decoded 128-pixel run into the frame buffer at the
    /// cursor's linear address, skipping no-op pixels. Touches no panel
    /// command: compositing alone never performs panel I/O. A cursor
    /// whose run would reach past the last row is rejected unchanged.
    pub fn write_to_buffer(&mut self, values: &PixelPayload, cursor: u32) -> (r: Result<
        (),
        DisplayError,
    >)
        requires
            old(self).well_formed(),
            values.well_formed(),
        ensures
            final(self).well_formed(),
            final(self).is_sleeping() == old(self).is_sleeping(),
            r is Ok <==> cursor < CURSOR_LIMIT,
            r is Ok ==> applied(
                old(self).frame_view(),
                final(self).frame_view(),
                values@,
                cursor as int,
            ),
            r is Err ==> *final(self) == *old(self) && r == Err::<(), DisplayError>(
                DisplayError::CursorOutOfRange,
            ),
    {
        if cursor >= CURSOR_LIMIT {
            return Err(DisplayError::CursorOutOfRange);
        }
        let colors = bytes_to_color(values);
        let offset: usize = (cursor as usize) * RUN_PIXELS;
        let mut k: usize = 0;
        while k < RUN_PIXELS
            invariant
                k <= RUN_PIXELS,
                cursor < CURSOR_LIMIT,
                offset == cursor * RUN_PIXELS,
                values.well_formed(),
                colors@.len() == RUN_PIXELS,
                forall|m: int| 0 <= m < RUN_PIXELS ==> colors@[m] == decoded_pixel(values@, m),
                self.buffer@.len() == FRAME_PIXELS,
                self.sleeping == old(self).is_sleeping(),
                forall|m: int|
                    0 <= m < k ==> self.buffer@[offset + m] == (if pixel_is_noop(values@, m) {
                        old(self).frame_view()[offset + m]
                    } else {
                        decoded_pixel(values@, m)
                    }),
                forall|i: int|
                    0 <= i < FRAME_PIXELS && !(offset <= i < offset + k) ==> self.buffer@[i]
                        == old(self).frame_view()[i],
            decreases RUN_PIXELS - k,
        {
            let i: usize = k / 8;
            let j: u8 = (k % 8) as u8;
            let black: u8 = (values.byte(2 * i) >> j) & 1;
            let color: u8 = (values.byte(2 * i + 1) >> j) & 1;
            if !(black == 1 && color == 1) {
                self.buffer.set(offset + k, colors[k]);
            }
            k = k + 1;
        }
        Ok(())
    }

    /// Flushes: asks the panel to display the current frame buffer and to
    /// settle, waking it first if it sleeps. This is the only operation
    /// that commands a physical refresh; the buffer itself is unchanged.
    pub fn display_buffer(&mut self) -> (requests: Vec<PanelRequest>)
        requires
            old(self).well_formed(),
        ensures
            final(self).well_formed(),
            final(self).frame_view() == old(self).frame_view(),
            !final(self).is_sleeping(),
            requests@ == (if old(self).is_sleeping() {
                seq![
                    PanelRequest::WakeUp,
                    PanelRequest::UpdateAndDisplayFrame,
                    PanelRequest::WaitUntilIdle,
                ]
            } else {
                seq![PanelRequest::UpdateAndDisplayFrame, PanelRequest::WaitUntilIdle]
            }),
    {
        let mut requests: Vec<PanelRequest> = Vec::new();
        if self.sleeping {
            requests.push(PanelRequest::WakeUp);
            self.sleeping = false;
        }
        requests.push(PanelRequest::UpdateAndDisplayFrame);
        requests.push(PanelRequest::WaitUntilIdle);
        proof {
            if old(self).is_sleeping() {
                assert(requests@ =~= seq![
                    PanelRequest::WakeUp,
                    PanelRequest::UpdateAndDisplayFrame,
                    PanelRequest::WaitUntilIdle,
                ]);
            } else {
                assert(requests@ =~= seq![
                    PanelRequest::UpdateAndDisplayFrame,
                    PanelRequest::WaitUntilIdle,
                ]);
            }
        }
        requests
    }

    /// Puts the panel to sleep. The frame buffer keeps its contents; any
    /// later operation that needs the panel wakes it on demand.
    pub fn sleep(&mut self) -> (requests: Vec<PanelRequest>)
        requires
            old(self).well_formed(),
        ensures
            final(self).well_formed(),
            final(self).frame_view() == old(self).frame_view(),
            final(self).is_sleeping(),
            requests@ == seq![PanelRequest::Sleep],
    {
        self.sleeping = true;
        let mut requests: Vec<PanelRequest> = Vec::new();
        requests.push(PanelRequest::Sleep);
        proof {
            assert(requests@ =~= seq![PanelRequest::Sleep]);
        }
        requests
    }

    /// The frame buffer, for the program that pushes it to the panel.
    pub fn frame(&self) -> (r: &Vec<TriColor>)
        ensures
            r@ == self.frame_view(),
    {
        &self.buffer
    }

    /// Whether the panel was last commanded to sleep.
    pub fn asleep(&self) -> (b: bool)
        ensures
            b == self.is_sleeping(),
    {
        self.sleeping
    }

    /// The pixel at column `x` of row `y`.
    pub fn pixel(&self, x: usize, y: usize) -> (c: TriColor)
        requires
            self.well_formed(),
            x < DISPLAY_WIDTH,
            y < DISPLAY_HEIGHT,
        ensures
            c == self.frame_view()[y * DISPLAY_WIDTH + x],
    {
        self.buffer[y * DISPLAY_WIDTH + x]
    }
}

// ---------------------------------------------------------------------------
// Run geometry: where a cursor's 128 pixels land on the 800-wide surface
// ---------------------------------------------------------------------------

/// A write whose run stays within one row is one contiguous horizontal
/// run: pixel `k` of the payload governs the cell at column `col0 + k`
/// of row `row`, and every cell outside the run is unchanged.
pub proof fn lemma_apply_single_row(
    before: Seq<TriColor>,
    after: Seq<TriColor>,
    payload: Seq<u8>,
    cursor: int,
)
    requires
        0 <= cursor < CURSOR_LIMIT,
        before.len() == FRAME_PIXELS,
        (cursor * RUN_PIXELS) % (DISPLAY_WIDTH as int) + RUN_PIXELS <= DISPLAY_WIDTH,
        applied(before, after, payload, cursor),
    ensures
        ({
            let off = cursor * RUN_PIXELS;
            let w = DISPLAY_WIDTH as int;
            let row = off / w;
            let col0 = off % w;
            &&& col0 + RUN_PIXELS <= w
            &&& forall|k: int|
                0 <= k < RUN_PIXELS ==> after[row * w + col0 + k] == (if pixel_is_noop(
                    payload,
                    k,
                ) {
                    before[row * w + col0 + k]
                } else {
                    decoded_pixel(payload, k)
                })
            &&& forall|i: int|
                0 <= i < FRAME_PIXELS && !(off <= i < off + RUN_PIXELS) ==> after[i] == before[i]
        }),
{
    let off = cursor * RUN_PIXELS;
    let w = DISPLAY_WIDTH as int;
    let row = off / w;
    let col0 = off % w;
    vstd::arithmetic::div_mod::lemma_fundamental_div_mod(off, w);
    assert(row * w + col0 == off);
    assert forall|k: int|
        0 <= k < RUN_PIXELS implies after[row * w + col0 + k] == (if pixel_is_noop(payload, k) {
        before[row * w + col0 + k]
    } else {
        decoded_pixel(payload, k)
    }) by {
        assert(row * w + col0 + k == off + k);
        assert(after[off + k] == (if pixel_is_noop(payload, k) {
            before[off + k]
        } else {
            decoded_pixel(payload, k)
        }));
    }
}

/// A write whose run crosses the right edge splits in exactly two
/// contiguous segments that keep the payload's order: pixels `0` up to
/// `first_len` finish row `row` from column `col0`, pixels from
/// `first_len` on start row `row + 1` at column 0, and every cell
/// outside the run is unchanged.
pub proof fn lemma_apply_wraps(
    before: Seq<TriColor>,
    after: Seq<TriColor>,
    payload: Seq<u8>,
    cursor: int,
)
    requires
        0 <= cursor < CURSOR_LIMIT,
        before.len() == FRAME_PIXELS,
        (cursor * RUN_PIXELS) % (DISPLAY_WIDTH as int) + RUN_PIXELS > DISPLAY_WIDTH,
        applied(before, after, payload, cursor),
    ensures
        ({
            let off = cursor * RUN_PIXELS;
            let w = DISPLAY_WIDTH as int;
            let row = off / w;
            let col0 = off % w;
            let first_len = w - col0;
            &&& 0 < first_len < RUN_PIXELS
            &&& forall|k: int|
                0 <= k < first_len ==> after[row * w + col0 + k] == (if pixel_is_noop(
                    payload,
                    k,
                ) {
                    before[row * w + col0 + k]
                } else {
                    decoded_pixel(payload, k)
                })
            &&& forall|k: int|
                first_len <= k < RUN_PIXELS ==> after[(row + 1) * w + (k - first_len)] == (
                if pixel_is_noop(payload, k) {
                    before[(row + 1) * w + (k - first_len)]
                } else {
                    decoded_pixel(payload, k)
                })
            &&& forall|i: int|
                0 <= i < FRAME_PIXELS && !(off <= i < off + RUN_PIXELS) ==> after[i] == before[i]
        }),
{
    let off = cursor * RUN_PIXELS;
    let w = DISPLAY_WIDTH as int;
    let row = off / w;
    let col0 = off % w;
    let first_len = w - col0;
    vstd::arithmetic::div_mod::lemma_mod_division_less_than_divisor(off, w);
    vstd::arithmetic::div_mod::lemma_fundamental_div_mod(off, w);
    assert(row * w + col0 == off);
    assert forall|k: int|
        0 <= k < first_len implies after[row * w + col0 + k] == (if pixel_is_noop(payload, k) {
        before[row * w + col0 + k]
    } else {
        decoded_pixel(payload, k)
    }) by {
        assert(row * w + col0 + k == off + k);
        assert(after[off + k] == (if pixel_is_noop(payload, k) {
            before[off + k]
        } else {
            decoded_pixel(payload, k)
        }));
    }
    assert forall|k: int|
        first_len <= k < RUN_PIXELS implies after[(row + 1) * w + (k - first_len)] == (
    if pixel_is_noop(payload, k) {
        before[(row + 1) * w + (k - first_len)]
    } else {
        decoded_pixel(payload, k)
    }) by {
        assert((row + 1) * w + (k - first_len) == off + k) by (nonlinear_arith)
            requires
                off == w * row + col0,
                first_len == w - col0,
        ;
        assert(after[off + k] == (if pixel_is_noop(payload, k) {
            before[off + k]
        } else {
            decoded_pixel(payload, k)
        }));
    }
}

// ---------------------------------------------------------------------------
// Distinguished payloads
// ---------------------------------------------------------------------------

/// In a payload of all ones every bit pair is (1, 1), so every pixel is a
/// no-op.
pub proof fn lemma_all_ones_payload_is_noop(payload: Seq<u8>)
    requires
        payload.len() == PAYLOAD_BYTES,
        forall|i: int| 0 <= i < payload.len() ==> payload[i] == 0xFF,
    ensures
        forall|k: int| 0 <= k < RUN_PIXELS ==> pixel_is_noop(payload, k),
{
    assert(forall|j: u8| j < 8 ==> ((0xFFu8 >> j) & 1) == 1) by (bit_vector);
    assert forall|k: int| 0 <= k < RUN_PIXELS implies pixel_is_noop(payload, k) by {
        assert(0 <= k / 8 < 16);
        assert(0 <= k % 8 < 8);
        assert(payload[2 * (k / 8)] == 0xFF);
        assert(payload[2 * (k / 8) + 1] == 0xFF);
    }
}

/// In a payload of all zeros every bit pair is (0, 0), so every pixel
/// decodes to Black and none is a no-op.
pub proof fn lemma_zero_payload_decodes_black(payload: Seq<u8>)
    requires
        payload.len() == PAYLOAD_BYTES,
        forall|i: int| 0 <= i < payload.len() ==> payload[i] == 0,
    ensures
        forall|k: int|
            0 <= k < RUN_PIXELS ==> !pixel_is_noop(payload, k) && decoded_pixel(payload, k)
                == TriColor::Black,
{
    assert(forall|j: u8| j < 8 ==> ((0u8 >> j) & 1) == 0) by (bit_vector);
    assert forall|k: int|
        0 <= k < RUN_PIXELS implies !pixel_is_noop(payload, k) && decoded_pixel(payload, k)
        == TriColor::Black by {
        assert(0 <= k / 8 < 16);
        assert(0 <= k % 8 < 8);
        assert(payload[2 * (k / 8)] == 0);
        assert(payload[2 * (k / 8) + 1] == 0);
    }
}

/// Applying a payload whose pixels are all no-ops leaves the frame buffer
/// exactly as it was: writing, then writing again with an all-ones
/// payload, changes nothing the second time.
pub proof fn lemma_noop_payload_preserves_buffer(
    before: Seq<TriColor>,
    after: Seq<TriColor>,
    payload: Seq<u8>,
    cursor: int,
)
    requires
        0 <= cursor < CURSOR_LIMIT,
        before.len() == FRAME_PIXELS,
        forall|k: int| 0 <= k < RUN_PIXELS ==> pixel_is_noop(payload, k),
        applied(before, after, payload, cursor),
    ensures
        after =~= before,
{
    let offset = cursor * RUN_PIXELS;
    assert forall|i: int| 0 <= i < before.len() implies after[i] == before[i] by {
        if offset <= i < offset + RUN_PIXELS {
            let k = i - offset;
            assert(pixel_is_noop(payload, k));
            assert(after[offset + k] == before[offset + k]);
        }
    }
}

// ---------------------------------------------------------------------------
// The physical panel, modeled
// ---------------------------------------------------------------------------

/// What the physical panel shows after the panel driver performs a
/// sequence of requests, given the frame buffer handed along with them.
/// Only `ClearFrame` and `UpdateAndDisplayFrame` change the picture; the
/// bring-up, sleep and settling requests leave it as it is.
pub open spec fn panel_after(
    panel: Seq<TriColor>,
    requests: Seq<PanelRequest>,
    frame: Seq<TriColor>,
) -> Seq<TriColor>
    decreases requests.len(),
{
    if requests.len() == 0 {
        panel
    } else {
        let next = match requests[0] {
            PanelRequest::ClearFrame => all_white(),
            PanelRequest::UpdateAndDisplayFrame => frame,
            _ => panel,
        };
        panel_after(next, requests.drop_first(), frame)
    }
}

/// The panel is mutated only by a clear or a flush: a request sequence
/// holding neither leaves the picture untouched. Compositing emits no
/// request at all (`write_to_buffer` returns none), so applying payloads
/// alone can never change the panel.
pub proof fn lemma_panel_unchanged_without_refresh(
    panel: Seq<TriColor>,
    requests: Seq<PanelRequest>,
    frame: Seq<TriColor>,
)
    requires
        forall|i: int|
            0 <= i < requests.len() ==> #[trigger] requests[i] != PanelRequest::ClearFrame
                && requests[i] != PanelRequest::UpdateAndDisplayFrame,
    ensures
        panel_after(panel, requests, frame) == panel,
    decreases requests.len(),
{
    if requests.len() > 0 {
        assert(requests[0] != PanelRequest::ClearFrame);
        lemma_panel_unchanged_without_refresh(panel, requests.drop_first(), frame);
    }
}

/// Flushing displays exactly the composited frame: after the requests
/// that `display_buffer` returns, the panel shows the frame buffer,
/// whatever it showed before and whether or not it had to be woken.
pub proof fn lemma_flush_displays_frame(
    panel: Seq<TriColor>,
    frame: Seq<TriColor>,
    woke: bool,
)
    ensures
        panel_after(
            panel,
            if woke {
                seq![
                    PanelRequest::WakeUp,
                    PanelRequest::UpdateAndDisplayFrame,
                    PanelRequest::WaitUntilIdle,
                ]
            } else {
                seq![PanelRequest::UpdateAndDisplayFrame, PanelRequest::WaitUntilIdle]
            },
            frame,
        ) == frame,
{
    let requests = if woke {
        seq![
            PanelRequest::WakeUp,
            PanelRequest::UpdateAndDisplayFrame,
            PanelRequest::WaitUntilIdle,
        ]
    } else {
        seq![PanelRequest::UpdateAndDisplayFrame, PanelRequest::WaitUntilIdle]
    };
    reveal_with_fuel(panel_after, 4);
    assert(requests.drop_first().len() < 3);
    assert(panel_after(panel, requests, frame) == frame);
}

/// Clearing blanks the panel: after the requests that `clear` returns,
/// the panel is entirely white.
pub proof fn lemma_clear_blanks_panel(
    panel: Seq<TriColor>,
    frame: Seq<TriColor>,
    woke: bool,
)
    ensures
        panel_after(
            panel,
            if woke {
                seq![PanelRequest::WakeUp, PanelRequest::ClearFrame, PanelRequest::WaitUntilIdle]
            } else {
                seq![PanelRequest::ClearFrame, PanelRequest::WaitUntilIdle]
            },
            frame,
        ) == all_white(),
{
    let requests = if woke {
        seq![PanelRequest::WakeUp, PanelRequest::ClearFrame, PanelRequest::WaitUntilIdle]
    } else {
        seq![PanelRequest::ClearFrame, PanelRequest::WaitUntilIdle]
    };
    reveal_with_fuel(panel_after, 4);
    assert(requests.drop_first().len() < 3);
    assert(panel_after(panel, requests, frame) == all_white());
}

} // verus!
