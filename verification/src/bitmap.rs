//! Parsing of a single bitmap frame embedded in a byte stream: fixed-offset
//! header fields, padded scan lines stored bottom-up, and pixels stored in
//! blue-green-red channel order.

use vstd::prelude::*;

verus! {

/// Why a frame could not be decoded. Every kind is fatal to playback:
/// a stream that trips any of these is treated as corrupt input, never
/// retried and never partially displayed.
#[derive(Clone, Copy, Debug, PartialEq, Eq, Structural)]
pub enum DecodeError {
    /// The stream is too short at a frame boundary for the fixed-offset
    /// header fields to be read.
    MalformedHeader,
    /// The bits-per-pixel field names a depth other than the one supported
    /// three-byte-per-pixel layout.
    UnsupportedPixelFormat,
    /// A computed row or frame extent reaches past the end of the stream.
    OutOfBounds,
}

/// The metadata a frame's header carries, read from fixed offsets relative
/// to the frame's first byte.
#[derive(Clone, Copy, Debug, PartialEq, Eq, Structural)]
pub struct FrameHeader {
    /// Distance in bytes from the frame's first byte to its pixel array.
    /// The format stores this as a single byte here, so offsets beyond 255
    /// are unsupported.
    pub pixel_offset: u8,
    /// Frame width in pixels.
    pub width: u32,
    /// Frame height in pixels.
    pub height: u32,
    /// Color depth; only 24 (three bytes per pixel) is supported.
    pub bits_per_pixel: u8,
}

/// One rendered terminal cell: the color of one source pixel, in logical
/// red-green-blue order (the stream stores the channels reversed).
#[derive(Clone, Copy, Debug, PartialEq, Eq, Structural)]
pub struct Cell {
    pub red: u8,
    pub green: u8,
    pub blue: u8,
}

/// Byte offset, within a frame, of the one-byte pixel-array offset field.
pub const PIXEL_ARRAY_OFFSET_POS: usize = 10;

/// Byte offset, within a frame, of the little-endian 32-bit width field.
pub const WIDTH_POS: usize = 18;

/// Byte offset, within a frame, of the little-endian 32-bit height field.
pub const HEIGHT_POS: usize = 22;

/// Byte offset, within a frame, of the one-byte bits-per-pixel field.
pub const BITS_PER_PIXEL_POS: usize = 28;

/// How many bytes must remain in the stream at a frame's start for all
/// header fields to be readable.
pub const HEADER_SPAN: usize = 32;

/// The only supported color depth.
pub const SUPPORTED_BITS_PER_PIXEL: u8 = 24;

/// Bytes per pixel at the supported depth.
pub const BYTES_PER_PIXEL: usize = 3;

/// The unsigned value of the four little-endian bytes at `i`.
pub open spec fn le32(s: Seq<u8>, i: int) -> int {
    s[i] + s[i + 1] * 0x100 + s[i + 2] * 0x1_0000 + s[i + 3] * 0x100_0000
}

/// All header fields of a frame starting at `start` lie inside the stream.
pub open spec fn header_readable(s: Seq<u8>, start: int) -> bool {
    0 <= start && start + HEADER_SPAN <= s.len()
}

/// The header fields of the frame starting at `start`, assuming they are
/// readable.
pub open spec fn spec_header(s: Seq<u8>, start: int) -> FrameHeader {
    FrameHeader {
        pixel_offset: s[start + PIXEL_ARRAY_OFFSET_POS],
        width: le32(s, start + WIDTH_POS) as u32,
        height: le32(s, start + HEIGHT_POS) as u32,
        bits_per_pixel: s[start + BITS_PER_PIXEL_POS],
    }
}

/// What reading a header at `start` yields: its fields, or `MalformedHeader`
/// when the stream is too short there.
pub open spec fn spec_read_header(s: Seq<u8>, start: int) -> Result<FrameHeader, DecodeError> {
    if header_readable(s, start) {
        Ok(spec_header(s, start))
    } else {
        Err(DecodeError::MalformedHeader)
    }
}

/// Reading a header is a pure function of the stream and the offset: any
/// two results that `read_header` may return for the same arguments are
/// identical, so reading the same header twice changes nothing and yields
/// the same fields both times.
pub proof fn lemma_read_header_deterministic(
    first: Result<FrameHeader, DecodeError>,
    second: Result<FrameHeader, DecodeError>,
    s: Seq<u8>,
    start: int,
)
    requires
        first == spec_read_header(s, start),
        second == spec_read_header(s, start),
    ensures
        first == second,
{
}

/// Reads the fixed-offset metadata of the frame beginning at `header_start`.
///
/// A pure read: the result is a function of the stream contents and the
/// offset alone, so repeated calls on the same arguments agree.
pub fn read_header(stream: &Vec<u8>, header_start: usize) -> (r: Result<FrameHeader, DecodeError>)
    ensures
        r == spec_read_header(stream@, header_start as int),
{
    if stream.len() < HEADER_SPAN || header_start > stream.len() - HEADER_SPAN {
        return Err(DecodeError::MalformedHeader);
    }
    let w0: u32 = stream[header_start + WIDTH_POS] as u32;
    let w1: u32 = stream[header_start + WIDTH_POS + 1] as u32;
    let w2: u32 = stream[header_start + WIDTH_POS + 2] as u32;
    let w3: u32 = stream[header_start + WIDTH_POS + 3] as u32;
    let h0: u32 = stream[header_start + HEIGHT_POS] as u32;
    let h1: u32 = stream[header_start + HEIGHT_POS + 1] as u32;
    let h2: u32 = stream[header_start + HEIGHT_POS + 2] as u32;
    let h3: u32 = stream[header_start + HEIGHT_POS + 3] as u32;
    let header = FrameHeader {
        pixel_offset: stream[header_start + PIXEL_ARRAY_OFFSET_POS],
        width: w0 + w1 * 0x100 + w2 * 0x1_0000 + w3 * 0x100_0000,
        height: h0 + h1 * 0x100 + h2 * 0x1_0000 + h3 * 0x100_0000,
        bits_per_pixel: stream[header_start + BITS_PER_PIXEL_POS],
    };
    Ok(header)
}

/// The color of the pixel whose three stream bytes start at `p`: the stream
/// stores blue first, then green, then red.
pub open spec fn spec_cell_at(s: Seq<u8>, p: int) -> Cell {
    Cell { red: s[p + 2], green: s[p + 1], blue: s[p] }
}

/// The `width` pixels of one scan line fit in the stream.
pub open spec fn row_in_bounds(s: Seq<u8>, row_start: int, width: nat) -> bool {
    0 <= row_start && row_start + width * BYTES_PER_PIXEL <= s.len()
}

/// The colors of one scan line, left to right: pixel `i` occupies the three
/// bytes at `row_start + i * BYTES_PER_PIXEL`.
pub open spec fn spec_row(s: Seq<u8>, row_start: int, width: nat) -> Seq<Cell> {
    Seq::new(width, |i: int| spec_cell_at(s, row_start + i * BYTES_PER_PIXEL))
}

/// Decodes one scan line of `width` pixels starting at `row_start` into
/// terminal cells, left to right, reordering the stored blue-green-red
/// channels into red-green-blue.
///
/// Fails with `OutOfBounds`, emitting nothing, when the line would extend
/// past the end of the stream.
pub fn decode_row(stream: &Vec<u8>, row_start: usize, width: u32) -> (r: Result<
    Vec<Cell>,
    DecodeError,
>)
    ensures
        r is Ok <==> row_in_bounds(stream@, row_start as int, width as nat),
        r matches Ok(cells) ==> cells@ == spec_row(stream@, row_start as int, width as nat),
        r is Err ==> r == Err::<Vec<Cell>, DecodeError>(DecodeError::OutOfBounds),
{
    let row_end: u128 = row_start as u128 + width as u128 * BYTES_PER_PIXEL as u128;
    if row_end > stream.len() as u128 {
        return Err(DecodeError::OutOfBounds);
    }
    let mut cells: Vec<Cell> = Vec::new();
    let mut i: u32 = 0;
    while i < width
        invariant
            i <= width,
            stream@.len() <= usize::MAX,
            row_start + width * BYTES_PER_PIXEL <= stream@.len(),
            cells@.len() == i as int,
            forall|j: int|
                0 <= j < i ==> cells@[j] == spec_cell_at(
                    stream@,
                    row_start + j * BYTES_PER_PIXEL,
                ),
        decreases width - i,
    {
        proof {
            assert((i as int + 1) * BYTES_PER_PIXEL <= width as int * BYTES_PER_PIXEL)
                by (nonlinear_arith)
                requires
                    i < width,
            ;
        }
        let pos: usize = row_start + (i as usize) * BYTES_PER_PIXEL;
        let blue: u8 = stream[pos];
        let green: u8 = stream[pos + 1];
        let red: u8 = stream[pos + 2];
        cells.push(Cell { red, green, blue });
        i = i + 1;
    }
    proof {
        assert(cells@ =~= spec_row(stream@, row_start as int, width as nat));
    }
    Ok(cells)
}

/// Byte length of one stored scan line: the pixel bytes of one row, padded
/// up to the next 4-byte boundary.
pub open spec fn spec_stride(width: nat) -> nat {
    (((width * BYTES_PER_PIXEL + 3) / 4) * 4) as nat
}

/// A stored scan line is at least as long as its pixel bytes and the
/// padding never reaches a full 4 bytes.
pub proof fn lemma_stride_bounds(width: nat)
    ensures
        width * BYTES_PER_PIXEL <= spec_stride(width) < width * BYTES_PER_PIXEL + 4,
{
    let pixel_bytes = width * BYTES_PER_PIXEL;
    assert(pixel_bytes <= ((pixel_bytes + 3) / 4) * 4 < pixel_bytes + 4) by (nonlinear_arith);
}

/// The rows of a frame in display order, top row first. The stream stores
/// rows bottom-up, so the visual row `r` of a frame `height` rows tall is
/// the stored row `height - 1 - r`.
pub open spec fn spec_frame_rows(
    s: Seq<u8>,
    pixel_start: int,
    width: nat,
    height: nat,
) -> Seq<Seq<Cell>> {
    Seq::new(
        height,
        |r: int| spec_row(s, pixel_start + (height - 1 - r) * spec_stride(width), width),
    )
}

/// One decoded frame: its rows of cells in display order (top row first,
/// cells left to right), and the stream offset just past the frame, where
/// the next frame's header starts or the stream ends.
#[derive(Debug, PartialEq, Eq)]
pub struct DecodedFrame {
    pub rows: Vec<Vec<Cell>>,
    pub next_frame_start: usize,
}

impl View for DecodedFrame {
    type V = Seq<Seq<Cell>>;

    open spec fn view(&self) -> Seq<Seq<Cell>> {
        self.rows@.map_values(|row: Vec<Cell>| row@)
    }
}

/// What decoding the frame at `start` yields: on success, the rows in
/// display order paired with the offset just past the frame; otherwise the
/// error the malformed stream earns.
///
/// A frame of zero width or zero height is a no-op: it decodes to no rows
/// and ends right at its pixel-array start, without failing, even when
/// that start lies past the end of the stream. Only a frame with pixels
/// has its extent held against the stream length.
pub open spec fn spec_decode_frame(s: Seq<u8>, start: int) -> Result<
    (Seq<Seq<Cell>>, int),
    DecodeError,
> {
    match spec_read_header(s, start) {
        Err(e) => Err(e),
        Ok(h) => {
            if h.bits_per_pixel != SUPPORTED_BITS_PER_PIXEL {
                Err(DecodeError::UnsupportedPixelFormat)
            } else {
                let pixel_start = start + h.pixel_offset;
                if h.width == 0 || h.height == 0 {
                    Ok((Seq::<Seq<Cell>>::empty(), pixel_start))
                } else {
                    let frame_end = pixel_start + h.height * spec_stride(h.width as nat);
                    if frame_end > s.len() {
                        Err(DecodeError::OutOfBounds)
                    } else {
                        Ok(
                            (
                                spec_frame_rows(s, pixel_start, h.width as nat, h.height as nat),
                                frame_end,
                            ),
                        )
                    }
                }
            }
        },
    }
}

/// Decodes the frame whose header starts at `frame_start` and returns its
/// rows in display order together with the offset just past the frame.
///
/// The header is read at fixed offsets; only the 24-bit pixel format is
/// accepted; the whole padded pixel area of a frame with pixels must lie
/// inside the stream. A frame of zero width or height yields no rows and
/// ends at its pixel-array start without failing, even when that start
/// lies past the stream's end. On any failure nothing is emitted.
///
/// The length bound is a machine limit: a zero-area frame may end up to a
/// one-byte pixel offset past a header read near the stream's end, and
/// that offset must still fit in `usize`.
pub fn decode_frame(stream: &Vec<u8>, frame_start: usize) -> (r: Result<
    DecodedFrame,
    DecodeError,
>)
    requires
        stream@.len() + u8::MAX <= usize::MAX,
    ensures
        r matches Ok(f) ==> spec_decode_frame(stream@, frame_start as int) == Ok::<
            _,
            DecodeError,
        >((f@, f.next_frame_start as int)),
        r matches Err(e) ==> spec_decode_frame(stream@, frame_start as int) == Err::<
            (Seq<Seq<Cell>>, int),
            _,
        >(e),
{
    let header = match read_header(stream, frame_start) {
        Ok(h) => h,
        Err(e) => {
            return Err(e);
        },
    };
    if header.bits_per_pixel != SUPPORTED_BITS_PER_PIXEL {
        return Err(DecodeError::UnsupportedPixelFormat);
    }
    let width = header.width;
    let height = header.height;
    let pixel_start_wide: u128 = frame_start as u128 + header.pixel_offset as u128;
    proof {
        assert(pixel_start_wide <= usize::MAX as u128);
    }
    if width == 0 || height == 0 {
        let empty_rows: Vec<Vec<Cell>> = Vec::new();
        proof {
            assert(empty_rows@.map_values(|row: Vec<Cell>| row@) =~= Seq::<Seq<Cell>>::empty());
        }
        return Ok(
            DecodedFrame { rows: empty_rows, next_frame_start: pixel_start_wide as usize },
        );
    }
    let stride_wide: u128 = ((width as u128 * BYTES_PER_PIXEL as u128) + 3) / 4 * 4;
    proof {
        assert(stride_wide <= 0x3_0000_0000) by (nonlinear_arith)
            requires
                stride_wide == ((width as u128 * 3) + 3) / 4 * 4,
                width <= 0xFFFF_FFFFu128,
        ;
        assert(height as u128 * stride_wide <= 0xFFFF_FFFFu128 * 0x3_0000_0000)
            by (nonlinear_arith)
            requires
                height as u128 <= 0xFFFF_FFFFu128,
                0 <= stride_wide <= 0x3_0000_0000,
        ;
    }
    let frame_end_wide: u128 = pixel_start_wide + height as u128 * stride_wide;
    if frame_end_wide > stream.len() as u128 {
        return Err(DecodeError::OutOfBounds);
    }
    let pixel_start: usize = pixel_start_wide as usize;
    proof {
        assert(stride_wide == spec_stride(width as nat));
        assert(stride_wide <= frame_end_wide) by (nonlinear_arith)
            requires
                height >= 1,
                frame_end_wide == pixel_start_wide + height * stride_wide,
                pixel_start_wide >= 0,
        ;
        lemma_stride_bounds(width as nat);
    }
    let stride: usize = stride_wide as usize;
    let frame_end: usize = frame_end_wide as usize;
    let ghost spec_rows = spec_frame_rows(stream@, pixel_start as int, width as nat, height as nat);
    let mut rows: Vec<Vec<Cell>> = Vec::new();
    let mut r: u32 = 0;
    while r < height
        invariant
            r <= height,
            1 <= height,
            stream@.len() <= usize::MAX,
            stride == spec_stride(width as nat),
            width * BYTES_PER_PIXEL <= stride,
            pixel_start + height * stride <= stream@.len(),
            spec_rows == spec_frame_rows(stream@, pixel_start as int, width as nat, height as nat),
            rows@.len() == r as int,
            forall|j: int| 0 <= j < r ==> rows@[j]@ == spec_rows[j],
        decreases height - r,
    {
        proof {
            assert((height - 1 - r) * stride + stride <= height * stride) by (nonlinear_arith)
                requires
                    r < height,
                    stride >= 0,
            ;
        }
        let stored_row: usize = (height - 1 - r) as usize;
        let row_start: usize = pixel_start + stored_row * stride;
        let row = match decode_row(stream, row_start, width) {
            Ok(cells) => cells,
            Err(e) => {
                proof {
                    assert(row_in_bounds(stream@, row_start as int, width as nat));
                    assert(false);
                }
                return Err(e);
            },
        };
        rows.push(row);
        proof {
            assert(rows@[r as int]@ == spec_rows[r as int]);
        }
        r = r + 1;
    }
    let frame = DecodedFrame { rows, next_frame_start: frame_end };
    proof {
        assert(frame@ =~= spec_rows);
    }
    Ok(frame)
}

} // verus!
