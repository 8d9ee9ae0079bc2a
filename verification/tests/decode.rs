use termvid::bitmap::{decode_frame, decode_row, read_header, Cell, DecodeError, FrameHeader};
use termvid::driver::decode_stream;

/// Builds one frame: `pixel_offset` header bytes with the metadata fields
/// at their fixed offsets, followed by the given stored rows (bottom row
/// first, each already padded to a 4-byte boundary).
fn make_frame(pixel_offset: u8, width: u32, height: u32, bpp: u8, stored_rows: &[&[u8]]) -> Vec<u8> {
    let mut bytes = vec![0u8; pixel_offset as usize];
    bytes[10] = pixel_offset;
    bytes[18..22].copy_from_slice(&width.to_le_bytes());
    bytes[22..26].copy_from_slice(&height.to_le_bytes());
    bytes[28] = bpp;
    for row in stored_rows {
        bytes.extend_from_slice(row);
    }
    bytes
}

fn cell(red: u8, green: u8, blue: u8) -> Cell {
    Cell { red, green, blue }
}

/// The 2x2 frame of the format walkthrough: stored bottom row holds red
/// then green, stored top row holds blue then white, rows padded to 8
/// bytes.
fn sample_frame() -> Vec<u8> {
    make_frame(
        54,
        2,
        2,
        24,
        &[
            &[0, 0, 255, 0, 255, 0, 0, 0],       // bottom: red, green
            &[255, 0, 0, 255, 255, 255, 0, 0],   // top: blue, white
        ],
    )
}

#[test]
fn read_header_reads_fixed_offsets() {
    let stream = sample_frame();
    let header = read_header(&stream, 0).unwrap();
    assert_eq!(
        header,
        FrameHeader { pixel_offset: 54, width: 2, height: 2, bits_per_pixel: 24 }
    );
}

#[test]
fn read_header_twice_agrees() {
    let stream = sample_frame();
    let first = read_header(&stream, 0);
    let second = read_header(&stream, 0);
    assert_eq!(first, second);
    assert_eq!(stream, sample_frame());
}

#[test]
fn read_header_rejects_short_stream() {
    let stream = vec![0u8; 31];
    assert_eq!(read_header(&stream, 0), Err(DecodeError::MalformedHeader));
    let stream = sample_frame();
    assert_eq!(read_header(&stream, 39), Err(DecodeError::MalformedHeader));
    assert_eq!(read_header(&stream, usize::MAX), Err(DecodeError::MalformedHeader));
}

#[test]
fn decode_row_reorders_channels_left_to_right() {
    let mut stream = vec![0u8; 4];
    stream.extend_from_slice(&[1, 2, 3, 4, 5, 6]);
    let cells = decode_row(&stream, 4, 2).unwrap();
    assert_eq!(cells, vec![cell(3, 2, 1), cell(6, 5, 4)]);
}

#[test]
fn decode_row_boundary_is_exact() {
    let stream = vec![7u8; 10];
    assert!(decode_row(&stream, 4, 2).is_ok());
    assert_eq!(decode_row(&stream, 5, 2), Err(DecodeError::OutOfBounds));
    assert_eq!(decode_row(&stream, 10, 1), Err(DecodeError::OutOfBounds));
}

#[test]
fn decode_frame_emits_top_row_first_with_channel_reorder() {
    let stream = sample_frame();
    let frame = decode_frame(&stream, 0).unwrap();
    assert_eq!(frame.next_frame_start, 70);
    assert_eq!(
        frame.rows,
        vec![
            vec![cell(0, 0, 255), cell(255, 255, 255)], // display top: blue, white
            vec![cell(255, 0, 0), cell(0, 255, 0)],     // display bottom: red, green
        ]
    );
}

#[test]
fn decode_frame_zero_height_is_a_no_op() {
    let stream = make_frame(54, 2, 0, 24, &[]);
    let frame = decode_frame(&stream, 0).unwrap();
    assert_eq!(frame.next_frame_start, 54);
    assert!(frame.rows.is_empty());
}

#[test]
fn decode_frame_zero_width_is_a_no_op() {
    let stream = make_frame(54, 0, 3, 24, &[]);
    let frame = decode_frame(&stream, 0).unwrap();
    assert_eq!(frame.next_frame_start, 54);
    assert!(frame.rows.is_empty());
}

/// A zero-area frame must not fail even when its pixel offset points past
/// the stream's end: the decode is a no-op that returns the pixel-array
/// start unchanged.
#[test]
fn zero_area_frame_may_point_past_the_stream() {
    let mut stream = vec![0u8; 32];
    stream[10] = 54;
    stream[28] = 24;
    let frame = decode_frame(&stream, 0).unwrap();
    assert_eq!(frame.next_frame_start, 54);
    assert!(frame.rows.is_empty());

    let frames = decode_stream(&stream).unwrap();
    assert_eq!(frames.len(), 1);
    assert_eq!(frames[0].next_frame_start, 54);
    assert!(frames[0].rows.is_empty());
}

#[test]
fn decode_frame_rejects_unsupported_depth() {
    let stream = make_frame(54, 1, 1, 32, &[&[0, 0, 0, 0]]);
    assert_eq!(decode_frame(&stream, 0), Err(DecodeError::UnsupportedPixelFormat));
}

#[test]
fn decode_frame_truncated_mid_row_fails() {
    let mut stream = sample_frame();
    stream.truncate(69);
    assert_eq!(decode_frame(&stream, 0), Err(DecodeError::OutOfBounds));
}

#[test]
fn decode_frame_needs_a_full_header() {
    let stream: Vec<u8> = Vec::new();
    assert_eq!(decode_frame(&stream, 0), Err(DecodeError::MalformedHeader));
}

/// A second frame whose header begins exactly where the first frame ends:
/// both decode, back to back, with no gap and no overlap.
#[test]
fn two_frame_stream_decodes_end_to_end() {
    let mut stream = sample_frame();
    let second = make_frame(
        54,
        2,
        2,
        24,
        &[
            &[9, 8, 7, 6, 5, 4, 0, 0],
            &[3, 2, 1, 0, 1, 2, 0, 0],
        ],
    );
    stream.extend_from_slice(&second);
    assert_eq!(stream.len(), 140);

    let frames = decode_stream(&stream).unwrap();
    assert_eq!(frames.len(), 2);
    assert_eq!(frames[0].next_frame_start, 70);
    assert_eq!(frames[1].next_frame_start, 140);
    for frame in &frames {
        assert_eq!(frame.rows.len(), 2);
        assert!(frame.rows.iter().all(|row| row.len() == 2));
    }
    assert_eq!(
        frames[0].rows,
        vec![
            vec![cell(0, 0, 255), cell(255, 255, 255)],
            vec![cell(255, 0, 0), cell(0, 255, 0)],
        ]
    );
    assert_eq!(
        frames[1].rows,
        vec![
            vec![cell(1, 2, 3), cell(2, 1, 0)],
            vec![cell(7, 8, 9), cell(4, 5, 6)],
        ]
    );
}

#[test]
fn empty_stream_holds_no_frames() {
    let stream: Vec<u8> = Vec::new();
    let frames = decode_stream(&stream).unwrap();
    assert!(frames.is_empty());
}

#[test]
fn driver_halts_on_first_corrupt_frame() {
    let mut stream = sample_frame();
    stream.extend_from_slice(&[0u8; 10]);
    assert_eq!(decode_stream(&stream), Err(DecodeError::MalformedHeader));

    let mut stream = sample_frame();
    let mut second = sample_frame();
    second.truncate(69);
    stream.extend_from_slice(&second);
    assert_eq!(decode_stream(&stream), Err(DecodeError::OutOfBounds));
}
