use clipboard_win::Clipboard;
use clipboard_win::dib;
use clipboard_win::error::ErrorKind;
use clipboard_win::formats;
use clipboard_win::image::Image;
use clipboard_win::raw;
use clipboard_win::state::ClipboardState;
use clipboard_win::utils::{unlikely_empty_size_result, unlikely_last_error, RawMem};

fn open_state() -> (ClipboardState, Clipboard) {
    let mut cb = ClipboardState::new();
    let clip = Clipboard::new(&mut cb).expect("Open clipboard");
    (cb, clip)
}

#[test]
fn raw_truncation_short_buffer() {
    let (mut cb, _clip) = open_state();
    let data = vec![1u8, 2, 3, 4, 5];
    raw::set(&mut cb, 77, &data).expect("Store payload");

    let mut out = vec![0u8; 3];
    let copied = raw::get(&cb, 77, &mut out).expect("Read truncated");
    assert_eq!(copied, 3);
    assert_eq!(out, vec![1, 2, 3]);
}

#[test]
fn raw_truncation_large_buffer() {
    let (mut cb, _clip) = open_state();
    let data = vec![1u8, 2, 3, 4, 5];
    raw::set(&mut cb, 77, &data).expect("Store payload");

    let mut out = vec![9u8; 8];
    let copied = raw::get(&cb, 77, &mut out).expect("Read whole");
    assert_eq!(copied, 5);
    assert_eq!(out, vec![1, 2, 3, 4, 5, 9, 9, 9]);

    let mut empty_out: Vec<u8> = Vec::new();
    let copied = raw::get(&cb, 77, &mut empty_out).expect("Read into empty");
    assert_eq!(copied, 0);
    assert!(empty_out.is_empty());
}

#[test]
fn format_absence_after_empty() {
    let (mut cb, _clip) = open_state();
    raw::set_string(&mut cb, "something").expect("Store text");
    raw::empty(&mut cb).expect("Empty clipboard");

    assert!(!raw::is_format_avail(&cb, formats::CF_UNICODETEXT));
    assert!(!raw::is_format_avail(&cb, formats::CF_TEXT));
    assert!(!raw::is_format_avail(&cb, 0xC000));

    let mut out: Vec<u8> = Vec::new();
    assert_eq!(raw::get_vec(&cb, formats::CF_TEXT, &mut out), Err(ErrorKind::FormatUnavailable));
    let mut buf = vec![0u8; 4];
    assert_eq!(raw::get(&cb, formats::CF_TEXT, &mut buf), Err(ErrorKind::FormatUnavailable));
    let mut text = String::new();
    assert_eq!(raw::get_string(&cb, &mut text), Err(ErrorKind::FormatUnavailable));
    assert_eq!(raw::count_formats(&cb), Some(0));
}

#[test]
fn enumeration_completeness() {
    let (mut cb, _clip) = open_state();
    raw::set(&mut cb, formats::CF_UNICODETEXT, &vec![0x61, 0x00, 0x00, 0x00]).expect("Store text");
    let custom = raw::register_format(&mut cb, "my-format").expect("Register name");
    raw::set_without_clear(&mut cb, custom, &vec![1, 2, 3]).expect("Store custom payload");

    assert_eq!(raw::count_formats(&cb), Some(2));
    let listed = raw::get_clipboard_formats(&cb).expect("List formats");
    assert_eq!(listed, vec![formats::CF_UNICODETEXT, custom]);

    let mut enumerator = raw::EnumFormats::new();
    assert_eq!(enumerator.next(&cb), Some(formats::CF_UNICODETEXT));
    assert_eq!(enumerator.next(&cb), Some(custom));
    assert_eq!(enumerator.next(&cb), None);
    enumerator.reset();
    assert_eq!(enumerator.next(&cb), Some(formats::CF_UNICODETEXT));

    let mut from_custom = raw::EnumFormats::from(custom);
    assert_eq!(from_custom.next(&cb), None);

    let mut enumerator = raw::EnumFormats::new();
    assert_eq!(enumerator.size_hint(&cb), (0, Some(2)));

    // Replacing an existing payload keeps the slot's place in the order.
    raw::set_without_clear(&mut cb, formats::CF_UNICODETEXT, &vec![0x62, 0x00, 0x00, 0x00])
        .expect("Replace text payload");
    let listed = raw::get_clipboard_formats(&cb).expect("List formats again");
    assert_eq!(listed, vec![formats::CF_UNICODETEXT, custom]);
}

#[test]
fn register_format_idempotent() {
    let mut cb = ClipboardState::new();
    let first = raw::register_format(&mut cb, "my-format").expect("Register once");
    let second = raw::register_format(&mut cb, "my-format").expect("Register twice");
    assert_eq!(first, second);
    assert!((0xC000..=0xFFFF).contains(&first));

    let other = raw::register_format(&mut cb, "other-format").expect("Register another");
    assert_ne!(first, other);
    assert_eq!(raw::register_format(&mut cb, ""), None);
}

#[test]
fn registered_name_resolution() {
    let mut cb = ClipboardState::new();
    let code = raw::register_format(&mut cb, "my-format").expect("Register name");
    let name = raw::format_name_big(&cb, code).expect("Resolve registered name");
    assert_eq!(name, "my-format");
    assert_eq!(raw::format_name_big(&cb, code + 1), None);
}

#[test]
fn predefined_and_range_names() {
    let cb = ClipboardState::new();
    assert_eq!(raw::format_name_big(&cb, formats::CF_BITMAP).unwrap(), "CF_BITMAP");
    assert_eq!(raw::format_name_big(&cb, formats::CF_UNICODETEXT).unwrap(), "CF_UNICODETEXT");
    assert_eq!(raw::format_name_big(&cb, formats::CF_HDROP).unwrap(), "CF_HDROP");
    assert_eq!(raw::format_name_big(&cb, 0x0307).unwrap(), "CF_GDIOBJ7");
    assert_eq!(raw::format_name_big(&cb, 0x03FF).unwrap(), "CF_GDIOBJ255");
    assert_eq!(raw::format_name_big(&cb, 0x0200).unwrap(), "CF_PRIVATE0");
    assert_eq!(raw::format_name_big(&cb, 0x02FF).unwrap(), "CF_PRIVATE255");
    assert_eq!(raw::format_name_big(&cb, 0x5000), None);
}

#[test]
fn session_exclusivity() {
    let mut cb = ClipboardState::new();
    let not_open = Err(ErrorKind::PlatformFailure(clipboard_win::error::ERROR_CLIPBOARD_NOT_OPEN));

    assert_eq!(raw::set(&mut cb, 77, &vec![1]), not_open.clone());
    assert_eq!(raw::set_without_clear(&mut cb, 77, &vec![1]), not_open.clone());
    assert_eq!(raw::set_string(&mut cb, "text"), not_open.clone());
    assert_eq!(raw::empty(&mut cb), not_open.clone());
    let mut out: Vec<u8> = Vec::new();
    assert_eq!(raw::get_vec(&cb, 77, &mut out), Err(ErrorKind::PlatformFailure(1418)));
    let mut text = String::new();
    assert_eq!(raw::get_string(&cb, &mut text), Err(ErrorKind::PlatformFailure(1418)));
    assert_eq!(raw::close(&mut cb), Err(ErrorKind::PlatformFailure(1418)));
    assert_eq!(raw::size(&cb, 77), None);

    assert!(raw::open(&mut cb).is_ok());
    assert_eq!(
        raw::open(&mut cb),
        Err(ErrorKind::PlatformFailure(clipboard_win::error::ERROR_ACCESS_DENIED))
    );
    assert!(Clipboard::new(&mut cb).is_err());
    assert!(raw::close(&mut cb).is_ok());
}

#[test]
fn set_rejects_format_zero() {
    let (mut cb, _clip) = open_state();
    assert_eq!(
        raw::set(&mut cb, 0, &vec![1]),
        Err(ErrorKind::PlatformFailure(clipboard_win::error::ERROR_INVALID_PARAMETER))
    );
}

#[test]
fn wide_text_round_trip() {
    let (mut cb, _clip) = open_state();
    let text = "snowman \u{2603} and beyond \u{1F600}\u{10FFFF}";
    raw::set_string(&mut cb, text).expect("Store text");

    let mut output = String::new();
    let appended = raw::get_string(&cb, &mut output).expect("Read text");
    assert_eq!(appended, text.len());
    assert_eq!(output, text);
}

#[test]
fn lossy_decoding_of_unpaired_surrogate() {
    let (mut cb, _clip) = open_state();
    // One lone high surrogate (0xD83D), then the terminator.
    let payload = vec![0x3Du8, 0xD8, 0x00, 0x00];
    raw::set(&mut cb, formats::CF_UNICODETEXT, &payload).expect("Store units");

    let mut output = String::new();
    let appended = raw::get_string(&cb, &mut output).expect("Read text");
    assert_eq!(output, "\u{FFFD}");
    assert_eq!(appended, 3);
}

#[test]
fn embedded_nul_survives_trailing_trim() {
    let (mut cb, _clip) = open_state();
    // "a", NUL, "b", then the terminator: only the trailing NUL is trimmed,
    // interior NULs pass through.
    let payload = vec![0x61u8, 0x00, 0x00, 0x00, 0x62, 0x00, 0x00, 0x00];
    raw::set(&mut cb, formats::CF_UNICODETEXT, &payload).expect("Store units");

    let mut output = String::new();
    let appended = raw::get_string(&cb, &mut output).expect("Read text");
    assert_eq!(output, "a\0b");
    assert_eq!(appended, 3);

    // Round trip through the setter keeps the interior NUL too.
    raw::set_string(&mut cb, "a\0b").expect("Store text with interior NUL");
    let mut output = String::new();
    let appended = raw::get_string(&cb, &mut output).expect("Read it back");
    assert_eq!(output, "a\0b");
    assert_eq!(appended, 3);
}

#[test]
fn lone_terminator_reads_as_empty() {
    let (mut cb, _clip) = open_state();
    // A payload of exactly one zero unit: the terminator alone.
    raw::set(&mut cb, formats::CF_UNICODETEXT, &vec![0u8, 0]).expect("Store terminator");

    let mut output = String::from("kept");
    let appended = raw::get_string(&cb, &mut output).expect("Read text");
    assert_eq!(output, "kept");
    assert_eq!(appended, 0);

    // Without any terminator, everything decoded is kept.
    raw::set(&mut cb, formats::CF_UNICODETEXT, &vec![0x62u8, 0]).expect("Store bare unit");
    let mut output = String::new();
    let appended = raw::get_string(&cb, &mut output).expect("Read text");
    assert_eq!(output, "b");
    assert_eq!(appended, 1);
}

#[test]
fn empty_text_payload_is_encoding_failure() {
    let (mut cb, _clip) = open_state();
    let payload = vec![0x61u8];
    raw::set(&mut cb, formats::CF_UNICODETEXT, &payload).expect("Store odd byte");

    let mut output = String::new();
    assert_eq!(raw::get_string(&cb, &mut output), Err(ErrorKind::EncodingFailure));
    assert_eq!(output, "");
}

#[test]
fn size_and_seq_num() {
    let mut cb = ClipboardState::new();
    assert_eq!(raw::seq_num(&cb), None);
    assert_eq!(raw::size(&cb, 77), None);

    let clip = Clipboard::new(&mut cb).expect("Open clipboard");
    raw::set(&mut cb, 77, &vec![1, 2, 3]).expect("Store payload");
    assert_eq!(raw::size(&cb, 77), Some(3));
    assert_eq!(raw::size(&cb, 78), None);
    // One store is one empty plus one attach: the counter advances twice.
    assert_eq!(raw::seq_num(&cb), Some(2));
    let first = raw::seq_num(&cb).expect("Counter after store");
    raw::empty(&mut cb).expect("Empty clipboard");
    let second = raw::seq_num(&cb).expect("Counter after empty");
    assert!(second > first);
    let _ = clip.close(&mut cb);
}

#[test]
fn exact_bmp_stream_for_tiny_bitmap() {
    let header = Image::dib_header_for(1, 1, 1, 24);
    assert_eq!(header.size_image, 4);
    assert_eq!(header.clr_used, 0);
    let pixels = vec![10u8, 20, 30, 0];
    let image = Image::from_dib(&header, &Vec::new(), &pixels);

    let mut expected: Vec<u8> = vec![
        0x42, 0x4D, // signature "BM"
        58, 0, 0, 0, // total size: 54 + 4
        0, 0, 0, 0, // reserved
        54, 0, 0, 0, // pixel offset
        40, 0, 0, 0, // header size
        1, 0, 0, 0, // width
        1, 0, 0, 0, // height
        1, 0, // planes
        24, 0, // bits per pixel
        0, 0, 0, 0, // compression
        4, 0, 0, 0, // image size
        0, 0, 0, 0, // x resolution
        0, 0, 0, 0, // y resolution
        0, 0, 0, 0, // colors used
        0, 0, 0, 0, // colors important
    ];
    expected.extend_from_slice(&pixels);
    assert_eq!(image.bytes, expected);
}

#[test]
fn bmp_write_back_and_decode() {
    let (mut cb, _clip) = open_state();
    let header = Image::dib_header_for(2, 2, 1, 32);
    assert_eq!(header.size_image, 16);
    let mut pixels: Vec<u8> = Vec::new();
    for i in 0..16u8 {
        pixels.push(i);
    }
    let image = Image::from_dib(&header, &Vec::new(), &pixels);

    image.write_to_clipboard(&mut cb).expect("Write bitmap back");
    assert!(raw::is_format_avail(&cb, formats::CF_BITMAP));

    let read = Image::from_clipboard(&cb).expect("Decode bitmap");
    assert_eq!(read.bytes, image.bytes);
}

#[test]
fn bmp_write_back_rejects_malformed_streams() {
    let (mut cb, _clip) = open_state();
    let invalid = Err(ErrorKind::PlatformFailure(clipboard_win::error::ERROR_INVALID_DATA));

    let short = Image { bytes: vec![0u8; 10] };
    assert_eq!(short.write_to_clipboard(&mut cb), invalid.clone());

    // Declared pixel offset past the end of the stream.
    let mut bytes = vec![0u8; 60];
    bytes[10] = 200;
    let bad_offset = Image { bytes };
    assert_eq!(bad_offset.write_to_clipboard(&mut cb), invalid);
}

#[test]
fn dib_payload_renders_as_bmp() {
    let (mut cb, _clip) = open_state();
    // A DIB payload: 40-byte header, four pixel bytes.
    let mut payload: Vec<u8> = vec![0u8; 44];
    payload[0] = 40; // header size
    payload[20] = 4; // image size
    payload[40] = 7;
    payload[41] = 8;
    payload[42] = 9;
    raw::set(&mut cb, formats::CF_DIB, &payload).expect("Store payload");

    let image = dib::Image::from_clipboard(&cb, formats::CF_DIB).expect("Lock payload");
    assert_eq!(image.as_bytes(), &payload);
    assert_eq!(image.size(), 58);

    let stream = image.to_vec();
    assert_eq!(stream.len(), 58);
    assert_eq!(&stream[0..2], &[0x42, 0x4D]);
    assert_eq!(&stream[2..6], &[58, 0, 0, 0]);
    assert_eq!(&stream[10..14], &[54, 0, 0, 0]);
    assert_eq!(&stream[14..], &payload[..]);

    let mut appended = vec![0xAAu8];
    let written = image.write(&mut appended).expect("Append stream");
    assert_eq!(written, 58);
    assert_eq!(appended.len(), 59);
    assert_eq!(&appended[1..], &stream[..]);
}

#[test]
fn dib_trusts_declared_header_size() {
    let (mut cb, _clip) = open_state();
    // An extended header: the declared size is 124, the pixel offset follows it.
    let mut payload: Vec<u8> = vec![0u8; 128];
    payload[0] = 124; // header size
    payload[20] = 4; // image size
    payload[124] = 1;
    payload[125] = 2;
    payload[126] = 3;
    payload[127] = 4;
    raw::set(&mut cb, formats::CF_DIBV5, &payload).expect("Store payload");

    let image = dib::Image::from_clipboard(&cb, formats::CF_DIBV5).expect("Lock payload");
    assert_eq!(image.size(), 142); // 14 + 124 + 4
    let stream = image.to_vec();
    assert_eq!(stream.len(), 142);
    assert_eq!(&stream[10..14], &[138, 0, 0, 0]); // pixel offset: 14 + 124
    assert_eq!(&stream[138..], &[1, 2, 3, 4]);
}

#[test]
fn dib_clamps_to_declared_bytes() {
    let (mut cb, _clip) = open_state();
    // Allocation slack: six bytes past the declared pixel data.
    let mut payload: Vec<u8> = vec![0u8; 50];
    payload[0] = 40;
    payload[20] = 4;
    raw::set(&mut cb, formats::CF_DIB, &payload).expect("Store payload");

    let image = dib::Image::from_clipboard(&cb, formats::CF_DIB).expect("Lock payload");
    assert_eq!(image.size(), 58);
    let stream = image.to_vec();
    assert_eq!(stream.len(), 58); // the slack is not emitted
    assert_eq!(&stream[14..], &payload[..44]);
}

#[test]
fn dib_rejects_truncated_payload() {
    let (mut cb, _clip) = open_state();
    // Too short to carry the declared header-size and image-size fields.
    raw::set(&mut cb, formats::CF_DIB, &vec![1u8; 10]).expect("Store payload");
    assert!(matches!(
        dib::Image::from_clipboard(&cb, formats::CF_DIB),
        Err(e) if e == ErrorKind::PlatformFailure(clipboard_win::error::ERROR_INVALID_DATA)
    ));
}

#[test]
fn file_list_preserves_drop_order() {
    let (mut cb, _clip) = open_state();
    let mut payload: Vec<u8> = Vec::new();
    dib::push_le32(&mut payload, 20); // offset of the path region
    dib::push_le32(&mut payload, 0); // drop point x
    dib::push_le32(&mut payload, 0); // drop point y
    dib::push_le32(&mut payload, 0); // not a non-client drop
    dib::push_le32(&mut payload, 1); // wide characters
    for path in ["C:\\alpha.txt", "C:\\beta.txt"] {
        for unit in path.encode_utf16() {
            payload.push((unit % 256) as u8);
            payload.push((unit / 256) as u8);
        }
        payload.push(0);
        payload.push(0);
    }
    payload.push(0);
    payload.push(0);
    raw::set(&mut cb, formats::CF_HDROP, &payload).expect("Store drop list");

    let files = raw::get_file_list(&cb).expect("Read drop list");
    assert_eq!(files, vec!["C:\\alpha.txt".to_string(), "C:\\beta.txt".to_string()]);
}

#[test]
fn file_list_rejects_narrow_or_malformed_payloads() {
    let (mut cb, _clip) = open_state();
    let invalid = Err(ErrorKind::PlatformFailure(clipboard_win::error::ERROR_INVALID_DATA));

    let mut payload: Vec<u8> = Vec::new();
    dib::push_le32(&mut payload, 20);
    dib::push_le32(&mut payload, 0);
    dib::push_le32(&mut payload, 0);
    dib::push_le32(&mut payload, 0);
    dib::push_le32(&mut payload, 0); // narrow characters: unsupported
    payload.push(0);
    raw::set(&mut cb, formats::CF_HDROP, &payload).expect("Store narrow list");
    assert_eq!(raw::get_file_list(&cb), invalid);

    raw::set(&mut cb, formats::CF_HDROP, &vec![1u8, 2, 3]).expect("Store short payload");
    assert_eq!(raw::get_file_list(&cb), invalid);
}

#[test]
fn raw_mem_lock_discipline() {
    let mut mem = RawMem::new_global_mem(4).expect("Allocate block");
    assert_eq!(mem.len(), 4);
    mem.lock().expect("Lock block");
    mem.write_prefix(&vec![9u8, 8]);
    assert_eq!(mem.get(), &vec![9u8, 8, 0, 0]);
    mem.unlock();
    mem.release();

    let mut borrowed = RawMem::from_borrowed(vec![1u8, 2, 3]);
    borrowed.lock().expect("Lock borrowed block");
    assert_eq!(borrowed.get(), &vec![1u8, 2, 3]);
    borrowed.unlock();

    let rust_mem = RawMem::new_rust_mem(2).expect("Allocate process-heap block");
    assert_eq!(rust_mem.len(), 2);
}

#[test]
fn cold_path_helpers() {
    assert_eq!(unlikely_empty_size_result(), 0);
    let err = unlikely_last_error();
    assert!(err.raw_code().is_some());
    assert!(!err.message().is_empty());
    assert_eq!(ErrorKind::FormatUnavailable.raw_code(), None);
    assert!(!ErrorKind::FormatUnavailable.message().is_empty());
    assert!(!ErrorKind::EncodingFailure.message().is_empty());
}

#[test]
fn session_runner_opens_runs_and_closes() {
    let (state, result) = clipboard_win::with_clipboard(ClipboardState::new(), |mut s| {
        raw::set_string(&mut s, "ran inside").expect("Store text inside session");
        s
    });
    assert_eq!(result, Ok(()));
    assert!(!state.is_open);
    assert!(raw::is_format_avail(&state, formats::CF_UNICODETEXT));

    // An already-held clipboard refuses the session and the body never runs.
    let mut held = ClipboardState::new();
    raw::open(&mut held).expect("Hold the clipboard");
    let (state, result) = clipboard_win::with_clipboard_attempts(held, 3, |s| s);
    assert_eq!(
        result,
        Err(ErrorKind::PlatformFailure(clipboard_win::error::ERROR_ACCESS_DENIED))
    );
    assert!(state.is_open);
}
