use clipboard_win::{Clipboard, state::ClipboardState};
use clipboard_win::formats::{Bitmap, RawData, Unicode, CF_TEXT};
use clipboard_win::image::Image;

fn should_work_with_bitmap() {
    let mut cb = ClipboardState::new();
    let clip = Clipboard::new_attempts(&mut cb, 10).expect("Open clipboard");

    // A synthetic in-memory bitmap of known geometry: 4 by 2, true color.
    let header = Image::dib_header_for(4, 2, 1, 24);
    let mut pixels: Vec<u8> = Vec::new();
    for i in 0..header.size_image {
        pixels.push((i % 251) as u8);
    }
    let palette: Vec<u8> = Vec::new();
    let test_image_bytes = Image::from_dib(&header, &palette, &pixels).bytes;
    Bitmap.write_clipboard(&mut cb, &test_image_bytes).expect("To set image");

    let mut out = Vec::new();

    assert_eq!(Bitmap.read_clipboard(&cb, &mut out).expect("To get image"), out.len());

    assert_eq!(test_image_bytes.len(), out.len());
    assert!(test_image_bytes == out);
    let _ = clip.close(&mut cb);
}

fn should_work_with_string() {
    let text = "For my waifu\n!";

    let mut cb = ClipboardState::new();
    let clip = Clipboard::new_attempts(&mut cb, 10).expect("Open clipboard");

    Unicode.write_clipboard(&mut cb, text).expect("Write text");

    let mut output = String::new();

    assert_eq!(Unicode.read_clipboard(&cb, &mut output).expect("Read text"), text.len());
    assert_eq!(text, output);

    assert_eq!(Unicode.read_clipboard(&cb, &mut output).expect("Read text"), text.len());
    assert_eq!(format!("{0}{0}", text), output);
    let _ = clip.close(&mut cb);
}

fn should_work_with_wide_string() {
    let text = "メヒーシャ!";

    let mut cb = ClipboardState::new();
    let clip = Clipboard::new_attempts(&mut cb, 10).expect("Open clipboard");

    Unicode.write_clipboard(&mut cb, text).expect("Write text");

    let mut output = String::new();

    assert_eq!(Unicode.read_clipboard(&cb, &mut output).expect("Read text"), text.len());
    assert_eq!(text, output);

    assert_eq!(Unicode.read_clipboard(&cb, &mut output).expect("Read text"), text.len());
    assert_eq!(format!("{0}{0}", text), output);
    let _ = clip.close(&mut cb);
}

fn should_work_with_bytes() {
    let text = "Again waifu!?\0";

    let ascii = RawData(CF_TEXT);
    let mut cb = ClipboardState::new();
    let clip = Clipboard::new_attempts(&mut cb, 10).expect("Open clipboard");

    ascii.write_clipboard(&mut cb, &text.as_bytes().to_vec()).expect("Write ascii");

    let mut output: Vec<u8> = Vec::new();

    assert_eq!(ascii.read_clipboard(&cb, &mut output).expect("read ascii"), text.len());

    assert_eq!(text.as_bytes(), &output[..]);

    assert_eq!(ascii.read_clipboard(&cb, &mut output).expect("read ascii"), text.len());

    assert_eq!(format!("{0}{0}", text).as_bytes(), &output[..]);
    let _ = clip.close(&mut cb);
}

#[test]
fn clipboard_should_work() {
    println!("Clipboard test: should_work_with_bitmap...");
    should_work_with_bitmap();
    println!("Clipboard test: should_work_with_string...");
    should_work_with_string();
    println!("Clipboard test: should_work_with_wide_string...");
    should_work_with_wide_string();
    println!("Clipboard test: should_work_with_bytes...");
    should_work_with_bytes();
}
