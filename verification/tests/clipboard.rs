use clipboard_win::Clipboard;
use clipboard_win::error::ErrorKind;
use clipboard_win::raw;
use clipboard_win::state::ClipboardState;

//NOTE: every test drives its own clipboard state, so parallel running is safe.

#[test]
fn win_error_test() {
    let result = ErrorKind::PlatformFailure(0);
    println!("WinError({:?})={}", result.raw_code(), result.message());

    assert!(result == ErrorKind::PlatformFailure(0));
    assert!(ErrorKind::PlatformFailure(1) != result);

    let result = ErrorKind::PlatformFailure(666);
    println!("WinError({:?})={}", result.raw_code(), result.message());
}

#[test]
fn get_clipboard_formats_test() {
    let mut cb = ClipboardState::new();
    let clip = Clipboard::new(&mut cb).expect("Open clipboard");

    let clipboard_formats = raw::get_clipboard_formats(&cb);

    assert!(clipboard_formats.is_ok());

    let clipboard_formats = clipboard_formats.unwrap();
    println!("get_clipboard_formats_test: clipboard formats: {:?}", clipboard_formats);
    for format in clipboard_formats {
        if let Some(format_name) = raw::format_name_big(&cb, format) {
            println!("{}={}", format, format_name);
        }
    }
    let _ = clip.close(&mut cb);
}

#[test]
fn get_clipboard_seq_num_test() {
    let mut cb = ClipboardState::new();
    let clip = Clipboard::new(&mut cb).expect("Open clipboard");
    raw::set_string(&mut cb, "seed").expect("Write seed text");

    assert!(raw::seq_num(&cb).is_some());
    let _ = clip.close(&mut cb);
}

#[test]
fn set_clipboard_test() {
    let test_array = vec![
        "ololo",
        "1234",
        "1234567891234567891234567891234567891",
        "12345678912345678912345678912345678912",
    ];
    let mut cb = ClipboardState::new();
    let clip = Clipboard::new(&mut cb).expect("Open clipboard");
    for expected_string in test_array {
        assert!(raw::set_string(&mut cb, expected_string).is_ok());

        let mut result = String::new();
        let read = raw::get_string(&cb, &mut result);
        assert!(read.is_ok());

        println!("set_clipboard_test: Clipboard: {}", result);
        println!("set_clipboard_test: Expected: {}", expected_string);
        assert!(result == expected_string);
    }
    let _ = clip.close(&mut cb);
}

#[test]
fn get_clipboard_test() {
    let mut cb = ClipboardState::new();
    let clip = Clipboard::new(&mut cb).expect("Open clipboard");
    raw::set_string(&mut cb, "seed").expect("Write seed text");

    let mut output = String::new();
    let result = raw::get_string(&cb, &mut output);
    assert!(result.is_ok());

    println!("get_clipboard_test: Clipboard: {}", output);
    let _ = clip.close(&mut cb);
}

#[test]
fn is_format_avail_test() {
    let mut cb = ClipboardState::new();
    let clip = Clipboard::new(&mut cb).expect("Open clipboard");
    raw::set_string(&mut cb, "seed").expect("Write seed text");

    assert!(raw::is_format_avail(&cb, 13)); //default unicode format
    assert!(!raw::is_format_avail(&cb, 66613666));
    let _ = clip.close(&mut cb);
}

#[test]
fn count_formats_test() {
    let mut cb = ClipboardState::new();
    let clip = Clipboard::new(&mut cb).expect("Open clipboard");
    raw::set_without_clear(&mut cb, 1, &vec![1]).expect("Store text payload");
    raw::set_without_clear(&mut cb, 4, &vec![2]).expect("Store symbolic-link payload");
    raw::set_without_clear(&mut cb, 11, &vec![3]).expect("Store link payload");
    raw::set_without_clear(&mut cb, 13, &vec![4]).expect("Store unicode payload");

    let result = raw::count_formats(&cb);

    assert!(result.is_some());

    let result = result.unwrap();
    println!("count_formats_test: number of formats={}", result);
    assert!(result == 4 || result == 11 || result == 13);
    let _ = clip.close(&mut cb);
}

#[test]
fn register_format_test() {
    let mut cb = ClipboardState::new();
    let new_format = raw::register_format(&mut cb, "text");
    assert!(new_format.is_some());

    let new_format = new_format.unwrap();
    println!("register_format_test: new_format={}", new_format);
    let clip = Clipboard::new(&mut cb);
    assert!(clip.is_ok());
    let clip = clip.unwrap();

    let expect_buf = vec![13u8, 12, 122, 1];
    println!("register_format_test: set clipboard={:?}", expect_buf);
    assert!(raw::set(&mut cb, new_format, &expect_buf).is_ok());
    assert!(raw::is_format_avail(&cb, new_format));

    let mut result: Vec<u8> = Vec::new();
    let read = raw::get_vec(&cb, new_format, &mut result);
    assert!(read.is_ok());

    assert!(result == expect_buf);
    println!("register_format_test: saved clipboard={:?}", result);
    assert!(clip.close(&mut cb).is_ok());
}
