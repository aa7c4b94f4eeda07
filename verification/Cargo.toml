[package]
name = "clipboard_win"
version = "0.1.0"
edition = "2021"
publish = false

[dependencies]
error-code = "=3.4.0"
winapi = { version = "=0.3.9", features = ["winuser", "winbase", "wingdi", "stringapiset", "winnls", "minwinbase", "windef", "minwindef", "basetsd", "ntdef", "errhandlingapi"] }
