use rust_in_action::file::{optionify_error, unwrap_with_panic_message, File, FileState};

#[test]
fn new_file_is_empty_and_closed() {
    let f = File::new("f1.txt");
    assert_eq!(f.len(), 0);
    assert_eq!(f.name(), "f1.txt");
    assert_eq!(f.state(), FileState::Closed);
}

#[test]
fn read_of_closed_file_is_refused() {
    let mut file = File::new_with_data("my_file.txt", &vec![114, 117, 115, 116, 33]);
    let mut buffer: Vec<u8> = vec![9];
    let r = file.read(&mut buffer);
    assert_eq!(r, Err("File must be open for reading".to_string()));
    assert_eq!(buffer, vec![9]);
}

#[test]
fn open_read_close_round() {
    let mut file = File::new_with_data("my_file.txt", &vec![114, 117, 115, 116, 33]);
    let mut buffer: Vec<u8> = vec![];
    file = file.open().unwrap();
    assert_eq!(file.state(), FileState::Open);
    let n = file.read(&mut buffer).unwrap();
    assert_eq!(n, 5);
    assert_eq!(String::from_utf8_lossy(&buffer), "rust!");
    let n2 = file.read(&mut buffer).unwrap();
    assert_eq!(n2, 5);
    assert_eq!(buffer.len(), 10);
    file = file.close().unwrap();
    assert_eq!(file.state(), FileState::Closed);
    assert_eq!(file.len(), 5);
    assert_eq!(file.name(), "my_file.txt");
}

#[test]
fn file_display_text() {
    let file = File::new("my_file.txt");
    assert_eq!(file.to_display_string(), "<my_file.txt, (CLOSED)>");
    let file = file.open().unwrap();
    assert_eq!(file.to_display_string(), "<my_file.txt, (OPEN)>");
    assert_eq!(FileState::Open.to_display_string(), "OPEN");
}

#[test]
fn optionify_splits_results() {
    let ok: Result<u8, String> = Ok(3);
    assert_eq!(optionify_error(ok), (Some(3), String::new()));
    let err: Result<u8, String> = Err("bad".to_string());
    assert_eq!(optionify_error(err), (None, "bad".to_string()));
}

#[test]
fn unwrap_gives_value() {
    let ok: Result<u8, String> = Ok(7);
    assert_eq!(unwrap_with_panic_message(ok), 7);
}
