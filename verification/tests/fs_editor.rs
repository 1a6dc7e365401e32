use rove_plugins::fs_editor::{delete_file, read_file, write_file};

#[test]
fn the_content_of_a_file_is_passed_on() {
    let response = read_file("text".to_string());
    assert!(response.success);
    assert_eq!(response.data.as_deref(), Some("text"));
    assert_eq!(response.error, None);
}

#[test]
fn the_status_ok_is_success() {
    for response in [write_file("ok".to_string()), delete_file("ok".to_string())] {
        assert!(response.success);
        assert_eq!(response.data, None);
        assert_eq!(response.error, None);
    }
}

#[test]
fn any_other_status_is_the_error() {
    for response in [write_file("OK".to_string()), delete_file("OK".to_string())] {
        assert!(!response.success);
        assert_eq!(response.data, None);
        assert_eq!(response.error.as_deref(), Some("OK"));
    }
}
