use rove_plugins::chrome::{choose_binary, resolve_chrome_binary, Platform};

#[test]
fn resolve_chrome_binary_does_not_return_nonexistent_override() {
    let nonexistent = "/nonexistent/chrome/path/that/cannot/exist";
    let result = resolve_chrome_binary(Some(nonexistent), Platform::Linux);
    if let Some(path) = result {
        assert_ne!(
            std::path::PathBuf::from(path),
            std::path::PathBuf::from(nonexistent)
        );
    }
}

#[test]
fn a_configured_path_that_is_there_is_taken() {
    assert_eq!(
        resolve_chrome_binary(Some("/"), Platform::Other),
        Some("/".to_string())
    );
    assert_eq!(resolve_chrome_binary(None, Platform::Other), None);
}

#[test]
fn the_first_usual_place_that_is_there_is_taken() {
    assert_eq!(
        choose_binary(Some("/opt/chrome"), false, Platform::Linux, &vec![false, false, true, true]),
        Some("/usr/bin/chromium-browser".to_string())
    );
    assert_eq!(
        choose_binary(Some("/opt/chrome"), true, Platform::Linux, &vec![true]),
        Some("/opt/chrome".to_string())
    );
    assert_eq!(
        choose_binary(None, true, Platform::Windows, &vec![false, true]),
        Some("C:\\Program Files (x86)\\Google\\Chrome\\Application\\chrome.exe".to_string())
    );
    assert_eq!(
        choose_binary(None, false, Platform::MacOs, &vec![true]),
        Some("/Applications/Google Chrome.app/Contents/MacOS/Google Chrome".to_string())
    );
    assert_eq!(choose_binary(None, false, Platform::MacOs, &vec![false; 3]), None);
}
