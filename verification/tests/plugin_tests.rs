use load_thing::plugins::ip_log::{log_line, IpLog};
use load_thing::plugins::loader::{file_extension, is_plugin_file};

#[test]
fn plugin_files_by_extension() {
    assert!(is_plugin_file("libexample_plugin.so"));
    assert!(is_plugin_file("plugin.dylib"));
    assert!(is_plugin_file("plugin.dll"));
    assert!(!is_plugin_file("plugin.so.1"));
    assert!(!is_plugin_file(".so"));
    assert!(!is_plugin_file("readme"));
    assert!(!is_plugin_file(".."));
}

#[test]
fn file_extension_follows_path_rules() {
    assert_eq!(file_extension("a.tar.gz").as_deref(), Some("gz"));
    assert_eq!(file_extension("a.").as_deref(), Some(""));
    assert_eq!(file_extension("..."), Some(String::new()));
    assert_eq!(file_extension(".hidden"), None);
    assert_eq!(file_extension(".."), None);
    assert_eq!(file_extension("x"), None);
}

#[test]
fn ip_log_counts_per_ip_and_path() {
    let mut log = IpLog::new();
    assert_eq!(log.record("1.1.1.1", "/"), 1);
    assert_eq!(log.record("1.1.1.1", "/"), 2);
    assert_eq!(log.record("1.1.1.1", "/a"), 1);
    assert_eq!(log.record("2.2.2.2", "/"), 1);
    assert_eq!(log.count("1.1.1.1", "/"), 2);
    assert_eq!(log.count("3.3.3.3", "/"), 0);
    assert_eq!(log_line("1.1.1.1", "/", 2), "[example_plugin] Request logged: IP = 1.1.1.1, Path = /, Count = 2");
}

#[test]
fn count_equals_number_of_requests() {
    let calls = [("a", "/"), ("b", "/"), ("a", "/"), ("a", "/x"), ("a", "/"), ("b", "/")];
    let mut log = IpLog::new();
    for (i, (ip, path)) in calls.iter().enumerate() {
        let n = log.record(ip, path);
        let expected = calls[..=i].iter().filter(|c| *c == &(*ip, *path)).count() as u64;
        assert_eq!(n, expected);
        assert_eq!(log_line(ip, path, n), format!("[example_plugin] Request logged: IP = {}, Path = {}, Count = {}", ip, path, expected));
    }
    assert_eq!(log.count("a", "/"), 3);
    assert_eq!(log.count("b", "/"), 2);
    assert_eq!(log.count("a", "/x"), 1);
}
