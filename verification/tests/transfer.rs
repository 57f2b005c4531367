use gens_relay::transfer::{Upload, CHUNK_BYTES, REPORT_BYTES};

#[test]
fn a_file_is_announced_by_its_name() {
    let u = Upload::begin("/home/ada/a.bin", 10, "t".to_string()).unwrap();
    assert_eq!(u.name(), "a.bin");
    assert_eq!(u.sent(), 0);
    assert_eq!(u.notice(), "{\"name\":\"a.bin\",\"size\":10,\"type\":\"file_start\"}");
    assert_eq!(Upload::begin("a.bin", 1, "t".to_string()).unwrap().name(), "a.bin");
    assert!(Upload::begin("..", 1, "t".to_string()).is_none());
    assert!(Upload::begin("a/..", 1, "t".to_string()).is_none());
    assert!(Upload::begin("", 1, "t".to_string()).is_none());
    assert!(Upload::begin("/", 1, "t".to_string()).is_none());
}

#[test]
fn a_small_file_is_reported_when_it_is_complete() {
    let mut u = Upload::begin_named("a".to_string(), 20000, "t".to_string());
    assert!(u.advance(CHUNK_BYTES).is_none());
    assert_eq!(u.sent(), 16384);
    let e = u.advance(20000 - CHUNK_BYTES).unwrap();
    assert_eq!(e.event, "file_progress");
    assert_eq!(e.data.text("filename"), Some("a".to_string()));
    assert_eq!(e.data.unsigned("bytes_sent"), Some(20000));
    assert_eq!(e.data.unsigned("total"), Some(20000));
    assert_eq!(e.data.text("target"), Some("t".to_string()));
    assert_eq!(e.data.text("direction"), Some("send".to_string()));
}

#[test]
fn a_large_file_is_reported_on_its_way() {
    let size: u64 = 2000000;
    let mut u = Upload::begin_named("a".to_string(), size, "t".to_string());
    let mut reports: Vec<u64> = Vec::new();
    let mut left: usize = size as usize;
    while left > 0 {
        let n = left.min(CHUNK_BYTES);
        left -= n;
        if let Some(e) = u.advance(n) {
            reports.push(e.data.unsigned("bytes_sent").unwrap());
        }
    }
    assert_eq!(REPORT_BYTES, 512 * 1024);
    assert_eq!(reports, vec![540672, 1081344, 1622016, 2000000]);
    assert_eq!(u.sent(), 2000000);
}

#[test]
fn a_file_that_grew_goes_on_unreported() {
    let mut u = Upload::begin_named("a".to_string(), 10, "t".to_string());
    assert!(u.advance(10).is_some());
    assert!(u.advance(10).is_none());
    assert_eq!(u.sent(), 20);
}

#[test]
fn the_limit_itself_is_not_yet_reported() {
    let mut u = Upload::begin_named("a".to_string(), 9999999, "t".to_string());
    assert!(u.advance(REPORT_BYTES).is_none());
    assert!(u.advance(1).is_some());
}

#[test]
fn names_may_hold_colons_and_dots() {
    for (path, name) in [
        ("/home/u/12:30.txt", "12:30.txt"),
        ("12:30.txt", "12:30.txt"),
        ("/a/b/", "b"),
        ("/a/b/.", "b"),
        ("a/./b", "b"),
        ("a//b", "b"),
        ("/a/..b", "..b"),
        ("/a/b.", "b."),
        ("C:/dir/a.bin", "a.bin"),
    ] {
        let u = Upload::begin(path, 1, "t".to_string()).unwrap();
        assert_eq!(u.name(), name, "{:?}", path);
    }
    for path in [".", "./", "/.", "/a/../"] {
        assert!(Upload::begin(path, 1, "t".to_string()).is_none(), "{:?}", path);
    }
}

#[test]
fn a_path_with_backslashes_has_a_name() {
    let u = Upload::begin("C:\\Users\\Ada\\a.bin", 1, "t".to_string()).unwrap();
    assert!(u.name() == "a.bin" || u.name() == "C:\\Users\\Ada\\a.bin");
}
