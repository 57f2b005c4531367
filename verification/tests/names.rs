use gens_relay::names::{make_download_path, make_safe_name};

#[test]
fn safe_names_are_made_by_three_replacements() {
    for name in [
        "", "notes.txt", "../../etc/passwd", "..\\..\\boot.ini", "a..b", "...", "....", ".....",
        "./.", "..../", "/", "\\", "a/b\\c", ".\\.", "über..mut",
    ] {
        let want = name.replace("..", "").replace("/", "").replace("\\", "");
        assert_eq!(make_safe_name(name), want, "{:?}", name);
    }
}

#[test]
fn safe_names_have_no_separator() {
    for name in ["a/b", "a\\b", "/..\\/../", "x"] {
        let safe = make_safe_name(name);
        assert!(!safe.contains('/') && !safe.contains('\\'));
    }
}

#[test]
fn dots_that_a_separator_kept_apart_come_together() {
    assert_eq!(make_safe_name("./."), "..");
    assert_eq!(make_safe_name(".a."), ".a.");
}

#[test]
fn files_are_stored_among_the_downloads() {
    assert_eq!(make_download_path(&make_safe_name("../notes.txt")), "downloads/notes.txt");
    assert_eq!(make_download_path(""), "downloads/");
}

#[test]
fn a_harmless_name_is_kept() {
    for name in ["notes.v1.txt", ".profile", "a b", ""] {
        assert_eq!(make_safe_name(name), name);
    }
}
