use lock_screen_carousel::path::file_name;

fn name(path: &str) -> Option<String> {
    file_name(path)
}

#[test]
fn file_name_of_windows_paths() {
    assert_eq!(name("C:\\Windows\\Web\\Screen\\img100.jpg").as_deref(), Some("img100.jpg"));
    assert_eq!(name("C:/Users/me/Pictures/beach.png").as_deref(), Some("beach.png"));
    assert_eq!(name("C:\\Users\\me/Pictures\\mixed.bmp").as_deref(), Some("mixed.bmp"));
    assert_eq!(name("d:photo.jpeg").as_deref(), Some("photo.jpeg"));
}

#[test]
fn file_name_skips_trailing_separators_and_dots() {
    assert_eq!(name("C:\\Pictures\\").as_deref(), Some("Pictures"));
    assert_eq!(name("C:\\Pictures\\.").as_deref(), Some("Pictures"));
    assert_eq!(name("C:\\Pictures\\.\\\\").as_deref(), Some("Pictures"));
    assert_eq!(name("a.b.").as_deref(), Some("a.b."));
    assert_eq!(name("..a").as_deref(), Some("..a"));
}

#[test]
fn file_name_none() {
    assert_eq!(name(""), None);
    assert_eq!(name("C:"), None);
    assert_eq!(name("C:\\"), None);
    assert_eq!(name("\\"), None);
    assert_eq!(name("."), None);
    assert_eq!(name("./"), None);
    assert_eq!(name(".."), None);
    assert_eq!(name("C:\\Pictures\\.."), None);
    assert_eq!(name("a/../"), None);
}

#[test]
fn file_name_not_a_drive() {
    assert_eq!(name("1:x").as_deref(), Some("1:x"));
    assert_eq!(name("ab:c").as_deref(), Some("ab:c"));
}

#[test]
fn file_name_unicode() {
    assert_eq!(name("C:\\Bilder\\Strand ü€.jpg").as_deref(), Some("Strand ü€.jpg"));
}

#[test]
fn file_name_agrees_with_std_on_slash_paths() {
    for path in ["a/b/c.jpg", "/x/y/", "/x/y/.", "rel", "a/..", "./q", "/", "", "a//b//", "x/./y/."] {
        let expected = std::path::Path::new(path).file_name().and_then(|s| s.to_str()).map(String::from);
        assert_eq!(name(path), expected, "{}", path);
    }
}

#[test]
fn file_name_unc_paths() {
    assert_eq!(name("\\\\server\\share"), None);
    assert_eq!(name("\\\\server\\share\\"), None);
    assert_eq!(name("//server/share"), None);
    assert_eq!(name("\\\\server\\share\\pics\\x.jpg").as_deref(), Some("x.jpg"));
    assert_eq!(name("\\\\server").as_deref(), Some("server"));
    assert_eq!(name("\\\\server\\").as_deref(), Some("server"));
}

#[test]
fn file_name_verbatim_paths() {
    assert_eq!(name("\\\\?\\C:"), None);
    assert_eq!(name("\\\\?\\C:\\a\\."), None);
    assert_eq!(name("\\\\?\\C:\\a\\b.jpg").as_deref(), Some("b.jpg"));
    assert_eq!(name("\\\\?\\C:\\a/b.jpg").as_deref(), Some("a/b.jpg"));
    assert_eq!(name("\\\\?\\UNC\\server\\share"), None);
    assert_eq!(name("\\\\?\\UNC\\server\\share\\p.png").as_deref(), Some("p.png"));
    assert_eq!(name("\\\\?\\pictures"), None);
    assert_eq!(name("\\\\?\\pictures\\.."), None);
}

#[test]
fn file_name_device_paths() {
    assert_eq!(name("\\\\.\\COM42"), None);
    assert_eq!(name("\\\\.\\pipe\\name").as_deref(), Some("name"));
    assert_eq!(name("//./pipe/name").as_deref(), Some("name"));
}
