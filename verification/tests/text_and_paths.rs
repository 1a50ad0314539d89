use lanio::paths::MediaPath;
use lanio::text;

fn chars(s: &str) -> Vec<char> {
    s.chars().collect()
}

#[test]
fn numbers_are_read_like_u16() {
    for s in [
        "0", "7", "007", "65535", "65536", "+12", "+", "", "-1", "1a", " 1", "99999999999999999999",
        "000000000000000000000012", "١",
    ] {
        assert_eq!(text::parse_u16(&chars(s)), s.parse::<u16>().ok(), "{:?}", s);
    }
}

#[test]
fn decimal_text_is_read_back() {
    for n in [0u64, 9, 10, 99, 100, 65535, u64::MAX] {
        assert_eq!(text::decimal_text(n), n.to_string());
    }
    assert_eq!(text::parse_u16(&chars(&text::decimal_text(1023))), Some(1023));
}

#[test]
fn suffixes_and_trailing_slashes() {
    assert_eq!(text::strip_suffix("tt1.json", ".json"), "tt1");
    assert_eq!(text::strip_suffix("tt1.json.json", ".json"), "tt1.json");
    assert_eq!(text::strip_suffix("tt1", ".json"), "tt1");
    assert_eq!(text::strip_suffix("json", ".json"), "json");
    assert_eq!(text::trim_end_matches("http://a//", '/'), "http://a");
    assert_eq!(text::trim_end_matches("///", '/'), "");
}

#[test]
fn splitting_keeps_empty_pieces() {
    let pieces: Vec<String> = text::split_chars("a::b:", ':')
        .into_iter()
        .map(|p| p.into_iter().collect())
        .collect();
    assert_eq!(pieces, vec!["a", "", "b", ""]);
    assert!(text::contains_char("a:b", ':'));
    assert!(!text::contains_char("ab", ':'));
}

#[test]
fn path_parts_agree_with_std() {
    for s in [
        "/media/a.mkv", "a", "./a", ".", "..", "/", "", "/media//x/./b.MP4", "a/..", "/a/b/",
        "a/.", "/.hidden", "/a/.hidden.mkv", "/a/b.", "/a/..mkv", "/./a", "./././b/c.d.e", "//",
    ] {
        let ours = MediaPath::from_text(s);
        let std = std::path::Path::new(s);
        assert_eq!(
            ours.file_name().as_deref(),
            std.file_name().and_then(|n| n.to_str()),
            "name of {:?}",
            s
        );
        assert_eq!(
            ours.extension().as_deref(),
            std.extension().and_then(|n| n.to_str()),
            "extension of {:?}",
            s
        );
        assert_eq!(ours.has_extension(), std.extension().is_some());
        assert_eq!(
            ours.parent_name().as_deref(),
            std.parent().and_then(|p| p.file_name()).and_then(|n| n.to_str()),
            "parent of {:?}",
            s
        );
    }
}

#[test]
fn path_relations_agree_with_std() {
    let all = [
        "/media/a", "/media//a/", "/media/./a", "media/a", "./media/a", "/media", "/", "", ".",
        "/media/ab", "/media/a/b",
    ];
    for a in all {
        for b in all {
            let (pa, pb) = (std::path::Path::new(a), std::path::Path::new(b));
            let (ma, mb) = (MediaPath::from_text(a), MediaPath::from_text(b));
            assert_eq!(ma.same_path(&mb), pa == pb, "{:?} = {:?}", a, b);
            assert_eq!(ma.starts_with(&mb), pa.starts_with(pb), "{:?} under {:?}", a, b);
        }
    }
}

#[test]
fn names_that_are_not_utf8_have_no_text() {
    let path = MediaPath::from_bytes(b"/media/\xff.mkv".to_vec());
    assert_eq!(path.file_name(), None);
    assert_eq!(path.extension().as_deref(), Some("mkv"));
    assert_eq!(path.parent_name().as_deref(), Some("media"));
    assert_eq!(path.to_string_lossy(), "/media/\u{fffd}.mkv");
    assert_eq!(path.as_bytes(), b"/media/\xff.mkv");
    let odd = MediaPath::from_bytes(b"/media/a.\xff".to_vec());
    assert!(odd.has_extension());
    assert_eq!(odd.extension(), None);
}
