use agent_context::paths::{extension_of, file_name_of, join_paths};
use agent_context::text::{
    byte_head_text, byte_len, comes_before, decimal_text, head_text, join_texts, lines_of,
    place_text, remove_text, split_text, substitute_text, text_ends_with, text_holds,
    text_starts_with, trim_text, words_of,
};

fn strings(all: &[&str]) -> Vec<String> {
    all.iter().map(|s| s.to_string()).collect()
}

const SAMPLES: [&str; 12] = [
    "",
    " ",
    "a",
    "a b",
    " a\tb\n",
    "a\r\nb\n\nc",
    "\n",
    "é ü…",
    "a,b,,c",
    "\u{a0}x\u{3000}",
    "tail\r",
    "𝄞 music",
];

#[test]
fn texts_are_taken_apart_as_the_standard_library_does() {
    for s in SAMPLES {
        assert_eq!(trim_text(s), s.trim());
        assert_eq!(lines_of(s), s.lines().collect::<Vec<_>>());
        assert_eq!(words_of(s), s.split_whitespace().collect::<Vec<_>>());
        assert_eq!(split_text(s, ','), s.split(',').collect::<Vec<_>>());
        assert_eq!(byte_len(s), s.len());
        assert_eq!(substitute_text(s, 'a', "--"), s.replace('a', "--"));
        for t in SAMPLES {
            assert_eq!(text_starts_with(s, t), s.starts_with(t));
            assert_eq!(text_ends_with(s, t), s.ends_with(t));
            assert_eq!(text_holds(s, t), s.contains(t));
            assert_eq!(comes_before(s, t), s < t);
        }
    }
}

#[test]
fn numbers_are_written_in_decimals() {
    assert_eq!(decimal_text(0), "0");
    assert_eq!(decimal_text(u128::MAX), u128::MAX.to_string());
    assert_eq!(decimal_text(1009), "1009");
}

#[test]
fn texts_are_cut_at_characters() {
    assert_eq!(head_text("été", 2), "ét");
    assert_eq!(byte_head_text("été", 3), "ét");
    // No character is cut in two.
    assert_eq!(byte_head_text("été", 4), "ét");
    assert_eq!(byte_head_text("ab", 9), "ab");
}

#[test]
fn texts_are_kept_in_order() {
    let mut all: Vec<String> = vec![];
    for t in ["b", "a", "c", "a"] {
        place_text(&mut all, t);
    }
    assert_eq!(all, strings(&["a", "b", "c"]));
    assert!(remove_text(&mut all, "b"));
    assert!(!remove_text(&mut all, "b"));
    assert_eq!(join_texts(&all, "+"), "a+c");
}

#[test]
fn paths_are_taken_apart_as_the_standard_library_does() {
    for p in ["/a/b.rs", "b", "/a/.hidden", "/a/b.tar.gz", "/", "a/", "/a/.."] {
        let path = std::path::Path::new(p);
        let name = path.file_name().map(|n| n.to_str().unwrap().to_string());
        assert_eq!(file_name_of(p), name, "{}", p);
        let ext = path.extension().map(|n| n.to_str().unwrap().to_string());
        assert_eq!(extension_of(p), ext, "{}", p);
    }
    assert_eq!(join_paths("/a", "b"), "/a/b");
    assert_eq!(join_paths("/a/", "b"), "/a/b");
    assert_eq!(join_paths("/a", "/b"), "/b");
}
