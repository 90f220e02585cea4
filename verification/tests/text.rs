use trae_cli::text::{count_lines, count_matches, count_newlines, decimal_string, find, matches_here};

const SAMPLES: [&str; 12] = [
    "",
    "\n",
    "a",
    "a\n",
    "a\nb",
    "a\n\nb\n",
    "\n\n\n",
    "one\r\ntwo\r\n",
    "fn main() {\n    // TODO: finish\n    x.unwrap();\n}\n",
    "unwrap()unwrap()unwrap()",
    "aaaa",
    "líneas\nmás líneas",
];

#[test]
fn line_count_agrees_with_the_standard_library() {
    for sample in SAMPLES {
        assert_eq!(count_lines(sample.as_bytes()), sample.lines().count(), "{:?}", sample);
    }
}

#[test]
fn line_count_of_named_cases() {
    assert_eq!(count_lines(b""), 0);
    assert_eq!(count_lines(b"\n"), 1);
    assert_eq!(count_lines(b"no newline"), 1);
    assert_eq!(count_lines(b"a\nb\nc"), 3);
    assert_eq!(count_lines(b"a\nb\nc\n"), 3);
}

#[test]
fn find_agrees_with_the_standard_library() {
    let needles = ["TODO:", "unwrap()", "a", "aa", "\n", "líneas", "zzz"];
    for sample in SAMPLES {
        for needle in needles {
            assert_eq!(find(sample.as_bytes(), needle.as_bytes()), sample.find(needle));
        }
    }
}

#[test]
fn find_handles_the_edges() {
    assert_eq!(find(b"abc", b""), Some(0));
    assert_eq!(find(b"", b""), Some(0));
    assert_eq!(find(b"", b"a"), None);
    assert_eq!(find(b"ab", b"abc"), None);
    assert_eq!(find(b"xxabc", b"abc"), Some(2));
}

#[test]
fn matches_here_compares_in_place() {
    assert!(matches_here(b"hello", b"ell", 1));
    assert!(!matches_here(b"hello", b"ell", 0));
    assert!(matches_here(b"hello", b"", 5));
}

#[test]
fn match_count_agrees_with_the_standard_library() {
    let needles = ["TODO:", "unwrap()", "a", "aa", "aaa", "\n", "líneas"];
    for sample in SAMPLES {
        for needle in needles {
            assert_eq!(count_matches(sample.as_bytes(), needle.as_bytes()), sample.matches(needle).count());
        }
    }
}

#[test]
fn matches_do_not_overlap() {
    assert_eq!(count_matches(b"aaaa", b"aa"), 2);
    assert_eq!(count_matches(b"aaaaa", b"aa"), 2);
    assert_eq!(count_matches(b"abababa", b"aba"), 2);
    assert_eq!(count_matches(b"abc", b""), 0);
}

#[test]
fn newlines_are_counted_up_to_a_position() {
    let text = b"a\nb\n\nc";
    assert_eq!(count_newlines(text, 0), 0);
    assert_eq!(count_newlines(text, 2), 1);
    assert_eq!(count_newlines(text, 5), 3);
    assert_eq!(count_newlines(text, 6), 3);
}

#[test]
fn decimal_notation_of_numbers() {
    assert_eq!(decimal_string(0), "0");
    assert_eq!(decimal_string(7), "7");
    assert_eq!(decimal_string(10), "10");
    assert_eq!(decimal_string(2030), "2030");
    assert_eq!(decimal_string(u64::MAX), "18446744073709551615");
    for n in [1u64, 9, 11, 99, 100, 101, 12345, 1_000_000_007] {
        assert_eq!(decimal_string(n), n.to_string());
    }
}
