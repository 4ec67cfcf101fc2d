use capacitor_bot::numbers::decimal_of;
use capacitor_bot::numbers::number_of;
use capacitor_bot::numbers::wide_decimal_of;
use capacitor_bot::order::is_name_le;
use capacitor_bot::paths::file_name;
use capacitor_bot::paths::joined_path;
use capacitor_bot::paths::parent;
use capacitor_bot::settings::parse_env;
use capacitor_bot::text::chars_of;
use capacitor_bot::text::has_occurrence;
use capacitor_bot::text::joined;
use capacitor_bot::text::lines_of;
use capacitor_bot::text::position_of;
use capacitor_bot::text::string_of;
use capacitor_bot::text::trimmed;
use capacitor_bot::text::trimmed_end;
use capacitor_bot::text::trimmed_start;
use capacitor_bot::util::clip;
use capacitor_bot::util::format_size;
use std::path::Path;

#[test]
fn trimming_agrees_with_every_white_space_character() {
    for n in 0..=0x10FFFFu32 {
        if let Some(c) = char::from_u32(n) {
            let s = [c, 'a', c];
            let left = trimmed_start(&s).len();
            let right = trimmed_end(&s).len();
            let both = trimmed(&s).len();
            if c.is_whitespace() {
                assert_eq!((left, right, both), (2, 2, 1), "{n:x}");
            } else {
                assert_eq!((left, right, both), (3, 3, 3), "{n:x}");
            }
        }
    }
}

#[test]
fn texts_are_taken_apart_and_put_together() {
    for s in ["", "a", "äß漢", "line\n"] {
        let chars = chars_of(s);
        assert_eq!(chars, s.chars().collect::<Vec<char>>());
        assert_eq!(string_of(&chars), s);
    }
}

#[test]
fn lines_agree_with_std() {
    for s in [
        "", "\n", "a", "a\n", "a\nb", "a\r\nb\r", "\r\n", "a\n\nb\n\n", "\r", "a\rb\n", "\r\r\n",
    ] {
        let expected: Vec<String> = s.lines().map(|l| l.to_string()).collect();
        assert_eq!(lines_of(&chars_of(s)), expected, "{s:?}");
    }
}

#[test]
fn joining_agrees_with_std() {
    let none: Vec<String> = Vec::new();
    assert_eq!(joined(&none, ", "), "");
    assert_eq!(joined(&["a".to_string()], ", "), "a");
    let some = ["a".to_string(), "".to_string(), "b".to_string()];
    assert_eq!(joined(&some, ", "), some.join(", "));
}

#[test]
fn searching_agrees_with_std() {
    for s in ["", "a", "aab", "abcabc", "aaaa"] {
        for needle in ["", "a", "ab", "bc", "aab", "x", "aaaaa"] {
            let position = position_of(&chars_of(s), &chars_of(needle));
            assert_eq!(position, s.find(needle), "{s:?} {needle:?}");
            assert_eq!(
                has_occurrence(&chars_of(s), &chars_of(needle)),
                s.contains(needle)
            );
        }
    }
}

#[test]
fn decimal_notation_agrees_with_std() {
    for n in [0, 7, 9, 10, 99, 100, 1024, 65535, u64::MAX] {
        assert_eq!(decimal_of(n), n.to_string());
        assert_eq!(wide_decimal_of(n as u128), n.to_string());
        assert_eq!(number_of(&n.to_string()), Some(n as usize));
    }
    assert_eq!(wide_decimal_of(u128::MAX), u128::MAX.to_string());
}

#[test]
fn numbers_are_read_as_std_reads_them() {
    for s in [
        "", "+", "-", "-1", "+1", "0", "-0", "007", "1 ", " 1", "1_0", "18446744073709551615",
        "18446744073709551616", "99999999999999999999999999999999", "++1", "٣", "0x1",
    ] {
        assert_eq!(number_of(s), s.parse::<usize>().ok(), "{s:?}");
    }
}

#[test]
fn settings_fall_back_to_their_default() {
    assert_eq!(parse_env("TRAIN_WORKERS", None, 2), Ok(2));
    assert_eq!(parse_env("TRAIN_WORKERS", Some("8"), 2), Ok(8));
    assert_eq!(
        parse_env("TRAIN_WORKERS", Some("many"), 2),
        Err("invalid value for TRAIN_WORKERS: many".to_string())
    );
    assert_eq!(
        parse_env("CACHE_SIZE", Some(""), 16),
        Err("invalid value for CACHE_SIZE: ".to_string())
    );
}

#[test]
fn name_order_agrees_with_std() {
    let names = ["", "a", "aa", "ab", "b", "B", "ä", "漢", "\u{10000}", "\u{FFFF}", "a b", "~"];
    for a in names {
        for b in names {
            assert_eq!(is_name_le(a, b), a <= b, "{a:?} {b:?}");
        }
    }
}

#[test]
fn paths_agree_with_std() {
    let paths = [
        "", "/", ".", "..", "a", "a/", "a/b", "a/b/", "/a", "/a/", "/a/b", "a/.", "a/./", "./a",
        "a/..", "../a", "a//b", "a//", "//a", "/.", "/..", "a/./b", "a/././", "./", "./.", "/./a",
        "/a/.", "a.b", "a/.b", "a/b.", "...", "a/...", ".a/.", "/a/./.",
    ];
    for p in paths {
        let path = Path::new(p);
        assert_eq!(
            file_name(p),
            path.file_name().map(|n| n.to_str().unwrap().to_string()),
            "file name of {p:?}"
        );
        assert_eq!(
            parent(p),
            path.parent().map(|d| d.to_str().unwrap().to_string()),
            "parent of {p:?}"
        );
        for q in paths {
            assert_eq!(
                joined_path(p, q),
                path.join(q).to_str().unwrap(),
                "{p:?} and {q:?}"
            );
        }
    }
}

#[test]
fn clipping_counts_characters_and_marks_the_cut() {
    assert_eq!(clip("abc", 3), "abc");
    assert_eq!(clip("abc", 2), "ab\n... (truncated)");
    assert_eq!(clip("äöü", 3), "äöü");
    assert_eq!(clip("äöü", 1), "ä\n... (truncated)");
    assert_eq!(clip("a", 0), "\n... (truncated)");
    assert_eq!(clip("", 0), "");
}

fn size_in_doubles(size: u64) -> String {
    let size = size as f64;
    if size > 1024.0 * 1024.0 * 1024.0 {
        format!("{:.2} GB", size / 1024.0 / 1024.0 / 1024.0)
    } else if size > 1024.0 * 1024.0 {
        format!("{:.2} MB", size / 1024.0 / 1024.0)
    } else if size > 1024.0 {
        format!("{:.2} KB", size / 1024.0)
    } else {
        format!("{} B", size)
    }
}

#[test]
fn sizes_are_shown_in_the_largest_unit_that_they_exceed() {
    assert_eq!(format_size(0), "0 B");
    assert_eq!(format_size(1024), "1024 B");
    assert_eq!(format_size(1025), "1.00 KB");
    assert_eq!(format_size(1536), "1.50 KB");
    assert_eq!(format_size(1048576), "1024.00 KB");
    assert_eq!(format_size(1048577), "1.00 MB");
    assert_eq!(format_size(1610612736), "1.50 GB");
    // A hundredth that lies halfway goes to the even neighbour.
    assert_eq!(format_size(1152), "1.12 KB");
    assert_eq!(format_size(1408), "1.38 KB");
}

#[test]
fn sizes_agree_with_double_precision() {
    for n in 0..20000u64 {
        assert_eq!(format_size(n), size_in_doubles(n), "{n}");
    }
    let mut n: u64 = 1;
    for i in 0..20000u64 {
        n = n.wrapping_mul(6364136223846793005).wrapping_add(1442695040888963407);
        let m = n >> (i % 64);
        assert_eq!(format_size(m), size_in_doubles(m), "{m}");
    }
    for shift in 50..64 {
        for off in 0..70u64 {
            let m = (1u64 << shift).wrapping_add(off).wrapping_sub(35);
            assert_eq!(format_size(m), size_in_doubles(m), "{m}");
        }
    }
    for off in 0..3000u64 {
        let m = u64::MAX - off;
        assert_eq!(format_size(m), size_in_doubles(m), "{m}");
    }
}
