use thunder::number::{
    align_left, align_right, parse_error, parse_i32, parse_i64, signed_text, unsigned_text,
};
use thunder::size::human_size;
use thunder::text::{
    chars_of, contains_text, ends_with, is_whitespace, join_with, same_text, split_on, starts_with,
    trim, trim_end_of, trim_start_of, Strip,
};

fn strings(parts: &[&str]) -> Vec<String> {
    parts.iter().map(|s| s.to_string()).collect()
}

#[test]
fn whitespace_is_unicode_white_space() {
    for n in 0..=0x10ffffu32 {
        if let Some(c) = char::from_u32(n) {
            assert_eq!(is_whitespace(c), c.is_whitespace(), "{n:x}");
        }
    }
}

#[test]
fn trimming_takes_blanks_off_both_ends() {
    assert_eq!(trim("  a b \t\n"), "a b");
    assert_eq!(trim("\u{3000}x\u{a0}"), "x");
    assert_eq!(trim(" \n "), "");
    assert_eq!(trim(trim(" a ")), "a");
}

#[test]
fn slashes_are_stripped_at_one_end() {
    assert_eq!(trim_start_of("//a/b/", Strip::Slash), "a/b/");
    assert_eq!(trim_end_of("/a/b//", Strip::Slash), "/a/b");
    assert_eq!(trim_end_of("///", Strip::Slash), "");
}

#[test]
fn searching_finds_what_stands_in_a_text() {
    assert_eq!(chars_of("añ版"), vec!['a', 'ñ', '版']);
    assert!(contains_text("abc", "bc"));
    assert!(contains_text("abc", ""));
    assert!(!contains_text("abc", "ac"));
    assert!(!contains_text("ab", "abc"));
    assert!(starts_with("http://x", "http://"));
    assert!(!starts_with("htt", "http://"));
    assert!(ends_with("drive#folder", "folder"));
    assert!(!ends_with("drive#folders", "folder"));
    assert!(same_text("é", "é"));
    assert!(!same_text("a", "ab"));
}

#[test]
fn splitting_and_joining_undo_each_other() {
    for s in ["", ",", "a", "a,b", ",a,,b,", "版,权"] {
        let pieces = split_on(s, ',');
        let expected: Vec<String> = s.split(',').map(|p| p.to_string()).collect();
        assert_eq!(pieces, expected);
        assert_eq!(join_with(&pieces, ","), s);
    }
    let parts = strings(&["a", "", "c"]);
    assert_eq!(split_on(&join_with(&parts, ","), ','), parts);
    assert_eq!(join_with(&Vec::new(), ", "), "");
    assert_eq!(join_with(&strings(&["a", "b"]), " - "), "a - b");
}

#[test]
fn numbers_print_and_read_back() {
    for n in [0, 1, 9, 10, -1, -10, 123456789, i64::MIN, i64::MAX] {
        assert_eq!(signed_text(n), n.to_string());
        assert_eq!(parse_i64(&signed_text(n)), Some(n));
    }
    assert_eq!(unsigned_text(u64::MAX), u64::MAX.to_string());
    assert_eq!(unsigned_text(0), "0");
}

#[test]
fn numbers_are_read_as_the_standard_library_reads_them() {
    let texts = [
        "", "0", "007", "+5", "-5", "+", "-", "--1", "+-1", "1a", "a1", " 1", "1 ", "1.0", "٣",
        "9223372036854775807", "9223372036854775808", "-9223372036854775808",
        "-9223372036854775809", "99999999999999999999999", "-0", "2147483647", "2147483648",
        "-2147483648", "-2147483649", "99999999999999999999x", "9223372036854775808x",
        "922337203685477580x", "922337203685477580x8", "-99999999999999999999x", "+x9",
        "00000000000000000000000000000001", "00000000000000000000000000x",
        "-9223372036854775808x", "-9223372036854775809x", "1-", "99999999999999999999-", "１",
    ];
    for s in texts {
        assert_eq!(parse_i64(s), s.parse::<i64>().ok(), "{s}");
        assert_eq!(parse_i32(s), s.parse::<i32>().ok(), "{s}");
        assert_eq!(parse_error(s), s.parse::<i64>().err().map(|e| e.to_string()), "{s}");
    }
}

#[test]
fn columns_are_padded() {
    assert_eq!(align_left("ab", 4), "ab  ");
    assert_eq!(align_right("ab", 4), "  ab");
    assert_eq!(align_left("abcde", 4), "abcde");
    assert_eq!(align_right("abcde", 4), "abcde");
    assert_eq!(align_right("版权", 4), format!("{:>4}", "版权"));
}

/// Sizes as floating point shows them.
fn float_size(bytes: i64) -> Option<String> {
    if bytes <= 0 {
        return None;
    }
    let units = ["B", "KB", "MB", "GB", "TB"];
    let mut size = bytes as f64;
    let mut unit = 0;
    while size >= 1024.0 && unit < units.len() - 1 {
        size /= 1024.0;
        unit += 1;
    }
    Some(if unit == 0 {
        format!("{} {}", bytes, units[0])
    } else {
        format!("{size:.1} {}", units[unit])
    })
}

#[test]
fn sizes_have_exact_texts() {
    assert_eq!(human_size(0), None);
    assert_eq!(human_size(-1), None);
    assert_eq!(human_size(i64::MIN), None);
    assert_eq!(human_size(1).unwrap(), "1 B");
    assert_eq!(human_size(1023).unwrap(), "1023 B");
    assert_eq!(human_size(1024).unwrap(), "1.0 KB");
    assert_eq!(human_size(1536).unwrap(), "1.5 KB");
    assert_eq!(human_size(1024 * 1024 - 1).unwrap(), "1024.0 KB");
    assert_eq!(human_size(1024 * 1024).unwrap(), "1.0 MB");
    assert_eq!(human_size(5 * 1024 * 1024 * 1024).unwrap(), "5.0 GB");
    assert_eq!(human_size(1 << 40).unwrap(), "1.0 TB");
    assert_eq!(human_size(i64::MAX).unwrap(), "8388608.0 TB");
}

#[test]
fn sizes_agree_with_floating_point() {
    let mut seed: u64 = 0x9e37_79b9_7f4a_7c15;
    let mut sizes: Vec<i64> = Vec::new();
    for k in 0..63 {
        let n = 1i64 << k;
        for d in [-3, -2, -1, 0, 1, 2, 3] {
            sizes.push(n.wrapping_add(d));
        }
        // Ties, between two tenths of a unit.
        sizes.push(n.wrapping_add(n >> 2));
        sizes.push(n.wrapping_add((n >> 2) * 3));
        sizes.push((n >> 10).wrapping_mul(1024 + 51));
        for _ in 0..200 {
            seed ^= seed << 13;
            seed ^= seed >> 7;
            seed ^= seed << 17;
            sizes.push((seed >> (63 - k)) as i64);
        }
    }
    for n in sizes {
        assert_eq!(human_size(n), float_size(n), "{n}");
    }
}

#[test]
fn a_size_shown_is_the_nearest_tenth() {
    // 1280 bytes are 1.25 KB, a tie that goes to the even tenth.
    assert_eq!(human_size(1280).unwrap(), "1.2 KB");
    assert_eq!(human_size(1024 + 768).unwrap(), "1.8 KB");
    assert_eq!(human_size(1024 + 52).unwrap(), "1.1 KB");
    assert_eq!(human_size(1024 + 51).unwrap(), "1.0 KB");
}
