use bytes_radar::cli::progress::show_size;
use bytes_radar::cli::{format_bytes, format_number, xml_escape};
use bytes_radar::filter::FilterStats;
use bytes_radar::text::{
    char_is_hex_digit, char_is_whitespace, contains, decimal_string, ends_with, find, is_hex,
    prefix, split, split_once, starts_with, str_eq, str_le, to_chars, trim_end_char, trim_end_str,
    trim_range,
};

const SAMPLES: [&str; 16] = [
    "",
    "/",
    "//",
    "a",
    "a/b",
    "/a/b/",
    "https://github.com/user/repo/",
    "a//b///",
    "x.tar.gz",
    "x.tar.gz.tar.gz",
    "tar.gz",
    ".tar.gztar.gz",
    "héllo/wörld/",
    "日本語/テキスト",
    "a@b@c",
    "@",
];

#[test]
fn splitting_agrees_with_the_standard_library() {
    for text in SAMPLES {
        for separator in ['/', '@', '.', 'é'] {
            let expected: Vec<String> = text.split(separator).map(str::to_string).collect();
            assert_eq!(split(text, separator), expected, "{text:?} at {separator:?}");
        }
    }
}

#[test]
fn trimming_agrees_with_the_standard_library() {
    for text in SAMPLES {
        assert_eq!(trim_end_char(text, '/'), text.trim_end_matches('/'));
        for suffix in [".tar.gz", ".tgz", "/", "", "tar.gz", "b///"] {
            if !suffix.is_empty() {
                assert_eq!(
                    trim_end_str(text, suffix),
                    text.trim_end_matches(suffix),
                    "{text:?} without {suffix:?}"
                );
            } else {
                assert_eq!(trim_end_str(text, suffix), text);
            }
        }
    }
}

#[test]
fn searching_agrees_with_the_standard_library() {
    for text in SAMPLES {
        for pattern in ["", "/", "//", "a", "tar.gz", ".tar.gz", "wörld", "github.com", "@"] {
            assert_eq!(contains(text, pattern), text.contains(pattern), "{text:?} {pattern:?}");
            assert_eq!(starts_with(text, pattern), text.starts_with(pattern));
            assert_eq!(ends_with(text, pattern), text.ends_with(pattern));
            let expected = text.find(pattern).map(|at| text[..at].chars().count());
            assert_eq!(find(text, pattern), expected, "{text:?} {pattern:?}");
            let cut = text
                .split_once(pattern)
                .map(|(a, b)| (a.to_string(), b.to_string()));
            assert_eq!(split_once(text, pattern), cut, "{text:?} {pattern:?}");
            assert_eq!(str_eq(text, pattern), text == pattern);
            assert_eq!(str_le(text, pattern), text <= pattern, "{text:?} {pattern:?}");
            assert_eq!(str_le(pattern, text), pattern <= text, "{pattern:?} {text:?}");
        }
        assert_eq!(to_chars(text), text.chars().collect::<Vec<char>>());
        assert_eq!(prefix(text, 7), text.chars().take(7).collect::<String>());
        assert_eq!(prefix(text, 0), "");
    }
}

#[test]
fn character_classes_agree_with_the_standard_library() {
    for code in 0..=0x10FFFFu32 {
        if let Some(c) = char::from_u32(code) {
            assert_eq!(char_is_whitespace(c), c.is_whitespace(), "U+{code:04X}");
            assert_eq!(char_is_hex_digit(c), c.is_ascii_hexdigit(), "U+{code:04X}");
        }
    }
    assert!(is_hex("0123456789abcdefABCDEF"));
    assert!(is_hex(""));
    assert!(!is_hex("12g4"));
}

#[test]
fn trimming_a_range_agrees_with_the_standard_library() {
    for text in [
        "",
        " ",
        "a",
        "  a b \t",
        "\u{a0}x\u{3000}",
        "\r\n",
        " \u{85}код\u{2003} ",
        "\u{200b}x",
    ] {
        let chars: Vec<char> = text.chars().collect();
        let (start, end) = trim_range(&chars, 0, chars.len());
        let kept: String = chars[start..end].iter().collect();
        assert_eq!(kept, text.trim(), "{text:?}");
    }
}

#[test]
fn numbers_are_written_in_decimal() {
    for n in [0u128, 1, 9, 10, 11, 99, 100, 1234567890, u64::MAX as u128, u128::MAX] {
        assert_eq!(decimal_string(n), n.to_string());
    }
}

#[test]
fn numbers_are_grouped_by_thousands() {
    assert_eq!(format_number(0), "0");
    assert_eq!(format_number(7), "7");
    assert_eq!(format_number(999), "999");
    assert_eq!(format_number(1000), "1,000");
    assert_eq!(format_number(1001), "1,001");
    assert_eq!(format_number(12345), "12,345");
    assert_eq!(format_number(100000), "100,000");
    assert_eq!(format_number(1234567), "1,234,567");
    assert_eq!(format_number(1000000000), "1,000,000,000");
    assert_eq!(format_number(usize::MAX), {
        let digits = usize::MAX.to_string();
        let mut grouped = String::new();
        for (i, ch) in digits.chars().enumerate() {
            if i > 0 && (digits.len() - i) % 3 == 0 {
                grouped.push(',');
            }
            grouped.push(ch);
        }
        grouped
    });
}

fn shown_by_floats(bytes: u64, units: &[&str]) -> String {
    let mut size = bytes as f64;
    let mut unit_index = 0;
    while size >= 1024.0 && unit_index < units.len() - 1 {
        size /= 1024.0;
        unit_index += 1;
    }
    if unit_index == 0 {
        format!("{} {}", bytes, units[unit_index])
    } else {
        format!("{:.1} {}", size, units[unit_index])
    }
}

fn interesting_sizes() -> Vec<u64> {
    let mut sizes = vec![0u64, 1, 512, 1023, 1024, 1025, 1075, 1076, 1126, 1127, 1280, 1536, 1792];
    for shift in 10..64u32 {
        let base = 1u64 << shift;
        for delta in [0u64, 1, 2, 3, 51, 52, 102, 103, 511, 512, 513] {
            sizes.push(base.wrapping_add(delta));
            sizes.push(base.wrapping_sub(delta));
            sizes.push(base.wrapping_add(base / 4).wrapping_add(delta));
            sizes.push(base.wrapping_add(base / 20).wrapping_sub(delta));
            sizes.push((base / 10).wrapping_mul(3).wrapping_add(delta));
        }
    }
    let mut state = 0x9E3779B97F4A7C15u64;
    for _ in 0..20000 {
        state ^= state << 13;
        state ^= state >> 7;
        state ^= state << 17;
        sizes.push(state);
        sizes.push(state >> (state % 60));
    }
    sizes.push(u64::MAX);
    sizes.push(u64::MAX - 1);
    sizes.push(u64::MAX - 1023);
    sizes.push(u64::MAX - 1024);
    sizes
}

#[test]
fn sizes_are_shown_like_floating_point_shows_them() {
    for bytes in interesting_sizes() {
        assert_eq!(
            format_bytes(bytes),
            shown_by_floats(bytes, &["B", "KiB", "MiB", "GiB", "TiB"]),
            "{bytes}"
        );
        let mut stats = FilterStats::new();
        stats.record_entry(bytes, true);
        assert_eq!(
            stats.format_bytes_saved(),
            shown_by_floats(bytes, &["B", "KiB", "MiB", "GiB"]),
            "{bytes}"
        );
    }
}

#[test]
fn sizes_are_shown_with_one_decimal() {
    assert_eq!(format_bytes(0), "0 B");
    assert_eq!(format_bytes(1023), "1023 B");
    assert_eq!(format_bytes(1024), "1.0 KiB");
    assert_eq!(format_bytes(1280), "1.2 KiB");
    assert_eq!(format_bytes(1536), "1.5 KiB");
    assert_eq!(format_bytes(1792), "1.8 KiB");
    assert_eq!(format_bytes(1024 * 1024), "1.0 MiB");
    assert_eq!(format_bytes(1024 * 1024 * 1024), "1.0 GiB");
    assert_eq!(format_bytes(1024 * 1024 * 1024 * 1024), "1.0 TiB");
    assert_eq!(format_bytes(1024 * 1024 * 1024 * 1024 * 2048), "2048.0 TiB");
}

#[test]
fn text_is_escaped_for_xml() {
    for text in ["", "plain", "a&b", "<tag attr=\"v\">it's</tag>", "&amp;", "&&<<>>\"\"''", "ünï<ö>"] {
        let expected = text
            .replace("&", "&amp;")
            .replace("<", "&lt;")
            .replace(">", "&gt;")
            .replace("\"", "&quot;")
            .replace("'", "&apos;");
        assert_eq!(xml_escape(text), expected);
    }
    assert_eq!(xml_escape("a<b"), "a&lt;b");
}

#[test]
fn a_unit_beyond_the_fourth_stands_for_the_fourth() {
    let tebibyte: u64 = 1 << 40;
    assert_eq!(show_size(3 * tebibyte, 4), "3.0 TiB");
    assert_eq!(show_size(3 * tebibyte, 5), "3.0 TiB");
    assert_eq!(show_size(3 * tebibyte, 255), "3.0 TiB");
    assert_eq!(show_size(3 * tebibyte, 3), "3072.0 GiB");
    assert_eq!(show_size(1536, 200), "1.5 KiB");
    assert_eq!(show_size(1023, 200), "1023 B");
    assert_eq!(show_size(1536, 0), "1536 B");
}
