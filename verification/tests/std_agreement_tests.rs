use std::path::Path;

use kernel_ci_center::slug::repo_slug;
use kernel_ci_center::text::{decimal_string, is_whitespace, join_path, to_hex_lower};
use kernel_ci_center::util::{has_zip_extension, newest_index};

/// The slug computed with std's own string methods.
fn slug_by_str_methods(url: &str) -> Option<String> {
    let s = url.trim().trim_end_matches(".git");
    let s = s.rsplit("github.com").next()?;
    let s = s.trim_start_matches([':', '/']);
    if s.split('/').filter(|p| !p.is_empty()).count() == 2 {
        Some(s.to_string())
    } else {
        None
    }
}

#[test]
fn whitespace_matches_char_is_whitespace() {
    for u in 0u32..=0x10FFFF {
        if let Some(c) = char::from_u32(u) {
            assert_eq!(is_whitespace(c), c.is_whitespace(), "U+{u:04X}");
        }
    }
}

#[test]
fn zip_extension_matches_path_extension() {
    for name in [
        "a.zip", ".zip", "..zip", "zip", "a.zip.zip", "a.tar.zip", "a.zipx", "a.ZIP", "a.", ".a.zip",
        "x..zip", "é.zip", "a b.zip", "",
    ] {
        let by_path = Path::new(name).extension().map(|x| x == "zip").unwrap_or(false);
        assert_eq!(has_zip_extension(name), by_path, "{name:?}");
    }
}

#[test]
fn join_matches_path_join() {
    for base in ["", "/", "/w", "/w/", "w", "a/b"] {
        for p in ["", "x", "/abs", "x/y", ".git", "x/"] {
            let by_path = Path::new(base).join(p).to_string_lossy().into_owned();
            assert_eq!(join_path(base, p), by_path, "{base:?} {p:?}");
        }
    }
}

#[test]
fn slug_matches_str_methods() {
    let urls = [
        "git@github.com:OWNER/NAME.git",
        "https://github.com/OWNER/NAME.git",
        "https://github.com/OWNER/NAME",
        " \t https://github.com/o/n.git.git \n",
        "https://github.com/o/n.git/",
        "https://github.com/o",
        "https://github.com/o/n/x",
        "github.com/github.com/a/b",
        "ssh://git@github.com/a/b.git",
        "https://gitlab.com/a/b.git",
        "a/b",
        "/a//b/",
        "::a:/b",
        ".git",
        "",
        "github.com",
        "https://github.com/:o/n",
        "https://github.com//o/n",
        "\u{2003}https://github.com/a/b\u{2003}",
    ];
    for u in urls {
        assert_eq!(repo_slug(u), slug_by_str_methods(u), "{u:?}");
    }
}

#[test]
fn newest_matches_max_by_key() {
    let cases: Vec<Vec<i128>> = vec![
        vec![1],
        vec![3, 3, 3],
        vec![1, 5, 2, 5, 0],
        vec![-1, -2, -1],
        vec![9, 8, 7],
    ];
    for m in cases {
        let by_iter = m.iter().enumerate().max_by_key(|(_, t)| **t).map(|(i, _)| i);
        assert_eq!(newest_index(&m), by_iter, "{m:?}");
    }
}

#[test]
fn renderings_match_format() {
    for n in [0u64, 7, 10, 99, 100, 123456789, 1_000_000_000, u64::MAX] {
        assert_eq!(decimal_string(n), n.to_string());
    }
    let bytes: Vec<u8> = (0u8..=255).collect();
    let by_format: String = bytes.iter().map(|b| format!("{b:02x}")).collect();
    assert_eq!(to_hex_lower(&bytes), by_format);
}
