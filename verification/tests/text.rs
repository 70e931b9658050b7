use zhi::context::ToolContext;
use zhi::dirs::{auth_path, cache_path, data_dir, snapshots_dir};
use zhi::map::StringMap;
use zhi::number::{i32_text, i64_text, pad_left, parse_usize, u64_text, usize_text};
use zhi::order::{sort_texts, text_before};
use zhi::path::{is_absolute, normalize, path_join};
use zhi::relative::relativize_path;
use zhi::search::{
    contains, count_matches, join, replace_all, replace_first, starts_with, strip_prefix,
    take_chars,
};
use zhi::split::{lines, split_char, split_once, split_words};
use zhi::text::{is_white_space, str_eq, trim, trim_end};
use zhi::tool::Error;

fn texts(list: &[&str]) -> Vec<String> {
    list.iter().map(|s| s.to_string()).collect()
}

#[test]
fn white_space_is_that_of_unicode() {
    for c in '\0'..=char::MAX {
        assert_eq!(is_white_space(c), c.is_whitespace(), "{c:?}");
    }
}

#[test]
fn trimming_agrees_with_std() {
    for s in ["", " ", "\t a b \n", "\u{3000}x\u{a0}", "sin", "  \u{200b} "] {
        assert_eq!(trim(s), s.trim());
        assert_eq!(trim_end(s), s.trim_end());
    }
}

#[test]
fn equality_of_texts() {
    assert!(str_eq("añ", "añ"));
    assert!(!str_eq("a", "b"));
    assert!(!str_eq("a", "ab"));
}

#[test]
fn splitting_agrees_with_std() {
    for s in ["", "a", "a.b.c", "..", "ñ.é.", ".x"] {
        assert_eq!(split_char(s, '.'), s.split('.').collect::<Vec<_>>());
        let once = s.split_once('.').map(|(a, b)| (a.to_string(), b.to_string()));
        assert_eq!(split_once(s, '.'), once);
    }
    for s in ["", "\n", "a\nb", "a\r\nb\r\n", "a\n\nb", "\r\n", "a\rb\n", "x\r"] {
        assert_eq!(lines(s), s.lines().collect::<Vec<_>>(), "{s:?}");
    }
    for s in ["", "  ", "a", " a  b\tc\n", "\u{3000}x y"] {
        assert_eq!(split_words(s), s.split_whitespace().collect::<Vec<_>>());
    }
}

#[test]
fn searching_agrees_with_std() {
    for (s, p) in [
        ("", ""),
        ("abc", ""),
        ("abc", "b"),
        ("aaaa", "aa"),
        ("ñandú ñ", "ñ"),
        ("abc", "abcd"),
        ("xyxyx", "xyx"),
    ] {
        assert_eq!(contains(s, p), s.contains(p));
        assert_eq!(starts_with(s, p), s.starts_with(p));
        assert_eq!(strip_prefix(s, p), s.strip_prefix(p).map(str::to_string));
        assert_eq!(count_matches(s, p), s.matches(p).count(), "{s} {p}");
        assert_eq!(replace_all(s, p, "-é-"), s.replace(p, "-é-"), "{s} {p}");
        assert_eq!(replace_first(s, p, "-é-"), s.replacen(p, "-é-", 1), "{s} {p}");
    }
    assert_eq!(join(&texts(&["a", "", "b"]), ", "), "a, , b");
    assert_eq!(join(&Vec::new(), ", "), "");
    assert_eq!(take_chars("añb", 2), "añ");
    assert_eq!(take_chars("añb", 9), "añb");
}

#[test]
fn numbers_agree_with_std() {
    for n in [0u64, 7, 10, 99, 100, 1234567890, u64::MAX] {
        assert_eq!(u64_text(n), n.to_string());
    }
    assert_eq!(usize_text(usize::MAX), usize::MAX.to_string());
    for n in [0i32, -1, 42, i32::MIN, i32::MAX] {
        assert_eq!(i32_text(n), n.to_string());
    }
    for n in [0i64, -1, 42, i64::MIN, i64::MAX] {
        assert_eq!(i64_text(n), n.to_string());
    }
    assert_eq!(pad_left("7", 4), format!("{:>4}", 7));
    assert_eq!(pad_left("12345", 4), "12345");
    for s in ["", "0", "7", "007", "+5", "-1", "1a", " 1", "18446744073709551616", "+"] {
        assert_eq!(parse_usize(s), s.parse().ok(), "{s:?}");
    }
}

#[test]
fn texts_are_ordered_as_std_orders_them() {
    let list = ["b", "", "a", "ab", "é", "z", "a", "\u{10000}", "\u{ffff}"];
    let mut want = texts(&list);
    want.sort();
    assert_eq!(sort_texts(texts(&list)), want);
    for a in list {
        for b in list {
            assert_eq!(text_before(a, b), a < b, "{a:?} {b:?}");
        }
    }
}

#[test]
fn a_map_keeps_its_keys_in_order() {
    let mut m = StringMap::new();
    m.insert("b".to_string(), 1);
    m.insert("a".to_string(), 2);
    m.insert("c".to_string(), 3);
    m.insert("a".to_string(), 4);
    let keys: Vec<&str> = m.entries().iter().map(|(k, _)| k.as_str()).collect();
    assert_eq!(keys, ["a", "b", "c"]);
    assert_eq!(m.get("a"), Some(&4));
    assert_eq!(m.get("x"), None);
    assert!(m.remove("b"));
    assert!(!m.remove("b"));
    assert!(!m.contains_key("b"));
    assert_eq!(m.len(), 2);
}

#[test]
fn paths_are_joined_as_std_joins_them() {
    for base in ["/w", "/w/", "", "rel", "/"] {
        for rel in ["a", "a/b", "", "/abs", "..", "./x"] {
            let want = std::path::Path::new(base).join(rel);
            assert_eq!(path_join(base, rel), want.to_str().unwrap(), "{base:?} {rel:?}");
        }
    }
    assert!(is_absolute("/a"));
    assert!(!is_absolute("a"));
}

#[test]
fn paths_are_made_normal() {
    for (path, want) in [
        ("/w/a/../b", "/w/b"),
        ("/w/./a", "/w/a"),
        ("/w//a/", "/w/a"),
        ("/../x", "/x"),
        ("/w/a/b/../../c", "/w/c"),
    ] {
        assert_eq!(normalize(path).text(), want, "{path}");
    }
}

#[test]
fn paths_are_shown_from_the_worktree() {
    assert_eq!(relativize_path("/w/a/b.txt", "/w"), "a/b.txt");
    assert_eq!(relativize_path("/other/x", "/w"), "/other/x");
    let ctx = ToolContext::new("/w");
    assert_eq!(ctx.workdir(), "/w");
    assert_eq!(ctx.relativize("/w/a"), "a");
    for root in ["/w", "/w/", "/", "/w//x/."] {
        let ctx = ToolContext::new(root);
        for rel in ["a", "a/b/../c.txt", ".", "./d//e/", "x/y"] {
            let path = ctx.resolve(rel).unwrap();
            let short = ctx.relativize(&path);
            assert!(!short.starts_with('/'), "{root} {rel}");
            assert_eq!(ctx.resolve(&short).unwrap(), path, "{root} {rel}");
        }
    }
}

#[test]
fn a_path_is_kept_inside_the_worktree() {
    let ctx = ToolContext::new("/w");
    assert_eq!(ctx.resolve("a/b.txt").unwrap(), "/w/a/b.txt");
    assert_eq!(ctx.resolve("a/../c").unwrap(), "/w/c");
    assert_eq!(ctx.resolve("/w/x").unwrap(), "/w/x");
    assert_eq!(ctx.resolve(".").unwrap(), "/w");
    assert!(matches!(ctx.resolve(".."), Err(Error::PathOutsideWorkdir(_))));
    assert!(matches!(ctx.resolve("/etc/passwd"), Err(Error::PathOutsideWorkdir(_))));
    assert!(matches!(ctx.resolve("a/../../x"), Err(Error::PathOutsideWorkdir(_))));
    assert!(matches!(ctx.resolve("/ww/x"), Err(Error::PathOutsideWorkdir(_))));
}

#[test]
fn files_have_their_places() {
    assert_eq!(data_dir(Some("/d"), None).as_deref(), Some("/d/xiě-code"));
    assert_eq!(data_dir(None, Some("/h")).as_deref(), Some("/h/.local/share/xiě-code"));
    assert_eq!(data_dir(Some(""), None), None);
    assert_eq!(auth_path(None, Some("/h")), "/h/.local/share/xiě-code/auth.json");
    assert_eq!(snapshots_dir(7, Some("/d"), None), "/d/xiě-code/snapshots/7");
    assert_eq!(snapshots_dir(-7, None, None), ".local/share/xiě-code/snapshots/-7");
    assert_eq!(cache_path(Some("/c"), None).as_deref(), Some("/c/xiě-code/models.json"));
    assert_eq!(cache_path(None, Some("/h")).as_deref(), Some("/h/.cache/xiě-code/models.json"));
    assert_eq!(cache_path(None, None), None);
}
