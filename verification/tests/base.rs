use shirl::bytes::{cut_at_boundary, longer_than, width_of};
use shirl::file_path::{
    joined_path, path_ancestors, path_extension, path_file_name, path_file_stem, path_parent,
};
use shirl::sort::{sorted, sorted_order};
use shirl::text::{
    ascii_lowered, blank, contains_text, decimal_text, has_prefix, has_text,
    is_whitespace, joined, lines_of, parsed_u32, pieces_of, replaced, same_ignoring_case,
    split_at_first, trimmed, trimmed_end, trimmed_end_char, trimmed_start, trimmed_start_char,
    without_prefix, words_of,
};
use shirl::text_map::{comes_before, copy_text_map, TextMap};
use std::collections::BTreeMap;
use std::path::Path;

const SAMPLES: [&str; 22] = [
    "",
    " ",
    "a",
    "ab",
    "aab",
    " a b ",
    "\ta\u{a0}b\u{3000}",
    "line\n",
    "line\r\n",
    "a\nb\n\nc",
    "a\r\nb\rc\n\r\n",
    "\n",
    "\r",
    "a/b/c",
    "//a//",
    "naïve café",
    "日本語 テキスト",
    "😀 x 😀",
    "AbC dEf",
    "## Title ##",
    "ababab",
    "\u{2028}x\u{85}",
];

#[test]
fn whitespace_is_that_of_unicode() {
    for n in 0..=0x10ffffu32 {
        if let Some(c) = char::from_u32(n) {
            assert_eq!(is_whitespace(c), c.is_whitespace(), "{n:x}");
            assert_eq!(width_of(c), c.len_utf8());
        }
    }
}

#[test]
fn trimming() {
    for s in SAMPLES {
        assert_eq!(trimmed(s), s.trim());
        assert_eq!(trimmed_start(s), s.trim_start());
        assert_eq!(trimmed_end(s), s.trim_end());
        assert_eq!(blank(s), s.trim().is_empty());
        for c in ['#', '/', 'a'] {
            assert_eq!(trimmed_start_char(s, c), s.trim_start_matches(c));
            assert_eq!(trimmed_end_char(s, c), s.trim_end_matches(c));
        }
    }
}

#[test]
fn splitting() {
    for s in SAMPLES {
        assert_eq!(lines_of(s), s.lines().collect::<Vec<_>>(), "{s:?}");
        assert_eq!(words_of(s), s.split_whitespace().collect::<Vec<_>>());
        for c in ['/', 'a', '\n'] {
            assert_eq!(pieces_of(s, c), s.split(c).collect::<Vec<_>>());
        }
        for p in ["", "a", "ab", "/", "\n", " "] {
            let want = s.split_once(p).map(|(a, b)| (a.to_string(), b.to_string()));
            assert_eq!(split_at_first(s, p), want);
        }
    }
}

#[test]
fn searching() {
    for s in SAMPLES {
        for p in ["", "a", "ab", "b ", "日本", "😀"] {
            assert_eq!(has_text(s, p), s.contains(p));
            assert_eq!(has_prefix(s, p), s.starts_with(p));
            assert_eq!(without_prefix(s, p).as_deref(), s.strip_prefix(p));
            if !p.is_empty() {
                assert_eq!(replaced(s, p, "<>"), s.replace(p, "<>"));
            }
        }
    }
}

#[test]
fn letter_case() {
    for s in SAMPLES {
        assert_eq!(ascii_lowered(s), s.to_ascii_lowercase());
        for t in SAMPLES {
            assert_eq!(same_ignoring_case(s, t), s.eq_ignore_ascii_case(t));
        }
    }
    assert!(same_ignoring_case("ABC", "abc"));
}

#[test]
fn numbers() {
    for n in [0u64, 1, 9, 10, 99, 12345, u32::MAX as u64, u64::MAX] {
        assert_eq!(decimal_text(n), n.to_string());
    }
    for s in [
        "", "0", "+7", "-7", "007", "4294967295", "4294967296", "99999999999", "1a", " 1", "+", "٣",
    ] {
        assert_eq!(parsed_u32(s), s.parse::<u32>().ok(), "{s:?}");
    }
}

#[test]
fn joining() {
    let parts = |v: &[&str]| v.iter().map(|s| s.to_string()).collect::<Vec<String>>();
    assert_eq!(joined(&parts(&[]), ", "), "");
    assert_eq!(joined(&parts(&["a"]), ", "), "a");
    assert_eq!(joined(&parts(&["a", "", "b"]), ", "), "a, , b");
    assert!(contains_text(&parts(&["a", "b"]), "b"));
    assert!(!contains_text(&parts(&["a", "b"]), "c"));
}

#[test]
fn byte_lengths() {
    for s in SAMPLES {
        for n in 0..30 {
            assert_eq!(longer_than(s, n), s.len() > n);
            let mut end = n.min(s.len());
            while !s.is_char_boundary(end) {
                end += 1;
            }
            assert_eq!(cut_at_boundary(s, n), &s[..end], "{s:?} {n}");
        }
    }
}

#[test]
fn paths() {
    for p in [
        "/", "/a", "/a/b", "/a/b.c", "/a/b.c.d", "/a/.hidden", "/a/.hidden.x", "/home/u/x y.png",
        "a", "a/b", "a.tar.gz", ".hidden", "a.", "/a/b.", "",
    ] {
        let path = Path::new(p);
        assert_eq!(path_file_name(p), path.file_name().map(|s| s.to_str().unwrap().to_string()), "{p:?}");
        assert_eq!(path_extension(p), path.extension().map(|s| s.to_str().unwrap().to_string()), "{p:?}");
        assert_eq!(path_file_stem(p), path.file_stem().map(|s| s.to_str().unwrap().to_string()), "{p:?}");
        assert_eq!(
            path_parent(p),
            path.parent().map(|q| q.to_str().unwrap().to_string()),
            "{p:?}"
        );
        let want: Vec<String> =
            path.ancestors().map(|q| q.to_str().unwrap().to_string()).collect();
        assert_eq!(path_ancestors(p), want, "{p:?}");
        for name in ["x", "x/y", "/abs", ".cargo"] {
            assert_eq!(joined_path(p, name), path.join(name).to_str().unwrap(), "{p:?} {name:?}");
        }
    }
}

#[test]
fn texts_have_an_order() {
    for s in SAMPLES {
        for t in SAMPLES {
            assert_eq!(comes_before(s, t), s < t, "{s:?} {t:?}");
        }
    }
}

#[test]
fn maps_keep_their_keys_in_order() {
    let mut map = TextMap::new();
    let mut want = BTreeMap::new();
    for (i, key) in SAMPLES.iter().enumerate() {
        map.insert(key.to_string(), i);
        want.insert(key.to_string(), i);
    }
    map.insert("ab".to_string(), 100);
    want.insert("ab".to_string(), 100);
    assert_eq!(map.remove("aab"), want.remove("aab"));
    assert_eq!(map.remove("missing"), None);
    assert_eq!(map.keys(), want.keys().cloned().collect::<Vec<_>>());
    for key in SAMPLES {
        assert_eq!(map.get(key), want.get(key));
        assert_eq!(map.contains_key(key), want.contains_key(key));
    }
    assert!(!map.is_empty());
    assert_eq!(map.entries().len(), want.len());
    assert_eq!(map.into_entries(), want.into_iter().collect::<Vec<_>>());
    let mut one = TextMap::new();
    one.insert("k".to_string(), "v".to_string());
    assert_eq!(copy_text_map(&one).into_entries(), vec![("k".to_string(), "v".to_string())]);
}

#[test]
fn sorting_is_stable() {
    let all: Vec<String> = SAMPLES.iter().chain(SAMPLES.iter()).map(|s| s.to_string()).collect();
    let mut want: Vec<String> = all.clone();
    want.sort();
    let order = sorted_order(&all);
    let mut positions: Vec<usize> = (0..all.len()).collect();
    positions.sort_by_key(|&i| all[i].clone());
    assert_eq!(order, positions);
    assert_eq!(sorted(all), want);
    assert!(sorted(Vec::<String>::new()).is_empty());
}
