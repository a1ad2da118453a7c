use herdr_mirror::idmap::IdMap;
use herdr_mirror::text::{
    decimal, holds_text, same_opt_text, same_text, standing, starts_with, trim, Standing,
};

#[test]
fn texts_are_ordered_by_code_point() {
    assert_eq!(standing("", "a"), Standing::Below);
    assert_eq!(standing("a", "ab"), Standing::Below);
    assert_eq!(standing("b", "ab"), Standing::Above);
    assert_eq!(standing("Z", "a"), Standing::Below);
    assert_eq!(standing("é", "z"), Standing::Above);
    assert_eq!(standing("日本", "日本"), Standing::Same);
    for a in ["", "a", "ab", "b", "é", "日本", "🦀"] {
        for b in ["", "a", "ab", "b", "é", "日本", "🦀"] {
            let want = if a < b {
                Standing::Below
            } else if a == b {
                Standing::Same
            } else {
                Standing::Above
            };
            assert_eq!(standing(a, b), want);
            assert_eq!(same_text(a, b), a == b);
        }
    }
}

#[test]
fn optional_texts_are_told_apart() {
    let some = Some("x".to_string());
    assert!(holds_text(&some, "x"));
    assert!(!holds_text(&some, "y"));
    assert!(!holds_text(&None, "x"));
    assert!(same_opt_text(&some, &some));
    assert!(same_opt_text(&None, &None));
    assert!(!same_opt_text(&some, &None));
    assert!(!same_opt_text(&None, &some));
}

#[test]
fn numbers_are_written_in_decimal() {
    for n in [0u64, 7, 10, 99, 100, 12345678901234567890, u64::MAX] {
        assert_eq!(decimal(n), n.to_string());
    }
}

#[test]
fn white_space_is_trimmed_like_std_does() {
    for s in ["", " ", "a", " a ", "\n\ta b\r\n", "\u{a0}x\u{3000}", "\u{200b}x", "\u{2028}\u{85}y"] {
        assert_eq!(trim(s), s.trim());
    }
    for n in 0..=0x3100u32 {
        if let Some(c) = char::from_u32(n) {
            let s = format!("{c}x{c}");
            assert_eq!(trim(&s), s.trim());
        }
    }
}

#[test]
fn a_text_starts_with_its_first_character() {
    assert!(starts_with("-x", '-'));
    assert!(!starts_with("x-", '-'));
    assert!(!starts_with("", '-'));
}

#[test]
fn maps_list_their_keys_in_order() {
    let mut map: IdMap<u32> = IdMap::new();
    assert!(map.is_empty());
    for (n, key) in ["b", "a", "c", "aa"].iter().enumerate() {
        assert_eq!(map.insert(key.to_string(), n as u32), None);
    }
    assert_eq!(map.insert("b".to_string(), 9), Some(0));
    assert_eq!(map.len(), 4);
    assert_eq!(map.keys_listed(), vec!["a", "aa", "b", "c"]);
    assert_eq!(map.get("b"), Some(&9));
    assert_eq!(map.get("z"), None);
    assert!(map.contains_key("aa"));
    *map.get_mut("c").unwrap() = 7;
    assert!(map.get_mut("z").is_none());
    assert_eq!(map.entry_at(3), (&"c".to_string(), &7));
    assert_eq!(map.remove("a"), Some(1));
    assert_eq!(map.remove("a"), None);
    assert_eq!(map.keys_listed(), vec!["aa", "b", "c"]);
}

#[test]
fn maps_of_strings_can_be_copied() {
    let mut map: IdMap<String> = IdMap::new();
    map.insert("k".to_string(), "v".to_string());
    let copy = map.copied();
    map.remove("k");
    assert_eq!(copy.get("k"), Some(&"v".to_string()));
    assert!(map.is_empty());
}
