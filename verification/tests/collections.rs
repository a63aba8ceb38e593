use cincinnati::string_map::StringMap;
use cincinnati::string_set::StringSet;
use cincinnati::text::{split_on, trim_whitespace};
use cincinnati::text_order::text_precedes;

#[test]
fn map_holds_the_last_value_of_a_key() {
    let mut map: StringMap<i32> = StringMap::new();
    assert_eq!(map.len(), 0);
    assert_eq!(map.insert("a".to_string(), 1), None);
    assert_eq!(map.insert("b".to_string(), 2), None);
    assert_eq!(map.insert("c".to_string(), 3), None);
    assert_eq!(map.insert("a".to_string(), 4), Some(1));
    assert_eq!(map.insert("c".to_string(), 5), Some(3));
    assert_eq!(map.len(), 3);
    assert_eq!(map.get("a"), Some(&4));
    assert_eq!(map.get("b"), Some(&2));
    assert_eq!(map.get("c"), Some(&5));
    assert_eq!(map.get("d"), None);
    assert!(map.contains_key("b"));
    assert!(!map.contains_key(""));
    let keys: Vec<String> = (0..map.len()).map(|i| map.key(i).clone()).collect();
    assert_eq!(keys, vec!["a", "b", "c"]);
    let copy = map.clone();
    map.insert("b".to_string(), 9);
    assert_eq!(copy.get("b"), Some(&2));
    assert_eq!(copy.len(), 3);
    let empty: StringMap<String> = StringMap::default();
    assert_eq!(empty.len(), 0);
}

#[test]
fn set_holds_each_member_once() {
    let mut set = StringSet::new();
    assert!(set.is_empty());
    assert!(set.insert("a".to_string()));
    assert!(set.insert("b".to_string()));
    assert!(!set.insert("a".to_string()));
    assert_eq!(set.len(), 2);
    assert!(!set.is_empty());
    assert!(set.contains("a"));
    assert!(!set.contains("c"));
    assert_eq!(set.member(0), "a");
    assert_eq!(set.member(1), "b");
    let mut other = StringSet::default();
    other.insert("b".to_string());
    assert!(other.is_subset(&set));
    assert!(!set.is_subset(&other));
    assert!(set != other);
    other.insert("a".to_string());
    assert!(set == other);
    assert!(StringSet::new().is_subset(&set));
}

#[test]
fn pieces_between_separators() {
    assert_eq!(split_on("", ','), vec![""]);
    assert_eq!(split_on("a", ','), vec!["a"]);
    assert_eq!(split_on(",", ','), vec!["", ""]);
    assert_eq!(split_on("a,b,,c,", ','), vec!["a", "b", "", "c", ""]);
    assert_eq!(split_on("é/ü", '/'), vec!["é", "ü"]);
    for text in ["", "a", ",", "a,b,,c,", ",,", " a , b "] {
        let expected: Vec<&str> = text.split(',').collect();
        assert_eq!(split_on(text, ','), expected);
    }
}

#[test]
fn white_space_is_trimmed_at_both_ends() {
    for text in ["", " ", "a", "  a b\t\n", "\u{2003}é \u{85}", "\u{200b}a "] {
        assert_eq!(trim_whitespace(text), text.trim());
    }
    assert_eq!(trim_whitespace(" a  b "), "a  b");
}

#[test]
fn texts_are_ordered_as_strings_are() {
    let texts = ["", "a", "A", "ab", "b", "aa", "é", "e", "z", "\u{10000}", "\u{ffff}", "abc", "abd"];
    for a in texts {
        for b in texts {
            assert_eq!(text_precedes(a, b), a < b, "{:?} before {:?}", a, b);
        }
    }
}
