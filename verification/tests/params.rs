use cincinnati::errors::GraphError;
use cincinnati::params::{check_required_params, ensure_query_params, missing_params, parse_params_set};
use cincinnati::string_set::StringSet;

fn set_of(members: Vec<String>) -> StringSet {
    let mut set = StringSet::new();
    for member in members {
        set.insert(member);
    }
    set
}

#[test]
fn test_parse_params_set() {
    assert_eq!(parse_params_set(""), StringSet::new());

    let basic = vec!["a".to_string(), "b".to_string(), "c".to_string()];
    assert_eq!(parse_params_set("a,b,c"), set_of(basic));

    let dedup = vec!["a".to_string(), "b".to_string()];
    assert_eq!(parse_params_set("a,b,a"), set_of(dedup));

    let trimmed = vec!["foo".to_string(), "bar".to_string()];
    assert_eq!(parse_params_set("foo , , bar"), set_of(trimmed));
}

#[test]
fn test_ensure_query_params() {
    let empty = StringSet::new();
    ensure_query_params(&empty, "").unwrap();
    ensure_query_params(&empty, "a=b").unwrap();

    let simple = set_of(vec!["a".to_string()]);
    ensure_query_params(&simple, "a=b").unwrap();
    ensure_query_params(&simple, "a=b&a=c").unwrap();
    ensure_query_params(&simple, "").unwrap_err();
    ensure_query_params(&simple, "c=d").unwrap_err();
}

#[test]
fn parse_params_set_differs_from_other_sets() {
    assert_ne!(parse_params_set("a,b"), set_of(vec!["a".to_string()]));
    assert_ne!(parse_params_set("a"), set_of(vec!["a".to_string(), "b".to_string()]));
    assert_ne!(parse_params_set("a"), set_of(vec!["b".to_string()]));
}

#[test]
fn parse_params_set_trims_all_white_space() {
    let set = parse_params_set("\t a b \n,\u{a0}c\u{3000}, ,,");
    assert_eq!(set.len(), 2);
    assert!(set.contains("a b"));
    assert!(set.contains("c"));
    assert!(!set.contains(""));
    assert_eq!(set.member(0), "a b");
    assert_eq!(set.member(1), "c");
}

#[test]
fn missing_keys_are_listed_in_ascending_order() {
    let required = set_of(vec!["c".to_string(), "a".to_string()]);
    match ensure_query_params(&required, "a=1") {
        Err(GraphError::MissingParams(missing)) => assert_eq!(missing, vec!["c".to_string()]),
        other => panic!("unexpected outcome: {:?}", other),
    }
    match ensure_query_params(&set_of(vec!["a".to_string()]), "") {
        Err(GraphError::MissingParams(missing)) => assert_eq!(missing, vec!["a".to_string()]),
        other => panic!("unexpected outcome: {:?}", other),
    }
    let many = set_of(vec![
        "zeta".to_string(),
        "alpha".to_string(),
        "b".to_string(),
        "alp".to_string(),
        "Z".to_string(),
        "é".to_string(),
    ]);
    match ensure_query_params(&many, "b=1&x=2") {
        Err(GraphError::MissingParams(missing)) => {
            let mut expected = vec![
                "zeta".to_string(),
                "alpha".to_string(),
                "alp".to_string(),
                "Z".to_string(),
                "é".to_string(),
            ];
            expected.sort();
            assert_eq!(missing, expected);
            assert_eq!(missing, vec!["Z", "alp", "alpha", "zeta", "é"]);
        }
        other => panic!("unexpected outcome: {:?}", other),
    }
}

#[test]
fn query_keys_are_decoded() {
    let required = set_of(vec!["a b".to_string(), "#c".to_string()]);
    ensure_query_params(&required, "a+b=1&%23c=2").unwrap();
    ensure_query_params(&required, "a%20b&&%23c").unwrap();
    match ensure_query_params(&required, "a+b=%23c") {
        Err(GraphError::MissingParams(missing)) => assert_eq!(missing, vec!["#c".to_string()]),
        other => panic!("unexpected outcome: {:?}", other),
    }
}

#[test]
fn required_keys_against_given_keys() {
    let required = set_of(vec!["b".to_string(), "a".to_string(), "c".to_string()]);
    let present = vec!["c".to_string(), "d".to_string()];
    assert_eq!(missing_params(&required, &present), vec!["a", "b"]);
    assert!(check_required_params(&required, &present).is_err());
    let all = vec!["c".to_string(), "a".to_string(), "b".to_string(), "a".to_string()];
    assert!(missing_params(&required, &all).is_empty());
    assert!(check_required_params(&required, &all).is_ok());
    assert!(check_required_params(&StringSet::new(), &Vec::new()).is_ok());
}
