use serde_fancy_regex::codec::{
    decode_opt, decode_opt_map, decode_opt_seq, decode_seq, encode_opt, encode_opt_map,
    encode_opt_seq, encode_seq,
};
use serde_fancy_regex::pattern::Pattern;
use serde_fancy_regex::pattern_map::{decode_map, encode_map};
use serde_fancy_regex::Serde;

#[test]
fn test_vec() {
    let sources = vec!["a.*b".to_string(), "c?d".to_string()];
    let vec = Serde(decode_seq(&sources).unwrap());
    assert!(vec.0[0].source() == "a.*b");
    assert!(vec.0[1].source() == "c?d");
    assert!(vec.0.len() == 2);
}

#[test]
fn test_hashmap() {
    let entries = vec![
        ("a".to_string(), "a.*b".to_string()),
        ("b".to_string(), "c?d".to_string()),
    ];
    let map = Serde(decode_map(&entries).unwrap());
    assert!(map.0.get(&"a".to_string()).unwrap().source() == "a.*b");
    assert!(map.0.get(&"b".to_string()).unwrap().source() == "c?d");
    assert!(map.0.len() == 2);
}

#[test]
fn test_simple() {
    let sample = r#"[a-z"\]]+\d{1,10}""#;
    let re = Serde(Pattern::parse(sample).unwrap());
    assert_eq!(re.0.source(), sample);
    assert_eq!(re.0.source().to_string(), sample.to_string());
}

#[test]
fn test_option_some() {
    let sample = r#"[a-z"\]]+\d{1,10}""#;
    let re = Serde(decode_opt(&Some(sample.to_string())).unwrap());
    assert_eq!(re.0.as_ref().map(|p| p.source()), Some(sample));
    assert_eq!(encode_opt(&re.0), Some(sample.to_string()));
}

#[test]
fn test_option_none() {
    let re = Serde(decode_opt(&None).unwrap());
    assert!(re.0.is_none());
    assert_eq!(encode_opt(&re.0), None);
}

#[test]
fn test_option_vec() {
    let sources = Some(vec!["a.*b".to_string(), "c?d".to_string()]);
    let vec = Serde(decode_opt_seq(&sources).unwrap());
    assert!(vec.0.is_some());
    let v = vec.0.unwrap();
    assert!(v[0].source() == "a.*b");
    assert!(v[1].source() == "c?d");
    assert!(v.len() == 2);
}

#[test]
fn test_option_hashmap() {
    let entries = Some(vec![
        ("a".to_string(), "a.*b".to_string()),
        ("b".to_string(), "c?d".to_string()),
    ]);
    let map = Serde(decode_opt_map(&entries).unwrap());
    assert!(map.0.is_some());
    let v = map.0.unwrap();
    assert!(v.get(&"a".to_string()).unwrap().source() == "a.*b");
    assert!(v.get(&"b".to_string()).unwrap().source() == "c?d");
    assert!(v.len() == 2);
}

#[test]
fn round_trip_single() {
    let p = Pattern::parse("a.*b").unwrap();
    assert_eq!(p.source(), "a.*b");
}

#[test]
fn round_trip_escaped() {
    let sample = r#"[a-z"\]]+\d{1,10}""#;
    let p = Pattern::parse(sample).unwrap();
    assert_eq!(p.source(), sample);
}

#[test]
fn round_trip_sequence_order() {
    let sources = vec!["a.*b".to_string(), "c?d".to_string(), "^x$".to_string()];
    let patterns = decode_seq(&sources).unwrap();
    let encoded = encode_seq(&patterns);
    assert_eq!(encoded, sources);
}

#[test]
fn round_trip_mapping_complete() {
    let entries = vec![
        ("a".to_string(), "a.*b".to_string()),
        ("b".to_string(), "c?d".to_string()),
        ("c".to_string(), "^x$".to_string()),
    ];
    let map = decode_map(&entries).unwrap();
    let mut encoded = encode_map(&map);
    encoded.sort();
    assert_eq!(encoded, entries);
}

#[test]
fn mapping_duplicate_key_last_wins() {
    let entries = vec![
        ("a".to_string(), "a.*b".to_string()),
        ("a".to_string(), "c?d".to_string()),
    ];
    let map = decode_map(&entries).unwrap();
    assert_eq!(map.len(), 1);
    assert_eq!(map.get(&"a".to_string()).unwrap().source(), "c?d");
}

#[test]
fn mapping_missing_key() {
    let map = decode_map(&vec![("a".to_string(), "a.*b".to_string())]).unwrap();
    assert!(map.get(&"b".to_string()).is_none());
}

#[test]
fn syntax_failure_single() {
    let err = Pattern::parse("(unclosed").unwrap_err();
    assert!(!err.message.is_empty());
}

#[test]
fn syntax_failure_in_sequence() {
    let sources = vec!["a.*b".to_string(), "(".to_string()];
    assert!(decode_seq(&sources).is_err());
}

#[test]
fn syntax_failure_in_mapping() {
    let entries = vec![("a".to_string(), "(".to_string())];
    assert!(decode_map(&entries).is_err());
}

#[test]
fn optional_sequence_absent_and_present() {
    assert!(decode_opt_seq(&None).unwrap().is_none());
    assert_eq!(encode_opt_seq(&None), None);
    let sources = Some(vec!["a.*b".to_string(), "c?d".to_string()]);
    let decoded = decode_opt_seq(&sources).unwrap().unwrap();
    assert_eq!(decoded.len(), 2);
    assert_eq!(encode_opt_seq(&Some(decoded)), sources);
}

#[test]
fn optional_mapping_absent() {
    assert!(decode_opt_map(&None).unwrap().is_none());
    assert_eq!(encode_opt_map(&None), None);
}

#[test]
fn optional_mapping_present() {
    let entries = Some(vec![("k".to_string(), "a+".to_string())]);
    let decoded = decode_opt_map(&entries).unwrap().unwrap();
    let encoded = encode_opt_map(&Some(decoded)).unwrap();
    assert_eq!(encoded, entries.unwrap());
}

#[test]
fn compiled_pattern_matches() {
    let p = Pattern::parse("a.*b").unwrap();
    assert!(p.regex().is_match("axxb").unwrap());
    assert!(!p.regex().is_match("xyz").unwrap());
}

#[test]
fn wrapper_into_inner_and_from() {
    let wrapped = Serde::from(7u32);
    assert_eq!(wrapped.into_inner(), 7u32);
    let p = Pattern::parse("c?d").unwrap();
    let wrapped = Serde(p);
    let cloned = wrapped.clone();
    assert_eq!(wrapped.into_inner().source(), "c?d");
    assert_eq!(cloned.into_inner().source(), "c?d");
}
