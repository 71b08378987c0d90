use ad_helper::{filetime_to_unix_secs, AttributeHelper, Entry, SidError};
use chrono::NaiveDate;

fn entry_with(attrs: &[(&str, &[&str])]) -> Entry {
    let mut e = Entry::new("CN=Test,DC=contoso,DC=com".to_string());
    for (name, vals) in attrs {
        e.attrs
            .push((name.to_string(), vals.iter().map(|v| v.to_string()).collect()));
    }
    e
}

#[test]
fn int_attr_reads_first_value() {
    let e = entry_with(&[("count", &["42", "7"]), ("neg", &["-15"]), ("plus", &["+3"])]);
    assert_eq!(e.int_attr("count"), Some(42));
    assert_eq!(e.int_attr("neg"), Some(-15));
    assert_eq!(e.int_attr("plus"), Some(3));
}

#[test]
fn int_attr_absent_or_unparseable() {
    let e = entry_with(&[("name", &["abc"]), ("big", &["9223372036854775808"])]);
    assert_eq!(e.int_attr("missing"), None);
    assert_eq!(e.int_attr("name"), None);
    assert_eq!(e.int_attr("big"), None);
}

#[test]
fn int_attr_empty_list_reads_zero() {
    let e = entry_with(&[("count", &[])]);
    assert_eq!(e.int_attr("count"), Some(0));
}

#[test]
fn int_attr_is_case_sensitive() {
    let e = entry_with(&[("userAccountControl", &["512"])]);
    assert_eq!(e.int_attr("useraccountcontrol"), None);
}

#[test]
fn enabled_reads_disable_bit() {
    assert!(entry_with(&[("userAccountControl", &["512"])]).enabled());
    assert!(!entry_with(&[("userAccountControl", &["514"])]).enabled());
}

#[test]
fn enabled_defaults_to_disabled() {
    assert!(!entry_with(&[]).enabled());
    assert!(!entry_with(&[("userAccountControl", &["junk"])]).enabled());
}

#[test]
fn filetime_conversion() {
    assert_eq!(filetime_to_unix_secs(132_514_560_000_000_000), 1_606_957_200);
    assert_eq!(filetime_to_unix_secs(0), 0);
    assert_eq!(filetime_to_unix_secs(-5), 0);
    assert_eq!(filetime_to_unix_secs(116_444_736_000_000_000), 0);
    assert_eq!(filetime_to_unix_secs(116_444_988_000_000_000), 0);
    assert_eq!(filetime_to_unix_secs(116_444_988_010_000_000), 1);
}

#[test]
fn last_logon_of_entry() {
    let e = entry_with(&[("lastLogonTimestamp", &["132514560000000000"])]);
    let expected = NaiveDate::from_ymd_opt(2020, 12, 3)
        .unwrap()
        .and_hms_opt(1, 0, 0)
        .unwrap();
    assert_eq!(e.last_logon(), expected);
}

#[test]
fn last_logon_missing_is_epoch() {
    let expected = NaiveDate::from_ymd_opt(1970, 1, 1)
        .unwrap()
        .and_hms_opt(0, 0, 0)
        .unwrap();
    assert_eq!(entry_with(&[]).last_logon(), expected);
}

#[test]
fn str_attr_is_destructive() {
    let mut e = entry_with(&[("x", &["one"]), ("y", &["a", "b"])]);
    assert_eq!(e.str_attr("x"), Some("one".to_string()));
    assert_eq!(e.str_attr("x"), None);
    assert_eq!(e.str_attr("y"), Some("a".to_string()));
    assert_eq!(e.str_attr("y"), Some("b".to_string()));
    assert_eq!(e.str_attr("y"), None);
    assert!(e.attrs.is_empty());
}

#[test]
fn str_attr_keeps_other_attributes() {
    let mut e = entry_with(&[("a", &["1"]), ("x", &["v"]), ("b", &["2"])]);
    assert_eq!(e.str_attr("x"), Some("v".to_string()));
    assert_eq!(e.attrs.len(), 2);
    assert_eq!(e.str_attr("missing"), None);
    assert_eq!(e.int_attr("b"), Some(2));
}

#[test]
fn member_of_takes_all_groups() {
    let mut e = entry_with(&[("memberOf", &["CN=A", "CN=B", "CN=C"])]);
    assert_eq!(
        e.member_of(),
        Some(vec!["CN=A".to_string(), "CN=B".to_string(), "CN=C".to_string()])
    );
    assert_eq!(e.member_of(), None);
}

#[test]
fn sid_of_entry() {
    let mut e = entry_with(&[]);
    e.bin_attrs.push((
        "objectSid".to_string(),
        vec![vec![0x01, 0x01, 0, 0, 0, 0, 0, 0x05, 0x12, 0, 0, 0]],
    ));
    assert_eq!(e.sid(), Ok("S-1-1-18".to_string()));
}

#[test]
fn sid_of_entry_without_sid() {
    assert_eq!(entry_with(&[]).sid(), Err(SidError::MalformedSid));
}
