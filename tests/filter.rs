use ad_helper::generate_bulk_filter;

#[test]
fn bulk_filter_two_users() {
    assert_eq!(
        generate_bulk_filter(&["JSmith", "AJones"], "user", "samaccountname"),
        "(&(objectCategory=user)(|(samaccountname=JSmith)(samaccountname=AJones)))"
    );
}

#[test]
fn bulk_filter_empty_set() {
    assert_eq!(
        generate_bulk_filter(&[], "group", "cn"),
        "(&(objectCategory=group)(|))"
    );
}

#[test]
fn bulk_filter_is_repeatable() {
    let ids = ["a", "b", "c"];
    let first = generate_bulk_filter(&ids, "computer", "name");
    let second = generate_bulk_filter(&ids, "computer", "name");
    assert_eq!(first, second);
    assert_eq!(first, "(&(objectCategory=computer)(|(name=a)(name=b)(name=c)))");
}
