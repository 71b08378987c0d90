use ad_helper::{connection_order, decide, server_url, AttemptOutcome, ConnectError, Decision};

#[test]
fn servers_tried_by_priority() {
    let priorities = [30u16, 10, 20];
    let order = connection_order(&priorities);
    assert_eq!(order, vec![1, 2, 0]);
    let tried: Vec<u16> = order.iter().map(|&i| priorities[i]).collect();
    assert_eq!(tried, vec![10, 20, 30]);
}

#[test]
fn equal_priorities_keep_answer_order() {
    assert_eq!(connection_order(&[5, 1, 5, 1]), vec![1, 3, 0, 2]);
    assert_eq!(connection_order(&[]), Vec::<usize>::new());
}

#[test]
fn server_url_strips_root_dot() {
    assert_eq!(server_url("dc1.contoso.com."), "ldaps://dc1.contoso.com:636");
    assert_eq!(server_url("dc1.contoso.com"), "ldaps://dc1.contoso.com:636");
    assert_eq!(server_url("dc1.."), "ldaps://dc1.:636");
}

#[test]
fn decisions_after_attempts() {
    assert_eq!(decide(AttemptOutcome::Bound, 0), Decision::Connected);
    assert_eq!(
        decide(AttemptOutcome::BindFailed, 3),
        Decision::Fail(ConnectError::AuthFailed)
    );
    assert_eq!(decide(AttemptOutcome::TransportFailed, 2), Decision::TryNext);
    assert_eq!(decide(AttemptOutcome::NoUsableLabel, 1), Decision::TryNext);
    assert_eq!(
        decide(AttemptOutcome::TransportFailed, 0),
        Decision::Fail(ConnectError::NoServerAvailable)
    );
}
