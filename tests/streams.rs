use child_service::{
    AccessLevel, InfallibleStream, Priority, Report, ReportDetails, State, StreamPayload,
};

fn report(owner: &str, subject: &str) -> Report {
    Report {
        created_at: 1,
        report_details: ReportDetails { subject: subject.to_string() },
        priority: Priority::Minor,
        user_uuid: owner.to_string(),
        employee_uuid: String::new(),
        messages: Vec::new(),
        is_resolved: false,
    }
}

fn drain(rx: &mut tokio::sync::mpsc::Receiver<Vec<u8>>) -> Vec<Vec<u8>> {
    let mut out = Vec::new();
    while let Ok(chunk) = rx.try_recv() {
        out.push(chunk);
    }
    out
}

#[test]
fn new_stream_registers_and_sends_handshake() {
    let mut st = State::new();
    let mut rx = st.new_stream("u1".to_string());
    assert_eq!(st.listeners.len(), 1);
    assert_eq!(st.listeners[0].owner, "u1");
    assert_eq!(drain(&mut rx), vec![b"test".to_vec()]);
}

#[test]
fn broadcast_to_reaches_only_that_users_listeners() {
    let mut st = State::new();
    let mut a1 = st.new_stream("a".to_string());
    let mut b1 = st.new_stream("b".to_string());
    let mut a2 = st.new_stream("a".to_string());
    drain(&mut a1);
    drain(&mut b1);
    drain(&mut a2);
    let sent = st.broadcast_to(&"a".to_string(), &b"hello".to_vec());
    assert_eq!(sent, vec![0, 2]);
    assert_eq!(drain(&mut a1), vec![b"hello".to_vec()]);
    assert_eq!(drain(&mut a2), vec![b"hello".to_vec()]);
    assert!(drain(&mut b1).is_empty());
    let none = st.broadcast_to(&"c".to_string(), &b"x".to_vec());
    assert!(none.is_empty());
}

#[test]
fn broadcast_reaches_every_open_listener_and_skips_dead_ones() {
    let mut st = State::new();
    let mut a = st.new_stream("a".to_string());
    let b = st.new_stream("b".to_string());
    let mut c = st.new_stream("c".to_string());
    drop(b);
    drain(&mut a);
    drain(&mut c);
    let sent = st.broadcast(&b"all".to_vec());
    assert_eq!(sent, vec![0, 2]);
    assert_eq!(drain(&mut a), vec![b"all".to_vec()]);
    assert_eq!(drain(&mut c), vec![b"all".to_vec()]);
    assert_eq!(st.listeners.len(), 3);
}

#[test]
fn full_channel_drops_the_message() {
    let mut st = State::new();
    let mut rx = st.attach_listener("a".to_string(), 1, b"first".to_vec());
    let sent = st.broadcast(&b"second".to_vec());
    assert_eq!(sent, vec![0]);
    assert_eq!(drain(&mut rx), vec![b"first".to_vec()]);
}

#[test]
fn sweep_removes_dropped_listeners() {
    let mut st = State::new();
    let _a = st.new_stream("a".to_string());
    let b = st.new_stream("b".to_string());
    let _c = st.new_stream("c".to_string());
    drop(b);
    st.sweep();
    let owners: Vec<&str> = st.listeners.iter().map(|l| l.owner.as_str()).collect();
    assert_eq!(owners, vec!["a", "c"]);
}

#[test]
fn select_and_prune_follow_closed_flags() {
    let mut st = State::new();
    let _a = st.new_stream("a".to_string());
    let _b = st.new_stream("b".to_string());
    let _c = st.new_stream("a".to_string());
    let closed = vec![false, false, true];
    assert_eq!(st.select_targets(&closed, None), vec![0, 1]);
    assert_eq!(st.select_targets(&closed, Some(&"a".to_string())), vec![0]);
    st.prune_closed(&vec![true, false, false]);
    let owners: Vec<&str> = st.listeners.iter().map(|l| l.owner.as_str()).collect();
    assert_eq!(owners, vec!["b", "a"]);
}

#[test]
fn alice_scenario() {
    let mut st = State::new();
    let t1 = st.register_user("alice".to_string(), "pw1".to_string()).unwrap();
    assert_eq!(
        st.register_user("alice".to_string(), "pw2".to_string()),
        Err(child_service::RegisterError::Conflict)
    );
    assert_eq!(st.users.len(), 1);
    assert_eq!(st.authenticate(&"alice".to_string(), &"pw1".to_string()), Some(t1.clone()));
    let tb = st.register_user("bob".to_string(), "pw".to_string()).unwrap();
    let alice_id = st.lookup(&t1).unwrap().uuid.clone();
    let bob_id = st.lookup(&tb).unwrap().uuid.clone();
    st.reports.push(report(&alice_id, "a1"));
    st.reports.push(report(&bob_id, "b1"));
    st.reports.push(report(&alice_id, "a2"));

    match st.ready_payload(&t1) {
        Some(StreamPayload::Ready { user, reports, nicknames }) => {
            assert_eq!(user.username, "alice");
            let subjects: Vec<&str> = reports.iter().map(|r| r.report_details.subject.as_str()).collect();
            assert_eq!(subjects, vec!["a1", "a2"]);
            assert_eq!(nicknames, vec![(alice_id.as_str(), "alice"), (bob_id.as_str(), "bob")]);
        },
        _ => panic!("expected a user payload"),
    }
    assert!(st.ready_payload(&"unknown".to_string()).is_none());
    assert!(matches!(
        child_service::UserGuard::from_header(&st, Some(Some("unknown"))),
        Err(child_service::AuthError::Forbidden)
    ));
}

#[test]
fn admin_payload_holds_everyone() {
    let mut st = State::new();
    let ta = st.register_user("root".to_string(), "pw".to_string()).unwrap();
    let tb = st.register_user("bob".to_string(), "pw".to_string()).unwrap();
    st.users[0].1.access_level = AccessLevel::Admin;
    let admin_id = st.lookup(&ta).unwrap().uuid.clone();
    let bob_id = st.lookup(&tb).unwrap().uuid.clone();
    st.reports.push(report(&bob_id, "b1"));
    st.reports.push(report("someone", "s1"));
    match st.ready_payload(&ta) {
        Some(StreamPayload::ReadyAdmin { id, users, reports }) => {
            assert_eq!(id, admin_id.as_str());
            let names: Vec<&str> = users.iter().map(|u| u.username).collect();
            assert_eq!(names, vec!["root", "bob"]);
            assert_eq!(*users[0].access_level, AccessLevel::Admin);
            assert_eq!(reports.len(), 2);
        },
        _ => panic!("expected an admin payload"),
    }
}

#[test]
fn infallible_stream_wraps_its_source() {
    let s = InfallibleStream::new(vec![1u8, 2u8]);
    assert_eq!(s.stream, vec![1u8, 2u8]);
}
