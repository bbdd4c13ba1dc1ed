use child_service::{AccessLevel, AuthError, RegisterError, State, User, UserGuard};

fn store_with(names: &[(&str, &str, &str, &str)]) -> State {
    let mut st = State::new();
    for (name, pw, token, uuid) in names {
        let r = st.register_with(name.to_string(), pw.to_string(), token.to_string(), uuid.to_string());
        assert_eq!(r, Ok(token.to_string()));
    }
    st
}

#[test]
fn second_registration_with_same_username_conflicts() {
    let mut st = State::new();
    let t1 = st.register_user("alice".to_string(), "pw1".to_string()).unwrap();
    assert_eq!(st.users.len(), 1);
    let r = st.register_user("alice".to_string(), "pw2".to_string());
    assert_eq!(r, Err(RegisterError::Conflict));
    assert_eq!(st.users.len(), 1);
    assert_eq!(st.users[0].0, t1);
    assert_eq!(st.users[0].1.password, "pw1");
}

#[test]
fn username_match_is_case_sensitive() {
    let mut st = store_with(&[("alice", "pw", "t1", "u1")]);
    let r = st.register_with("Alice".to_string(), "pw".to_string(), "t2".to_string(), "u2".to_string());
    assert_eq!(r, Ok("t2".to_string()));
    assert_eq!(st.users.len(), 2);
}

#[test]
fn taken_token_is_refused_without_change() {
    let mut st = store_with(&[("alice", "pw", "t1", "u1")]);
    let r = st.register_with("bob".to_string(), "pw".to_string(), "t1".to_string(), "u2".to_string());
    assert_eq!(r, Err(RegisterError::TokenTaken));
    assert_eq!(st.users.len(), 1);
    assert_eq!(st.users[0].1.username, "alice");
}

#[test]
fn authenticate_returns_registration_token() {
    let mut st = State::new();
    let ta = st.register_user("alice".to_string(), "pw1".to_string()).unwrap();
    let tb = st.register_user("bob".to_string(), "pw2".to_string()).unwrap();
    assert_eq!(st.authenticate(&"alice".to_string(), &"pw1".to_string()), Some(ta));
    assert_eq!(st.authenticate(&"bob".to_string(), &"pw2".to_string()), Some(tb));
    assert_eq!(st.authenticate(&"alice".to_string(), &"pw2".to_string()), None);
    assert_eq!(st.authenticate(&"carol".to_string(), &"pw1".to_string()), None);
}

#[test]
fn token_is_a_key_after_registration() {
    let mut st = State::new();
    let t = st.register_user("alice".to_string(), "pw1".to_string()).unwrap();
    assert_eq!(t.len(), 64);
    assert_eq!(st.find_token(&t), Some(0));
    let _ = st.register_user("bob".to_string(), "pw2".to_string());
    let user = st.lookup(&t).unwrap();
    assert_eq!(user.username, "alice");
    assert_eq!(user.access_level, AccessLevel::User);
    assert!(st.lookup(&"nope".to_string()).is_none());
}

#[test]
fn guard_rejects_missing_and_invalid_headers() {
    let st = store_with(&[("alice", "pw", "t1", "u1")]);
    assert!(matches!(UserGuard::from_header(&st, None), Err(AuthError::Unauthenticated)));
    assert!(matches!(UserGuard::from_header(&st, Some(None)), Err(AuthError::Unauthenticated)));
    assert!(matches!(UserGuard::from_header(&st, Some(Some("zzz"))), Err(AuthError::Forbidden)));
    let g = UserGuard::from_header(&st, Some(Some("t1"))).ok().unwrap();
    assert_eq!(g.0, "t1");
}

#[test]
fn snapshot_with_shared_token_is_refused() {
    let a = User::with_uuid("a".to_string(), "p".to_string(), "u1".to_string());
    let b = User::with_uuid("b".to_string(), "q".to_string(), "u2".to_string());
    let users = vec![("t".to_string(), a), ("t".to_string(), b)];
    assert!(State::from_snapshot(users, Vec::new(), Vec::new()).is_none());

    let a = User::with_uuid("a".to_string(), "p".to_string(), "u1".to_string());
    let b = User::with_uuid("b".to_string(), "q".to_string(), "u2".to_string());
    let users = vec![("t1".to_string(), a), ("t2".to_string(), b)];
    let st = State::from_snapshot(users, Vec::new(), Vec::new()).unwrap();
    assert_eq!(st.authenticate(&"b".to_string(), &"q".to_string()), Some("t2".to_string()));
    assert!(st.listeners.is_empty());
}

#[test]
fn new_user_is_plain_with_hyphenated_id() {
    let u = User::new("alice".to_string(), "pw".to_string());
    assert_eq!(u.username, "alice");
    assert_eq!(u.password, "pw");
    assert_eq!(u.access_level, AccessLevel::User);
    assert_eq!(u.uuid.len(), 36);
    assert_eq!(u.uuid.matches('-').count(), 4);
    assert_eq!(&u.uuid[14..15], "4");
    let w = u.web_user();
    assert_eq!(w.username, "alice");
    assert_eq!(w.uuid, u.uuid.as_str());
    assert_eq!(*w.access_level, AccessLevel::User);
}

#[test]
fn token_is_digest_of_hex_time() {
    assert_eq!(
        child_service::token_for(255),
        "05a9bf223fedf80a9d0da5f73f5c191a665bf4a0a4a3e608f2f9e7d5ff23959c"
    );
    assert_eq!(
        child_service::token_for(0),
        "5feceb66ffc86f38d952786c6d696c79c2dbc239dd4e91b46729d73a27fb57e9"
    );
    assert_eq!(
        child_service::token_for(-1),
        "6534b338bcb91cf173444c24ed8bc0f1b7065face0ea95cdd1b936556c6860ed"
    );
    assert_eq!(
        child_service::token_for(1700000000000),
        "0d097434fdfe7912599b1a735f78d47f5fc1aa50b41d597a2c26a9b566b6f92b"
    );
    let t = child_service::generate_epicos_tokens();
    assert_eq!(t.len(), 64);
    assert!(t.chars().all(|c| c.is_ascii_hexdigit() && !c.is_ascii_uppercase()));
}

#[test]
fn lower_hex_matches_std_formatting() {
    assert_eq!(child_service::lower_hex(0), "0");
    assert_eq!(child_service::lower_hex(255), "ff");
    assert_eq!(child_service::lower_hex(1700000000000), "18bcfe56800");
    assert_eq!(child_service::lower_hex(-1), "ffffffffffffffff");
    assert_eq!(child_service::lower_hex(i64::MIN), "8000000000000000");
    assert_eq!(child_service::lower_hex(i64::MAX), format!("{:x}", i64::MAX));
}

#[test]
fn snapshot_with_shared_username_is_refused() {
    let a = User::with_uuid("a".to_string(), "p".to_string(), "u1".to_string());
    let b = User::with_uuid("a".to_string(), "q".to_string(), "u2".to_string());
    let users = vec![("t1".to_string(), a), ("t2".to_string(), b)];
    assert!(State::from_snapshot(users, Vec::new(), Vec::new()).is_none());
}

#[test]
fn registration_on_empty_store_succeeds() {
    let mut st = State::new();
    let t = st.register_user("alice".to_string(), "pw1".to_string()).unwrap();
    assert_eq!(st.users.len(), 1);
    assert_eq!(st.users[0].0, t);
    assert_eq!(st.users[0].1.uuid.len(), 36);
    assert_eq!(&st.users[0].1.uuid[8..9], "-");
}
