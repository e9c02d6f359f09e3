use rustical::store::principal::{app_token_matches, check_password, AppToken, Principal};

fn user(password: Option<String>) -> Principal {
    Principal {
        id: "user".into(),
        displayname: None,
        password,
        principal_type: "individual".into(),
        memberships: vec![],
    }
}

#[test]
fn passwords_log_in_their_principal() {
    let hash = password_auth::generate_hash("secret");
    let u = user(Some(hash));
    assert_eq!(check_password(Some(u.clone()), "secret").map(|p| p.id), Some("user".to_string()));
    assert!(check_password(Some(u), "wrong").is_none());
    assert!(check_password(Some(user(None)), "secret").is_none());
    assert!(check_password(None, "secret").is_none());
}

#[test]
fn app_tokens_match_any_stored_hash() {
    let tokens = vec![
        AppToken { id: "1".into(), name: "a".into(), token: password_auth::generate_hash("t1"), created_at: None },
        AppToken { id: "2".into(), name: "b".into(), token: password_auth::generate_hash("t2"), created_at: None },
    ];
    assert!(app_token_matches(&tokens, "t2"));
    assert!(!app_token_matches(&tokens, "t3"));
    assert!(!app_token_matches(&vec![], "t1"));
}
