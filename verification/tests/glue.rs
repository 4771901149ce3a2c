use chat_relay::firebase::{
    get_firebase_api_key, login_outcome, save_outcome, sign_in_url, sign_up_url, signup_outcome,
    user_doc_url, users_collection_url,
};
use chat_relay::users::{find_local_id, last_path_segment, local_id_param, visible_nicknames};

fn s(text: &str) -> String {
    text.to_string()
}

#[test]
fn api_key_is_unconfigured_by_default() {
    assert_eq!(get_firebase_api_key(), "");
}

#[test]
fn endpoint_urls_are_built_exactly() {
    assert_eq!(
        sign_up_url(&s("KEY")),
        "https://identitytoolkit.googleapis.com/v1/accounts:signUp?key=KEY"
    );
    assert_eq!(
        sign_in_url(&s("KEY")),
        "https://identitytoolkit.googleapis.com/v1/accounts:signInWithPassword?key=KEY"
    );
    assert_eq!(
        user_doc_url(&s("proj"), &s("u17"), &s("KEY")),
        "https://firestore.googleapis.com/v1/projects/proj/databases/(default)/documents/users/u17?key=KEY"
    );
    assert_eq!(
        users_collection_url(&s("proj"), &s("KEY")),
        "https://firestore.googleapis.com/v1/projects/proj/databases/(default)/documents/users?key=KEY"
    );
}

#[test]
fn signup_outcome_returns_fields_on_success() {
    let r = signup_outcome(true, Some(s("tok")), Some(s("uid")), &s("ignored"));
    assert_eq!(r, Ok((s("tok"), s("uid"))));
    let missing = signup_outcome(true, None, Some(s("uid")), &s("ignored"));
    assert_eq!(missing, Ok((s(""), s("uid"))));
}

#[test]
fn signup_outcome_wraps_failure_body() {
    let r = signup_outcome(false, None, None, &s("EMAIL_EXISTS"));
    assert_eq!(r, Err(s("Firebase registration failed: EMAIL_EXISTS")));
}

#[test]
fn login_outcome_matches_both_cases() {
    let ok = login_outcome(true, Some(s("tok")), Some(s("uid")), &s(""));
    assert_eq!(ok, Ok((s("tok"), s("uid"))));
    let err = login_outcome(false, None, None, &s("INVALID_PASSWORD"));
    assert_eq!(err, Err(s("Firebase login failed: INVALID_PASSWORD")));
}

#[test]
fn save_outcome_matches_both_cases() {
    assert_eq!(save_outcome(true, &s("")), Ok(()));
    assert_eq!(
        save_outcome(false, &s("PERMISSION_DENIED")),
        Err(s("Failed to save user: PERMISSION_DENIED"))
    );
}

#[test]
fn local_id_is_found_in_query_strings() {
    assert_eq!(find_local_id(&s("localId=abc")), "abc");
    assert_eq!(find_local_id(&s("a=1&localId=abc&b=2")), "abc");
    assert_eq!(find_local_id(&s("localId=abc&localId=later")), "abc");
}

#[test]
fn local_id_value_stops_at_the_next_equals_sign() {
    assert_eq!(find_local_id(&s("localId=a=b")), "a");
    assert_eq!(find_local_id(&s("x=1&localId=")), "");
}

#[test]
fn absent_local_id_reads_as_empty() {
    assert_eq!(find_local_id(&s("")), "");
    assert_eq!(find_local_id(&s("a=1&b=2")), "");
    assert_eq!(find_local_id(&s("localId")), "");
    assert_eq!(find_local_id(&s("XlocalId=abc")), "");
}

#[test]
fn local_id_is_percent_decoded() {
    assert_eq!(find_local_id(&s("localId=a%20b")), "a b");
    assert_eq!(find_local_id(&s("q=1&localId=%C3%A9")), "\u{e9}");
}

#[test]
fn raw_param_is_reported_before_decoding() {
    assert_eq!(local_id_param("localId=a%20b"), Some(s("a%20b")));
    assert_eq!(local_id_param("a=1"), None);
}

#[test]
fn last_path_segment_takes_what_follows_the_last_slash() {
    assert_eq!(
        last_path_segment("projects/p/databases/(default)/documents/users/u17"),
        "u17"
    );
    assert_eq!(last_path_segment("plain"), "plain");
    assert_eq!(last_path_segment("trailing/"), "");
    assert_eq!(last_path_segment(""), "");
}

#[test]
fn visible_nicknames_filters_the_caller_out() {
    let users = vec![
        (s("u1"), s("Ann")),
        (s("u2"), s("Ben")),
        (s("u3"), s("Cay")),
    ];
    assert_eq!(visible_nicknames(&users, &s("u2")), vec![s("Ann"), s("Cay")]);
    assert_eq!(
        visible_nicknames(&users, &s("nobody")),
        vec![s("Ann"), s("Ben"), s("Cay")]
    );
    let none: Vec<(String, String)> = Vec::new();
    assert_eq!(visible_nicknames(&none, &s("u1")), Vec::<String>::new());
}
