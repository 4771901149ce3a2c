//! Compute-only pieces of the identity-provider and document-store glue:
//! the configured API key, the request URLs, and the decision each reply
//! resolves to. The HTTP calls themselves live outside the library.

use vstd::prelude::*;

verus! {

/// The Identity Toolkit API key this deployment is configured with; the
/// empty string when no key has been configured.
pub fn get_firebase_api_key() -> (r: &'static str)
    ensures
        r@ == Seq::<char>::empty(),
{
    let r = "";
    proof {
        reveal_strlit("");
        assert(r@ =~= Seq::<char>::empty());
    }
    r
}

/// The sign-up endpoint for a given API key.
pub open spec fn sign_up_url_spec(api_key: Seq<char>) -> Seq<char> {
    "https://identitytoolkit.googleapis.com/v1/accounts:signUp?key="@ + api_key
}

/// Builds the sign-up endpoint URL for `api_key`.
pub fn sign_up_url(api_key: &String) -> (r: String)
    ensures
        r@ == sign_up_url_spec(api_key@),
{
    let mut u = String::from_str("https://identitytoolkit.googleapis.com/v1/accounts:signUp?key=");
    u.append(api_key.as_str());
    u
}

/// The sign-in endpoint for a given API key.
pub open spec fn sign_in_url_spec(api_key: Seq<char>) -> Seq<char> {
    "https://identitytoolkit.googleapis.com/v1/accounts:signInWithPassword?key="@ + api_key
}

/// Builds the sign-in endpoint URL for `api_key`.
pub fn sign_in_url(api_key: &String) -> (r: String)
    ensures
        r@ == sign_in_url_spec(api_key@),
{
    let mut u = String::from_str(
        "https://identitytoolkit.googleapis.com/v1/accounts:signInWithPassword?key=",
    );
    u.append(api_key.as_str());
    u
}

/// The document URL of one user record in the given project.
pub open spec fn user_doc_url_spec(
    project: Seq<char>,
    local_id: Seq<char>,
    api_key: Seq<char>,
) -> Seq<char> {
    "https://firestore.googleapis.com/v1/projects/"@ + project
        + "/databases/(default)/documents/users/"@ + local_id + "?key="@ + api_key
}

/// Builds the URL of the user document for `local_id`.
pub fn user_doc_url(project: &String, local_id: &String, api_key: &String) -> (r: String)
    ensures
        r@ == user_doc_url_spec(project@, local_id@, api_key@),
{
    let mut u = String::from_str("https://firestore.googleapis.com/v1/projects/");
    u.append(project.as_str());
    u.append("/databases/(default)/documents/users/");
    u.append(local_id.as_str());
    u.append("?key=");
    u.append(api_key.as_str());
    u
}

/// The URL of the whole user collection in the given project.
pub open spec fn users_collection_url_spec(project: Seq<char>, api_key: Seq<char>) -> Seq<char> {
    "https://firestore.googleapis.com/v1/projects/"@ + project
        + "/databases/(default)/documents/users?key="@ + api_key
}

/// Builds the URL of the user collection.
pub fn users_collection_url(project: &String, api_key: &String) -> (r: String)
    ensures
        r@ == users_collection_url_spec(project@, api_key@),
{
    let mut u = String::from_str("https://firestore.googleapis.com/v1/projects/");
    u.append(project.as_str());
    u.append("/databases/(default)/documents/users?key=");
    u.append(api_key.as_str());
    u
}

/// A reply field read leniently: a missing field counts as empty.
pub open spec fn field_or_empty(f: Option<Seq<char>>) -> Seq<char> {
    match f {
        Some(s) => s,
        None => Seq::empty(),
    }
}

fn unwrap_field(f: Option<String>) -> (r: String)
    ensures
        r@ == field_or_empty(f.deep_view()),
{
    match f {
        Some(s) => s,
        None => String::new(),
    }
}

/// Resolves a sign-up reply: on a success status the token and local id
/// are returned as sent (a missing field as the empty string); otherwise
/// the reply body is wrapped in the registration error message.
pub fn signup_outcome(
    success: bool,
    id_token: Option<String>,
    local_id: Option<String>,
    body: &String,
) -> (r: Result<(String, String), String>)
    ensures
        success ==> (r matches Ok(c) && c.0@ == field_or_empty(id_token.deep_view())
            && c.1@ == field_or_empty(local_id.deep_view())),
        !success ==> (r matches Err(e) && e@ == "Firebase registration failed: "@ + body@),
{
    if success {
        Ok((unwrap_field(id_token), unwrap_field(local_id)))
    } else {
        let mut e = String::from_str("Firebase registration failed: ");
        e.append(body.as_str());
        Err(e)
    }
}

/// Resolves a sign-in reply: on a success status the token and local id
/// are returned as sent (a missing field as the empty string); otherwise
/// the reply body is wrapped in the login error message.
pub fn login_outcome(
    success: bool,
    id_token: Option<String>,
    local_id: Option<String>,
    body: &String,
) -> (r: Result<(String, String), String>)
    ensures
        success ==> (r matches Ok(c) && c.0@ == field_or_empty(id_token.deep_view())
            && c.1@ == field_or_empty(local_id.deep_view())),
        !success ==> (r matches Err(e) && e@ == "Firebase login failed: "@ + body@),
{
    if success {
        Ok((unwrap_field(id_token), unwrap_field(local_id)))
    } else {
        let mut e = String::from_str("Firebase login failed: ");
        e.append(body.as_str());
        Err(e)
    }
}

/// Resolves a user-record save reply: a success status saves silently;
/// any other wraps the reply body in the save error message.
pub fn save_outcome(success: bool, body: &String) -> (r: Result<(), String>)
    ensures
        success ==> r is Ok,
        !success ==> (r matches Err(e) && e@ == "Failed to save user: "@ + body@),
{
    if success {
        Ok(())
    } else {
        let mut e = String::from_str("Failed to save user: ");
        e.append(body.as_str());
        Err(e)
    }
}

} // verus!
