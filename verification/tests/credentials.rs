use tdi::errors::TdiError;
use tdi::store::{load_credential, render_credential, AccessToken};
use tdi::tasks::{collect_tasks, Task};

fn token(access: &[u8]) -> AccessToken {
    AccessToken {
        access_token: access.to_vec(),
        token_type: b"Bearer".to_vec(),
        expires_in: Some(3600),
        scopes: vec![b"tasks.read".to_vec(), b"user.read".to_vec()],
    }
}

#[test]
fn saved_credential_loads_back_to_the_same_token_string() {
    let t = token(b"T1");
    let doc = render_credential(&t);
    assert_eq!(load_credential(Some(&doc)), Ok(b"T1".to_vec()));
}

#[test]
fn round_trip_survives_escaping() {
    let tricky = b"a\"b\\c\nd\te/f";
    let t = token(tricky);
    let doc = render_credential(&t);
    assert_eq!(load_credential(Some(&doc)), Ok(tricky.to_vec()));
}

#[test]
fn rendered_credential_has_the_documented_shape() {
    let t = token(b"T1");
    let doc = String::from_utf8(render_credential(&t)).unwrap();
    assert_eq!(
        doc,
        "{\"access_token\":{\"access_token\":\"T1\",\"token_type\":\"Bearer\",\"expires_in\":3600,\"scope\":[\"tasks.read\",\"user.read\"]}}"
    );
}

#[test]
fn rendered_credential_without_expiry_omits_the_member() {
    let mut t = token(b"T1");
    t.expires_in = None;
    let doc = String::from_utf8(render_credential(&t)).unwrap();
    assert!(!doc.contains("expires_in"));
    assert!(doc.contains("\"access_token\":\"T1\""));
}

#[test]
fn loading_without_a_file_is_not_authenticated() {
    assert_eq!(load_credential(None), Err(TdiError::NotAuthenticated));
}

#[test]
fn loading_a_corrupt_file_is_a_store_error() {
    let garbage = b"this is not json".to_vec();
    assert_eq!(
        load_credential(Some(&garbage)),
        Err(TdiError::CredentialStore)
    );
    // valid JSON without the member is also unusable, not "not logged in"
    let wrong_shape = b"{\"foo\":1}".to_vec();
    assert_eq!(
        load_credential(Some(&wrong_shape)),
        Err(TdiError::CredentialStore)
    );
}

#[test]
fn loading_tolerates_extra_members() {
    let doc =
        b"{\"access_token\":{\"access_token\":\"T9\",\"provider\":\"x\"},\"extra\":true}".to_vec();
    assert_eq!(load_credential(Some(&doc)), Ok(b"T9".to_vec()));
}

#[test]
fn error_classes_have_stable_names() {
    assert_eq!(TdiError::NotAuthenticated.class_name(), "not logged in");
    assert_eq!(
        TdiError::CredentialStore.class_name(),
        "credential store is unusable"
    );
    assert_eq!(
        TdiError::CallbackTimeout.class_name(),
        "timed out waiting for the redirect"
    );
}

#[test]
fn new_task_starts_as_todo() {
    let t = Task::new(99, "buy milk".to_string());
    assert_eq!(t.id, 99);
    assert_eq!(t.text, "buy milk");
    assert_eq!(t.state, "todo");
}

#[test]
fn no_tasks_are_stored() {
    assert!(collect_tasks().is_empty());
}

#[test]
fn zero_expiry_renders_as_zero() {
    let mut t = token(b"T1");
    t.expires_in = Some(0);
    let doc = String::from_utf8(render_credential(&t)).unwrap();
    assert!(doc.contains("\"expires_in\":0"));
    assert_eq!(load_credential(Some(&render_credential(&t))), Ok(b"T1".to_vec()));
}

#[test]
fn empty_scope_list_renders_as_empty_array() {
    let mut t = token(b"T1");
    t.scopes = Vec::new();
    let doc = String::from_utf8(render_credential(&t)).unwrap();
    assert!(doc.contains("\"scope\":[]"));
}
