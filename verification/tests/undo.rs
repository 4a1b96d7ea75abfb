use sidecar_edit::undo::{
    UndoChangesMadeDuringExchangeRequest, UndoChangesMadeDuringExchangeRespnose,
};

#[test]
fn undo_request_keeps_its_fields() {
    let request = UndoChangesMadeDuringExchangeRequest::new(
        "exchange".to_owned(),
        "session".to_owned(),
        Some(3),
        "http://localhost:42427".to_owned(),
    );
    assert_eq!(request.exchange_id(), "exchange");
    assert_eq!(request.session_id(), "session");
    assert_eq!(request.index(), Some(3));
    assert_eq!(request.editor_url(), "http://localhost:42427");
}

#[test]
fn undo_endpoint_appends_the_path() {
    let request = UndoChangesMadeDuringExchangeRequest::new(
        "e".to_owned(),
        "s".to_owned(),
        None,
        "http://localhost:42427".to_owned(),
    );
    assert_eq!(
        request.endpoint_url(),
        "http://localhost:42427/undo_session_changes"
    );
}

#[test]
fn undo_response_reports_success() {
    assert!(UndoChangesMadeDuringExchangeRespnose::new(true).is_success());
    assert!(!UndoChangesMadeDuringExchangeRespnose::new(false).is_success());
}
