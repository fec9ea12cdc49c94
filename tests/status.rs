use image_prediction::status::{check_model_status, status_url, StatusCheckError};

#[test]
fn test_get_model_status_error_code() {
    let result = check_model_status(vec![("NOT_FOUND".to_string(), "Model not found".to_string())]);
    match result {
        Err(StatusCheckError::Model(e)) => assert_eq!(e.message(), "Model status error: NOT_FOUND - Model not found"),
        _ => panic!("a NOT_FOUND code must be an error"),
    }
}

#[test]
fn status_ok_and_empty() {
    assert!(check_model_status(vec![("OK".to_string(), "".to_string())]).is_ok());
    assert!(matches!(check_model_status(vec![]), Err(StatusCheckError::NoVersionStatus)));
}

#[test]
fn status_url_with_and_without_label() {
    assert_eq!(status_url("http://h", "foo", "1", None), "http://h/models/foo/versions/1");
    assert_eq!(status_url("http://h", "foo", "1", Some("stable")), "http://h/models/foo/versions/1/labels/stable");
}
