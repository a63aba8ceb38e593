use cincinnati::errors::GraphError;
use cincinnati::path_prefix::de_path_prefix;
use cincinnati::signatures::{
    format_request, signature_path, signature_response, SignatureRead, NO_ACCEPT_TYPE,
    NO_USER_AGENT,
};

#[test]
fn request_is_described_for_the_log() {
    assert_eq!(
        format_request("GET", "/sha256=abc/signature-1", "a=b", Some("curl/8"), Some("*/*")),
        "Method: 'GET', Request: '/sha256=abc/signature-1', Query: 'a=b', User-Agent: 'curl/8', Accept: '*/*'"
    );
    assert_eq!(
        format_request("HEAD", "/", "", None, None),
        "Method: 'HEAD', Request: '/', Query: '', User-Agent: 'user-agent not available', Accept: 'Accept value unavailable'"
    );
    assert_eq!(NO_USER_AGENT, "user-agent not available");
    assert_eq!(NO_ACCEPT_TYPE, "Accept value unavailable");
}

#[test]
fn signature_is_kept_below_its_digest() {
    assert_eq!(signature_path("sha256=abc", "signature-1"), "sha256=abc/signature-1");
    assert_eq!(signature_path("", ""), "/");
}

#[test]
fn signature_or_the_reason_for_none() {
    assert_eq!(
        signature_response(SignatureRead::Content("signed".to_string())).unwrap(),
        "signed"
    );
    match signature_response(SignatureRead::Missing("No such file (os error 2)".to_string())) {
        Err(GraphError::DoesNotExist(what)) => {
            assert_eq!(what, "signature does not exist No such file (os error 2)")
        }
        other => panic!("unexpected outcome: {:?}", other),
    }
    match signature_response(SignatureRead::Unreadable("invalid utf-8".to_string())) {
        Err(GraphError::FileOpenError(what)) => assert_eq!(what, "unable to read invalid utf-8"),
        other => panic!("unexpected outcome: {:?}", other),
    }
}

#[test]
fn path_prefix_of_a_configuration() {
    let read: Result<String, u8> = Ok("//a/b//".to_string());
    assert_eq!(de_path_prefix(read), Ok(Some("/a/b".to_string())));
    let failed: Result<String, u8> = Err(7);
    assert_eq!(de_path_prefix(failed), Err(7));
}
