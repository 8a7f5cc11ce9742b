use graphivault::commands::{
    add_image_from_frontend, backend_command_args, backend_response_text, get_decrypted_image, get_image_thumbnail,
    get_vault_status, initialize_vault, lock_vault, search_images, unlock_vault, BackendRequest,
};
use graphivault::encryption::{
    decrypt_file_args, decrypt_file_outcome, encrypt_file_args, encrypt_file_outcome, settle_envelope, GatewayOutcome,
};

#[test]
fn encrypt_success_returns_path() {
    let out = encrypt_file_outcome(true, r#"{"success": true, "encrypted_path": "encrypted/a.bin"}"#, String::new());
    assert_eq!(out, GatewayOutcome::Success("encrypted/a.bin".to_string()));
}

#[test]
fn encrypt_refusal_carries_error_text() {
    let out = encrypt_file_outcome(true, r#"{"success": false, "error": "wrong password"}"#, String::new());
    assert_eq!(out, GatewayOutcome::Failure("wrong password".to_string()));
}

#[test]
fn encrypt_refusal_without_text_is_unknown_error() {
    let out = encrypt_file_outcome(true, r#"{"success": false}"#, String::new());
    assert_eq!(out, GatewayOutcome::Failure("Unknown error".to_string()));
}

#[test]
fn encrypt_success_without_path_is_transport_error() {
    let out = encrypt_file_outcome(true, r#"{"success": true}"#, String::new());
    assert_eq!(out, GatewayOutcome::TransportError("no output path in response".to_string()));
}

#[test]
fn nonzero_exit_is_failure_with_stderr() {
    let out = encrypt_file_outcome(false, r#"{"success": true, "encrypted_path": "x"}"#, "crashed".to_string());
    assert_eq!(out, GatewayOutcome::Failure("crashed".to_string()));
}

#[test]
fn empty_output_is_transport_error() {
    assert_eq!(
        encrypt_file_outcome(true, "  \n\t", String::new()),
        GatewayOutcome::TransportError("empty response".to_string())
    );
    assert_eq!(
        encrypt_file_outcome(true, "", String::new()),
        GatewayOutcome::TransportError("empty response".to_string())
    );
}

#[test]
fn malformed_output_is_transport_error() {
    assert_eq!(
        encrypt_file_outcome(true, "{not json", String::new()),
        GatewayOutcome::TransportError("malformed response".to_string())
    );
}

#[test]
fn success_flag_must_be_boolean() {
    let out = encrypt_file_outcome(true, r#"{"success": "true", "encrypted_path": "p"}"#, String::new());
    assert_eq!(out, GatewayOutcome::Failure("Unknown error".to_string()));
}

#[test]
fn decrypt_success_reports_output_path() {
    let out = decrypt_file_outcome(true, r#"{"success": true}"#, String::new(), "out/clear.jpg".to_string());
    assert_eq!(out, GatewayOutcome::Success("out/clear.jpg".to_string()));
    let bad = decrypt_file_outcome(true, r#"{"success": false, "error": "corrupt"}"#, String::new(), "o".to_string());
    assert_eq!(bad, GatewayOutcome::Failure("corrupt".to_string()));
}

#[test]
fn settle_envelope_cases() {
    assert_eq!(settle_envelope(Some(true), Some("p".to_string()), None), GatewayOutcome::Success("p".to_string()));
    assert_eq!(settle_envelope(None, Some("p".to_string()), Some("e".to_string())), GatewayOutcome::Failure("e".to_string()));
}

#[test]
fn gateway_arguments() {
    assert_eq!(
        encrypt_file_args("./vault", "a.jpg", "pw"),
        vec!["python_backend/ipc/ipc_gateway.py", "encrypt_file", "--vault-path", "./vault", "--file-path", "a.jpg", "--password", "pw"]
    );
    assert_eq!(
        decrypt_file_args("./vault", "e.bin", "pw", "out.jpg"),
        vec![
            "python_backend/ipc/ipc_gateway.py",
            "decrypt_file",
            "--vault-path",
            "./vault",
            "--file-path",
            "e.bin",
            "--password",
            "pw",
            "--output-path",
            "out.jpg"
        ]
    );
}

#[test]
fn backend_requests() {
    let r = initialize_vault("secret".to_string());
    assert_eq!(r.method, "initialize");
    assert_eq!(r.args, vec![("password".to_string(), "secret".to_string())]);
    assert_eq!(unlock_vault("s".to_string()).method, "unlock");
    assert!(lock_vault().args.is_empty());
    assert_eq!(get_vault_status().method, "get_vault_status");
    let d = get_decrypted_image(-42);
    assert_eq!(d.method, "get_image");
    assert_eq!(d.args, vec![("image-id".to_string(), "-42".to_string()), ("decrypt".to_string(), "true".to_string())]);
    assert_eq!(get_image_thumbnail(7).args, vec![("image-id".to_string(), "7".to_string())]);
}

#[test]
fn tags_are_sent_as_json_array() {
    let r = add_image_from_frontend("QUJD".to_string(), vec!["a".to_string(), "b c".to_string()], None);
    assert_eq!(r.method, "add_image");
    assert_eq!(r.args.len(), 2);
    assert_eq!(r.args[1], ("tags".to_string(), r#"["a","b c"]"#.to_string()));
    let p = add_image_from_frontend("QUJD".to_string(), vec![], Some("pw".to_string()));
    assert_eq!(p.args[1].1, "[]");
    assert_eq!(p.args[2], ("password".to_string(), "pw".to_string()));
    let s = search_images("cat".to_string(), vec!["x".to_string()]);
    assert_eq!(s.args, vec![("query".to_string(), "cat".to_string()), ("tags".to_string(), r#"["x"]"#.to_string())]);
}

#[test]
fn command_line_renders_values_as_json_text() {
    let request = BackendRequest {
        method: "unlock".to_string(),
        args: vec![("password".to_string(), "pa\"ss\\".to_string()), ("tags".to_string(), r#"["a"]"#.to_string())],
    };
    let line = backend_command_args("backend/main.py", "/v", &request);
    assert_eq!(
        line,
        vec!["backend/main.py", "unlock", "--vault-path", "/v", "--password", "pa\\\"ss\\\\", "--tags", r#"[\"a\"]"#]
    );
}

#[test]
fn backend_output_checks() {
    assert_eq!(backend_response_text(false, "{}", "boom"), Err("Python backend error: boom".to_string()));
    assert_eq!(
        backend_response_text(true, " ", "warn"),
        Err("Python backend returned empty response. stderr: warn".to_string())
    );
    assert_eq!(backend_response_text(true, "{\"success\":true}", ""), Ok("{\"success\":true}".to_string()));
}

#[test]
fn envelope_that_is_not_an_object_fails() {
    assert_eq!(encrypt_file_outcome(true, "[1, 2]", String::new()), GatewayOutcome::Failure("Unknown error".to_string()));
    assert_eq!(
        encrypt_file_outcome(true, r#"{"success": true, "encrypted_path": 7}"#, String::new()),
        GatewayOutcome::TransportError("no output path in response".to_string())
    );
}
