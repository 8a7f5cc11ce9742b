use vstd::prelude::*;
use crate::json::{json_accepts, json_bool_at, json_bool_field, json_parses, json_text_at, json_text_field};
use crate::text::{is_blank, is_blank_text};

verus! {

/// What one call of the external encryption process came to.
#[derive(Debug, Clone, PartialEq, Eq)]
pub enum GatewayOutcome {
    /// The call succeeded; the reference to its output (a path).
    Success(String),
    /// The process ran and refused; its error text, verbatim.
    Failure(String),
    /// The process gave no usable answer.
    TransportError(String),
}

/// Script of the encryption gateway, relative to the working directory.
pub open spec fn gateway_script() -> Seq<char> {
    "python_backend/ipc/ipc_gateway.py"@
}

/// Arguments of the gateway call that encrypts `file_path` into the vault
/// at `vault_path`.
pub fn encrypt_file_args(vault_path: &str, file_path: &str, password: &str) -> (r: Vec<String>)
    ensures
        r.deep_view() == seq![
            gateway_script(),
            "encrypt_file"@,
            "--vault-path"@,
            vault_path@,
            "--file-path"@,
            file_path@,
            "--password"@,
            password@,
        ],
{
    let mut r: Vec<String> = Vec::new();
    r.push(String::from_str("python_backend/ipc/ipc_gateway.py"));
    r.push(String::from_str("encrypt_file"));
    r.push(String::from_str("--vault-path"));
    r.push(String::from_str(vault_path));
    r.push(String::from_str("--file-path"));
    r.push(String::from_str(file_path));
    r.push(String::from_str("--password"));
    r.push(String::from_str(password));
    assert(r.deep_view() =~= seq![
        gateway_script(),
        "encrypt_file"@,
        "--vault-path"@,
        vault_path@,
        "--file-path"@,
        file_path@,
        "--password"@,
        password@,
    ]);
    r
}

/// Arguments of the gateway call that decrypts `encrypted_file_path` of
/// the vault at `vault_path` into `output_path`.
pub fn decrypt_file_args(vault_path: &str, encrypted_file_path: &str, password: &str, output_path: &str) -> (r:
    Vec<String>)
    ensures
        r.deep_view() == seq![
            gateway_script(),
            "decrypt_file"@,
            "--vault-path"@,
            vault_path@,
            "--file-path"@,
            encrypted_file_path@,
            "--password"@,
            password@,
            "--output-path"@,
            output_path@,
        ],
{
    let mut r: Vec<String> = Vec::new();
    r.push(String::from_str("python_backend/ipc/ipc_gateway.py"));
    r.push(String::from_str("decrypt_file"));
    r.push(String::from_str("--vault-path"));
    r.push(String::from_str(vault_path));
    r.push(String::from_str("--file-path"));
    r.push(String::from_str(encrypted_file_path));
    r.push(String::from_str("--password"));
    r.push(String::from_str(password));
    r.push(String::from_str("--output-path"));
    r.push(String::from_str(output_path));
    assert(r.deep_view() =~= seq![
        gateway_script(),
        "decrypt_file"@,
        "--vault-path"@,
        vault_path@,
        "--file-path"@,
        encrypted_file_path@,
        "--password"@,
        password@,
        "--output-path"@,
        output_path@,
    ]);
    r
}

/// `r` is what a response envelope with the fields `success`, `output`
/// and `error` comes to: success only when `success` is true, with the
/// output reference (a missing one makes the answer unusable); otherwise a
/// failure carrying the error text, or "Unknown error".
pub open spec fn outcome_of(
    success: Option<bool>,
    output: Option<Seq<char>>,
    error: Option<Seq<char>>,
    r: GatewayOutcome,
) -> bool {
    if success == Some(true) {
        match output {
            Some(p) => r matches GatewayOutcome::Success(x) && x@ == p,
            None => r matches GatewayOutcome::TransportError(m) && m@ == "no output path in response"@,
        }
    } else {
        match error {
            Some(e) => r matches GatewayOutcome::Failure(x) && x@ == e,
            None => r matches GatewayOutcome::Failure(m) && m@ == "Unknown error"@,
        }
    }
}

pub open spec fn text_of(o: Option<String>) -> Option<Seq<char>> {
    match o {
        Some(s) => Some(s@),
        None => None,
    }
}

/// Decides the outcome of a decoded response envelope.
pub fn settle_envelope(success: Option<bool>, output: Option<String>, error: Option<String>) -> (r: GatewayOutcome)
    ensures
        outcome_of(success, text_of(output), text_of(error), r),
{
    if success == Some(true) {
        match output {
            Some(p) => GatewayOutcome::Success(p),
            None => GatewayOutcome::TransportError(String::from_str("no output path in response")),
        }
    } else {
        match error {
            Some(e) => GatewayOutcome::Failure(e),
            None => GatewayOutcome::Failure(String::from_str("Unknown error")),
        }
    }
}

/// `r` is what a finished gateway process comes to: a non-zero exit is a
/// failure with the process's error text; an empty or malformed answer is
/// a transport error; otherwise the envelope's `success` and `error`
/// members decide, with `output` the reference reported on success.
pub open spec fn gateway_result(
    exit_ok: bool,
    stdout: Seq<char>,
    stderr: String,
    output: Option<Seq<char>>,
    r: GatewayOutcome,
) -> bool {
    if !exit_ok {
        r == GatewayOutcome::Failure(stderr)
    } else if is_blank_text(stdout) {
        r matches GatewayOutcome::TransportError(m) && m@ == "empty response"@
    } else if !json_parses(stdout) {
        r matches GatewayOutcome::TransportError(m) && m@ == "malformed response"@
    } else {
        outcome_of(json_bool_field(stdout, "success"@), output, json_text_field(stdout, "error"@), r)
    }
}

/// Checks the exit status and that the answer is a JSON document; `None`
/// when the envelope should be decoded.
fn check_answer(exit_ok: bool, stdout: &str, stderr: String) -> (r: Option<GatewayOutcome>)
    ensures
        r is None <==> exit_ok && !is_blank_text(stdout@) && json_parses(stdout@),
        r matches Some(o) ==> gateway_result(exit_ok, stdout@, stderr, None, o),
{
    if !exit_ok {
        return Some(GatewayOutcome::Failure(stderr));
    }
    if is_blank(stdout) {
        return Some(GatewayOutcome::TransportError(String::from_str("empty response")));
    }
    if !json_accepts(stdout) {
        return Some(GatewayOutcome::TransportError(String::from_str("malformed response")));
    }
    None
}

/// Outcome of the encryption call from its exit status and output: on
/// success the path of the encrypted artifact (member `encrypted_path`).
pub fn encrypt_file_outcome(exit_ok: bool, stdout: &str, stderr: String) -> (r: GatewayOutcome)
    ensures
        gateway_result(exit_ok, stdout@, stderr, json_text_field(stdout@, "encrypted_path"@), r),
{
    match check_answer(exit_ok, stdout, stderr) {
        Some(o) => o,
        None => {
            let success = json_bool_at(stdout, "success");
            let output = json_text_at(stdout, "encrypted_path");
            let error = json_text_at(stdout, "error");
            settle_envelope(success, output, error)
        },
    }
}

/// Outcome of the decryption call from its exit status and output: on
/// success the path the clear file was written to, `output_path`.
pub fn decrypt_file_outcome(exit_ok: bool, stdout: &str, stderr: String, output_path: String) -> (r: GatewayOutcome)
    ensures
        gateway_result(exit_ok, stdout@, stderr, Some(output_path@), r),
{
    match check_answer(exit_ok, stdout, stderr) {
        Some(o) => o,
        None => {
            let success = json_bool_at(stdout, "success");
            let error = json_text_at(stdout, "error");
            settle_envelope(success, Some(output_path), error)
        },
    }
}

} // verus!
