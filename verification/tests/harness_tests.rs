use ariana::auth::{auth_step, AuthAction, AuthEvent, AuthFailure, AuthState};
use ariana::backup::BackupArchive;
use ariana::batching::{chunk_files, resolve_contents, sort_files_by_size};
use ariana::config::Config;
use ariana::exit::harness_exit;
use ariana::gitignore::{amended_gitignore, lines_of};
use ariana::machine::machine_hash;
use ariana::mode::{command_missing, select_mode, working_dir, RunMode};
use ariana::output::{ws_failure_recovery, OutputLine, OutputQueue, OutputSource, WsRecovery};
use ariana::vault::{read_vault_key, vault_key_file_content};

#[test]
fn exit_code_propagation() {
    assert_eq!(harness_exit(Some(0), false), 0);
    assert_eq!(harness_exit(Some(3), false), 3);
    assert_eq!(harness_exit(Some(0), true), 1);
    assert_eq!(harness_exit(None, false), 1);
    assert_eq!(harness_exit(None, true), 1);
}

#[test]
fn mode_selection_and_misuse() {
    assert_eq!(select_mode(true, true, true), RunMode::Login);
    assert_eq!(select_mode(false, true, true), RunMode::Recap);
    assert_eq!(select_mode(false, false, true), RunMode::Restore);
    assert_eq!(select_mode(false, false, false), RunMode::Run);
    assert!(command_missing(RunMode::Run, 0));
    assert!(!command_missing(RunMode::Run, 1));
    assert!(!command_missing(RunMode::Recap, 0));
    assert_eq!(working_dir(true, "/p", "/p/.ariana"), "/p");
    assert_eq!(working_dir(false, "/p", "/p/.ariana"), "/p/.ariana");
}

#[test]
fn vault_key_file_round_trip() {
    let content = vault_key_file_content("SECRET-KEY-1");
    assert_eq!(content, "SECRET-KEY-1\nDO NOT SHARE THE ABOVE KEY WITH ANYONE");
    assert_eq!(read_vault_key(&content), Some("SECRET-KEY-1".to_string()));
    assert_eq!(read_vault_key(""), None);
    assert_eq!(read_vault_key("KEY"), Some("KEY".to_string()));
    assert_eq!(read_vault_key("KEY\r\nrest"), Some("KEY".to_string()));
}

#[test]
fn backup_archive_keyed_by_absolute_path() {
    let mut a = BackupArchive::new();
    assert!(!a.contains_key("/p/src/a.py"));
    a.append("/p/src/a.py".to_string(), b"print('hi')".to_vec());
    assert!(a.contains_key("/p/src/a.py"));
    assert_eq!(a.lookup("/p/src/a.py"), Some(&b"print('hi')".to_vec()));
    assert_eq!(a.lookup("/p/other"), None);
    let writes = a.restore_writes();
    assert_eq!(writes.len(), 1);
    assert_eq!(writes[0].0, "/p/src/a.py");
    assert_eq!(writes[0].1, b"print('hi')".to_vec());
}

#[test]
fn inplace_then_restore_preserves_contents() {
    // The file's pre-run bytes.
    let original = b"print('hi')".to_vec();
    let mut archive = BackupArchive::new();
    // In-place instrumentation: back up, then overwrite.
    archive.append("/p/src/a.py".to_string(), original.clone());
    let mut file_on_disk = b"instrumented".to_vec();
    // Restore: write every entry back to the path stored as its key.
    for (path, content) in archive.restore_writes() {
        assert_eq!(path, "/p/src/a.py");
        file_on_disk = content.clone();
    }
    assert_eq!(file_on_disk, original);
}

#[test]
fn gitignore_amendment() {
    let fresh = amended_gitignore(None).expect("a missing file is created");
    assert_eq!(fresh, ".ariana/\n.traces/\n.ariana_saved_traces/\n.vault_secret_key\n");
    let complete = fresh.clone();
    assert_eq!(amended_gitignore(Some(&complete)), None);
    let partial = "node_modules\n.ariana/".to_string();
    let amended = amended_gitignore(Some(&partial)).expect("missing entries are appended");
    assert_eq!(
        amended,
        "node_modules\n.ariana/\n.traces/\n.ariana_saved_traces/\n.vault_secret_key\n",
    );
}

#[test]
fn line_splitting_matches_lines() {
    assert_eq!(lines_of("a\r\nb\n"), vec!["a".to_string(), "b".to_string()]);
    assert_eq!(lines_of(""), Vec::<String>::new());
    assert_eq!(lines_of("\n"), vec!["".to_string()]);
    assert_eq!(lines_of("a\n\nb"), vec!["a".to_string(), "".to_string(), "b".to_string()]);
}

#[test]
fn machine_hash_is_sha256_hex() {
    // SHA-256("abc"), a fixed vector.
    assert_eq!(
        machine_hash(&b"abc".to_vec()),
        b"ba7816bf8f01cfea414140de5dae2223b00361a396177a9cb410ff61f20015ad".to_vec(),
    );
    // An empty input hashes to the digest of the empty string, not to itself.
    assert_eq!(
        machine_hash(&b"".to_vec()),
        b"e3b0c44298fc1c149afbf4c8996fb92427ae41e4649b934ca495991b7852b855".to_vec(),
    );
}

#[test]
fn batching_sorts_and_chunks() {
    let sorted = sort_files_by_size(vec![(5, 0), (1, 1), (3, 2)]);
    assert_eq!(sorted, vec![(1, 1), (3, 2), (5, 0)]);
    let many: Vec<(u64, usize)> = (0..650u64).map(|i| (i, i as usize)).collect();
    let batches = chunk_files(&many);
    assert_eq!(batches.len(), 3);
    assert_eq!(batches[0].len(), 300);
    assert_eq!(batches[1].len(), 300);
    assert_eq!(batches[2].len(), 50);
    assert_eq!(batches[0][0], (0, 0));
    assert_eq!(batches[2][49], (649, 649));
}

#[test]
fn declined_slots_fall_back_to_originals() {
    let originals = vec![b"one".to_vec(), b"two".to_vec()];
    let answer = vec![Some(b"ONE".to_vec()), None];
    let resolved = resolve_contents(&originals, &answer);
    assert_eq!(resolved, vec![b"ONE".to_vec(), b"two".to_vec()]);
}

#[test]
fn output_queue_is_fifo_and_bounded() {
    let mut q = OutputQueue::new();
    assert!(q.enqueue(OutputLine { line: b"a".to_vec(), source: OutputSource::Stdout }));
    assert!(q.enqueue(OutputLine { line: b"b".to_vec(), source: OutputSource::Stderr }));
    let first = q.next().expect("two lines queued");
    assert_eq!(first.line, b"a".to_vec());
    assert_eq!(first.source, OutputSource::Stdout);
    let second = q.next().expect("one line left");
    assert_eq!(second.line, b"b".to_vec());
    assert!(q.next().is_none());
    for i in 0..10000u32 {
        let l = OutputLine { line: format!("{}", i).into_bytes(), source: OutputSource::Stdout };
        assert!(q.enqueue(l));
    }
    let overflow = OutputLine { line: b"z".to_vec(), source: OutputSource::Stdout };
    assert!(!q.enqueue(overflow), "a full queue leaves the caller to wait");
}

#[test]
fn websocket_failure_policy() {
    assert_eq!(ws_failure_recovery(true), WsRecovery::Resend);
    assert_eq!(ws_failure_recovery(false), WsRecovery::Abort);
}

#[test]
fn config_jwt_transitions() {
    let mut c = Config::new();
    assert!(c.jwt.is_none());
    c.set_jwt("token-1".to_string());
    assert_eq!(c.jwt.as_deref(), Some("token-1"));
    c.clear_jwt();
    assert!(c.jwt.is_none());
}

#[test]
fn auth_flow_login_path() {
    let (s, a) = auth_step(
        AuthState::Start,
        AuthEvent::ConfigLoaded { jwt: None },
    );
    assert!(matches!(s, AuthState::EnteringEmail));
    assert!(matches!(a, AuthAction::PromptEmail));
    let (s, a) = auth_step(s, AuthEvent::EmailEntered { email: "a@b.c".to_string() });
    assert!(matches!(&s, AuthState::RequestingCode { email } if email == "a@b.c"));
    assert!(matches!(a, AuthAction::RequestLoginCode));
    let (s, a) = auth_step(s, AuthEvent::CodeRequestOk);
    assert!(matches!(a, AuthAction::PromptLoginCode));
    let (s, a) = auth_step(s, AuthEvent::LoginCodeEntered { code: "123".to_string() });
    assert!(matches!(&a, AuthAction::ValidateLoginCode { code } if code == "123"));
    let (s, a) = auth_step(s, AuthEvent::LoginCodeValid { token: "jwt".to_string() });
    assert!(matches!(s, AuthState::Done));
    assert!(matches!(&a, AuthAction::SaveJwtAndFinish { token } if token == "jwt"));
}

#[test]
fn auth_flow_registration_and_failures() {
    let (s, a) = auth_step(
        AuthState::Start,
        AuthEvent::ConfigLoaded { jwt: Some("old".to_string()) },
    );
    assert!(matches!(s, AuthState::CheckingJwt));
    assert!(matches!(&a, AuthAction::CheckAccount { jwt } if jwt == "old"));
    let (s, a) = auth_step(s, AuthEvent::AccountRejected);
    assert!(matches!(s, AuthState::EnteringEmail));
    assert!(matches!(a, AuthAction::ClearJwtAndPromptEmail));
    let (s, _) = auth_step(s, AuthEvent::EmailEntered { email: "n@e.w".to_string() });
    let (s, a) = auth_step(s, AuthEvent::CodeRequestNotFound);
    assert!(matches!(a, AuthAction::GeneratePassword));
    let (s, a) = auth_step(s, AuthEvent::PasswordGenerated { password: "pw".to_string() });
    assert!(matches!(&s, AuthState::Registering { email, password }
        if email == "n@e.w" && password == "pw"));
    assert!(matches!(a, AuthAction::Register));
    let (s, _) = auth_step(s, AuthEvent::RegisterOk);
    let (s, a) = auth_step(s, AuthEvent::VerifyCodeEntered { code: "v1".to_string() });
    assert!(matches!(&a, AuthAction::ValidateEmail { code } if code == "v1"));
    let (s, a) = auth_step(s, AuthEvent::VerifyOk);
    assert!(matches!(a, AuthAction::Login));
    let (s, a) = auth_step(s, AuthEvent::LoginFailed);
    assert!(matches!(s, AuthState::Failed));
    assert!(matches!(
        a,
        AuthAction::Fail { failure: AuthFailure::LoginAfterRegistrationFailed },
    ));
    let (s, a) = auth_step(AuthState::Done, AuthEvent::AccountOk);
    assert!(matches!(s, AuthState::Failed));
    assert!(matches!(a, AuthAction::Fail { failure: AuthFailure::ProtocolMismatch }));
}

#[test]
fn auth_failures_carry_their_causes() {
    let email = || "a@b.c".to_string();
    let (_, a) = auth_step(
        AuthState::ValidatingLoginCode { email: email() },
        AuthEvent::LoginCodeInvalid,
    );
    assert!(matches!(a, AuthAction::Fail { failure: AuthFailure::InvalidLoginCode }));
    let (_, a) = auth_step(
        AuthState::RequestingCode { email: email() },
        AuthEvent::CodeRequestOther,
    );
    assert!(matches!(a, AuthAction::Fail { failure: AuthFailure::UnexpectedStatus }));
    let (_, a) = auth_step(
        AuthState::Registering { email: email(), password: "pw".to_string() },
        AuthEvent::RegisterFailed,
    );
    assert!(matches!(a, AuthAction::Fail { failure: AuthFailure::RegistrationFailed }));
    let (_, a) = auth_step(
        AuthState::ValidatingEmail { email: email(), password: "pw".to_string() },
        AuthEvent::VerifyFailed,
    );
    assert!(matches!(a, AuthAction::Fail { failure: AuthFailure::InvalidVerificationCode }));
}
