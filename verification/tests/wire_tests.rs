use ariana::jsonio::{json_valid, keep_valid};
use ariana::manifest::{detect_project_import_style, import_style_of_manifest, ImportStyle};
use ariana::output::OutputSource;
use ariana::wire::{create_vault_body, instrument_body, output_message, u64_decimal};

#[test]
fn output_message_matches_the_wire_format() {
    let body = output_message(&b"hello".to_vec(), 123, OutputSource::Stdout);
    assert_eq!(body, b"{\"line\":\"hello\",\"timestamp\":123,\"source\":\"Stdout\"}".to_vec());
    let body = output_message(&b"oops".to_vec(), 9, OutputSource::Stderr);
    assert_eq!(body, b"{\"line\":\"oops\",\"timestamp\":9,\"source\":\"Stderr\"}".to_vec());
}

#[test]
fn string_escaping_follows_json() {
    let body = output_message(&b"a\"b\\c\nd\x01".to_vec(), 0, OutputSource::Stdout);
    assert_eq!(
        body,
        b"{\"line\":\"a\\\"b\\\\c\\nd\\u0001\",\"timestamp\":0,\"source\":\"Stdout\"}".to_vec(),
    );
}

#[test]
fn decimal_formatting() {
    assert_eq!(u64_decimal(0), b"0".to_vec());
    assert_eq!(u64_decimal(50000), b"50000".to_vec());
    assert_eq!(u64_decimal(u64::MAX), b"18446744073709551615".to_vec());
}

#[test]
fn instrument_body_matches_the_wire_format() {
    let contents = vec![b"let x = 1;".to_vec()];
    let paths = vec![b"/p/a.js".to_vec()];
    let body = instrument_body(&contents, &paths, &b"/p".to_vec(), ImportStyle::Esm);
    assert_eq!(
        body,
        b"{\"files_contents\":[\"let x = 1;\"],\"files_paths\":[\"/p/a.js\"],\"project_root\":\"/p\",\"project_import_style\":\"ESM\"}".to_vec(),
    );
}

#[test]
fn vault_body_with_and_without_command() {
    let cmd = b"node a.js".to_vec();
    let cwd = b"/p".to_vec();
    assert_eq!(
        create_vault_body(Some(&cmd), Some(&cwd)),
        b"{\"command\":\"node a.js\",\"cwd\":\"/p\"}".to_vec(),
    );
    assert_eq!(create_vault_body(None, None), b"{\"command\":null,\"cwd\":null}".to_vec());
}

#[test]
fn payload_validation_keeps_well_formed_json() {
    assert!(json_valid(&b"{\"ok\":true}".to_vec()));
    assert!(json_valid(&b"[1,2,3]".to_vec()));
    assert!(!json_valid(&b"start".to_vec()));
    assert!(!json_valid(&b"{\"open\":".to_vec()));
    let kept = keep_valid(&vec![
        b"{\"a\":1}".to_vec(),
        b"nonsense".to_vec(),
        b"2".to_vec(),
    ]);
    assert_eq!(kept, vec![b"{\"a\":1}".to_vec(), b"2".to_vec()]);
}

#[test]
fn import_style_detection() {
    assert_eq!(detect_project_import_style(None), Ok(ImportStyle::Cjs));
    assert_eq!(
        detect_project_import_style(Some(&b"{\"type\":\"module\"}".to_vec())),
        Ok(ImportStyle::Esm),
    );
    assert_eq!(
        detect_project_import_style(Some(&b"{\"exports\":{}}".to_vec())),
        Ok(ImportStyle::Esm),
    );
    assert_eq!(
        detect_project_import_style(Some(&b"{\"module\":\"m.js\"}".to_vec())),
        Ok(ImportStyle::Esm),
    );
    assert_eq!(
        detect_project_import_style(Some(&b"{\"type\":\"commonjs\"}".to_vec())),
        Ok(ImportStyle::Cjs),
    );
    assert_eq!(detect_project_import_style(Some(&b"{}".to_vec())), Ok(ImportStyle::Cjs));
    assert!(detect_project_import_style(Some(&b"not json".to_vec())).is_err());
    assert_eq!(import_style_of_manifest(false, false, false), ImportStyle::Cjs);
    assert_eq!(import_style_of_manifest(true, false, false), ImportStyle::Esm);
}
