use ariana::extractor::{extract_line, has_printable, process_stdout_lines};

fn scan(line: &str) -> (Vec<u8>, Vec<Vec<u8>>) {
    let r = extract_line(&line.as_bytes().to_vec());
    (r.clean, r.payloads)
}

#[test]
fn plain_line_passes_through() {
    let (clean, payloads) = scan("hi");
    assert_eq!(clean, b"hi".to_vec());
    assert!(payloads.is_empty());
    assert!(has_printable(&clean));
}

#[test]
fn single_envelope_is_extracted() {
    let (clean, payloads) = scan("start <trace id=\"1\">{\"ok\":true}</trace> end");
    assert_eq!(clean, b"start  end".to_vec());
    assert_eq!(payloads, vec![b"{\"ok\":true}".to_vec()]);
}

#[test]
fn two_envelopes_on_one_line_in_order() {
    let (clean, payloads) = scan("<trace id=\"1\">{\"a\":1}</trace>x<trace id=\"2\">{\"a\":2}</trace>");
    assert_eq!(clean, b"x".to_vec());
    assert_eq!(payloads, vec![b"{\"a\":1}".to_vec(), b"{\"a\":2}".to_vec()]);
}

#[test]
fn unterminated_envelope_is_clean_text() {
    let (clean, payloads) = scan("abc <trace id=\"1\">xyz");
    assert_eq!(clean, b"abc <trace id=\"1\">xyz".to_vec());
    assert!(payloads.is_empty());
}

#[test]
fn envelope_without_quotes_yields_no_payload() {
    let (clean, payloads) = scan("a<trace id=1>zz</trace>b");
    assert_eq!(clean, b"ab".to_vec());
    assert!(payloads.is_empty());
}

#[test]
fn whitespace_residue_is_not_printed() {
    let (clean, payloads) = scan("  <trace id=\"1\">{}</trace> \t");
    assert_eq!(clean, b"   \t".to_vec());
    assert_eq!(payloads, vec![b"{}".to_vec()]);
    assert!(!has_printable(&clean));
}

#[test]
fn printable_decision_ignores_whitespace_and_backspace() {
    assert!(!has_printable(&b"".to_vec()));
    assert!(!has_printable(&b" \t\r\n\x08".to_vec()));
    assert!(has_printable(&b" a ".to_vec()));
}

#[test]
fn run_output_preserves_order_and_elides_envelopes() {
    let lines: Vec<Vec<u8>> = vec![
        b"hello".to_vec(),
        b" <trace id=\"1\">{\"n\":1}</trace> ".to_vec(),
        b"x<trace id=\"2\">{\"n\":2}</trace>y".to_vec(),
    ];
    let (printed, payloads) = process_stdout_lines(&lines);
    assert_eq!(printed, vec![b"hello".to_vec(), b"xy".to_vec()]);
    assert_eq!(payloads, vec![b"{\"n\":1}".to_vec(), b"{\"n\":2}".to_vec()]);
}
