//! Wire formats: the JSON request bodies the harness sends — the trace
//! push body, the per-line WebSocket message, the instrumentation batch
//! request, and the vault-creation request — built byte by byte with a
//! verified JSON string encoder.

use vstd::prelude::*;

use crate::extractor::views;
use crate::manifest::ImportStyle;
use crate::output::OutputSource;

verus! {

/// The bytes of an ASCII literal, character by character.
pub open spec fn lit_bytes(cs: Seq<char>) -> Seq<u8> {
    cs.map_values(|c: char| c as u8)
}

/// Appends the bytes of an ASCII literal.
fn append_lit(out: &mut Vec<u8>, s: &str)
    ensures
        final(out)@ == old(out)@ + lit_bytes(s@),
{
    let len = s.unicode_len();
    let mut i: usize = 0;
    proof {
        assert(lit_bytes(s@.take(0)) =~= Seq::<u8>::empty());
        assert(out@ + Seq::<u8>::empty() =~= out@);
    }
    while i < len
        invariant
            i <= len,
            len == s@.len(),
            out@ == old(out)@ + lit_bytes(s@.take(i as int)),
        decreases len - i,
    {
        let c = s.get_char(i);
        out.push(c as u8);
        proof {
            assert(s@.take(i + 1) =~= s@.take(i as int).push(c));
            assert(lit_bytes(s@.take(i + 1)) =~= lit_bytes(s@.take(i as int)).push(c as u8));
        }
        i = i + 1;
    }
    proof {
        assert(s@.take(len as int) =~= s@);
    }
}

/// The lowercase hex digit for `d` (`d < 16`).
pub open spec fn spec_hex_digit(d: int) -> u8 {
    if d < 10 {
        (48 + d) as u8
    } else {
        (87 + d) as u8
    }
}

/// The JSON escape of one byte of a string: quote and backslash are
/// escaped, the five short control escapes are used, other control bytes
/// become `\u00XX`, and everything else passes through.
pub open spec fn spec_escape_byte(b: u8) -> Seq<u8> {
    if b == '"' as u8 {
        seq!['\\' as u8, '"' as u8]
    } else if b == '\\' as u8 {
        seq!['\\' as u8, '\\' as u8]
    } else if b == 8 {
        seq!['\\' as u8, 'b' as u8]
    } else if b == '\t' as u8 {
        seq!['\\' as u8, 't' as u8]
    } else if b == '\n' as u8 {
        seq!['\\' as u8, 'n' as u8]
    } else if b == 12 {
        seq!['\\' as u8, 'f' as u8]
    } else if b == '\r' as u8 {
        seq!['\\' as u8, 'r' as u8]
    } else if b < 32 {
        seq![
            '\\' as u8,
            'u' as u8,
            '0' as u8,
            '0' as u8,
            spec_hex_digit(b as int / 16),
            spec_hex_digit(b as int % 16),
        ]
    } else {
        seq![b]
    }
}

/// The JSON escape of a whole string body.
pub open spec fn spec_escape(s: Seq<u8>) -> Seq<u8>
    decreases s.len(),
{
    if s.len() == 0 {
        Seq::empty()
    } else {
        spec_escape_byte(s[0]) + spec_escape(s.drop_first())
    }
}

/// Appends the JSON escape of one byte.
fn escape_byte_into(out: &mut Vec<u8>, b: u8)
    ensures
        final(out)@ == old(out)@ + spec_escape_byte(b),
{
    let ghost pre = out@;
    if b == '"' as u8 {
        out.push('\\' as u8);
        out.push('"' as u8);
    } else if b == '\\' as u8 {
        out.push('\\' as u8);
        out.push('\\' as u8);
    } else if b == 8 {
        out.push('\\' as u8);
        out.push('b' as u8);
    } else if b == '\t' as u8 {
        out.push('\\' as u8);
        out.push('t' as u8);
    } else if b == '\n' as u8 {
        out.push('\\' as u8);
        out.push('n' as u8);
    } else if b == 12 {
        out.push('\\' as u8);
        out.push('f' as u8);
    } else if b == '\r' as u8 {
        out.push('\\' as u8);
        out.push('r' as u8);
    } else if b < 32 {
        out.push('\\' as u8);
        out.push('u' as u8);
        out.push('0' as u8);
        out.push('0' as u8);
        let hi = b / 16;
        let lo = b % 16;
        out.push(if hi < 10 { 48 + hi } else { 87 + hi });
        out.push(if lo < 10 { 48 + lo } else { 87 + lo });
    } else {
        out.push(b);
    }
    assert(out@ =~= pre + spec_escape_byte(b));
}

/// Appends the JSON escape of `s`.
fn escape_into(out: &mut Vec<u8>, s: &Vec<u8>)
    ensures
        final(out)@ == old(out)@ + spec_escape(s@),
{
    let mut i: usize = 0;
    proof {
        assert(s@.skip(0) =~= s@);
        assert(old(out)@ + Seq::<u8>::empty() =~= old(out)@);
    }
    while i < s.len()
        invariant
            i <= s@.len(),
            out@ + spec_escape(s@.skip(i as int)) == old(out)@ + spec_escape(s@),
        decreases s@.len() - i,
    {
        let ghost pre = out@;
        proof {
            assert(s@.skip(i as int)[0] == s@[i as int]);
            assert(s@.skip(i as int).drop_first() =~= s@.skip(i + 1));
        }
        escape_byte_into(out, s[i]);
        proof {
            assert(pre + spec_escape(s@.skip(i as int))
                =~= out@ + spec_escape(s@.skip(i + 1)));
        }
        i = i + 1;
    }
    proof {
        assert(s@.skip(s@.len() as int) =~= Seq::<u8>::empty());
        assert(out@ + Seq::<u8>::empty() =~= out@);
    }
}

/// Appends a quoted, escaped JSON string.
fn quoted_into(out: &mut Vec<u8>, s: &Vec<u8>)
    ensures
        final(out)@ == old(out)@ + spec_quoted(s@),
{
    out.push('"' as u8);
    escape_into(out, s);
    out.push('"' as u8);
    assert(out@ =~= old(out)@ + spec_quoted(s@));
}

/// A quoted, escaped JSON string.
pub open spec fn spec_quoted(s: Seq<u8>) -> Seq<u8> {
    seq!['"' as u8] + spec_escape(s) + seq!['"' as u8]
}

/// The decimal digits of a non-negative number.
pub open spec fn spec_decimal(n: int) -> Seq<u8>
    decreases n,
{
    if n < 10 {
        seq![(48 + (if n < 0 { 0 } else { n % 10 })) as u8]
    } else {
        spec_decimal(n / 10).push((48 + n % 10) as u8)
    }
}

/// Formats a number in decimal.
pub fn u64_decimal(n: u64) -> (v: Vec<u8>)
    ensures
        v@ == spec_decimal(n as int),
    decreases n,
{
    if n < 10 {
        let mut v: Vec<u8> = Vec::new();
        v.push(48 + (n as u8));
        assert(v@ =~= spec_decimal(n as int));
        v
    } else {
        let mut v = u64_decimal(n / 10);
        v.push(48 + ((n % 10) as u8));
        assert(v@ =~= spec_decimal(n as int));
        v
    }
}

/// Appends all of `src`.
fn append_vec(out: &mut Vec<u8>, src: &Vec<u8>)
    ensures
        final(out)@ == old(out)@ + src@,
{
    out.extend_from_slice(src.as_slice());
}

/// The items of a JSON array of raw (already-JSON) values: the values
/// joined by commas.
pub open spec fn spec_raw_items(ts: Seq<Seq<u8>>) -> Seq<u8>
    decreases ts.len(),
{
    if ts.len() == 0 {
        Seq::empty()
    } else {
        ts[0] + spec_raw_more(ts.drop_first())
    }
}

/// The continuation of a raw JSON array: a comma before each value.
pub open spec fn spec_raw_more(ts: Seq<Seq<u8>>) -> Seq<u8>
    decreases ts.len(),
{
    if ts.len() == 0 {
        Seq::empty()
    } else {
        seq![',' as u8] + ts[0] + spec_raw_more(ts.drop_first())
    }
}

/// The items of a JSON array of strings: each value quoted and escaped,
/// joined by commas.
pub open spec fn spec_string_items(ts: Seq<Seq<u8>>) -> Seq<u8>
    decreases ts.len(),
{
    if ts.len() == 0 {
        Seq::empty()
    } else {
        spec_quoted(ts[0]) + spec_string_more(ts.drop_first())
    }
}

/// The continuation of a JSON array of strings.
pub open spec fn spec_string_more(ts: Seq<Seq<u8>>) -> Seq<u8>
    decreases ts.len(),
{
    if ts.len() == 0 {
        Seq::empty()
    } else {
        seq![',' as u8] + spec_quoted(ts[0]) + spec_string_more(ts.drop_first())
    }
}

/// Appends the comma-joined raw values of `ts`.
fn raw_items_into(out: &mut Vec<u8>, ts: &Vec<Vec<u8>>)
    ensures
        final(out)@ == old(out)@ + spec_raw_items(views(ts@)),
{
    if ts.len() == 0 {
        proof {
            assert(old(out)@ + spec_raw_items(views(ts@)) =~= old(out)@);
        }
        return ;
    }
    append_vec(out, &ts[0]);
    let mut i: usize = 1;
    proof {
        assert(views(ts@).skip(1) =~= views(ts@).drop_first());
        assert(out@ + spec_raw_more(views(ts@).skip(1))
            =~= old(out)@ + spec_raw_items(views(ts@)));
    }
    while i < ts.len()
        invariant
            1 <= i <= ts@.len(),
            out@ + spec_raw_more(views(ts@).skip(i as int))
                == old(out)@ + spec_raw_items(views(ts@)),
        decreases ts@.len() - i,
    {
        let ghost pre = out@;
        proof {
            assert(views(ts@).skip(i as int)[0] == views(ts@)[i as int]);
            assert(views(ts@).skip(i as int).drop_first() =~= views(ts@).skip(i + 1));
        }
        out.push(',' as u8);
        append_vec(out, &ts[i]);
        proof {
            assert(pre + spec_raw_more(views(ts@).skip(i as int))
                =~= out@ + spec_raw_more(views(ts@).skip(i + 1)));
        }
        i = i + 1;
    }
    proof {
        assert(views(ts@).skip(ts@.len() as int) =~= Seq::<Seq<u8>>::empty());
        assert(out@ + Seq::<u8>::empty() =~= out@);
    }
}

/// Appends the comma-joined quoted strings of `ts`.
fn string_items_into(out: &mut Vec<u8>, ts: &Vec<Vec<u8>>)
    ensures
        final(out)@ == old(out)@ + spec_string_items(views(ts@)),
{
    if ts.len() == 0 {
        proof {
            assert(old(out)@ + spec_string_items(views(ts@)) =~= old(out)@);
        }
        return ;
    }
    quoted_into(out, &ts[0]);
    let mut i: usize = 1;
    proof {
        assert(views(ts@).skip(1) =~= views(ts@).drop_first());
        assert(out@ + spec_string_more(views(ts@).skip(1))
            =~= old(out)@ + spec_string_items(views(ts@)));
    }
    while i < ts.len()
        invariant
            1 <= i <= ts@.len(),
            out@ + spec_string_more(views(ts@).skip(i as int))
                == old(out)@ + spec_string_items(views(ts@)),
        decreases ts@.len() - i,
    {
        let ghost pre = out@;
        proof {
            assert(views(ts@).skip(i as int)[0] == views(ts@)[i as int]);
            assert(views(ts@).skip(i as int).drop_first() =~= views(ts@).skip(i + 1));
        }
        out.push(',' as u8);
        quoted_into(out, &ts[i]);
        proof {
            assert(pre + spec_string_more(views(ts@).skip(i as int))
                =~= out@ + spec_string_more(views(ts@).skip(i + 1)));
        }
        i = i + 1;
    }
    proof {
        assert(views(ts@).skip(ts@.len() as int) =~= Seq::<Seq<u8>>::empty());
        assert(out@ + Seq::<u8>::empty() =~= out@);
    }
}

/// The body of a trace push: the records, already JSON, in order, under
/// the `traces` key.
pub open spec fn spec_push_body(ts: Seq<Seq<u8>>) -> Seq<u8> {
    lit_bytes("{\"traces\":["@) + spec_raw_items(ts) + lit_bytes("]}"@)
}

/// Builds the body of one trace push from a batch of records.
pub fn push_body(traces: &Vec<Vec<u8>>) -> (body: Vec<u8>)
    ensures
        body@ == spec_push_body(views(traces@)),
{
    let mut out: Vec<u8> = Vec::new();
    append_lit(&mut out, "{\"traces\":[");
    raw_items_into(&mut out, traces);
    append_lit(&mut out, "]}");
    proof {
        assert(out@ =~= spec_push_body(views(traces@)));
    }
    out
}

/// The name of an output stream on the wire.
pub open spec fn spec_source_name(s: OutputSource) -> Seq<char> {
    match s {
        OutputSource::Stdout => "Stdout"@,
        OutputSource::Stderr => "Stderr"@,
    }
}

/// The per-line WebSocket message: the line, its send-time timestamp in
/// milliseconds, and the stream it came from.
pub open spec fn spec_output_message(line: Seq<u8>, timestamp: int, source: OutputSource) -> Seq<
    u8,
> {
    lit_bytes("{\"line\":"@) + spec_quoted(line) + lit_bytes(",\"timestamp\":"@) + spec_decimal(
        timestamp,
    ) + lit_bytes(",\"source\":\""@) + lit_bytes(spec_source_name(source)) + lit_bytes("\"}"@)
}

/// Builds the WebSocket message for one captured line.
pub fn output_message(line: &Vec<u8>, timestamp: u64, source: OutputSource) -> (body: Vec<u8>)
    ensures
        body@ == spec_output_message(line@, timestamp as int, source),
{
    let mut out: Vec<u8> = Vec::new();
    append_lit(&mut out, "{\"line\":");
    quoted_into(&mut out, line);
    append_lit(&mut out, ",\"timestamp\":");
    let digits = u64_decimal(timestamp);
    append_vec(&mut out, &digits);
    append_lit(&mut out, ",\"source\":\"");
    match source {
        OutputSource::Stdout => append_lit(&mut out, "Stdout"),
        OutputSource::Stderr => append_lit(&mut out, "Stderr"),
    }
    append_lit(&mut out, "\"}");
    proof {
        assert(out@ =~= spec_output_message(line@, timestamp as int, source));
    }
    out
}

/// The name of an import style on the wire.
pub open spec fn spec_style_name(s: ImportStyle) -> Seq<char> {
    match s {
        ImportStyle::Esm => "ESM"@,
        ImportStyle::Cjs => "CJS"@,
    }
}

/// The body of one instrumentation request: the file contents and paths,
/// index-aligned, the project root, and the run's import style.
pub open spec fn spec_instrument_body(
    contents: Seq<Seq<u8>>,
    paths: Seq<Seq<u8>>,
    root: Seq<u8>,
    style: ImportStyle,
) -> Seq<u8> {
    lit_bytes("{\"files_contents\":["@) + spec_string_items(contents) + lit_bytes(
        "],\"files_paths\":["@,
    ) + spec_string_items(paths) + lit_bytes("],\"project_root\":"@) + spec_quoted(root)
        + lit_bytes(",\"project_import_style\":\""@) + lit_bytes(spec_style_name(style))
        + lit_bytes("\"}"@)
}

/// Builds the body of one instrumentation request.
pub fn instrument_body(
    contents: &Vec<Vec<u8>>,
    paths: &Vec<Vec<u8>>,
    root: &Vec<u8>,
    style: ImportStyle,
) -> (body: Vec<u8>)
    ensures
        body@ == spec_instrument_body(views(contents@), views(paths@), root@, style),
{
    let mut out: Vec<u8> = Vec::new();
    append_lit(&mut out, "{\"files_contents\":[");
    string_items_into(&mut out, contents);
    append_lit(&mut out, "],\"files_paths\":[");
    string_items_into(&mut out, paths);
    append_lit(&mut out, "],\"project_root\":");
    quoted_into(&mut out, root);
    append_lit(&mut out, ",\"project_import_style\":\"");
    match style {
        ImportStyle::Esm => append_lit(&mut out, "ESM"),
        ImportStyle::Cjs => append_lit(&mut out, "CJS"),
    }
    append_lit(&mut out, "\"}");
    proof {
        assert(out@ =~= spec_instrument_body(views(contents@), views(paths@), root@, style));
    }
    out
}

/// A nullable JSON string field: `null` when absent, quoted otherwise.
pub open spec fn spec_opt_string(o: Option<Seq<u8>>) -> Seq<u8> {
    match o {
        None => lit_bytes("null"@),
        Some(s) => spec_quoted(s),
    }
}

/// The body of the vault-creation request: the command line about to run
/// and the directory it runs in, either possibly absent.
pub open spec fn spec_create_vault_body(command: Option<Seq<u8>>, cwd: Option<Seq<u8>>) -> Seq<
    u8,
> {
    lit_bytes("{\"command\":"@) + spec_opt_string(command) + lit_bytes(",\"cwd\":"@)
        + spec_opt_string(cwd) + lit_bytes("}"@)
}

/// Builds the body of the vault-creation request.
pub fn create_vault_body(command: Option<&Vec<u8>>, cwd: Option<&Vec<u8>>) -> (body: Vec<u8>)
    ensures
        body@ == spec_create_vault_body(
            match command {
                Some(c) => Some(c@),
                None => None,
            },
            match cwd {
                Some(c) => Some(c@),
                None => None,
            },
        ),
{
    let mut out: Vec<u8> = Vec::new();
    append_lit(&mut out, "{\"command\":");
    match command {
        Some(c) => quoted_into(&mut out, c),
        None => append_lit(&mut out, "null"),
    }
    append_lit(&mut out, ",\"cwd\":");
    match cwd {
        Some(c) => quoted_into(&mut out, c),
        None => append_lit(&mut out, "null"),
    }
    append_lit(&mut out, "}");
    proof {
        assert(out@ =~= spec_create_vault_body(
            match command {
                Some(c) => Some(c@),
                None => None,
            },
            match cwd {
                Some(c) => Some(c@),
                None => None,
            },
        ));
    }
    out
}

} // verus!
