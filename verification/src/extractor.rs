//! Trace extractor: scans one line of the child's stdout for embedded
//! `<trace id="…">PAYLOAD</trace>` envelopes, splitting the line into the
//! clean text shown on the terminal and the sequence of payload candidates.
//!
//! Envelopes never straddle line boundaries. Scanning is purely linear: each
//! occurrence of the opening marker is resolved against the next closing
//! marker on the same line; if no closing marker follows, the residue is
//! clean text.

use vstd::prelude::*;

verus! {

/// The opening marker `<trace id=`.
pub open spec fn open_marker() -> Seq<u8> {
    seq![
        '<' as u8,
        't' as u8,
        'r' as u8,
        'a' as u8,
        'c' as u8,
        'e' as u8,
        ' ' as u8,
        'i' as u8,
        'd' as u8,
        '=' as u8,
    ]
}

/// The closing marker `</trace>`.
pub open spec fn close_marker() -> Seq<u8> {
    seq![
        '<' as u8,
        '/' as u8,
        't' as u8,
        'r' as u8,
        'a' as u8,
        'c' as u8,
        'e' as u8,
        '>' as u8,
    ]
}

/// The double-quote byte that delimits the envelope's id attribute.
pub open spec fn quote_byte() -> u8 {
    '"' as u8
}

/// `pat` occurs in `s` at position `i`.
pub open spec fn spec_match_at(s: Seq<u8>, i: int, pat: Seq<u8>) -> bool {
    &&& 0 <= i
    &&& i + pat.len() <= s.len()
    &&& s.subrange(i, i + pat.len()) == pat
}

/// The first position at or after `from` where `pat` occurs in `s`.
pub open spec fn spec_find(s: Seq<u8>, pat: Seq<u8>, from: int) -> Option<int>
    decreases s.len() - from,
{
    if from < 0 || from + pat.len() > s.len() {
        None
    } else if spec_match_at(s, from, pat) {
        Some(from)
    } else if pat.len() == 0 {
        None
    } else {
        spec_find(s, pat, from + 1)
    }
}

/// The first position in `[from, to)` holding the byte `b`.
pub open spec fn spec_find_byte(s: Seq<u8>, b: u8, from: int, to: int) -> Option<int>
    decreases to - from,
{
    if from < 0 || from >= to || to > s.len() {
        None
    } else if s[from] == b {
        Some(from)
    } else {
        spec_find_byte(s, b, from + 1, to)
    }
}

/// The payload of the envelope whose opening marker stands at `st` and whose
/// closing marker stands at `cl`: the bytes between the `">` that ends the
/// opening tag and the closing marker. `None` when the id quotes cannot be
/// located before the end of the closing marker, or the bounds cross.
pub open spec fn spec_payload(s: Seq<u8>, st: int, cl: int) -> Option<Seq<u8>> {
    let end = cl + close_marker().len();
    match spec_find_byte(s, quote_byte(), st, end) {
        None => None,
        Some(q1) => match spec_find_byte(s, quote_byte(), q1 + 1, end) {
            None => None,
            Some(q2) => {
                if q2 + 2 <= cl {
                    Some(s.subrange(q2 + 2, cl))
                } else {
                    None
                }
            },
        },
    }
}

/// The result of scanning `s` from position `pos`: the clean text (the line
/// with every resolved envelope elided) and the payload candidates of the
/// resolved envelopes, in order of occurrence.
pub open spec fn spec_scan(s: Seq<u8>, pos: int) -> (Seq<u8>, Seq<Seq<u8>>)
    decreases s.len() - pos,
{
    match spec_find(s, open_marker(), pos) {
        None => (s.subrange(pos, s.len() as int), Seq::empty()),
        Some(st) => match spec_find(s, close_marker(), st) {
            None => (s.subrange(pos, s.len() as int), Seq::empty()),
            Some(cl) => {
                let end = cl + close_marker().len();
                if pos < end <= s.len() {
                    let rest = spec_scan(s, end);
                    let clean = s.subrange(pos, st) + rest.0;
                    match spec_payload(s, st, cl) {
                        Some(p) => (clean, seq![p] + rest.1),
                        None => (clean, rest.1),
                    }
                } else {
                    (s.subrange(pos, s.len() as int), Seq::empty())
                }
            },
        },
    }
}

/// The views of a vector of byte vectors.
pub open spec fn views(ps: Seq<Vec<u8>>) -> Seq<Seq<u8>> {
    ps.map_values(|v: Vec<u8>| v@)
}

/// Builds the opening marker as bytes.
fn open_marker_bytes() -> (v: Vec<u8>)
    ensures
        v@ == open_marker(),
{
    let mut v: Vec<u8> = Vec::new();
    v.push('<' as u8);
    v.push('t' as u8);
    v.push('r' as u8);
    v.push('a' as u8);
    v.push('c' as u8);
    v.push('e' as u8);
    v.push(' ' as u8);
    v.push('i' as u8);
    v.push('d' as u8);
    v.push('=' as u8);
    assert(v@ =~= open_marker());
    v
}

/// Builds the closing marker as bytes.
fn close_marker_bytes() -> (v: Vec<u8>)
    ensures
        v@ == close_marker(),
{
    let mut v: Vec<u8> = Vec::new();
    v.push('<' as u8);
    v.push('/' as u8);
    v.push('t' as u8);
    v.push('r' as u8);
    v.push('a' as u8);
    v.push('c' as u8);
    v.push('e' as u8);
    v.push('>' as u8);
    assert(v@ =~= close_marker());
    v
}

/// Checks whether `pat` occurs in `s` at position `i`.
fn match_at(s: &Vec<u8>, i: usize, pat: &Vec<u8>) -> (r: bool)
    requires
        i + pat@.len() <= s@.len(),
    ensures
        r == spec_match_at(s@, i as int, pat@),
{
    let n = s.len();
    let mut k: usize = 0;
    while k < pat.len()
        invariant
            k <= pat@.len(),
            n == s@.len(),
            i + pat@.len() <= s@.len(),
            forall|j: int| 0 <= j < k ==> s@[i + j] == pat@[j],
        decreases pat@.len() - k,
    {
        if s[i + k] != pat[k] {
            assert(s@.subrange(i as int, i + pat@.len())[k as int] != pat@[k as int]);
            return false;
        }
        k = k + 1;
    }
    assert(s@.subrange(i as int, i + pat@.len()) =~= pat@);
    true
}

/// Finds the first occurrence of `pat` in `s` at or after `from`.
fn find_pat(s: &Vec<u8>, pat: &Vec<u8>, from: usize) -> (r: Option<usize>)
    requires
        pat@.len() > 0,
    ensures
        match r {
            Some(i) => {
                &&& spec_find(s@, pat@, from as int) == Some(i as int)
                &&& from <= i
                &&& spec_match_at(s@, i as int, pat@)
            },
            None => spec_find(s@, pat@, from as int).is_none(),
        },
{
    let mut i: usize = from;
    loop
        invariant
            from <= i,
            pat@.len() > 0,
            spec_find(s@, pat@, from as int) == spec_find(s@, pat@, i as int),
        ensures
            match spec_find(s@, pat@, from as int) {
                Some(j) => i == j && spec_match_at(s@, i as int, pat@),
                None => i + pat@.len() > s@.len(),
            },
        decreases s@.len() + pat@.len() - i,
    {
        if i > s.len() || pat.len() > s.len() - i {
            assert(i + pat@.len() > s@.len());
            break;
        }
        if match_at(s, i, pat) {
            break;
        }
        i = i + 1;
    }
    if i <= s.len() && pat.len() <= s.len() - i {
        Some(i)
    } else {
        None
    }
}

/// Finds the first position in `[from, to)` of `s` holding the byte `b`.
fn find_byte(s: &Vec<u8>, b: u8, from: usize, to: usize) -> (r: Option<usize>)
    requires
        to <= s@.len(),
    ensures
        match r {
            Some(i) => {
                &&& spec_find_byte(s@, b, from as int, to as int) == Some(i as int)
                &&& from <= i < to
                &&& s@[i as int] == b
            },
            None => spec_find_byte(s@, b, from as int, to as int).is_none(),
        },
{
    let mut i: usize = from;
    while i < to
        invariant
            from <= i,
            to <= s@.len(),
            spec_find_byte(s@, b, from as int, to as int) == spec_find_byte(s@, b, i as int, to as int),
        decreases to - i,
    {
        if s[i] == b {
            return Some(i);
        }
        i = i + 1;
    }
    None
}

/// Appends `src[from..to]` to `dst`.
fn append_range(dst: &mut Vec<u8>, src: &Vec<u8>, from: usize, to: usize)
    requires
        from <= to,
        to <= src@.len(),
    ensures
        final(dst)@ == old(dst)@ + src@.subrange(from as int, to as int),
{
    let mut k: usize = from;
    while k < to
        invariant
            from <= k <= to,
            to <= src@.len(),
            dst@ == old(dst)@ + src@.subrange(from as int, k as int),
        decreases to - k,
    {
        dst.push(src[k]);
        assert(src@.subrange(from as int, k + 1) =~= src@.subrange(from as int, k as int).push(src@[k as int]));
        k = k + 1;
    }
}

/// The outcome of scanning one stdout line: the clean text and the payload
/// candidates of every resolved envelope, in order.
pub struct LineScan {
    /// The line with every resolved envelope elided.
    pub clean: Vec<u8>,
    /// The bytes between each envelope's id attribute and its closing
    /// marker, in order of occurrence.
    pub payloads: Vec<Vec<u8>>,
}

/// Scans one line for trace envelopes, as the stdout reader does, splitting
/// clean terminal text from embedded payload candidates.
pub fn extract_line(line: &Vec<u8>) -> (r: LineScan)
    ensures
        r.clean@ == spec_scan(line@, 0).0,
        views(r.payloads@) == spec_scan(line@, 0).1,
{
    let open = open_marker_bytes();
    let close = close_marker_bytes();
    let len = line.len();
    let mut clean: Vec<u8> = Vec::new();
    let mut payloads: Vec<Vec<u8>> = Vec::new();
    let mut pos: usize = 0;
    loop
        invariant_except_break
            spec_scan(line@, 0).0 == clean@ + spec_scan(line@, pos as int).0,
            spec_scan(line@, 0).1 == views(payloads@) + spec_scan(line@, pos as int).1,
        invariant
            pos <= len,
            len == line@.len(),
            open@ == open_marker(),
            close@ == close_marker(),
        ensures
            clean@ == spec_scan(line@, 0).0,
            views(payloads@) == spec_scan(line@, 0).1,
        decreases len - pos,
    {
        let ghost scan_here = spec_scan(line@, pos as int);
        let ghost clean0 = clean@;
        let ghost pays0 = views(payloads@);
        let found_open = find_pat(line, &open, pos);
        match found_open {
            None => {
                append_range(&mut clean, line, pos, len);
                proof {
                    assert(scan_here.0 == line@.subrange(pos as int, len as int));
                    assert(scan_here.1 == Seq::<Seq<u8>>::empty());
                    assert(views(payloads@) + scan_here.1 =~= views(payloads@));
                }
                break;
            },
            Some(st) => {
                let found_close = find_pat(line, &close, st);
                match found_close {
                    None => {
                        append_range(&mut clean, line, pos, len);
                        proof {
                            assert(scan_here.0 == line@.subrange(pos as int, len as int));
                            assert(scan_here.1 == Seq::<Seq<u8>>::empty());
                            assert(views(payloads@) + scan_here.1 =~= views(payloads@));
                        }
                        break;
                    },
                    Some(cl) => {
                        let end = cl + 8;
                        assert(end <= len);
                        append_range(&mut clean, line, pos, st);
                        let q1 = find_byte(line, '"' as u8, st, end);
                        let ghost pay = spec_payload(line@, st as int, cl as int);
                        match q1 {
                            None => {
                                proof {
                                    assert(pay.is_none());
                                }
                            },
                            Some(i1) => {
                                let q2 = find_byte(line, '"' as u8, i1 + 1, end);
                                match q2 {
                                    None => {
                                        proof {
                                            assert(pay.is_none());
                                        }
                                    },
                                    Some(i2) => {
                                        if i2 + 2 <= cl {
                                            let mut p: Vec<u8> = Vec::new();
                                            append_range(&mut p, line, i2 + 2, cl);
                                            assert(p@ =~= line@.subrange(i2 + 2, cl as int));
                                            payloads.push(p);
                                            proof {
                                                assert(pay == Some(line@.subrange(i2 + 2, cl as int)));
                                            }
                                        } else {
                                            proof {
                                                assert(pay.is_none());
                                            }
                                        }
                                    },
                                }
                            },
                        }
                        proof {
                            let rest = spec_scan(line@, end as int);
                            assert(scan_here.0 == line@.subrange(pos as int, st as int) + rest.0);
                            assert(clean@ == clean0 + line@.subrange(pos as int, st as int));
                            assert(clean0 + scan_here.0 =~= clean@ + rest.0);
                            match pay {
                                Some(p) => {
                                    assert(scan_here.1 == seq![p] + rest.1);
                                    assert(views(payloads@) =~= pays0.push(p));
                                    assert(pays0 + scan_here.1 =~= views(payloads@) + rest.1);
                                },
                                None => {
                                    assert(scan_here.1 == rest.1);
                                    assert(pays0 + scan_here.1 =~= views(payloads@) + rest.1);
                                },
                            }
                            assert(spec_scan(line@, 0).0 == clean@ + rest.0);
                            assert(spec_scan(line@, 0).1 == views(payloads@) + rest.1);
                        }
                        pos = end;
                    },
                }
            },
        }
    }
    LineScan { clean, payloads }
}

/// A byte the terminal-print decision treats as elidable whitespace:
/// space, tab, newline, carriage return, or backspace.
pub open spec fn spec_elidable(b: u8) -> bool {
    b == ' ' as u8 || b == '\t' as u8 || b == '\n' as u8 || b == '\r' as u8 || b == 8
}

/// A cleaned line is printed iff it holds a non-elidable byte.
pub open spec fn spec_has_printable(s: Seq<u8>) -> bool {
    exists|i: int| 0 <= i < s.len() && !spec_elidable(s[i])
}

/// Decides whether a cleaned line is printed to the terminal.
pub fn has_printable(line: &Vec<u8>) -> (r: bool)
    ensures
        r == spec_has_printable(line@),
{
    let mut i: usize = 0;
    while i < line.len()
        invariant
            i <= line@.len(),
            forall|j: int| 0 <= j < i ==> spec_elidable(line@[j]),
        decreases line@.len() - i,
    {
        let b = line[i];
        if !(b == ' ' as u8 || b == '\t' as u8 || b == '\n' as u8 || b == '\r' as u8 || b == 8) {
            assert(spec_has_printable(line@));
            return true;
        }
        i = i + 1;
    }
    false
}

/// The lines printed to the terminal over a whole run: each stdout line
/// cleaned of its envelopes, kept exactly when it still holds a printable
/// byte, in order.
pub open spec fn spec_terminal_lines(lines: Seq<Seq<u8>>) -> Seq<Seq<u8>>
    decreases lines.len(),
{
    if lines.len() == 0 {
        Seq::empty()
    } else if spec_has_printable(spec_scan(lines[0], 0).0) {
        seq![spec_scan(lines[0], 0).0] + spec_terminal_lines(lines.drop_first())
    } else {
        spec_terminal_lines(lines.drop_first())
    }
}

/// Every payload candidate of a whole run, in order of occurrence.
pub open spec fn spec_all_payloads(lines: Seq<Seq<u8>>) -> Seq<Seq<u8>>
    decreases lines.len(),
{
    if lines.len() == 0 {
        Seq::empty()
    } else {
        spec_scan(lines[0], 0).1 + spec_all_payloads(lines.drop_first())
    }
}

/// Processes a run's stdout lines in order: terminal fidelity — the lines
/// printed are exactly the stdout lines with their envelopes (and
/// whitespace-only residue) elided, in order — and every envelope's
/// payload is extracted exactly once, in order.
pub fn process_stdout_lines(lines: &Vec<Vec<u8>>) -> (r: (Vec<Vec<u8>>, Vec<Vec<u8>>))
    ensures
        views(r.0@) == spec_terminal_lines(views(lines@)),
        views(r.1@) == spec_all_payloads(views(lines@)),
{
    let mut printed: Vec<Vec<u8>> = Vec::new();
    let mut payloads: Vec<Vec<u8>> = Vec::new();
    let mut i: usize = 0;
    proof {
        assert(views(lines@).skip(0) =~= views(lines@));
        assert(views(printed@) =~= Seq::<Seq<u8>>::empty());
        assert(views(payloads@) =~= Seq::<Seq<u8>>::empty());
        assert(views(printed@) + spec_terminal_lines(views(lines@))
            =~= spec_terminal_lines(views(lines@)));
        assert(views(payloads@) + spec_all_payloads(views(lines@))
            =~= spec_all_payloads(views(lines@)));
    }
    while i < lines.len()
        invariant
            i <= lines@.len(),
            views(printed@) + spec_terminal_lines(views(lines@).skip(i as int))
                == spec_terminal_lines(views(lines@)),
            views(payloads@) + spec_all_payloads(views(lines@).skip(i as int))
                == spec_all_payloads(views(lines@)),
        decreases lines@.len() - i,
    {
        let ghost pre = views(lines@).skip(i as int);
        let ghost printed0 = views(printed@);
        let ghost payloads0 = views(payloads@);
        proof {
            assert(pre[0] == views(lines@)[i as int]);
            assert(pre.drop_first() =~= views(lines@).skip(i + 1));
        }
        let scan = extract_line(&lines[i]);
        if has_printable(&scan.clean) {
            printed.push(scan.clean);
            proof {
                assert(views(printed@) =~= printed0.push(spec_scan(pre[0], 0).0));
                assert(printed0 + spec_terminal_lines(pre)
                    =~= views(printed@) + spec_terminal_lines(views(lines@).skip(i + 1)));
            }
        } else {
            proof {
                assert(spec_terminal_lines(pre)
                    == spec_terminal_lines(views(lines@).skip(i + 1)));
            }
        }
        let mut ps = scan.payloads;
        let mut j: usize = 0;
        proof {
            assert(views(ps@) == spec_scan(pre[0], 0).1);
        }
        while j < ps.len()
            invariant
                j <= ps@.len(),
                views(payloads@) == payloads0 + views(ps@).take(j as int),
            decreases ps@.len() - j,
        {
            let ghost pj = views(payloads@);
            payloads.push(ps[j].clone());
            proof {
                assert(views(payloads@) =~= pj.push(views(ps@)[j as int]));
                assert(views(ps@).take(j + 1) =~= views(ps@).take(j as int).push(
                    views(ps@)[j as int],
                ));
                assert(views(payloads@) =~= payloads0 + views(ps@).take(j + 1));
            }
            j = j + 1;
        }
        proof {
            assert(views(ps@).take(ps@.len() as int) =~= views(ps@));
            assert(views(payloads@) =~= payloads0 + spec_scan(pre[0], 0).1);
            assert(payloads0 + spec_all_payloads(pre)
                =~= views(payloads@) + spec_all_payloads(views(lines@).skip(i + 1)));
        }
        i = i + 1;
    }
    proof {
        assert(views(lines@).skip(lines@.len() as int) =~= Seq::<Seq<u8>>::empty());
        assert(views(printed@) + Seq::<Seq<u8>>::empty() =~= views(printed@));
        assert(views(payloads@) + Seq::<Seq<u8>>::empty() =~= views(payloads@));
    }
    (printed, payloads)
}

/// A line holding no opening marker is passed to the terminal unchanged and
/// yields no payload.
pub proof fn lemma_no_envelope_identity(s: Seq<u8>)
    requires
        spec_find(s, open_marker(), 0).is_none(),
    ensures
        spec_scan(s, 0).0 == s,
        spec_scan(s, 0).1 == Seq::<Seq<u8>>::empty(),
{
    assert(s.subrange(0, s.len() as int) =~= s);
}

/// A well-formed envelope: the opening marker, the quoted id, the `>` that
/// ends the opening tag, the payload, and the closing marker.
pub open spec fn spec_envelope(id: Seq<u8>, payload: Seq<u8>) -> Seq<u8> {
    open_marker() + seq!['"' as u8] + id + seq!['"' as u8, '>' as u8] + payload + close_marker()
}

proof fn lemma_find_byte_at(s: Seq<u8>, b: u8, from: int, to: int, k: int)
    requires
        0 <= from <= k < to <= s.len(),
        s[k] == b,
        forall|j: int| from <= j < k ==> s[j] != b,
    ensures
        spec_find_byte(s, b, from, to) == Some(k),
    decreases k - from,
{
    if from < k {
        lemma_find_byte_at(s, b, from + 1, to, k);
    }
}

proof fn lemma_find_at(s: Seq<u8>, pat: Seq<u8>, from: int, k: int)
    requires
        0 <= from <= k,
        spec_match_at(s, k, pat),
        forall|j: int| from <= j < k ==> !spec_match_at(s, j, pat),
        pat.len() > 0,
    ensures
        spec_find(s, pat, from) == Some(k),
    decreases k - from,
{
    if from < k {
        lemma_find_at(s, pat, from + 1, k);
    }
}

proof fn lemma_find_some_bounds(s: Seq<u8>, pat: Seq<u8>, from: int)
    ensures
        match spec_find(s, pat, from) {
            Some(i) => from <= i && spec_match_at(s, i, pat),
            None => true,
        },
    decreases s.len() - from,
{
    if from >= 0 && from + pat.len() <= s.len() && !spec_match_at(s, from, pat) && pat.len() > 0 {
        lemma_find_some_bounds(s, pat, from + 1);
    }
}

proof fn lemma_find_byte_some_bounds(s: Seq<u8>, b: u8, from: int, to: int)
    ensures
        match spec_find_byte(s, b, from, to) {
            Some(i) => from <= i < to <= s.len() && s[i] == b,
            None => true,
        },
    decreases to - from,
{
    if from >= 0 && from < to && to <= s.len() && s[from] != b {
        lemma_find_byte_some_bounds(s, b, from + 1, to);
    }
}

proof fn lemma_find_shift(s: Seq<u8>, pat: Seq<u8>, pos: int, d: int)
    requires
        0 <= pos <= s.len(),
        0 <= d,
    ensures
        spec_find(s, pat, pos + d) == match spec_find(s.skip(pos), pat, d) {
            None => None::<int>,
            Some(i) => Some(i + pos),
        },
    decreases s.len() - pos - d,
{
    let t = s.skip(pos);
    if pos + d + pat.len() <= s.len() {
        assert(s.subrange(pos + d, pos + d + pat.len()) =~= t.subrange(d, d + pat.len()));
        if !spec_match_at(s, pos + d, pat) && pat.len() > 0 {
            lemma_find_shift(s, pat, pos, d + 1);
        }
    }
}

proof fn lemma_find_byte_shift(s: Seq<u8>, b: u8, pos: int, from: int, to: int)
    requires
        0 <= pos <= s.len(),
        0 <= from,
        to <= s.len() - pos,
    ensures
        spec_find_byte(s, b, pos + from, pos + to) == match spec_find_byte(
            s.skip(pos),
            b,
            from,
            to,
        ) {
            None => None::<int>,
            Some(i) => Some(i + pos),
        },
    decreases to - from,
{
    let t = s.skip(pos);
    if from < to {
        assert(s[pos + from] == t[from]);
        if s[pos + from] != b {
            lemma_find_byte_shift(s, b, pos, from + 1, to);
        }
    }
}

/// Scanning from a position sees only the suffix: the result is the scan
/// of the suffix from its start.
pub proof fn lemma_scan_shift(s: Seq<u8>, pos: int)
    requires
        0 <= pos <= s.len(),
    ensures
        spec_scan(s, pos).0 == spec_scan(s.skip(pos), 0).0,
        spec_scan(s, pos).1 == spec_scan(s.skip(pos), 0).1,
    decreases s.len() - pos,
{
    let t = s.skip(pos);
    lemma_find_shift(s, open_marker(), pos, 0);
    lemma_find_some_bounds(t, open_marker(), 0);
    match spec_find(t, open_marker(), 0) {
        None => {
            assert(s.subrange(pos, s.len() as int) =~= t.subrange(0, t.len() as int));
        },
        Some(st) => {
            lemma_find_shift(s, close_marker(), pos, st);
            lemma_find_some_bounds(t, close_marker(), st);
            match spec_find(t, close_marker(), st) {
                None => {
                    assert(s.subrange(pos, s.len() as int) =~= t.subrange(0, t.len() as int));
                },
                Some(cl) => {
                    let end = cl + close_marker().len();
                    assert(0 <= st <= cl && end <= t.len());
                    lemma_find_byte_shift(s, quote_byte(), pos, st, end);
                    lemma_find_byte_some_bounds(t, quote_byte(), st, end);
                    match spec_find_byte(t, quote_byte(), st, end) {
                        None => {},
                        Some(q1) => {
                            lemma_find_byte_shift(s, quote_byte(), pos, q1 + 1, end);
                            lemma_find_byte_some_bounds(t, quote_byte(), q1 + 1, end);
                            match spec_find_byte(t, quote_byte(), q1 + 1, end) {
                                None => {},
                                Some(q2) => {
                                    if q2 + 2 <= cl {
                                        assert(s.subrange(pos + q2 + 2, pos + cl)
                                            =~= t.subrange(q2 + 2, cl));
                                    }
                                },
                            }
                        },
                    }
                    assert(spec_payload(s, pos + st, pos + cl) == spec_payload(t, st, cl));
                    lemma_scan_shift(s, pos + end);
                    lemma_scan_shift(t, end);
                    assert(s.skip(pos + end) =~= t.skip(end));
                    assert(s.subrange(pos, pos + st) =~= t.subrange(0, st));
                },
            }
        },
    }
}

/// Envelope extraction, compositionally: a line that opens with clean text
/// holding no opening marker, then one well-formed envelope — the close
/// marker first occurring where the envelope closes, the id holding no
/// quote — scans to that clean text and that payload, followed by whatever
/// the rest of the line scans to. Applied once per envelope, this gives
/// the whole line's scan for any number of envelopes.
pub proof fn lemma_envelope_prefix(pre: Seq<u8>, id: Seq<u8>, payload: Seq<u8>, rest: Seq<u8>)
    requires
        forall|j: int|
            0 <= j < pre.len()
                ==> !spec_match_at(pre + spec_envelope(id, payload) + rest, j, open_marker()),
        forall|j: int|
            pre.len() <= j < pre.len() + 13 + id.len() + payload.len()
                ==> !spec_match_at(pre + spec_envelope(id, payload) + rest, j, close_marker()),
        !id.contains('"' as u8),
    ensures
        spec_scan(pre + spec_envelope(id, payload) + rest, 0).0 == pre + spec_scan(rest, 0).0,
        spec_scan(pre + spec_envelope(id, payload) + rest, 0).1 == seq![payload] + spec_scan(
            rest,
            0,
        ).1,
{
    let s = pre + spec_envelope(id, payload) + rest;
    let st = pre.len() as int;
    let q1 = st + 10;
    let q2 = st + 11 + id.len() as int;
    let cs = st + 13 + id.len() as int;
    let cl = cs + payload.len() as int;
    let end = cl + 8;
    assert(s.len() == end + rest.len());

    assert(s.subrange(st, st + 10) =~= open_marker());
    assert(spec_match_at(s, st, open_marker()));
    lemma_find_at(s, open_marker(), 0, st);

    assert(s.subrange(cl, cl + 8) =~= close_marker());
    assert(spec_match_at(s, cl, close_marker()));
    lemma_find_at(s, close_marker(), st, cl);

    assert(s[q1] == '"' as u8);
    assert forall|j: int| st <= j < q1 implies s[j] != '"' as u8 by {
        assert(s[j] == open_marker()[j - st]);
    }
    lemma_find_byte_at(s, '"' as u8, st, end, q1);

    assert(s[q2] == '"' as u8);
    assert forall|j: int| q1 + 1 <= j < q2 implies s[j] != '"' as u8 by {
        assert(s[j] == id[j - (q1 + 1)]);
        if s[j] == '"' as u8 {
            assert(id.contains('"' as u8));
        }
    }
    lemma_find_byte_at(s, '"' as u8, q1 + 1, end, q2);

    assert(spec_payload(s, st, cl) == Some(s.subrange(cs, cl)));
    assert(s.subrange(cs, cl) =~= payload);

    lemma_scan_shift(s, end);
    assert(s.skip(end) =~= rest);

    assert(s.subrange(0, st) =~= pre);
    assert(spec_scan(s, 0).0 =~= pre + spec_scan(rest, 0).0);
    assert(spec_scan(s, 0).1 =~= seq![payload] + spec_scan(rest, 0).1);
}

/// Envelope extraction: a line made of clean text, one well-formed
/// envelope, and nothing after it — the text holding no opening marker,
/// the close marker first occurring where the envelope closes, the id
/// holding no quote — scans to exactly the clean text and exactly that one
/// payload.
pub proof fn lemma_envelope_extraction(pre: Seq<u8>, id: Seq<u8>, payload: Seq<u8>)
    requires
        forall|j: int|
            0 <= j < pre.len()
                ==> !spec_match_at(pre + spec_envelope(id, payload), j, open_marker()),
        forall|j: int|
            pre.len() <= j < pre.len() + 13 + id.len() + payload.len()
                ==> !spec_match_at(pre + spec_envelope(id, payload), j, close_marker()),
        !id.contains('"' as u8),
    ensures
        spec_scan(pre + spec_envelope(id, payload), 0).0 == pre,
        spec_scan(pre + spec_envelope(id, payload), 0).1 == seq![payload],
{
    assert(pre + spec_envelope(id, payload) + Seq::<u8>::empty()
        =~= pre + spec_envelope(id, payload));
    lemma_envelope_prefix(pre, id, payload, Seq::empty());
    let empty = Seq::<u8>::empty();
    assert(spec_scan(empty, 0).0 =~= Seq::<u8>::empty());
    assert(spec_scan(empty, 0).1 =~= Seq::<Seq<u8>>::empty());
    assert(pre + spec_scan(empty, 0).0 =~= pre);
    assert(seq![payload] + spec_scan(empty, 0).1 =~= seq![payload]);
}

} // verus!
