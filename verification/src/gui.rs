use vstd::prelude::*;
use crate::text::{chars_of, contains, contains_seq, find, first_occurrence, is_whitespace, is_ws, skip_ws, spec_trim, str_eq, string_from, trim_bounds};

verus! {

/// Status derived from a log line of the service: `None` when the line
/// says nothing about progress. Checked in order: connected, listening,
/// retrying, port busy, error, starting.
pub open spec fn spec_classify(line: Seq<char>) -> Option<Seq<char>> {
    if contains_seq(line, "conectado al servidor"@) || contains_seq(line, "peer autenticado"@) {
        Some("connected"@)
    } else if contains_seq(line, "escuchando conexiones de peers"@) {
        Some("listening"@)
    } else if contains_seq(line, "reintentando conexión"@) {
        Some("retrying"@)
    } else if contains_seq(line, "Address already in use"@) || contains_seq(line, "address in use"@) {
        Some("port_busy"@)
    } else if contains_seq(line, "rechazado"@) || contains_seq(line, "no está soportado"@)
        || contains_seq(line, "ERROR"@) {
        Some("error"@)
    } else if contains_seq(line, "identidad local cargada"@) {
        Some("starting"@)
    } else {
        None
    }
}

fn has(line: &[char], lit: &str) -> (r: bool)
    ensures
        r == contains_seq(line@, lit@),
{
    let needle = chars_of(lit);
    contains(line, needle.as_slice())
}

/// The status a log line reports, if any.
pub fn classify_line(line: &str) -> (r: Option<&'static str>)
    ensures
        match r {
            Some(s) => spec_classify(line@) == Some(s@),
            None => spec_classify(line@) is None,
        },
{
    let c = chars_of(line);
    let c = c.as_slice();
    if has(c, "conectado al servidor") || has(c, "peer autenticado") {
        Some("connected")
    } else if has(c, "escuchando conexiones de peers") {
        Some("listening")
    } else if has(c, "reintentando conexión") {
        Some("retrying")
    } else if has(c, "Address already in use") || has(c, "address in use") {
        Some("port_busy")
    } else if has(c, "rechazado") || has(c, "no está soportado") || has(c, "ERROR") {
        Some("error")
    } else if has(c, "identidad local cargada") {
        Some("starting")
    } else {
        None
    }
}

pub open spec fn is_ascii_alpha(c: char) -> bool {
    ('a' <= c <= 'z') || ('A' <= c <= 'Z')
}

/// Index just past the first ASCII letter at or after `i` (the end of an
/// escape sequence), or the end of `s`.
pub open spec fn escape_end(s: Seq<char>, i: int) -> int
    decreases s.len() - i,
{
    if i >= s.len() {
        s.len() as int
    } else if is_ascii_alpha(s[i]) {
        i + 1
    } else {
        escape_end(s, i + 1)
    }
}

pub proof fn lemma_escape_end(s: Seq<char>, i: int)
    requires
        0 <= i <= s.len(),
    ensures
        i <= escape_end(s, i) <= s.len(),
    decreases s.len() - i,
{
    if i < s.len() && !is_ascii_alpha(s[i]) {
        lemma_escape_end(s, i + 1);
    }
}

/// `s[i..]` without ANSI escape sequences (`ESC [` up to and including the
/// next ASCII letter).
pub open spec fn strip_from(s: Seq<char>, i: int) -> Seq<char>
    decreases s.len() - i,
{
    if i < 0 || i >= s.len() {
        Seq::empty()
    } else if s[i] == '\u{1b}' && i + 1 < s.len() && s[i + 1] == '[' {
        proof {
            lemma_escape_end(s, i + 2);
        }
        strip_from(s, escape_end(s, i + 2))
    } else {
        seq![s[i]] + strip_from(s, i + 1)
    }
}

/// `input` without the ANSI colour codes a terminal logger adds.
pub fn strip_ansi(input: &str) -> (out: String)
    ensures
        out@ == strip_from(input@, 0),
{
    let c = chars_of(input);
    let n = c.len();
    let mut out = String::new();
    let mut i: usize = 0;
    while i < n
        invariant
            n == c@.len(),
            c@ == input@,
            0 <= i <= n,
            strip_from(c@, 0) == out@ + strip_from(c@, i as int),
        decreases n - i,
    {
        if c[i] == '\u{1b}' && i + 1 < n && c[i + 1] == '[' {
            let mut j = i + 2;
            while j < n && !(('a' <= c[j] && c[j] <= 'z') || ('A' <= c[j] && c[j] <= 'Z'))
                invariant
                    i + 2 <= j <= n,
                    n == c@.len(),
                    escape_end(c@, i + 2) == escape_end(c@, j as int),
                decreases n - j,
            {
                j = j + 1;
            }
            let next = if j < n { j + 1 } else { n };
            assert(escape_end(c@, j as int) == next);
            i = next;
        } else {
            out.push(c[i]);
            assert(out@ + strip_from(c@, i + 1) =~= old_out_plus(out@, c@, i as int));
            i = i + 1;
        }
    }
    out
}

spec fn old_out_plus(out_after: Seq<char>, s: Seq<char>, i: int) -> Seq<char> {
    out_after + strip_from(s, i + 1)
}

/// Index of the first whitespace at or after `i` (or the end).
pub open spec fn token_end(s: Seq<char>, i: int) -> int
    decreases s.len() - i,
{
    if i >= s.len() || is_ws(s[i]) {
        i
    } else {
        token_end(s, i + 1)
    }
}

/// Index of the first `"` at or after `i` (or the end).
pub open spec fn quote_end(s: Seq<char>, i: int) -> int
    decreases s.len() - i,
{
    if i >= s.len() || s[i] == '"' {
        i
    } else {
        quote_end(s, i + 1)
    }
}

/// Value of a ` prefix` field in a log line: what follows the first
/// occurrence of a space and `prefix`, up to the closing quote when the
/// value is quoted, otherwise its first whitespace-separated word (all of
/// it when it holds no word); `None` when absent or empty.
pub open spec fn spec_extract_field(line: Seq<char>, prefix: Seq<char>) -> Option<Seq<char>> {
    let key = seq![' '] + prefix;
    match first_occurrence(line, key) {
        None => None,
        Some(p) => {
            let after = line.subrange(p + key.len(), line.len() as int);
            let value = if after.len() > 0 && after[0] == '"' {
                after.subrange(1, quote_end(after, 1))
            } else {
                let a = skip_ws(after, 0);
                if a >= after.len() {
                    after
                } else {
                    after.subrange(a, token_end(after, a))
                }
            };
            if value.len() == 0 { None } else { Some(value) }
        },
    }
}

/// Extract the value of field `prefix` (such as `name=`) from a log line.
pub fn extract_field(line: &str, prefix: &str) -> (r: Option<String>)
    ensures
        match r {
            Some(v) => spec_extract_field(line@, prefix@) == Some(v@),
            None => spec_extract_field(line@, prefix@) is None,
        },
{
    let c = chars_of(line);
    let p = chars_of(prefix);
    let mut key: Vec<char> = Vec::new();
    key.push(' ');
    let mut k: usize = 0;
    while k < p.len()
        invariant
            0 <= k <= p@.len(),
            key@ == seq![' '] + p@.take(k as int),
        decreases p.len() - k,
    {
        key.push(p[k]);
        assert(p@.take(k + 1) =~= p@.take(k as int).push(p@[k as int]));
        k = k + 1;
    }
    assert(p@.take(p@.len() as int) =~= p@);
    assert(key@ == seq![' '] + prefix@);
    let pos = match find(c.as_slice(), key.as_slice()) {
        Some(pos) => pos,
        None => return None,
    };
    let n = c.len();
    let start = pos + key.len();
    let ghost after = c@.subrange(start as int, n as int);
    let (from, to) = if start < n && c[start] == '"' {
        let mut q = start + 1;
        while q < n && c[q] != '"'
            invariant
                start + 1 <= q <= n,
                n == c@.len(),
                after == c@.subrange(start as int, n as int),
                quote_end(after, 1) == quote_end(after, q - start),
            decreases n - q,
        {
            assert(after[q - start] == c@[q as int]);
            q = q + 1;
        }
        assert(quote_end(after, q - start) == q - start);
        (start + 1, q)
    } else {
        let mut a = start;
        while a < n && is_whitespace(c[a])
            invariant
                start <= a <= n,
                n == c@.len(),
                after == c@.subrange(start as int, n as int),
                skip_ws(after, 0) == skip_ws(after, a - start),
            decreases n - a,
        {
            assert(after[a - start] == c@[a as int]);
            a = a + 1;
        }
        assert(skip_ws(after, a - start) == a - start);
        if a >= n {
            (start, n)
        } else {
            let mut b = a;
            while b < n && !is_whitespace(c[b])
                invariant
                    start <= a <= b <= n,
                    n == c@.len(),
                    after == c@.subrange(start as int, n as int),
                    token_end(after, a - start) == token_end(after, b - start),
                decreases n - b,
            {
                assert(after[b - start] == c@[b as int]);
                b = b + 1;
            }
            assert(token_end(after, b - start) == b - start);
            (a, b)
        }
    };
    assert(c@.subrange(from as int, to as int) =~= (if start < n && c@[start as int] == '"' {
        after.subrange(1, quote_end(after, 1))
    } else {
        let a = skip_ws(after, 0);
        if a >= after.len() { after } else { after.subrange(a, token_end(after, a)) }
    }));
    if from == to {
        return None;
    }
    Some(string_from(c.as_slice(), from, to))
}

/// What follows the first occurrence of `key`, trimmed.
pub open spec fn spec_trailing_field(line: Seq<char>, key: Seq<char>) -> Option<Seq<char>> {
    match first_occurrence(line, key) {
        None => None,
        Some(p) => Some(spec_trim(line.subrange(p + key.len(), line.len() as int))),
    }
}

/// Value of a `key=` field that ends the line (so it may hold spaces).
pub fn trailing_field(line: &str, key: &str) -> (r: Option<String>)
    ensures
        match r {
            Some(v) => spec_trailing_field(line@, key@) == Some(v@),
            None => spec_trailing_field(line@, key@) is None,
        },
{
    let c = chars_of(line);
    let k = chars_of(key);
    let pos = match find(c.as_slice(), k.as_slice()) {
        Some(pos) => pos,
        None => return None,
    };
    let n = c.len();
    assert(pos + k@.len() <= n);
    let (a, b) = trim_bounds(c.as_slice(), pos + k.len(), n);
    Some(string_from(c.as_slice(), a, b))
}

/// The logging filter for a level chosen in the GUI.
pub open spec fn spec_rust_log(level: Seq<char>) -> Seq<char> {
    if level == "all"@ || level == "todos"@ {
        "info,ionconnect_core=trace,ionconnect_network=trace,ionconnect_input=trace,ionconnect_crypto=debug,ionconnect_protocol=debug,ionconnect_ipc=trace,ionconnect_clipboard=debug,ionconnect_config=debug,ionconnect_screen=debug"@
    } else if level == "error"@ || level == "warn"@ || level == "info"@ || level == "debug"@
        || level == "trace"@ {
        level
    } else {
        "info"@
    }
}

/// Translate the GUI's log level into a `RUST_LOG` filter: "all" raises
/// this project's crates to full detail and keeps dependencies at info;
/// known levels pass through; anything else becomes "info".
pub fn log_level_to_rust_log(level: &str) -> (r: String)
    ensures
        r@ == spec_rust_log(level@),
{
    if str_eq(level, "all") || str_eq(level, "todos") {
        "info,ionconnect_core=trace,ionconnect_network=trace,ionconnect_input=trace,ionconnect_crypto=debug,ionconnect_protocol=debug,ionconnect_ipc=trace,ionconnect_clipboard=debug,ionconnect_config=debug,ionconnect_screen=debug".to_owned()
    } else if str_eq(level, "error") || str_eq(level, "warn") || str_eq(level, "info") || str_eq(level, "debug")
        || str_eq(level, "trace") {
        level.to_owned()
    } else {
        "info".to_owned()
    }
}

} // verus!
