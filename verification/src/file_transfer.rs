use vstd::prelude::*;

use std::collections::HashMap;

use crate::decimal::{dec_string, push_decimal};
use crate::text::{chars_of, spec_trim, string_from, trim_bounds};

verus! {

broadcast use vstd::std_specs::hash::group_hash_axioms;

/// Size of each chunk of a file sent to a peer (bytes).
pub const CHUNK_SIZE: usize = 131072;

// ---------------------------------------------------------------------
// Unix path components

/// Start of the path segment that ends at `end` (just after the previous
/// `/`, or 0).
pub open spec fn segment_start(s: Seq<char>, end: int) -> int
    decreases end,
{
    if end <= 0 {
        0
    } else if s[end - 1] == '/' {
        end
    } else {
        segment_start(s, end - 1)
    }
}

pub proof fn lemma_segment_start(s: Seq<char>, end: int)
    requires
        0 <= end <= s.len(),
    ensures
        0 <= segment_start(s, end) <= end,
        segment_start(s, end) > 0 ==> s[segment_start(s, end) - 1] == '/',
        forall|k: int| segment_start(s, end) <= k < end ==> s[k] != '/',
    decreases end,
{
    if end > 0 && s[end - 1] != '/' {
        lemma_segment_start(s, end - 1);
    }
}

/// Final component of `s[..end]` as `Path::file_name` gives it on Unix:
/// trailing `/` and `.` components are skipped, and a final `..` (or no
/// component at all) gives `None`.
pub open spec fn file_name_before(s: Seq<char>, end: int) -> Option<Seq<char>>
    decreases end,
{
    if end <= 0 || end > s.len() {
        None
    } else if s[end - 1] == '/' {
        file_name_before(s, end - 1)
    } else {
        let st = segment_start(s, end);
        let seg = s.subrange(st, end);
        if seg == seq!['.'] {
            proof {
                lemma_segment_start(s, end);
            }
            file_name_before(s, st)
        } else if seg == seq!['.', '.'] {
            None
        } else {
            Some(seg)
        }
    }
}

pub open spec fn file_name(path: Seq<char>) -> Option<Seq<char>> {
    file_name_before(path, path.len() as int)
}

/// Bounds of the final component of `chars`.
fn file_name_range(chars: &[char]) -> (r: Option<(usize, usize)>)
    ensures
        match file_name(chars@) {
            Some(seg) => r matches Some((a, b)) && a <= b <= chars@.len() && chars@.subrange(a as int, b as int) == seg,
            None => r is None,
        },
{
    let mut end = chars.len();
    loop
        invariant
            end <= chars@.len(),
            file_name(chars@) == file_name_before(chars@, end as int),
        decreases end,
    {
        let ghost e0 = end;
        while end > 0 && chars[end - 1] == '/'
            invariant
                end <= e0 <= chars@.len(),
                file_name(chars@) == file_name_before(chars@, end as int),
            decreases end,
        {
            end = end - 1;
        }
        if end == 0 {
            return None;
        }
        let mut st = end;
        while st > 0 && chars[st - 1] != '/'
            invariant
                st <= end <= e0 <= chars@.len(),
                file_name(chars@) == file_name_before(chars@, end as int),
                0 < end,
                chars@[end - 1] != '/',
                segment_start(chars@, end as int) == segment_start(chars@, st as int),
            decreases st,
        {
            st = st - 1;
        }
        proof {
            lemma_segment_start(chars@, end as int);
            assert(segment_start(chars@, st as int) == st);
            assert(segment_start(chars@, end as int) == st);
        }
        assert(st < end);
        let n = end - st;
        if n == 1 && chars[st] == '.' {
            assert(chars@.subrange(st as int, end as int) =~= seq!['.']);
            end = st;
        } else if n == 2 && chars[st] == '.' && chars[st + 1] == '.' {
            assert(chars@.subrange(st as int, end as int) =~= seq!['.', '.']);
            return None;
        } else {
            proof {
                let seg = chars@.subrange(st as int, end as int);
                assert(seg.len() == n);
                if seg == seq!['.'] {
                    assert(seg[0] == '.');
                    assert(chars@[st as int] == seg[0]);
                }
                if seg == seq!['.', '.'] {
                    assert(seg[0] == '.' && seg[1] == '.');
                    assert(chars@[st as int] == seg[0]);
                    assert(chars@[st + 1] == seg[1]);
                }
                assert(file_name_before(chars@, end as int) == Some(seg));
            }
            return Some((st, end));
        }
    }
}

/// Index of the last `.` in `f[..end]`, or -1.
pub open spec fn last_dot(f: Seq<char>, end: int) -> int
    decreases end,
{
    if end <= 0 {
        -1
    } else if f[end - 1] == '.' {
        end - 1
    } else {
        last_dot(f, end - 1)
    }
}

proof fn lemma_last_dot(f: Seq<char>, end: int)
    requires
        0 <= end <= f.len(),
    ensures
        -1 <= last_dot(f, end) < end,
        last_dot(f, end) >= 0 ==> f[last_dot(f, end)] == '.',
        forall|k: int| last_dot(f, end) < k < end ==> f[k] != '.',
    decreases end,
{
    if end > 0 && f[end - 1] != '.' {
        lemma_last_dot(f, end - 1);
    }
}

/// Extension of a file name as `Path::extension` gives it: what follows
/// the last `.`, unless that dot starts the name.
pub open spec fn ext_of_file(f: Seq<char>) -> Option<Seq<char>> {
    let d = last_dot(f, f.len() as int);
    if f == seq!['.', '.'] || d <= 0 {
        None
    } else {
        Some(f.subrange(d + 1, f.len() as int))
    }
}

/// Stem of a file name as `Path::file_stem` gives it.
pub open spec fn stem_of_file(f: Seq<char>) -> Seq<char> {
    let d = last_dot(f, f.len() as int);
    if f == seq!['.', '.'] || d <= 0 {
        f
    } else {
        f.subrange(0, d)
    }
}

/// Index of the last `.` of `chars[from..to]`, relative to the slice.
fn last_dot_in(chars: &[char], from: usize, to: usize) -> (d: Option<usize>)
    requires
        from <= to <= chars@.len(),
    ensures
        match d {
            Some(i) => from <= i < to && last_dot(chars@.subrange(from as int, to as int), to - from) == i - from,
            None => last_dot(chars@.subrange(from as int, to as int), to - from) == -1,
        },
{
    let ghost f = chars@.subrange(from as int, to as int);
    let mut e = to;
    while e > from && chars[e - 1] != '.'
        invariant
            from <= e <= to <= chars@.len(),
            f == chars@.subrange(from as int, to as int),
            last_dot(f, to - from) == last_dot(f, e - from),
        decreases e,
    {
        assert(f[e - from - 1] == chars@[e - 1]);
        e = e - 1;
    }
    if e == from {
        None
    } else {
        assert(f[e - from - 1] == chars@[e - 1]);
        Some(e - 1)
    }
}

// ---------------------------------------------------------------------
// File names received from peers

pub open spec fn replace_separator(c: char) -> char {
    if c == '/' || c == '\\' || c == '\0' {
        '_'
    } else {
        c
    }
}

/// Name used when nothing usable is left of a received name.
pub open spec fn fallback_name() -> Seq<char> {
    seq!['a', 'r', 'c', 'h', 'i', 'v', 'o']
}

/// The final component of `name`, separators replaced by `_` and
/// surrounding whitespace removed; the fallback name when that leaves
/// nothing, `.` or `..`.
pub open spec fn spec_sanitize_name(name: Seq<char>) -> Seq<char> {
    let base = match file_name(name) {
        Some(b) => b,
        None => fallback_name(),
    };
    let t = spec_trim(base.map_values(|c: char| replace_separator(c)));
    if t.len() == 0 || t == seq!['.'] || t == seq!['.', '.'] {
        fallback_name()
    } else {
        t
    }
}

/// A name that stays inside the download folder: not empty, not `.` or
/// `..`, and without path separators or NUL.
pub open spec fn is_safe_name(s: Seq<char>) -> bool {
    &&& s.len() > 0
    &&& s != seq!['.']
    &&& s != seq!['.', '.']
    &&& forall|i: int| 0 <= i < s.len() ==> #[trigger] s[i] != '/' && s[i] != '\\' && s[i] != '\0'
}

fn fallback_string() -> (s: String)
    ensures
        s@ == fallback_name(),
{
    let a = ['a', 'r', 'c', 'h', 'i', 'v', 'o'];
    let s = string_from(a.as_slice(), 0, 7);
    assert(a@.subrange(0, 7) =~= fallback_name());
    s
}

/// The final component of `name`, or the fallback name when it has none.
fn base_name(name: &str) -> (v: Vec<char>)
    ensures
        v@ == (match file_name(name@) {
            Some(b) => b,
            None => fallback_name(),
        }),
{
    let chars = chars_of(name);
    match file_name_range(chars.as_slice()) {
        Some((a, b)) => {
            let mut v: Vec<char> = Vec::new();
            let mut i = a;
            while i < b
                invariant
                    a <= i <= b <= chars@.len(),
                    v@ == chars@.subrange(a as int, i as int),
                decreases b - i,
            {
                v.push(chars[i]);
                assert(chars@.subrange(a as int, i + 1) =~= chars@.subrange(a as int, i as int).push(chars@[i as int]));
                i = i + 1;
            }
            v
        },
        None => {
            let v = vec!['a', 'r', 'c', 'h', 'i', 'v', 'o'];
            assert(v@ =~= fallback_name());
            v
        },
    }
}

/// `base` with `/`, `\\` and NUL replaced by `_`.
fn replace_separators(base: &Vec<char>) -> (cleaned: Vec<char>)
    ensures
        cleaned@ == base@.map_values(|c: char| replace_separator(c)),
{
    let mut cleaned: Vec<char> = Vec::new();
    let mut i: usize = 0;
    while i < base.len()
        invariant
            0 <= i <= base@.len(),
            cleaned@ == base@.take(i as int).map_values(|c: char| replace_separator(c)),
        decreases base@.len() - i,
    {
        let c = base[i];
        let d = if c == '/' || c == '\\' || c == '\0' { '_' } else { c };
        cleaned.push(d);
        assert(base@.take(i + 1).map_values(|c: char| replace_separator(c)) =~= base@.take(i as int).map_values(
            |c: char| replace_separator(c),
        ).push(d));
        i = i + 1;
    }
    assert(base@.take(base@.len() as int) =~= base@);
    cleaned
}

/// Keeps only the file name of a name received from a peer, so that the
/// sender cannot make the receiver write outside its download folder.
pub fn sanitize_name(name: &str) -> (r: String)
    ensures
        r@ == spec_sanitize_name(name@),
        is_safe_name(r@),
{
    let base = base_name(name);
    let cleaned = replace_separators(&base);
    let (a, b) = trim_bounds(cleaned.as_slice(), 0, cleaned.len());
    assert(cleaned@.subrange(0, cleaned@.len() as int) =~= cleaned@);
    let n = b - a;
    let ghost t = cleaned@.subrange(a as int, b as int);
    let dot = n == 1 && cleaned[a] == '.';
    let dots = n == 2 && cleaned[a] == '.' && cleaned[a + 1] == '.';
    proof {
        assert(t.len() == n);
        if t == seq!['.'] {
            assert(t[0] == '.');
            assert(t[0] == cleaned@[a as int]);
        }
        if t == seq!['.', '.'] {
            assert(t[0] == '.' && t[1] == '.');
            assert(t[0] == cleaned@[a as int]);
            assert(t[1] == cleaned@[a + 1]);
        }
        if dot {
            assert(t =~= seq!['.']);
        }
        if dots {
            assert(t =~= seq!['.', '.']);
        }
    }
    if n == 0 || dot || dots {
        let r = fallback_string();
        assert(r@ != seq!['.']) by {
            assert(r@.len() != 1);
        }
        assert(r@ != seq!['.', '.']) by {
            assert(r@.len() != 2);
        }
        r
    } else {
        let r = string_from(cleaned.as_slice(), a, b);
        assert forall|k: int| 0 <= k < r@.len() implies #[trigger] r@[k] != '/' && r@[k] != '\\' && r@[k] != '\0' by {
            assert(r@[k] == cleaned@[a + k]);
            assert(cleaned@[a + k] == replace_separator(base@[a + k]));
        }
        r
    }
}

// ---------------------------------------------------------------------
// Names on disk

/// Stem of the final component of `path`, if it has one.
pub open spec fn path_stem(path: Seq<char>) -> Option<Seq<char>> {
    match file_name(path) {
        Some(f) => Some(stem_of_file(f)),
        None => None,
    }
}

/// The `n`-th alternative name tried when `name` is taken:
/// `stem (n).ext`, or `stem (n)` without an extension.
pub open spec fn spec_candidate_name(name: Seq<char>, n: nat) -> Seq<char> {
    let stem = match path_stem(name) {
        Some(s) => s,
        None => name,
    };
    let numbered = stem + seq![' ', '('] + dec_string(n) + seq![')'];
    match path_extension(name) {
        Some(e) => numbered + seq!['.'] + e,
        None => numbered,
    }
}

/// Appends `chars[from..to]` to `s`.
fn push_range(s: &mut String, chars: &[char], from: usize, to: usize)
    requires
        from <= to <= chars@.len(),
    ensures
        final(s)@ == old(s)@ + chars@.subrange(from as int, to as int),
{
    let mut i = from;
    while i < to
        invariant
            from <= i <= to <= chars@.len(),
            s@ == old(s)@ + chars@.subrange(from as int, i as int),
        decreases to - i,
    {
        s.push(chars[i]);
        assert(chars@.subrange(from as int, i + 1) =~= chars@.subrange(from as int, i as int).push(chars@[i as int]));
        i = i + 1;
    }
}

/// The `n`-th alternative name for `name` in a folder where it is taken.
pub fn candidate_name(name: &str, n: u64) -> (r: String)
    ensures
        r@ == spec_candidate_name(name@, n as nat),
{
    let chars = chars_of(name);
    let len = chars.len();
    // Bounds of the stem, and of the extension when there is one.
    let (sa, sb, ext): (usize, usize, Option<(usize, usize)>) = match file_name_range(chars.as_slice()) {
        None => (0, len, None),
        Some((a, b)) => {
            let ghost f = chars@.subrange(a as int, b as int);
            let is_dots = b - a == 2 && chars[a] == '.' && chars[a + 1] == '.';
            proof {
                if f == seq!['.', '.'] {
                    assert(f[0] == '.' && f[1] == '.');
                    assert(f[0] == chars@[a as int] && f[1] == chars@[a + 1]);
                }
                if is_dots {
                    assert(f =~= seq!['.', '.']);
                }
            }
            match last_dot_in(chars.as_slice(), a, b) {
                Some(i) => if i == a || is_dots {
                    (a, b, None)
                } else {
                    assert(f.subrange(0, i - a) =~= chars@.subrange(a as int, i as int));
                    assert(f.subrange(i - a + 1, f.len() as int) =~= chars@.subrange(i + 1, b as int));
                    (a, i, Some((i + 1, b)))
                },
                None => (a, b, None),
            }
        },
    };
    let ghost stem = match path_stem(name@) {
        Some(s) => s,
        None => name@,
    };
    assert(chars@ == name@);
    assert(chars@.subrange(sa as int, sb as int) == stem) by {
        if file_name(name@) is None {
            assert(chars@.subrange(0, len as int) =~= chars@);
        }
    }
    let mut s = String::new();
    push_range(&mut s, chars.as_slice(), sa, sb);
    s.push(' ');
    s.push('(');
    push_decimal(&mut s, n);
    s.push(')');
    assert(match ext {
        Some((e, bb)) => e <= bb <= chars@.len() && path_extension(name@) == Some(chars@.subrange(e as int, bb as int)),
        None => path_extension(name@) is None,
    });
    match ext {
        Some((e, bb)) => {
            s.push('.');
            push_range(&mut s, chars.as_slice(), e, bb);
            assert(s@ =~= stem + seq![' ', '('] + dec_string(n as nat) + seq![')'] + seq!['.'] + chars@.subrange(
                e as int,
                bb as int,
            ));
        },
        None => {
            assert(path_extension(name@) is None);
            assert(s@ =~= stem + seq![' ', '('] + dec_string(n as nat) + seq![')']);
        },
    }
    s
}

/// How many numbered alternatives are tried for a taken name.
pub const MAX_CANDIDATES: u64 = 10000;

/// `taken` answered `answer` when asked about a name made of the
/// characters `name`.
pub open spec fn reported<F: Fn(&str) -> bool>(taken: F, name: Seq<char>, answer: bool) -> bool {
    exists|s: &str| s@ == name && #[trigger] taken.ensures((s,), answer)
}

/// A name under which a received file overwrites nothing. `taken` tells
/// whether a name is already used in the destination folder. The result is
/// `name` itself when it is free; else the first free numbered alternative
/// `stem (n).ext` for `n` from 1 below [`MAX_CANDIDATES`]; else, when all
/// of them are taken, `name` again.
pub fn unique_name<F: Fn(&str) -> bool>(name: &str, taken: F) -> (r: String)
    requires
        forall|s: &str| #[trigger] taken.requires((s,)),
    ensures
        ({
        ||| r@ == name@ && reported(taken, name@, false)
        ||| exists|n: int|
            1 <= n < MAX_CANDIDATES && r@ == #[trigger] spec_candidate_name(name@, n as nat) && reported(taken, name@, true)
                && reported(taken, r@, false) && forall|k: int|
                1 <= k < n ==> #[trigger] reported(taken, spec_candidate_name(name@, k as nat), true)
        ||| r@ == name@ && reported(taken, name@, true) && forall|k: int|
            1 <= k < MAX_CANDIDATES ==> #[trigger] reported(taken, spec_candidate_name(name@, k as nat), true)
        }),
{
    let direct_taken = taken(name);
    assert(reported(taken, name@, direct_taken));
    if !direct_taken {
        return name.to_owned();
    }
    let mut n: u64 = 1;
    while n < MAX_CANDIDATES
        invariant
            1 <= n <= MAX_CANDIDATES,
            forall|s: &str| #[trigger] taken.requires((s,)),
            reported(taken, name@, true),
            forall|k: int| 1 <= k < n ==> #[trigger] reported(taken, spec_candidate_name(name@, k as nat), true),
        decreases MAX_CANDIDATES - n,
    {
        let candidate = candidate_name(name, n);
        let used = taken(candidate.as_str());
        assert(reported(taken, candidate@, used));
        if !used {
            let ghost ni: int = n as int;
            assert(spec_candidate_name(name@, ni as nat) == candidate@);
            assert(1 <= ni < MAX_CANDIDATES && reported(taken, name@, true) && reported(taken, candidate@, false)
                && forall|k: int| 1 <= k < ni ==> #[trigger] reported(taken, spec_candidate_name(name@, k as nat), true));
            return candidate;
        }
        n = n + 1;
    }
    name.to_owned()
}

/// Name of the temporary file that collects transfer `transfer_id` of
/// `name`: `name.<transfer_id>.part`.
pub fn part_file_name(name: &str, transfer_id: u64) -> (r: String)
    ensures
        r@ == name@ + seq!['.'] + dec_string(transfer_id as nat) + seq!['.', 'p', 'a', 'r', 't'],
{
    let chars = chars_of(name);
    let mut s = String::new();
    push_range(&mut s, chars.as_slice(), 0, chars.len());
    assert(chars@.subrange(0, chars@.len() as int) =~= name@);
    s.push('.');
    push_decimal(&mut s, transfer_id);
    s.push('.');
    s.push('p');
    s.push('a');
    s.push('r');
    s.push('t');
    assert(s@ =~= name@ + seq!['.'] + dec_string(transfer_id as nat) + seq!['.', 'p', 'a', 'r', 't']);
    s
}

// ---------------------------------------------------------------------
// Media types

pub open spec fn ascii_lower(c: char) -> char {
    if 'A' <= c <= 'Z' {
        ((c as u32) + 32) as char
    } else {
        c
    }
}

/// Extension of the final component of `path`, if any.
pub open spec fn path_extension(path: Seq<char>) -> Option<Seq<char>> {
    match file_name(path) {
        Some(f) => ext_of_file(f),
        None => None,
    }
}

/// Media type guessed from an extension (compared without regard to ASCII
/// case); `application/octet-stream` when it is unknown or missing.
pub open spec fn mime_for(ext: Option<Seq<char>>) -> Seq<char> {
    match ext {
        None => "application/octet-stream"@,
        Some(e) => {
            let l = e.map_values(|c: char| ascii_lower(c));
            if l == seq!['p', 'n', 'g'] {
                "image/png"@
            } else if l == seq!['j', 'p', 'g'] || l == seq!['j', 'p', 'e', 'g'] {
                "image/jpeg"@
            } else if l == seq!['g', 'i', 'f'] {
                "image/gif"@
            } else if l == seq!['w', 'e', 'b', 'p'] {
                "image/webp"@
            } else if l == seq!['s', 'v', 'g'] {
                "image/svg+xml"@
            } else if l == seq!['p', 'd', 'f'] {
                "application/pdf"@
            } else if l == seq!['m', 'p', '4'] {
                "video/mp4"@
            } else if l == seq!['m', 'k', 'v'] {
                "video/x-matroska"@
            } else if l == seq!['w', 'e', 'b', 'm'] {
                "video/webm"@
            } else if l == seq!['m', 'o', 'v'] {
                "video/quicktime"@
            } else if l == seq!['m', 'p', '3'] {
                "audio/mpeg"@
            } else if l == seq!['f', 'l', 'a', 'c'] {
                "audio/flac"@
            } else if l == seq!['w', 'a', 'v'] {
                "audio/wav"@
            } else if l == seq!['o', 'g', 'g'] {
                "audio/ogg"@
            } else if l == seq!['t', 'x', 't'] || l == seq!['m', 'd'] {
                "text/plain"@
            } else if l == seq!['z', 'i', 'p'] {
                "application/zip"@
            } else {
                "application/octet-stream"@
            }
        },
    }
}

/// `c` in upper case when it is a lower-case ASCII letter.
pub open spec fn ascii_upper(c: char) -> char {
    if 'a' <= c <= 'z' {
        ((c as u32) - 32) as char
    } else {
        c
    }
}

/// `ext` spells `word` (written in lower-case letters and digits) in any
/// mix of ASCII cases.
pub open spec fn spelled(ext: Seq<char>, word: Seq<char>) -> bool {
    &&& ext.len() == word.len()
    &&& forall|i: int| 0 <= i < ext.len() ==> ext[i] == word[i] || ext[i] == ascii_upper(word[i])
}

proof fn lemma_spelled_lower(ext: Seq<char>, word: Seq<char>)
    requires
        spelled(ext, word),
        forall|i: int| 0 <= i < word.len() ==> ('a' <= #[trigger] word[i] <= 'z' || '0' <= word[i] <= '9'),
    ensures
        ext.map_values(|c: char| ascii_lower(c)) == word,
{
    assert(ext.map_values(|c: char| ascii_lower(c)) =~= word);
}

/// The media type offered for a file follows its extension in any letter
/// case: `jpg`, `JPG` or `Jpeg` are `image/jpeg`, `png` is `image/png`, and
/// so on through the table of known types; a file without an extension is
/// `application/octet-stream`.
#[verifier::rlimit(50)]
pub proof fn lemma_mime_by_extension(ext: Seq<char>)
    ensures
        spelled(ext, seq!['p', 'n', 'g']) ==> mime_for(Some(ext)) == "image/png"@,
        spelled(ext, seq!['j', 'p', 'g']) ==> mime_for(Some(ext)) == "image/jpeg"@,
        spelled(ext, seq!['j', 'p', 'e', 'g']) ==> mime_for(Some(ext)) == "image/jpeg"@,
        spelled(ext, seq!['g', 'i', 'f']) ==> mime_for(Some(ext)) == "image/gif"@,
        spelled(ext, seq!['w', 'e', 'b', 'p']) ==> mime_for(Some(ext)) == "image/webp"@,
        spelled(ext, seq!['s', 'v', 'g']) ==> mime_for(Some(ext)) == "image/svg+xml"@,
        spelled(ext, seq!['p', 'd', 'f']) ==> mime_for(Some(ext)) == "application/pdf"@,
        spelled(ext, seq!['m', 'p', '4']) ==> mime_for(Some(ext)) == "video/mp4"@,
        spelled(ext, seq!['m', 'k', 'v']) ==> mime_for(Some(ext)) == "video/x-matroska"@,
        spelled(ext, seq!['w', 'e', 'b', 'm']) ==> mime_for(Some(ext)) == "video/webm"@,
        spelled(ext, seq!['m', 'o', 'v']) ==> mime_for(Some(ext)) == "video/quicktime"@,
        spelled(ext, seq!['m', 'p', '3']) ==> mime_for(Some(ext)) == "audio/mpeg"@,
        spelled(ext, seq!['f', 'l', 'a', 'c']) ==> mime_for(Some(ext)) == "audio/flac"@,
        spelled(ext, seq!['w', 'a', 'v']) ==> mime_for(Some(ext)) == "audio/wav"@,
        spelled(ext, seq!['o', 'g', 'g']) ==> mime_for(Some(ext)) == "audio/ogg"@,
        spelled(ext, seq!['t', 'x', 't']) ==> mime_for(Some(ext)) == "text/plain"@,
        spelled(ext, seq!['m', 'd']) ==> mime_for(Some(ext)) == "text/plain"@,
        spelled(ext, seq!['z', 'i', 'p']) ==> mime_for(Some(ext)) == "application/zip"@,
        mime_for(None) == "application/octet-stream"@,
{
    if spelled(ext, seq!['p', 'n', 'g']) {
        assert(mime_for(Some(ext)) == "image/png"@) by {
            lemma_spelled_lower(ext, seq!['p', 'n', 'g']);
        }
    }
    if spelled(ext, seq!['j', 'p', 'g']) {
        assert(mime_for(Some(ext)) == "image/jpeg"@) by {
            lemma_spelled_lower(ext, seq!['j', 'p', 'g']);
        }
    }
    if spelled(ext, seq!['j', 'p', 'e', 'g']) {
        assert(mime_for(Some(ext)) == "image/jpeg"@) by {
            lemma_spelled_lower(ext, seq!['j', 'p', 'e', 'g']);
        }
    }
    if spelled(ext, seq!['g', 'i', 'f']) {
        assert(mime_for(Some(ext)) == "image/gif"@) by {
            lemma_spelled_lower(ext, seq!['g', 'i', 'f']);
        }
    }
    if spelled(ext, seq!['w', 'e', 'b', 'p']) {
        assert(mime_for(Some(ext)) == "image/webp"@) by {
            lemma_spelled_lower(ext, seq!['w', 'e', 'b', 'p']);
        }
    }
    if spelled(ext, seq!['s', 'v', 'g']) {
        assert(mime_for(Some(ext)) == "image/svg+xml"@) by {
            lemma_spelled_lower(ext, seq!['s', 'v', 'g']);
        }
    }
    if spelled(ext, seq!['p', 'd', 'f']) {
        assert(mime_for(Some(ext)) == "application/pdf"@) by {
            lemma_spelled_lower(ext, seq!['p', 'd', 'f']);
        }
    }
    if spelled(ext, seq!['m', 'p', '4']) {
        assert(mime_for(Some(ext)) == "video/mp4"@) by {
            lemma_spelled_lower(ext, seq!['m', 'p', '4']);
        }
    }
    if spelled(ext, seq!['m', 'k', 'v']) {
        assert(mime_for(Some(ext)) == "video/x-matroska"@) by {
            lemma_spelled_lower(ext, seq!['m', 'k', 'v']);
        }
    }
    if spelled(ext, seq!['w', 'e', 'b', 'm']) {
        assert(mime_for(Some(ext)) == "video/webm"@) by {
            lemma_spelled_lower(ext, seq!['w', 'e', 'b', 'm']);
        }
    }
    if spelled(ext, seq!['m', 'o', 'v']) {
        assert(mime_for(Some(ext)) == "video/quicktime"@) by {
            lemma_spelled_lower(ext, seq!['m', 'o', 'v']);
        }
    }
    if spelled(ext, seq!['m', 'p', '3']) {
        assert(mime_for(Some(ext)) == "audio/mpeg"@) by {
            lemma_spelled_lower(ext, seq!['m', 'p', '3']);
        }
    }
    if spelled(ext, seq!['f', 'l', 'a', 'c']) {
        assert(mime_for(Some(ext)) == "audio/flac"@) by {
            lemma_spelled_lower(ext, seq!['f', 'l', 'a', 'c']);
        }
    }
    if spelled(ext, seq!['w', 'a', 'v']) {
        assert(mime_for(Some(ext)) == "audio/wav"@) by {
            lemma_spelled_lower(ext, seq!['w', 'a', 'v']);
        }
    }
    if spelled(ext, seq!['o', 'g', 'g']) {
        assert(mime_for(Some(ext)) == "audio/ogg"@) by {
            lemma_spelled_lower(ext, seq!['o', 'g', 'g']);
        }
    }
    if spelled(ext, seq!['t', 'x', 't']) {
        assert(mime_for(Some(ext)) == "text/plain"@) by {
            lemma_spelled_lower(ext, seq!['t', 'x', 't']);
        }
    }
    if spelled(ext, seq!['m', 'd']) {
        assert(mime_for(Some(ext)) == "text/plain"@) by {
            lemma_spelled_lower(ext, seq!['m', 'd']);
        }
    }
    if spelled(ext, seq!['z', 'i', 'p']) {
        assert(mime_for(Some(ext)) == "application/zip"@) by {
            lemma_spelled_lower(ext, seq!['z', 'i', 'p']);
        }
    }
}

fn lower_char(c: char) -> (r: char)
    ensures
        r == ascii_lower(c),
{
    if 'A' <= c && c <= 'Z' {
        ((c as u8) + 32) as char
    } else {
        c
    }
}

/// Whether `l` is exactly the characters of `lit`.
fn chars_eq(l: &Vec<char>, lit: &[char]) -> (r: bool)
    ensures
        r == (l@ == lit@),
{
    if l.len() != lit.len() {
        return false;
    }
    let mut i: usize = 0;
    while i < l.len()
        invariant
            0 <= i <= l@.len(),
            l@.len() == lit@.len(),
            forall|j: int| 0 <= j < i ==> l@[j] == lit@[j],
        decreases l@.len() - i,
    {
        if l[i] != lit[i] {
            assert(l@[i as int] != lit@[i as int]);
            return false;
        }
        i = i + 1;
    }
    assert(l@ =~= lit@);
    true
}

/// Guesses a media type from the extension of `path`.
pub fn mime_from_ext(path: &str) -> (r: String)
    ensures
        r@ == mime_for(path_extension(path@)),
{
    let chars = chars_of(path);
    let (a, b) = match file_name_range(chars.as_slice()) {
        Some(ab) => ab,
        None => return "application/octet-stream".to_owned(),
    };
    let ghost f = chars@.subrange(a as int, b as int);
    let is_dots = b - a == 2 && chars[a] == '.' && chars[a + 1] == '.';
    proof {
        if f == seq!['.', '.'] {
            assert(f[0] == chars@[a as int] && f[1] == chars@[a + 1]);
        }
        if is_dots {
            assert(f =~= seq!['.', '.']);
        }
    }
    let d = last_dot_in(chars.as_slice(), a, b);
    let e = match d {
        Some(i) => {
            if i == a || is_dots {
                return "application/octet-stream".to_owned();
            }
            i + 1
        },
        None => return "application/octet-stream".to_owned(),
    };
    let mut l: Vec<char> = Vec::new();
    let mut i = e;
    while i < b
        invariant
            e <= i <= b <= chars@.len(),
            l@ == chars@.subrange(e as int, i as int).map_values(|c: char| ascii_lower(c)),
        decreases b - i,
    {
        l.push(lower_char(chars[i]));
        assert(chars@.subrange(e as int, i + 1).map_values(|c: char| ascii_lower(c)) =~= chars@.subrange(
            e as int,
            i as int,
        ).map_values(|c: char| ascii_lower(c)).push(ascii_lower(chars@[i as int])));
        i = i + 1;
    }
    assert(f.subrange(e - a, f.len() as int) =~= chars@.subrange(e as int, b as int));
    if chars_eq(&l, &['p', 'n', 'g']) {
        "image/png".to_owned()
    } else if chars_eq(&l, &['j', 'p', 'g']) || chars_eq(&l, &['j', 'p', 'e', 'g']) {
        "image/jpeg".to_owned()
    } else if chars_eq(&l, &['g', 'i', 'f']) {
        "image/gif".to_owned()
    } else if chars_eq(&l, &['w', 'e', 'b', 'p']) {
        "image/webp".to_owned()
    } else if chars_eq(&l, &['s', 'v', 'g']) {
        "image/svg+xml".to_owned()
    } else if chars_eq(&l, &['p', 'd', 'f']) {
        "application/pdf".to_owned()
    } else if chars_eq(&l, &['m', 'p', '4']) {
        "video/mp4".to_owned()
    } else if chars_eq(&l, &['m', 'k', 'v']) {
        "video/x-matroska".to_owned()
    } else if chars_eq(&l, &['w', 'e', 'b', 'm']) {
        "video/webm".to_owned()
    } else if chars_eq(&l, &['m', 'o', 'v']) {
        "video/quicktime".to_owned()
    } else if chars_eq(&l, &['m', 'p', '3']) {
        "audio/mpeg".to_owned()
    } else if chars_eq(&l, &['f', 'l', 'a', 'c']) {
        "audio/flac".to_owned()
    } else if chars_eq(&l, &['w', 'a', 'v']) {
        "audio/wav".to_owned()
    } else if chars_eq(&l, &['o', 'g', 'g']) {
        "audio/ogg".to_owned()
    } else if chars_eq(&l, &['t', 'x', 't']) || chars_eq(&l, &['m', 'd']) {
        "text/plain".to_owned()
    } else if chars_eq(&l, &['z', 'i', 'p']) {
        "application/zip".to_owned()
    } else {
        "application/octet-stream".to_owned()
    }
}

// ---------------------------------------------------------------------
// Sending side

/// Announces a transfer.
pub struct FileOffer {
    pub transfer_id: u64,
    pub name: String,
    pub total_size: u64,
    pub mime: String,
}

/// Messages of a transfer: an offer, chunks, then an end (or an abort when
/// reading fails half-way).
pub enum FileMessage {
    Offer(FileOffer),
    Chunk { transfer_id: u64, data: Vec<u8> },
    End { transfer_id: u64 },
    Abort { transfer_id: u64, reason: String },
}

/// The offer for sending the file at `path` as transfer `transfer_id`:
/// its final component as name (the fallback name when it has none) and
/// the media type guessed from its extension.
pub fn file_offer(path: &str, transfer_id: u64, total_size: u64) -> (o: FileOffer)
    ensures
        o.transfer_id == transfer_id,
        o.total_size == total_size,
        o.name@ == (match file_name(path@) {
            Some(f) => f,
            None => fallback_name(),
        }),
        o.mime@ == mime_for(path_extension(path@)),
{
    let chars = chars_of(path);
    let name = match file_name_range(chars.as_slice()) {
        Some((a, b)) => string_from(chars.as_slice(), a, b),
        None => fallback_string(),
    };
    FileOffer { transfer_id, name, total_size, mime: mime_from_ext(path) }
}

/// The message that follows one read of the file being sent, and whether
/// to read again: data read becomes a chunk, an empty read ends the
/// transfer and a failed read aborts it.
pub fn after_read(transfer_id: u64, read: Result<Vec<u8>, String>) -> (r: (FileMessage, bool))
    ensures
        match read {
            Ok(data) => if data@.len() == 0 {
                r.0 matches FileMessage::End { transfer_id: t } && t == transfer_id && !r.1
            } else {
                r.0 matches FileMessage::Chunk { transfer_id: t, data: d } && t == transfer_id && d@ == data@ && r.1
            },
            Err(reason) => r.0 matches FileMessage::Abort { transfer_id: t, reason: why } && t == transfer_id
                && why@ == reason@ && !r.1,
        },
{
    match read {
        Ok(data) => if data.len() == 0 {
            (FileMessage::End { transfer_id }, false)
        } else {
            (FileMessage::Chunk { transfer_id, data }, true)
        },
        Err(reason) => (FileMessage::Abort { transfer_id, reason }, false),
    }
}

// ---------------------------------------------------------------------
// Receiving side

/// An incoming transfer not yet complete.
pub struct Partial {
    pub transfer_id: u64,
    /// Temporary file collecting the chunks.
    pub part_name: String,
    /// Name the file gets once complete.
    pub final_name: String,
    pub received: u64,
    /// Size announced by the sender (0 when unknown).
    pub total: u64,
}

impl Partial {
    /// The received size differs from a known announced size.
    pub fn size_mismatch(&self) -> (r: bool)
        ensures
            r == (self.total != 0 && self.received != self.total),
    {
        self.total != 0 && self.received != self.total
    }
}

/// Bookkeeping of the incoming transfers in progress, keyed by transfer
/// id; the files themselves are held by the caller.
pub struct IncomingFiles {
    active: HashMap<u64, Partial>,
}

impl IncomingFiles {
    /// Each transfer is filed under its own id.
    pub closed spec fn wf(&self) -> bool {
        forall|id: u64| #[trigger] self.active@.contains_key(id) ==> self.active@[id].transfer_id == id
    }

    /// Transfers in progress by id.
    pub closed spec fn transfers(&self) -> Map<u64, Partial> {
        self.active@
    }

    pub fn new() -> (r: IncomingFiles)
        ensures
            r.wf(),
            r.transfers() == Map::<u64, Partial>::empty(),
    {
        IncomingFiles { active: HashMap::new() }
    }

    /// Takes transfer `transfer_id` out of the book, if it is there.
    pub fn take(&mut self, transfer_id: u64) -> (r: Option<Partial>)
        requires
            old(self).wf(),
        ensures
            final(self).wf(),
            final(self).transfers() == old(self).transfers().remove(transfer_id),
            match r {
                Some(p) => old(self).transfers().contains_key(transfer_id) && p == old(self).transfers()[transfer_id],
                None => !old(self).transfers().contains_key(transfer_id),
            },
    {
        self.active.remove(&transfer_id)
    }

    /// Starts collecting transfer `transfer_id` (replacing any earlier one
    /// with the same id).
    pub fn register(&mut self, transfer_id: u64, final_name: String, part_name: String, total: u64)
        requires
            old(self).wf(),
        ensures
            final(self).wf(),
            final(self).transfers() == old(self).transfers().insert(
                transfer_id,
                (Partial { transfer_id, part_name, final_name, received: 0, total }),
            ),
    {
        let _ = self.active.insert(transfer_id, Partial { transfer_id, part_name, final_name, received: 0, total });
    }

    /// Whether transfer `transfer_id` is being collected.
    pub fn is_active(&self, transfer_id: u64) -> (r: bool)
        ensures
            r == self.transfers().contains_key(transfer_id),
    {
        self.active.contains_key(&transfer_id)
    }

    /// Bytes counted so far for transfer `transfer_id`, if it is in
    /// progress.
    pub fn received(&self, transfer_id: u64) -> (r: Option<u64>)
        ensures
            r == (if self.transfers().contains_key(transfer_id) {
                Some(self.transfers()[transfer_id].received)
            } else {
                None
            }),
    {
        match self.active.get(&transfer_id) {
            Some(p) => Some(p.received),
            None => None,
        }
    }

    /// Counts `len` more bytes written for transfer `transfer_id`.
    pub fn add_received(&mut self, transfer_id: u64, len: u64)
        requires
            old(self).wf(),
            old(self).transfers().contains_key(transfer_id) ==> old(self).transfers()[transfer_id].received + len <= u64::MAX,
        ensures
            final(self).wf(),
            !old(self).transfers().contains_key(transfer_id) ==> final(self).transfers() == old(self).transfers(),
            old(self).transfers().contains_key(transfer_id) ==> final(self).transfers() == old(self).transfers().insert(
                transfer_id,
                (Partial { received: (old(self).transfers()[transfer_id].received + len) as u64, ..old(self).transfers()[transfer_id] }),
            ),
    {
        match self.active.remove(&transfer_id) {
            Some(p) => {
                let received = p.received + len;
                let _ = self.active.insert(transfer_id, Partial { received, ..p });
                assert(old(self).transfers().remove(transfer_id).insert(transfer_id, Partial { received, ..p })
                    =~= old(self).transfers().insert(transfer_id, Partial { received, ..p }));
            },
            None => {
                assert(old(self).transfers().remove(transfer_id) =~= old(self).transfers());
            },
        }
    }

    /// Accounts for a chunk of `len` bytes of transfer `transfer_id` after
    /// the caller tried to write it. A written chunk of a transfer in
    /// progress is counted; a failed write drops the transfer and hands it
    /// back, so that its temporary file can be removed. A chunk of an
    /// unknown transfer changes nothing.
    pub fn on_chunk(&mut self, transfer_id: u64, len: u64, written: bool) -> (dropped: Option<Partial>)
        requires
            old(self).wf(),
            written && old(self).transfers().contains_key(transfer_id) ==> old(self).transfers()[transfer_id].received + len
                <= u64::MAX,
        ensures
            final(self).wf(),
            !old(self).transfers().contains_key(transfer_id) ==> final(self).transfers() == old(self).transfers()
                && dropped is None,
            old(self).transfers().contains_key(transfer_id) && written ==> dropped is None && final(self).transfers()
                == old(self).transfers().insert(
                transfer_id,
                (Partial { received: (old(self).transfers()[transfer_id].received + len) as u64, ..old(self).transfers()[transfer_id] }),
            ),
            old(self).transfers().contains_key(transfer_id) && !written ==> dropped == Some(old(self).transfers()[transfer_id])
                && final(self).transfers() == old(self).transfers().remove(transfer_id),
    {
        if written {
            self.add_received(transfer_id, len);
            None
        } else {
            let r = self.take(transfer_id);
            if r.is_none() {
                assert(old(self).transfers().remove(transfer_id) =~= old(self).transfers());
            }
            r
        }
    }

    /// Takes every transfer out of the book, when the session ends: their
    /// temporary files are to be removed. Each comes out exactly once.
    pub fn abort_all(&mut self) -> (out: Vec<Partial>)
        requires
            old(self).wf(),
        ensures
            final(self).wf(),
            final(self).transfers() == Map::<u64, Partial>::empty(),
            forall|i: int| 0 <= i < out@.len() ==> old(self).transfers().contains_key((#[trigger] out@[i]).transfer_id)
                && old(self).transfers()[out@[i].transfer_id] == out@[i],
            forall|id: u64| #[trigger] old(self).transfers().contains_key(id) ==> exists|i: int| 0 <= i < out@.len() && out@[i].transfer_id == id,
            forall|i: int, j: int| 0 <= i < j < out@.len() ==> (#[trigger] out@[i]).transfer_id != (#[trigger] out@[j]).transfer_id,
    {
        let mut ids: Vec<u64> = Vec::new();
        for k in it: self.active.keys()
            invariant
                ids@.len() == it.index(),
                forall|j: int| 0 <= j < it.index() ==> ids@[j] == *it.seq()[j],
                it.seq().unref().to_set() == self.active@.dom(),
                forall|j: int| 0 <= j < ids@.len() ==> #[trigger] self.active@.contains_key(ids@[j]),
        {
            assert(it.seq().unref()[it.index() as int] == *k);
            assert(it.seq().unref().to_set().contains(*k));
            ids.push(*k);
        }
        assert(ids@.len() == self.active@.dom().len());
        assert(ids@.no_duplicates());
        assert(forall|k: u64| #[trigger] self.active@.contains_key(k) ==> ids@.contains(k));
        let ghost start = self.active@;
        assert(start == old(self).transfers());
        let mut out: Vec<Partial> = Vec::new();
        let mut i: usize = 0;
        while i < ids.len()
            invariant
                0 <= i <= ids@.len(),
                ids@.no_duplicates(),
                forall|k: u64| #[trigger] start.contains_key(k) ==> ids@.contains(k),
                forall|j: int| 0 <= j < ids@.len() ==> #[trigger] start.contains_key(ids@[j]),
                forall|id: u64| #[trigger] start.contains_key(id) ==> start[id].transfer_id == id,
                out@.len() == i,
                forall|j: int| 0 <= j < i ==> #[trigger] out@[j] == start[ids@[j]],
                self.active@ == start.remove_keys(ids@.take(i as int).to_set()),
            decreases ids@.len() - i,
        {
            let id = ids[i];
            let ghost before = self.active@;
            assert(!ids@.take(i as int).to_set().contains(id)) by {
                if ids@.take(i as int).to_set().contains(id) {
                    let j = choose|j: int| 0 <= j < i && ids@.take(i as int)[j] == id;
                    assert(ids@[j] == ids@[i as int]);
                }
            }
            assert(before.contains_key(id));
            let taken = self.active.remove(&id);
            match taken {
                Some(p) => {
                    out.push(p);
                },
                None => {
                    assert(false);
                },
            }
            assert(ids@.take(i + 1).to_set() =~= ids@.take(i as int).to_set().insert(id)) by {
                let t1 = ids@.take(i + 1);
                let t0 = ids@.take(i as int);
                assert forall|x: u64| #[trigger] t1.to_set().contains(x) == t0.to_set().insert(id).contains(x) by {
                    if t1.contains(x) {
                        let j = choose|j: int| 0 <= j < t1.len() && t1[j] == x;
                        if j < i {
                            assert(t0[j] == x);
                        }
                    }
                    if t0.contains(x) {
                        let j = choose|j: int| 0 <= j < t0.len() && t0[j] == x;
                        assert(t1[j] == x);
                    }
                    if x == id {
                        assert(t1[i as int] == x);
                    }
                }
            }
            assert(self.active@ =~= start.remove_keys(ids@.take(i + 1).to_set()));
            i = i + 1;
        }
        assert(ids@.take(ids@.len() as int) =~= ids@);
        assert(self.active@ =~= Map::<u64, Partial>::empty()) by {
            assert forall|k: u64| !#[trigger] self.active@.contains_key(k) by {
                if start.contains_key(k) {
                    assert(ids@.contains(k));
                    assert(ids@.to_set().contains(k));
                }
            }
        }
        assert forall|id: u64| #[trigger] old(self).transfers().contains_key(id) implies exists|k: int|
            0 <= k < out@.len() && out@[k].transfer_id == id by {
            assert(ids@.contains(id));
            let k = choose|k: int| 0 <= k < ids@.len() && ids@[k] == id;
            assert(out@[k] == start[ids@[k]]);
        }
        assert forall|a: int, b: int| 0 <= a < b < out@.len() implies (#[trigger] out@[a]).transfer_id
            != (#[trigger] out@[b]).transfer_id by {
            assert(out@[a] == start[ids@[a]]);
            assert(out@[b] == start[ids@[b]]);
            assert(start.contains_key(ids@[a]) && start.contains_key(ids@[b]));
            assert(ids@[a] != ids@[b]);
        }
        assert forall|k: int| 0 <= k < out@.len() implies old(self).transfers().contains_key((#[trigger] out@[k]).transfer_id)
            && old(self).transfers()[out@[k].transfer_id] == out@[k] by {
            assert(out@[k] == start[ids@[k]]);
            assert(start.contains_key(ids@[k]));
        }
        out
    }
}

} // verus!
