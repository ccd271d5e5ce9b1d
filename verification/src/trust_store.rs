use vstd::prelude::*;

use crate::crypto::{Fingerprint, FingerprintList, TrustStore};
use crate::hex::{decode_hex, decode_hex_range, encode_hex, is_lower_hex_char, lemma_encode_hex_chars, lemma_encode_hex_shape, lemma_hex_round_trip};
use crate::text::{chars_of, is_ws, lemma_line_end_bounds, lemma_trim_unchanged, line_at, line_bounds, line_end, line_end_exec, spec_trim, strip_cr, trim_bounds};

verus! {

broadcast use vstd::array::group_array_axioms;

/// The fingerprint written on a line of the trust file: 64 hexadecimal
/// characters, surrounding whitespace ignored.
pub open spec fn parse_fingerprint_line(line: Seq<char>) -> Option<Seq<u8>> {
    decode_hex(spec_trim(line), 32)
}

/// Fingerprints listed in `s` on the lines starting at `i` and after;
/// lines that hold none are skipped.
pub open spec fn listed_set(s: Seq<char>, i: int) -> Set<Seq<u8>>
    decreases s.len() - i,
{
    if i < 0 || i > s.len() {
        Set::empty()
    } else {
        let e = line_end(s, i);
        let rest = if e < s.len() {
            proof {
                lemma_line_end_bounds(s, i);
            }
            listed_set(s, e + 1)
        } else {
            Set::empty()
        };
        match parse_fingerprint_line(line_at(s, i)) {
            Some(b) => rest.insert(b),
            None => rest,
        }
    }
}

/// The fingerprints in hexadecimal, one per line, without a final line
/// feed.
pub open spec fn joined(items: Seq<Seq<u8>>) -> Seq<char>
    decreases items.len(),
{
    if items.len() == 0 {
        Seq::empty()
    } else if items.len() == 1 {
        encode_hex(items[0])
    } else {
        joined(items.drop_last()) + seq!['\n'] + encode_hex(items.last())
    }
}

proof fn lemma_line_end_no_newline(s: Seq<char>, j: int)
    requires
        0 <= j <= s.len(),
        forall|k: int| j <= k < s.len() ==> s[k] != '\n',
    ensures
        line_end(s, j) == s.len(),
    decreases s.len() - j,
{
    if j < s.len() {
        lemma_line_end_no_newline(s, j + 1);
    }
}

proof fn lemma_line_end_prefix(p: Seq<char>, q: Seq<char>, j: int)
    requires
        0 <= j <= p.len(),
    ensures
        line_end(p + seq!['\n'] + q, j) == line_end(p, j),
    decreases p.len() - j,
{
    let s = p + seq!['\n'] + q;
    if j < p.len() {
        assert(s[j] == p[j]);
        lemma_line_end_prefix(p, q, j + 1);
    } else {
        assert(s[j] == '\n');
    }
}

/// Lines of `p` keep their meaning when a line feed and one more line `q`
/// are appended.
proof fn lemma_listed_append(p: Seq<char>, q: Seq<char>, i: int)
    requires
        0 <= i <= p.len(),
        p.len() > 0 ==> p.last() != '\r',
        forall|k: int| 0 <= k < q.len() ==> q[k] != '\n',
    ensures
        listed_set(p + seq!['\n'] + q, i) == listed_set(p, i).union(listed_set(q, 0)),
    decreases p.len() - i,
{
    let s = p + seq!['\n'] + q;
    lemma_line_end_bounds(p, i);
    lemma_line_end_prefix(p, q, i);
    let e = line_end(p, i);
    lemma_line_end_no_newline(q, 0);
    assert(line_at(q, 0) =~= q);
    if e < p.len() {
        assert(s.subrange(i, e) =~= p.subrange(i, e));
        assert(line_at(s, i) == line_at(p, i));
        lemma_listed_append(p, q, e + 1);
    } else {
        assert(s.subrange(i, e) =~= p.subrange(i, e));
        assert(line_at(p, i) =~= p.subrange(i, p.len() as int));
        if i < p.len() {
            assert(p.subrange(i, p.len() as int).last() == p.last());
        }
        assert(strip_cr(p.subrange(i, e)) == p.subrange(i, e));
        assert(line_at(s, i) == line_at(p, i));
        let j: int = p.len() as int + 1;
        assert forall|k: int| j <= k < s.len() implies s[k] != '\n' by {
            assert(s[k] == q[k - j]);
        }
        lemma_line_end_no_newline(s, j);
        assert(line_at(s, j) =~= q);
        assert(listed_set(s, j) == listed_set(q, 0));
    }
    assert(listed_set(s, i) =~= listed_set(p, i).union(listed_set(q, 0)));
}

proof fn lemma_joined_chars(items: Seq<Seq<u8>>)
    ensures
        forall|k: int| 0 <= k < joined(items).len() ==> (#[trigger] joined(items)[k]) == '\n'
            || is_lower_hex_char(joined(items)[k]),
        items.len() > 0 && items.last().len() > 0 ==> joined(items).len() > 0 && is_lower_hex_char(joined(items).last()),
    decreases items.len(),
{
    if items.len() == 1 {
        lemma_encode_hex_chars(items[0]);
        lemma_encode_hex_shape(items[0]);
    } else if items.len() > 1 {
        lemma_joined_chars(items.drop_last());
        lemma_encode_hex_chars(items.last());
        lemma_encode_hex_shape(items.last());
        let p = joined(items.drop_last());
        let h = encode_hex(items.last());
        assert forall|k: int| 0 <= k < joined(items).len() implies (#[trigger] joined(items)[k]) == '\n'
            || is_lower_hex_char(joined(items)[k]) by {
            if k < p.len() {
                assert(joined(items)[k] == p[k]);
            } else if k > p.len() {
                assert(joined(items)[k] == h[k - p.len() - 1]);
            }
        }
        if items.last().len() > 0 {
            assert(joined(items).last() == h.last());
        }
    }
}

proof fn lemma_listed_single(b: Seq<u8>)
    requires
        b.len() == 32,
    ensures
        listed_set(encode_hex(b), 0) == set![b],
{
    let h = encode_hex(b);
    lemma_encode_hex_chars(b);
    lemma_encode_hex_shape(b);
    lemma_hex_round_trip(b);
    lemma_line_end_no_newline(h, 0);
    assert(line_at(h, 0) =~= h);
    assert(is_lower_hex_char(h[0]) && is_lower_hex_char(h[h.len() - 1]));
    lemma_trim_unchanged(h);
    assert(listed_set(h, 0) =~= set![b]);
}

/// Reading back the text that [`FileTrustStore::to_file_contents`] writes
/// gives exactly the fingerprints that were written.
pub proof fn lemma_joined_round_trip(items: Seq<Seq<u8>>)
    requires
        forall|i: int| 0 <= i < items.len() ==> (#[trigger] items[i]).len() == 32,
    ensures
        listed_set(joined(items), 0) == items.to_set(),
    decreases items.len(),
{
    if items.len() == 0 {
        assert(line_at(Seq::<char>::empty(), 0) =~= Seq::<char>::empty());
        assert(spec_trim(Seq::<char>::empty()) =~= Seq::<char>::empty());
        assert(listed_set(joined(items), 0) =~= Set::<Seq<u8>>::empty());
        assert(items.to_set() =~= Set::<Seq<u8>>::empty());
    } else if items.len() == 1 {
        lemma_listed_single(items[0]);
        assert(items.to_set() =~= set![items[0]]);
    } else {
        let init = items.drop_last();
        let last = items.last();
        assert forall|i: int| 0 <= i < init.len() implies (#[trigger] init[i]).len() == 32 by {
            assert(init[i] == items[i]);
        }
        lemma_joined_round_trip(init);
        lemma_joined_chars(init);
        assert(init.last() == items[items.len() - 2]);
        lemma_encode_hex_chars(last);
        assert forall|k: int| 0 <= k < encode_hex(last).len() implies encode_hex(last)[k] != '\n' by {
            assert(is_lower_hex_char(encode_hex(last)[k]));
        }
        lemma_listed_append(joined(init), encode_hex(last), 0);
        lemma_listed_single(last);
        assert(items.to_set() =~= init.to_set().insert(last)) by {
            assert forall|x: Seq<u8>| items.to_set().contains(x) <==> init.to_set().contains(x) || x == last by {
                if items.to_set().contains(x) {
                    let i = choose|i: int| 0 <= i < items.len() && items[i] == x;
                    if i < init.len() {
                        assert(init[i] == x);
                    }
                }
                if init.to_set().contains(x) {
                    let i = choose|i: int| 0 <= i < init.len() && init[i] == x;
                    assert(items[i] == x);
                }
                if x == last {
                    assert(items[items.len() - 1] == x);
                }
            }
        }
        assert(listed_set(joined(items), 0) =~= items.to_set());
    }
}

/// A store written out and read back trusts exactly the same fingerprints.
pub proof fn lemma_store_round_trip(store: &FileTrustStore)
    ensures
        listed_set(joined(store.entries()), 0) == store.trusted(),
{
    store.lemma_entries();
    lemma_joined_round_trip(store.entries());
}

/// Reads the fingerprint on `chars[from..to]`.
fn parse_fingerprint_range(chars: &[char], from: usize, to: usize) -> (r: Option<Fingerprint>)
    requires
        from <= to <= chars@.len(),
    ensures
        match parse_fingerprint_line(chars@.subrange(from as int, to as int)) {
            Some(b) => r matches Some(f) && f@ == b,
            None => r is None,
        },
{
    let (a, b) = trim_bounds(chars, from, to);
    match decode_hex_range(chars, a, b, 32) {
        Some(v) => {
            let mut bytes = [0u8; 32];
            let mut i: usize = 0;
            while i < 32
                invariant
                    0 <= i <= 32,
                    v@.len() == 32,
                    forall|j: int| 0 <= j < i ==> bytes@[j] == v@[j],
                decreases 32 - i,
            {
                bytes[i] = v[i];
                i = i + 1;
            }
            assert(bytes@ =~= v@);
            Some(Fingerprint::from_bytes(bytes))
        },
        None => None,
    }
}

/// Reads a fingerprint written as 64 hexadecimal characters, ignoring
/// surrounding whitespace; `None` for anything else.
pub fn parse_hex_fingerprint(line: &str) -> (r: Option<Fingerprint>)
    ensures
        match parse_fingerprint_line(line@) {
            Some(b) => r matches Some(f) && f@ == b,
            None => r is None,
        },
{
    let chars = chars_of(line);
    assert(chars@.subrange(0, chars@.len() as int) =~= line@);
    parse_fingerprint_range(chars.as_slice(), 0, chars.len())
}

/// Trust store persisted as a text file, one hexadecimal fingerprint per
/// line. This type holds the contents; the file is read and written by
/// its owner.
pub struct FileTrustStore {
    trusted: FingerprintList,
}

impl FileTrustStore {
    /// The fingerprints in the order they will be written.
    pub closed spec fn entries(&self) -> Seq<Seq<u8>> {
        self.trusted.seq()
    }

    pub proof fn lemma_entries(&self)
        ensures
            self.entries().to_set() == self.trusted(),
            forall|i: int| 0 <= i < self.entries().len() ==> (#[trigger] self.entries()[i]).len() == 32,
    {
        self.trusted.lemma_seq_set();
        self.trusted.lemma_entry_len();
    }

    /// A store that trusts nobody yet (no file).
    pub fn new() -> (s: FileTrustStore)
        ensures
            s.trusted() == Set::<Seq<u8>>::empty(),
    {
        FileTrustStore { trusted: FingerprintList::new() }
    }

    /// The store described by a trust file's text.
    pub fn from_file_contents(contents: &str) -> (s: FileTrustStore)
        ensures
            s.trusted() == listed_set(contents@, 0),
    {
        let chars = chars_of(contents);
        let ghost text = contents@;
        let mut list = FingerprintList::new();
        let mut i: usize = 0;
        loop
            invariant
                chars@ == text,
                i <= chars@.len(),
                list.set().union(listed_set(text, i as int)) == listed_set(text, 0),
            ensures
                list.set() == listed_set(text, 0),
            decreases chars@.len() - i,
        {
            let (a, b) = line_bounds(chars.as_slice(), i);
            let parsed = parse_fingerprint_range(chars.as_slice(), a, b);
            let e = line_end_exec(chars.as_slice(), i);
            proof {
                lemma_line_end_bounds(text, i as int);
            }
            let ghost rest = if e < chars@.len() { listed_set(text, e + 1) } else { Set::<Seq<u8>>::empty() };
            let ghost before = list.set();
            match parsed {
                Some(f) => {
                    list.insert(f);
                    assert(list.set().union(rest) =~= before.union(listed_set(text, i as int)));
                },
                None => {
                    assert(list.set().union(rest) =~= before.union(listed_set(text, i as int)));
                },
            }
            assert(list.set().union(rest) == listed_set(text, 0));
            if e >= chars.len() {
                assert(list.set().union(rest) =~= list.set());
                break;
            }
            i = e + 1;
        }
        FileTrustStore { trusted: list }
    }

    /// The trust file's text: the fingerprints in hexadecimal, one per
    /// line.
    pub fn to_file_contents(&self) -> (s: String)
        ensures
            s@ == joined(self.entries()),
    {
        let mut s = String::new();
        let n = self.trusted.len();
        let mut k: usize = 0;
        while k < n
            invariant
                0 <= k <= n,
                n == self.entries().len(),
                s@ == joined(self.entries().take(k as int)),
            decreases n - k,
        {
            if k > 0 {
                s.push('\n');
            }
            let hex = self.trusted.get(k).to_hex();
            let chars = chars_of(hex.as_str());
            let ghost before = s@;
            let mut j: usize = 0;
            while j < chars.len()
                invariant
                    0 <= j <= chars@.len(),
                    s@ == before + chars@.take(j as int),
                decreases chars@.len() - j,
            {
                s.push(chars[j]);
                assert(chars@.take(j + 1) =~= chars@.take(j as int).push(chars@[j as int]));
                j = j + 1;
            }
            proof {
                let t = self.entries().take(k + 1);
                assert(chars@.take(chars@.len() as int) =~= chars@);
                assert(t.last() == self.entries()[k as int]);
                if k == 0 {
                    assert(t.len() == 1);
                    assert(before =~= Seq::<char>::empty());
                    assert(s@ =~= encode_hex(t[0]));
                } else {
                    assert(t.drop_last() =~= self.entries().take(k as int));
                    assert(s@ =~= joined(t.drop_last()) + seq!['\n'] + encode_hex(t.last()));
                }
            }
            k = k + 1;
        }
        assert(self.entries().take(n as int) =~= self.entries());
        s
    }
}

impl TrustStore for FileTrustStore {
    closed spec fn trusted(&self) -> Set<Seq<u8>> {
        self.trusted.set()
    }

    fn is_trusted(&self, fingerprint: &Fingerprint) -> (r: bool) {
        self.trusted.contains(fingerprint)
    }

    fn trust(&mut self, fingerprint: Fingerprint) {
        self.trusted.insert(fingerprint);
    }
}

} // verus!
