use vstd::prelude::*;

verus! {

/// Value of a hexadecimal digit (either case).
pub open spec fn hex_digit_value(c: char) -> Option<int> {
    if '0' <= c <= '9' {
        Some(c as int - '0' as int)
    } else if 'a' <= c <= 'f' {
        Some(c as int - 'a' as int + 10)
    } else if 'A' <= c <= 'F' {
        Some(c as int - 'A' as int + 10)
    } else {
        None
    }
}

/// Value of a byte written as two hexadecimal digits, high digit first;
/// `None` unless both characters are hexadecimal digits.
pub open spec fn pair_value(c0: char, c1: char) -> Option<u8> {
    match (hex_digit_value(c0), hex_digit_value(c1)) {
        (Some(h), Some(l)) => Some((h * 16 + l) as u8),
        _ => None,
    }
}

/// Bytes encoded by `s` as consecutive two-character pairs, when `s` has
/// exactly `2 * n` characters and every pair is valid.
pub open spec fn decode_hex(s: Seq<char>, n: nat) -> Option<Seq<u8>> {
    if s.len() == 2 * n && forall|i: int| 0 <= i < n ==> (#[trigger] pair_value(s[2 * i], s[2 * i + 1])) is Some {
        Some(Seq::new(n, |i: int| pair_value(s[2 * i], s[2 * i + 1])->0))
    } else {
        None
    }
}

/// Lowercase hexadecimal digit for a value below 16.
pub open spec fn lower_digit(v: int) -> char {
    if v < 10 { ((v + '0' as int) as u32) as char } else { ((v - 10 + 'a' as int) as u32) as char }
}

/// Lowercase hexadecimal, two characters per byte.
pub open spec fn encode_hex(bytes: Seq<u8>) -> Seq<char>
    decreases bytes.len(),
{
    if bytes.len() == 0 {
        Seq::empty()
    } else {
        encode_hex(bytes.drop_last()) + seq![lower_digit((bytes.last() / 16) as int), lower_digit((bytes.last() % 16) as int)]
    }
}

fn digit_value(c: char) -> (r: Option<u8>)
    ensures
        match hex_digit_value(c) {
            Some(v) => r == Some(v as u8),
            None => r is None,
        },
{
    if '0' <= c && c <= '9' {
        Some((c as u32 - '0' as u32) as u8)
    } else if 'a' <= c && c <= 'f' {
        Some((c as u32 - 'a' as u32 + 10) as u8)
    } else if 'A' <= c && c <= 'F' {
        Some((c as u32 - 'A' as u32 + 10) as u8)
    } else {
        None
    }
}

fn lower_hex_digit(v: u8) -> (c: char)
    requires
        v < 16,
    ensures
        c == lower_digit(v as int),
{
    if v < 10 {
        (v + 48u8) as char
    } else {
        (v + 87u8) as char
    }
}

/// Read one two-character pair.
pub fn read_pair(c0: char, c1: char) -> (r: Option<u8>)
    ensures
        r == pair_value(c0, c1),
{
    match (digit_value(c0), digit_value(c1)) {
        (Some(h), Some(l)) => Some(h * 16 + l),
        _ => None,
    }
}

/// Decode `chars[from..to]` as `n` hex pairs.
pub fn decode_hex_range(chars: &[char], from: usize, to: usize, n: usize) -> (r: Option<Vec<u8>>)
    requires
        from <= to <= chars@.len(),
    ensures
        match decode_hex(chars@.subrange(from as int, to as int), n as nat) {
            Some(b) => r matches Some(v) && v@ == b,
            None => r is None,
        },
{
    let ghost s = chars@.subrange(from as int, to as int);
    if n > usize::MAX / 2 {
        assert(s.len() != 2 * n) by (nonlinear_arith)
            requires s.len() <= usize::MAX, n > usize::MAX / 2;
        return None;
    }
    if to - from != 2 * n {
        return None;
    }
    let mut out: Vec<u8> = Vec::new();
    let mut i: usize = 0;
    while i < n
        invariant
            0 <= i <= n,
            n <= usize::MAX / 2,
            s == chars@.subrange(from as int, to as int),
            s.len() == 2 * n,
            from + 2 * n == to,
            to <= chars@.len(),
            out@.len() == i,
            forall|j: int| 0 <= j < i ==> (#[trigger] pair_value(s[2 * j], s[2 * j + 1])) is Some
                && out@[j] == pair_value(s[2 * j], s[2 * j + 1])->0,
        decreases n - i,
    {
        let c0 = chars[from + 2 * i];
        let c1 = chars[from + 2 * i + 1];
        assert(c0 == s[2 * i as int] && c1 == s[2 * i as int + 1]);
        match read_pair(c0, c1) {
            Some(b) => out.push(b),
            None => {
                assert(pair_value(s[2 * i as int], s[2 * i as int + 1]) is None);
                return None;
            },
        }
        i = i + 1;
    }
    assert(out@ =~= Seq::new(n as nat, |j: int| pair_value(s[2 * j], s[2 * j + 1])->0));
    Some(out)
}

/// Lowercase hexadecimal of `bytes`.
pub fn encode_hex_string(bytes: &[u8]) -> (s: String)
    ensures
        s@ == encode_hex(bytes@),
{
    let mut s = String::new();
    let mut i: usize = 0;
    while i < bytes.len()
        invariant
            0 <= i <= bytes@.len(),
            s@ == encode_hex(bytes@.take(i as int)),
        decreases bytes.len() - i,
    {
        let b = bytes[i];
        s.push(lower_hex_digit(b / 16));
        s.push(lower_hex_digit(b % 16));
        assert(bytes@.take(i + 1).drop_last() =~= bytes@.take(i as int));
        i = i + 1;
    }
    assert(bytes@.take(bytes@.len() as int) =~= bytes@);
    s
}

/// Length and contents of the lowercase encoding: byte `i` becomes the
/// characters at `2 * i` (high nibble) and `2 * i + 1` (low nibble).
pub proof fn lemma_encode_hex_shape(b: Seq<u8>)
    ensures
        encode_hex(b).len() == 2 * b.len(),
        forall|i: int| #![trigger b[i]] 0 <= i < b.len() ==> encode_hex(b)[2 * i] == lower_digit((b[i] / 16) as int)
            && encode_hex(b)[2 * i + 1] == lower_digit((b[i] % 16) as int),
    decreases b.len(),
{
    if b.len() > 0 {
        let p = b.drop_last();
        lemma_encode_hex_shape(p);
        let last = seq![lower_digit((b.last() / 16) as int), lower_digit((b.last() % 16) as int)];
        assert(encode_hex(b) == encode_hex(p) + last);
        assert forall|i: int| #![trigger b[i]] 0 <= i < b.len() implies encode_hex(b)[2 * i] == lower_digit((b[i] / 16) as int)
            && encode_hex(b)[2 * i + 1] == lower_digit((b[i] % 16) as int) by {
            if i < b.len() - 1 {
                assert(p[i] == b[i]);
                assert(encode_hex(b)[2 * i] == encode_hex(p)[2 * i]);
                assert(encode_hex(b)[2 * i + 1] == encode_hex(p)[2 * i + 1]);
            } else {
                assert(encode_hex(b)[2 * i] == last[0]);
                assert(encode_hex(b)[2 * i + 1] == last[1]);
            }
        }
    }
}

/// A lowercase hexadecimal digit character.
pub open spec fn is_lower_hex_char(c: char) -> bool {
    ('0' <= c <= '9') || ('a' <= c <= 'f')
}

/// Every character of the lowercase encoding is a hexadecimal digit.
pub proof fn lemma_encode_hex_chars(b: Seq<u8>)
    ensures
        forall|k: int| 0 <= k < encode_hex(b).len() ==> is_lower_hex_char(#[trigger] encode_hex(b)[k]),
{
    lemma_encode_hex_shape(b);
    assert forall|k: int| 0 <= k < encode_hex(b).len() implies is_lower_hex_char(#[trigger] encode_hex(b)[k]) by {
        let i = k / 2;
        assert(b[i] == b[i]);
        let v = if k % 2 == 0 { (b[i] / 16) as int } else { (b[i] % 16) as int };
        if k % 2 == 0 {
            assert(k == 2 * i);
            assert(encode_hex(b)[k] == lower_digit(v));
        } else {
            assert(k == 2 * i + 1);
            assert(encode_hex(b)[k] == lower_digit(v));
        }
        assert(0 <= v < 16);
        assert(is_lower_hex_char(lower_digit(v)));
    }
}

proof fn lemma_lower_digit_value(v: int)
    requires
        0 <= v < 16,
    ensures
        hex_digit_value(lower_digit(v)) == Some(v),
{
}

/// Decoding the lowercase encoding of `b` gives `b` back.
pub proof fn lemma_hex_round_trip(b: Seq<u8>)
    ensures
        decode_hex(encode_hex(b), b.len()) == Some(b),
{
    lemma_encode_hex_shape(b);
    let s = encode_hex(b);
    assert forall|i: int| 0 <= i < b.len() implies (#[trigger] pair_value(s[2 * i], s[2 * i + 1])) == Some(b[i]) by {
        lemma_lower_digit_value((b[i] / 16) as int);
        lemma_lower_digit_value((b[i] % 16) as int);
        assert(s[2 * i + 1] == lower_digit((b[i] % 16) as int));
        assert((b[i] / 16) * 16 + b[i] % 16 == b[i]);
    }
    assert(Seq::new(b.len(), |i: int| pair_value(s[2 * i], s[2 * i + 1])->0) =~= b);
}

} // verus!
