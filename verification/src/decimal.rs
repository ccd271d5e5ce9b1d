use vstd::prelude::*;

verus! {

/// The character of a decimal digit below 10.
pub open spec fn digit_char(d: int) -> char {
    ((d + '0' as int) as u32) as char
}

pub open spec fn is_digit(c: char) -> bool {
    '0' <= c <= '9'
}

/// Decimal form of `n`, without sign or leading zeros.
pub open spec fn dec_string(n: nat) -> Seq<char>
    decreases n,
{
    if n < 10 {
        seq![digit_char(n as int)]
    } else {
        dec_string(n / 10).push(digit_char((n % 10) as int))
    }
}

/// Value of a string of decimal digits (leading zeros allowed).
pub open spec fn digits_value(s: Seq<char>) -> nat
    decreases s.len(),
{
    if s.len() == 0 {
        0
    } else {
        digits_value(s.drop_last()) * 10 + (s.last() as int - '0' as int) as nat
    }
}

pub open spec fn all_digits(s: Seq<char>) -> bool {
    forall|i: int| 0 <= i < s.len() ==> is_digit(#[trigger] s[i])
}

/// The digits that `str::parse::<u16>` reads: an optional leading `+`
/// followed by the rest.
pub open spec fn unsigned_digits(s: Seq<char>) -> Seq<char> {
    if s.len() > 1 && s[0] == '+' { s.drop_first() } else { s }
}

/// What `str::parse::<u16>` gives: a non-empty run of decimal digits,
/// optionally behind a `+`, whose value fits in 16 bits.
pub open spec fn parse_u16(s: Seq<char>) -> Option<u16> {
    let d = unsigned_digits(s);
    if d.len() > 0 && all_digits(d) && digits_value(d) <= u16::MAX {
        Some(digits_value(d) as u16)
    } else {
        None
    }
}

fn digit_to_char(d: u64) -> (c: char)
    requires
        d < 10,
    ensures
        c == digit_char(d as int),
{
    ((d as u8) + 48u8) as char
}

/// Appends the decimal form of `n`.
pub fn push_decimal(s: &mut String, n: u64)
    ensures
        final(s)@ == old(s)@ + dec_string(n as nat),
    decreases n,
{
    if n >= 10 {
        push_decimal(s, n / 10);
    }
    s.push(digit_to_char(n % 10));
    proof {
        if n >= 10 {
            assert(old(s)@ + dec_string(n as nat) =~= old(s)@ + dec_string((n / 10) as nat) + seq![digit_char((n % 10) as int)]);
        } else {
            assert(dec_string(n as nat) =~= seq![digit_char(n as int)]);
        }
    }
}

proof fn lemma_digits_value_prefix(s: Seq<char>, k: int)
    requires
        0 <= k <= s.len(),
        all_digits(s),
    ensures
        digits_value(s.take(k)) <= digits_value(s),
    decreases s.len(),
{
    if k < s.len() {
        let p = s.drop_last();
        assert(all_digits(p)) by {
            assert forall|i: int| 0 <= i < p.len() implies is_digit(#[trigger] p[i]) by {
                assert(p[i] == s[i]);
            }
        }
        lemma_digits_value_prefix(p, k);
        assert(p.take(k) =~= s.take(k));
        assert(is_digit(s[s.len() - 1]));
    } else {
        assert(s.take(k) =~= s);
    }
}

/// `str::parse::<u16>` on `chars[from..to]`.
pub fn parse_u16_range(chars: &[char], from: usize, to: usize) -> (r: Option<u16>)
    requires
        from <= to <= chars@.len(),
    ensures
        r == parse_u16(chars@.subrange(from as int, to as int)),
{
    let ghost s = chars@.subrange(from as int, to as int);
    let start = if to - from > 1 && chars[from] == '+' { from + 1 } else { from };
    let ghost d = unsigned_digits(s);
    assert(d =~= chars@.subrange(start as int, to as int));
    if start == to {
        return None;
    }
    let mut acc: u32 = 0;
    let mut i = start;
    while i < to
        invariant
            from <= start <= i <= to <= chars@.len(),
            s == chars@.subrange(from as int, to as int),
            d == unsigned_digits(s),
            d == chars@.subrange(start as int, to as int),
            acc == digits_value(d.take(i - start)),
            acc <= u16::MAX,
            all_digits(d.take(i - start)),
        decreases to - i,
    {
        let c = chars[i];
        let ghost k = i - start;
        assert(d[k] == c);
        if !('0' <= c && c <= '9') {
            assert(!all_digits(d)) by {
                assert(!is_digit(d[k]));
            }
            return None;
        }
        let v = (c as u32) - 48;
        assert(d.take(k + 1).drop_last() =~= d.take(k));
        assert(d.take(k + 1).last() == c);
        acc = acc * 10 + v;
        assert(all_digits(d.take(k + 1))) by {
            assert forall|j: int| 0 <= j < k + 1 implies is_digit(#[trigger] d.take(k + 1)[j]) by {
                if j < k {
                    assert(d.take(k + 1)[j] == d.take(k)[j]);
                }
            }
        }
        if acc > 65535 {
            proof {
                if all_digits(d) {
                    lemma_digits_value_prefix(d, k + 1);
                }
            }
            return None;
        }
        i = i + 1;
    }
    assert(d.take(d.len() as int) =~= d);
    Some(acc as u16)
}

/// The decimal form is a non-empty run of digits whose value is `n`.
pub proof fn lemma_dec_string(n: nat)
    ensures
        dec_string(n).len() > 0,
        all_digits(dec_string(n)),
        digits_value(dec_string(n)) == n,
    decreases n,
{
    if n >= 10 {
        lemma_dec_string(n / 10);
        let p = dec_string(n / 10);
        let s = dec_string(n);
        assert(s.drop_last() =~= p);
        assert forall|i: int| 0 <= i < s.len() implies is_digit(#[trigger] s[i]) by {
            if i < p.len() {
                assert(s[i] == p[i]);
            }
        }
        assert(s.last() as int - '0' as int == n % 10);
        assert(digits_value(s) == digits_value(p) * 10 + n % 10);
        assert((n / 10) * 10 + n % 10 == n);
        assert(digits_value(p) == n / 10);
        assert(digits_value(p) * 10 == (n / 10) * 10);
    } else {
        assert(dec_string(n)[0] as int - '0' as int == n);
        assert(dec_string(n).drop_last() =~= Seq::<char>::empty());
        assert(digits_value(Seq::<char>::empty()) == 0);
        assert(digits_value(dec_string(n)) == digits_value(dec_string(n).drop_last()) * 10 + n);
    }
}

/// Parsing the decimal form of a 16-bit number gives the number back.
pub proof fn lemma_parse_dec_string(n: u16)
    ensures
        parse_u16(dec_string(n as nat)) == Some(n),
{
    lemma_dec_string(n as nat);
    let s = dec_string(n as nat);
    assert(is_digit(s[0]));
    assert(unsigned_digits(s) == s);
}

} // verus!
