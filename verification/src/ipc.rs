use vstd::prelude::*;

use crate::hex::{decode_hex, decode_hex_range, encode_hex, encode_hex_string, lemma_encode_hex_shape, lemma_hex_round_trip, lower_digit};
use crate::decimal::{dec_string, is_digit, lemma_dec_string, lemma_parse_dec_string, parse_u16, parse_u16_range, push_decimal};
use crate::text::{chars_of, lemma_line_end_at, line_at, line_bounds, line_end, line_end_exec};

verus! {

broadcast use vstd::array::group_array_axioms;

/// Errors of the local channel between the GUI and the service.
#[derive(Debug, PartialEq, Eq, Structural)]
pub enum IpcError {
    /// The token file is corrupt or incomplete.
    MalformedTokenFile,
    /// The token presented does not authorize the connection.
    Unauthorized,
}

/// Authentication token of the local channel, fresh at every start of the
/// service: 32 bytes that a client presents before anything else.
#[derive(Clone, Copy, PartialEq, Eq)]
pub struct IpcToken([u8; 32]);

impl View for IpcToken {
    type V = Seq<u8>;

    closed spec fn view(&self) -> Seq<u8> {
        self.0@
    }
}

/// 32 bytes from the operating system's random source.
///
/// Calls `rand::rng()` and `RngCore::fill_bytes` on it. Nothing is stated
/// of the bytes: they depend on chance.
#[verifier::external_body]
fn random_token_bytes() -> [u8; 32] {
    let mut bytes = [0u8; 32];
    rand::RngCore::fill_bytes(&mut rand::rng(), &mut bytes);
    bytes
}

/// A 32-byte array holding the bytes of `v`.
fn bytes32(v: &Vec<u8>) -> (a: [u8; 32])
    requires
        v@.len() == 32,
    ensures
        a@ == v@,
{
    let mut a = [0u8; 32];
    let mut i: usize = 0;
    while i < 32
        invariant
            0 <= i <= 32,
            v@.len() == 32,
            forall|j: int| 0 <= j < i ==> a@[j] == v@[j],
        decreases 32 - i,
    {
        a[i] = v[i];
        i = i + 1;
    }
    assert(a@ =~= v@);
    a
}

impl IpcToken {
    pub proof fn lemma_len(&self)
        ensures
            self@.len() == 32,
    {
    }

    /// Tokens with the same bytes are the same token.
    pub proof fn lemma_view_injective(a: IpcToken, b: IpcToken)
        requires
            a@ == b@,
        ensures
            a == b,
    {
        assert(a.0 =~= b.0);
    }

    /// A fresh random token.
    pub fn generate() -> (t: IpcToken) {
        IpcToken(random_token_bytes())
    }

    pub fn as_bytes(&self) -> (b: &[u8; 32])
        ensures
            b@ == self@,
    {
        &self.0
    }

    pub fn from_bytes(bytes: [u8; 32]) -> (t: IpcToken)
        ensures
            t@ == bytes@,
    {
        IpcToken(bytes)
    }

    /// 64 lowercase hexadecimal characters.
    pub fn to_hex(self) -> (s: String)
        ensures
            s@ == encode_hex(self@),
    {
        encode_hex_string(self.0.as_slice())
    }

    /// Reads a token written as exactly 64 hexadecimal characters.
    pub fn from_hex(hex: &str) -> (r: Option<IpcToken>)
        ensures
            match decode_hex(hex@, 32) {
                Some(b) => r matches Some(t) && t@ == b,
                None => r is None,
            },
    {
        let chars = chars_of(hex);
        assert(chars@.subrange(0, chars@.len() as int) =~= hex@);
        match decode_hex_range(chars.as_slice(), 0, chars.len(), 32) {
            Some(v) => Some(IpcToken(bytes32(&v))),
            None => None,
        }
    }

    /// Comparison whose running time does not depend on where the tokens
    /// first differ: every byte pair is looked at.
    pub fn constant_time_eq(&self, other: &IpcToken) -> (eq: bool)
        ensures
            eq == (self@ == other@),
    {
        let mut diff: u8 = 0;
        let mut i: usize = 0;
        while i < 32
            invariant
                0 <= i <= 32,
                (diff == 0) == (forall|j: int| 0 <= j < i ==> self.0@[j] == other.0@[j]),
            decreases 32 - i,
        {
            let a = self.0[i];
            let b = other.0[i];
            let d = diff;
            diff = d | (a ^ b);
            assert((d | (a ^ b)) == 0 <==> (d == 0 && a == b)) by (bit_vector);
            proof {
                if diff == 0 {
                    assert forall|j: int| 0 <= j < i + 1 implies self.0@[j] == other.0@[j] by {
                        if j < i {
                        }
                    }
                }
            }
            i = i + 1;
        }
        proof {
            if diff == 0 {
                assert(self.0@ =~= other.0@);
            } else {
                let j = choose|j: int| 0 <= j < 32 && self.0@[j] != other.0@[j];
                assert(self.0@[j] != other.0@[j]);
            }
        }
        diff == 0
    }

    /// `Ok` when `presented` is this token, else `Unauthorized`.
    pub fn authorize(&self, presented: [u8; 32]) -> (r: Result<(), IpcError>)
        ensures
            r is Ok <==> presented@ == self@,
            r is Err ==> r == Err::<(), IpcError>(IpcError::Unauthorized),
    {
        if IpcToken::from_bytes(presented).constant_time_eq(self) {
            Ok(())
        } else {
            Err(IpcError::Unauthorized)
        }
    }
}

/// Port and token bytes of a token file: the port in decimal on the first
/// line, the token in hexadecimal on the second.
pub open spec fn parse_endpoint(s: Seq<char>) -> Option<(u16, Seq<u8>)> {
    let e0 = line_end(s, 0);
    match parse_u16(line_at(s, 0)) {
        None => None,
        Some(port) => if e0 >= s.len() {
            None
        } else {
            match decode_hex(line_at(s, e0 + 1), 32) {
                Some(b) => Some((port, b)),
                None => None,
            }
        },
    }
}

/// The text of a token file for `port` and the token bytes `token`.
pub open spec fn endpoint_text(port: u16, token: Seq<u8>) -> Seq<char> {
    dec_string(port as nat) + seq!['\n'] + encode_hex(token) + seq!['\n']
}

/// Where a local client finds the service: the port it listens on and the
/// token it expects.
#[derive(Clone, Copy)]
pub struct IpcEndpoint {
    pub port: u16,
    pub token: IpcToken,
}

impl IpcEndpoint {
    /// Text of the token file: the port, a line feed, the token in
    /// hexadecimal, a line feed.
    pub fn to_file_contents(&self) -> (s: String)
        ensures
            s@ == endpoint_text(self.port, self.token@),
    {
        let mut s = String::new();
        push_decimal(&mut s, self.port as u64);
        s.push('\n');
        let hex = self.token.to_hex();
        let chars = chars_of(hex.as_str());
        let mut i: usize = 0;
        while i < chars.len()
            invariant
                0 <= i <= chars@.len(),
                chars@ == encode_hex(self.token@),
                s@ == dec_string(self.port as nat) + seq!['\n'] + chars@.subrange(0, i as int),
            decreases chars@.len() - i,
        {
            s.push(chars[i]);
            assert(chars@.subrange(0, i + 1) =~= chars@.subrange(0, i as int).push(chars@[i as int]));
            i = i + 1;
        }
        s.push('\n');
        assert(chars@.subrange(0, chars@.len() as int) =~= chars@);
        s
    }

    /// Reads a token file's text; `MalformedTokenFile` unless its first
    /// line is a port and its second a token.
    pub fn from_file_contents(contents: &str) -> (r: Result<IpcEndpoint, IpcError>)
        ensures
            match parse_endpoint(contents@) {
                Some((port, b)) => r matches Ok(e) && e.port == port && e.token@ == b,
                None => r == Err::<IpcEndpoint, IpcError>(IpcError::MalformedTokenFile),
            },
    {
        let chars = chars_of(contents);
        let (a0, b0) = line_bounds(chars.as_slice(), 0);
        let port = match parse_u16_range(chars.as_slice(), a0, b0) {
            Some(p) => p,
            None => return Err(IpcError::MalformedTokenFile),
        };
        let e0 = line_end_exec(chars.as_slice(), 0);
        if e0 >= chars.len() {
            return Err(IpcError::MalformedTokenFile);
        }
        let (a1, b1) = line_bounds(chars.as_slice(), e0 + 1);
        match decode_hex_range(chars.as_slice(), a1, b1, 32) {
            Some(v) => Ok(IpcEndpoint { port, token: IpcToken(bytes32(&v)) }),
            None => Err(IpcError::MalformedTokenFile),
        }
    }
}

/// Reading back the text that [`IpcEndpoint::to_file_contents`] writes
/// gives the same port and token.
pub proof fn lemma_endpoint_round_trip(port: u16, token: Seq<u8>)
    requires
        token.len() == 32,
    ensures
        parse_endpoint(endpoint_text(port, token)) == Some((port, token)),
{
    let d = dec_string(port as nat);
    let h = encode_hex(token);
    let s = endpoint_text(port, token);
    lemma_parse_dec_string(port);
    lemma_dec_string(port as nat);
    lemma_encode_hex_shape(token);
    lemma_hex_round_trip(token);
    assert(s[d.len() as int] == '\n');
    assert forall|k: int| 0 <= k < d.len() implies s[k] != '\n' by {
        assert(s[k] == d[k]);
        assert(is_digit(d[k]));
    }
    lemma_line_end_at(s, 0, d.len() as int);
    assert(s.subrange(0, d.len() as int) =~= d);
    assert(d.last() == d[d.len() - 1]);
    assert(is_digit(d[d.len() - 1]));
    assert(line_at(s, 0) == d);
    let start: int = d.len() as int + 1;
    let stop: int = d.len() as int + 1 + h.len() as int;
    assert(s[stop] == '\n');
    assert forall|k: int| start <= k < stop implies s[k] != '\n' by {
        let i = (k - start) / 2;
        assert(s[k] == h[k - start]);
        assert(token[i] == token[i]);
        if (k - start) % 2 == 0 {
            assert(h[k - start] == lower_digit((token[i] / 16) as int));
        } else {
            assert(h[k - start] == lower_digit((token[i] % 16) as int));
        }
    }
    lemma_line_end_at(s, start, stop);
    assert(s.subrange(start, stop) =~= h);
    assert(token[31] == token[31]);
    assert(h[63] == lower_digit((token[31] % 16) as int));
    assert(line_at(s, start) == h);
}

/// Local client of the channel: it reads the published endpoint and
/// presents the token.
pub struct IpcClient;

} // verus!
