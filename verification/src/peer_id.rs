use vstd::prelude::*;

use crate::hex::{decode_hex, decode_hex_range, encode_hex, encode_hex_string, lemma_encode_hex_shape, lemma_hex_round_trip, lower_digit};
use crate::text::{chars_of, lemma_trim_unchanged, spec_trim, trim_bounds};
use crate::crypto::Fingerprint;
use crate::types::DeviceId;

verus! {

broadcast use vstd::array::group_array_axioms;

/// A 16-byte array holding the bytes of `v`.
pub(crate) fn bytes16(v: &Vec<u8>) -> (a: [u8; 16])
    requires
        v@.len() == 16,
    ensures
        a@ == v@,
{
    let mut a = [0u8; 16];
    let mut i: usize = 0;
    while i < 16
        invariant
            0 <= i <= 16,
            v@.len() == 16,
            forall|j: int| 0 <= j < i ==> a@[j] == v@[j],
        decreases 16 - i,
    {
        a[i] = v[i];
        i = i + 1;
    }
    assert(a@ =~= v@);
    a
}

/// The 32-character lowercase hexadecimal form in which a device
/// identifier is written to the configuration file.
pub fn to_hex(device_id: DeviceId) -> (s: String)
    ensures
        s@ == encode_hex(device_id.bytes@),
{
    encode_hex_string(device_id.as_bytes().as_slice())
}

/// Reads a device identifier written as 32 hexadecimal characters,
/// ignoring surrounding whitespace; `None` for anything else.
pub fn from_hex(hex: &str) -> (r: Option<DeviceId>)
    ensures
        match decode_hex(spec_trim(hex@), 16) {
            Some(b) => r matches Some(id) && id.bytes@ == b,
            None => r is None,
        },
{
    let chars = chars_of(hex);
    let (a, b) = trim_bounds(chars.as_slice(), 0, chars.len());
    assert(chars@.subrange(0, chars@.len() as int) =~= hex@);
    match decode_hex_range(chars.as_slice(), a, b, 16) {
        Some(v) => Some(DeviceId::from_bytes(bytes16(&v))),
        None => None,
    }
}

/// The identifier of a machine, derived from its certificate's
/// fingerprint: the first 16 of its 32 bytes.
pub fn local_device_id(fingerprint: &Fingerprint) -> (id: DeviceId)
    ensures
        id.bytes@ == fingerprint@.subrange(0, 16),
{
    proof {
        fingerprint.lemma_len();
    }
    let all = fingerprint.as_bytes();
    let mut bytes = [0u8; 16];
    let mut i: usize = 0;
    while i < 16
        invariant
            0 <= i <= 16,
            all@ == fingerprint@,
            fingerprint@.len() == 32,
            forall|j: int| 0 <= j < i ==> bytes@[j] == fingerprint@[j],
        decreases 16 - i,
    {
        bytes[i] = all[i];
        i = i + 1;
    }
    assert(bytes@ =~= fingerprint@.subrange(0, 16));
    DeviceId::from_bytes(bytes)
}

/// The identifier of a machine in the hexadecimal form the settings use.
pub fn device_id_hex(fingerprint: &Fingerprint) -> (s: String)
    ensures
        s@ == encode_hex(fingerprint@.subrange(0, 16)),
{
    to_hex(local_device_id(fingerprint))
}

/// Reading back what [`to_hex`] wrote gives the same identifier.
pub proof fn lemma_device_id_round_trip(id: DeviceId)
    ensures
        decode_hex(spec_trim(encode_hex(id.bytes@)), 16) == Some(id.bytes@),
{
    let b = id.bytes@;
    lemma_encode_hex_shape(b);
    let s = encode_hex(b);
    assert(b[0] == b[0]);
    assert(b[15] == b[15]);
    assert(s[0] == lower_digit((b[0] / 16) as int));
    assert(s[31] == lower_digit((b[15] % 16) as int));
    lemma_trim_unchanged(s);
    lemma_hex_round_trip(b);
}

} // verus!
