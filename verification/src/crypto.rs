use vstd::prelude::*;

use crate::hex::{decode_hex, encode_hex, encode_hex_string};

verus! {

broadcast use vstd::array::group_array_axioms;

/// SHA-256 digest of `data`, as the `sha2` crate computes it.
pub uninterp spec fn sha256(data: Seq<u8>) -> Seq<u8>;

/// SHA-256 of `data`.
///
/// Calls `<sha2::Sha256 as sha2::Digest>::digest` and turns the 32-byte
/// output into an array. The contract claims only that the result is the
/// digest of `data`: equal inputs, equal digests.
#[verifier::external_body]
fn sha256_digest(data: &[u8]) -> (d: [u8; 32])
    ensures
        d@ == sha256(data@),
{
    <sha2::Sha256 as sha2::Digest>::digest(data).into()
}

/// Trust-on-first-use identity of a peer: the SHA-256 of its whole DER
/// certificate, so that any change of key or field changes it.
#[derive(Clone, Copy, Debug, PartialEq, Eq, Hash)]
pub struct Fingerprint([u8; 32]);

impl View for Fingerprint {
    type V = Seq<u8>;

    closed spec fn view(&self) -> Seq<u8> {
        self.0@
    }
}

impl Fingerprint {
    pub proof fn lemma_len(&self)
        ensures
            self@.len() == 32,
    {
    }

    /// Fingerprints with the same bytes are the same fingerprint.
    pub proof fn lemma_view_injective(a: Fingerprint, b: Fingerprint)
        requires
            a@ == b@,
        ensures
            a == b,
    {
        assert(a.0 =~= b.0);
    }

    /// Fingerprint of a certificate given in DER.
    pub fn of_der(cert: &[u8]) -> (f: Fingerprint)
        ensures
            f@ == sha256(cert@),
    {
        Fingerprint::from_bytes(sha256_digest(cert))
    }

    pub fn from_bytes(bytes: [u8; 32]) -> (f: Fingerprint)
        ensures
            f@ == bytes@,
    {
        Fingerprint(bytes)
    }

    pub fn as_bytes(&self) -> (b: &[u8; 32])
        ensures
            b@ == self@,
    {
        &self.0
    }

    /// 64 lowercase hexadecimal characters.
    pub fn to_hex(&self) -> (s: String)
        ensures
            s@ == encode_hex(self@),
    {
        encode_hex_string(self.0.as_slice())
    }

    /// Whether both fingerprints hold the same bytes.
    pub fn same_as(&self, other: &Fingerprint) -> (same: bool)
        ensures
            same == (self@ == other@),
    {
        let mut i: usize = 0;
        while i < 32
            invariant
                0 <= i <= 32,
                forall|j: int| 0 <= j < i ==> self.0@[j] == other.0@[j],
            decreases 32 - i,
        {
            if self.0[i] != other.0[i] {
                assert(self.0@[i as int] != other.0@[i as int]);
                return false;
            }
            i = i + 1;
        }
        assert(self.0@ =~= other.0@);
        true
    }
}

/// What to do with a certificate whose fingerprint was never seen.
#[derive(Clone, Copy, Debug, PartialEq, Eq, Structural)]
pub enum PairingMode {
    /// Trust it and remember it (only during an explicit pairing window).
    AutoTrustOnFirstUse,
    /// Refuse anything not already trusted.
    RejectUnknown,
}

/// The set of certificate fingerprints already trusted, in the manner of
/// SSH's `known_hosts`.
pub trait TrustStore {
    /// Fingerprints (by their bytes) trusted now.
    spec fn trusted(&self) -> Set<Seq<u8>>;

    /// Whether `fingerprint` is trusted.
    fn is_trusted(&self, fingerprint: &Fingerprint) -> (r: bool)
        ensures
            r == self.trusted().contains(fingerprint@),
    ;

    /// Trusts `fingerprint` from now on.
    fn trust(&mut self, fingerprint: Fingerprint)
        ensures
            final(self).trusted() == old(self).trusted().insert(fingerprint@),
    ;
}

/// Fingerprints without repetition, in the order they were first added.
pub struct FingerprintList {
    items: Vec<Fingerprint>,
}

impl FingerprintList {
    pub closed spec fn set(&self) -> Set<Seq<u8>> {
        Set::new(|s: Seq<u8>| exists|i: int| 0 <= i < self.items@.len() && #[trigger] self.items@[i]@ == s)
    }

    /// The fingerprints in order, by their bytes.
    pub closed spec fn seq(&self) -> Seq<Seq<u8>> {
        self.items@.map_values(|f: Fingerprint| f@)
    }

    pub proof fn lemma_seq_set(&self)
        ensures
            self.seq().to_set() == self.set(),
    {
        assert forall|s: Seq<u8>| self.seq().to_set().contains(s) <==> self.set().contains(s) by {
            if self.seq().to_set().contains(s) {
                let i = choose|i: int| 0 <= i < self.seq().len() && self.seq()[i] == s;
                assert(self.items@[i]@ == s);
            }
            if self.set().contains(s) {
                let i = choose|i: int| 0 <= i < self.items@.len() && #[trigger] self.items@[i]@ == s;
                assert(self.seq()[i] == s);
            }
        }
        assert(self.seq().to_set() =~= self.set());
    }

    pub proof fn lemma_entry_len(&self)
        ensures
            forall|i: int| 0 <= i < self.seq().len() ==> (#[trigger] self.seq()[i]).len() == 32,
    {
        assert forall|i: int| 0 <= i < self.seq().len() implies (#[trigger] self.seq()[i]).len() == 32 by {
            self.items@[i].lemma_len();
        }
    }

    pub fn new() -> (l: FingerprintList)
        ensures
            l.set() == Set::<Seq<u8>>::empty(),
            l.seq() == Seq::<Seq<u8>>::empty(),
    {
        let l = FingerprintList { items: Vec::new() };
        assert(l.set() =~= Set::<Seq<u8>>::empty());
        assert(l.seq() =~= Seq::<Seq<u8>>::empty());
        l
    }

    pub fn contains(&self, f: &Fingerprint) -> (r: bool)
        ensures
            r == self.set().contains(f@),
    {
        let mut i: usize = 0;
        while i < self.items.len()
            invariant
                0 <= i <= self.items@.len(),
                forall|j: int| 0 <= j < i ==> self.items@[j]@ != f@,
            decreases self.items@.len() - i,
        {
            if self.items[i].same_as(f) {
                assert(self.items@[i as int]@ == f@);
                return true;
            }
            i = i + 1;
        }
        false
    }

    /// Adds `f` unless it is already there.
    pub fn insert(&mut self, f: Fingerprint)
        ensures
            final(self).set() == old(self).set().insert(f@),
            old(self).set().contains(f@) ==> final(self).seq() == old(self).seq(),
            !old(self).set().contains(f@) ==> final(self).seq() == old(self).seq().push(f@),
    {
        if !self.contains(&f) {
            let ghost before = self.items@;
            self.items.push(f);
            assert(self.set() =~= old(self).set().insert(f@)) by {
                assert forall|s: Seq<u8>| self.set().contains(s) <==> old(self).set().contains(s) || s == f@ by {
                    if old(self).set().contains(s) {
                        let i = choose|i: int| 0 <= i < before.len() && #[trigger] before[i]@ == s;
                        assert(self.items@[i]@ == s);
                    }
                    if s == f@ {
                        assert(self.items@[before.len() as int]@ == s);
                    }
                    if self.set().contains(s) {
                        let i = choose|i: int| 0 <= i < self.items@.len() && #[trigger] self.items@[i]@ == s;
                        if i < before.len() {
                            assert(before[i]@ == s);
                        }
                    }
                }
            }
            assert(self.seq() =~= old(self).seq().push(f@));
        }
    }

    pub fn len(&self) -> (n: usize)
        ensures
            n == self.seq().len(),
    {
        self.items.len()
    }

    pub fn get(&self, i: usize) -> (f: &Fingerprint)
        requires
            i < self.seq().len(),
        ensures
            f@ == self.seq()[i as int],
    {
        &self.items[i]
    }
}

/// Trust store kept in memory only.
pub struct InMemoryTrustStore {
    trusted: FingerprintList,
}

impl InMemoryTrustStore {
    pub fn new() -> (s: InMemoryTrustStore)
        ensures
            s.trusted() == Set::<Seq<u8>>::empty(),
    {
        InMemoryTrustStore { trusted: FingerprintList::new() }
    }
}

impl TrustStore for InMemoryTrustStore {
    closed spec fn trusted(&self) -> Set<Seq<u8>> {
        self.trusted.set()
    }

    fn is_trusted(&self, fingerprint: &Fingerprint) -> (r: bool) {
        self.trusted.contains(fingerprint)
    }

    fn trust(&mut self, fingerprint: Fingerprint) {
        self.trusted.insert(fingerprint);
    }
}

/// Whether a certificate with fingerprint `fp` is accepted, and the trusted
/// set afterwards: trusted ones pass unchanged; under
/// `AutoTrustOnFirstUse` an unknown one is trusted and passes; under
/// `RejectUnknown` it is refused.
pub open spec fn trust_outcome(trusted: Set<Seq<u8>>, mode: PairingMode, fp: Seq<u8>) -> (bool, Set<Seq<u8>>) {
    if trusted.contains(fp) {
        (true, trusted)
    } else {
        match mode {
            PairingMode::AutoTrustOnFirstUse => (true, trusted.insert(fp)),
            PairingMode::RejectUnknown => (false, trusted),
        }
    }
}

/// Trust decision on a fingerprint already computed. `Err` carries the
/// refused fingerprint.
pub fn evaluate_fingerprint<S: TrustStore>(store: &mut S, mode: PairingMode, fingerprint: Fingerprint) -> (r: Result<(), Fingerprint>)
    ensures
        (r is Ok) == trust_outcome(old(store).trusted(), mode, fingerprint@).0,
        final(store).trusted() == trust_outcome(old(store).trusted(), mode, fingerprint@).1,
        r matches Err(f) ==> f@ == fingerprint@,
{
    if store.is_trusted(&fingerprint) {
        return Ok(());
    }
    match mode {
        PairingMode::AutoTrustOnFirstUse => {
            store.trust(fingerprint);
            Ok(())
        },
        PairingMode::RejectUnknown => Err(fingerprint),
    }
}

/// Trust decision on a peer's end-entity certificate (DER), shared by both
/// directions of mutual TLS.
pub fn evaluate_trust<S: TrustStore>(store: &mut S, mode: PairingMode, end_entity: &[u8]) -> (r: Result<(), Fingerprint>)
    ensures
        (r is Ok) == trust_outcome(old(store).trusted(), mode, sha256(end_entity@)).0,
        final(store).trusted() == trust_outcome(old(store).trusted(), mode, sha256(end_entity@)).1,
        r matches Err(f) ==> f@ == sha256(end_entity@),
{
    let fingerprint = Fingerprint::of_der(end_entity);
    evaluate_fingerprint(store, mode, fingerprint)
}

/// Once a fingerprint has been accepted, it is accepted again under either
/// mode, and accepting it again changes nothing.
pub proof fn lemma_accepted_stays_trusted(trusted: Set<Seq<u8>>, first: PairingMode, later: PairingMode, fp: Seq<u8>)
    requires
        trust_outcome(trusted, first, fp).0,
    ensures
        trust_outcome(trust_outcome(trusted, first, fp).1, later, fp) == (true, trust_outcome(trusted, first, fp).1),
{
}

/// Under `RejectUnknown` the trusted set never changes, and only
/// fingerprints already trusted pass.
pub proof fn lemma_reject_unknown_never_learns(trusted: Set<Seq<u8>>, fp: Seq<u8>)
    ensures
        trust_outcome(trusted, PairingMode::RejectUnknown, fp) == (trusted.contains(fp), trusted),
{
}

/// A decision never forgets a fingerprint that was trusted before.
pub proof fn lemma_trust_only_grows(trusted: Set<Seq<u8>>, mode: PairingMode, fp: Seq<u8>)
    ensures
        trusted.subset_of(trust_outcome(trusted, mode, fp).1),
{
}

} // verus!
