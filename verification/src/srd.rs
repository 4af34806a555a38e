//! The protocol engine: a step-driven state machine that drives the
//! four-message handshake for one side, keeping the transcript, deriving
//! the key material, negotiating the cipher and moving the credential
//! blob.

use crate::blobs::{Blob, SrdBlob};
use crate::cipher::{
    cipher_flags_union, common_ciphers, spec_best_cipher, spec_cipher_flags, spec_common_ciphers,
    spec_flag, spec_from_flags, Cipher,
};
use crate::codec::{bytes_eq, get_u16_le, put_bytes, to_array_32, zero_bytes};
use crate::crypto::{
    be_nat, has_nonzero_byte, hmac_sha256, hmac_sha256_verify, lemma_min_be_len_le, min_be,
    modpow_bytes, pow_mod, random_bytes, sha256,
};
use crate::dh_params::{find_dh_parameters, valid_key_size};
use crate::errors::SrdError;
use crate::messages::{
    new_srd_accept_msg, new_srd_confirm_msg, new_srd_delegate_msg, new_srd_initiate_msg,
    new_srd_offer_msg, spec_msg_bytes, spec_msg_eq_except_mac, spec_msg_wf, spec_parse_msg,
    MsgModel, SrdMessage, SRD_ACCEPT_MSG_ID, SRD_FLAG_MAC, SRD_SIGNATURE,
};
use vstd::bytes::spec_u16_from_le_bytes;
use vstd::prelude::*;

verus! {

/// The derived key material for given nonces and shared secret: the
/// delegation key, the integrity key and the IV, in that order.
pub open spec fn spec_derive(cn: Seq<u8>, sk: Seq<u8>, sn: Seq<u8>) -> (Seq<u8>, Seq<u8>, Seq<u8>) {
    (
        crate::crypto::sha256_of(cn + sk + sn),
        crate::crypto::sha256_of(sn + sk + cn),
        crate::crypto::sha256_of(cn + sn),
    )
}

/// Whether a stored wire message has the MAC flag in its header.
pub open spec fn spec_has_mac_flag(m: Seq<u8>) -> bool {
    m.len() >= 8 && spec_u16_from_le_bytes(m.subrange(6, 8)) & SRD_FLAG_MAC != 0
}

/// A message's contribution to the MAC input: its bytes with the 32-byte
/// MAC trailer removed when its header carries the MAC flag.
pub open spec fn spec_strip_mac(m: Seq<u8>) -> Seq<u8> {
    if spec_has_mac_flag(m) {
        m.take(m.len() - 32)
    } else {
        m
    }
}

/// The input of the transcript MAC: the concatenation of every stored
/// message's contribution, in order.
pub open spec fn spec_mac_input(ms: Seq<Seq<u8>>) -> Seq<u8>
    decreases ms.len(),
{
    if ms.len() == 0 {
        Seq::<u8>::empty()
    } else {
        spec_mac_input(ms.drop_last()) + spec_strip_mac(ms.last())
    }
}

/// Every MAC-flagged transcript entry is long enough to strip a trailer.
pub open spec fn wf_transcript(ms: Seq<Seq<u8>>) -> bool {
    forall|i: int| 0 <= i < ms.len() ==> (#[trigger] spec_has_mac_flag(ms[i]) ==> ms[i].len() >= 40)
}

/// Appending a message appends its contribution to the MAC input.
pub proof fn lemma_mac_input_push(ms: Seq<Seq<u8>>, m: Seq<u8>)
    ensures
        spec_mac_input(ms.push(m)) == spec_mac_input(ms) + spec_strip_mac(m),
{
    assert(ms.push(m).drop_last() =~= ms);
    assert(ms.push(m).last() == m);
}

/// Two well-formed MAC-bearing messages that agree outside the MAC field
/// contribute the same bytes to the MAC input.
pub proof fn lemma_strip_mac_set_mac(m1: SrdMessage, m2: SrdMessage)
    requires
        spec_msg_wf(m1),
        spec_msg_wf(m2),
        spec_msg_eq_except_mac(m1, m2),
    ensures
        spec_strip_mac(spec_msg_bytes(m1)) == spec_strip_mac(spec_msg_bytes(m2)),
{
    vstd::bytes::lemma_auto_spec_u16_to_from_le_bytes();
    vstd::bytes::lemma_auto_spec_u32_to_from_le_bytes();
    let d1 = spec_msg_bytes(m1);
    let d2 = spec_msg_bytes(m2);
    assert(d1.subrange(6, 8) =~= vstd::bytes::spec_u16_to_le_bytes(m1.spec_hdr().flags));
    assert(d2.subrange(6, 8) =~= vstd::bytes::spec_u16_to_le_bytes(m2.spec_hdr().flags));
    assert(spec_has_mac_flag(d1));
    assert(spec_has_mac_flag(d2));
    assert(d1.len() == d2.len());
    assert(d1.take(d1.len() - 32) =~= d2.take(d2.len() - 32));
}

/// One protocol endpoint: all per-session state of a client or a server.
pub struct Srd {
    blob: Option<SrdBlob>,
    output_data: Option<Vec<u8>>,
    is_server: bool,
    skip_delegation: bool,
    key_size: u16,
    seq_num: u8,
    state: u8,
    messages: Vec<Vec<u8>>,
    cert_data: Option<Vec<u8>>,
    use_cbt: bool,
    client_nonce: Vec<u8>,
    server_nonce: Vec<u8>,
    delegation_key: Vec<u8>,
    integrity_key: Vec<u8>,
    iv: Vec<u8>,
    supported_ciphers: Vec<Cipher>,
    cipher: Cipher,
    generator: Vec<u8>,
    prime: Vec<u8>,
    private_key: Vec<u8>,
    secret_key: Vec<u8>,
}

impl Srd {
    /// The engine's structural invariant: fixed-width fields have their
    /// widths, the transcript can be MAC-stripped, the step and sequence
    /// counters stay in lockstep, and the group is installed where a
    /// later step will exponentiate with it.
    pub closed spec fn wf(self) -> bool {
        &&& self.client_nonce@.len() == 32
        &&& self.server_nonce@.len() == 32
        &&& self.delegation_key@.len() == 32
        &&& self.integrity_key@.len() == 32
        &&& self.iv@.len() == 32
        &&& valid_key_size(self.key_size)
        &&& wf_transcript(self.messages.deep_view())
        &&& self.state <= 3
        &&& self.seq_num <= 2 * self.state + 2
        &&& (self.is_server && self.state == 1 ==> be_nat(self.prime@) > 0)
    }

    pub closed spec fn spec_is_server(self) -> bool {
        self.is_server
    }

    pub closed spec fn spec_skip_delegation(self) -> bool {
        self.skip_delegation
    }

    pub closed spec fn spec_state(self) -> u8 {
        self.state
    }

    pub closed spec fn spec_seq_num(self) -> u8 {
        self.seq_num
    }

    pub closed spec fn spec_use_cbt(self) -> bool {
        self.use_cbt
    }

    pub closed spec fn spec_cert_data(self) -> Option<Vec<u8>> {
        self.cert_data
    }

    pub closed spec fn spec_blob(self) -> Option<SrdBlob> {
        self.blob
    }

    pub closed spec fn spec_transcript(self) -> Seq<Seq<u8>> {
        self.messages.deep_view()
    }

    pub closed spec fn spec_delegation_key(self) -> Seq<u8> {
        self.delegation_key@
    }

    pub closed spec fn spec_integrity_key(self) -> Seq<u8> {
        self.integrity_key@
    }

    pub closed spec fn spec_iv(self) -> Seq<u8> {
        self.iv@
    }

    pub closed spec fn spec_cipher(self) -> Cipher {
        self.cipher
    }

    pub closed spec fn spec_supported_ciphers(self) -> Seq<Cipher> {
        self.supported_ciphers@
    }

    pub closed spec fn spec_key_size(self) -> u16 {
        self.key_size
    }

    pub closed spec fn spec_secret_key(self) -> Seq<u8> {
        self.secret_key@
    }

    pub closed spec fn spec_private_key(self) -> Seq<u8> {
        self.private_key@
    }

    pub closed spec fn spec_prime(self) -> Seq<u8> {
        self.prime@
    }

    pub closed spec fn spec_generator(self) -> Seq<u8> {
        self.generator@
    }

    pub closed spec fn spec_client_nonce(self) -> Seq<u8> {
        self.client_nonce@
    }

    pub closed spec fn spec_server_nonce(self) -> Seq<u8> {
        self.server_nonce@
    }

    pub closed spec fn spec_output_data(self) -> Option<Vec<u8>> {
        self.output_data
    }

    /// `b` is `a` with at most the blob replaced.
    pub closed spec fn spec_eq_except_blob(a: Srd, b: Srd) -> bool {
        b == (Srd { blob: b.blob, ..a })
    }

    /// `b` is `a` with at most the certificate data and CBT switch replaced.
    pub closed spec fn spec_eq_except_cert(a: Srd, b: Srd) -> bool {
        b == (Srd { cert_data: b.cert_data, use_cbt: b.use_cbt, ..a })
    }

    /// `b` is `a` with at most the key size replaced.
    pub closed spec fn spec_eq_except_key_size(a: Srd, b: Srd) -> bool {
        b == (Srd { key_size: b.key_size, ..a })
    }

    /// `b` is `a` with at most the supported cipher set replaced.
    pub closed spec fn spec_eq_except_ciphers(a: Srd, b: Srd) -> bool {
        b == (Srd { supported_ciphers: b.supported_ciphers, ..a })
    }

    /// `b` is `a` with at most the stashed output replaced.
    pub closed spec fn spec_eq_except_output(a: Srd, b: Srd) -> bool {
        b == (Srd { output_data: b.output_data, ..a })
    }

    /// A fresh engine for one side of one session.
    pub fn new(is_server: bool, skip_delegation: bool) -> (r: Srd)
        ensures
            r.wf(),
            r.spec_is_server() == is_server,
            r.spec_skip_delegation() == skip_delegation,
            r.spec_state() == 0,
            r.spec_seq_num() == 0,
            !r.spec_use_cbt(),
            r.spec_cert_data() is None,
            r.spec_blob() is None,
            r.spec_transcript() =~= Seq::<Seq<u8>>::empty(),
            r.spec_key_size() == 256,
            r.spec_supported_ciphers() =~= seq![
                Cipher::XChaCha20,
                Cipher::ChaCha20,
                Cipher::AES256,
            ],
            r.spec_delegation_key() =~= Seq::<u8>::new(32, |i: int| 0u8),
            r.spec_integrity_key() =~= Seq::<u8>::new(32, |i: int| 0u8),
            r.spec_iv() =~= Seq::<u8>::new(32, |i: int| 0u8),
            r.spec_client_nonce() =~= Seq::<u8>::new(32, |i: int| 0u8),
            r.spec_server_nonce() =~= Seq::<u8>::new(32, |i: int| 0u8),
            r.spec_secret_key() =~= Seq::<u8>::empty(),
            r.spec_private_key() =~= seq![0u8],
            r.spec_generator() =~= seq![0u8],
            r.spec_prime() =~= seq![0u8],
            r.spec_output_data() is None,
            r.spec_cipher() == Cipher::XChaCha20,
    {
        let mut supported_ciphers: Vec<Cipher> = Vec::new();
        supported_ciphers.push(Cipher::XChaCha20);
        supported_ciphers.push(Cipher::ChaCha20);
        supported_ciphers.push(Cipher::AES256);
        proof {
            assert(supported_ciphers@ =~= seq![Cipher::XChaCha20, Cipher::ChaCha20, Cipher::AES256]);
        }
        let r = Srd {
            blob: None,
            output_data: None,
            is_server,
            skip_delegation,
            key_size: 256,
            seq_num: 0,
            state: 0,
            messages: Vec::new(),
            cert_data: None,
            use_cbt: false,
            client_nonce: zero_bytes(32),
            server_nonce: zero_bytes(32),
            delegation_key: zero_bytes(32),
            integrity_key: zero_bytes(32),
            iv: zero_bytes(32),
            supported_ciphers,
            cipher: Cipher::XChaCha20,
            generator: zero_bytes(1),
            prime: zero_bytes(1),
            private_key: zero_bytes(1),
            secret_key: Vec::new(),
        };
        proof {
            assert(r.messages.deep_view() =~= Seq::<Seq<u8>>::empty());
        }
        r
    }

    /// Install the credential blob to delegate.
    pub fn set_raw_blob(&mut self, blob: SrdBlob)
        ensures
            Srd::spec_eq_except_blob(*old(self), *final(self)),
            final(self).spec_blob() == Some(blob),
            old(self).wf() ==> final(self).wf(),
    {
        self.blob = Some(blob);
    }

    /// A copy of the stored blob, if any.
    pub fn get_raw_blob(&self) -> (r: Option<SrdBlob>)
        ensures
            match r {
                Some(b) => self.spec_blob() matches Some(b0) && b.blob_type@ == b0.blob_type@
                    && b.data@ == b0.data@,
                None => self.spec_blob() is None,
            },
    {
        match &self.blob {
            Some(b) => Some(SrdBlob::new(b.blob_type(), b.data())),
            None => None,
        }
    }

    /// Store a typed blob: the container gets `T`'s tag and exactly the
    /// blob's serialization as data.
    pub fn set_blob<T: Blob>(&mut self, blob: T) -> (r: Result<(), SrdError>)
        ensures
            Srd::spec_eq_except_blob(*old(self), *final(self)),
            old(self).wf() ==> final(self).wf(),
            match r {
                Ok(()) => final(self).spec_blob() matches Some(b) && b.blob_type@ == T::spec_tag()
                    && b.data@ == blob.spec_encoding(),
                Err(e) => *final(self) == *old(self),
            },
    {
        let mut data: Vec<u8> = Vec::new();
        if let Err(e) = blob.write_to(&mut data) {
            return Err(e);
        }
        self.blob = Some(SrdBlob::new(T::blob_type(), data.as_slice()));
        Ok(())
    }

    /// Decode the stored blob as `T`: `Some` exactly when a blob with
    /// `T`'s tag is stored and its data parses as `T`, `None` when no
    /// blob or another tag is stored.
    pub fn get_blob<T: Blob>(&self) -> (r: Result<Option<T>, SrdError>)
        ensures
            match r {
                Ok(ot) => match ot {
                    Some(t) => self.spec_blob() matches Some(b) && b.blob_type@ == T::spec_tag()
                        && T::spec_parses(b.data@, t),
                    None => self.spec_blob() is None || self.spec_blob()->Some_0.blob_type@
                        != T::spec_tag(),
                },
                Err(e) => self.spec_blob() matches Some(b) && b.blob_type@ == T::spec_tag() && (
                forall|t: T| !T::spec_parses(b.data@, t)),
            },
    {
        match &self.blob {
            Some(blob) => {
                if bytes_eq(blob.blob_type().as_bytes(), T::blob_type().as_bytes()) {
                    proof {
                        // Equal UTF-8 bytes mean equal tags: decoding the
                        // shared encoding recovers both character strings.
                        vstd::utf8::encode_utf8_decode_utf8(blob.blob_type@);
                        vstd::utf8::encode_utf8_decode_utf8(T::spec_tag());
                    }
                    match T::read_from(blob.data()) {
                        Ok(t) => Ok(Some(t)),
                        Err(e) => Err(e),
                    }
                } else {
                    Ok(None)
                }
            },
            None => Ok(None),
        }
    }

    /// Bind the session to certificate bytes; turns channel binding on.
    pub fn set_cert_data(&mut self, buffer: Vec<u8>) -> (r: Result<(), SrdError>)
        ensures
            r is Ok,
            Srd::spec_eq_except_cert(*old(self), *final(self)),
            final(self).spec_cert_data() == Some(buffer),
            final(self).spec_use_cbt(),
            old(self).wf() ==> final(self).wf(),
    {
        self.cert_data = Some(buffer);
        self.use_cbt = true;
        Ok(())
    }

    /// Choose the Diffie-Hellman key size in bytes; sizes without a
    /// group are rejected with `InvalidKeySize`.
    pub fn set_key_size(&mut self, key_size: u16) -> (r: Result<(), SrdError>)
        ensures
            match r {
                Ok(()) => valid_key_size(key_size) && Srd::spec_eq_except_key_size(
                    *old(self),
                    *final(self),
                ) && final(self).spec_key_size() == key_size && (old(self).wf() ==> final(self).wf()),
                Err(e) => !valid_key_size(key_size) && e is InvalidKeySize && *final(self) == *old(self),
            },
    {
        if key_size == 256 || key_size == 512 || key_size == 1024 {
            self.key_size = key_size;
            Ok(())
        } else {
            Err(SrdError::InvalidKeySize)
        }
    }

    /// Restrict the ciphers this side will advertise or accept.
    pub fn set_ciphers(&mut self, ciphers: Vec<Cipher>) -> (r: Result<(), SrdError>)
        ensures
            r is Ok,
            Srd::spec_eq_except_ciphers(*old(self), *final(self)),
            final(self).spec_supported_ciphers() == ciphers@,
            old(self).wf() ==> final(self).wf(),
    {
        self.supported_ciphers = ciphers;
        Ok(())
    }

    /// A copy of the 32-byte delegation key.
    pub fn get_delegation_key(&self) -> (r: Vec<u8>)
        ensures
            r@ == self.spec_delegation_key(),
    {
        self.delegation_key.clone()
    }

    /// A copy of the 32-byte integrity key.
    pub fn get_integrity_key(&self) -> (r: Vec<u8>)
        ensures
            r@ == self.spec_integrity_key(),
    {
        self.integrity_key.clone()
    }

    /// The negotiated cipher.
    pub fn get_cipher(&self) -> (r: Cipher)
        ensures
            r == self.spec_cipher(),
    {
        self.cipher
    }

    /// The last outbound message stored by `set_output_data`.
    pub fn get_output_data(&self) -> (r: &Option<Vec<u8>>)
        ensures
            *r == self.spec_output_data(),
    {
        &self.output_data
    }

    /// Stash an outbound message for a two-phase caller.
    pub fn set_output_data(&mut self, output_data: Vec<u8>)
        ensures
            Srd::spec_eq_except_output(*old(self), *final(self)),
            final(self).spec_output_data() == Some(output_data),
            old(self).wf() ==> final(self).wf(),
    {
        self.output_data = Some(output_data);
    }

    /// Derive the delegation key, integrity key and IV from the nonces
    /// and the shared secret, in the prescribed orders.
    fn derive_keys(&mut self)
        ensures
            *final(self) == (Srd {
                delegation_key: final(self).delegation_key,
                integrity_key: final(self).integrity_key,
                iv: final(self).iv,
                ..*old(self)
            }),
            (
                final(self).spec_delegation_key(),
                final(self).spec_integrity_key(),
                final(self).spec_iv(),
            ) == spec_derive(
                old(self).spec_client_nonce(),
                old(self).spec_secret_key(),
                old(self).spec_server_nonce(),
            ),
            final(self).spec_delegation_key().len() == 32,
            final(self).spec_integrity_key().len() == 32,
            final(self).spec_iv().len() == 32,
    {
        let mut input: Vec<u8> = Vec::new();
        put_bytes(&mut input, self.client_nonce.as_slice());
        put_bytes(&mut input, self.secret_key.as_slice());
        put_bytes(&mut input, self.server_nonce.as_slice());
        self.delegation_key = sha256(input.as_slice());

        let mut input2: Vec<u8> = Vec::new();
        put_bytes(&mut input2, self.server_nonce.as_slice());
        put_bytes(&mut input2, self.secret_key.as_slice());
        put_bytes(&mut input2, self.client_nonce.as_slice());
        self.integrity_key = sha256(input2.as_slice());

        let mut input3: Vec<u8> = Vec::new();
        put_bytes(&mut input3, self.client_nonce.as_slice());
        put_bytes(&mut input3, self.server_nonce.as_slice());
        self.iv = sha256(input3.as_slice());
    }

    /// The bytes covered by the transcript MAC: every stored message,
    /// each MAC-flagged one with its trailer removed.
    fn get_mac_data(&self) -> (r: Vec<u8>)
        requires
            wf_transcript(self.spec_transcript()),
        ensures
            r@ == spec_mac_input(self.spec_transcript()),
    {
        let mut result: Vec<u8> = Vec::new();
        let n = self.messages.len();
        let mut i: usize = 0;
        while i < n
            invariant
                i <= n,
                n == self.messages@.len(),
                wf_transcript(self.spec_transcript()),
                self.spec_transcript().len() == n,
                result@ == spec_mac_input(self.spec_transcript().take(i as int)),
            decreases n - i,
        {
            let m: &Vec<u8> = &self.messages[i];
            proof {
                assert(self.spec_transcript()[i as int] == self.messages@[i as int].deep_view());
                assert(m.deep_view() =~= m@);
                assert(self.spec_transcript().take(i + 1).drop_last() =~= self.spec_transcript()
                    .take(i as int));
                assert(self.spec_transcript().take(i + 1).last() == self.spec_transcript()[
                    i as int
                ]);
            }
            let mlen = m.len();
            if mlen >= 8 && get_u16_le(m.as_slice(), 6) & SRD_FLAG_MAC != 0 {
                proof {
                    assert(spec_has_mac_flag(m@));
                    assert(self.spec_transcript()[i as int] =~= m@);
                }
                let stripped = crate::codec::get_bytes(m.as_slice(), 0, mlen - 32);
                proof {
                    assert(stripped@ =~= m@.take(m@.len() - 32));
                }
                put_bytes(&mut result, stripped.as_slice());
            } else {
                proof {
                    assert(!spec_has_mac_flag(m@));
                }
                put_bytes(&mut result, m.as_slice());
            }
            i = i + 1;
        }
        proof {
            assert(self.spec_transcript().take(n as int) =~= self.spec_transcript());
        }
        result
    }

    /// The transcript MAC: HMAC-SHA-256 over the stripped transcript,
    /// keyed by the integrity key.
    fn compute_mac(&self) -> (r: Vec<u8>)
        requires
            wf_transcript(self.spec_transcript()),
        ensures
            r@ == crate::crypto::hmac_sha256_of(
                self.spec_integrity_key(),
                spec_mac_input(self.spec_transcript()),
            ),
            r@.len() == 32,
    {
        let data = self.get_mac_data();
        hmac_sha256(self.integrity_key.as_slice(), data.as_slice())
    }

    /// Check a message's MAC against the transcript; a message without a
    /// MAC field passes vacuously.
    fn validate_mac(&self, msg: &SrdMessage) -> (r: Result<(), SrdError>)
        requires
            wf_transcript(self.spec_transcript()),
        ensures
            r is Ok <==> (msg.spec_mac() is None || msg.spec_mac() == Some(
                crate::crypto::hmac_sha256_of(
                    self.spec_integrity_key(),
                    spec_mac_input(self.spec_transcript()),
                ),
            )),
            r is Err ==> r->Err_0 is InvalidMac,
    {
        match msg.mac() {
            None => Ok(()),
            Some(tag) => {
                let data = self.get_mac_data();
                if hmac_sha256_verify(self.integrity_key.as_slice(), data.as_slice(), tag) {
                    Ok(())
                } else {
                    Err(SrdError::InvalidMac)
                }
            },
        }
    }

    /// The channel binding token for a nonce: HMAC of nonce and
    /// certificate data under the integrity key, or 32 zero bytes when
    /// channel binding is off.
    fn compute_cbt(&self, nonce: &[u8]) -> (r: Result<Vec<u8>, SrdError>)
        ensures
            match r {
                Ok(c) => c@.len() == 32 && (self.spec_use_cbt() ==> self.spec_cert_data() is Some
                    && c@ == crate::crypto::hmac_sha256_of(
                    self.spec_integrity_key(),
                    nonce@ + self.spec_cert_data()->Some_0@,
                )) && (!self.spec_use_cbt() ==> c@ == Seq::<u8>::new(32, |i: int| 0u8)),
                Err(e) => self.spec_use_cbt() && self.spec_cert_data() is None && e is InvalidCert,
            },
    {
        if self.use_cbt {
            match &self.cert_data {
                Some(cert) => {
                    let mut input: Vec<u8> = Vec::new();
                    put_bytes(&mut input, nonce);
                    put_bytes(&mut input, cert.as_slice());
                    Ok(hmac_sha256(self.integrity_key.as_slice(), input.as_slice()))
                },
                None => Err(SrdError::InvalidCert),
            }
        } else {
            Ok(zero_bytes(32))
        }
    }
}


/// The inbound bytes parse, and their sequence number and SKIP flag fit
/// the session.
pub open spec fn spec_inbound_frame_ok(pre: Srd, d: Seq<u8>) -> bool {
    spec_parse_msg(d) matches Some(m) && crate::messages::spec_model_hdr(m).seq_num
        == pre.spec_seq_num() && crate::messages::spec_model_hdr(m).spec_has_skip()
        == pre.spec_skip_delegation()
}

/// The MAC rule applied on receipt: a Confirm or Delegate must carry the
/// HMAC of the stripped transcript including itself; an Accept's MAC is
/// deferred until its keys exist.
pub open spec fn spec_inbound_mac_ok(pre: Srd, d: Seq<u8>) -> bool {
    spec_parse_msg(d) matches Some(m) && ((m is Confirm || m is Delegate)
        ==> crate::messages::spec_model_mac(m) == Some(
        crate::crypto::hmac_sha256_of(
            pre.spec_integrity_key(),
            spec_mac_input(pre.spec_transcript().push(d)),
        ),
    ))
}

/// The CBT flag rule applied on receipt: a flagged message is accepted
/// only by a channel-binding session.
pub open spec fn spec_inbound_cbt_ok(pre: Srd, d: Seq<u8>) -> bool {
    spec_parse_msg(d) matches Some(m) && (crate::messages::spec_model_hdr(m).spec_has_cbt()
        ==> pre.spec_use_cbt())
}

impl Srd {
    /// `b` is `a` with at most the sequence number advanced and the
    /// transcript extended.
    pub closed spec fn spec_eq_except_progress(a: Srd, b: Srd) -> bool {
        b == (Srd { seq_num: b.seq_num, messages: b.messages, ..a })
    }

    /// Consume one inbound message: parse and validate it, check its
    /// sequence number and SKIP flag against the session, append its
    /// bytes to the transcript, and (except for Accept, whose key is not
    /// yet derived) verify its transcript MAC.
    fn read_msg(&mut self, buffer: &[u8]) -> (r: Result<SrdMessage, SrdError>)
        requires
            wf_transcript(old(self).spec_transcript()),
            old(self).spec_seq_num() < 255,
        ensures
            Srd::spec_eq_except_progress(*old(self), *final(self)),
            wf_transcript(final(self).spec_transcript()),
            final(self).spec_seq_num() <= old(self).spec_seq_num() + 1,
            match r {
                Ok(m) => {
                    &&& spec_parse_msg(buffer@) == Some(crate::messages::model_of(m))
                    &&& spec_inbound_frame_ok(*old(self), buffer@)
                    &&& spec_inbound_mac_ok(*old(self), buffer@)
                    &&& spec_inbound_cbt_ok(*old(self), buffer@)
                    &&& spec_msg_wf(m)
                    &&& crate::messages::spec_flag_rules(m)
                    &&& m.spec_hdr().seq_num == old(self).spec_seq_num()
                    &&& m.spec_hdr().spec_has_skip() == old(self).spec_skip_delegation()
                    &&& (m.spec_hdr().spec_has_cbt() ==> old(self).spec_use_cbt())
                    &&& final(self).spec_seq_num() == old(self).spec_seq_num() + 1
                    &&& final(self).spec_transcript() == old(self).spec_transcript().push(buffer@)
                    &&& (m.spec_mac() is Some && m.spec_hdr().msg_type != SRD_ACCEPT_MSG_ID
                        ==> m.spec_mac() == Some(
                        crate::crypto::hmac_sha256_of(
                            old(self).spec_integrity_key(),
                            spec_mac_input(final(self).spec_transcript()),
                        ),
                    ))
                },
                Err(e) => {
                    let pre = *old(self);
                    &&& !(e is Cipher) && !(e is MissingBlob) && !(e is InvalidCbt)
                    &&& (e is InvalidDataLength <==> (crate::messages::spec_err_short_header(
                        buffer@,
                    ) || crate::messages::spec_err_short_body(buffer@)))
                    &&& (e is InvalidSignature <==> crate::messages::spec_err_bad_signature(
                        buffer@,
                    ))
                    &&& (e is UnknownMsgType <==> crate::messages::spec_err_unknown_type(buffer@))
                    &&& (e is InvalidKeySize <==> crate::messages::spec_err_key_size(buffer@))
                    &&& (e is BadSequence <==> (spec_parse_msg(buffer@) matches Some(m)
                        && crate::messages::spec_model_hdr(m).seq_num != pre.spec_seq_num()))
                    &&& (e is Proto <==> (crate::messages::spec_err_flags(buffer@) || (
                    spec_parse_msg(buffer@) matches Some(m) && crate::messages::spec_model_hdr(
                        m,
                    ).seq_num == pre.spec_seq_num() && crate::messages::spec_model_hdr(
                        m,
                    ).spec_has_skip() != pre.spec_skip_delegation())))
                    &&& (e is InvalidMac <==> (spec_inbound_frame_ok(pre, buffer@)
                        && !spec_inbound_mac_ok(pre, buffer@)))
                    &&& (e is InvalidCert <==> (spec_inbound_frame_ok(pre, buffer@)
                        && spec_inbound_mac_ok(pre, buffer@) && !spec_inbound_cbt_ok(
                        pre,
                        buffer@,
                    )))
                },
            },
            spec_inbound_frame_ok(*old(self), buffer@) && spec_inbound_mac_ok(*old(self), buffer@)
                && spec_inbound_cbt_ok(*old(self), buffer@) ==> r is Ok,
    {
        let m = match SrdMessage::read_from(buffer) {
            Ok(m) => m,
            Err(e) => {
                return Err(e);
            },
        };
        proof {
            crate::messages::lemma_parse_some_no_err(buffer@);
        }
        if m.seq_num() != self.seq_num {
            return Err(SrdError::BadSequence);
        }
        self.seq_num = self.seq_num + 1;

        if m.has_skip() && !self.skip_delegation {
            return Err(SrdError::Proto(String::from_str("SRD_FLAG_SKIP not expected")));
        }
        if !m.has_skip() && self.skip_delegation {
            return Err(SrdError::Proto(String::from_str("SRD_FLAG_SKIP expected")));
        }

        // Keep the exact wire bytes for later MAC computations.
        let stored = crate::codec::get_bytes(buffer, 0, buffer.len());
        proof {
            assert(stored@ =~= buffer@);
            if spec_has_mac_flag(buffer@) {
                vstd::bytes::lemma_auto_spec_u16_to_from_le_bytes();
                vstd::bytes::lemma_auto_spec_u32_to_from_le_bytes();
                let h = crate::messages::spec_parse_header(buffer@)->Some_0;
                assert(h.flags == spec_u16_from_le_bytes(buffer@.subrange(6, 8)));
                assert(h.spec_has_mac());
                assert(buffer@.len() >= 40);
            }
        }
        self.messages.push(stored);
        proof {
            assert(self.messages@ == old(self).messages@.push(stored));
            assert(stored.deep_view() =~= buffer@);
            assert(self.messages.deep_view() =~~= old(self).spec_transcript().push(buffer@));
            assert forall|i: int|
                0 <= i < self.messages.deep_view().len() implies (#[trigger] spec_has_mac_flag(
                self.messages.deep_view()[i],
            ) ==> self.messages.deep_view()[i].len() >= 40) by {
                if i < old(self).spec_transcript().len() {
                    assert(self.messages.deep_view()[i] == old(self).spec_transcript()[i]);
                }
            }
        }

        // The Accept MAC can only be verified after key derivation, so it
        // is deferred to the step that derives the keys.
        if m.has_mac() && m.msg_type() != SRD_ACCEPT_MSG_ID {
            if let Err(e) = self.validate_mac(&m) {
                return Err(e);
            }
        }

        if m.has_cbt() && !self.use_cbt {
            return Err(SrdError::InvalidCert);
        }

        Ok(m)
    }

    /// Produce one outbound message: check its header, mark a
    /// delegation-skipping session, install the transcript MAC where the
    /// type carries one, serialize it, and append the bytes to the
    /// transcript.  The finished message is handed back.
    #[verifier::rlimit(100)]
    #[verifier::spinoff_prover]
    fn write_msg(&mut self, msg: SrdMessage) -> (r: Result<(SrdMessage, Vec<u8>), SrdError>)
        requires
            wf_transcript(old(self).spec_transcript()),
            old(self).spec_seq_num() < 255,
            spec_msg_wf(msg),
        ensures
            Srd::spec_eq_except_progress(*old(self), *final(self)),
            wf_transcript(final(self).spec_transcript()),
            final(self).spec_seq_num() <= old(self).spec_seq_num() + 1,
            match r {
                Ok(out) => {
                    let m2 = out.0;
                    let flags = if old(self).spec_skip_delegation() {
                        msg.spec_hdr().flags | crate::messages::SRD_FLAG_SKIP
                    } else {
                        msg.spec_hdr().flags
                    };
                    let flagged = crate::messages::spec_msg_with_flags(msg, flags);
                    &&& msg.spec_hdr().signature == SRD_SIGNATURE
                    &&& msg.spec_hdr().seq_num == old(self).spec_seq_num()
                    &&& spec_msg_wf(m2)
                    &&& (msg.spec_mac() is None ==> m2 == flagged)
                    &&& (msg.spec_mac() is Some ==> spec_msg_eq_except_mac(flagged, m2)
                        && m2.spec_mac() == Some(
                        crate::crypto::hmac_sha256_of(
                            old(self).spec_integrity_key(),
                            spec_mac_input(final(self).spec_transcript()),
                        ),
                    ))
                    &&& out.1@ == spec_msg_bytes(m2)
                    &&& final(self).spec_seq_num() == old(self).spec_seq_num() + 1
                    &&& final(self).spec_transcript() == old(self).spec_transcript().push(out.1@)
                },
                Err(e) => {
                    &&& *final(self) == *old(self)
                    &&& (e is InvalidSignature || e is BadSequence)
                    &&& (msg.spec_hdr().signature != SRD_SIGNATURE || msg.spec_hdr().seq_num
                        != old(self).spec_seq_num())
                },
            },
    {
        let mut m = msg;
        if m.signature() != SRD_SIGNATURE {
            return Err(SrdError::InvalidSignature);
        }
        if m.seq_num() != self.seq_num {
            return Err(SrdError::BadSequence);
        }

        let ghost oldflags = msg.spec_hdr().flags;
        if self.skip_delegation {
            m.set_skip();
            proof {
                let f = oldflags;
                assert((f | 4u16) & 1u16 == f & 1u16) by (bit_vector);
                assert((f | 4u16) & 2u16 == f & 2u16) by (bit_vector);
                assert((f | 4u16) & 4u16 != 0u16) by (bit_vector);
            }
        }
        let ghost flagged = m;
        proof {
            assert(flagged == crate::messages::spec_msg_with_flags(
                msg,
                if old(self).spec_skip_delegation() {
                    msg.spec_hdr().flags | crate::messages::SRD_FLAG_SKIP
                } else {
                    msg.spec_hdr().flags
                },
            ));
            assert(spec_msg_wf(flagged));
        }

        // Serialize with the MAC field still zeroed; the stripped bytes
        // are the same either way.
        let mut v: Vec<u8> = Vec::new();
        if let Err(e) = m.write_to(&mut v) {
            proof {
                assert(false);
            }
            return Err(SrdError::Io);
        }

        if m.has_mac() {
            let mut data = self.get_mac_data();
            let vlen = v.len();
            proof {
                vstd::bytes::lemma_auto_spec_u16_to_from_le_bytes();
                vstd::bytes::lemma_auto_spec_u32_to_from_le_bytes();
                assert(v@.len() >= 40);
            }
            let stripped = crate::codec::get_bytes(v.as_slice(), 0, vlen - 32);
            put_bytes(&mut data, stripped.as_slice());
            let mac = hmac_sha256(self.integrity_key.as_slice(), data.as_slice());
            if let Err(e) = m.set_mac(mac.as_slice()) {
                proof {
                    assert(false);
                }
                return Err(e);
            }
            proof {
                lemma_strip_mac_set_mac(flagged, m);
                assert(spec_has_mac_flag(v@)) by {
                    vstd::bytes::lemma_auto_spec_u16_to_from_le_bytes();
                    assert(v@.subrange(6, 8) =~= vstd::bytes::spec_u16_to_le_bytes(
                        flagged.spec_hdr().flags,
                    ));
                }
            }
        }

        let mut buffer: Vec<u8> = Vec::new();
        if let Err(e) = m.write_to(&mut buffer) {
            proof {
                assert(false);
            }
            return Err(SrdError::Io);
        }
        proof {
            assert(buffer@ =~= spec_msg_bytes(m));
        }
        let stored = crate::codec::get_bytes(buffer.as_slice(), 0, buffer.len());
        proof {
            assert(stored@ =~= buffer@);
            if spec_has_mac_flag(buffer@) {
                vstd::bytes::lemma_auto_spec_u16_to_from_le_bytes();
                vstd::bytes::lemma_auto_spec_u32_to_from_le_bytes();
                assert(buffer@.subrange(6, 8) =~= vstd::bytes::spec_u16_to_le_bytes(
                    m.spec_hdr().flags,
                ));
                assert(buffer@.len() >= 40);
            }
        }
        self.messages.push(stored);
        proof {
            assert(self.messages@ == old(self).messages@.push(stored));
            assert(stored.deep_view() =~= buffer@);
            assert(self.messages.deep_view() =~~= old(self).spec_transcript().push(stored@));
            assert forall|i: int|
                0 <= i < self.messages.deep_view().len() implies (#[trigger] spec_has_mac_flag(
                self.messages.deep_view()[i],
            ) ==> self.messages.deep_view()[i].len() >= 40) by {
                if i < old(self).spec_transcript().len() {
                    assert(self.messages.deep_view()[i] == old(self).spec_transcript()[i]);
                }
            }
            lemma_mac_input_push(old(self).spec_transcript(), stored@);
            if m.spec_mac() is Some {
                assert(spec_strip_mac(stored@) == spec_strip_mac(v@));
            }
        }
        self.seq_num = self.seq_num + 1;
        Ok((m, buffer))
    }
}

/// The inbound message is an Accept whose frame and CBT flag fit the
/// session.
pub open spec fn spec_server1_frame_ok(pre: Srd, d: Seq<u8>) -> bool {
    &&& spec_inbound_frame_ok(pre, d)
    &&& spec_inbound_cbt_ok(pre, d)
    &&& spec_parse_msg(d) matches Some(MsgModel::Accept { .. })
}

/// The Accept advertises exactly one cipher and the session supports it.
pub open spec fn spec_server1_cipher_ok(pre: Srd, d: Seq<u8>) -> bool {
    match spec_parse_msg(d) {
        Some(MsgModel::Accept { cipher, .. }) => spec_from_flags(cipher).len() == 1
            && pre.spec_supported_ciphers().contains(spec_from_flags(cipher)[0]),
        _ => false,
    }
}

/// The integrity key the server derives from this Accept: the key
/// schedule over the client nonce, the shared secret obtained by raising
/// the client's public value to the server's exponent, and the server
/// nonce.
pub open spec fn spec_server1_ikey(pre: Srd, d: Seq<u8>) -> Seq<u8> {
    match spec_parse_msg(d) {
        Some(MsgModel::Accept { public_key, nonce, .. }) => spec_derive(
            nonce,
            crate::crypto::be_enc(
                pow_mod(
                    be_nat(public_key),
                    be_nat(pre.spec_private_key()),
                    be_nat(pre.spec_prime()),
                ),
            ),
            pre.spec_server_nonce(),
        ).1,
        _ => Seq::<u8>::empty(),
    }
}

/// The Accept's deferred MAC equals the HMAC of the stripped transcript
/// under the integrity key this Accept determines.
pub open spec fn spec_server1_mac_ok(pre: Srd, d: Seq<u8>) -> bool {
    match spec_parse_msg(d) {
        Some(MsgModel::Accept { mac, .. }) => mac == crate::crypto::hmac_sha256_of(
            spec_server1_ikey(pre, d),
            spec_mac_input(pre.spec_transcript().push(d)),
        ),
        _ => false,
    }
}

/// A channel-binding session has certificate bytes to bind.
pub open spec fn spec_cert_present(pre: Srd) -> bool {
    pre.spec_use_cbt() ==> pre.spec_cert_data() is Some
}

/// The Accept's channel binding token matches the recomputation from
/// this session's certificate bytes, or is ignored-as-zero without
/// channel binding.
pub open spec fn spec_server1_cbt_ok(pre: Srd, d: Seq<u8>) -> bool {
    match spec_parse_msg(d) {
        Some(MsgModel::Accept { nonce, cbt, .. }) => cbt == (if pre.spec_use_cbt() {
            crate::crypto::hmac_sha256_of(
                spec_server1_ikey(pre, d),
                nonce + pre.spec_cert_data()->Some_0@,
            )
        } else {
            Seq::<u8>::new(32, |i: int| 0u8)
        }),
        _ => false,
    }
}

/// The inbound message is a Delegate whose frame, CBT flag and MAC fit
/// the session.
pub open spec fn spec_server2_frame_ok(pre: Srd, d: Seq<u8>) -> bool {
    &&& spec_inbound_frame_ok(pre, d)
    &&& spec_inbound_cbt_ok(pre, d)
    &&& spec_inbound_mac_ok(pre, d)
    &&& spec_parse_msg(d) matches Some(MsgModel::Delegate { .. })
}

/// The Delegate's payload is decryptable and parses as a blob under the
/// session's cipher, delegation key and IV.
pub open spec fn spec_server2_blob_ok(pre: Srd, d: Seq<u8>) -> bool {
    match spec_parse_msg(d) {
        Some(MsgModel::Delegate { encrypted_blob, .. }) => {
            &&& encrypted_blob.len() < 0x1000_0000
            &&& (pre.spec_cipher() is AES256 ==> encrypted_blob.len() % 16 == 0)
            &&& crate::blobs::spec_parse_blob(
                crate::cipher::spec_decrypt(
                    pre.spec_cipher(),
                    pre.spec_delegation_key(),
                    pre.spec_iv(),
                    encrypted_blob,
                ),
            ) is Some
        },
        _ => false,
    }
}

/// The inbound message is a Confirm whose frame, CBT flag and MAC fit
/// the session.
pub open spec fn spec_client2_frame_ok(pre: Srd, d: Seq<u8>) -> bool {
    &&& spec_inbound_frame_ok(pre, d)
    &&& spec_inbound_cbt_ok(pre, d)
    &&& spec_inbound_mac_ok(pre, d)
    &&& spec_parse_msg(d) matches Some(MsgModel::Confirm { .. })
}

/// The Confirm's channel binding token matches the recomputation from
/// this session's certificate bytes, or is zero without channel binding.
pub open spec fn spec_client2_cbt_ok(pre: Srd, d: Seq<u8>) -> bool {
    match spec_parse_msg(d) {
        Some(MsgModel::Confirm { cbt, .. }) => cbt == (if pre.spec_use_cbt() {
            crate::crypto::hmac_sha256_of(
                pre.spec_integrity_key(),
                pre.spec_server_nonce() + pre.spec_cert_data()->Some_0@,
            )
        } else {
            Seq::<u8>::new(32, |i: int| 0u8)
        }),
        _ => false,
    }
}

/// The inbound message is an Initiate whose frame and CBT flag fit the
/// session.
pub open spec fn spec_server0_frame_ok(pre: Srd, d: Seq<u8>) -> bool {
    &&& spec_inbound_frame_ok(pre, d)
    &&& spec_inbound_cbt_ok(pre, d)
    &&& spec_parse_msg(d) matches Some(MsgModel::Initiate { .. })
}

/// The inbound message is an Offer whose frame and CBT flag fit the
/// session, echoing the session's key size with a nonzero prime.
pub open spec fn spec_client1_frame_ok(pre: Srd, d: Seq<u8>) -> bool {
    &&& spec_inbound_frame_ok(pre, d)
    &&& spec_inbound_cbt_ok(pre, d)
    &&& spec_parse_msg(d) matches Some(MsgModel::Offer { .. })
}

/// The Offer echoes the client's key size.
pub open spec fn spec_client1_key_size_ok(pre: Srd, d: Seq<u8>) -> bool {
    match spec_parse_msg(d) {
        Some(MsgModel::Offer { key_size, .. }) => key_size == pre.spec_key_size(),
        _ => false,
    }
}

/// The Offer's prime denotes a positive number.
pub open spec fn spec_client1_prime_ok(d: Seq<u8>) -> bool {
    match spec_parse_msg(d) {
        Some(MsgModel::Offer { prime, .. }) => be_nat(prime) > 0,
        _ => false,
    }
}

/// The Offer advertises at least one cipher this session supports.
pub open spec fn spec_client1_common_ok(pre: Srd, d: Seq<u8>) -> bool {
    match spec_parse_msg(d) {
        Some(MsgModel::Offer { ciphers, .. }) => spec_common_ciphers(
            spec_from_flags(ciphers),
            pre.spec_supported_ciphers(),
        ).len() > 0,
        _ => false,
    }
}

impl Srd {
    /// The state-independent part of the invariant: field widths, a legal
    /// key size, and a strippable transcript.
    pub closed spec fn wf_core(self) -> bool {
        &&& self.client_nonce@.len() == 32
        &&& self.server_nonce@.len() == 32
        &&& self.delegation_key@.len() == 32
        &&& self.integrity_key@.len() == 32
        &&& self.iv@.len() == 32
        &&& valid_key_size(self.key_size)
        &&& wf_transcript(self.messages.deep_view())
        &&& self.state <= 3
    }

    /// The bookkeeping every step guarantees: the role, the delegation
    /// switch and the step counter are untouched, the sequence number
    /// advances by at most two, and the core invariant holds again.
    pub closed spec fn spec_step_frame(a: Srd, b: Srd) -> bool {
        &&& b.wf_core()
        &&& b.state == a.state
        &&& b.is_server == a.is_server
        &&& b.skip_delegation == a.skip_delegation
        &&& b.seq_num <= a.seq_num + 2
    }

    /// Client step 0: advertise the supported ciphers and the key size in
    /// an Initiate message.  An empty cipher set fails with `Cipher`.
    #[verifier::rlimit(100)]
    #[verifier::spinoff_prover]
    fn client_authenticate_0(&mut self) -> (r: Result<Vec<u8>, SrdError>)
        requires
            old(self).wf(),
            !old(self).spec_is_server(),
            old(self).spec_state() == 0,
        ensures
            Srd::spec_step_frame(*old(self), *final(self)),
            match r {
                Ok(out) => {
                    &&& old(self).spec_supported_ciphers().len() > 0
                    &&& spec_parse_msg(out@) matches Some(MsgModel::Initiate {
                        hdr,
                        ciphers,
                        key_size,
                        ..
                    }) && hdr.seq_num == old(self).spec_seq_num() && hdr.spec_has_cbt() == old(self).spec_use_cbt() && hdr.spec_has_skip() == old(self).spec_skip_delegation()
                        && ciphers == spec_cipher_flags(old(self).spec_supported_ciphers())
                        && key_size == old(self).spec_key_size()
                    &&& final(self).spec_transcript() == old(self).spec_transcript().push(out@)
                    &&& final(self).spec_seq_num() == old(self).spec_seq_num() + 1
                },
                Err(e) => e is Cipher && old(self).spec_supported_ciphers().len() == 0,
            },
    {
        let cipher_flags = cipher_flags_union(self.supported_ciphers.as_slice());
        if cipher_flags == 0 {
            return Err(SrdError::Cipher);
        }
        let mut out_msg = match new_srd_initiate_msg(self.seq_num, cipher_flags, self.key_size) {
            Ok(m) => m,
            Err(e) => {
                proof {
                    assert(false);
                }
                return Err(e);
            },
        };
        proof {
            assert(0u16 & 1u16 == 0u16) by (bit_vector);
            assert(0u16 & 2u16 == 0u16) by (bit_vector);
            assert(0u16 & 4u16 == 0u16) by (bit_vector);
            assert((0u16 | 2u16) & 1u16 == 0u16) by (bit_vector);
            assert((0u16 | 2u16) & 2u16 != 0u16) by (bit_vector);
            assert((0u16 | 2u16) & 4u16 == 0u16) by (bit_vector);
        }
        if self.use_cbt {
            out_msg.set_cbt_flag();
        }
        let (m2, buffer) = match self.write_msg(out_msg) {
            Ok(x) => x,
            Err(e) => {
                proof {
                    assert(false);
                }
                return Err(e);
            },
        };
        proof {
            crate::messages::lemma_msg_round_trip(m2);
            let f = out_msg.spec_hdr().flags;
            assert((f | 4u16) & 2u16 == f & 2u16) by (bit_vector);
            assert((f | 4u16) & 4u16 != 0u16) by (bit_vector);
        }
        Ok(buffer)
    }

    /// Server step 0: consume the Initiate, install the group for the
    /// requested key size, sample the private key and nonce, and answer
    /// with an Offer carrying the public key.
    #[verifier::rlimit(100)]
    #[verifier::spinoff_prover]
    fn server_authenticate_0(&mut self, input_data: &[u8]) -> (r: Result<Vec<u8>, SrdError>)
        requires
            old(self).wf(),
            old(self).spec_is_server(),
            old(self).spec_state() == 0,
        ensures
            Srd::spec_step_frame(*old(self), *final(self)),
            match r {
                Ok(out) => {
                    &&& spec_parse_msg(input_data@) matches Some(MsgModel::Initiate {
                        hdr,
                        key_size,
                        ..
                    }) && final(self).spec_key_size() == key_size && final(self).spec_use_cbt()
                        == hdr.spec_has_cbt()
                    &&& be_nat(final(self).spec_prime()) > 0
                    &&& final(self).spec_prime().len() == final(self).spec_key_size()
                    &&& spec_parse_msg(out@) matches Some(MsgModel::Offer {
                        hdr,
                        ciphers,
                        key_size,
                        generator,
                        prime,
                        public_key,
                        nonce,
                    }) && hdr.seq_num == old(self).spec_seq_num() + 1 && ciphers
                        == spec_cipher_flags(old(self).spec_supported_ciphers()) && key_size
                        == final(self).spec_key_size() && prime == final(self).spec_prime()
                        && generator == crate::dh_params::DH_GENERATOR@ && be_nat(public_key)
                        == pow_mod(
                        be_nat(final(self).spec_generator()),
                        be_nat(final(self).spec_private_key()),
                        be_nat(final(self).spec_prime()),
                    ) && nonce == final(self).spec_server_nonce()
                },
                Err(e) => {
                    let pre = *old(self);
                    &&& (e is Cipher ==> (spec_server0_frame_ok(pre, input_data@)
                        && pre.spec_supported_ciphers().len() == 0))
                    &&& (spec_server0_frame_ok(pre, input_data@)
                        && pre.spec_supported_ciphers().len() == 0 ==> (e is Cipher || e is Rng))
                },
            },
            spec_server0_frame_ok(*old(self), input_data@) && old(self).spec_supported_ciphers().len() > 0 ==> (r is Ok || r->Err_0 is Rng),
    {
        let ghost pre = *old(self);
        let m = match self.read_msg(input_data) {
            Ok(m) => m,
            Err(e) => {
                return Err(e);
            },
        };
        let (hdr, initiate) = match m {
            SrdMessage::Initiate(hdr, initiate) => (hdr, initiate),
            _ => {
                return Err(SrdError::BadSequence);
            },
        };
        self.use_cbt = hdr.has_cbt();
        self.key_size = initiate.key_size();
        let (g, p) = match find_dh_parameters(self.key_size) {
            Ok(gp) => gp,
            Err(e) => {
                proof {
                    assert(false);
                }
                return Err(e);
            },
        };
        let private_key = match random_bytes(self.key_size as usize) {
            Ok(v) => v,
            Err(e) => {
                return Err(e);
            },
        };
        let public_key = modpow_bytes(g.as_slice(), private_key.as_slice(), p.as_slice());
        let nonce = match random_bytes(32) {
            Ok(v) => v,
            Err(e) => {
                return Err(e);
            },
        };
        let cipher_flags = cipher_flags_union(self.supported_ciphers.as_slice());
        if cipher_flags == 0 {
            return Err(SrdError::Cipher);
        }
        proof {
            lemma_min_be_len_le(public_key@, p@);
        }
        let mut out_msg = new_srd_offer_msg(
            self.seq_num,
            cipher_flags,
            self.key_size,
            vstd::slice::slice_to_vec(g.as_slice()),
            vstd::slice::slice_to_vec(p.as_slice()),
            public_key,
            to_array_32(nonce.as_slice()),
        );
        proof {
            assert(0u16 & 1u16 == 0u16) by (bit_vector);
            assert(0u16 & 2u16 == 0u16) by (bit_vector);
            assert(0u16 & 4u16 == 0u16) by (bit_vector);
            assert((0u16 | 2u16) & 1u16 == 0u16) by (bit_vector);
            assert((0u16 | 2u16) & 2u16 != 0u16) by (bit_vector);
            assert((0u16 | 2u16) & 4u16 == 0u16) by (bit_vector);
        }
        if self.use_cbt {
            out_msg.set_cbt_flag();
        }
        self.generator = g;
        self.prime = p;
        self.private_key = private_key;
        self.server_nonce = nonce;
        let (m2, buffer) = match self.write_msg(out_msg) {
            Ok(x) => x,
            Err(e) => {
                proof {
                    assert(false);
                }
                return Err(e);
            },
        };
        proof {
            crate::messages::lemma_msg_round_trip(m2);
            let f = out_msg.spec_hdr().flags;
            assert((f | 4u16) & 2u16 == f & 2u16) by (bit_vector);
            let padded = crate::codec::spec_left_pad(public_key@, self.key_size as int);
            if public_key@.len() < self.key_size as int {
                crate::crypto::lemma_be_nat_zero_extend(
                    Seq::<u8>::new((self.key_size as int - public_key@.len()) as nat, |i: int| 0u8),
                    public_key@,
                );
            }
            assert(be_nat(padded) == be_nat(public_key@));
        }
        Ok(buffer)
    }
}

impl Srd {
    /// Client step 1: consume the Offer, install the group it carries,
    /// run the Diffie-Hellman exchange, derive the keys, pick the best
    /// common cipher, and answer with a MAC-closed Accept carrying the
    /// client nonce and channel binding token.
    #[verifier::rlimit(100)]
    #[verifier::spinoff_prover]
    fn client_authenticate_1(&mut self, input_data: &[u8]) -> (r: Result<Vec<u8>, SrdError>)
        requires
            old(self).wf(),
            !old(self).spec_is_server(),
            old(self).spec_state() == 1,
        ensures
            Srd::spec_step_frame(*old(self), *final(self)),
            match r {
                Ok(out) => {
                    &&& spec_parse_msg(input_data@) matches Some(MsgModel::Offer {
                        ciphers,
                        prime,
                        public_key,
                        nonce,
                        ..
                    }) && final(self).spec_server_nonce() == nonce && final(self).spec_prime()
                        == prime && be_nat(final(self).spec_secret_key()) == pow_mod(
                        be_nat(public_key),
                        be_nat(final(self).spec_private_key()),
                        be_nat(prime),
                    ) && min_be(final(self).spec_secret_key()) && final(self).spec_cipher()
                        == spec_best_cipher(
                        spec_common_ciphers(
                            spec_from_flags(ciphers),
                            old(self).spec_supported_ciphers(),
                        ),
                    )
                    &&& (
                        final(self).spec_delegation_key(),
                        final(self).spec_integrity_key(),
                        final(self).spec_iv(),
                    ) == spec_derive(
                        final(self).spec_client_nonce(),
                        final(self).spec_secret_key(),
                        final(self).spec_server_nonce(),
                    )
                    &&& spec_client1_common_ok(*old(self), input_data@)
                    &&& spec_parse_msg(out@) matches Some(MsgModel::Accept {
                        hdr,
                        cipher,
                        nonce,
                        cbt,
                        mac,
                        ..
                    }) && cipher == spec_flag(final(self).spec_cipher()) && nonce == final(self).spec_client_nonce() && (old(self).spec_use_cbt()
                        ==> cbt == crate::crypto::hmac_sha256_of(
                        final(self).spec_integrity_key(),
                        final(self).spec_client_nonce() + old(self).spec_cert_data()->Some_0@,
                    )) && mac == crate::crypto::hmac_sha256_of(
                        final(self).spec_integrity_key(),
                        spec_mac_input(final(self).spec_transcript()),
                    )
                    &&& (spec_parse_msg(input_data@) matches Some(MsgModel::Offer {
                        generator,
                        prime,
                        ..
                    }) && (spec_parse_msg(out@) matches Some(MsgModel::Accept {
                        public_key,
                        key_size,
                        ..
                    }) && be_nat(public_key) == pow_mod(
                        be_nat(generator),
                        be_nat(final(self).spec_private_key()),
                        be_nat(prime),
                    ) && key_size == old(self).spec_key_size()))
                },
                Err(e) => {
                    let pre = *old(self);
                    &&& (e is Proto <==> (crate::messages::spec_err_flags(input_data@) || (
                    spec_parse_msg(input_data@) matches Some(m) && crate::messages::spec_model_hdr(
                        m,
                    ).seq_num == pre.spec_seq_num() && crate::messages::spec_model_hdr(
                        m,
                    ).spec_has_skip() != pre.spec_skip_delegation()) || (spec_client1_frame_ok(
                        pre,
                        input_data@,
                    ) && (!spec_client1_key_size_ok(pre, input_data@) || (
                    spec_client1_key_size_ok(pre, input_data@) && !spec_client1_prime_ok(
                        input_data@,
                    ))))))
                    &&& (e is Cipher ==> (spec_client1_frame_ok(pre, input_data@)
                        && spec_client1_key_size_ok(pre, input_data@) && spec_client1_prime_ok(
                        input_data@,
                    ) && spec_cert_present(pre) && !spec_client1_common_ok(pre, input_data@)))
                    &&& (spec_client1_frame_ok(pre, input_data@) && spec_client1_key_size_ok(
                        pre,
                        input_data@,
                    ) && spec_client1_prime_ok(input_data@) && spec_cert_present(pre)
                        && !spec_client1_common_ok(pre, input_data@) ==> (e is Cipher || e
                        is Rng))
                    &&& (e is InvalidCert ==> ((spec_inbound_frame_ok(pre, input_data@)
                        && spec_inbound_mac_ok(pre, input_data@) && !spec_inbound_cbt_ok(
                        pre,
                        input_data@,
                    )) || (spec_client1_frame_ok(pre, input_data@) && spec_client1_key_size_ok(
                        pre,
                        input_data@,
                    ) && spec_client1_prime_ok(input_data@) && !spec_cert_present(pre))))
                },
            },
            spec_client1_frame_ok(*old(self), input_data@) && spec_client1_key_size_ok(
                *old(self),
                input_data@,
            ) && spec_client1_prime_ok(input_data@) && spec_cert_present(*old(self))
                && spec_client1_common_ok(*old(self), input_data@) ==> (r is Ok || r->Err_0
                is Rng),
    {
        let ghost pre = *old(self);
        let m = match self.read_msg(input_data) {
            Ok(m) => m,
            Err(e) => {
                return Err(e);
            },
        };
        let offer = match m {
            SrdMessage::Offer(_, offer) => offer,
            _ => {
                return Err(SrdError::BadSequence);
            },
        };
        if offer.key_size() != self.key_size {
            return Err(
                SrdError::Proto(
                    String::from_str("Key size received in offer does not match the one sent"),
                ),
            );
        }
        let server_ciphers = Cipher::from_flags(offer.ciphers);
        if !has_nonzero_byte(offer.prime.as_slice()) {
            return Err(SrdError::Proto(String::from_str("Offer carries a zero prime")));
        }
        self.generator = offer.generator;
        self.prime = offer.prime;
        let private_key = match random_bytes(self.key_size as usize) {
            Ok(v) => v,
            Err(e) => {
                return Err(e);
            },
        };
        let public_key = modpow_bytes(
            self.generator.as_slice(),
            private_key.as_slice(),
            self.prime.as_slice(),
        );
        let client_nonce = match random_bytes(32) {
            Ok(v) => v,
            Err(e) => {
                return Err(e);
            },
        };
        self.private_key = private_key;
        self.client_nonce = client_nonce;
        self.server_nonce = offer.nonce;
        let secret = modpow_bytes(
            offer.public_key.as_slice(),
            self.private_key.as_slice(),
            self.prime.as_slice(),
        );
        self.secret_key = secret;
        self.derive_keys();

        let cbt_data = match self.compute_cbt(self.client_nonce.as_slice()) {
            Ok(c) => c,
            Err(e) => {
                return Err(e);
            },
        };
        let common = common_ciphers(server_ciphers.as_slice(), self.supported_ciphers.as_slice());
        self.cipher = match Cipher::best_cipher(common.as_slice()) {
            Ok(c) => c,
            Err(e) => {
                return Err(e);
            },
        };
        proof {
            lemma_min_be_len_le(public_key@, self.prime@);
        }
        let out_msg = new_srd_accept_msg(
            self.seq_num,
            self.use_cbt,
            self.cipher.flag(),
            self.key_size,
            public_key,
            to_array_32(self.client_nonce.as_slice()),
            to_array_32(cbt_data.as_slice()),
        );
        let (m2, out) = match self.write_msg(out_msg) {
            Ok(x) => x,
            Err(e) => {
                proof {
                    assert(false);
                }
                return Err(e);
            },
        };
        proof {
            crate::messages::lemma_msg_round_trip(m2);
            let padded = crate::codec::spec_left_pad(public_key@, self.key_size as int);
            if public_key@.len() < self.key_size as int {
                crate::crypto::lemma_be_nat_zero_extend(
                    Seq::<u8>::new((self.key_size as int - public_key@.len()) as nat, |i: int| 0u8),
                    public_key@,
                );
            }
            assert(be_nat(padded) == be_nat(public_key@));
        }
        Ok(out)
    }

    /// Server step 1: consume the Accept, adopt the single cipher it
    /// names, finish the Diffie-Hellman exchange, derive the keys, then
    /// verify the Accept's deferred transcript MAC and the client's
    /// channel binding token, and answer with a MAC-closed Confirm.
    #[verifier::rlimit(100)]
    #[verifier::spinoff_prover]
    fn server_authenticate_1(&mut self, input_data: &[u8]) -> (r: Result<Vec<u8>, SrdError>)
        requires
            old(self).wf(),
            old(self).spec_is_server(),
            old(self).spec_state() == 1,
        ensures
            Srd::spec_step_frame(*old(self), *final(self)),
            match r {
                Ok(out) => {
                    &&& spec_parse_msg(input_data@) matches Some(MsgModel::Accept {
                        cipher,
                        public_key,
                        nonce,
                        cbt,
                        mac,
                        ..
                    }) && spec_from_flags(cipher).len() == 1 && final(self).spec_cipher()
                        == spec_from_flags(cipher)[0] && old(self).spec_supported_ciphers().contains(
                        final(self).spec_cipher(),
                    ) && final(self).spec_client_nonce() == nonce && be_nat(
                        final(self).spec_secret_key(),
                    ) == pow_mod(
                        be_nat(public_key),
                        be_nat(old(self).spec_private_key()),
                        be_nat(old(self).spec_prime()),
                    ) && min_be(final(self).spec_secret_key()) && mac
                        == crate::crypto::hmac_sha256_of(
                        final(self).spec_integrity_key(),
                        spec_mac_input(old(self).spec_transcript().push(input_data@)),
                    ) && (old(self).spec_use_cbt() ==> cbt == crate::crypto::hmac_sha256_of(
                        final(self).spec_integrity_key(),
                        final(self).spec_client_nonce() + old(self).spec_cert_data()->Some_0@,
                    ))
                    &&& (
                        final(self).spec_delegation_key(),
                        final(self).spec_integrity_key(),
                        final(self).spec_iv(),
                    ) == spec_derive(
                        final(self).spec_client_nonce(),
                        final(self).spec_secret_key(),
                        final(self).spec_server_nonce(),
                    )
                    &&& spec_parse_msg(out@) matches Some(MsgModel::Confirm { hdr, cbt, mac })
                        && hdr.spec_has_skip() == old(self).spec_skip_delegation() && (old(self).spec_use_cbt() ==> cbt == crate::crypto::hmac_sha256_of(
                        final(self).spec_integrity_key(),
                        final(self).spec_server_nonce() + old(self).spec_cert_data()->Some_0@,
                    )) && mac == crate::crypto::hmac_sha256_of(
                        final(self).spec_integrity_key(),
                        spec_mac_input(final(self).spec_transcript()),
                    )
                },
                Err(e) => {
                    let pre = *old(self);
                    &&& (e is Cipher <==> (spec_server1_frame_ok(pre, input_data@)
                        && !spec_server1_cipher_ok(pre, input_data@)))
                    &&& (e is InvalidMac <==> ((spec_inbound_frame_ok(pre, input_data@)
                        && !spec_inbound_mac_ok(pre, input_data@)) || (spec_server1_frame_ok(
                        pre,
                        input_data@,
                    ) && spec_server1_cipher_ok(pre, input_data@) && !spec_server1_mac_ok(
                        pre,
                        input_data@,
                    ))))
                    &&& (e is InvalidCert <==> ((spec_inbound_frame_ok(pre, input_data@)
                        && spec_inbound_mac_ok(pre, input_data@) && !spec_inbound_cbt_ok(
                        pre,
                        input_data@,
                    )) || (spec_server1_frame_ok(pre, input_data@) && spec_server1_cipher_ok(
                        pre,
                        input_data@,
                    ) && spec_server1_mac_ok(pre, input_data@) && !spec_cert_present(pre))))
                    &&& (e is InvalidCbt <==> (spec_server1_frame_ok(pre, input_data@)
                        && spec_server1_cipher_ok(pre, input_data@) && spec_server1_mac_ok(
                        pre,
                        input_data@,
                    ) && spec_cert_present(pre) && !spec_server1_cbt_ok(pre, input_data@)))
                },
            },
            spec_server1_frame_ok(*old(self), input_data@) && spec_server1_cipher_ok(
                *old(self),
                input_data@,
            ) && spec_server1_mac_ok(*old(self), input_data@) && spec_cert_present(*old(self))
                && spec_server1_cbt_ok(*old(self), input_data@) ==> r is Ok,
    {
        let ghost pre = *old(self);
        let m = match self.read_msg(input_data) {
            Ok(m) => m,
            Err(e) => {
                return Err(e);
            },
        };
        proof {
            crate::messages::lemma_model_of_fields(m);
        }
        let accept_cbt: Vec<u8> = match &m {
            SrdMessage::Accept(_, accept) => {
                let chosen = Cipher::from_flags(accept.cipher);
                if chosen.len() != 1 {
                    return Err(SrdError::Cipher);
                }
                let c = *vstd::slice::slice_index_get(chosen.as_slice(), 0);
                if !crate::cipher::contains_cipher(self.supported_ciphers.as_slice(), c) {
                    return Err(SrdError::Cipher);
                }
                self.cipher = c;
                self.client_nonce = vstd::slice::slice_to_vec(accept.nonce.as_slice());
                let secret = modpow_bytes(
                    accept.public_key.as_slice(),
                    self.private_key.as_slice(),
                    self.prime.as_slice(),
                );
                self.secret_key = secret;
                self.derive_keys();
                proof {
                    crate::crypto::lemma_min_be_is_enc(self.secret_key@);
                    assert(self.integrity_key@ == spec_server1_ikey(pre, input_data@));
                }
                vstd::slice::slice_to_vec(accept.cbt.as_slice())
            },
            _ => {
                return Err(SrdError::BadSequence);
            },
        };

        // The integrity key now exists; verify the deferred Accept MAC.
        if let Err(e) = self.validate_mac(&m) {
            return Err(e);
        }

        // Verify the client's channel binding token.
        let cbt_data = match self.compute_cbt(self.client_nonce.as_slice()) {
            Ok(c) => c,
            Err(e) => {
                return Err(e);
            },
        };
        if !bytes_eq(cbt_data.as_slice(), accept_cbt.as_slice()) {
            return Err(SrdError::InvalidCbt);
        }

        let cbt2 = match self.compute_cbt(self.server_nonce.as_slice()) {
            Ok(c) => c,
            Err(e) => {
                return Err(e);
            },
        };
        let out_msg = new_srd_confirm_msg(
            self.seq_num,
            self.use_cbt,
            self.skip_delegation,
            to_array_32(cbt2.as_slice()),
        );
        let (m2, out) = match self.write_msg(out_msg) {
            Ok(x) => x,
            Err(e) => {
                proof {
                    assert(false);
                }
                return Err(e);
            },
        };
        proof {
            crate::messages::lemma_msg_round_trip(m2);
            let f = out_msg.spec_hdr().flags;
            assert((f | 4u16) & 4u16 != 0u16) by (bit_vector);
            assert((f | 4u16) & 2u16 == f & 2u16) by (bit_vector);
            assert((f | 4u16) & 1u16 == f & 1u16) by (bit_vector);
        }
        Ok(out)
    }

    /// Client step 2: consume the Confirm, verify the server's channel
    /// binding token, and unless the server skipped delegation, serialize
    /// and encrypt the stored blob into a MAC-closed Delegate.
    #[verifier::rlimit(100)]
    #[verifier::spinoff_prover]
    fn client_authenticate_2(&mut self, input_data: &[u8]) -> (r: Result<Vec<u8>, SrdError>)
        requires
            old(self).wf(),
            !old(self).spec_is_server(),
            old(self).spec_state() == 2,
        ensures
            Srd::spec_step_frame(*old(self), *final(self)),
            match r {
                Ok(out) => {
                    &&& spec_parse_msg(input_data@) matches Some(MsgModel::Confirm {
                        hdr,
                        cbt,
                        mac,
                    }) && mac == crate::crypto::hmac_sha256_of(
                        old(self).spec_integrity_key(),
                        spec_mac_input(old(self).spec_transcript().push(input_data@)),
                    ) && (old(self).spec_use_cbt() ==> cbt == crate::crypto::hmac_sha256_of(
                        old(self).spec_integrity_key(),
                        old(self).spec_server_nonce() + old(self).spec_cert_data()->Some_0@,
                    )) && (hdr.spec_has_skip() ==> out@.len() == 0) && (!hdr.spec_has_skip()
                        ==> (old(self).spec_blob() matches Some(b) && b.wf() && (
                    spec_parse_msg(out@) matches Some(MsgModel::Delegate {
                        encrypted_blob,
                        mac,
                        ..
                    }) && (exists|p1: Seq<u8>, p2: Seq<u8>|
                        {
                            &&& p1.len() == crate::blobs::spec_type_padding(b)
                            &&& p2.len() == crate::blobs::spec_data_padding(b)
                            &&& encrypted_blob == crate::cipher::spec_encrypt(
                                old(self).spec_cipher(),
                                old(self).spec_delegation_key(),
                                old(self).spec_iv(),
                                crate::blobs::spec_blob_bytes(b, p1, p2),
                            )
                            &&& crate::cipher::spec_decrypt(
                                old(self).spec_cipher(),
                                old(self).spec_delegation_key(),
                                old(self).spec_iv(),
                                encrypted_blob,
                            ) == crate::blobs::spec_blob_bytes(b, p1, p2)
                        }) && mac == crate::crypto::hmac_sha256_of(
                        old(self).spec_integrity_key(),
                        spec_mac_input(final(self).spec_transcript()),
                    ))))
                },
                Err(e) => {
                    let pre = *old(self);
                    &&& (e is InvalidMac <==> (spec_inbound_frame_ok(pre, input_data@)
                        && !spec_inbound_mac_ok(pre, input_data@)))
                    &&& (e is InvalidCert <==> ((spec_inbound_frame_ok(pre, input_data@)
                        && spec_inbound_mac_ok(pre, input_data@) && !spec_inbound_cbt_ok(
                        pre,
                        input_data@,
                    )) || (spec_client2_frame_ok(pre, input_data@) && !spec_cert_present(pre))))
                    &&& (e is InvalidCbt <==> (spec_client2_frame_ok(pre, input_data@)
                        && spec_cert_present(pre) && !spec_client2_cbt_ok(pre, input_data@)))
                    &&& (e is MissingBlob <==> (spec_client2_frame_ok(pre, input_data@)
                        && spec_cert_present(pre) && spec_client2_cbt_ok(pre, input_data@) && !(
                    spec_parse_msg(input_data@) matches Some(MsgModel::Confirm { hdr, .. })
                        && hdr.spec_has_skip()) && pre.spec_blob() is None))
                    &&& (e is InvalidDataLength <==> ((crate::messages::spec_err_short_header(
                        input_data@,
                    ) || crate::messages::spec_err_short_body(input_data@)) || (
                    spec_client2_frame_ok(pre, input_data@) && spec_cert_present(pre)
                        && spec_client2_cbt_ok(pre, input_data@) && !(spec_parse_msg(input_data@)
                        matches Some(MsgModel::Confirm { hdr, .. }) && hdr.spec_has_skip()) && (
                    pre.spec_blob() matches Some(b) && !b.wf()))))
                },
            },
            spec_client2_frame_ok(*old(self), input_data@) && spec_cert_present(*old(self))
                && spec_client2_cbt_ok(*old(self), input_data@) && ((
            spec_parse_msg(input_data@) matches Some(MsgModel::Confirm { hdr, .. })
                && hdr.spec_has_skip()) || (old(self).spec_blob() matches Some(b) && b.wf()))
                ==> (r is Ok || r->Err_0 is Rng),
    {
        let ghost pre = *old(self);
        let m = match self.read_msg(input_data) {
            Ok(m) => m,
            Err(e) => {
                return Err(e);
            },
        };
        proof {
            crate::messages::lemma_model_of_fields(m);
        }
        let (hdr, confirm) = match m {
            SrdMessage::Confirm(hdr, confirm) => (hdr, confirm),
            _ => {
                return Err(SrdError::BadSequence);
            },
        };
        let cbt_data = match self.compute_cbt(self.server_nonce.as_slice()) {
            Ok(c) => c,
            Err(e) => {
                return Err(e);
            },
        };
        if !bytes_eq(cbt_data.as_slice(), confirm.cbt.as_slice()) {
            return Err(SrdError::InvalidCbt);
        }
        if hdr.has_skip() {
            return Ok(Vec::new());
        }
        let out_msg = match &self.blob {
            None => {
                return Err(SrdError::MissingBlob);
            },
            Some(b) => {
                if !b.is_wf() {
                    return Err(SrdError::InvalidDataLength);
                }
                match new_srd_delegate_msg(
                    self.seq_num,
                    b,
                    self.cipher,
                    self.delegation_key.as_slice(),
                    self.iv.as_slice(),
                ) {
                    Ok(msg) => msg,
                    Err(e) => {
                        return Err(e);
                    },
                }
            },
        };
        let (m2, out) = match self.write_msg(out_msg) {
            Ok(x) => x,
            Err(e) => {
                proof {
                    assert(false);
                }
                return Err(e);
            },
        };
        proof {
            crate::messages::lemma_msg_round_trip(m2);
        }
        Ok(out)
    }

    /// Server step 2: reject outright when delegation is skipped, then
    /// consume the Delegate, whose transcript MAC is verified before any
    /// decryption; decrypt and parse the blob and store it.
    #[verifier::rlimit(100)]
    #[verifier::spinoff_prover]
    fn server_authenticate_2(&mut self, input_data: &[u8]) -> (r: Result<(), SrdError>)
        requires
            old(self).wf(),
            old(self).spec_is_server(),
            old(self).spec_state() == 2,
        ensures
            Srd::spec_step_frame(*old(self), *final(self)),
            match r {
                Ok(()) => {
                    &&& !old(self).spec_skip_delegation()
                    &&& spec_parse_msg(input_data@) matches Some(MsgModel::Delegate {
                        encrypted_blob,
                        mac,
                        ..
                    }) && mac == crate::crypto::hmac_sha256_of(
                        old(self).spec_integrity_key(),
                        spec_mac_input(old(self).spec_transcript().push(input_data@)),
                    ) && (final(self).spec_blob() matches Some(b) && b.wf()
                        && crate::blobs::spec_parse_blob(
                        crate::cipher::spec_decrypt(
                            old(self).spec_cipher(),
                            old(self).spec_delegation_key(),
                            old(self).spec_iv(),
                            encrypted_blob,
                        ),
                    ) == Some((b.blob_type@, b.data@)))
                },
                Err(e) => {
                    let pre = *old(self);
                    &&& final(self).spec_blob() == old(self).spec_blob()
                    &&& (pre.spec_skip_delegation() ==> e is BadSequence)
                    &&& (e is InvalidMac <==> (!pre.spec_skip_delegation()
                        && spec_inbound_frame_ok(pre, input_data@) && !spec_inbound_mac_ok(
                        pre,
                        input_data@,
                    )))
                },
            },
            !old(self).spec_skip_delegation() && spec_server2_frame_ok(*old(self), input_data@)
                && spec_server2_blob_ok(*old(self), input_data@) ==> r is Ok,
    {
        if self.skip_delegation {
            return Err(SrdError::BadSequence);
        }
        let ghost pre = *old(self);
        let m = match self.read_msg(input_data) {
            Ok(m) => m,
            Err(e) => {
                return Err(e);
            },
        };
        let delegate = match m {
            SrdMessage::Delegate(_, delegate) => delegate,
            _ => {
                return Err(SrdError::BadSequence);
            },
        };
        if delegate.encrypted_blob.len() >= 0x1000_0000 {
            return Err(SrdError::InvalidDataLength);
        }
        let blob = match delegate.get_data(
            self.cipher,
            self.delegation_key.as_slice(),
            self.iv.as_slice(),
        ) {
            Ok(b) => b,
            Err(e) => {
                return Err(e);
            },
        };
        self.blob = Some(blob);
        Ok(())
    }

    /// Advance the handshake by one step: consume at most one inbound
    /// message and produce at most one outbound message.  `Ok(true)`
    /// means the session is finished on this side; any error aborts the
    /// session, and a finished or aborted session fails every further
    /// call with `BadSequence`.
    pub fn authenticate(&mut self, input_data: &[u8], output_data: &mut Vec<u8>) -> (r: Result<
        bool,
        SrdError,
    >)
        requires
            old(self).wf(),
            old(output_data)@.len() == 0,
        ensures
            final(self).wf(),
            final(self).spec_is_server() == old(self).spec_is_server(),
            final(self).spec_skip_delegation() == old(self).spec_skip_delegation(),
            match r {
                Ok(done) => {
                    &&& old(self).spec_state() <= 2
                    &&& final(self).spec_state() == old(self).spec_state() + 1
                    &&& done == (if old(self).spec_is_server() {
                        old(self).spec_state() == 2 || (old(self).spec_state() == 1 && old(self).spec_skip_delegation())
                    } else {
                        old(self).spec_state() == 2
                    })
                    // A client finishing its key-agreement step holds keys
                    // derived from its nonces and the modular exponentiation
                    // of the offered public value.
                    &&& (!old(self).spec_is_server() && old(self).spec_state() == 1 ==> (
                    spec_parse_msg(input_data@) matches Some(MsgModel::Offer {
                        ciphers,
                        prime,
                        public_key,
                        nonce,
                        ..
                    }) && final(self).spec_server_nonce() == nonce && be_nat(
                        final(self).spec_secret_key(),
                    ) == pow_mod(
                        be_nat(public_key),
                        be_nat(final(self).spec_private_key()),
                        be_nat(prime),
                    ) && min_be(final(self).spec_secret_key()) && final(self).spec_cipher()
                        == spec_best_cipher(
                        spec_common_ciphers(
                            spec_from_flags(ciphers),
                            old(self).spec_supported_ciphers(),
                        ),
                    ) && (
                    final(self).spec_delegation_key(),
                    final(self).spec_integrity_key(),
                    final(self).spec_iv(),
                    ) == spec_derive(
                        final(self).spec_client_nonce(),
                        final(self).spec_secret_key(),
                        final(self).spec_server_nonce(),
                    )))
                    // A server finishing the same step holds the converse
                    // exponentiation, adopted the client's single cipher,
                    // and has verified the Accept's transcript MAC and
                    // channel binding token.
                    &&& (old(self).spec_is_server() && old(self).spec_state() == 1 ==> (
                    spec_parse_msg(input_data@) matches Some(MsgModel::Accept {
                        cipher,
                        public_key,
                        nonce,
                        cbt,
                        mac,
                        ..
                    }) && spec_from_flags(cipher).len() == 1 && final(self).spec_cipher()
                        == spec_from_flags(cipher)[0] && final(self).spec_client_nonce() == nonce
                        && be_nat(final(self).spec_secret_key()) == pow_mod(
                        be_nat(public_key),
                        be_nat(old(self).spec_private_key()),
                        be_nat(old(self).spec_prime()),
                    ) && min_be(final(self).spec_secret_key()) && mac
                        == crate::crypto::hmac_sha256_of(
                        final(self).spec_integrity_key(),
                        spec_mac_input(old(self).spec_transcript().push(input_data@)),
                    ) && (old(self).spec_use_cbt() ==> cbt == crate::crypto::hmac_sha256_of(
                        final(self).spec_integrity_key(),
                        final(self).spec_client_nonce() + old(self).spec_cert_data()->Some_0@,
                    )) && (
                    final(self).spec_delegation_key(),
                    final(self).spec_integrity_key(),
                    final(self).spec_iv(),
                    ) == spec_derive(
                        final(self).spec_client_nonce(),
                        final(self).spec_secret_key(),
                        final(self).spec_server_nonce(),
                    )))
                    // A server consuming the Delegate has checked its MAC
                    // against the transcript and stored exactly the blob the
                    // decrypted bytes parse to.
                    &&& (old(self).spec_is_server() && old(self).spec_state() == 2 ==> (
                    spec_parse_msg(input_data@) matches Some(MsgModel::Delegate {
                        encrypted_blob,
                        mac,
                        ..
                    }) && mac == crate::crypto::hmac_sha256_of(
                        old(self).spec_integrity_key(),
                        spec_mac_input(old(self).spec_transcript().push(input_data@)),
                    ) && (final(self).spec_blob() matches Some(b) && b.wf()
                        && crate::blobs::spec_parse_blob(
                        crate::cipher::spec_decrypt(
                            old(self).spec_cipher(),
                            old(self).spec_delegation_key(),
                            old(self).spec_iv(),
                            encrypted_blob,
                        ),
                    ) == Some((b.blob_type@, b.data@)))))
                    // What the emitted message is, per role and step.
                    &&& (!old(self).spec_is_server() && old(self).spec_state() == 0 ==> (
                    spec_parse_msg(final(output_data)@) matches Some(MsgModel::Initiate {
                        hdr,
                        ciphers,
                        key_size,
                        ..
                    }) && hdr.seq_num == old(self).spec_seq_num() && hdr.spec_has_cbt() == old(self).spec_use_cbt() && hdr.spec_has_skip() == old(self).spec_skip_delegation()
                        && ciphers == spec_cipher_flags(old(self).spec_supported_ciphers())
                        && key_size == old(self).spec_key_size()))
                    &&& (old(self).spec_is_server() && old(self).spec_state() == 0 ==> (
                    spec_parse_msg(final(output_data)@) matches Some(MsgModel::Offer {
                        ciphers,
                        key_size,
                        generator,
                        prime,
                        public_key,
                        nonce,
                        ..
                    }) && ciphers == spec_cipher_flags(old(self).spec_supported_ciphers())
                        && key_size == final(self).spec_key_size() && generator
                        == crate::dh_params::DH_GENERATOR@ && prime == final(self).spec_prime()
                        && be_nat(public_key) == pow_mod(
                        be_nat(final(self).spec_generator()),
                        be_nat(final(self).spec_private_key()),
                        be_nat(final(self).spec_prime()),
                    ) && nonce == final(self).spec_server_nonce()))
                    &&& (!old(self).spec_is_server() && old(self).spec_state() == 1 ==> (
                    spec_parse_msg(final(output_data)@) matches Some(MsgModel::Accept {
                        cipher,
                        key_size,
                        public_key,
                        nonce,
                        mac,
                        ..
                    }) && cipher == spec_flag(final(self).spec_cipher()) && key_size == old(self).spec_key_size() && nonce == final(self).spec_client_nonce() && mac
                        == crate::crypto::hmac_sha256_of(
                        final(self).spec_integrity_key(),
                        spec_mac_input(final(self).spec_transcript()),
                    ) && (spec_parse_msg(input_data@) matches Some(MsgModel::Offer {
                        generator,
                        prime,
                        ..
                    }) && be_nat(public_key) == pow_mod(
                        be_nat(generator),
                        be_nat(final(self).spec_private_key()),
                        be_nat(prime),
                    ))))
                    &&& (old(self).spec_is_server() && old(self).spec_state() == 1 ==> (
                    spec_parse_msg(final(output_data)@) matches Some(MsgModel::Confirm {
                        hdr,
                        cbt,
                        mac,
                    }) && hdr.spec_has_skip() == old(self).spec_skip_delegation() && (old(self).spec_use_cbt() ==> cbt == crate::crypto::hmac_sha256_of(
                        final(self).spec_integrity_key(),
                        final(self).spec_server_nonce() + old(self).spec_cert_data()->Some_0@,
                    )) && mac == crate::crypto::hmac_sha256_of(
                        final(self).spec_integrity_key(),
                        spec_mac_input(final(self).spec_transcript()),
                    )))
                    &&& (!old(self).spec_is_server() && old(self).spec_state() == 2 ==> (((
                    spec_parse_msg(input_data@) matches Some(MsgModel::Confirm { hdr, .. })
                        && hdr.spec_has_skip()) ==> final(output_data)@.len() == 0) && (!(
                    spec_parse_msg(input_data@) matches Some(MsgModel::Confirm { hdr, .. })
                        && hdr.spec_has_skip()) ==> (old(self).spec_blob() matches Some(b)
                        && b.wf() && (spec_parse_msg(final(output_data)@) matches Some(
                        MsgModel::Delegate { encrypted_blob, mac, .. },
                    ) && (exists|p1: Seq<u8>, p2: Seq<u8>|
                        {
                            &&& p1.len() == crate::blobs::spec_type_padding(b)
                            &&& p2.len() == crate::blobs::spec_data_padding(b)
                            &&& encrypted_blob == crate::cipher::spec_encrypt(
                                old(self).spec_cipher(),
                                old(self).spec_delegation_key(),
                                old(self).spec_iv(),
                                crate::blobs::spec_blob_bytes(b, p1, p2),
                            )
                            &&& crate::cipher::spec_decrypt(
                                old(self).spec_cipher(),
                                old(self).spec_delegation_key(),
                                old(self).spec_iv(),
                                encrypted_blob,
                            ) == crate::blobs::spec_blob_bytes(b, p1, p2)
                        }) && mac == crate::crypto::hmac_sha256_of(
                        old(self).spec_integrity_key(),
                        spec_mac_input(final(self).spec_transcript()),
                    ))))))
                    &&& (old(self).spec_is_server() && old(self).spec_state() == 2 ==> final(output_data)@.len() == 0)
                },
                Err(e) => {
                    &&& final(self).spec_state() == 3
                    &&& final(output_data)@.len() == 0
                    &&& (old(self).spec_state() == 3 ==> e is BadSequence)
                    // The MAC and channel-binding failures of the checking
                    // steps, by their exact causes.
                    &&& (old(self).spec_is_server() && old(self).spec_state() == 1 ==> ((e
                        is InvalidMac <==> ((spec_inbound_frame_ok(*old(self), input_data@)
                        && !spec_inbound_mac_ok(*old(self), input_data@)) || (
                    spec_server1_frame_ok(*old(self), input_data@) && spec_server1_cipher_ok(
                        *old(self),
                        input_data@,
                    ) && !spec_server1_mac_ok(*old(self), input_data@)))) && (e is InvalidCbt <==> (
                    spec_server1_frame_ok(*old(self), input_data@) && spec_server1_cipher_ok(
                        *old(self),
                        input_data@,
                    ) && spec_server1_mac_ok(*old(self), input_data@) && spec_cert_present(
                        *old(self),
                    ) && !spec_server1_cbt_ok(*old(self), input_data@))) && (e is Cipher <==> (
                    spec_server1_frame_ok(*old(self), input_data@) && !spec_server1_cipher_ok(
                        *old(self),
                        input_data@,
                    )))))
                    &&& (old(self).spec_is_server() && old(self).spec_state() == 2 ==> (e
                        is InvalidMac <==> (!old(self).spec_skip_delegation()
                        && spec_inbound_frame_ok(*old(self), input_data@) && !spec_inbound_mac_ok(
                        *old(self),
                        input_data@,
                    ))))
                    &&& (!old(self).spec_is_server() && old(self).spec_state() == 2 ==> ((e
                        is InvalidMac <==> (spec_inbound_frame_ok(*old(self), input_data@)
                        && !spec_inbound_mac_ok(*old(self), input_data@))) && (e is InvalidCbt
                        <==> (spec_client2_frame_ok(*old(self), input_data@) && spec_cert_present(
                        *old(self),
                    ) && !spec_client2_cbt_ok(*old(self), input_data@)))))
                },
            },
            // When success is owed, per role and step; the CSPRNG may
            // still fail on the steps that draw from it.
            !old(self).spec_is_server() && old(self).spec_state() == 0 && old(self).spec_supported_ciphers().len() > 0 ==> r is Ok,
            old(self).spec_is_server() && old(self).spec_state() == 0 && spec_server0_frame_ok(
                *old(self),
                input_data@,
            ) && old(self).spec_supported_ciphers().len() > 0 ==> (r is Ok || r->Err_0 is Rng),
            !old(self).spec_is_server() && old(self).spec_state() == 1 && spec_client1_frame_ok(
                *old(self),
                input_data@,
            ) && spec_client1_key_size_ok(*old(self), input_data@) && spec_client1_prime_ok(
                input_data@,
            ) && spec_cert_present(*old(self)) && spec_client1_common_ok(*old(self), input_data@)
                ==> (r is Ok || r->Err_0 is Rng),
            old(self).spec_is_server() && old(self).spec_state() == 1 && spec_server1_frame_ok(
                *old(self),
                input_data@,
            ) && spec_server1_cipher_ok(*old(self), input_data@) && spec_server1_mac_ok(
                *old(self),
                input_data@,
            ) && spec_cert_present(*old(self)) && spec_server1_cbt_ok(*old(self), input_data@)
                ==> r is Ok,
            !old(self).spec_is_server() && old(self).spec_state() == 2 && spec_client2_frame_ok(
                *old(self),
                input_data@,
            ) && spec_cert_present(*old(self)) && spec_client2_cbt_ok(*old(self), input_data@)
                && ((spec_parse_msg(input_data@) matches Some(MsgModel::Confirm { hdr, .. })
                && hdr.spec_has_skip()) || (old(self).spec_blob() matches Some(b) && b.wf()))
                ==> (r is Ok || r->Err_0 is Rng),
            old(self).spec_is_server() && old(self).spec_state() == 2 && !old(self).spec_skip_delegation() && spec_server2_frame_ok(*old(self), input_data@)
                && spec_server2_blob_ok(*old(self), input_data@) ==> r is Ok,
    {
        self.output_data = None;
        let res: Result<Vec<u8>, SrdError> = if self.is_server {
            if self.state == 0 {
                self.server_authenticate_0(input_data)
            } else if self.state == 1 {
                self.server_authenticate_1(input_data)
            } else if self.state == 2 {
                match self.server_authenticate_2(input_data) {
                    Ok(()) => Ok(Vec::new()),
                    Err(e) => Err(e),
                }
            } else {
                Err(SrdError::BadSequence)
            }
        } else {
            if self.state == 0 {
                self.client_authenticate_0()
            } else if self.state == 1 {
                self.client_authenticate_1(input_data)
            } else if self.state == 2 {
                self.client_authenticate_2(input_data)
            } else {
                Err(SrdError::BadSequence)
            }
        };
        match res {
            Ok(out) => {
                let done = if self.is_server {
                    self.state == 2 || (self.state == 1 && self.skip_delegation)
                } else {
                    self.state == 2
                };
                self.state = self.state + 1;
                *output_data = out;
                Ok(done)
            },
            Err(e) => {
                self.state = 3;
                Err(e)
            },
        }
    }
}

/// Both sides of a completed exchange derive the same delegation key,
/// integrity key and IV: the client raises the server's public value to
/// its own exponent, the server does the converse, and the two shared
/// secrets coincide.
pub proof fn lemma_handshake_key_agreement(
    cn: Seq<u8>,
    sn: Seq<u8>,
    s1: Seq<u8>,
    s2: Seq<u8>,
    g: nat,
    p: nat,
    a: nat,
    b: nat,
)
    requires
        p > 0,
        min_be(s1),
        min_be(s2),
        be_nat(s1) == pow_mod(pow_mod(g, b, p), a, p),
        be_nat(s2) == pow_mod(pow_mod(g, a, p), b, p),
    ensures
        s1 == s2,
        spec_derive(cn, s1, sn) == spec_derive(cn, s2, sn),
{
    crate::crypto::lemma_shared_secret_agreement(s1, s2, g, p, a, b);
}

/// Decrypting a Delegate produced from a well-formed blob and parsing
/// the result returns the blob's type tag and data unchanged.
pub proof fn lemma_delegate_round_trip(
    c: Cipher,
    key: Seq<u8>,
    iv: Seq<u8>,
    b: SrdBlob,
    p1: Seq<u8>,
    p2: Seq<u8>,
    ct: Seq<u8>,
)
    requires
        b.wf(),
        p1.len() == crate::blobs::spec_type_padding(b),
        p2.len() == crate::blobs::spec_data_padding(b),
        ct == crate::cipher::spec_encrypt(c, key, iv, crate::blobs::spec_blob_bytes(b, p1, p2)),
        crate::cipher::spec_decrypt(c, key, iv, ct) == crate::blobs::spec_blob_bytes(b, p1, p2),
    ensures
        crate::blobs::spec_parse_blob(crate::cipher::spec_decrypt(c, key, iv, ct)) == Some(
            (b.blob_type@, b.data@),
        ),
{
    crate::blobs::lemma_blob_round_trip(b, p1, p2);
}

impl Srd {
    /// Bulk-encrypt caller data under the delegation key and negotiated
    /// cipher: a fresh 32-byte IV is drawn and sent ahead of the
    /// ciphertext.  The input must be block-aligned and a delegation key
    /// must have been derived.
    pub fn encrypt_data(&self, data: &[u8]) -> (r: Result<Vec<u8>, SrdError>)
        requires
            self.wf(),
        ensures
            match r {
                Ok(out) => {
                    &&& data@.len() % 16 == 0
                    &&& be_nat(self.spec_delegation_key()) > 0
                    &&& out@.len() == 32 + data@.len()
                    &&& out@.skip(32) == crate::cipher::spec_encrypt(
                        self.spec_cipher(),
                        self.spec_delegation_key(),
                        out@.take(32),
                        data@,
                    )
                    &&& crate::cipher::spec_decrypt(
                        self.spec_cipher(),
                        self.spec_delegation_key(),
                        out@.take(32),
                        out@.skip(32),
                    ) == data@
                },
                Err(e) => {
                    &&& (e is InvalidDataLength <==> (data@.len() % 16 != 0 || data@.len()
                        >= 0x1000_0000))
                    &&& (e is Crypto <==> (data@.len() % 16 == 0 && data@.len() < 0x1000_0000
                        && be_nat(self.spec_delegation_key()) == 0))
                    &&& (e is InvalidDataLength || e is Crypto || e is Rng)
                },
            },
            data@.len() % 16 == 0 && data@.len() < 0x1000_0000 && be_nat(
                self.spec_delegation_key(),
            ) > 0 ==> (r is Ok || r->Err_0 is Rng),
    {
        if data.len() % 16 != 0 || data.len() >= 0x1000_0000 {
            return Err(SrdError::InvalidDataLength);
        }
        if !has_nonzero_byte(self.delegation_key.as_slice()) {
            return Err(SrdError::Crypto);
        }
        let iv = match random_bytes(32) {
            Ok(v) => v,
            Err(e) => {
                return Err(e);
            },
        };
        let ct = match self.cipher.encrypt_data(data, self.delegation_key.as_slice(), iv.as_slice())
            {
            Ok(v) => v,
            Err(e) => {
                proof {
                    assert(false);
                }
                return Err(e);
            },
        };
        let mut out: Vec<u8> = Vec::new();
        put_bytes(&mut out, iv.as_slice());
        put_bytes(&mut out, ct.as_slice());
        proof {
            assert(out@.skip(32) =~= ct@);
            assert(out@.take(32) =~= iv@);
        }
        Ok(out)
    }

    /// Bulk-decrypt data produced by `encrypt_data`: split off the
    /// leading 32-byte IV and decrypt the rest.
    pub fn decrypt_data(&self, data: &[u8]) -> (r: Result<Vec<u8>, SrdError>)
        requires
            self.wf(),
        ensures
            match r {
                Ok(out) => {
                    &&& data@.len() >= 32
                    &&& (self.spec_cipher() is AES256 ==> (data@.len() - 32) % 16 == 0)
                    &&& out@ == crate::cipher::spec_decrypt(
                        self.spec_cipher(),
                        self.spec_delegation_key(),
                        data@.take(32),
                        data@.skip(32),
                    )
                },
                Err(e) => {
                    &&& (e is InvalidDataLength <==> ((data@.len() < 32 || data@.len()
                        >= 0x1000_0000) || (data@.len() >= 32 && data@.len() < 0x1000_0000
                        && be_nat(self.spec_delegation_key()) > 0 && self.spec_cipher() is AES256
                        && (data@.len() - 32) % 16 != 0)))
                    &&& (e is Crypto <==> (data@.len() >= 32 && data@.len() < 0x1000_0000
                        && be_nat(self.spec_delegation_key()) == 0))
                    &&& (e is InvalidDataLength || e is Crypto)
                },
            },
            data@.len() >= 32 && data@.len() < 0x1000_0000 && be_nat(self.spec_delegation_key())
                > 0 && (self.spec_cipher() is AES256 ==> (data@.len() - 32) % 16 == 0) ==> r is Ok,
    {
        let n = data.len();
        if n < 32 || n >= 0x1000_0000 {
            return Err(SrdError::InvalidDataLength);
        }
        if !has_nonzero_byte(self.delegation_key.as_slice()) {
            return Err(SrdError::Crypto);
        }
        let iv = vstd::slice::slice_subrange(data, 0, 32);
        let ct = vstd::slice::slice_subrange(data, 32, n);
        proof {
            assert(iv@ =~= data@.take(32));
            assert(ct@ =~= data@.skip(32));
        }
        match self.cipher.decrypt_data(ct, self.delegation_key.as_slice(), iv) {
            Ok(v) => Ok(v),
            Err(e) => Err(e),
        }
    }
}

} // verus!
