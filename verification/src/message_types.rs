//! The second wire format of the protocol: messages that already carry
//! the signature word and sequence number in each struct, before the
//! common header was split out.  Kept so transcripts from that revision
//! can still be read and written.

use crate::codec::{
    expand_start, get_bytes, get_u16_le, get_u32_le, get_u8, put_bytes, put_u16_le, put_u32_le,
    put_u8, to_array_32, zero_bytes,
};
use crate::crypto::hmac_sha256;
use crate::errors::SrdError;
use crate::messages::{
    SRD_ACCEPT_MSG_ID, SRD_CONFIRM_MSG_ID, SRD_DELEGATE_MSG_ID, SRD_FLAG_CBT, SRD_FLAG_MAC,
    SRD_INITIATE_MSG_ID, SRD_OFFER_MSG_ID, SRD_SIGNATURE,
};
use vstd::bytes::*;
use vstd::prelude::*;
use vstd::slice::slice_subrange;

verus! {

/// The codec every message of this revision offers.
pub trait SrdMessage: Sized {
    fn read_from(buffer: &[u8]) -> Result<Self, SrdError>;

    fn write_to(&self, buffer: &mut Vec<u8>) -> Result<(), SrdError>;
}

/// The blob codec of this revision.
pub trait SrdBlobInterface: Sized {
    fn read_from(buffer: &[u8]) -> Result<Self, SrdError>;

    fn write_to(&self, buffer: &mut Vec<u8>) -> Result<(), SrdError>;
}

impl SrdBlobInterface for crate::blobs::SrdBlob {
    fn read_from(buffer: &[u8]) -> Result<Self, SrdError> {
        crate::blobs::SrdBlob::read_from(buffer)
    }

    fn write_to(&self, buffer: &mut Vec<u8>) -> Result<(), SrdError> {
        crate::blobs::SrdBlob::write_to(self, buffer)
    }
}

/// The concatenation of earlier serialized messages, as fed to this
/// revision's MAC.
pub open spec fn spec_concat(ms: Seq<Seq<u8>>) -> Seq<u8>
    decreases ms.len(),
{
    if ms.len() == 0 {
        Seq::<u8>::empty()
    } else {
        spec_concat(ms.drop_last()) + ms.last()
    }
}

/// HMAC-SHA-256 over the earlier messages followed by `inner`.
pub(crate) fn mac_over(previous: &Vec<Vec<u8>>, inner: &[u8], integrity_key: &[u8]) -> (r: Vec<u8>)
    ensures
        r@ == crate::crypto::hmac_sha256_of(
            integrity_key@,
            spec_concat(previous.deep_view()) + inner@,
        ),
        r@.len() == 32,
{
    let mut data: Vec<u8> = Vec::new();
    let n = previous.len();
    let mut i: usize = 0;
    while i < n
        invariant
            i <= n,
            n == previous@.len(),
            previous.deep_view().len() == n,
            data@ == spec_concat(previous.deep_view().take(i as int)),
        decreases n - i,
    {
        proof {
            assert(previous.deep_view().take(i + 1).drop_last() =~= previous.deep_view().take(
                i as int,
            ));
            assert(previous.deep_view().take(i + 1).last() == previous.deep_view()[i as int]);
            assert(previous@[i as int].deep_view() =~= previous@[i as int]@);
        }
        put_bytes(&mut data, previous[i].as_slice());
        i = i + 1;
    }
    proof {
        assert(previous.deep_view().take(n as int) =~= previous.deep_view());
    }
    put_bytes(&mut data, inner);
    hmac_sha256(integrity_key, data.as_slice())
}

/// Initiate: key size behind the embedded header words.
#[derive(Debug, PartialEq, Eq, Structural, Clone, Copy)]
pub struct SrdInitiate {
    pub signature: u32,
    pub packet_type: u8,
    pub seq_num: u8,
    pub flags: u16,
    pub key_size: u16,
    pub reserved: u16,
}

/// The Initiate wire bytes of this revision.
pub open spec fn spec_initiate_bytes(m: SrdInitiate) -> Seq<u8> {
    spec_u32_to_le_bytes(m.signature) + seq![m.packet_type, m.seq_num] + spec_u16_to_le_bytes(
        m.flags,
    ) + spec_u16_to_le_bytes(m.key_size) + spec_u16_to_le_bytes(m.reserved)
}

impl SrdInitiate {
    pub fn new(key_size: u16) -> (r: SrdInitiate)
        ensures
            r == (SrdInitiate {
                signature: SRD_SIGNATURE,
                packet_type: SRD_INITIATE_MSG_ID,
                seq_num: 0u8,
                flags: 0u16,
                key_size,
                reserved: 0u16,
            }),
    {
        SrdInitiate {
            signature: SRD_SIGNATURE,
            packet_type: SRD_INITIATE_MSG_ID,
            seq_num: 0,
            flags: 0,
            key_size,
            reserved: 0,
        }
    }

    pub fn key_size(&self) -> (r: u16)
        ensures
            r == self.key_size,
    {
        self.key_size
    }

    pub fn get_id(&self) -> (r: u8)
        ensures
            r == SRD_INITIATE_MSG_ID,
    {
        SRD_INITIATE_MSG_ID
    }

    /// Parse an Initiate of this revision.
    pub fn parse(buffer: &[u8]) -> (r: Result<SrdInitiate, SrdError>)
        ensures
            match r {
                Ok(m) => buffer@.len() >= 12 && spec_initiate_bytes(m) == buffer@.subrange(0, 12),
                Err(e) => buffer@.len() < 12 && e is InvalidDataLength,
            },
    {
        let n = buffer.len();
        if n < 12 {
            return Err(SrdError::InvalidDataLength);
        }
        let m = SrdInitiate {
            signature: get_u32_le(buffer, 0),
            packet_type: get_u8(buffer, 4),
            seq_num: get_u8(buffer, 5),
            flags: get_u16_le(buffer, 6),
            key_size: get_u16_le(buffer, 8),
            reserved: get_u16_le(buffer, 10),
        };
        proof {
            lemma_auto_spec_u16_to_from_le_bytes();
            lemma_auto_spec_u32_to_from_le_bytes();
            assert(spec_initiate_bytes(m) =~= buffer@.subrange(0, 12));
        }
        Ok(m)
    }

    /// Serialize an Initiate of this revision.
    pub fn encode(&self, buffer: &mut Vec<u8>) -> (r: Result<(), SrdError>)
        ensures
            r is Ok,
            final(buffer)@ == old(buffer)@ + spec_initiate_bytes(*self),
    {
        put_u32_le(buffer, self.signature);
        put_u8(buffer, self.packet_type);
        put_u8(buffer, self.seq_num);
        put_u16_le(buffer, self.flags);
        put_u16_le(buffer, self.key_size);
        put_u16_le(buffer, self.reserved);
        proof {
            assert(final(buffer)@ =~= old(buffer)@ + spec_initiate_bytes(*self));
        }
        Ok(())
    }
}

impl SrdMessage for SrdInitiate {
    fn read_from(buffer: &[u8]) -> Result<Self, SrdError> {
        SrdInitiate::parse(buffer)
    }

    fn write_to(&self, buffer: &mut Vec<u8>) -> Result<(), SrdError> {
        self.encode(buffer)
    }
}

/// Offer: group material behind the embedded header words.
#[derive(Debug, PartialEq, Eq, Clone)]
pub struct SrdOffer {
    pub signature: u32,
    pub packet_type: u8,
    pub seq_num: u8,
    pub flags: u16,
    pub key_size: u16,
    pub generator: Vec<u8>,
    pub prime: Vec<u8>,
    pub public_key: Vec<u8>,
    pub nonce: [u8; 32],
}

/// The Offer wire bytes of this revision.
pub open spec fn spec_offer_bytes(m: SrdOffer) -> Seq<u8> {
    spec_u32_to_le_bytes(m.signature) + seq![m.packet_type, m.seq_num] + spec_u16_to_le_bytes(
        m.flags,
    ) + spec_u16_to_le_bytes(m.key_size) + m.generator@ + m.prime@ + m.public_key@ + m.nonce@
}

impl SrdOffer {
    /// Build an Offer, zero-extending the group elements to their wire
    /// widths.
    pub fn new(
        key_size: u16,
        generator: Vec<u8>,
        prime: Vec<u8>,
        public_key: Vec<u8>,
        nonce: [u8; 32],
    ) -> (r: SrdOffer)
        ensures
            r.signature == SRD_SIGNATURE,
            r.packet_type == SRD_OFFER_MSG_ID,
            r.seq_num == 1,
            r.flags == 0,
            r.key_size == key_size,
            r.generator@ == crate::codec::spec_left_pad(generator@, 2),
            r.prime@ == crate::codec::spec_left_pad(prime@, key_size as int),
            r.public_key@ == crate::codec::spec_left_pad(public_key@, key_size as int),
            r.nonce@ == nonce@,
    {
        let mut generator = generator;
        let mut prime = prime;
        let mut public_key = public_key;
        expand_start(&mut generator, 2);
        expand_start(&mut prime, key_size as usize);
        expand_start(&mut public_key, key_size as usize);
        SrdOffer {
            signature: SRD_SIGNATURE,
            packet_type: SRD_OFFER_MSG_ID,
            seq_num: 1,
            flags: 0,
            key_size,
            generator,
            prime,
            public_key,
            nonce,
        }
    }

    pub fn get_id(&self) -> (r: u8)
        ensures
            r == SRD_OFFER_MSG_ID,
    {
        SRD_OFFER_MSG_ID
    }

    /// Parse an Offer of this revision.
    pub fn parse(buffer: &[u8]) -> (r: Result<SrdOffer, SrdError>)
        ensures
            match r {
                Ok(m) => m.generator@.len() == 2 && m.prime@.len() == m.key_size
                    && m.public_key@.len() == m.key_size && buffer@.len() >= spec_offer_bytes(
                    m,
                ).len() && spec_offer_bytes(m) == buffer@.subrange(
                    0,
                    spec_offer_bytes(m).len() as int,
                ),
                Err(e) => e is InvalidDataLength,
            },
    {
        let n = buffer.len();
        if n < 10 {
            return Err(SrdError::InvalidDataLength);
        }
        let signature = get_u32_le(buffer, 0);
        let packet_type = get_u8(buffer, 4);
        let seq_num = get_u8(buffer, 5);
        let flags = get_u16_le(buffer, 6);
        let key_size = get_u16_le(buffer, 8);
        let ks = key_size as usize;
        if n < 10 + 2 + ks + ks + 32 {
            return Err(SrdError::InvalidDataLength);
        }
        let generator = get_bytes(buffer, 10, 2);
        let prime = get_bytes(buffer, 12, ks);
        let public_key = get_bytes(buffer, 12 + ks, ks);
        let nonce = to_array_32(slice_subrange(buffer, 12 + ks + ks, 12 + ks + ks + 32));
        let m = SrdOffer {
            signature,
            packet_type,
            seq_num,
            flags,
            key_size,
            generator,
            prime,
            public_key,
            nonce,
        };
        proof {
            lemma_auto_spec_u16_to_from_le_bytes();
            lemma_auto_spec_u32_to_from_le_bytes();
            assert(spec_offer_bytes(m) =~= buffer@.subrange(0, spec_offer_bytes(m).len() as int));
        }
        Ok(m)
    }

    /// Serialize an Offer of this revision.
    pub fn encode(&self, buffer: &mut Vec<u8>) -> (r: Result<(), SrdError>)
        ensures
            r is Ok,
            final(buffer)@ == old(buffer)@ + spec_offer_bytes(*self),
    {
        put_u32_le(buffer, self.signature);
        put_u8(buffer, self.packet_type);
        put_u8(buffer, self.seq_num);
        put_u16_le(buffer, self.flags);
        put_u16_le(buffer, self.key_size);
        put_bytes(buffer, self.generator.as_slice());
        put_bytes(buffer, self.prime.as_slice());
        put_bytes(buffer, self.public_key.as_slice());
        put_bytes(buffer, self.nonce.as_slice());
        proof {
            assert(final(buffer)@ =~= old(buffer)@ + spec_offer_bytes(*self));
        }
        Ok(())
    }
}

impl SrdMessage for SrdOffer {
    fn read_from(buffer: &[u8]) -> Result<Self, SrdError> {
        SrdOffer::parse(buffer)
    }

    fn write_to(&self, buffer: &mut Vec<u8>) -> Result<(), SrdError> {
        self.encode(buffer)
    }
}

/// Accept: the chosen key material behind the embedded header words,
/// closed by a MAC over all previous messages.
#[derive(Debug, PartialEq, Eq, Clone)]
pub struct SrdAccept {
    pub signature: u32,
    pub packet_type: u8,
    pub seq_num: u8,
    pub flags: u16,
    pub key_size: u16,
    pub reserved: u16,
    pub public_key: Vec<u8>,
    pub nonce: [u8; 32],
    pub cbt: [u8; 32],
    pub mac: [u8; 32],
}

/// The Accept bytes under the MAC.
pub open spec fn spec_accept_inner_bytes(m: SrdAccept) -> Seq<u8> {
    spec_u32_to_le_bytes(m.signature) + seq![m.packet_type, m.seq_num] + spec_u16_to_le_bytes(
        m.flags,
    ) + spec_u16_to_le_bytes(m.key_size) + spec_u16_to_le_bytes(m.reserved) + m.public_key@
        + m.nonce@ + m.cbt@
}

/// The Accept wire bytes of this revision.
pub open spec fn spec_accept_bytes(m: SrdAccept) -> Seq<u8> {
    spec_accept_inner_bytes(m) + m.mac@
}

impl SrdAccept {
    /// Build an Accept: pad the public key, set the CBT flag exactly when
    /// a token is given, and close with an HMAC over the previous
    /// messages and the inner bytes.
    pub fn new(
        seq_num: u8,
        key_size: u16,
        public_key: Vec<u8>,
        nonce: [u8; 32],
        cbt_opt: Option<[u8; 32]>,
        previous_messages: &Vec<Vec<u8>>,
        integrity_key: &[u8],
    ) -> (r: Result<SrdAccept, SrdError>)
        ensures
            match r {
                Ok(m) => {
                    &&& m.signature == SRD_SIGNATURE
                    &&& m.packet_type == SRD_ACCEPT_MSG_ID
                    &&& m.seq_num == seq_num
                    &&& m.flags == (if cbt_opt is Some {
                        SRD_FLAG_MAC | SRD_FLAG_CBT
                    } else {
                        SRD_FLAG_MAC
                    })
                    &&& m.key_size == key_size
                    &&& m.public_key@ == crate::codec::spec_left_pad(public_key@, key_size as int)
                    &&& m.nonce@ == nonce@
                    &&& (cbt_opt matches Some(c) ==> m.cbt@ == c@)
                    &&& (cbt_opt is None ==> m.cbt@ == Seq::<u8>::new(32, |i: int| 0u8))
                    &&& m.mac@ == crate::crypto::hmac_sha256_of(
                        integrity_key@,
                        spec_concat(previous_messages.deep_view()) + spec_accept_inner_bytes(m),
                    )
                },
                Err(e) => false,
            },
    {
        let mut public_key = public_key;
        expand_start(&mut public_key, key_size as usize);
        let (flags, cbt): (u16, [u8; 32]) = match cbt_opt {
            None => (SRD_FLAG_MAC, to_array_32(zero_bytes(32).as_slice())),
            Some(c) => (SRD_FLAG_MAC | SRD_FLAG_CBT, c),
        };
        proof {
            assert((1u16 | 2u16) == 3u16) by (bit_vector);
        }
        let mut response = SrdAccept {
            signature: SRD_SIGNATURE,
            packet_type: SRD_ACCEPT_MSG_ID,
            seq_num,
            flags,
            reserved: 0,
            key_size,
            public_key,
            nonce,
            cbt,
            mac: to_array_32(zero_bytes(32).as_slice()),
        };
        let mut inner: Vec<u8> = Vec::new();
        if let Err(e) = response.write_inner(&mut inner) {
            return Err(e);
        }
        let mac = mac_over(previous_messages, inner.as_slice(), integrity_key);
        response.mac = to_array_32(mac.as_slice());
        proof {
            assert(spec_accept_inner_bytes(response) =~= inner@);
        }
        Ok(response)
    }

    pub fn has_cbt(&self) -> (r: bool)
        ensures
            r == (self.flags & SRD_FLAG_CBT != 0),
    {
        self.flags & SRD_FLAG_CBT != 0
    }

    pub fn get_id(&self) -> (r: u8)
        ensures
            r == SRD_ACCEPT_MSG_ID,
    {
        SRD_ACCEPT_MSG_ID
    }

    /// The bytes covered by the MAC.
    pub fn write_inner(&self, buffer: &mut Vec<u8>) -> (r: Result<(), SrdError>)
        ensures
            r is Ok,
            final(buffer)@ == old(buffer)@ + spec_accept_inner_bytes(*self),
    {
        put_u32_le(buffer, self.signature);
        put_u8(buffer, self.packet_type);
        put_u8(buffer, self.seq_num);
        put_u16_le(buffer, self.flags);
        put_u16_le(buffer, self.key_size);
        put_u16_le(buffer, self.reserved);
        put_bytes(buffer, self.public_key.as_slice());
        put_bytes(buffer, self.nonce.as_slice());
        put_bytes(buffer, self.cbt.as_slice());
        proof {
            assert(final(buffer)@ =~= old(buffer)@ + spec_accept_inner_bytes(*self));
        }
        Ok(())
    }

    /// Recompute the MAC and compare.
    pub fn verify_mac(&self, previous_messages: &Vec<Vec<u8>>, integrity_key: &[u8]) -> (r: Result<
        (),
        SrdError,
    >)
        ensures
            r is Ok <==> self.mac@ == crate::crypto::hmac_sha256_of(
                integrity_key@,
                spec_concat(previous_messages.deep_view()) + spec_accept_inner_bytes(*self),
            ),
            r is Err ==> r->Err_0 is InvalidMac,
    {
        let mut inner: Vec<u8> = Vec::new();
        if let Err(e) = self.write_inner(&mut inner) {
            proof {
                assert(false);
            }
            return Err(e);
        }
        let expected = mac_over(previous_messages, inner.as_slice(), integrity_key);
        if crate::codec::bytes_eq(expected.as_slice(), self.mac.as_slice()) {
            Ok(())
        } else {
            Err(SrdError::InvalidMac)
        }
    }

    /// Parse an Accept of this revision.
    pub fn parse(buffer: &[u8]) -> (r: Result<SrdAccept, SrdError>)
        ensures
            match r {
                Ok(m) => m.public_key@.len() == m.key_size && buffer@.len() >= spec_accept_bytes(
                    m,
                ).len() && spec_accept_bytes(m) == buffer@.subrange(
                    0,
                    spec_accept_bytes(m).len() as int,
                ),
                Err(e) => e is InvalidDataLength,
            },
    {
        let n = buffer.len();
        if n < 12 {
            return Err(SrdError::InvalidDataLength);
        }
        let signature = get_u32_le(buffer, 0);
        let packet_type = get_u8(buffer, 4);
        let seq_num = get_u8(buffer, 5);
        let flags = get_u16_le(buffer, 6);
        let key_size = get_u16_le(buffer, 8);
        let reserved = get_u16_le(buffer, 10);
        let ks = key_size as usize;
        if n < 12 + ks + 96 {
            return Err(SrdError::InvalidDataLength);
        }
        let public_key = get_bytes(buffer, 12, ks);
        let nonce = to_array_32(slice_subrange(buffer, 12 + ks, 12 + ks + 32));
        let cbt = to_array_32(slice_subrange(buffer, 12 + ks + 32, 12 + ks + 64));
        let mac = to_array_32(slice_subrange(buffer, 12 + ks + 64, 12 + ks + 96));
        let m = SrdAccept {
            signature,
            packet_type,
            seq_num,
            flags,
            key_size,
            reserved,
            public_key,
            nonce,
            cbt,
            mac,
        };
        proof {
            lemma_auto_spec_u16_to_from_le_bytes();
            lemma_auto_spec_u32_to_from_le_bytes();
            assert(spec_accept_bytes(m) =~= buffer@.subrange(0, spec_accept_bytes(m).len() as int));
        }
        Ok(m)
    }

    /// Serialize an Accept of this revision.
    pub fn encode(&self, buffer: &mut Vec<u8>) -> (r: Result<(), SrdError>)
        ensures
            r is Ok,
            final(buffer)@ == old(buffer)@ + spec_accept_bytes(*self),
    {
        if let Err(e) = self.write_inner(buffer) {
            proof {
                assert(false);
            }
            return Err(e);
        }
        put_bytes(buffer, self.mac.as_slice());
        Ok(())
    }
}

impl SrdMessage for SrdAccept {
    fn read_from(buffer: &[u8]) -> Result<Self, SrdError> {
        SrdAccept::parse(buffer)
    }

    fn write_to(&self, buffer: &mut Vec<u8>) -> Result<(), SrdError> {
        self.encode(buffer)
    }
}

/// Confirm: the server's CBT behind the embedded header words, closed by
/// a MAC over all previous messages.
#[derive(Debug, PartialEq, Eq, Clone, Copy)]
pub struct SrdConfirm {
    pub signature: u32,
    pub packet_type: u8,
    pub seq_num: u8,
    pub flags: u16,
    pub cbt: [u8; 32],
    pub mac: [u8; 32],
}

/// The Confirm bytes under the MAC.
pub open spec fn spec_confirm_inner_bytes(m: SrdConfirm) -> Seq<u8> {
    spec_u32_to_le_bytes(m.signature) + seq![m.packet_type, m.seq_num] + spec_u16_to_le_bytes(
        m.flags,
    ) + m.cbt@
}

/// The Confirm wire bytes of this revision.
pub open spec fn spec_confirm_bytes(m: SrdConfirm) -> Seq<u8> {
    spec_confirm_inner_bytes(m) + m.mac@
}

impl SrdConfirm {
    /// Build a Confirm: the CBT flag is set exactly when a token is
    /// given, and the message is closed with an HMAC over the previous
    /// messages and the inner bytes.
    pub fn new(
        cbt_opt: Option<[u8; 32]>,
        previous_messages: &Vec<Vec<u8>>,
        integrity_key: &[u8],
    ) -> (r: Result<SrdConfirm, SrdError>)
        ensures
            match r {
                Ok(m) => {
                    &&& m.signature == SRD_SIGNATURE
                    &&& m.packet_type == SRD_CONFIRM_MSG_ID
                    &&& m.seq_num == 3
                    &&& m.flags == (if cbt_opt is Some {
                        SRD_FLAG_MAC | SRD_FLAG_CBT
                    } else {
                        SRD_FLAG_MAC
                    })
                    &&& (cbt_opt matches Some(c) ==> m.cbt@ == c@)
                    &&& (cbt_opt is None ==> m.cbt@ == Seq::<u8>::new(32, |i: int| 0u8))
                    &&& m.mac@ == crate::crypto::hmac_sha256_of(
                        integrity_key@,
                        spec_concat(previous_messages.deep_view()) + spec_confirm_inner_bytes(m),
                    )
                },
                Err(e) => false,
            },
    {
        let (flags, cbt): (u16, [u8; 32]) = match cbt_opt {
            None => (SRD_FLAG_MAC, to_array_32(zero_bytes(32).as_slice())),
            Some(c) => (SRD_FLAG_MAC | SRD_FLAG_CBT, c),
        };
        proof {
            assert((1u16 | 2u16) == 3u16) by (bit_vector);
        }
        let mut response = SrdConfirm {
            signature: SRD_SIGNATURE,
            packet_type: SRD_CONFIRM_MSG_ID,
            seq_num: 3,
            flags,
            cbt,
            mac: to_array_32(zero_bytes(32).as_slice()),
        };
        let mut inner: Vec<u8> = Vec::new();
        if let Err(e) = response.write_inner(&mut inner) {
            return Err(e);
        }
        let mac = mac_over(previous_messages, inner.as_slice(), integrity_key);
        response.mac = to_array_32(mac.as_slice());
        proof {
            assert(spec_confirm_inner_bytes(response) =~= inner@);
        }
        Ok(response)
    }

    pub fn has_cbt(&self) -> (r: bool)
        ensures
            r == (self.flags & SRD_FLAG_CBT != 0),
    {
        self.flags & SRD_FLAG_CBT != 0
    }

    pub fn get_id(&self) -> (r: u8)
        ensures
            r == SRD_CONFIRM_MSG_ID,
    {
        SRD_CONFIRM_MSG_ID
    }

    /// The bytes covered by the MAC.
    pub fn write_inner(&self, buffer: &mut Vec<u8>) -> (r: Result<(), SrdError>)
        ensures
            r is Ok,
            final(buffer)@ == old(buffer)@ + spec_confirm_inner_bytes(*self),
    {
        put_u32_le(buffer, self.signature);
        put_u8(buffer, self.packet_type);
        put_u8(buffer, self.seq_num);
        put_u16_le(buffer, self.flags);
        put_bytes(buffer, self.cbt.as_slice());
        proof {
            assert(final(buffer)@ =~= old(buffer)@ + spec_confirm_inner_bytes(*self));
        }
        Ok(())
    }

    /// Recompute the MAC and compare.
    pub fn verify_mac(&self, previous_messages: &Vec<Vec<u8>>, integrity_key: &[u8]) -> (r: Result<
        (),
        SrdError,
    >)
        ensures
            r is Ok <==> self.mac@ == crate::crypto::hmac_sha256_of(
                integrity_key@,
                spec_concat(previous_messages.deep_view()) + spec_confirm_inner_bytes(*self),
            ),
            r is Err ==> r->Err_0 is InvalidMac,
    {
        let mut inner: Vec<u8> = Vec::new();
        if let Err(e) = self.write_inner(&mut inner) {
            proof {
                assert(false);
            }
            return Err(e);
        }
        let expected = mac_over(previous_messages, inner.as_slice(), integrity_key);
        if crate::codec::bytes_eq(expected.as_slice(), self.mac.as_slice()) {
            Ok(())
        } else {
            Err(SrdError::InvalidMac)
        }
    }

    /// Parse a Confirm of this revision.
    pub fn parse(buffer: &[u8]) -> (r: Result<SrdConfirm, SrdError>)
        ensures
            match r {
                Ok(m) => buffer@.len() >= 72 && spec_confirm_bytes(m) == buffer@.subrange(0, 72),
                Err(e) => buffer@.len() < 72 && e is InvalidDataLength,
            },
    {
        let n = buffer.len();
        if n < 72 {
            return Err(SrdError::InvalidDataLength);
        }
        let m = SrdConfirm {
            signature: get_u32_le(buffer, 0),
            packet_type: get_u8(buffer, 4),
            seq_num: get_u8(buffer, 5),
            flags: get_u16_le(buffer, 6),
            cbt: to_array_32(slice_subrange(buffer, 8, 40)),
            mac: to_array_32(slice_subrange(buffer, 40, 72)),
        };
        proof {
            lemma_auto_spec_u16_to_from_le_bytes();
            lemma_auto_spec_u32_to_from_le_bytes();
            assert(spec_confirm_bytes(m) =~= buffer@.subrange(0, 72));
        }
        Ok(m)
    }

    /// Serialize a Confirm of this revision.
    pub fn encode(&self, buffer: &mut Vec<u8>) -> (r: Result<(), SrdError>)
        ensures
            r is Ok,
            final(buffer)@ == old(buffer)@ + spec_confirm_bytes(*self),
    {
        if let Err(e) = self.write_inner(buffer) {
            proof {
                assert(false);
            }
            return Err(e);
        }
        put_bytes(buffer, self.mac.as_slice());
        Ok(())
    }
}

impl SrdMessage for SrdConfirm {
    fn read_from(buffer: &[u8]) -> Result<Self, SrdError> {
        SrdConfirm::parse(buffer)
    }

    fn write_to(&self, buffer: &mut Vec<u8>) -> Result<(), SrdError> {
        self.encode(buffer)
    }
}

/// Delegate: the encrypted blob behind the embedded header words, closed
/// by a MAC over all previous messages.
#[derive(Debug, PartialEq, Eq, Clone)]
pub struct SrdDelegate {
    pub signature: u32,
    pub packet_type: u8,
    pub seq_num: u8,
    pub flags: u16,
    pub size: u32,
    pub encrypted_blob: Vec<u8>,
    pub mac: [u8; 32],
}

/// The Delegate bytes under the MAC.
pub open spec fn spec_delegate_inner_bytes(m: SrdDelegate) -> Seq<u8> {
    spec_u32_to_le_bytes(m.signature) + seq![m.packet_type, m.seq_num] + spec_u16_to_le_bytes(
        m.flags,
    ) + spec_u32_to_le_bytes(m.size) + m.encrypted_blob@
}

/// The Delegate wire bytes of this revision.
pub open spec fn spec_delegate_bytes(m: SrdDelegate) -> Seq<u8> {
    spec_delegate_inner_bytes(m) + m.mac@
}

impl SrdDelegate {
    /// Parse a Delegate of this revision.
    pub fn parse(buffer: &[u8]) -> (r: Result<SrdDelegate, SrdError>)
        ensures
            match r {
                Ok(m) => m.encrypted_blob@.len() == m.size && buffer@.len() >= spec_delegate_bytes(
                    m,
                ).len() && spec_delegate_bytes(m) == buffer@.subrange(
                    0,
                    spec_delegate_bytes(m).len() as int,
                ),
                Err(e) => e is InvalidDataLength,
            },
    {
        let n = buffer.len();
        if n < 12 {
            return Err(SrdError::InvalidDataLength);
        }
        let signature = get_u32_le(buffer, 0);
        let packet_type = get_u8(buffer, 4);
        let seq_num = get_u8(buffer, 5);
        let flags = get_u16_le(buffer, 6);
        let size = get_u32_le(buffer, 8);
        let sz = size as usize;
        if sz > n - 12 || n - 12 - sz < 32 {
            return Err(SrdError::InvalidDataLength);
        }
        let encrypted_blob = get_bytes(buffer, 12, sz);
        let mac = to_array_32(slice_subrange(buffer, 12 + sz, 12 + sz + 32));
        let m = SrdDelegate { signature, packet_type, seq_num, flags, size, encrypted_blob, mac };
        proof {
            lemma_auto_spec_u16_to_from_le_bytes();
            lemma_auto_spec_u32_to_from_le_bytes();
            assert(spec_delegate_bytes(m) =~= buffer@.subrange(
                0,
                spec_delegate_bytes(m).len() as int,
            ));
        }
        Ok(m)
    }

    /// The bytes covered by the MAC.
    pub fn write_inner(&self, buffer: &mut Vec<u8>) -> (r: Result<(), SrdError>)
        ensures
            r is Ok,
            final(buffer)@ == old(buffer)@ + spec_delegate_inner_bytes(*self),
    {
        put_u32_le(buffer, self.signature);
        put_u8(buffer, self.packet_type);
        put_u8(buffer, self.seq_num);
        put_u16_le(buffer, self.flags);
        put_u32_le(buffer, self.size);
        put_bytes(buffer, self.encrypted_blob.as_slice());
        proof {
            assert(final(buffer)@ =~= old(buffer)@ + spec_delegate_inner_bytes(*self));
        }
        Ok(())
    }

    /// Serialize a Delegate of this revision.
    pub fn encode(&self, buffer: &mut Vec<u8>) -> (r: Result<(), SrdError>)
        ensures
            r is Ok,
            final(buffer)@ == old(buffer)@ + spec_delegate_bytes(*self),
    {
        if let Err(e) = self.write_inner(buffer) {
            proof {
                assert(false);
            }
            return Err(e);
        }
        put_bytes(buffer, self.mac.as_slice());
        Ok(())
    }
}

impl SrdMessage for SrdDelegate {
    fn read_from(buffer: &[u8]) -> Result<Self, SrdError> {
        SrdDelegate::parse(buffer)
    }

    fn write_to(&self, buffer: &mut Vec<u8>) -> Result<(), SrdError> {
        self.encode(buffer)
    }
}

} // verus!
