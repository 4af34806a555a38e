//! The first wire format of the protocol: packed messages with a `u16`
//! packet type and no signature word.  Kept alongside the current framed
//! format so payloads written by early peers can still be decoded.

use crate::codec::{get_bytes, get_u16_le, get_u32_le, get_u8, put_bytes, put_u16_le, put_u32_le, put_u8, to_array_32};
use crate::crypto::hmac_sha256;
use crate::errors::SrdError;
use vstd::bytes::*;
use vstd::prelude::*;
use vstd::slice::slice_subrange;

verus! {

pub const NOW_AUTH_SRD_NEGOTIATE_ID: u16 = 1;

pub const NOW_AUTH_SRD_CHALLENGE_ID: u16 = 2;

pub const NOW_AUTH_SRD_RESPONSE_ID: u16 = 3;

pub const NOW_AUTH_SRD_CONFIRM_ID: u16 = 4;

pub const NOW_AUTH_SRD_DELEGATE_ID: u16 = 5;

pub const NOW_AUTH_SRD_RESULT_ID: u16 = 6;

pub const NOW_AUTH_SRD_LOGON_BLOB_ID: u16 = 1;

/// The codec every packed message offers.
pub trait NowAuthSrdMessage: Sized {
    fn read_from(buffer: &[u8]) -> Result<Self, SrdError>;

    fn write_to(&self, buffer: &mut Vec<u8>) -> Result<(), SrdError>;

    fn get_size(&self) -> usize;

    fn get_id(&self) -> u16;
}

/// Negotiate: flags and key size.
#[derive(Debug, PartialEq, Eq, Structural, Clone, Copy)]
pub struct NowAuthSrdNegotiate {
    pub packet_type: u16,
    pub flags: u16,
    pub key_size: u16,
    pub reserved: u16,
}

/// The packed Negotiate wire bytes.
pub open spec fn spec_negotiate_bytes(m: NowAuthSrdNegotiate) -> Seq<u8> {
    spec_u16_to_le_bytes(m.packet_type) + spec_u16_to_le_bytes(m.flags) + spec_u16_to_le_bytes(
        m.key_size,
    ) + spec_u16_to_le_bytes(m.reserved)
}

impl NowAuthSrdNegotiate {
    pub fn new(key_size: u16) -> (r: NowAuthSrdNegotiate)
        ensures
            r == (NowAuthSrdNegotiate {
                packet_type: NOW_AUTH_SRD_NEGOTIATE_ID,
                flags: 0u16,
                key_size,
                reserved: 0u16,
            }),
    {
        NowAuthSrdNegotiate {
            packet_type: NOW_AUTH_SRD_NEGOTIATE_ID,
            flags: 0,
            key_size,
            reserved: 0,
        }
    }

    /// Parse a packed Negotiate.
    pub fn parse(buffer: &[u8]) -> (r: Result<NowAuthSrdNegotiate, SrdError>)
        ensures
            match r {
                Ok(m) => buffer@.len() >= 8 && spec_negotiate_bytes(m) == buffer@.subrange(0, 8),
                Err(e) => buffer@.len() < 8 && e is InvalidDataLength,
            },
    {
        let n = buffer.len();
        if n < 8 {
            return Err(SrdError::InvalidDataLength);
        }
        let m = NowAuthSrdNegotiate {
            packet_type: get_u16_le(buffer, 0),
            flags: get_u16_le(buffer, 2),
            key_size: get_u16_le(buffer, 4),
            reserved: get_u16_le(buffer, 6),
        };
        proof {
            lemma_auto_spec_u16_to_from_le_bytes();
            assert(spec_negotiate_bytes(m) =~= buffer@.subrange(0, 8));
        }
        Ok(m)
    }

    /// Serialize a packed Negotiate.
    pub fn encode(&self, buffer: &mut Vec<u8>) -> (r: Result<(), SrdError>)
        ensures
            r is Ok,
            final(buffer)@ == old(buffer)@ + spec_negotiate_bytes(*self),
    {
        put_u16_le(buffer, self.packet_type);
        put_u16_le(buffer, self.flags);
        put_u16_le(buffer, self.key_size);
        put_u16_le(buffer, self.reserved);
        proof {
            assert(final(buffer)@ =~= old(buffer)@ + spec_negotiate_bytes(*self));
        }
        Ok(())
    }
}

impl NowAuthSrdMessage for NowAuthSrdNegotiate {
    fn read_from(buffer: &[u8]) -> Result<Self, SrdError> {
        NowAuthSrdNegotiate::parse(buffer)
    }

    fn write_to(&self, buffer: &mut Vec<u8>) -> Result<(), SrdError> {
        self.encode(buffer)
    }

    fn get_size(&self) -> (r: usize)
        ensures
            r == spec_negotiate_bytes(*self).len(),
    {
        proof {
            lemma_auto_spec_u16_to_from_le_bytes();
        }
        8
    }

    fn get_id(&self) -> (r: u16)
        ensures
            r == NOW_AUTH_SRD_NEGOTIATE_ID,
    {
        NOW_AUTH_SRD_NEGOTIATE_ID
    }
}

/// Challenge: key size, group, server public key and nonce.
#[derive(Debug, PartialEq, Eq, Clone)]
pub struct NowAuthSrdChallenge {
    pub packet_type: u16,
    pub flags: u16,
    pub key_size: u16,
    pub generator: Vec<u8>,
    pub prime: Vec<u8>,
    pub public_key: Vec<u8>,
    pub nonce: [u8; 32],
}

/// The packed Challenge wire bytes.
pub open spec fn spec_challenge_bytes(m: NowAuthSrdChallenge) -> Seq<u8> {
    spec_u16_to_le_bytes(m.packet_type) + spec_u16_to_le_bytes(m.flags) + spec_u16_to_le_bytes(
        m.key_size,
    ) + m.generator@ + m.prime@ + m.public_key@ + m.nonce@
}

/// The fields have the widths the key size prescribes.
pub open spec fn spec_challenge_wf(m: NowAuthSrdChallenge) -> bool {
    m.generator@.len() == 2 && m.prime@.len() == m.key_size && m.public_key@.len() == m.key_size
        && m.nonce@.len() == 32
}

impl NowAuthSrdChallenge {
    /// Parse a packed Challenge.
    pub fn parse(buffer: &[u8]) -> (r: Result<NowAuthSrdChallenge, SrdError>)
        ensures
            match r {
                Ok(m) => spec_challenge_wf(m) && buffer@.len() >= spec_challenge_bytes(m).len()
                    && spec_challenge_bytes(m) == buffer@.subrange(
                    0,
                    spec_challenge_bytes(m).len() as int,
                ),
                Err(e) => e is InvalidDataLength,
            },
    {
        let n = buffer.len();
        if n < 8 {
            return Err(SrdError::InvalidDataLength);
        }
        let packet_type = get_u16_le(buffer, 0);
        let flags = get_u16_le(buffer, 2);
        let key_size = get_u16_le(buffer, 4);
        let ks = key_size as usize;
        if n < 8 + ks + ks + 32 {
            return Err(SrdError::InvalidDataLength);
        }
        let generator = get_bytes(buffer, 6, 2);
        let prime = get_bytes(buffer, 8, ks);
        let public_key = get_bytes(buffer, 8 + ks, ks);
        let nonce = to_array_32(slice_subrange(buffer, 8 + ks + ks, 8 + ks + ks + 32));
        let m = NowAuthSrdChallenge { packet_type, flags, key_size, generator, prime, public_key, nonce };
        proof {
            lemma_auto_spec_u16_to_from_le_bytes();
            assert(spec_challenge_bytes(m) =~= buffer@.subrange(
                0,
                spec_challenge_bytes(m).len() as int,
            ));
        }
        Ok(m)
    }

    /// Serialize a packed Challenge.
    pub fn encode(&self, buffer: &mut Vec<u8>) -> (r: Result<(), SrdError>)
        ensures
            r is Ok,
            final(buffer)@ == old(buffer)@ + spec_challenge_bytes(*self),
    {
        put_u16_le(buffer, self.packet_type);
        put_u16_le(buffer, self.flags);
        put_u16_le(buffer, self.key_size);
        put_bytes(buffer, self.generator.as_slice());
        put_bytes(buffer, self.prime.as_slice());
        put_bytes(buffer, self.public_key.as_slice());
        put_bytes(buffer, self.nonce.as_slice());
        proof {
            assert(final(buffer)@ =~= old(buffer)@ + spec_challenge_bytes(*self));
        }
        Ok(())
    }
}

impl NowAuthSrdMessage for NowAuthSrdChallenge {
    fn read_from(buffer: &[u8]) -> Result<Self, SrdError> {
        NowAuthSrdChallenge::parse(buffer)
    }

    fn write_to(&self, buffer: &mut Vec<u8>) -> Result<(), SrdError> {
        self.encode(buffer)
    }

    fn get_size(&self) -> (r: usize)
        ensures
            r == spec_challenge_bytes(*self).len(),
    {
        let mut v: Vec<u8> = Vec::new();
        match self.encode(&mut v) {
            Ok(()) => v.len(),
            Err(_) => 0,
        }
    }

    fn get_id(&self) -> (r: u16)
        ensures
            r == NOW_AUTH_SRD_CHALLENGE_ID,
    {
        NOW_AUTH_SRD_CHALLENGE_ID
    }
}

/// Response: key size, client public key, nonce, CBT and MAC.
#[derive(Debug, PartialEq, Eq, Clone)]
pub struct NowAuthSrdResponse {
    pub packet_type: u16,
    pub flags: u16,
    pub key_size: u16,
    pub reserved: u16,
    pub public_key: Vec<u8>,
    pub nonce: [u8; 32],
    pub cbt: [u8; 32],
    pub mac: [u8; 32],
}

/// The Response bytes under the MAC: everything but the MAC trailer.
pub open spec fn spec_response_inner_bytes(m: NowAuthSrdResponse) -> Seq<u8> {
    spec_u16_to_le_bytes(m.packet_type) + spec_u16_to_le_bytes(m.flags) + spec_u16_to_le_bytes(
        m.key_size,
    ) + spec_u16_to_le_bytes(m.reserved) + m.public_key@ + m.nonce@ + m.cbt@
}

/// The packed Response wire bytes.
pub open spec fn spec_response_bytes(m: NowAuthSrdResponse) -> Seq<u8> {
    spec_response_inner_bytes(m) + m.mac@
}

impl NowAuthSrdResponse {
    /// Build a Response: pad the public key to the key size, set the CBT
    /// flag exactly when a token is given, and close with an HMAC over
    /// the inner bytes.
    pub fn new(
        key_size: u16,
        public_key: Vec<u8>,
        nonce: [u8; 32],
        cbt_opt: Option<[u8; 32]>,
        integrity_key: &[u8],
    ) -> (r: Result<NowAuthSrdResponse, SrdError>)
        ensures
            match r {
                Ok(m) => {
                    &&& m.packet_type == NOW_AUTH_SRD_RESPONSE_ID
                    &&& m.flags == (if cbt_opt is Some {
                        3u16
                    } else {
                        1u16
                    })
                    &&& m.key_size == key_size
                    &&& m.public_key@ == crate::codec::spec_left_pad(public_key@, key_size as int)
                    &&& m.nonce@ == nonce@
                    &&& (cbt_opt matches Some(c) ==> m.cbt@ == c@)
                    &&& (cbt_opt is None ==> m.cbt@ == Seq::<u8>::new(32, |i: int| 0u8))
                    &&& m.mac@ == crate::crypto::hmac_sha256_of(
                        integrity_key@,
                        spec_response_inner_bytes(m),
                    )
                },
                Err(e) => false,
            },
    {
        let mut public_key = public_key;
        crate::codec::expand_start(&mut public_key, key_size as usize);
        let (flags, cbt): (u16, [u8; 32]) = match cbt_opt {
            None => (0x01, to_array_32(crate::codec::zero_bytes(32).as_slice())),
            Some(c) => (0x03, c),
        };
        let mut response = NowAuthSrdResponse {
            packet_type: NOW_AUTH_SRD_RESPONSE_ID,
            flags,
            reserved: 0,
            key_size,
            public_key,
            nonce,
            cbt,
            mac: to_array_32(crate::codec::zero_bytes(32).as_slice()),
        };
        let mut inner: Vec<u8> = Vec::new();
        if let Err(e) = response.write_inner(&mut inner) {
            return Err(e);
        }
        let mac = hmac_sha256(integrity_key, inner.as_slice());
        response.mac = to_array_32(mac.as_slice());
        proof {
            assert(spec_response_inner_bytes(response) =~= inner@);
        }
        Ok(response)
    }

    pub fn has_cbt(&self) -> (r: bool)
        ensures
            r == (self.flags & 0x02 == 0x02),
    {
        self.flags & 0x02 == 0x02
    }

    /// The bytes covered by the MAC.
    pub fn write_inner(&self, buffer: &mut Vec<u8>) -> (r: Result<(), SrdError>)
        ensures
            r is Ok,
            final(buffer)@ == old(buffer)@ + spec_response_inner_bytes(*self),
    {
        put_u16_le(buffer, self.packet_type);
        put_u16_le(buffer, self.flags);
        put_u16_le(buffer, self.key_size);
        put_u16_le(buffer, self.reserved);
        put_bytes(buffer, self.public_key.as_slice());
        put_bytes(buffer, self.nonce.as_slice());
        put_bytes(buffer, self.cbt.as_slice());
        proof {
            assert(final(buffer)@ =~= old(buffer)@ + spec_response_inner_bytes(*self));
        }
        Ok(())
    }

    /// Recompute the MAC over the inner bytes and compare.
    pub fn verify_mac(&self, integrity_key: &[u8]) -> (r: Result<(), SrdError>)
        ensures
            r is Ok <==> self.mac@ == crate::crypto::hmac_sha256_of(
                integrity_key@,
                spec_response_inner_bytes(*self),
            ),
            r is Err ==> r->Err_0 is InvalidMac,
    {
        let mut inner: Vec<u8> = Vec::new();
        if let Err(e) = self.write_inner(&mut inner) {
            proof {
                assert(false);
            }
            return Err(e);
        }
        if crate::crypto::hmac_sha256_verify(integrity_key, inner.as_slice(), self.mac.as_slice()) {
            Ok(())
        } else {
            Err(SrdError::InvalidMac)
        }
    }

    /// Parse a packed Response.
    pub fn parse(buffer: &[u8]) -> (r: Result<NowAuthSrdResponse, SrdError>)
        ensures
            match r {
                Ok(m) => m.public_key@.len() == m.key_size && buffer@.len()
                    >= spec_response_bytes(m).len() && spec_response_bytes(m) == buffer@.subrange(
                    0,
                    spec_response_bytes(m).len() as int,
                ),
                Err(e) => e is InvalidDataLength,
            },
    {
        let n = buffer.len();
        if n < 8 {
            return Err(SrdError::InvalidDataLength);
        }
        let packet_type = get_u16_le(buffer, 0);
        let flags = get_u16_le(buffer, 2);
        let key_size = get_u16_le(buffer, 4);
        let reserved = get_u16_le(buffer, 6);
        let ks = key_size as usize;
        if n < 8 + ks + 96 {
            return Err(SrdError::InvalidDataLength);
        }
        let public_key = get_bytes(buffer, 8, ks);
        let nonce = to_array_32(slice_subrange(buffer, 8 + ks, 8 + ks + 32));
        let cbt = to_array_32(slice_subrange(buffer, 8 + ks + 32, 8 + ks + 64));
        let mac = to_array_32(slice_subrange(buffer, 8 + ks + 64, 8 + ks + 96));
        let m = NowAuthSrdResponse {
            packet_type,
            flags,
            key_size,
            reserved,
            public_key,
            nonce,
            cbt,
            mac,
        };
        proof {
            lemma_auto_spec_u16_to_from_le_bytes();
            assert(spec_response_bytes(m) =~= buffer@.subrange(
                0,
                spec_response_bytes(m).len() as int,
            ));
        }
        Ok(m)
    }

    /// Serialize a packed Response.
    pub fn encode(&self, buffer: &mut Vec<u8>) -> (r: Result<(), SrdError>)
        ensures
            r is Ok,
            final(buffer)@ == old(buffer)@ + spec_response_bytes(*self),
    {
        if let Err(e) = self.write_inner(buffer) {
            proof {
                assert(false);
            }
            return Err(e);
        }
        put_bytes(buffer, self.mac.as_slice());
        Ok(())
    }
}

impl NowAuthSrdMessage for NowAuthSrdResponse {
    fn read_from(buffer: &[u8]) -> Result<Self, SrdError> {
        NowAuthSrdResponse::parse(buffer)
    }

    fn write_to(&self, buffer: &mut Vec<u8>) -> Result<(), SrdError> {
        self.encode(buffer)
    }

    fn get_size(&self) -> (r: usize)
        ensures
            r == spec_response_bytes(*self).len(),
    {
        let mut v: Vec<u8> = Vec::new();
        match self.encode(&mut v) {
            Ok(()) => v.len(),
            Err(_) => 0,
        }
    }

    fn get_id(&self) -> (r: u16)
        ensures
            r == NOW_AUTH_SRD_RESPONSE_ID,
    {
        NOW_AUTH_SRD_RESPONSE_ID
    }
}

/// Confirm: CBT and MAC.
#[derive(Debug, PartialEq, Eq, Clone, Copy)]
pub struct NowAuthSrdConfirm {
    pub packet_type: u16,
    pub flags: u16,
    pub reserved: u32,
    pub cbt: [u8; 32],
    pub mac: [u8; 32],
}

/// The Confirm bytes under the MAC.
pub open spec fn spec_confirm_inner_bytes(m: NowAuthSrdConfirm) -> Seq<u8> {
    spec_u16_to_le_bytes(m.packet_type) + spec_u16_to_le_bytes(m.flags) + spec_u32_to_le_bytes(
        m.reserved,
    ) + m.cbt@
}

/// The packed Confirm wire bytes.
pub open spec fn spec_confirm_bytes(m: NowAuthSrdConfirm) -> Seq<u8> {
    spec_confirm_inner_bytes(m) + m.mac@
}

impl NowAuthSrdConfirm {
    /// Build a Confirm: the CBT flag is set exactly when a token is
    /// given, and the message is closed with an HMAC over the inner
    /// bytes.
    pub fn new(cbt_opt: Option<[u8; 32]>, integrity_key: &[u8]) -> (r: Result<
        NowAuthSrdConfirm,
        SrdError,
    >)
        ensures
            match r {
                Ok(m) => {
                    &&& m.packet_type == NOW_AUTH_SRD_CONFIRM_ID
                    &&& m.flags == (if cbt_opt is Some {
                        3u16
                    } else {
                        1u16
                    })
                    &&& (cbt_opt matches Some(c) ==> m.cbt@ == c@)
                    &&& (cbt_opt is None ==> m.cbt@ == Seq::<u8>::new(32, |i: int| 0u8))
                    &&& m.mac@ == crate::crypto::hmac_sha256_of(
                        integrity_key@,
                        spec_confirm_inner_bytes(m),
                    )
                },
                Err(e) => false,
            },
    {
        let (flags, cbt): (u16, [u8; 32]) = match cbt_opt {
            None => (0x01, to_array_32(crate::codec::zero_bytes(32).as_slice())),
            Some(c) => (0x03, c),
        };
        let mut response = NowAuthSrdConfirm {
            packet_type: NOW_AUTH_SRD_CONFIRM_ID,
            flags,
            reserved: 0,
            cbt,
            mac: to_array_32(crate::codec::zero_bytes(32).as_slice()),
        };
        let mut inner: Vec<u8> = Vec::new();
        if let Err(e) = response.write_inner(&mut inner) {
            return Err(e);
        }
        let mac = hmac_sha256(integrity_key, inner.as_slice());
        response.mac = to_array_32(mac.as_slice());
        proof {
            assert(spec_confirm_inner_bytes(response) =~= inner@);
        }
        Ok(response)
    }

    pub fn has_cbt(&self) -> (r: bool)
        ensures
            r == (self.flags & 0x02 == 0x02),
    {
        self.flags & 0x02 == 0x02
    }

    /// The bytes covered by the MAC.
    pub fn write_inner(&self, buffer: &mut Vec<u8>) -> (r: Result<(), SrdError>)
        ensures
            r is Ok,
            final(buffer)@ == old(buffer)@ + spec_confirm_inner_bytes(*self),
    {
        put_u16_le(buffer, self.packet_type);
        put_u16_le(buffer, self.flags);
        put_u32_le(buffer, self.reserved);
        put_bytes(buffer, self.cbt.as_slice());
        proof {
            assert(final(buffer)@ =~= old(buffer)@ + spec_confirm_inner_bytes(*self));
        }
        Ok(())
    }

    /// Recompute the MAC over the inner bytes and compare.
    pub fn verify_mac(&self, integrity_key: &[u8]) -> (r: Result<(), SrdError>)
        ensures
            r is Ok <==> self.mac@ == crate::crypto::hmac_sha256_of(
                integrity_key@,
                spec_confirm_inner_bytes(*self),
            ),
            r is Err ==> r->Err_0 is InvalidMac,
    {
        let mut inner: Vec<u8> = Vec::new();
        if let Err(e) = self.write_inner(&mut inner) {
            proof {
                assert(false);
            }
            return Err(e);
        }
        if crate::crypto::hmac_sha256_verify(integrity_key, inner.as_slice(), self.mac.as_slice()) {
            Ok(())
        } else {
            Err(SrdError::InvalidMac)
        }
    }

    /// Parse a packed Confirm.
    pub fn parse(buffer: &[u8]) -> (r: Result<NowAuthSrdConfirm, SrdError>)
        ensures
            match r {
                Ok(m) => buffer@.len() >= 72 && spec_confirm_bytes(m) == buffer@.subrange(0, 72),
                Err(e) => buffer@.len() < 72 && e is InvalidDataLength,
            },
    {
        let n = buffer.len();
        if n < 72 {
            return Err(SrdError::InvalidDataLength);
        }
        let m = NowAuthSrdConfirm {
            packet_type: get_u16_le(buffer, 0),
            flags: get_u16_le(buffer, 2),
            reserved: get_u32_le(buffer, 4),
            cbt: to_array_32(slice_subrange(buffer, 8, 40)),
            mac: to_array_32(slice_subrange(buffer, 40, 72)),
        };
        proof {
            lemma_auto_spec_u16_to_from_le_bytes();
            lemma_auto_spec_u32_to_from_le_bytes();
            assert(spec_confirm_bytes(m) =~= buffer@.subrange(0, 72));
        }
        Ok(m)
    }

    /// Serialize a packed Confirm.
    pub fn encode(&self, buffer: &mut Vec<u8>) -> (r: Result<(), SrdError>)
        ensures
            r is Ok,
            final(buffer)@ == old(buffer)@ + spec_confirm_bytes(*self),
    {
        if let Err(e) = self.write_inner(buffer) {
            proof {
                assert(false);
            }
            return Err(e);
        }
        put_bytes(buffer, self.mac.as_slice());
        Ok(())
    }
}

impl NowAuthSrdMessage for NowAuthSrdConfirm {
    fn read_from(buffer: &[u8]) -> Result<Self, SrdError> {
        NowAuthSrdConfirm::parse(buffer)
    }

    fn write_to(&self, buffer: &mut Vec<u8>) -> Result<(), SrdError> {
        self.encode(buffer)
    }

    fn get_size(&self) -> (r: usize)
        ensures
            r == spec_confirm_bytes(*self).len(),
    {
        proof {
            lemma_auto_spec_u16_to_from_le_bytes();
            lemma_auto_spec_u32_to_from_le_bytes();
        }
        72
    }

    fn get_id(&self) -> (r: u16)
        ensures
            r == NOW_AUTH_SRD_CONFIRM_ID,
    {
        NOW_AUTH_SRD_CONFIRM_ID
    }
}

/// Result: a status word and MAC.
#[derive(Debug, PartialEq, Eq, Clone, Copy)]
pub struct NowAuthSrdResult {
    pub packet_type: u16,
    pub flags: u16,
    pub reserved: u32,
    pub status: u32,
    pub mac: [u8; 32],
}

/// The Result bytes under the MAC.
pub open spec fn spec_result_inner_bytes(m: NowAuthSrdResult) -> Seq<u8> {
    spec_u16_to_le_bytes(m.packet_type) + spec_u16_to_le_bytes(m.flags) + spec_u32_to_le_bytes(
        m.reserved,
    ) + spec_u32_to_le_bytes(m.status)
}

/// The packed Result wire bytes.
pub open spec fn spec_result_bytes(m: NowAuthSrdResult) -> Seq<u8> {
    spec_result_inner_bytes(m) + m.mac@
}

impl NowAuthSrdResult {
    /// Build a Result closed with an HMAC over the inner bytes.
    pub fn new(status: u32, integrity_key: &[u8]) -> (r: Result<NowAuthSrdResult, SrdError>)
        ensures
            match r {
                Ok(m) => m.packet_type == NOW_AUTH_SRD_RESULT_ID && m.flags == 1u16 && m.status
                    == status && m.mac@ == crate::crypto::hmac_sha256_of(
                    integrity_key@,
                    spec_result_inner_bytes(m),
                ),
                Err(e) => false,
            },
    {
        let mut response = NowAuthSrdResult {
            packet_type: NOW_AUTH_SRD_RESULT_ID,
            flags: 0x01,
            reserved: 0,
            status,
            mac: to_array_32(crate::codec::zero_bytes(32).as_slice()),
        };
        let mut inner: Vec<u8> = Vec::new();
        if let Err(e) = response.write_inner(&mut inner) {
            return Err(e);
        }
        let mac = hmac_sha256(integrity_key, inner.as_slice());
        response.mac = to_array_32(mac.as_slice());
        proof {
            assert(spec_result_inner_bytes(response) =~= inner@);
        }
        Ok(response)
    }

    /// The bytes covered by the MAC.
    pub fn write_inner(&self, buffer: &mut Vec<u8>) -> (r: Result<(), SrdError>)
        ensures
            r is Ok,
            final(buffer)@ == old(buffer)@ + spec_result_inner_bytes(*self),
    {
        put_u16_le(buffer, self.packet_type);
        put_u16_le(buffer, self.flags);
        put_u32_le(buffer, self.reserved);
        put_u32_le(buffer, self.status);
        proof {
            assert(final(buffer)@ =~= old(buffer)@ + spec_result_inner_bytes(*self));
        }
        Ok(())
    }

    /// Recompute the MAC over the inner bytes and compare.
    pub fn verify_mac(&self, integrity_key: &[u8]) -> (r: Result<(), SrdError>)
        ensures
            r is Ok <==> self.mac@ == crate::crypto::hmac_sha256_of(
                integrity_key@,
                spec_result_inner_bytes(*self),
            ),
            r is Err ==> r->Err_0 is InvalidMac,
    {
        let mut inner: Vec<u8> = Vec::new();
        if let Err(e) = self.write_inner(&mut inner) {
            proof {
                assert(false);
            }
            return Err(e);
        }
        if crate::crypto::hmac_sha256_verify(integrity_key, inner.as_slice(), self.mac.as_slice()) {
            Ok(())
        } else {
            Err(SrdError::InvalidMac)
        }
    }

    /// Parse a packed Result.
    pub fn parse(buffer: &[u8]) -> (r: Result<NowAuthSrdResult, SrdError>)
        ensures
            match r {
                Ok(m) => buffer@.len() >= 44 && spec_result_bytes(m) == buffer@.subrange(0, 44),
                Err(e) => buffer@.len() < 44 && e is InvalidDataLength,
            },
    {
        let n = buffer.len();
        if n < 44 {
            return Err(SrdError::InvalidDataLength);
        }
        let m = NowAuthSrdResult {
            packet_type: get_u16_le(buffer, 0),
            flags: get_u16_le(buffer, 2),
            reserved: get_u32_le(buffer, 4),
            status: get_u32_le(buffer, 8),
            mac: to_array_32(slice_subrange(buffer, 12, 44)),
        };
        proof {
            lemma_auto_spec_u16_to_from_le_bytes();
            lemma_auto_spec_u32_to_from_le_bytes();
            assert(spec_result_bytes(m) =~= buffer@.subrange(0, 44));
        }
        Ok(m)
    }

    /// Serialize a packed Result.
    pub fn encode(&self, buffer: &mut Vec<u8>) -> (r: Result<(), SrdError>)
        ensures
            r is Ok,
            final(buffer)@ == old(buffer)@ + spec_result_bytes(*self),
    {
        if let Err(e) = self.write_inner(buffer) {
            proof {
                assert(false);
            }
            return Err(e);
        }
        put_bytes(buffer, self.mac.as_slice());
        Ok(())
    }
}

impl NowAuthSrdMessage for NowAuthSrdResult {
    fn read_from(buffer: &[u8]) -> Result<Self, SrdError> {
        NowAuthSrdResult::parse(buffer)
    }

    fn write_to(&self, buffer: &mut Vec<u8>) -> Result<(), SrdError> {
        self.encode(buffer)
    }

    fn get_size(&self) -> (r: usize)
        ensures
            r == spec_result_bytes(*self).len(),
    {
        proof {
            lemma_auto_spec_u16_to_from_le_bytes();
            lemma_auto_spec_u32_to_from_le_bytes();
        }
        44
    }

    fn get_id(&self) -> (r: u16)
        ensures
            r == NOW_AUTH_SRD_RESULT_ID,
    {
        NOW_AUTH_SRD_RESULT_ID
    }
}

/// Logon blob: one AES-256-CBC block run of `user || pass`, 256 bytes.
#[derive(Debug, PartialEq, Eq, Clone, Copy)]
pub struct NowAuthSrdLogonBlob {
    pub packet_type: u8,
    pub flags: u8,
    pub size: u16,
    pub data: [u8; 256],
}

/// The packed logon blob wire bytes.
pub open spec fn spec_logon_blob_bytes(m: NowAuthSrdLogonBlob) -> Seq<u8> {
    seq![m.packet_type, m.flags] + spec_u16_to_le_bytes(m.size) + m.data@
}

impl NowAuthSrdLogonBlob {
    /// Build a logon blob: the credentials, already padded to the 256
    /// data bytes, are encrypted with AES-256-CBC under the given key and
    /// the first 16 bytes of the IV.
    pub fn new(username: &[u8], password: &[u8], iv: &[u8], key: &[u8]) -> (r: Result<
        NowAuthSrdLogonBlob,
        SrdError,
    >)
        requires
            key@.len() == 32,
            iv@.len() >= 16,
        ensures
            match r {
                Ok(m) => {
                    &&& username@.len() + password@.len() == 256
                    &&& m.packet_type == 1u8
                    &&& m.flags == 0u8
                    &&& m.size == 256u16
                    &&& m.data@ == crate::cipher::aes256_cbc_encrypt_of(
                        key@,
                        iv@.take(16),
                        username@ + password@,
                    )
                },
                Err(e) => username@.len() + password@.len() != 256 && e is InvalidDataLength,
            },
    {
        let ulen = username.len();
        let plen = password.len();
        if ulen > 256 || plen > 256 || ulen + plen != 256 {
            return Err(SrdError::InvalidDataLength);
        }
        let mut plain: Vec<u8> = Vec::new();
        put_bytes(&mut plain, username);
        put_bytes(&mut plain, password);
        let ivs = slice_subrange(iv, 0, 16);
        proof {
            assert(ivs@ =~= iv@.take(16));
        }
        let enc = crate::cipher::aes256_cbc_encrypt(key, ivs, plain.as_slice());
        Ok(
            NowAuthSrdLogonBlob {
                packet_type: NOW_AUTH_SRD_LOGON_BLOB_ID as u8,
                flags: 0,
                size: 256,
                data: crate::codec::to_array_256(enc.as_slice()),
            },
        )
    }

    /// Decrypt the 256 data bytes back to the padded credentials.
    pub fn decrypt_data(&self, iv: &[u8], key: &[u8]) -> (r: Result<[u8; 256], SrdError>)
        requires
            key@.len() == 32,
            iv@.len() >= 16,
        ensures
            match r {
                Ok(d) => d@ == crate::cipher::aes256_cbc_decrypt_of(key@, iv@.take(16), self.data@),
                Err(e) => false,
            },
    {
        let ivs = slice_subrange(iv, 0, 16);
        proof {
            assert(ivs@ =~= iv@.take(16));
        }
        let dec = crate::cipher::aes256_cbc_decrypt(key, ivs, self.data.as_slice());
        Ok(crate::codec::to_array_256(dec.as_slice()))
    }

    /// Parse a packed logon blob.
    pub fn parse(buffer: &[u8]) -> (r: Result<NowAuthSrdLogonBlob, SrdError>)
        ensures
            match r {
                Ok(m) => buffer@.len() >= 260 && spec_logon_blob_bytes(m) == buffer@.subrange(
                    0,
                    260,
                ),
                Err(e) => buffer@.len() < 260 && e is InvalidDataLength,
            },
    {
        let n = buffer.len();
        if n < 260 {
            return Err(SrdError::InvalidDataLength);
        }
        let m = NowAuthSrdLogonBlob {
            packet_type: get_u8(buffer, 0),
            flags: get_u8(buffer, 1),
            size: get_u16_le(buffer, 2),
            data: crate::codec::to_array_256(slice_subrange(buffer, 4, 260)),
        };
        proof {
            lemma_auto_spec_u16_to_from_le_bytes();
            assert(spec_logon_blob_bytes(m) =~= buffer@.subrange(0, 260));
        }
        Ok(m)
    }

    /// Serialize a packed logon blob.
    pub fn encode(&self, buffer: &mut Vec<u8>) -> (r: Result<(), SrdError>)
        ensures
            r is Ok,
            final(buffer)@ == old(buffer)@ + spec_logon_blob_bytes(*self),
    {
        put_u8(buffer, self.packet_type);
        put_u8(buffer, self.flags);
        put_u16_le(buffer, self.size);
        put_bytes(buffer, self.data.as_slice());
        proof {
            assert(final(buffer)@ =~= old(buffer)@ + spec_logon_blob_bytes(*self));
        }
        Ok(())
    }
}

impl NowAuthSrdMessage for NowAuthSrdLogonBlob {
    fn read_from(buffer: &[u8]) -> Result<Self, SrdError> {
        NowAuthSrdLogonBlob::parse(buffer)
    }

    fn write_to(&self, buffer: &mut Vec<u8>) -> Result<(), SrdError> {
        self.encode(buffer)
    }

    fn get_size(&self) -> (r: usize)
        ensures
            r == spec_logon_blob_bytes(*self).len(),
    {
        proof {
            lemma_auto_spec_u16_to_from_le_bytes();
        }
        260
    }

    fn get_id(&self) -> (r: u16)
        ensures
            r == NOW_AUTH_SRD_LOGON_BLOB_ID,
    {
        NOW_AUTH_SRD_LOGON_BLOB_ID
    }
}

/// Delegate: the encrypted logon blob, closed by a MAC.
#[derive(Debug, PartialEq, Eq, Clone, Copy)]
pub struct NowAuthSrdDelegate {
    pub packet_type: u16,
    pub flags: u16,
    pub reserved: u32,
    pub blob: NowAuthSrdLogonBlob,
    pub mac: [u8; 32],
}

/// The Delegate bytes under the MAC.
pub open spec fn spec_delegate_inner_bytes(m: NowAuthSrdDelegate) -> Seq<u8> {
    spec_u16_to_le_bytes(m.packet_type) + spec_u16_to_le_bytes(m.flags) + spec_u32_to_le_bytes(
        m.reserved,
    ) + spec_logon_blob_bytes(m.blob)
}

/// The packed Delegate wire bytes.
pub open spec fn spec_delegate_bytes(m: NowAuthSrdDelegate) -> Seq<u8> {
    spec_delegate_inner_bytes(m) + m.mac@
}

impl NowAuthSrdDelegate {
    /// Build a Delegate around an encrypted blob, closed with an HMAC
    /// over the inner bytes.
    pub fn new(blob: NowAuthSrdLogonBlob, integrity_key: &[u8]) -> (r: Result<
        NowAuthSrdDelegate,
        SrdError,
    >)
        ensures
            match r {
                Ok(m) => m.packet_type == NOW_AUTH_SRD_DELEGATE_ID && m.flags == 1u16 && m.blob
                    == blob && m.mac@ == crate::crypto::hmac_sha256_of(
                    integrity_key@,
                    spec_delegate_inner_bytes(m),
                ),
                Err(e) => false,
            },
    {
        let mut response = NowAuthSrdDelegate {
            packet_type: NOW_AUTH_SRD_DELEGATE_ID,
            flags: 0x01,
            reserved: 0,
            blob,
            mac: to_array_32(crate::codec::zero_bytes(32).as_slice()),
        };
        let mut inner: Vec<u8> = Vec::new();
        if let Err(e) = response.write_inner(&mut inner) {
            return Err(e);
        }
        let mac = hmac_sha256(integrity_key, inner.as_slice());
        response.mac = to_array_32(mac.as_slice());
        proof {
            assert(spec_delegate_inner_bytes(response) =~= inner@);
        }
        Ok(response)
    }

    /// The bytes covered by the MAC.
    pub fn write_inner(&self, buffer: &mut Vec<u8>) -> (r: Result<(), SrdError>)
        ensures
            r is Ok,
            final(buffer)@ == old(buffer)@ + spec_delegate_inner_bytes(*self),
    {
        put_u16_le(buffer, self.packet_type);
        put_u16_le(buffer, self.flags);
        put_u32_le(buffer, self.reserved);
        if let Err(e) = self.blob.encode(buffer) {
            proof {
                assert(false);
            }
            return Err(e);
        }
        proof {
            assert(final(buffer)@ =~= old(buffer)@ + spec_delegate_inner_bytes(*self));
        }
        Ok(())
    }

    /// Recompute the MAC over the inner bytes and compare.
    pub fn verify_mac(&self, integrity_key: &[u8]) -> (r: Result<(), SrdError>)
        ensures
            r is Ok <==> self.mac@ == crate::crypto::hmac_sha256_of(
                integrity_key@,
                spec_delegate_inner_bytes(*self),
            ),
            r is Err ==> r->Err_0 is InvalidMac,
    {
        let mut inner: Vec<u8> = Vec::new();
        if let Err(e) = self.write_inner(&mut inner) {
            proof {
                assert(false);
            }
            return Err(e);
        }
        if crate::crypto::hmac_sha256_verify(integrity_key, inner.as_slice(), self.mac.as_slice()) {
            Ok(())
        } else {
            Err(SrdError::InvalidMac)
        }
    }

    /// Decrypt the carried blob back to the padded credentials.
    pub fn get_data(&self, iv: &[u8], key: &[u8]) -> (r: Result<[u8; 256], SrdError>)
        requires
            key@.len() == 32,
            iv@.len() >= 16,
        ensures
            match r {
                Ok(d) => d@ == crate::cipher::aes256_cbc_decrypt_of(
                    key@,
                    iv@.take(16),
                    self.blob.data@,
                ),
                Err(e) => false,
            },
    {
        self.blob.decrypt_data(iv, key)
    }

    /// Parse a packed Delegate.
    pub fn parse(buffer: &[u8]) -> (r: Result<NowAuthSrdDelegate, SrdError>)
        ensures
            match r {
                Ok(m) => buffer@.len() >= 300 && spec_delegate_bytes(m) == buffer@.subrange(
                    0,
                    300,
                ),
                Err(e) => e is InvalidDataLength,
            },
    {
        let n = buffer.len();
        if n < 300 {
            return Err(SrdError::InvalidDataLength);
        }
        let packet_type = get_u16_le(buffer, 0);
        let flags = get_u16_le(buffer, 2);
        let reserved = get_u32_le(buffer, 4);
        let blob = match NowAuthSrdLogonBlob::parse(slice_subrange(buffer, 8, n)) {
            Ok(b) => b,
            Err(e) => {
                proof {
                    assert(false);
                }
                return Err(e);
            },
        };
        let mac = to_array_32(slice_subrange(buffer, 268, 300));
        let m = NowAuthSrdDelegate { packet_type, flags, reserved, blob, mac };
        proof {
            lemma_auto_spec_u16_to_from_le_bytes();
            lemma_auto_spec_u32_to_from_le_bytes();
            assert(spec_logon_blob_bytes(m.blob) =~= buffer@.subrange(8, 268));
            assert(spec_delegate_bytes(m) =~= buffer@.subrange(0, 300));
        }
        Ok(m)
    }

    /// Serialize a packed Delegate.
    pub fn encode(&self, buffer: &mut Vec<u8>) -> (r: Result<(), SrdError>)
        ensures
            r is Ok,
            final(buffer)@ == old(buffer)@ + spec_delegate_bytes(*self),
    {
        if let Err(e) = self.write_inner(buffer) {
            proof {
                assert(false);
            }
            return Err(e);
        }
        put_bytes(buffer, self.mac.as_slice());
        Ok(())
    }
}

impl NowAuthSrdMessage for NowAuthSrdDelegate {
    fn read_from(buffer: &[u8]) -> Result<Self, SrdError> {
        NowAuthSrdDelegate::parse(buffer)
    }

    fn write_to(&self, buffer: &mut Vec<u8>) -> Result<(), SrdError> {
        self.encode(buffer)
    }

    fn get_size(&self) -> (r: usize)
        ensures
            r == spec_delegate_bytes(*self).len(),
    {
        proof {
            lemma_auto_spec_u16_to_from_le_bytes();
            lemma_auto_spec_u32_to_from_le_bytes();
        }
        300
    }

    fn get_id(&self) -> (r: u16)
        ensures
            r == NOW_AUTH_SRD_DELEGATE_ID,
    {
        NOW_AUTH_SRD_DELEGATE_ID
    }
}

/// The same packed family under the names a later revision gave it.
pub type SrdNegotiate = NowAuthSrdNegotiate;

pub type SrdChallenge = NowAuthSrdChallenge;

pub type SrdResponse = NowAuthSrdResponse;

pub type SrdConfirm = NowAuthSrdConfirm;

pub type SrdDelegate = NowAuthSrdDelegate;

pub type SrdResult = NowAuthSrdResult;

pub type SrdLogonBlob = NowAuthSrdLogonBlob;

pub const SRD_NEGOTIATE_ID: u16 = NOW_AUTH_SRD_NEGOTIATE_ID;

pub const SRD_CHALLENGE_ID: u16 = NOW_AUTH_SRD_CHALLENGE_ID;

pub const SRD_RESPONSE_ID: u16 = NOW_AUTH_SRD_RESPONSE_ID;

pub const SRD_CONFIRM_ID: u16 = NOW_AUTH_SRD_CONFIRM_ID;

pub const SRD_DELEGATE_ID: u16 = NOW_AUTH_SRD_DELEGATE_ID;

pub const SRD_RESULT_ID: u16 = NOW_AUTH_SRD_RESULT_ID;

pub const SRD_LOGON_BLOB_ID: u16 = NOW_AUTH_SRD_LOGON_BLOB_ID;

} // verus!
