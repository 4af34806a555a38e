//! The wire messages of the handshake: a fixed 8-byte header (signature,
//! type, sequence number, flags) followed by one of five typed bodies.
//! Serializers state the exact bytes they produce; the parser states the
//! exact model it decodes, and the two are related by a round-trip law.

use crate::blobs::{spec_blob_bytes, spec_data_padding, spec_type_padding, SrdBlob};
use crate::cipher::{spec_decrypt, spec_encrypt, Cipher};
use crate::codec::{get_bytes, get_u16_le, get_u32_le, get_u8, expand_start, put_bytes, put_u16_le, put_u32_le, put_u8};
use crate::dh_params::valid_key_size;
use crate::errors::SrdError;
use vstd::bytes::*;
use vstd::prelude::*;

verus! {

pub const SRD_SIGNATURE: u32 = 0x00445253;

pub const SRD_INITIATE_MSG_ID: u8 = 1;

pub const SRD_OFFER_MSG_ID: u8 = 2;

pub const SRD_ACCEPT_MSG_ID: u8 = 3;

pub const SRD_CONFIRM_MSG_ID: u8 = 4;

pub const SRD_DELEGATE_MSG_ID: u8 = 5;

pub const SRD_FLAG_MAC: u16 = 0x0001;

pub const SRD_FLAG_CBT: u16 = 0x0002;

pub const SRD_FLAG_SKIP: u16 = 0x0004;

/// The common 8-byte message header.
#[derive(Debug, PartialEq, Eq, Structural, Clone, Copy)]
pub struct SrdHeader {
    pub signature: u32,
    pub msg_type: u8,
    pub seq_num: u8,
    pub flags: u16,
}

/// The header's wire bytes.
pub open spec fn spec_header_bytes(h: SrdHeader) -> Seq<u8> {
    spec_u32_to_le_bytes(h.signature) + seq![h.msg_type, h.seq_num] + spec_u16_to_le_bytes(h.flags)
}

impl SrdHeader {
    pub fn new(msg_type: u8, seq_num: u8, use_cbt: bool, mac: bool) -> (r: SrdHeader)
        ensures
            r.signature == SRD_SIGNATURE,
            r.msg_type == msg_type,
            r.seq_num == seq_num,
            r.flags == (if use_cbt { SRD_FLAG_CBT } else { 0u16 } | if mac { SRD_FLAG_MAC } else { 0u16 }),
    {
        let flags: u16 = if use_cbt && mac {
            3
        } else if use_cbt {
            2
        } else if mac {
            1
        } else {
            0
        };
        proof {
            assert((2u16 | 1u16) == 3u16) by (bit_vector);
            assert((2u16 | 0u16) == 2u16) by (bit_vector);
            assert((0u16 | 1u16) == 1u16) by (bit_vector);
            assert((0u16 | 0u16) == 0u16) by (bit_vector);
        }
        SrdHeader { signature: SRD_SIGNATURE, msg_type, seq_num, flags }
    }

    pub fn msg_type(&self) -> (r: u8)
        ensures
            r == self.msg_type,
    {
        self.msg_type
    }

    pub fn signature(&self) -> (r: u32)
        ensures
            r == self.signature,
    {
        self.signature
    }

    pub fn seq_num(&self) -> (r: u8)
        ensures
            r == self.seq_num,
    {
        self.seq_num
    }

    /// Whether the CBT flag bit is set.
    pub open spec fn spec_has_cbt(self) -> bool {
        self.flags & SRD_FLAG_CBT != 0
    }

    /// Whether the MAC flag bit is set.
    pub open spec fn spec_has_mac(self) -> bool {
        self.flags & SRD_FLAG_MAC != 0
    }

    /// Whether the SKIP flag bit is set.
    pub open spec fn spec_has_skip(self) -> bool {
        self.flags & SRD_FLAG_SKIP != 0
    }

    pub fn has_cbt(&self) -> (r: bool)
        ensures
            r == self.spec_has_cbt(),
    {
        self.flags & SRD_FLAG_CBT != 0
    }

    pub fn has_mac(&self) -> (r: bool)
        ensures
            r == self.spec_has_mac(),
    {
        self.flags & SRD_FLAG_MAC != 0
    }

    pub fn has_skip(&self) -> (r: bool)
        ensures
            r == self.spec_has_skip(),
    {
        self.flags & SRD_FLAG_SKIP != 0
    }

    /// Set additional flag bits.
    pub fn add_flags(&mut self, flags: u16)
        ensures
            final(self).signature == old(self).signature,
            final(self).msg_type == old(self).msg_type,
            final(self).seq_num == old(self).seq_num,
            final(self).flags == old(self).flags | flags,
    {
        self.flags = self.flags | flags;
    }

    /// The MAC flag must match what the message type prescribes.
    pub fn validate_flags(&self, mac_expected: bool) -> (r: Result<(), SrdError>)
        ensures
            r is Ok <==> self.spec_has_mac() == mac_expected,
            r is Err ==> r->Err_0 is Proto,
    {
        if !self.has_mac() && mac_expected {
            return Err(SrdError::Proto(String::from_str("SRD_FLAG_MAC must be set")));
        }
        if self.has_mac() && !mac_expected {
            return Err(SrdError::Proto(String::from_str("SRD_FLAG_MAC must not be set")));
        }
        Ok(())
    }

    /// Serialize the header.
    pub fn write_to(&self, buf: &mut Vec<u8>) -> (r: Result<(), SrdError>)
        ensures
            r is Ok,
            final(buf)@ == old(buf)@ + spec_header_bytes(*self),
    {
        put_u32_le(buf, self.signature);
        put_u8(buf, self.msg_type);
        put_u8(buf, self.seq_num);
        put_u16_le(buf, self.flags);
        proof {
            assert(final(buf)@ =~= old(buf)@ + spec_header_bytes(*self));
        }
        Ok(())
    }

    /// Parse a header; rejects a wrong signature with `InvalidSignature`.
    pub fn read_from(data: &[u8]) -> (r: Result<SrdHeader, SrdError>)
        ensures
            match r {
                Ok(h) => spec_parse_header(data@) == Some(h),
                Err(e) => {
                    &&& spec_parse_header(data@) is None
                    &&& (e is InvalidDataLength <==> spec_err_short_header(data@))
                    &&& (e is InvalidSignature <==> spec_err_bad_signature(data@))
                    &&& (e is InvalidDataLength || e is InvalidSignature)
                },
            },
    {
        let n = data.len();
        if n < 8 {
            return Err(SrdError::InvalidDataLength);
        }
        let signature = get_u32_le(data, 0);
        if signature != SRD_SIGNATURE {
            return Err(SrdError::InvalidSignature);
        }
        let msg_type = get_u8(data, 4);
        let seq_num = get_u8(data, 5);
        let flags = get_u16_le(data, 6);
        Ok(SrdHeader { signature, msg_type, seq_num, flags })
    }
}

/// What parsing the fixed header yields: `None` on a short buffer or a
/// wrong signature.
pub open spec fn spec_parse_header(d: Seq<u8>) -> Option<SrdHeader> {
    if d.len() < 8 {
        None
    } else if spec_u32_from_le_bytes(d.subrange(0, 4)) != SRD_SIGNATURE {
        None
    } else {
        Some(
            SrdHeader {
                signature: SRD_SIGNATURE,
                msg_type: d[4],
                seq_num: d[5],
                flags: spec_u16_from_le_bytes(d.subrange(6, 8)),
            },
        )
    }
}

/// Initiate body: the client's cipher offer and key size.
#[derive(Debug, PartialEq, Eq, Structural, Clone, Copy)]
pub struct SrdInitiate {
    pub ciphers: u32,
    pub key_size: u16,
    pub reserved: u16,
}

impl SrdInitiate {
    /// Rejects key sizes other than 256, 512 and 1024.
    pub fn new(ciphers: u32, key_size: u16) -> (r: Result<SrdInitiate, SrdError>)
        ensures
            match r {
                Ok(m) => valid_key_size(key_size) && m == (SrdInitiate {
                    ciphers,
                    key_size,
                    reserved: 0u16,
                }),
                Err(e) => !valid_key_size(key_size) && e is InvalidKeySize,
            },
    {
        if key_size == 256 || key_size == 512 || key_size == 1024 {
            Ok(SrdInitiate { ciphers, key_size, reserved: 0 })
        } else {
            Err(SrdError::InvalidKeySize)
        }
    }

    pub fn key_size(&self) -> (r: u16)
        ensures
            r == self.key_size,
    {
        self.key_size
    }
}

/// Offer body: the server's cipher set and Diffie-Hellman material.
#[derive(Debug, PartialEq, Eq, Clone)]
pub struct SrdOffer {
    pub ciphers: u32,
    pub key_size: u16,
    pub generator: Vec<u8>,
    pub prime: Vec<u8>,
    pub public_key: Vec<u8>,
    pub nonce: Vec<u8>,
}

impl SrdOffer {
    pub fn key_size(&self) -> (r: u16)
        ensures
            r == self.key_size,
    {
        self.key_size
    }
}

/// Accept body: the client's chosen cipher, public key, nonce and CBT,
/// closed by the transcript MAC.
#[derive(Debug, PartialEq, Eq, Clone)]
pub struct SrdAccept {
    pub cipher: u32,
    pub key_size: u16,
    pub reserved: u16,
    pub public_key: Vec<u8>,
    pub nonce: Vec<u8>,
    pub cbt: Vec<u8>,
    pub mac: Vec<u8>,
}

impl SrdAccept {
    pub fn mac(&self) -> (r: &[u8])
        ensures
            r@ == self.mac@,
    {
        self.mac.as_slice()
    }

    pub fn set_mac(&mut self, mac: &[u8])
        ensures
            final(self).cipher == old(self).cipher,
            final(self).key_size == old(self).key_size,
            final(self).reserved == old(self).reserved,
            final(self).public_key == old(self).public_key,
            final(self).nonce == old(self).nonce,
            final(self).cbt == old(self).cbt,
            final(self).mac@ == mac@,
    {
        self.mac = vstd::slice::slice_to_vec(mac);
    }
}

/// Confirm body: the server's CBT, closed by the transcript MAC.
#[derive(Debug, PartialEq, Eq, Clone)]
pub struct SrdConfirm {
    pub cbt: Vec<u8>,
    pub mac: Vec<u8>,
}

impl SrdConfirm {
    pub fn mac(&self) -> (r: &[u8])
        ensures
            r@ == self.mac@,
    {
        self.mac.as_slice()
    }

    pub fn set_mac(&mut self, mac: &[u8])
        ensures
            final(self).cbt == old(self).cbt,
            final(self).mac@ == mac@,
    {
        self.mac = vstd::slice::slice_to_vec(mac);
    }
}

/// Delegate body: the encrypted credential blob, closed by the
/// transcript MAC.
#[derive(Debug, PartialEq, Eq, Clone)]
pub struct SrdDelegate {
    pub size: u32,
    pub encrypted_blob: Vec<u8>,
    pub mac: Vec<u8>,
}

impl SrdDelegate {
    pub fn mac(&self) -> (r: &[u8])
        ensures
            r@ == self.mac@,
    {
        self.mac.as_slice()
    }

    pub fn set_mac(&mut self, mac: &[u8])
        ensures
            final(self).size == old(self).size,
            final(self).encrypted_blob == old(self).encrypted_blob,
            final(self).mac@ == mac@,
    {
        self.mac = vstd::slice::slice_to_vec(mac);
    }

    /// Decrypt the carried blob and parse it.
    pub fn get_data(&self, cipher: Cipher, key: &[u8], iv: &[u8]) -> (r: Result<SrdBlob, SrdError>)
        requires
            key@.len() == 32,
            iv@.len() == 32,
            self.encrypted_blob@.len() < 0x1000_0000,
        ensures
            match r {
                Ok(b) => crate::blobs::spec_parse_blob(
                    spec_decrypt(cipher, key@, iv@, self.encrypted_blob@),
                ) == Some((b.blob_type@, b.data@)) && b.wf(),
                Err(e) => ((cipher is AES256 && self.encrypted_blob@.len() % 16 != 0)
                    || crate::blobs::spec_parse_blob(
                    spec_decrypt(cipher, key@, iv@, self.encrypted_blob@),
                ) is None) && (e is InvalidDataLength || e is InvalidCstr),
            },
    {
        let buffer = match cipher.decrypt_data(self.encrypted_blob.as_slice(), key, iv) {
            Ok(v) => v,
            Err(e) => {
                return Err(e);
            },
        };
        SrdBlob::read_from(buffer.as_slice())
    }
}

/// A full wire message: header plus typed body.
#[derive(Debug, PartialEq, Eq, Clone)]
pub enum SrdMessage {
    Initiate(SrdHeader, SrdInitiate),
    Offer(SrdHeader, SrdOffer),
    Accept(SrdHeader, SrdAccept),
    Confirm(SrdHeader, SrdConfirm),
    Delegate(SrdHeader, SrdDelegate),
}

/// The parsed shape of a message: header fields plus the body's values,
/// with every byte-string field as a sequence.
pub enum MsgModel {
    Initiate { hdr: SrdHeader, ciphers: u32, key_size: u16, reserved: u16 },
    Offer {
        hdr: SrdHeader,
        ciphers: u32,
        key_size: u16,
        generator: Seq<u8>,
        prime: Seq<u8>,
        public_key: Seq<u8>,
        nonce: Seq<u8>,
    },
    Accept {
        hdr: SrdHeader,
        cipher: u32,
        key_size: u16,
        reserved: u16,
        public_key: Seq<u8>,
        nonce: Seq<u8>,
        cbt: Seq<u8>,
        mac: Seq<u8>,
    },
    Confirm { hdr: SrdHeader, cbt: Seq<u8>, mac: Seq<u8> },
    Delegate { hdr: SrdHeader, size: u32, encrypted_blob: Seq<u8>, mac: Seq<u8> },
}

/// The model a message denotes.
pub open spec fn model_of(m: SrdMessage) -> MsgModel {
    match m {
        SrdMessage::Initiate(h, b) => MsgModel::Initiate {
            hdr: h,
            ciphers: b.ciphers,
            key_size: b.key_size,
            reserved: b.reserved,
        },
        SrdMessage::Offer(h, b) => MsgModel::Offer {
            hdr: h,
            ciphers: b.ciphers,
            key_size: b.key_size,
            generator: b.generator@,
            prime: b.prime@,
            public_key: b.public_key@,
            nonce: b.nonce@,
        },
        SrdMessage::Accept(h, b) => MsgModel::Accept {
            hdr: h,
            cipher: b.cipher,
            key_size: b.key_size,
            reserved: b.reserved,
            public_key: b.public_key@,
            nonce: b.nonce@,
            cbt: b.cbt@,
            mac: b.mac@,
        },
        SrdMessage::Confirm(h, b) => MsgModel::Confirm { hdr: h, cbt: b.cbt@, mac: b.mac@ },
        SrdMessage::Delegate(h, b) => MsgModel::Delegate {
            hdr: h,
            size: b.size,
            encrypted_blob: b.encrypted_blob@,
            mac: b.mac@,
        },
    }
}

/// The exact wire bytes of a message.
pub open spec fn spec_msg_bytes(m: SrdMessage) -> Seq<u8> {
    match m {
        SrdMessage::Initiate(h, b) => spec_header_bytes(h) + spec_u32_to_le_bytes(b.ciphers)
            + spec_u16_to_le_bytes(b.key_size) + spec_u16_to_le_bytes(b.reserved),
        SrdMessage::Offer(h, b) => spec_header_bytes(h) + spec_u32_to_le_bytes(b.ciphers)
            + spec_u16_to_le_bytes(b.key_size) + b.generator@ + b.prime@ + b.public_key@
            + b.nonce@,
        SrdMessage::Accept(h, b) => spec_header_bytes(h) + spec_u32_to_le_bytes(b.cipher)
            + spec_u16_to_le_bytes(b.key_size) + spec_u16_to_le_bytes(b.reserved) + b.public_key@
            + b.nonce@ + b.cbt@ + b.mac@,
        SrdMessage::Confirm(h, b) => spec_header_bytes(h) + b.cbt@ + b.mac@,
        SrdMessage::Delegate(h, b) => spec_header_bytes(h) + spec_u32_to_le_bytes(b.size)
            + b.encrypted_blob@ + b.mac@,
    }
}

/// Structural well-formedness: the header's type tag and flag rules match
/// the body, and every sized field has its wire width.
pub open spec fn spec_msg_wf(m: SrdMessage) -> bool {
    match m {
        SrdMessage::Initiate(h, b) => h.signature == SRD_SIGNATURE && h.msg_type
            == SRD_INITIATE_MSG_ID && !h.spec_has_mac() && valid_key_size(b.key_size),
        SrdMessage::Offer(h, b) => h.signature == SRD_SIGNATURE && h.msg_type == SRD_OFFER_MSG_ID
            && !h.spec_has_mac() && b.generator@.len() == 2 && b.prime@.len() == b.key_size
            && b.public_key@.len() == b.key_size && b.nonce@.len() == 32,
        SrdMessage::Accept(h, b) => h.signature == SRD_SIGNATURE && h.msg_type == SRD_ACCEPT_MSG_ID
            && h.spec_has_mac() && b.public_key@.len() == b.key_size && b.nonce@.len() == 32
            && b.cbt@.len() == 32 && b.mac@.len() == 32,
        SrdMessage::Confirm(h, b) => h.signature == SRD_SIGNATURE && h.msg_type
            == SRD_CONFIRM_MSG_ID && h.spec_has_mac() && b.cbt@.len() == 32 && b.mac@.len() == 32,
        SrdMessage::Delegate(h, b) => h.signature == SRD_SIGNATURE && h.msg_type
            == SRD_DELEGATE_MSG_ID && h.spec_has_mac() && b.encrypted_blob@.len() == b.size
            && b.mac@.len() == 32,
    }
}

/// What parsing a full message yields, flag rules included: the exact
/// specification of `SrdMessage::read_from`.
pub open spec fn spec_parse_msg(d: Seq<u8>) -> Option<MsgModel> {
    match spec_parse_header(d) {
        None => None,
        Some(h) => {
            if h.msg_type == SRD_INITIATE_MSG_ID {
                if d.len() < 16 || h.spec_has_mac() {
                    None
                } else {
                    let key_size = spec_u16_from_le_bytes(d.subrange(12, 14));
                    if valid_key_size(key_size) {
                        Some(
                            MsgModel::Initiate {
                                hdr: h,
                                ciphers: spec_u32_from_le_bytes(d.subrange(8, 12)),
                                key_size,
                                reserved: spec_u16_from_le_bytes(d.subrange(14, 16)),
                            },
                        )
                    } else {
                        None
                    }
                }
            } else if h.msg_type == SRD_OFFER_MSG_ID {
                if d.len() < 14 || h.spec_has_mac() {
                    None
                } else {
                    let key_size = spec_u16_from_le_bytes(d.subrange(12, 14)) as int;
                    if d.len() < 14 + 2 + key_size + key_size + 32 {
                        None
                    } else {
                        Some(
                            MsgModel::Offer {
                                hdr: h,
                                ciphers: spec_u32_from_le_bytes(d.subrange(8, 12)),
                                key_size: key_size as u16,
                                generator: d.subrange(14, 16),
                                prime: d.subrange(16, 16 + key_size),
                                public_key: d.subrange(16 + key_size, 16 + 2 * key_size),
                                nonce: d.subrange(16 + 2 * key_size, 16 + 2 * key_size + 32),
                            },
                        )
                    }
                }
            } else if h.msg_type == SRD_ACCEPT_MSG_ID {
                if d.len() < 16 || !h.spec_has_mac() {
                    None
                } else {
                    let key_size = spec_u16_from_le_bytes(d.subrange(12, 14)) as int;
                    if d.len() < 16 + key_size + 32 + 32 + 32 {
                        None
                    } else {
                        Some(
                            MsgModel::Accept {
                                hdr: h,
                                cipher: spec_u32_from_le_bytes(d.subrange(8, 12)),
                                key_size: key_size as u16,
                                reserved: spec_u16_from_le_bytes(d.subrange(14, 16)),
                                public_key: d.subrange(16, 16 + key_size),
                                nonce: d.subrange(16 + key_size, 16 + key_size + 32),
                                cbt: d.subrange(16 + key_size + 32, 16 + key_size + 64),
                                mac: d.subrange(d.len() - 32, d.len() as int),
                            },
                        )
                    }
                }
            } else if h.msg_type == SRD_CONFIRM_MSG_ID {
                if d.len() < 72 || !h.spec_has_mac() {
                    None
                } else {
                    Some(
                        MsgModel::Confirm {
                            hdr: h,
                            cbt: d.subrange(8, 40),
                            mac: d.subrange(d.len() - 32, d.len() as int),
                        },
                    )
                }
            } else if h.msg_type == SRD_DELEGATE_MSG_ID {
                if d.len() < 44 || !h.spec_has_mac() {
                    None
                } else {
                    let size = spec_u32_from_le_bytes(d.subrange(8, 12)) as int;
                    if d.len() - 44 < size {
                        None
                    } else {
                        Some(
                            MsgModel::Delegate {
                                hdr: h,
                                size: size as u32,
                                encrypted_blob: d.subrange(12, 12 + size),
                                mac: d.subrange(d.len() - 32, d.len() as int),
                            },
                        )
                    }
                }
            } else {
                None
            }
        },
    }
}

/// The header of a parsed model.
pub open spec fn spec_model_hdr(m: MsgModel) -> SrdHeader {
    match m {
        MsgModel::Initiate { hdr, .. } => hdr,
        MsgModel::Offer { hdr, .. } => hdr,
        MsgModel::Accept { hdr, .. } => hdr,
        MsgModel::Confirm { hdr, .. } => hdr,
        MsgModel::Delegate { hdr, .. } => hdr,
    }
}

/// The MAC field of a parsed model, for the types that carry one.
pub open spec fn spec_model_mac(m: MsgModel) -> Option<Seq<u8>> {
    match m {
        MsgModel::Initiate { .. } => None,
        MsgModel::Offer { .. } => None,
        MsgModel::Accept { mac, .. } => Some(mac),
        MsgModel::Confirm { mac, .. } => Some(mac),
        MsgModel::Delegate { mac, .. } => Some(mac),
    }
}

/// The input is too short even for a header.
pub open spec fn spec_err_short_header(d: Seq<u8>) -> bool {
    d.len() < 8
}

/// The signature word is wrong.
pub open spec fn spec_err_bad_signature(d: Seq<u8>) -> bool {
    d.len() >= 8 && spec_u32_from_le_bytes(d.subrange(0, 4)) != SRD_SIGNATURE
}

/// The header names a message type outside the protocol.
pub open spec fn spec_err_unknown_type(d: Seq<u8>) -> bool {
    spec_parse_header(d) matches Some(h) && !(SRD_INITIATE_MSG_ID <= h.msg_type
        <= SRD_DELEGATE_MSG_ID)
}

/// The MAC flag contradicts the message type (checked once the type's
/// fixed prefix is present).
pub open spec fn spec_err_flags(d: Seq<u8>) -> bool {
    spec_parse_header(d) matches Some(h) && ((h.msg_type == SRD_INITIATE_MSG_ID && d.len() >= 16
        && h.spec_has_mac()) || (h.msg_type == SRD_OFFER_MSG_ID && d.len() >= 14
        && h.spec_has_mac()) || (h.msg_type == SRD_ACCEPT_MSG_ID && d.len() >= 16
        && !h.spec_has_mac()) || (h.msg_type == SRD_CONFIRM_MSG_ID && d.len() >= 72
        && !h.spec_has_mac()) || (h.msg_type == SRD_DELEGATE_MSG_ID && d.len() >= 44
        && !h.spec_has_mac()))
}

/// An Initiate carries an illegal key size.
pub open spec fn spec_err_key_size(d: Seq<u8>) -> bool {
    spec_parse_header(d) matches Some(h) && h.msg_type == SRD_INITIATE_MSG_ID && d.len() >= 16
        && !h.spec_has_mac() && !valid_key_size(spec_u16_from_le_bytes(d.subrange(12, 14)))
}

/// The body is shorter than its sized fields require.
pub open spec fn spec_err_short_body(d: Seq<u8>) -> bool {
    spec_parse_header(d) matches Some(h) && {
        let ks = spec_u16_from_le_bytes(d.subrange(12, 14)) as int;
        let sz = spec_u32_from_le_bytes(d.subrange(8, 12)) as int;
        ||| (h.msg_type == SRD_INITIATE_MSG_ID && d.len() < 16)
        ||| (h.msg_type == SRD_OFFER_MSG_ID && (d.len() < 14 || (!h.spec_has_mac() && d.len() < 16
            + ks + ks + 32)))
        ||| (h.msg_type == SRD_ACCEPT_MSG_ID && (d.len() < 16 || (h.spec_has_mac() && d.len() < 16
            + ks + 96)))
        ||| (h.msg_type == SRD_CONFIRM_MSG_ID && d.len() < 72)
        ||| (h.msg_type == SRD_DELEGATE_MSG_ID && (d.len() < 44 || (h.spec_has_mac() && sz
            > d.len() - 44)))
    }
}

/// The model keeps the message's header and MAC field.
pub proof fn lemma_model_of_fields(m: SrdMessage)
    ensures
        spec_model_hdr(model_of(m)) == m.spec_hdr(),
        spec_model_mac(model_of(m)) == m.spec_mac(),
{
}

/// A successful parse rules out every error cause.
pub proof fn lemma_parse_some_no_err(d: Seq<u8>)
    requires
        spec_parse_msg(d) is Some,
    ensures
        !spec_err_short_header(d),
        !spec_err_bad_signature(d),
        !spec_err_unknown_type(d),
        !spec_err_flags(d),
        !spec_err_key_size(d),
        !spec_err_short_body(d),
{
}

/// The codec every message type offers.
pub trait Message: Sized {
    fn read_from(data: &[u8]) -> Result<Self, SrdError>;

    fn write_to(&self, buf: &mut Vec<u8>) -> Result<(), SrdError>;
}

impl SrdMessage {
    pub fn msg_type(&self) -> (r: u8)
        ensures
            r == self.spec_hdr().msg_type,
    {
        match self {
            SrdMessage::Initiate(hdr, _) => hdr.msg_type(),
            SrdMessage::Offer(hdr, _) => hdr.msg_type(),
            SrdMessage::Accept(hdr, _) => hdr.msg_type(),
            SrdMessage::Confirm(hdr, _) => hdr.msg_type(),
            SrdMessage::Delegate(hdr, _) => hdr.msg_type(),
        }
    }

    /// The message's header.
    pub open spec fn spec_hdr(self) -> SrdHeader {
        match self {
            SrdMessage::Initiate(hdr, _) => hdr,
            SrdMessage::Offer(hdr, _) => hdr,
            SrdMessage::Accept(hdr, _) => hdr,
            SrdMessage::Confirm(hdr, _) => hdr,
            SrdMessage::Delegate(hdr, _) => hdr,
        }
    }

    pub fn signature(&self) -> (r: u32)
        ensures
            r == self.spec_hdr().signature,
    {
        match self {
            SrdMessage::Initiate(hdr, _) => hdr.signature(),
            SrdMessage::Offer(hdr, _) => hdr.signature(),
            SrdMessage::Accept(hdr, _) => hdr.signature(),
            SrdMessage::Confirm(hdr, _) => hdr.signature(),
            SrdMessage::Delegate(hdr, _) => hdr.signature(),
        }
    }

    pub fn seq_num(&self) -> (r: u8)
        ensures
            r == self.spec_hdr().seq_num,
    {
        match self {
            SrdMessage::Initiate(hdr, _) => hdr.seq_num(),
            SrdMessage::Offer(hdr, _) => hdr.seq_num(),
            SrdMessage::Accept(hdr, _) => hdr.seq_num(),
            SrdMessage::Confirm(hdr, _) => hdr.seq_num(),
            SrdMessage::Delegate(hdr, _) => hdr.seq_num(),
        }
    }

    pub fn has_cbt(&self) -> (r: bool)
        ensures
            r == self.spec_hdr().spec_has_cbt(),
    {
        match self {
            SrdMessage::Initiate(hdr, _) => hdr.has_cbt(),
            SrdMessage::Offer(hdr, _) => hdr.has_cbt(),
            SrdMessage::Accept(hdr, _) => hdr.has_cbt(),
            SrdMessage::Confirm(hdr, _) => hdr.has_cbt(),
            SrdMessage::Delegate(hdr, _) => hdr.has_cbt(),
        }
    }

    pub fn has_mac(&self) -> (r: bool)
        ensures
            r == self.spec_hdr().spec_has_mac(),
    {
        match self {
            SrdMessage::Initiate(hdr, _) => hdr.has_mac(),
            SrdMessage::Offer(hdr, _) => hdr.has_mac(),
            SrdMessage::Accept(hdr, _) => hdr.has_mac(),
            SrdMessage::Confirm(hdr, _) => hdr.has_mac(),
            SrdMessage::Delegate(hdr, _) => hdr.has_mac(),
        }
    }

    pub fn has_skip(&self) -> (r: bool)
        ensures
            r == self.spec_hdr().spec_has_skip(),
    {
        match self {
            SrdMessage::Initiate(hdr, _) => hdr.has_skip(),
            SrdMessage::Offer(hdr, _) => hdr.has_skip(),
            SrdMessage::Accept(hdr, _) => hdr.has_skip(),
            SrdMessage::Confirm(hdr, _) => hdr.has_skip(),
            SrdMessage::Delegate(hdr, _) => hdr.has_skip(),
        }
    }

    /// Mark the message as part of a delegation-skipping session.
    pub fn set_skip(&mut self)
        ensures
            final(self).spec_hdr().flags == old(self).spec_hdr().flags | SRD_FLAG_SKIP,
            final(self).spec_hdr().signature == old(self).spec_hdr().signature,
            final(self).spec_hdr().msg_type == old(self).spec_hdr().msg_type,
            final(self).spec_hdr().seq_num == old(self).spec_hdr().seq_num,
            spec_msg_body_unchanged(*old(self), *final(self)),
    {
        match self {
            SrdMessage::Initiate(hdr, _) => hdr.add_flags(SRD_FLAG_SKIP),
            SrdMessage::Offer(hdr, _) => hdr.add_flags(SRD_FLAG_SKIP),
            SrdMessage::Accept(hdr, _) => hdr.add_flags(SRD_FLAG_SKIP),
            SrdMessage::Confirm(hdr, _) => hdr.add_flags(SRD_FLAG_SKIP),
            SrdMessage::Delegate(hdr, _) => hdr.add_flags(SRD_FLAG_SKIP),
        }
    }

    /// Mark the message as coming from a channel-binding session.
    pub fn set_cbt_flag(&mut self)
        ensures
            final(self).spec_hdr().flags == old(self).spec_hdr().flags | SRD_FLAG_CBT,
            final(self).spec_hdr().signature == old(self).spec_hdr().signature,
            final(self).spec_hdr().msg_type == old(self).spec_hdr().msg_type,
            final(self).spec_hdr().seq_num == old(self).spec_hdr().seq_num,
            spec_msg_body_unchanged(*old(self), *final(self)),
    {
        match self {
            SrdMessage::Initiate(hdr, _) => hdr.add_flags(SRD_FLAG_CBT),
            SrdMessage::Offer(hdr, _) => hdr.add_flags(SRD_FLAG_CBT),
            SrdMessage::Accept(hdr, _) => hdr.add_flags(SRD_FLAG_CBT),
            SrdMessage::Confirm(hdr, _) => hdr.add_flags(SRD_FLAG_CBT),
            SrdMessage::Delegate(hdr, _) => hdr.add_flags(SRD_FLAG_CBT),
        }
    }

    /// The transcript MAC carried by the message, if its type has one.
    pub fn mac(&self) -> (r: Option<&[u8]>)
        ensures
            match r {
                Some(m) => self.spec_mac() == Some(m@),
                None => self.spec_mac() is None,
            },
    {
        match self {
            SrdMessage::Initiate(_, _) => None,
            SrdMessage::Offer(_, _) => None,
            SrdMessage::Accept(_, accept) => Some(accept.mac()),
            SrdMessage::Confirm(_, confirm) => Some(confirm.mac()),
            SrdMessage::Delegate(_, delegate) => Some(delegate.mac()),
        }
    }

    /// The MAC field's bytes, for the types that carry one.
    pub open spec fn spec_mac(self) -> Option<Seq<u8>> {
        match self {
            SrdMessage::Initiate(_, _) => None,
            SrdMessage::Offer(_, _) => None,
            SrdMessage::Accept(_, b) => Some(b.mac@),
            SrdMessage::Confirm(_, b) => Some(b.mac@),
            SrdMessage::Delegate(_, b) => Some(b.mac@),
        }
    }

    /// Install a MAC; fails on the types that carry none.
    pub fn set_mac(&mut self, mac: &[u8]) -> (r: Result<(), SrdError>)
        ensures
            match r {
                Ok(()) => old(self).spec_mac() is Some && final(self).spec_mac() == Some(mac@)
                    && spec_msg_eq_except_mac(*old(self), *final(self)),
                Err(e) => old(self).spec_mac() is None && *final(self) == *old(self) && e is Proto,
            },
    {
        match self {
            SrdMessage::Initiate(_, _) => Err(
                SrdError::Proto(String::from_str("No mac on an initiate message")),
            ),
            SrdMessage::Offer(_, _) => Err(
                SrdError::Proto(String::from_str("No mac on an offer message")),
            ),
            SrdMessage::Accept(_, accept) => {
                accept.set_mac(mac);
                Ok(())
            },
            SrdMessage::Confirm(_, confirm) => {
                confirm.set_mac(mac);
                Ok(())
            },
            SrdMessage::Delegate(_, delegate) => {
                delegate.set_mac(mac);
                Ok(())
            },
        }
    }
}

/// The same message with its header flags replaced.
pub open spec fn spec_msg_with_flags(m: SrdMessage, flags: u16) -> SrdMessage {
    match m {
        SrdMessage::Initiate(h, b) => SrdMessage::Initiate(SrdHeader { flags, ..h }, b),
        SrdMessage::Offer(h, b) => SrdMessage::Offer(SrdHeader { flags, ..h }, b),
        SrdMessage::Accept(h, b) => SrdMessage::Accept(SrdHeader { flags, ..h }, b),
        SrdMessage::Confirm(h, b) => SrdMessage::Confirm(SrdHeader { flags, ..h }, b),
        SrdMessage::Delegate(h, b) => SrdMessage::Delegate(SrdHeader { flags, ..h }, b),
    }
}

/// The two messages have the same variant and equal bodies.
pub open spec fn spec_msg_body_unchanged(a: SrdMessage, b: SrdMessage) -> bool {
    match (a, b) {
        (SrdMessage::Initiate(_, x), SrdMessage::Initiate(_, y)) => x == y,
        (SrdMessage::Offer(_, x), SrdMessage::Offer(_, y)) => x == y,
        (SrdMessage::Accept(_, x), SrdMessage::Accept(_, y)) => x == y,
        (SrdMessage::Confirm(_, x), SrdMessage::Confirm(_, y)) => x == y,
        (SrdMessage::Delegate(_, x), SrdMessage::Delegate(_, y)) => x == y,
        _ => false,
    }
}

/// The two messages agree everywhere except possibly the MAC field.
pub open spec fn spec_msg_eq_except_mac(a: SrdMessage, b: SrdMessage) -> bool {
    match (a, b) {
        (SrdMessage::Accept(h1, x), SrdMessage::Accept(h2, y)) => h1 == h2 && x.cipher == y.cipher
            && x.key_size == y.key_size && x.reserved == y.reserved && x.public_key == y.public_key
            && x.nonce == y.nonce && x.cbt == y.cbt,
        (SrdMessage::Confirm(h1, x), SrdMessage::Confirm(h2, y)) => h1 == h2 && x.cbt == y.cbt,
        (SrdMessage::Delegate(h1, x), SrdMessage::Delegate(h2, y)) => h1 == h2 && x.size == y.size
            && x.encrypted_blob == y.encrypted_blob,
        _ => false,
    }
}


/// The flag-rule part of well-formedness: the MAC flag is present exactly
/// on the message types that carry a MAC, and an Initiate carries a legal
/// key size.
pub open spec fn spec_flag_rules(m: SrdMessage) -> bool {
    match m {
        SrdMessage::Initiate(h, b) => !h.spec_has_mac() && valid_key_size(b.key_size),
        SrdMessage::Offer(h, _) => !h.spec_has_mac(),
        SrdMessage::Accept(h, _) => h.spec_has_mac(),
        SrdMessage::Confirm(h, _) => h.spec_has_mac(),
        SrdMessage::Delegate(h, _) => h.spec_has_mac(),
    }
}

impl SrdMessage {
    /// Enforce the flag rules, handing the message back untouched.
    pub fn validate(self) -> (r: Result<Self, SrdError>)
        ensures
            match r {
                Ok(m) => m == self && spec_flag_rules(self),
                Err(e) => {
                    &&& !spec_flag_rules(self)
                    &&& (e is Proto <==> self.spec_hdr().spec_has_mac() != (self is Accept || self
                        is Confirm || self is Delegate))
                    &&& (e is InvalidKeySize <==> (self.spec_hdr().spec_has_mac() == (self
                        is Accept || self is Confirm || self is Delegate) && (self matches
                        SrdMessage::Initiate(h, b) && !valid_key_size(b.key_size))))
                    &&& (e is Proto || e is InvalidKeySize)
                },
            },
    {
        match &self {
            SrdMessage::Initiate(hdr, initiate) => {
                if let Err(e) = hdr.validate_flags(false) {
                    return Err(e);
                }
                let ks = initiate.key_size;
                if !(ks == 256 || ks == 512 || ks == 1024) {
                    return Err(SrdError::InvalidKeySize);
                }
            },
            SrdMessage::Offer(hdr, _) => {
                if let Err(e) = hdr.validate_flags(false) {
                    return Err(e);
                }
            },
            SrdMessage::Accept(hdr, _) => {
                if let Err(e) = hdr.validate_flags(true) {
                    return Err(e);
                }
            },
            SrdMessage::Confirm(hdr, _) => {
                if let Err(e) = hdr.validate_flags(true) {
                    return Err(e);
                }
            },
            SrdMessage::Delegate(hdr, _) => {
                if let Err(e) = hdr.validate_flags(true) {
                    return Err(e);
                }
            },
        }
        Ok(self)
    }

    /// Serialize the message.
    pub fn write_to(&self, buf: &mut Vec<u8>) -> (r: Result<(), SrdError>)
        ensures
            r is Ok,
            final(buf)@ == old(buf)@ + spec_msg_bytes(*self),
    {
        match self {
            SrdMessage::Initiate(hdr, b) => {
                if let Err(e) = hdr.write_to(buf) {
                    return Err(e);
                }
                put_u32_le(buf, b.ciphers);
                put_u16_le(buf, b.key_size);
                put_u16_le(buf, b.reserved);
                proof {
                    assert(buf@ =~= old(buf)@ + spec_msg_bytes(*self));
                }
            },
            SrdMessage::Offer(hdr, b) => {
                if let Err(e) = hdr.write_to(buf) {
                    return Err(e);
                }
                put_u32_le(buf, b.ciphers);
                put_u16_le(buf, b.key_size);
                put_bytes(buf, b.generator.as_slice());
                put_bytes(buf, b.prime.as_slice());
                put_bytes(buf, b.public_key.as_slice());
                put_bytes(buf, b.nonce.as_slice());
                proof {
                    assert(buf@ =~= old(buf)@ + spec_msg_bytes(*self));
                }
            },
            SrdMessage::Accept(hdr, b) => {
                if let Err(e) = hdr.write_to(buf) {
                    return Err(e);
                }
                put_u32_le(buf, b.cipher);
                put_u16_le(buf, b.key_size);
                put_u16_le(buf, b.reserved);
                put_bytes(buf, b.public_key.as_slice());
                put_bytes(buf, b.nonce.as_slice());
                put_bytes(buf, b.cbt.as_slice());
                put_bytes(buf, b.mac.as_slice());
                proof {
                    assert(buf@ =~= old(buf)@ + spec_msg_bytes(*self));
                }
            },
            SrdMessage::Confirm(hdr, b) => {
                if let Err(e) = hdr.write_to(buf) {
                    return Err(e);
                }
                put_bytes(buf, b.cbt.as_slice());
                put_bytes(buf, b.mac.as_slice());
                proof {
                    assert(buf@ =~= old(buf)@ + spec_msg_bytes(*self));
                }
            },
            SrdMessage::Delegate(hdr, b) => {
                if let Err(e) = hdr.write_to(buf) {
                    return Err(e);
                }
                put_u32_le(buf, b.size);
                put_bytes(buf, b.encrypted_blob.as_slice());
                put_bytes(buf, b.mac.as_slice());
                proof {
                    assert(buf@ =~= old(buf)@ + spec_msg_bytes(*self));
                }
            },
        }
        Ok(())
    }

    /// Parse a message; succeeds exactly when `spec_parse_msg` does, with
    /// the flag rules already enforced.
    pub fn read_from(data: &[u8]) -> (r: Result<SrdMessage, SrdError>)
        ensures
            match r {
                Ok(m) => spec_parse_msg(data@) == Some(model_of(m)) && spec_msg_wf(m)
                    && spec_flag_rules(m),
                Err(e) => {
                    &&& spec_parse_msg(data@) is None
                    &&& (e is InvalidDataLength <==> (spec_err_short_header(data@)
                        || spec_err_short_body(data@)))
                    &&& (e is InvalidSignature <==> spec_err_bad_signature(data@))
                    &&& (e is UnknownMsgType <==> spec_err_unknown_type(data@))
                    &&& (e is Proto <==> spec_err_flags(data@))
                    &&& (e is InvalidKeySize <==> spec_err_key_size(data@))
                    &&& (e is InvalidDataLength || e is InvalidSignature || e is Proto || e
                        is InvalidKeySize || e is UnknownMsgType)
                },
            },
    {
        let n = data.len();
        let hdr = match SrdHeader::read_from(data) {
            Ok(h) => h,
            Err(e) => {
                return Err(e);
            },
        };
        let t = hdr.msg_type;
        if t == SRD_INITIATE_MSG_ID {
            if n < 16 {
                return Err(SrdError::InvalidDataLength);
            }
            if hdr.has_mac() {
                return Err(SrdError::Proto(String::from_str("SRD_FLAG_MAC must not be set")));
            }
            let ciphers = get_u32_le(data, 8);
            let key_size = get_u16_le(data, 12);
            let reserved = get_u16_le(data, 14);
            if !(key_size == 256 || key_size == 512 || key_size == 1024) {
                return Err(SrdError::InvalidKeySize);
            }
            Ok(SrdMessage::Initiate(hdr, SrdInitiate { ciphers, key_size, reserved }))
        } else if t == SRD_OFFER_MSG_ID {
            if n < 14 {
                return Err(SrdError::InvalidDataLength);
            }
            if hdr.has_mac() {
                return Err(SrdError::Proto(String::from_str("SRD_FLAG_MAC must not be set")));
            }
            let ciphers = get_u32_le(data, 8);
            let key_size = get_u16_le(data, 12);
            let ks = key_size as usize;
            if n < 16 + ks + ks + 32 {
                return Err(SrdError::InvalidDataLength);
            }
            let generator = get_bytes(data, 14, 2);
            let prime = get_bytes(data, 16, ks);
            let public_key = get_bytes(data, 16 + ks, ks);
            let nonce = get_bytes(data, 16 + ks + ks, 32);
            Ok(
                SrdMessage::Offer(
                    hdr,
                    SrdOffer { ciphers, key_size, generator, prime, public_key, nonce },
                ),
            )
        } else if t == SRD_ACCEPT_MSG_ID {
            if n < 16 {
                return Err(SrdError::InvalidDataLength);
            }
            if !hdr.has_mac() {
                return Err(SrdError::Proto(String::from_str("SRD_FLAG_MAC must be set")));
            }
            let cipher = get_u32_le(data, 8);
            let key_size = get_u16_le(data, 12);
            let reserved = get_u16_le(data, 14);
            let ks = key_size as usize;
            if n < 16 + ks + 96 {
                return Err(SrdError::InvalidDataLength);
            }
            let public_key = get_bytes(data, 16, ks);
            let nonce = get_bytes(data, 16 + ks, 32);
            let cbt = get_bytes(data, 16 + ks + 32, 32);
            let mac = get_bytes(data, n - 32, 32);
            Ok(
                SrdMessage::Accept(
                    hdr,
                    SrdAccept { cipher, key_size, reserved, public_key, nonce, cbt, mac },
                ),
            )
        } else if t == SRD_CONFIRM_MSG_ID {
            if n < 72 {
                return Err(SrdError::InvalidDataLength);
            }
            if !hdr.has_mac() {
                return Err(SrdError::Proto(String::from_str("SRD_FLAG_MAC must be set")));
            }
            let cbt = get_bytes(data, 8, 32);
            let mac = get_bytes(data, n - 32, 32);
            Ok(SrdMessage::Confirm(hdr, SrdConfirm { cbt, mac }))
        } else if t == SRD_DELEGATE_MSG_ID {
            if n < 44 {
                return Err(SrdError::InvalidDataLength);
            }
            if !hdr.has_mac() {
                return Err(SrdError::Proto(String::from_str("SRD_FLAG_MAC must be set")));
            }
            let size = get_u32_le(data, 8);
            if size as usize > n - 44 {
                return Err(SrdError::InvalidDataLength);
            }
            let encrypted_blob = get_bytes(data, 12, size as usize);
            let mac = get_bytes(data, n - 32, 32);
            Ok(SrdMessage::Delegate(hdr, SrdDelegate { size, encrypted_blob, mac }))
        } else {
            Err(SrdError::UnknownMsgType)
        }
    }
}

impl Message for SrdMessage {
    fn read_from(data: &[u8]) -> Result<Self, SrdError> {
        SrdMessage::read_from(data)
    }

    fn write_to(&self, buf: &mut Vec<u8>) -> Result<(), SrdError> {
        SrdMessage::write_to(self, buf)
    }
}

/// The concrete values the small flag words take here, spelled out for
/// the bit-level reasoner.
proof fn lemma_flag_facts()
    ensures
        0u16 & SRD_FLAG_MAC == 0,
        0u16 & SRD_FLAG_CBT == 0,
        0u16 & SRD_FLAG_SKIP == 0,
        1u16 & SRD_FLAG_MAC != 0,
        1u16 & SRD_FLAG_CBT == 0,
        1u16 & SRD_FLAG_SKIP == 0,
        2u16 & SRD_FLAG_MAC == 0,
        2u16 & SRD_FLAG_CBT != 0,
        2u16 & SRD_FLAG_SKIP == 0,
        3u16 & SRD_FLAG_MAC != 0,
        3u16 & SRD_FLAG_CBT != 0,
        3u16 & SRD_FLAG_SKIP == 0,
        1u16 | SRD_FLAG_SKIP == 5,
        3u16 | SRD_FLAG_SKIP == 7,
        (0u16 | 0u16) == 0,
        (0u16 | SRD_FLAG_MAC) == 1,
        (SRD_FLAG_CBT | 0u16) == 2,
        (SRD_FLAG_CBT | SRD_FLAG_MAC) == 3,
        5u16 & SRD_FLAG_MAC != 0,
        5u16 & SRD_FLAG_CBT == 0,
        5u16 & SRD_FLAG_SKIP != 0,
        7u16 & SRD_FLAG_MAC != 0,
        7u16 & SRD_FLAG_CBT != 0,
        7u16 & SRD_FLAG_SKIP != 0,
{
    assert(0u16 & 1u16 == 0 && 0u16 & 2u16 == 0 && 0u16 & 4u16 == 0) by (bit_vector);
    assert(1u16 & 1u16 != 0 && 1u16 & 2u16 == 0 && 1u16 & 4u16 == 0) by (bit_vector);
    assert(2u16 & 1u16 == 0 && 2u16 & 2u16 != 0 && 2u16 & 4u16 == 0) by (bit_vector);
    assert(3u16 & 1u16 != 0 && 3u16 & 2u16 != 0 && 3u16 & 4u16 == 0) by (bit_vector);
    assert(1u16 | 4u16 == 5 && 3u16 | 4u16 == 7) by (bit_vector);
    assert((0u16 | 0u16) == 0 && (0u16 | 1u16) == 1 && (2u16 | 0u16) == 2 && (2u16 | 1u16) == 3)
        by (bit_vector);
    assert(5u16 & 1u16 != 0 && 5u16 & 2u16 == 0 && 5u16 & 4u16 != 0) by (bit_vector);
    assert(7u16 & 1u16 != 0 && 7u16 & 2u16 != 0 && 7u16 & 4u16 != 0) by (bit_vector);
}

/// Build an Initiate message; rejects an illegal key size.
pub fn new_srd_initiate_msg(seq_num: u8, ciphers: u32, key_size: u16) -> (r: Result<
    SrdMessage,
    SrdError,
>)
    ensures
        match r {
            Ok(m) => valid_key_size(key_size) && m == SrdMessage::Initiate(
                SrdHeader {
                    signature: SRD_SIGNATURE,
                    msg_type: SRD_INITIATE_MSG_ID,
                    seq_num,
                    flags: 0u16,
                },
                SrdInitiate { ciphers, key_size, reserved: 0u16 },
            ) && spec_msg_wf(m) && spec_flag_rules(m),
            Err(e) => !valid_key_size(key_size) && e is InvalidKeySize,
        },
{
    let hdr = SrdHeader::new(SRD_INITIATE_MSG_ID, seq_num, false, false);
    let initiate = match SrdInitiate::new(ciphers, key_size) {
        Ok(b) => b,
        Err(e) => {
            return Err(e);
        },
    };
    proof {
        lemma_flag_facts();
        assert((0u16 | 0u16) == 0u16) by (bit_vector);
    }
    Ok(SrdMessage::Initiate(hdr, initiate))
}

/// Build an Offer message, zero-extending the group elements to their
/// wire widths.
pub fn new_srd_offer_msg(
    seq_num: u8,
    ciphers: u32,
    key_size: u16,
    generator: Vec<u8>,
    prime: Vec<u8>,
    public_key: Vec<u8>,
    nonce: [u8; 32],
) -> (r: SrdMessage)
    ensures
        r matches SrdMessage::Offer(h, b) && h == (SrdHeader {
            signature: SRD_SIGNATURE,
            msg_type: SRD_OFFER_MSG_ID,
            seq_num,
            flags: 0u16,
        }) && b.ciphers == ciphers && b.key_size == key_size && b.generator@
            == crate::codec::spec_left_pad(generator@, 2) && b.prime@
            == crate::codec::spec_left_pad(prime@, key_size as int) && b.public_key@
            == crate::codec::spec_left_pad(public_key@, key_size as int) && b.nonce@ == nonce@,
{
    let mut generator = generator;
    let mut prime = prime;
    let mut public_key = public_key;
    expand_start(&mut generator, 2);
    expand_start(&mut prime, key_size as usize);
    expand_start(&mut public_key, key_size as usize);
    let hdr = SrdHeader::new(SRD_OFFER_MSG_ID, seq_num, false, false);
    proof {
        assert((0u16 | 0u16) == 0u16) by (bit_vector);
    }
    SrdMessage::Offer(
        hdr,
        SrdOffer {
            ciphers,
            key_size,
            generator,
            prime,
            public_key,
            nonce: vstd::slice::slice_to_vec(nonce.as_slice()),
        },
    )
}

/// Build an Accept message carrying the client's single chosen cipher;
/// its MAC field starts as 32 zero bytes.
pub fn new_srd_accept_msg(
    seq_num: u8,
    use_cbt: bool,
    cipher: u32,
    key_size: u16,
    public_key: Vec<u8>,
    nonce: [u8; 32],
    cbt: [u8; 32],
) -> (r: SrdMessage)
    ensures
        r matches SrdMessage::Accept(h, b) && h.signature == SRD_SIGNATURE && h.msg_type
            == SRD_ACCEPT_MSG_ID && h.seq_num == seq_num && h.spec_has_mac() && h.spec_has_cbt()
            == use_cbt && !h.spec_has_skip() && b.cipher == cipher && b.key_size == key_size
            && b.public_key@ == crate::codec::spec_left_pad(public_key@, key_size as int)
            && b.nonce@ == nonce@ && b.cbt@ == cbt@ && b.mac@ == Seq::<u8>::new(32, |i: int| 0u8)
            && b.reserved == 0u16,
{
    let mut public_key = public_key;
    expand_start(&mut public_key, key_size as usize);
    let hdr = SrdHeader::new(SRD_ACCEPT_MSG_ID, seq_num, use_cbt, true);
    proof {
        lemma_flag_facts();
    }
    SrdMessage::Accept(
        hdr,
        SrdAccept {
            cipher,
            key_size,
            reserved: 0,
            public_key,
            nonce: vstd::slice::slice_to_vec(nonce.as_slice()),
            cbt: vstd::slice::slice_to_vec(cbt.as_slice()),
            mac: crate::codec::zero_bytes(32),
        },
    )
}

/// Build a Confirm message; its MAC field starts as 32 zero bytes, and
/// the SKIP flag marks a delegation-skipping session.
pub fn new_srd_confirm_msg(seq_num: u8, use_cbt: bool, skip_delegation: bool, cbt: [u8; 32]) -> (r:
    SrdMessage)
    ensures
        r matches SrdMessage::Confirm(h, b) && h.signature == SRD_SIGNATURE && h.msg_type
            == SRD_CONFIRM_MSG_ID && h.seq_num == seq_num && h.spec_has_mac() && h.spec_has_cbt()
            == use_cbt && h.spec_has_skip() == skip_delegation && b.cbt@ == cbt@ && b.mac@
            == Seq::<u8>::new(32, |i: int| 0u8),
{
    let mut hdr = SrdHeader::new(SRD_CONFIRM_MSG_ID, seq_num, use_cbt, true);
    if skip_delegation {
        hdr.add_flags(SRD_FLAG_SKIP);
    }
    proof {
        lemma_flag_facts();
    }
    SrdMessage::Confirm(
        hdr,
        SrdConfirm {
            cbt: vstd::slice::slice_to_vec(cbt.as_slice()),
            mac: crate::codec::zero_bytes(32),
        },
    )
}

/// Build a Delegate message: serialize the blob, encrypt it under the
/// delegation key and IV, and frame it with a zeroed MAC field.
pub fn new_srd_delegate_msg(
    seq_num: u8,
    srd_blob: &SrdBlob,
    cipher: Cipher,
    delegation_key: &[u8],
    iv: &[u8],
) -> (r: Result<SrdMessage, SrdError>)
    requires
        delegation_key@.len() == 32,
        iv@.len() == 32,
    ensures
        match r {
            Ok(m) => m matches SrdMessage::Delegate(h, b) && h.signature == SRD_SIGNATURE
                && h.msg_type == SRD_DELEGATE_MSG_ID && h.seq_num == seq_num && h.spec_has_mac()
                && !h.spec_has_cbt() && !h.spec_has_skip() && srd_blob.wf() && (exists|
                p1: Seq<u8>,
                p2: Seq<u8>,
            |
                p1.len() == spec_type_padding(*srd_blob) && p2.len() == spec_data_padding(
                    *srd_blob,
                ) && b.encrypted_blob@ == spec_encrypt(
                    cipher,
                    delegation_key@,
                    iv@,
                    spec_blob_bytes(*srd_blob, p1, p2),
                ) && spec_decrypt(cipher, delegation_key@, iv@, b.encrypted_blob@)
                    == spec_blob_bytes(*srd_blob, p1, p2)) && b.size == b.encrypted_blob@.len()
                && b.encrypted_blob@.len() < 0x1000_0000 && b.mac@ == Seq::<u8>::new(
                32,
                |i: int| 0u8,
            ) && spec_msg_wf(m),
            Err(e) => e is InvalidDataLength && !srd_blob.wf() || e is Rng,
        },
{
    let mut v_blob: Vec<u8> = Vec::new();
    if let Err(e) = srd_blob.write_to(&mut v_blob) {
        return Err(e);
    }
    proof {
        let (p1, p2) = choose|p1: Seq<u8>, p2: Seq<u8>|
            p1.len() == spec_type_padding(*srd_blob) && p2.len() == spec_data_padding(*srd_blob)
                && v_blob@ == spec_blob_bytes(*srd_blob, p1, p2);
        lemma_blob_bytes_len(*srd_blob, p1, p2);
    }
    let encrypted_blob = match cipher.encrypt_data(v_blob.as_slice(), delegation_key, iv) {
        Ok(v) => v,
        Err(e) => {
            proof {
                // The serialized blob is 16-byte aligned, so AES cannot
                // reject its length.
                let (p1, p2) = choose|p1: Seq<u8>, p2: Seq<u8>|
                    p1.len() == spec_type_padding(*srd_blob) && p2.len() == spec_data_padding(
                        *srd_blob,
                    ) && v_blob@ == spec_blob_bytes(*srd_blob, p1, p2);
                lemma_blob_bytes_len(*srd_blob, p1, p2);
                assert(false);
            }
            return Err(SrdError::Rng);
        },
    };
    let hdr = SrdHeader::new(SRD_DELEGATE_MSG_ID, seq_num, false, true);
    proof {
        lemma_flag_facts();
    }
    let size = encrypted_blob.len() as u32;
    Ok(
        SrdMessage::Delegate(
            hdr,
            SrdDelegate { size, encrypted_blob, mac: crate::codec::zero_bytes(32) },
        ),
    )
}

/// A serialized outer blob is 16-byte aligned and far below the cipher
/// input cap.
pub proof fn lemma_blob_bytes_len(b: SrdBlob, p1: Seq<u8>, p2: Seq<u8>)
    requires
        b.wf(),
        p1.len() == spec_type_padding(b),
        p2.len() == spec_data_padding(b),
    ensures
        spec_blob_bytes(b, p1, p2).len() % 16 == 0,
        spec_blob_bytes(b, p1, p2).len() < 0x1000_0000,
{
    vstd::bytes::lemma_auto_spec_u16_to_from_le_bytes();
    let ts = crate::blobs::spec_type_size(b);
    let tp = spec_type_padding(b);
    let ds = b.data@.len() as int;
    let dp = spec_data_padding(b);
    assert(spec_blob_bytes(b, p1, p2).len() == 8 + ts + tp + ds + dp);
    assert(0 <= (ts + 8) % 16 < 16) by {
        vstd::arithmetic::div_mod::lemma_mod_bound(ts + 8, 16);
    }
    assert(0 <= ds % 16 < 16) by {
        vstd::arithmetic::div_mod::lemma_mod_bound(ds, 16);
    }
    assert((8 + ts + tp + ds + dp) % 16 == 0) by {
        vstd::arithmetic::div_mod::lemma_fundamental_div_mod(ts + 8, 16);
        vstd::arithmetic::div_mod::lemma_fundamental_div_mod(ds, 16);
        let q1 = (ts + 8) / 16;
        let q2 = ds / 16;
        assert(8 + ts + tp + ds + dp == 16 * (q1 + q2 + 2)) by {
            assert(ts + 8 == 16 * q1 + (ts + 8) % 16);
            assert(ds == 16 * q2 + ds % 16);
        }
        vstd::arithmetic::div_mod::lemma_mod_multiples_basic(q1 + q2 + 2, 16);
    }
}

/// Serialize-then-parse is the identity on every well-formed message.
pub proof fn lemma_msg_round_trip(m: SrdMessage)
    requires
        spec_msg_wf(m),
    ensures
        spec_parse_msg(spec_msg_bytes(m)) == Some(model_of(m)),
{
    lemma_auto_spec_u16_to_from_le_bytes();
    lemma_auto_spec_u32_to_from_le_bytes();
    let d = spec_msg_bytes(m);
    let h = m.spec_hdr();
    assert(d.subrange(0, 4) =~= spec_u32_to_le_bytes(h.signature));
    assert(d[4] == h.msg_type);
    assert(d[5] == h.seq_num);
    assert(d.subrange(6, 8) =~= spec_u16_to_le_bytes(h.flags));
    assert(spec_parse_header(d) == Some(h));
    match m {
        SrdMessage::Initiate(h, b) => {
            assert(d.len() == 16);
            assert(d.subrange(8, 12) =~= spec_u32_to_le_bytes(b.ciphers));
            assert(d.subrange(12, 14) =~= spec_u16_to_le_bytes(b.key_size));
            assert(d.subrange(14, 16) =~= spec_u16_to_le_bytes(b.reserved));
        },
        SrdMessage::Offer(h, b) => {
            let ks = b.key_size as int;
            assert(d.len() == 16 + 2 * ks + 32);
            assert(d.subrange(8, 12) =~= spec_u32_to_le_bytes(b.ciphers));
            assert(d.subrange(12, 14) =~= spec_u16_to_le_bytes(b.key_size));
            assert(d.subrange(14, 16) =~= b.generator@);
            assert(d.subrange(16, 16 + ks) =~= b.prime@);
            assert(d.subrange(16 + ks, 16 + 2 * ks) =~= b.public_key@);
            assert(d.subrange(16 + 2 * ks, 16 + 2 * ks + 32) =~= b.nonce@);
        },
        SrdMessage::Accept(h, b) => {
            let ks = b.key_size as int;
            assert(d.len() == 16 + ks + 96);
            assert(d.subrange(8, 12) =~= spec_u32_to_le_bytes(b.cipher));
            assert(d.subrange(12, 14) =~= spec_u16_to_le_bytes(b.key_size));
            assert(d.subrange(14, 16) =~= spec_u16_to_le_bytes(b.reserved));
            assert(d.subrange(16, 16 + ks) =~= b.public_key@);
            assert(d.subrange(16 + ks, 16 + ks + 32) =~= b.nonce@);
            assert(d.subrange(16 + ks + 32, 16 + ks + 64) =~= b.cbt@);
            assert(d.subrange(d.len() - 32, d.len() as int) =~= b.mac@);
        },
        SrdMessage::Confirm(h, b) => {
            assert(d.len() == 72);
            assert(d.subrange(8, 40) =~= b.cbt@);
            assert(d.subrange(d.len() - 32, d.len() as int) =~= b.mac@);
        },
        SrdMessage::Delegate(h, b) => {
            let size = b.size as int;
            assert(d.len() == 12 + size + 32);
            assert(d.subrange(8, 12) =~= spec_u32_to_le_bytes(b.size));
            assert(d.subrange(12, 12 + size) =~= b.encrypted_blob@);
            assert(d.subrange(d.len() - 32, d.len() as int) =~= b.mac@);
        },
    }
}

} // verus!
