//! The third wire format of the protocol, a short-lived revision between
//! the embedded-header messages and the split-header family: only its
//! Initiate and Confirm differ, by how their constructors fix the
//! sequence number and flags.

use crate::codec::{get_u16_le, get_u32_le, get_u8, put_bytes, put_u16_le, put_u32_le, put_u8, to_array_32, zero_bytes};
use crate::errors::SrdError;
use crate::message_types::{mac_over, spec_concat};
use crate::messages::{
    SRD_CONFIRM_MSG_ID, SRD_FLAG_CBT, SRD_FLAG_MAC, SRD_INITIATE_MSG_ID, SRD_SIGNATURE,
};
use vstd::bytes::*;
use vstd::prelude::*;
use vstd::slice::slice_subrange;

verus! {

/// The codec every message of this revision offers.
pub trait SrdMessage: Sized {
    fn read_from(buffer: &[u8]) -> Result<Self, SrdError>;

    fn write_to(&self, buffer: &mut Vec<u8>) -> Result<(), SrdError>;
}

/// Initiate, with the sequence number chosen by the caller.
#[derive(Debug, PartialEq, Eq, Structural, Clone, Copy)]
pub struct SrdInitiate {
    pub signature: u32,
    pub packet_type: u8,
    pub seq_num: u8,
    pub flags: u16,
    pub key_size: u16,
    pub reserved: u16,
}

/// The Initiate wire bytes of this revision.
pub open spec fn spec_initiate_bytes(m: SrdInitiate) -> Seq<u8> {
    spec_u32_to_le_bytes(m.signature) + seq![m.packet_type, m.seq_num] + spec_u16_to_le_bytes(
        m.flags,
    ) + spec_u16_to_le_bytes(m.key_size) + spec_u16_to_le_bytes(m.reserved)
}

impl SrdInitiate {
    pub fn new(seq_num: u8, key_size: u16) -> (r: SrdInitiate)
        ensures
            r == (SrdInitiate {
                signature: SRD_SIGNATURE,
                packet_type: SRD_INITIATE_MSG_ID,
                seq_num,
                flags: 0u16,
                key_size,
                reserved: 0u16,
            }),
    {
        SrdInitiate {
            signature: SRD_SIGNATURE,
            packet_type: SRD_INITIATE_MSG_ID,
            seq_num,
            flags: 0,
            key_size,
            reserved: 0,
        }
    }

    pub fn key_size(&self) -> (r: u16)
        ensures
            r == self.key_size,
    {
        self.key_size
    }

    /// Parse an Initiate of this revision.
    pub fn parse(buffer: &[u8]) -> (r: Result<SrdInitiate, SrdError>)
        ensures
            match r {
                Ok(m) => buffer@.len() >= 12 && spec_initiate_bytes(m) == buffer@.subrange(0, 12),
                Err(e) => buffer@.len() < 12 && e is InvalidDataLength,
            },
    {
        let n = buffer.len();
        if n < 12 {
            return Err(SrdError::InvalidDataLength);
        }
        let m = SrdInitiate {
            signature: get_u32_le(buffer, 0),
            packet_type: get_u8(buffer, 4),
            seq_num: get_u8(buffer, 5),
            flags: get_u16_le(buffer, 6),
            key_size: get_u16_le(buffer, 8),
            reserved: get_u16_le(buffer, 10),
        };
        proof {
            lemma_auto_spec_u16_to_from_le_bytes();
            lemma_auto_spec_u32_to_from_le_bytes();
            assert(spec_initiate_bytes(m) =~= buffer@.subrange(0, 12));
        }
        Ok(m)
    }

    /// Serialize an Initiate of this revision.
    pub fn encode(&self, buffer: &mut Vec<u8>) -> (r: Result<(), SrdError>)
        ensures
            r is Ok,
            final(buffer)@ == old(buffer)@ + spec_initiate_bytes(*self),
    {
        put_u32_le(buffer, self.signature);
        put_u8(buffer, self.packet_type);
        put_u8(buffer, self.seq_num);
        put_u16_le(buffer, self.flags);
        put_u16_le(buffer, self.key_size);
        put_u16_le(buffer, self.reserved);
        proof {
            assert(final(buffer)@ =~= old(buffer)@ + spec_initiate_bytes(*self));
        }
        Ok(())
    }
}

impl SrdMessage for SrdInitiate {
    fn read_from(buffer: &[u8]) -> Result<Self, SrdError> {
        SrdInitiate::parse(buffer)
    }

    fn write_to(&self, buffer: &mut Vec<u8>) -> Result<(), SrdError> {
        self.encode(buffer)
    }
}

/// Confirm, with the sequence number chosen by the caller and the MAC
/// closed over the previous messages.
#[derive(Debug, PartialEq, Eq, Clone, Copy)]
pub struct SrdConfirm {
    pub signature: u32,
    pub packet_type: u8,
    pub seq_num: u8,
    pub flags: u16,
    pub cbt: [u8; 32],
    pub mac: [u8; 32],
}

/// The Confirm bytes under the MAC.
pub open spec fn spec_confirm_inner_bytes(m: SrdConfirm) -> Seq<u8> {
    spec_u32_to_le_bytes(m.signature) + seq![m.packet_type, m.seq_num] + spec_u16_to_le_bytes(
        m.flags,
    ) + m.cbt@
}

/// The Confirm wire bytes of this revision.
pub open spec fn spec_confirm_bytes(m: SrdConfirm) -> Seq<u8> {
    spec_confirm_inner_bytes(m) + m.mac@
}

impl SrdConfirm {
    /// Build a Confirm: the CBT flag is set exactly when a token is
    /// given, closed with an HMAC over the previous messages and the
    /// inner bytes.
    pub fn new(
        seq_num: u8,
        cbt_opt: Option<[u8; 32]>,
        previous_messages: &Vec<Vec<u8>>,
        integrity_key: &[u8],
    ) -> (r: Result<SrdConfirm, SrdError>)
        ensures
            match r {
                Ok(m) => {
                    &&& m.signature == SRD_SIGNATURE
                    &&& m.packet_type == SRD_CONFIRM_MSG_ID
                    &&& m.seq_num == seq_num
                    &&& m.flags == (if cbt_opt is Some {
                        SRD_FLAG_MAC | SRD_FLAG_CBT
                    } else {
                        SRD_FLAG_MAC
                    })
                    &&& (cbt_opt matches Some(c) ==> m.cbt@ == c@)
                    &&& (cbt_opt is None ==> m.cbt@ == Seq::<u8>::new(32, |i: int| 0u8))
                    &&& m.mac@ == crate::crypto::hmac_sha256_of(
                        integrity_key@,
                        spec_concat(previous_messages.deep_view()) + spec_confirm_inner_bytes(m),
                    )
                },
                Err(e) => false,
            },
    {
        let (flags, cbt): (u16, [u8; 32]) = match cbt_opt {
            None => (SRD_FLAG_MAC, to_array_32(zero_bytes(32).as_slice())),
            Some(c) => (SRD_FLAG_MAC | SRD_FLAG_CBT, c),
        };
        proof {
            assert((1u16 | 2u16) == 3u16) by (bit_vector);
        }
        let mut response = SrdConfirm {
            signature: SRD_SIGNATURE,
            packet_type: SRD_CONFIRM_MSG_ID,
            seq_num,
            flags,
            cbt,
            mac: to_array_32(zero_bytes(32).as_slice()),
        };
        let mut inner: Vec<u8> = Vec::new();
        if let Err(e) = response.write_inner(&mut inner) {
            return Err(e);
        }
        let mac = mac_over(previous_messages, inner.as_slice(), integrity_key);
        response.mac = to_array_32(mac.as_slice());
        proof {
            assert(spec_confirm_inner_bytes(response) =~= inner@);
        }
        Ok(response)
    }

    pub fn has_cbt(&self) -> (r: bool)
        ensures
            r == (self.flags & SRD_FLAG_CBT == SRD_FLAG_CBT),
    {
        self.flags & SRD_FLAG_CBT == SRD_FLAG_CBT
    }

    /// The bytes covered by the MAC.
    pub fn write_inner(&self, buffer: &mut Vec<u8>) -> (r: Result<(), SrdError>)
        ensures
            r is Ok,
            final(buffer)@ == old(buffer)@ + spec_confirm_inner_bytes(*self),
    {
        put_u32_le(buffer, self.signature);
        put_u8(buffer, self.packet_type);
        put_u8(buffer, self.seq_num);
        put_u16_le(buffer, self.flags);
        put_bytes(buffer, self.cbt.as_slice());
        proof {
            assert(final(buffer)@ =~= old(buffer)@ + spec_confirm_inner_bytes(*self));
        }
        Ok(())
    }

    /// Recompute the MAC and compare.
    pub fn verify_mac(&self, previous_messages: &Vec<Vec<u8>>, integrity_key: &[u8]) -> (r: Result<
        (),
        SrdError,
    >)
        ensures
            r is Ok <==> self.mac@ == crate::crypto::hmac_sha256_of(
                integrity_key@,
                spec_concat(previous_messages.deep_view()) + spec_confirm_inner_bytes(*self),
            ),
            r is Err ==> r->Err_0 is InvalidMac,
    {
        let mut inner: Vec<u8> = Vec::new();
        if let Err(e) = self.write_inner(&mut inner) {
            proof {
                assert(false);
            }
            return Err(e);
        }
        let expected = mac_over(previous_messages, inner.as_slice(), integrity_key);
        if crate::codec::bytes_eq(expected.as_slice(), self.mac.as_slice()) {
            Ok(())
        } else {
            Err(SrdError::InvalidMac)
        }
    }

    /// Parse a Confirm of this revision.
    pub fn parse(buffer: &[u8]) -> (r: Result<SrdConfirm, SrdError>)
        ensures
            match r {
                Ok(m) => buffer@.len() >= 72 && spec_confirm_bytes(m) == buffer@.subrange(0, 72),
                Err(e) => buffer@.len() < 72 && e is InvalidDataLength,
            },
    {
        let n = buffer.len();
        if n < 72 {
            return Err(SrdError::InvalidDataLength);
        }
        let m = SrdConfirm {
            signature: get_u32_le(buffer, 0),
            packet_type: get_u8(buffer, 4),
            seq_num: get_u8(buffer, 5),
            flags: get_u16_le(buffer, 6),
            cbt: to_array_32(slice_subrange(buffer, 8, 40)),
            mac: to_array_32(slice_subrange(buffer, 40, 72)),
        };
        proof {
            lemma_auto_spec_u16_to_from_le_bytes();
            lemma_auto_spec_u32_to_from_le_bytes();
            assert(spec_confirm_bytes(m) =~= buffer@.subrange(0, 72));
        }
        Ok(m)
    }

    /// Serialize a Confirm of this revision.
    pub fn encode(&self, buffer: &mut Vec<u8>) -> (r: Result<(), SrdError>)
        ensures
            r is Ok,
            final(buffer)@ == old(buffer)@ + spec_confirm_bytes(*self),
    {
        if let Err(e) = self.write_inner(buffer) {
            proof {
                assert(false);
            }
            return Err(e);
        }
        put_bytes(buffer, self.mac.as_slice());
        Ok(())
    }
}

impl SrdMessage for SrdConfirm {
    fn read_from(buffer: &[u8]) -> Result<Self, SrdError> {
        SrdConfirm::parse(buffer)
    }

    fn write_to(&self, buffer: &mut Vec<u8>) -> Result<(), SrdError> {
        self.encode(buffer)
    }
}

} // verus!
