//! The credential payloads.  `SrdBlob` is the self-describing outer
//! container that crosses the wire encrypted inside a Delegate message;
//! `BasicBlob`, `LogonBlob` and `TextBlob` are the well-known inner
//! formats parsed from its data.

use crate::codec::{get_bytes, get_u16_le, put_bytes, put_u16_le, put_u8, string_from_utf8};
use crate::crypto::random_bytes;
use crate::errors::SrdError;
use vstd::bytes::*;
use vstd::prelude::*;
use vstd::utf8::{decode_utf8, encode_utf8, valid_utf8};

verus! {

/// A typed, length-prefixed credential payload: a type tag and opaque
/// data bytes.
#[derive(Debug, PartialEq, Eq, Clone)]
pub struct SrdBlob {
    pub blob_type: String,
    pub data: Vec<u8>,
}

/// The UTF-8 bytes of the type tag.
pub open spec fn spec_type_bytes(b: SrdBlob) -> Seq<u8> {
    encode_utf8(b.blob_type@)
}

/// The wire `type_size` field: tag bytes plus the NUL terminator.
pub open spec fn spec_type_size(b: SrdBlob) -> int {
    spec_type_bytes(b).len() as int + 1
}

/// Padding after the tag, aligning header plus tag to 16 bytes.
pub open spec fn spec_type_padding(b: SrdBlob) -> int {
    16 - ((spec_type_size(b) + 8) % 16)
}

/// Padding after the data, aligning it to 16 bytes.
pub open spec fn spec_data_padding(b: SrdBlob) -> int {
    16 - (b.data@.len() as int % 16)
}

impl SrdBlob {
    /// Both length fields fit their 16-bit wire encoding.
    pub open spec fn wf(self) -> bool {
        spec_type_size(self) <= 0xffff && self.data@.len() <= 0xffff
    }

    pub fn new(blob_type: &str, data: &[u8]) -> (r: SrdBlob)
        ensures
            r.blob_type@ == blob_type@,
            r.data@ == data@,
    {
        SrdBlob { blob_type: blob_type.to_owned(), data: vstd::slice::slice_to_vec(data) }
    }

    /// A fresh copy of the type tag.
    pub fn blob_type_copy(&self) -> (r: String)
        ensures
            r@ == self.blob_type@,
    {
        self.blob_type.clone()
    }

    /// A fresh copy of the data bytes.
    pub fn data_copy(&self) -> (r: Vec<u8>)
        ensures
            r@ == self.data@,
    {
        self.data.clone()
    }

    /// The type tag.
    pub fn blob_type(&self) -> (r: &str)
        ensures
            r@ == self.blob_type@,
    {
        self.blob_type.as_str()
    }

    /// The data bytes.
    pub fn data(&self) -> (r: &[u8])
        ensures
            r@ == self.data@,
    {
        self.data.as_slice()
    }

    /// Whether both wire length fields fit.
    pub fn is_wf(&self) -> (r: bool)
        ensures
            r == self.wf(),
    {
        let tb = self.blob_type.as_str().as_bytes();
        tb.len() <= 0xfffe && self.data.len() <= 0xffff
    }
}

/// The serialized outer blob, given the random padding bytes chosen for
/// the two padding runs.
pub open spec fn spec_blob_bytes(b: SrdBlob, p1: Seq<u8>, p2: Seq<u8>) -> Seq<u8> {
    spec_u16_to_le_bytes(spec_type_size(b) as u16) + spec_u16_to_le_bytes(
        spec_type_padding(b) as u16,
    ) + spec_u16_to_le_bytes(b.data@.len() as u16) + spec_u16_to_le_bytes(
        spec_data_padding(b) as u16,
    ) + spec_type_bytes(b) + seq![0u8] + p1 + b.data@ + p2
}

/// What parsing an outer blob yields: the type tag's characters and the
/// data bytes, or nothing if the framing or the tag's UTF-8 is invalid.
/// Padding bytes are consumed and ignored; trailing bytes are ignored.
pub open spec fn spec_parse_blob(d: Seq<u8>) -> Option<(Seq<char>, Seq<u8>)> {
    if d.len() < 8 {
        None
    } else {
        let type_size = spec_u16_from_le_bytes(d.subrange(0, 2)) as int;
        let type_padding = spec_u16_from_le_bytes(d.subrange(2, 4)) as int;
        let data_size = spec_u16_from_le_bytes(d.subrange(4, 6)) as int;
        let data_padding = spec_u16_from_le_bytes(d.subrange(6, 8)) as int;
        if type_size < 1 || d.len() < 8 + type_size + type_padding + data_size + data_padding {
            None
        } else {
            let tb = d.subrange(8, 8 + type_size - 1);
            if valid_utf8(tb) {
                Some(
                    (
                        decode_utf8(tb),
                        d.subrange(
                            8 + type_size + type_padding,
                            8 + type_size + type_padding + data_size,
                        ),
                    ),
                )
            } else {
                None
            }
        }
    }
}

impl SrdBlob {
    /// Serialize the blob, filling both padding runs with fresh random
    /// bytes.  Fails with `InvalidDataLength` when a length field does not
    /// fit its 16-bit encoding, and with `Rng` when the system RNG does.
    pub fn write_to(&self, buf: &mut Vec<u8>) -> (r: Result<(), SrdError>)
        ensures
            !self.wf() ==> r is Err && r->Err_0 is InvalidDataLength,
            self.wf() ==> (r is Ok || r->Err_0 is Rng),
            match r {
                Ok(()) => self.wf() && exists|p1: Seq<u8>, p2: Seq<u8>|
                    p1.len() == spec_type_padding(*self) && p2.len() == spec_data_padding(*self)
                        && final(buf)@ == old(buf)@ + spec_blob_bytes(*self, p1, p2),
                Err(e) => final(buf)@ == old(buf)@ && (e is InvalidDataLength && !self.wf() || e
                    is Rng),
            },
    {
        let tb = self.blob_type.as_str().as_bytes();
        if tb.len() > 0xfffe || self.data.len() > 0xffff {
            return Err(SrdError::InvalidDataLength);
        }
        let type_size: usize = tb.len() + 1;
        let type_padding: usize = 16 - ((type_size + 8) % 16);
        let data_size: usize = self.data.len();
        let data_padding: usize = 16 - (data_size % 16);

        let p1 = match random_bytes(type_padding) {
            Ok(v) => v,
            Err(_) => {
                return Err(SrdError::Rng);
            },
        };
        let p2 = match random_bytes(data_padding) {
            Ok(v) => v,
            Err(_) => {
                return Err(SrdError::Rng);
            },
        };

        let mut out: Vec<u8> = Vec::new();
        put_u16_le(&mut out, type_size as u16);
        put_u16_le(&mut out, type_padding as u16);
        put_u16_le(&mut out, data_size as u16);
        put_u16_le(&mut out, data_padding as u16);
        put_bytes(&mut out, tb);
        put_u8(&mut out, 0u8);
        put_bytes(&mut out, p1.as_slice());
        put_bytes(&mut out, self.data.as_slice());
        put_bytes(&mut out, p2.as_slice());
        proof {
            assert(out@ =~= spec_blob_bytes(*self, p1@, p2@));
        }
        put_bytes(buf, out.as_slice());
        Ok(())
    }

    /// Parse an outer blob; succeeds exactly when `spec_parse_blob` does.
    pub fn read_from(data: &[u8]) -> (r: Result<SrdBlob, SrdError>)
        ensures
            match r {
                Ok(b) => spec_parse_blob(data@) == Some((b.blob_type@, b.data@)) && b.wf(),
                Err(e) => spec_parse_blob(data@) is None && (e is InvalidDataLength || e
                    is InvalidCstr),
            },
    {
        let n = data.len();
        if n < 8 {
            return Err(SrdError::InvalidDataLength);
        }
        let type_size = get_u16_le(data, 0) as usize;
        let type_padding = get_u16_le(data, 2) as usize;
        let data_size = get_u16_le(data, 4) as usize;
        let data_padding = get_u16_le(data, 6) as usize;
        if type_size < 1 {
            return Err(SrdError::InvalidDataLength);
        }
        if n < 8 + type_size + type_padding + data_size + data_padding {
            return Err(SrdError::InvalidDataLength);
        }
        let tb = get_bytes(data, 8, type_size - 1);
        let blob_type = match string_from_utf8(tb) {
            Ok(s) => s,
            Err(_) => {
                return Err(SrdError::InvalidCstr);
            },
        };
        let d = get_bytes(data, 8 + type_size + type_padding, data_size);
        let b = SrdBlob { blob_type, data: d };
        proof {
            vstd::utf8::decode_utf8_encode_utf8(data@.subrange(8, 8 + type_size as int - 1));
        }
        Ok(b)
    }
}

/// Serialize-then-parse on the outer blob returns the type tag and data
/// unchanged, whatever bytes fill the two padding runs.
pub proof fn lemma_blob_round_trip(b: SrdBlob, p1: Seq<u8>, p2: Seq<u8>)
    requires
        b.wf(),
        p1.len() == spec_type_padding(b),
        p2.len() == spec_data_padding(b),
    ensures
        spec_parse_blob(spec_blob_bytes(b, p1, p2)) == Some((b.blob_type@, b.data@)),
{
    lemma_auto_spec_u16_to_from_le_bytes();
    let d = spec_blob_bytes(b, p1, p2);
    let ts = spec_type_size(b);
    let tp = spec_type_padding(b);
    let ds = b.data@.len() as int;
    let dp = spec_data_padding(b);
    assert(d.subrange(0, 2) =~= spec_u16_to_le_bytes(ts as u16));
    assert(d.subrange(2, 4) =~= spec_u16_to_le_bytes(tp as u16));
    assert(d.subrange(4, 6) =~= spec_u16_to_le_bytes(ds as u16));
    assert(d.subrange(6, 8) =~= spec_u16_to_le_bytes(dp as u16));
    assert(d.len() == 8 + ts + tp + ds + dp);
    assert(d.subrange(8, 8 + ts - 1) =~= spec_type_bytes(b));
    vstd::utf8::encode_utf8_valid_utf8(b.blob_type@);
    vstd::utf8::encode_utf8_decode_utf8(b.blob_type@);
    assert(d.subrange(8 + ts + tp, 8 + ts + tp + ds) =~= b.data@);
}

/// A well-known inner blob format: a type tag plus a codec for `SrdBlob`
/// data bytes.  The tag, the encoding and the parse relation are part of
/// the trait, so a container round trip can be stated for any format.
pub trait Blob: Sized {
    spec fn spec_tag() -> Seq<char>;

    spec fn spec_encoding(self) -> Seq<u8>;

    spec fn spec_parses(d: Seq<u8>, t: Self) -> bool;

    fn blob_type() -> (r: &'static str)
        ensures
            r@ == Self::spec_tag(),
    ;

    fn read_from(data: &[u8]) -> (r: Result<Self, SrdError>)
        ensures
            match r {
                Ok(t) => Self::spec_parses(data@, t),
                Err(e) => forall|t: Self| !Self::spec_parses(data@, t),
            },
    ;

    fn write_to(&self, buf: &mut Vec<u8>) -> (r: Result<(), SrdError>)
        ensures
            match r {
                Ok(()) => final(buf)@ == old(buf)@ + self.spec_encoding(),
                Err(e) => final(buf)@ == old(buf)@,
            },
    ;
}

/// `user:pass` as UTF-8 with exactly one `:` separator.
#[derive(Debug, PartialEq, Eq, Clone)]
pub struct BasicBlob {
    pub username: String,
    pub password: String,
}

/// How many times `x` occurs in `d`.
pub open spec fn count_byte(d: Seq<u8>, x: u8) -> nat
    decreases d.len(),
{
    if d.len() == 0 {
        0
    } else {
        count_byte(d.drop_last(), x) + if d.last() == x {
            1nat
        } else {
            0nat
        }
    }
}

/// What parsing a Basic blob yields: the text left and right of the
/// single separator, or nothing without exactly one separator or with
/// invalid UTF-8 on either side.
pub open spec fn spec_parse_basic(d: Seq<u8>) -> Option<(Seq<char>, Seq<char>)> {
    if count_byte(d, 0x3a) == 1 {
        let i = choose|i: int| 0 <= i < d.len() && d[i] == 0x3a;
        if valid_utf8(d.take(i)) && valid_utf8(d.skip(i + 1)) {
            Some((decode_utf8(d.take(i)), decode_utf8(d.skip(i + 1))))
        } else {
            None
        }
    } else {
        None
    }
}

impl BasicBlob {
    pub fn new(username: &str, password: &str) -> (r: BasicBlob)
        ensures
            r.username@ == username@,
            r.password@ == password@,
    {
        BasicBlob { username: username.to_owned(), password: password.to_owned() }
    }

    pub fn get_username(&self) -> (r: String)
        ensures
            r@ == self.username@,
    {
        self.username.clone()
    }

    pub fn get_password(&self) -> (r: String)
        ensures
            r@ == self.password@,
    {
        self.password.clone()
    }
}

/// The number of occurrences of `x` in `d`, and the index of the first.
fn scan_byte(d: &[u8], x: u8) -> (r: (usize, usize))
    ensures
        r.0 == count_byte(d@, x),
        r.0 > 0 ==> 0 <= r.1 < d@.len() && d@[r.1 as int] == x && forall|j: int|
            0 <= j < r.1 ==> d@[j] != x,
{
    let n = d.len();
    let mut count: usize = 0;
    let mut first: usize = 0;
    let mut i: usize = 0;
    while i < n
        invariant
            i <= n,
            n == d@.len(),
            count <= i,
            count == count_byte(d@.take(i as int), x),
            count > 0 ==> 0 <= first < i && d@[first as int] == x && forall|j: int|
                0 <= j < first ==> d@[j] != x,
            count == 0 ==> forall|j: int| 0 <= j < i ==> d@[j] != x,
        decreases n - i,
    {
        proof {
            assert(d@.take(i + 1).drop_last() =~= d@.take(i as int));
            assert(d@.take(i + 1).last() == d@[i as int]);
        }
        if *vstd::slice::slice_index_get(d, i) == x {
            if count == 0 {
                first = i;
            }
            count = count + 1;
        }
        i = i + 1;
    }
    proof {
        assert(d@.take(n as int) =~= d@);
    }
    (count, first)
}

impl Blob for BasicBlob {
    open spec fn spec_tag() -> Seq<char> {
        "Basic"@
    }

    open spec fn spec_encoding(self) -> Seq<u8> {
        encode_utf8(self.username@) + seq![0x3au8] + encode_utf8(self.password@)
    }

    open spec fn spec_parses(d: Seq<u8>, t: Self) -> bool {
        spec_parse_basic(d) == Some((t.username@, t.password@))
    }

    fn blob_type() -> (r: &'static str) {
        "Basic"
    }

    fn read_from(data: &[u8]) -> (r: Result<Self, SrdError>) {
        BasicBlob::parse(data)
    }

    fn write_to(&self, buf: &mut Vec<u8>) -> (r: Result<(), SrdError>) {
        self.encode(buf)
    }
}

impl BasicBlob {
    /// Parse `user:pass`; succeeds exactly when `spec_parse_basic` does.
    pub fn parse(data: &[u8]) -> (r: Result<BasicBlob, SrdError>)
        ensures
            match r {
                Ok(b) => spec_parse_basic(data@) == Some((b.username@, b.password@)),
                Err(e) => spec_parse_basic(data@) is None && (e is BlobFormatError || e
                    is InvalidCstr),
            },
    {
        let n = data.len();
        let (count, first) = scan_byte(data, 0x3a);
        if count != 1 {
            return Err(SrdError::BlobFormatError);
        }
        proof {
            let i = choose|i: int| 0 <= i < data@.len() && data@[i] == 0x3a;
            if i != first {
                if i < first {
                    assert(data@[i] != 0x3a);
                } else {
                    // Two distinct occurrences would make the count exceed 1.
                    lemma_count_byte_two(data@, 0x3a, first as int, i);
                }
            }
        }
        let left = get_bytes(data, 0, first);
        let right = get_bytes(data, first + 1, n - (first + 1));
        proof {
            assert(left@ =~= data@.take(first as int));
            assert(right@ =~= data@.skip(first as int + 1));
        }
        let username = match string_from_utf8(left) {
            Ok(s) => s,
            Err(_) => {
                return Err(SrdError::InvalidCstr);
            },
        };
        let password = match string_from_utf8(right) {
            Ok(s) => s,
            Err(_) => {
                return Err(SrdError::InvalidCstr);
            },
        };
        Ok(BasicBlob { username, password })
    }

    /// Serialize as `user:pass`.
    pub fn encode(&self, buf: &mut Vec<u8>) -> (r: Result<(), SrdError>)
        ensures
            r is Ok,
            final(buf)@ == old(buf)@ + encode_utf8(self.username@) + seq![0x3au8] + encode_utf8(
                self.password@,
            ),
    {
        put_bytes(buf, self.username.as_str().as_bytes());
        put_u8(buf, 0x3a);
        put_bytes(buf, self.password.as_str().as_bytes());
        proof {
            assert(final(buf)@ =~= old(buf)@ + encode_utf8(self.username@) + seq![0x3au8]
                + encode_utf8(self.password@));
        }
        Ok(())
    }
}

/// Two distinct positions holding `x` force a count of at least two.
proof fn lemma_count_byte_two(d: Seq<u8>, x: u8, i: int, j: int)
    requires
        0 <= i < j < d.len(),
        d[i] == x,
        d[j] == x,
    ensures
        count_byte(d, x) >= 2,
    decreases d.len(),
{
    if j == d.len() - 1 {
        lemma_count_byte_one(d.drop_last(), x, i);
    } else {
        lemma_count_byte_two(d.drop_last(), x, i, j);
    }
}

/// A position holding `x` forces a count of at least one.
proof fn lemma_count_byte_one(d: Seq<u8>, x: u8, i: int)
    requires
        0 <= i < d.len(),
        d[i] == x,
    ensures
        count_byte(d, x) >= 1,
    decreases d.len(),
{
    if i < d.len() - 1 {
        lemma_count_byte_one(d.drop_last(), x, i);
    }
}

/// `{u16 ulen, u16 plen, user, 0, pass, 0}` with raw UTF-8 user and pass.
#[derive(Debug, PartialEq, Eq, Clone)]
pub struct LogonBlob {
    pub username: String,
    pub password: String,
}

/// The serialized Logon blob for the given user and password characters.
pub open spec fn spec_logon_bytes(u: Seq<char>, p: Seq<char>) -> Seq<u8> {
    spec_u16_to_le_bytes(encode_utf8(u).len() as u16) + spec_u16_to_le_bytes(
        encode_utf8(p).len() as u16,
    ) + encode_utf8(u) + seq![0u8] + encode_utf8(p) + seq![0u8]
}

/// What parsing a Logon blob yields, or nothing if the framing or the
/// UTF-8 of either field is invalid.  Trailing bytes are ignored.
pub open spec fn spec_parse_logon(d: Seq<u8>) -> Option<(Seq<char>, Seq<char>)> {
    if d.len() < 4 {
        None
    } else {
        let ulen = spec_u16_from_le_bytes(d.subrange(0, 2)) as int;
        let plen = spec_u16_from_le_bytes(d.subrange(2, 4)) as int;
        if d.len() < 4 + ulen + 1 + plen + 1 {
            None
        } else {
            let ub = d.subrange(4, 4 + ulen);
            let pb = d.subrange(4 + ulen + 1, 4 + ulen + 1 + plen);
            if valid_utf8(ub) && valid_utf8(pb) {
                Some((decode_utf8(ub), decode_utf8(pb)))
            } else {
                None
            }
        }
    }
}

impl LogonBlob {
    pub fn new(username: &str, password: &str) -> (r: LogonBlob)
        ensures
            r.username@ == username@,
            r.password@ == password@,
    {
        LogonBlob { username: username.to_owned(), password: password.to_owned() }
    }

    pub fn get_username(&self) -> (r: String)
        ensures
            r@ == self.username@,
    {
        self.username.clone()
    }

    pub fn get_password(&self) -> (r: String)
        ensures
            r@ == self.password@,
    {
        self.password.clone()
    }

    /// Parse a Logon blob; succeeds exactly when `spec_parse_logon` does.
    pub fn parse(data: &[u8]) -> (r: Result<LogonBlob, SrdError>)
        ensures
            match r {
                Ok(b) => spec_parse_logon(data@) == Some((b.username@, b.password@)),
                Err(e) => spec_parse_logon(data@) is None && (e is InvalidDataLength || e
                    is InvalidCstr),
            },
    {
        let n = data.len();
        if n < 4 {
            return Err(SrdError::InvalidDataLength);
        }
        let ulen = get_u16_le(data, 0) as usize;
        let plen = get_u16_le(data, 2) as usize;
        if n < 4 + ulen + 1 + plen + 1 {
            return Err(SrdError::InvalidDataLength);
        }
        let ub = get_bytes(data, 4, ulen);
        let pb = get_bytes(data, 4 + ulen + 1, plen);
        let username = match string_from_utf8(ub) {
            Ok(s) => s,
            Err(_) => {
                return Err(SrdError::InvalidCstr);
            },
        };
        let password = match string_from_utf8(pb) {
            Ok(s) => s,
            Err(_) => {
                return Err(SrdError::InvalidCstr);
            },
        };
        Ok(LogonBlob { username, password })
    }

    /// Serialize as `{ulen, plen, user, 0, pass, 0}`.  Fails with
    /// `InvalidDataLength` when a field's UTF-8 overflows its 16-bit
    /// length.
    pub fn encode(&self, buf: &mut Vec<u8>) -> (r: Result<(), SrdError>)
        ensures
            r is Err <==> encode_utf8(self.username@).len() > 0xffff || encode_utf8(
                self.password@,
            ).len() > 0xffff,
            match r {
                Ok(()) => final(buf)@ == old(buf)@ + spec_logon_bytes(
                    self.username@,
                    self.password@,
                ),
                Err(e) => final(buf)@ == old(buf)@ && e is InvalidDataLength,
            },
    {
        let ub = self.username.as_str().as_bytes();
        let pb = self.password.as_str().as_bytes();
        if ub.len() > 0xffff || pb.len() > 0xffff {
            return Err(SrdError::InvalidDataLength);
        }
        put_u16_le(buf, ub.len() as u16);
        put_u16_le(buf, pb.len() as u16);
        put_bytes(buf, ub);
        put_u8(buf, 0u8);
        put_bytes(buf, pb);
        put_u8(buf, 0u8);
        proof {
            assert(final(buf)@ =~= old(buf)@ + spec_logon_bytes(self.username@, self.password@));
        }
        Ok(())
    }
}

impl Blob for LogonBlob {
    open spec fn spec_tag() -> Seq<char> {
        "Logon"@
    }

    open spec fn spec_encoding(self) -> Seq<u8> {
        spec_logon_bytes(self.username@, self.password@)
    }

    open spec fn spec_parses(d: Seq<u8>, t: Self) -> bool {
        spec_parse_logon(d) == Some((t.username@, t.password@))
    }

    fn blob_type() -> (r: &'static str) {
        "Logon"
    }

    fn read_from(data: &[u8]) -> (r: Result<Self, SrdError>) {
        LogonBlob::parse(data)
    }

    fn write_to(&self, buf: &mut Vec<u8>) -> (r: Result<(), SrdError>) {
        self.encode(buf)
    }
}

/// Serialize-then-parse on the Logon blob returns the user and password
/// characters unchanged, for every UTF-8 user and password whose
/// encodings fit the 16-bit length fields.
pub proof fn lemma_logon_round_trip(u: Seq<char>, p: Seq<char>)
    requires
        encode_utf8(u).len() <= 0xffff,
        encode_utf8(p).len() <= 0xffff,
    ensures
        spec_parse_logon(spec_logon_bytes(u, p)) == Some((u, p)),
{
    lemma_auto_spec_u16_to_from_le_bytes();
    let d = spec_logon_bytes(u, p);
    let ulen = encode_utf8(u).len() as int;
    let plen = encode_utf8(p).len() as int;
    assert(d.subrange(0, 2) =~= spec_u16_to_le_bytes(ulen as u16));
    assert(d.subrange(2, 4) =~= spec_u16_to_le_bytes(plen as u16));
    assert(d.len() == 4 + ulen + 1 + plen + 1);
    assert(d.subrange(4, 4 + ulen) =~= encode_utf8(u));
    assert(d.subrange(4 + ulen + 1, 4 + ulen + 1 + plen) =~= encode_utf8(p));
    vstd::utf8::encode_utf8_valid_utf8(u);
    vstd::utf8::encode_utf8_valid_utf8(p);
    vstd::utf8::encode_utf8_decode_utf8(u);
    vstd::utf8::encode_utf8_decode_utf8(p);
}

/// Free-form UTF-8 text.
#[derive(Debug, PartialEq, Eq, Clone)]
pub struct TextBlob {
    pub text: String,
}

impl TextBlob {
    pub fn new(text: &str) -> (r: TextBlob)
        ensures
            r.text@ == text@,
    {
        TextBlob { text: text.to_owned() }
    }

    pub fn get_text(&self) -> (r: String)
        ensures
            r@ == self.text@,
    {
        self.text.clone()
    }

    /// Parse the whole input as UTF-8 text.
    pub fn parse(data: &[u8]) -> (r: Result<TextBlob, SrdError>)
        ensures
            match r {
                Ok(b) => valid_utf8(data@) && b.text@ == decode_utf8(data@),
                Err(e) => !valid_utf8(data@) && e is InvalidCstr,
            },
    {
        let v = vstd::slice::slice_to_vec(data);
        match string_from_utf8(v) {
            Ok(text) => Ok(TextBlob { text }),
            Err(_) => Err(SrdError::InvalidCstr),
        }
    }

    /// Serialize as the text's UTF-8 bytes.
    pub fn encode(&self, buf: &mut Vec<u8>) -> (r: Result<(), SrdError>)
        ensures
            r is Ok,
            final(buf)@ == old(buf)@ + encode_utf8(self.text@),
    {
        put_bytes(buf, self.text.as_str().as_bytes());
        Ok(())
    }
}

impl Blob for TextBlob {
    open spec fn spec_tag() -> Seq<char> {
        "Text"@
    }

    open spec fn spec_encoding(self) -> Seq<u8> {
        encode_utf8(self.text@)
    }

    open spec fn spec_parses(d: Seq<u8>, t: Self) -> bool {
        valid_utf8(d) && t.text@ == decode_utf8(d)
    }

    fn blob_type() -> (r: &'static str) {
        "Text"
    }

    fn read_from(data: &[u8]) -> (r: Result<Self, SrdError>) {
        TextBlob::parse(data)
    }

    fn write_to(&self, buf: &mut Vec<u8>) -> (r: Result<(), SrdError>) {
        self.encode(buf)
    }
}

} // verus!
