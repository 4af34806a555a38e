//! Embedding a single wire message in HTTP authentication headers:
//! `Authorization: SRD <base64>` and the `WWW-Authenticate` list of
//! scheme/payload pairs.

use crate::codec::put_bytes;
use crate::errors::SrdError;
use vstd::prelude::*;
use vstd::string::StringSliceAdditionalSpecFns;
use vstd::slice::slice_subrange;

verus! {

/// What the outside base64 encoder (standard alphabet, padded) returns
/// for a byte string, as the characters of the encoding.
pub uninterp spec fn spec_b64_chars(data: Seq<u8>) -> Seq<char>;

/// The ASCII bytes of a base64 encoding: base64 output is ASCII, so its
/// UTF-8 bytes are the encoding itself.
pub open spec fn b64_of(data: Seq<u8>) -> Seq<u8> {
    vstd::utf8::encode_utf8(spec_b64_chars(data))
}

/// Relies on base64's `encode` with the standard alphabet: ASCII output
/// depending on the input bytes alone.
#[verifier::external_body]
pub(crate) fn b64_encode(data: &[u8]) -> (r: String)
    ensures
        r@ == spec_b64_chars(data@),
{
    base64::encode(data)
}

/// The text with its trailing `=` padding removed.
pub open spec fn spec_strip_pad(s: Seq<u8>) -> Seq<u8>
    decreases s.len(),
{
    if s.len() > 0 && s.last() == 0x3du8 {
        spec_strip_pad(s.drop_last())
    } else {
        s
    }
}

/// Relies on base64's `decode` with the standard alphabet: it accepts a
/// canonical encoding, padded or with the padding left off, and returns
/// the bytes it encodes; everything else is rejected.
#[verifier::external_body]
pub(crate) fn b64_decode(s: &[u8]) -> (r: Result<Vec<u8>, SrdError>)
    ensures
        forall|x: Seq<u8>| s@ == b64_of(x) ==> r is Ok && r->Ok_0@ == x,
        r is Ok ==> spec_strip_pad(s@) == spec_strip_pad(b64_of(r->Ok_0@)),
        r is Err ==> r->Err_0 is InvalidCstr,
{
    match base64::decode(s) {
        Ok(v) => Ok(v),
        Err(_) => Err(SrdError::InvalidCstr),
    }
}

/// The authentication schemes a header can carry; only `SRD` is known.
#[derive(Clone, Copy, PartialEq, Eq, Structural, Debug)]
pub enum AuthenticateScheme {
    Srd,
}

impl AuthenticateScheme {
    /// The scheme token as it appears in a header.
    pub fn name(&self) -> (r: String)
        ensures
            r@ == "SRD"@,
    {
        String::from_str("SRD")
    }
}

/// The payload of an `Authorization: SRD <base64>` header.
#[derive(Clone, PartialEq, Eq, Debug)]
pub struct SrdAuthorizationScheme {
    pub msg: Vec<u8>,
}

impl SrdAuthorizationScheme {
    /// The scheme token this payload belongs to.
    pub fn scheme() -> (r: Option<&'static str>)
        ensures
            r matches Some(s) && s@ == "SRD"@,
    {
        Some("SRD")
    }

    /// The base64 text of the carried message.
    pub fn fmt_scheme(&self) -> (r: String)
        ensures
            vstd::utf8::encode_utf8(r@) == b64_of(self.msg@),
    {
        b64_encode(self.msg.as_slice())
    }

    /// Parse base64 text back into a payload; rejects what no message
    /// encodes to.
    pub fn from_str(s: &str) -> (r: Result<SrdAuthorizationScheme, SrdError>)
        ensures
            forall|x: Seq<u8>| s.spec_bytes() == b64_of(x) ==> r is Ok && r->Ok_0.msg@ == x,
            r is Ok ==> spec_strip_pad(s.spec_bytes()) == spec_strip_pad(b64_of(r->Ok_0.msg@)),
            r is Err ==> r->Err_0 is InvalidCstr,
    {
        match b64_decode(s.as_bytes()) {
            Ok(msg) => Ok(SrdAuthorizationScheme { msg }),
            Err(e) => Err(e),
        }
    }
}

/// A `WWW-Authenticate` header: scheme tokens, each with an optional
/// base64 payload.
#[derive(Clone, PartialEq, Eq, Debug)]
pub struct WWWAuthenticate(pub Vec<(AuthenticateScheme, Option<Vec<u8>>)>);

/// Whether a header line carries the scheme token `SRD`: exactly the
/// token, or the token followed by a single space and the payload text.
pub open spec fn spec_is_srd_line(line: Seq<u8>) -> bool {
    line.len() >= 3 && line[0] == 0x53u8 && line[1] == 0x52u8 && line[2] == 0x44u8 && (line.len()
        == 3 || line[3] == 0x20u8)
}

/// The header lines that carry the `SRD` token, in order.
pub open spec fn spec_srd_lines(lines: Seq<Seq<u8>>) -> Seq<Seq<u8>>
    decreases lines.len(),
{
    if lines.len() == 0 {
        Seq::<Seq<u8>>::empty()
    } else {
        let rest = spec_srd_lines(lines.drop_last());
        if spec_is_srd_line(lines.last()) {
            rest.push(lines.last())
        } else {
            rest
        }
    }
}

/// A line carrying the token forces at least one recognized entry.
proof fn lemma_srd_lines_nonempty(lines: Seq<Seq<u8>>, i: int)
    requires
        0 <= i < lines.len(),
        spec_is_srd_line(lines[i]),
    ensures
        spec_srd_lines(lines).len() >= 1,
    decreases lines.len(),
{
    if i < lines.len() - 1 {
        lemma_srd_lines_nonempty(lines.drop_last(), i);
    }
}

impl WWWAuthenticate {
    pub fn new() -> (r: WWWAuthenticate)
        ensures
            r.0@.len() == 0,
    {
        WWWAuthenticate(Vec::new())
    }

    /// Append one scheme/payload pair.
    pub fn add_scheme(self, scheme: AuthenticateScheme, data: Option<Vec<u8>>) -> (r:
        WWWAuthenticate)
        ensures
            r.0@ == self.0@.push((scheme, data)),
    {
        let mut v = self;
        v.0.push((scheme, data));
        v
    }

    /// A copy of the payload at `index`, if there is one.
    pub fn get_msg(&self, index: usize) -> (r: Option<Vec<u8>>)
        ensures
            match r {
                Some(m) => index < self.0@.len() && (self.0@[index as int].1 matches Some(m0)
                    && m@ == m0@),
                None => index >= self.0@.len() || self.0@[index as int].1 is None,
            },
    {
        if index >= self.0.len() {
            return None;
        }
        match &self.0[index].1 {
            None => None,
            Some(m) => {
                let mut out: Vec<u8> = Vec::new();
                put_bytes(&mut out, m.as_slice());
                Some(out)
            },
        }
    }

    /// Parse the lines of a `WWW-Authenticate` header: each line carrying
    /// the `SRD` token contributes a pair, with its base64 payload decoded
    /// when text follows the token and the space.  A header without a
    /// single `SRD` line is rejected; an undecodable payload rejects the
    /// whole header.
    pub fn parse_header(lines: &Vec<Vec<u8>>) -> (r: Result<WWWAuthenticate, SrdError>)
        ensures
            match r {
                Ok(w) => {
                    let srd = spec_srd_lines(lines.deep_view());
                    &&& srd.len() >= 1
                    &&& w.0@.len() == srd.len()
                    &&& forall|i: int|
                        0 <= i < srd.len() ==> {
                            &&& (#[trigger] w.0@[i]).0 is Srd
                            &&& (srd[i].len() <= 4 ==> w.0@[i].1 is None)
                            &&& (srd[i].len() > 4 ==> (w.0@[i].1 matches Some(m) && spec_strip_pad(
                                srd[i].skip(4),
                            ) == spec_strip_pad(b64_of(m@))))
                        }
                },
                Err(e) => {
                    &&& (e is Proto <==> spec_srd_lines(lines.deep_view()).len() == 0)
                    &&& (e is InvalidCstr ==> exists|i: int|
                        0 <= i < lines.deep_view().len() && spec_is_srd_line(
                            #[trigger] lines.deep_view()[i],
                        ) && lines.deep_view()[i].len() > 4 && (forall|x: Seq<u8>|
                            lines.deep_view()[i].skip(4) != b64_of(x)))
                    &&& (e is Proto || e is InvalidCstr)
                },
            },
    {
        let mut pairs: Vec<(AuthenticateScheme, Option<Vec<u8>>)> = Vec::new();
        let n = lines.len();
        let mut i: usize = 0;
        while i < n
            invariant
                i <= n,
                n == lines@.len(),
                lines.deep_view().len() == n,
                pairs@.len() == spec_srd_lines(lines.deep_view().take(i as int)).len(),
                forall|j: int|
                    0 <= j < pairs@.len() ==> {
                        let srd = spec_srd_lines(lines.deep_view().take(i as int));
                        &&& (#[trigger] pairs@[j]).0 is Srd
                        &&& (srd[j].len() <= 4 ==> pairs@[j].1 is None)
                        &&& (srd[j].len() > 4 ==> (pairs@[j].1 matches Some(m) && spec_strip_pad(
                            srd[j].skip(4),
                        ) == spec_strip_pad(b64_of(m@))))
                    },
            decreases n - i,
        {
            proof {
                assert(lines.deep_view().take(i + 1).drop_last() =~= lines.deep_view().take(
                    i as int,
                ));
                assert(lines.deep_view().take(i + 1).last() == lines.deep_view()[i as int]);
                assert(lines@[i as int].deep_view() =~= lines@[i as int]@);
            }
            let line: &Vec<u8> = &lines[i];
            let llen = line.len();
            if llen >= 3 && line[0] == 0x53 && line[1] == 0x52 && line[2] == 0x44 && (llen == 3
                || line[3] == 0x20) {
                if llen > 4 {
                    let payload = slice_subrange(line.as_slice(), 4, llen);
                    match b64_decode(payload) {
                        Ok(bytes) => {
                            pairs.push((AuthenticateScheme::Srd, Some(bytes)));
                        },
                        Err(e) => {
                            proof {
                                assert(spec_is_srd_line(lines.deep_view()[i as int]));
                                assert(lines.deep_view()[i as int].skip(4) =~= payload@);
                                lemma_srd_lines_nonempty(lines.deep_view(), i as int);
                            }
                            return Err(e);
                        },
                    }
                } else {
                    pairs.push((AuthenticateScheme::Srd, None));
                }
            }
            i = i + 1;
        }
        proof {
            assert(lines.deep_view().take(n as int) =~= lines.deep_view());
        }
        if pairs.len() == 0 {
            return Err(SrdError::Proto(String::from_str("no SRD scheme in header")));
        }
        Ok(WWWAuthenticate(pairs))
    }

    /// Format the pairs for a header: each as `SRD` or `SRD <base64>`.
    pub fn to_header_value(&self) -> (r: String)
        ensures
            r@ == spec_header_value(self.0@),
    {
        let mut out = String::new();
        let n = self.0.len();
        let mut i: usize = 0;
        while i < n
            invariant
                i <= n,
                n == self.0@.len(),
                out@ == spec_header_value(self.0@.take(i as int)),
            decreases n - i,
        {
            proof {
                assert(self.0@.take(i + 1).drop_last() =~= self.0@.take(i as int));
                assert(self.0@.take(i + 1).last() == self.0@[i as int]);
            }
            match &self.0[i].1 {
                Some(data) => {
                    out.append("SRD ");
                    let b = b64_encode(data.as_slice());
                    out.append(b.as_str());
                },
                None => {
                    out.append("SRD");
                },
            }
            i = i + 1;
        }
        proof {
            assert(self.0@.take(n as int) =~= self.0@);
        }
        out
    }
}

/// The header text for a list of scheme/payload pairs.
pub open spec fn spec_header_value(s: Seq<(AuthenticateScheme, Option<Vec<u8>>)>) -> Seq<char>
    decreases s.len(),
{
    if s.len() == 0 {
        Seq::<char>::empty()
    } else {
        spec_header_value(s.drop_last()) + (match s.last().1 {
            Some(data) => "SRD "@ + spec_b64_chars(data@),
            None => "SRD"@,
        })
    }
}

} // verus!
