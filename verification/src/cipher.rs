//! The negotiable ciphers: AES-256-CBC without padding, ChaCha20 and
//! XChaCha20, their on-the-wire flag bits, the "best cipher" policy, and
//! trusted wrappers around the outside implementations.

use crate::errors::SrdError;
use aes::Aes256;
use block_modes::block_padding::NoPadding;
use block_modes::{BlockMode, Cbc};
use chacha::KeyStream;
use vstd::prelude::*;
use vstd::slice::slice_subrange;

verus! {

pub const AES256_FLAG: u32 = 0x00000001;

pub const CHACHA20_FLAG: u32 = 0x00000100;

pub const XCHACHA20_FLAG: u32 = 0x00000200;

#[derive(Clone, Copy, Eq, PartialEq, Structural, Debug)]
pub enum Cipher {
    AES256,
    ChaCha20,
    XChaCha20,
}

/// What the outside ChaCha20 keystream XOR returns for a 32-byte key, an
/// 8-byte nonce and the input bytes.
pub uninterp spec fn chacha20_xor_of(key: Seq<u8>, nonce: Seq<u8>, data: Seq<u8>) -> Seq<u8>;

/// What the outside XChaCha20 keystream XOR returns for a 32-byte key, a
/// 24-byte nonce and the input bytes.
pub uninterp spec fn xchacha20_xor_of(key: Seq<u8>, nonce: Seq<u8>, data: Seq<u8>) -> Seq<u8>;

/// What AES-256-CBC encryption without padding returns for a 32-byte key,
/// a 16-byte IV and a block-aligned input.
pub uninterp spec fn aes256_cbc_encrypt_of(key: Seq<u8>, iv: Seq<u8>, data: Seq<u8>) -> Seq<u8>;

/// What AES-256-CBC decryption without padding returns for a 32-byte key,
/// a 16-byte IV and a block-aligned input.
pub uninterp spec fn aes256_cbc_decrypt_of(key: Seq<u8>, iv: Seq<u8>, data: Seq<u8>) -> Seq<u8>;

/// Relies on chacha's `ChaCha::new_chacha20` + `KeyStream::xor_read`: it
/// XORs the keystream for (key, nonce) into the buffer, so applying it
/// twice restores the input.  A fresh stream reaches its end only after
/// far more bytes than the admitted input length.
#[verifier::external_body]
pub(crate) fn chacha20_xor(key: &[u8], nonce: &[u8], data: &[u8]) -> (r: Vec<u8>)
    requires
        key@.len() == 32,
        nonce@.len() == 8,
        data@.len() < 0x1000_0000,
    ensures
        r@ == chacha20_xor_of(key@, nonce@, data@),
        r@.len() == data@.len(),
        chacha20_xor_of(key@, nonce@, r@) == data@,
{
    let mut k = [0u8; 32];
    k.copy_from_slice(key);
    let mut n = [0u8; 8];
    n.copy_from_slice(nonce);
    let mut stream = chacha::ChaCha::new_chacha20(&k, &n);
    let mut buf = data.to_vec();
    stream.xor_read(&mut buf).expect("fresh keystream is long enough");
    buf
}

/// Relies on chacha's `ChaCha::new_xchacha20` + `KeyStream::xor_read`, as
/// `chacha20_xor` above but with a 24-byte nonce.
#[verifier::external_body]
pub(crate) fn xchacha20_xor(key: &[u8], nonce: &[u8], data: &[u8]) -> (r: Vec<u8>)
    requires
        key@.len() == 32,
        nonce@.len() == 24,
        data@.len() < 0x1000_0000,
    ensures
        r@ == xchacha20_xor_of(key@, nonce@, data@),
        r@.len() == data@.len(),
        xchacha20_xor_of(key@, nonce@, r@) == data@,
{
    let mut k = [0u8; 32];
    k.copy_from_slice(key);
    let mut n = [0u8; 24];
    n.copy_from_slice(nonce);
    let mut stream = chacha::ChaCha::new_xchacha20(&k, &n);
    let mut buf = data.to_vec();
    stream.xor_read(&mut buf).expect("fresh keystream is long enough");
    buf
}

/// Relies on block-modes' `Cbc::<Aes256, NoPadding>::encrypt_vec`: CBC
/// encryption of a block-aligned input keeps its length, and CBC
/// decryption with the same key and IV restores the input.
#[verifier::external_body]
pub(crate) fn aes256_cbc_encrypt(key: &[u8], iv: &[u8], data: &[u8]) -> (r: Vec<u8>)
    requires
        key@.len() == 32,
        iv@.len() == 16,
        data@.len() % 16 == 0,
    ensures
        r@ == aes256_cbc_encrypt_of(key@, iv@, data@),
        r@.len() == data@.len(),
        aes256_cbc_decrypt_of(key@, iv@, r@) == data@,
{
    let cbc = Cbc::<Aes256, NoPadding>::new_from_slices(key, iv)
        .expect("key and IV lengths are fixed");
    cbc.encrypt_vec(data)
}

/// Relies on block-modes' `Cbc::<Aes256, NoPadding>::decrypt_vec`: with no
/// padding it fails only on inputs that are not block-aligned, which the
/// precondition excludes, and keeps the length.
#[verifier::external_body]
pub(crate) fn aes256_cbc_decrypt(key: &[u8], iv: &[u8], data: &[u8]) -> (r: Vec<u8>)
    requires
        key@.len() == 32,
        iv@.len() == 16,
        data@.len() % 16 == 0,
    ensures
        r@ == aes256_cbc_decrypt_of(key@, iv@, data@),
        r@.len() == data@.len(),
{
    let cbc = Cbc::<Aes256, NoPadding>::new_from_slices(key, iv)
        .expect("key and IV lengths are fixed");
    cbc.decrypt_vec(data).expect("length is a multiple of the block size")
}

/// The ciphertext produced by `cipher` for the given 32-byte key, 32-byte
/// derived IV and input; each cipher consumes its own prefix of the IV.
pub open spec fn spec_encrypt(c: Cipher, key: Seq<u8>, iv: Seq<u8>, data: Seq<u8>) -> Seq<u8> {
    match c {
        Cipher::AES256 => aes256_cbc_encrypt_of(key, iv.take(16), data),
        Cipher::ChaCha20 => chacha20_xor_of(key, iv.take(8), data),
        Cipher::XChaCha20 => xchacha20_xor_of(key, iv.take(24), data),
    }
}

/// The plaintext recovered by `cipher` for the given key, IV and input.
pub open spec fn spec_decrypt(c: Cipher, key: Seq<u8>, iv: Seq<u8>, data: Seq<u8>) -> Seq<u8> {
    match c {
        Cipher::AES256 => aes256_cbc_decrypt_of(key, iv.take(16), data),
        Cipher::ChaCha20 => chacha20_xor_of(key, iv.take(8), data),
        Cipher::XChaCha20 => xchacha20_xor_of(key, iv.take(24), data),
    }
}

/// The wire flag bit of each cipher.
pub open spec fn spec_flag(c: Cipher) -> u32 {
    match c {
        Cipher::AES256 => AES256_FLAG,
        Cipher::ChaCha20 => CHACHA20_FLAG,
        Cipher::XChaCha20 => XCHACHA20_FLAG,
    }
}

/// The ciphers advertised by a flag word, in the fixed order AES-256,
/// ChaCha20, XChaCha20.
pub open spec fn spec_from_flags(flags: u32) -> Seq<Cipher> {
    let s = Seq::<Cipher>::empty();
    let s = if flags & AES256_FLAG != 0 {
        s.push(Cipher::AES256)
    } else {
        s
    };
    let s = if flags & CHACHA20_FLAG != 0 {
        s.push(Cipher::ChaCha20)
    } else {
        s
    };
    if flags & XCHACHA20_FLAG != 0 {
        s.push(Cipher::XChaCha20)
    } else {
        s
    }
}

/// The preference order: XChaCha20 over ChaCha20 over AES-256.
pub open spec fn spec_best_cipher(cs: Seq<Cipher>) -> Cipher {
    if cs.contains(Cipher::XChaCha20) {
        Cipher::XChaCha20
    } else if cs.contains(Cipher::ChaCha20) {
        Cipher::ChaCha20
    } else {
        Cipher::AES256
    }
}

/// Whether the slice holds the given cipher.
pub fn contains_cipher(cs: &[Cipher], c: Cipher) -> (r: bool)
    ensures
        r == cs@.contains(c),
{
    let n = cs.len();
    let mut i: usize = 0;
    while i < n
        invariant
            i <= n,
            n == cs@.len(),
            forall|j: int| 0 <= j < i ==> cs@[j] != c,
        decreases n - i,
    {
        if *vstd::slice::slice_index_get(cs, i) == c {
            return true;
        }
        i = i + 1;
    }
    false
}

impl Cipher {
    /// Encrypt `data` under `key`, slicing the cipher's IV width from the
    /// front of the 32-byte derived IV.  Only AES-256-CBC restricts the
    /// input: it requires a multiple of 16 bytes and fails with
    /// `InvalidDataLength` otherwise.
    pub fn encrypt_data(&self, data: &[u8], key: &[u8], iv: &[u8]) -> (r: Result<
        Vec<u8>,
        SrdError,
    >)
        requires
            key@.len() == 32,
            iv@.len() == 32,
            data@.len() < 0x1000_0000,
        ensures
            match r {
                Ok(out) => (*self is AES256 ==> data@.len() % 16 == 0) && out@ == spec_encrypt(
                    *self,
                    key@,
                    iv@,
                    data@,
                ) && out@.len() == data@.len() && spec_decrypt(*self, key@, iv@, out@) == data@,
                Err(e) => *self is AES256 && data@.len() % 16 != 0 && e is InvalidDataLength,
            },
    {
        match self {
            Cipher::AES256 => {
                if data.len() % 16 != 0 {
                    return Err(SrdError::InvalidDataLength);
                }
                let ivs = slice_subrange(iv, 0, 16);
                proof {
                    assert(ivs@ =~= iv@.take(16));
                }
                Ok(aes256_cbc_encrypt(key, ivs, data))
            },
            Cipher::ChaCha20 => {
                let ivs = slice_subrange(iv, 0, 8);
                proof {
                    assert(ivs@ =~= iv@.take(8));
                }
                Ok(chacha20_xor(key, ivs, data))
            },
            Cipher::XChaCha20 => {
                let ivs = slice_subrange(iv, 0, 24);
                proof {
                    assert(ivs@ =~= iv@.take(24));
                }
                Ok(xchacha20_xor(key, ivs, data))
            },
        }
    }

    /// Decrypt `data`; the exact inverse of `encrypt_data` under the same
    /// key and IV.
    pub fn decrypt_data(&self, data: &[u8], key: &[u8], iv: &[u8]) -> (r: Result<
        Vec<u8>,
        SrdError,
    >)
        requires
            key@.len() == 32,
            iv@.len() == 32,
            data@.len() < 0x1000_0000,
        ensures
            match r {
                Ok(out) => (*self is AES256 ==> data@.len() % 16 == 0) && out@ == spec_decrypt(
                    *self,
                    key@,
                    iv@,
                    data@,
                ) && out@.len() == data@.len(),
                Err(e) => *self is AES256 && data@.len() % 16 != 0 && e is InvalidDataLength,
            },
    {
        match self {
            Cipher::AES256 => {
                if data.len() % 16 != 0 {
                    return Err(SrdError::InvalidDataLength);
                }
                let ivs = slice_subrange(iv, 0, 16);
                proof {
                    assert(ivs@ =~= iv@.take(16));
                }
                Ok(aes256_cbc_decrypt(key, ivs, data))
            },
            Cipher::ChaCha20 => {
                let ivs = slice_subrange(iv, 0, 8);
                proof {
                    assert(ivs@ =~= iv@.take(8));
                }
                Ok(chacha20_xor(key, ivs, data))
            },
            Cipher::XChaCha20 => {
                let ivs = slice_subrange(iv, 0, 24);
                proof {
                    assert(ivs@ =~= iv@.take(24));
                }
                Ok(xchacha20_xor(key, ivs, data))
            },
        }
    }

    /// The wire flag bit of this cipher.
    pub fn flag(&self) -> (r: u32)
        ensures
            r == spec_flag(*self),
    {
        match self {
            Cipher::AES256 => AES256_FLAG,
            Cipher::ChaCha20 => CHACHA20_FLAG,
            Cipher::XChaCha20 => XCHACHA20_FLAG,
        }
    }

    /// Decode a flag word into the ciphers it advertises, in fixed order.
    pub fn from_flags(flags: u32) -> (r: Vec<Cipher>)
        ensures
            r@ == spec_from_flags(flags),
    {
        let mut ciphers: Vec<Cipher> = Vec::new();
        if flags & AES256_FLAG != 0 {
            ciphers.push(Cipher::AES256);
        }
        if flags & CHACHA20_FLAG != 0 {
            ciphers.push(Cipher::ChaCha20);
        }
        if flags & XCHACHA20_FLAG != 0 {
            ciphers.push(Cipher::XChaCha20);
        }
        proof {
            assert(ciphers@ =~= spec_from_flags(flags));
        }
        ciphers
    }

    /// Pick the best of the offered ciphers; an empty offer fails with
    /// `Cipher`.
    pub fn best_cipher(ciphers: &[Cipher]) -> (r: Result<Cipher, SrdError>)
        ensures
            match r {
                Ok(c) => ciphers@.len() > 0 && c == spec_best_cipher(ciphers@),
                Err(e) => ciphers@.len() == 0 && e is Cipher,
            },
    {
        if contains_cipher(ciphers, Cipher::XChaCha20) {
            return Ok(Cipher::XChaCha20);
        }
        if contains_cipher(ciphers, Cipher::ChaCha20) {
            return Ok(Cipher::ChaCha20);
        }
        if contains_cipher(ciphers, Cipher::AES256) {
            return Ok(Cipher::AES256);
        }
        proof {
            if ciphers@.len() > 0 {
                let c0 = ciphers@[0];
                assert(ciphers@.contains(c0));
                assert(c0 is AES256 || c0 is ChaCha20 || c0 is XChaCha20);
            }
        }
        Err(SrdError::Cipher)
    }
}


/// The union of the flag bits of a cipher list.
pub open spec fn spec_cipher_flags(cs: Seq<Cipher>) -> u32
    decreases cs.len(),
{
    if cs.len() == 0 {
        0u32
    } else {
        spec_cipher_flags(cs.drop_last()) | spec_flag(cs.last())
    }
}

/// A cipher list's flag union is zero exactly when the list is empty.
pub proof fn lemma_cipher_flags_zero(cs: Seq<Cipher>)
    ensures
        (spec_cipher_flags(cs) == 0) <==> cs.len() == 0,
    decreases cs.len(),
{
    if cs.len() > 0 {
        let x = spec_cipher_flags(cs.drop_last());
        let y = spec_flag(cs.last());
        assert(y != 0);
        assert(y == 1 || y == 0x100 || y == 0x200);
        assert(forall|a: u32, b: u32| b != 0 ==> (a | b) != 0) by (bit_vector);
    }
}

/// OR together the flag bits of the given ciphers.
pub fn cipher_flags_union(cs: &[Cipher]) -> (r: u32)
    ensures
        r == spec_cipher_flags(cs@),
        (r == 0) <==> cs@.len() == 0,
{
    let n = cs.len();
    let mut flags: u32 = 0;
    let mut i: usize = 0;
    while i < n
        invariant
            i <= n,
            n == cs@.len(),
            flags == spec_cipher_flags(cs@.take(i as int)),
        decreases n - i,
    {
        proof {
            assert(cs@.take(i + 1).drop_last() =~= cs@.take(i as int));
            assert(cs@.take(i + 1).last() == cs@[i as int]);
        }
        flags = flags | vstd::slice::slice_index_get(cs, i).flag();
        i = i + 1;
    }
    proof {
        assert(cs@.take(n as int) =~= cs@);
        lemma_cipher_flags_zero(cs@);
    }
    flags
}

/// The offered ciphers that this side also supports, in offer order.
pub open spec fn spec_common_ciphers(offered: Seq<Cipher>, mine: Seq<Cipher>) -> Seq<Cipher>
    decreases offered.len(),
{
    if offered.len() == 0 {
        Seq::<Cipher>::empty()
    } else {
        let rest = spec_common_ciphers(offered.drop_last(), mine);
        if mine.contains(offered.last()) {
            rest.push(offered.last())
        } else {
            rest
        }
    }
}

/// Filter the offered ciphers down to those this side supports.
pub fn common_ciphers(offered: &[Cipher], mine: &[Cipher]) -> (r: Vec<Cipher>)
    ensures
        r@ == spec_common_ciphers(offered@, mine@),
{
    let n = offered.len();
    let mut out: Vec<Cipher> = Vec::new();
    let mut i: usize = 0;
    while i < n
        invariant
            i <= n,
            n == offered@.len(),
            out@ == spec_common_ciphers(offered@.take(i as int), mine@),
        decreases n - i,
    {
        proof {
            assert(offered@.take(i + 1).drop_last() =~= offered@.take(i as int));
            assert(offered@.take(i + 1).last() == offered@[i as int]);
        }
        let c = *vstd::slice::slice_index_get(offered, i);
        if contains_cipher(mine, c) {
            out.push(c);
        }
        i = i + 1;
    }
    proof {
        assert(offered@.take(n as int) =~= offered@);
    }
    out
}

/// The flag word advertising exactly one cipher decodes back to that
/// cipher alone, and the preference policy picks it: the server adopts
/// exactly the cipher the client chose.
pub proof fn lemma_cipher_flag_round_trip(c: Cipher)
    ensures
        spec_from_flags(spec_flag(c)) =~= seq![c],
        spec_best_cipher(spec_from_flags(spec_flag(c))) == c,
{
    assert(0x1u32 & 0x1u32 != 0 && 0x1u32 & 0x100u32 == 0 && 0x1u32 & 0x200u32 == 0)
        by (bit_vector);
    assert(0x100u32 & 0x1u32 == 0 && 0x100u32 & 0x100u32 != 0 && 0x100u32 & 0x200u32 == 0)
        by (bit_vector);
    assert(0x200u32 & 0x1u32 == 0 && 0x200u32 & 0x100u32 == 0 && 0x200u32 & 0x200u32 != 0)
        by (bit_vector);
    assert(spec_from_flags(spec_flag(c)) =~= seq![c]);
    assert(seq![c][0] == c);
    assert(seq![c].contains(c));
    assert(forall|x: Cipher| #[trigger] seq![c].contains(x) ==> x == c) by {
        assert forall|x: Cipher| #[trigger] seq![c].contains(x) implies x == c by {
            let i = choose|i: int| 0 <= i < seq![c].len() && seq![c][i] == x;
            assert(seq![c][i] == x);
        }
    }
}

} // verus!
