//! Content addresses: 16-byte values taken from a SHA-256 digest, with a
//! URL-safe base64 text form.

use vstd::prelude::*;

verus! {

/// The SHA-256 digest of a byte sequence.
pub uninterp spec fn sha256_of(b: Seq<u8>) -> Seq<u8>;

/// The URL-safe base64 text of a byte sequence, without padding.
pub uninterp spec fn base64url_text(b: Seq<u8>) -> Seq<char>;

/// The bytes that a URL-safe unpadded base64 text stands for, when it is valid.
pub uninterp spec fn base64url_bytes(s: Seq<char>) -> Option<Seq<u8>>;

/// The content address of a byte sequence: the first 16 bytes of its SHA-256 digest.
pub open spec fn digest16(b: Seq<u8>) -> Seq<u8> {
    sha256_of(b).subrange(0, 16)
}

/// The 16 bytes that a hash text stands for: it must decode, to exactly 16 bytes.
pub open spec fn hash_text_bytes(s: Seq<char>) -> Option<Seq<u8>> {
    match base64url_bytes(s) {
        Some(b) => if b.len() == 16 { Some(b) } else { None },
        None => None,
    }
}

/// Relies on sha2's `Sha256::digest`: the 32-byte SHA-256 digest of the input.
#[verifier::external_body]
fn sha256_digest(content: &[u8]) -> (r: Vec<u8>)
    ensures
        r@ == sha256_of(content@),
        r@.len() == 32,
{
    <sha2::Sha256 as sha2::Digest>::digest(content).to_vec()
}

/// Relies on base64's `URL_SAFE_NO_PAD.encode`: the text form of the bytes, four
/// symbols per three bytes with no padding, which that engine's `decode` turns
/// back into the same bytes.
#[verifier::external_body]
fn base64url_encode(b: &[u8]) -> (r: String)
    ensures
        r@ == base64url_text(b@),
        r@.len() == (4 * b@.len() + 2) / 3,
        base64url_bytes(r@) == Some(b@),
{
    base64::Engine::encode(&base64::engine::general_purpose::URL_SAFE_NO_PAD, b)
}

#[verifier::external_type_specification]
#[verifier::external_body]
pub struct ExDecodeError(base64::DecodeError);

/// Relies on base64's `URL_SAFE_NO_PAD.decode`: the bytes of a valid text, or an
/// error when the text has a symbol outside the alphabet, an impossible length
/// or non-zero trailing bits; so a text it accepts is the encoding of its bytes.
#[verifier::external_body]
fn base64url_decode(s: &str) -> (r: Result<Vec<u8>, base64::DecodeError>)
    ensures
        r is Ok <==> base64url_bytes(s@) is Some,
        r is Ok ==> Some(r->Ok_0@) == base64url_bytes(s@),
        r is Ok ==> base64url_text(r->Ok_0@) == s@,
{
    base64::Engine::decode(&base64::engine::general_purpose::URL_SAFE_NO_PAD, s)
}

/// Why a text is not a hash.
#[derive(Clone, Copy, Debug, PartialEq, Eq, Structural)]
pub enum HashTextError {
    /// The text is not URL-safe unpadded base64.
    NotBase64,
    /// The text decodes, but not to 16 bytes.
    WrongLength,
}

/// Sixteen bytes, ordered by byte value.
#[derive(Clone, Copy, Debug, Eq, PartialOrd, Ord, Hash)]
pub struct Binary16 {
    pub value: [u8; 16],
}

/// Two 16-byte values are equal exactly when their bytes are.
pub proof fn lemma_binary16_eq(a: Binary16, b: Binary16)
    requires
        a.value@ == b.value@,
    ensures
        a == b,
{
    assert(a.value@[0] == b.value@[0]);
    assert(a.value =~= b.value);
}

/// Byte `i` (0 is the lowest) of the little-endian form of `x`.
pub open spec fn le_byte(x: u64, i: int) -> u8 {
    ((x >> ((8 * i) as u64)) & 0xff) as u8
}

impl Binary16 {
    pub open spec fn bytes(&self) -> Seq<u8> {
        self.value@
    }

    /// Parses the URL-safe unpadded base64 form of 16 bytes.
    pub fn from_string(s: &str) -> (r: Result<Binary16, HashTextError>)
        ensures
            match r {
                Ok(b) => hash_text_bytes(s@) == Some(b.bytes()) && base64url_text(b.bytes()) == s@,
                Err(e) => hash_text_bytes(s@) is None && (e == HashTextError::NotBase64
                    <==> base64url_bytes(s@) is None),
            },
    {
        match base64url_decode(s) {
            Err(_) => Err(HashTextError::NotBase64),
            Ok(v) => {
                if v.len() != 16 {
                    Err(HashTextError::WrongLength)
                } else {
                    let mut value: [u8; 16] = [0u8; 16];
                    let mut i: usize = 0;
                    while i < 16
                        invariant
                            0 <= i <= 16,
                            v@.len() == 16,
                            forall|j: int| 0 <= j < i ==> value@[j] == v@[j],
                        decreases 16 - i,
                    {
                        value[i] = v[i];
                        i = i + 1;
                    }
                    assert(value@ =~= v@);
                    Ok(Binary16 { value })
                }
            },
        }
    }

    pub fn from_raw(value: [u8; 16]) -> (r: Binary16)
        ensures
            r.value == value,
    {
        Binary16 { value }
    }

    /// `low` gives bytes 0 to 7 and `high` bytes 8 to 15, each little-endian.
    pub fn from_u64s(low: u64, high: u64) -> (r: Binary16)
        ensures
            forall|i: int| 0 <= i < 8 ==> r.value@[i] == le_byte(low, i),
            forall|i: int| 8 <= i < 16 ==> r.value@[i] == le_byte(high, i - 8),
    {
        let mut value: [u8; 16] = [0u8; 16];
        let mut i: usize = 0;
        while i < 8
            invariant
                0 <= i <= 8,
                forall|j: int| 0 <= j < i ==> value@[j] == le_byte(low, j),
                forall|j: int| 8 <= j < 8 + i ==> value@[j] == le_byte(high, j - 8),
            decreases 8 - i,
        {
            value[i] = ((low >> ((8 * i) as u64)) & 0xff) as u8;
            value[i + 8] = ((high >> ((8 * i) as u64)) & 0xff) as u8;
            i = i + 1;
        }
        Binary16 { value }
    }

    pub fn is_zero(&self) -> (r: bool)
        ensures
            r == (forall|i: int| 0 <= i < 16 ==> self.value@[i] == 0),
    {
        let mut i: usize = 0;
        while i < 16
            invariant
                0 <= i <= 16,
                forall|j: int| 0 <= j < i ==> self.value@[j] == 0,
            decreases 16 - i,
        {
            if self.value[i] != 0 {
                return false;
            }
            i = i + 1;
        }
        true
    }

    pub fn zero() -> (r: Binary16)
        ensures
            forall|i: int| 0 <= i < 16 ==> r.value@[i] == 0,
    {
        Binary16 { value: [0u8; 16] }
    }

    /// The URL-safe unpadded base64 form; it parses back to the same bytes.
    pub fn to_string(&self) -> (r: String)
        ensures
            r@ == base64url_text(self.bytes()),
            r@.len() == 22,
            hash_text_bytes(r@) == Some(self.bytes()),
    {
        let r = base64url_encode(&self.value);
        r
    }

    pub fn equals(&self, other: &Binary16) -> (r: bool)
        ensures
            r == (self.bytes() == other.bytes()),
            r == (*self == *other),
    {
        let mut i: usize = 0;
        while i < 16
            invariant
                0 <= i <= 16,
                forall|j: int| 0 <= j < i ==> self.value@[j] == other.value@[j],
            decreases 16 - i,
        {
            if self.value[i] != other.value[i] {
                return false;
            }
            i = i + 1;
        }
        proof {
            assert(self.value@ =~= other.value@);
            lemma_binary16_eq(*self, *other);
        }
        true
    }
}

impl PartialEq for Binary16 {
    fn eq(&self, other: &Binary16) -> (r: bool) {
        self.equals(other)
    }
}

impl vstd::std_specs::cmp::PartialEqSpecImpl for Binary16 {
    open spec fn obeys_eq_spec() -> bool {
        true
    }

    open spec fn eq_spec(&self, other: &Binary16) -> bool {
        *self == *other
    }
}

/// The content address of a byte sequence.
#[derive(Clone, Copy, Debug, Eq, PartialOrd, Ord, Hash)]
pub struct ContentHash(pub Binary16);

impl ContentHash {
    pub open spec fn bytes(&self) -> Seq<u8> {
        self.0.value@
    }

    pub fn from_string(s: &str) -> (r: Result<ContentHash, HashTextError>)
        ensures
            match r {
                Ok(h) => hash_text_bytes(s@) == Some(h.bytes()) && base64url_text(h.bytes()) == s@,
                Err(e) => hash_text_bytes(s@) is None && (e == HashTextError::NotBase64
                    <==> base64url_bytes(s@) is None),
            },
    {
        match Binary16::from_string(s) {
            Ok(b) => Ok(ContentHash(b)),
            Err(e) => Err(e),
        }
    }

    pub fn from_raw(id: [u8; 16]) -> (r: ContentHash)
        ensures
            r.0.value == id,
    {
        ContentHash(Binary16::from_raw(id))
    }

    pub fn is_zero(&self) -> (r: bool)
        ensures
            r == (forall|i: int| 0 <= i < 16 ==> self.0.value@[i] == 0),
    {
        self.0.is_zero()
    }

    /// The reserved sentinel, all sixteen bytes zero.
    pub fn zero() -> (r: ContentHash)
        ensures
            forall|i: int| 0 <= i < 16 ==> r.0.value@[i] == 0,
    {
        ContentHash(Binary16::zero())
    }

    /// The address of `content`: the first 16 bytes of its SHA-256 digest.
    pub fn from_content(content: &[u8]) -> (r: ContentHash)
        ensures
            r.bytes() == digest16(content@),
    {
        let digest = sha256_digest(content);
        let mut value: [u8; 16] = [0u8; 16];
        let mut i: usize = 0;
        while i < 16
            invariant
                0 <= i <= 16,
                digest@.len() == 32,
                forall|j: int| 0 <= j < i ==> value@[j] == digest@[j],
            decreases 16 - i,
        {
            value[i] = digest[i];
            i = i + 1;
        }
        assert(value@ =~= digest@.subrange(0, 16));
        ContentHash(Binary16 { value })
    }

    /// The canonical text form; it parses back to this same hash.
    pub fn to_string(&self) -> (r: String)
        ensures
            r@ == base64url_text(self.bytes()),
            r@.len() == 22,
            hash_text_bytes(r@) == Some(self.bytes()),
    {
        self.0.to_string()
    }

    pub fn equals(&self, other: &ContentHash) -> (r: bool)
        ensures
            r == (self.bytes() == other.bytes()),
            r == (*self == *other),
    {
        let r = self.0.equals(&other.0);
        r
    }
}

impl PartialEq for ContentHash {
    fn eq(&self, other: &ContentHash) -> (r: bool) {
        self.equals(other)
    }
}

impl vstd::std_specs::cmp::PartialEqSpecImpl for ContentHash {
    open spec fn obeys_eq_spec() -> bool {
        true
    }

    open spec fn eq_spec(&self, other: &ContentHash) -> bool {
        *self == *other
    }
}

} // verus!
