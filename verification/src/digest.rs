use vstd::prelude::*;
use vstd::string::StringSliceAdditionalSpecFns;

verus! {

/// SHA-256 of the given bytes, as computed by the `sha2` crate.
pub uninterp spec fn sha256(data: Seq<u8>) -> Seq<u8>;

/// Calls `sha2::Sha256::digest` on the bytes and converts the 32-byte output to an array.
/// The contract claims only that the result is the SHA-256 of exactly these bytes.
#[verifier::external_body]
pub(crate) fn sha256_array(data: &[u8]) -> (r: [u8; 32])
    ensures
        r@ == sha256(data@),
{
    <sha2::Sha256 as sha2::Digest>::digest(data).into()
}

/// Byte-wise equality of two byte slices.
pub fn bytes_equal(a: &[u8], b: &[u8]) -> (r: bool)
    ensures
        r == (a@ == b@),
{
    if a.len() != b.len() {
        return false;
    }
    let mut i: usize = 0;
    while i < a.len()
        invariant
            a@.len() == b@.len(),
            i <= a@.len(),
            forall|j: int| 0 <= j < i ==> a@[j] == b@[j],
        decreases a@.len() - i,
    {
        if a[i] != b[i] {
            return false;
        }
        i += 1;
    }
    assert(a@ =~= b@);
    true
}

/// SHA-256 digest of the exact bytes observed by the executor.
#[derive(Clone, Copy, Debug)]
pub struct ExactBytesDigest(pub [u8; 32]);

impl PartialEq for ExactBytesDigest {
    fn eq(&self, other: &Self) -> (r: bool) {
        bytes_equal(&self.0, &other.0)
    }
}

impl Eq for ExactBytesDigest {}

impl vstd::std_specs::cmp::PartialEqSpecImpl for ExactBytesDigest {
    open spec fn obeys_eq_spec() -> bool {
        true
    }

    open spec fn eq_spec(&self, other: &Self) -> bool {
        self.0@ == other.0@
    }
}

impl ExactBytesDigest {
    /// The 32 digest bytes.
    pub open spec fn bytes(self) -> Seq<u8> {
        self.0@
    }

    pub fn new(bytes: &[u8]) -> (r: Self)
        ensures
            r.bytes() == sha256(bytes@),
    {
        Self(sha256_array(bytes))
    }

    pub fn as_bytes(&self) -> (r: &[u8; 32])
        ensures
            r@ == self.bytes(),
    {
        &self.0
    }

    pub fn from_array(bytes: [u8; 32]) -> (r: Self)
        ensures
            r.bytes() == bytes@,
    {
        Self(bytes)
    }

    /// Digest equality over the 32 bytes.
    pub fn same(&self, other: &Self) -> (r: bool)
        ensures
            r == (self.bytes() == other.bytes()),
    {
        bytes_equal(&self.0, &other.0)
    }

    /// Lower-case hexadecimal rendering: 64 ASCII characters, two per byte, high nibble first.
    pub fn hex_bytes(&self) -> (r: Vec<u8>)
        ensures
            r@ == hex_encode(self.bytes()),
    {
        encode_hex(&self.0)
    }
}

/// Executor-derived fingerprint of metadata that must survive a transaction.
#[derive(Clone, Copy, Debug)]
pub struct MetadataFingerprint(pub [u8; 32]);

impl MetadataFingerprint {
    pub open spec fn bytes(self) -> Seq<u8> {
        self.0@
    }

    pub fn new(executor_canonical_metadata: &[u8]) -> (r: Self)
        ensures
            r.bytes() == sha256(executor_canonical_metadata@),
    {
        Self(sha256_array(executor_canonical_metadata))
    }

    pub fn as_bytes(&self) -> (r: &[u8; 32])
        ensures
            r@ == self.bytes(),
    {
        &self.0
    }

    pub fn same(&self, other: &Self) -> (r: bool)
        ensures
            r == (self.bytes() == other.bytes()),
    {
        bytes_equal(&self.0, &other.0)
    }
}

impl PartialEq for MetadataFingerprint {
    fn eq(&self, other: &Self) -> (r: bool) {
        bytes_equal(&self.0, &other.0)
    }
}

impl Eq for MetadataFingerprint {}

impl vstd::std_specs::cmp::PartialEqSpecImpl for MetadataFingerprint {
    open spec fn obeys_eq_spec() -> bool {
        true
    }

    open spec fn eq_spec(&self, other: &Self) -> bool {
        self.0@ == other.0@
    }
}

/// The lower-case ASCII hexadecimal digit for a value below 16.
pub open spec fn hex_digit(v: int) -> u8 {
    if v < 10 {
        (48 + v) as u8
    } else {
        (87 + v) as u8
    }
}

/// Lower-case hexadecimal encoding of a byte string.
pub open spec fn hex_encode(bytes: Seq<u8>) -> Seq<u8> {
    Seq::new(
        2 * bytes.len(),
        |i: int|
            if i % 2 == 0 {
                hex_digit(bytes[i / 2] as int / 16)
            } else {
                hex_digit(bytes[i / 2] as int % 16)
            },
    )
}

/// The value of one ASCII hexadecimal digit of either case.
pub open spec fn hex_nibble(c: u8) -> Option<u8> {
    if 48 <= c <= 57 {
        Some((c - 48) as u8)
    } else if 97 <= c <= 102 {
        Some((c - 97 + 10) as u8)
    } else if 65 <= c <= 70 {
        Some((c - 65 + 10) as u8)
    } else {
        None
    }
}

/// Decoding of exactly 64 hexadecimal digits of either case into 32 bytes.
pub open spec fn hex_decode_sha256(text: Seq<u8>) -> Option<Seq<u8>> {
    if text.len() == 64 && forall|i: int| 0 <= i < 64 ==> #[trigger] hex_nibble(text[i]) is Some {
        Some(
            Seq::new(
                32,
                |i: int| (hex_nibble(text[2 * i])->0 * 16 + hex_nibble(text[2 * i + 1])->0) as u8,
            ),
        )
    } else {
        None
    }
}

fn hex_char(v: u8) -> (r: u8)
    requires
        v < 16,
    ensures
        r == hex_digit(v as int),
{
    if v < 10 {
        48 + v
    } else {
        87 + v
    }
}

fn encode_hex(bytes: &[u8]) -> (r: Vec<u8>)
    requires
        bytes@.len() <= usize::MAX / 2,
    ensures
        r@ == hex_encode(bytes@),
{
    let mut out: Vec<u8> = Vec::new();
    let mut i: usize = 0;
    while i < bytes.len()
        invariant
            i <= bytes@.len(),
            bytes@.len() <= usize::MAX / 2,
            out@.len() == 2 * i,
            forall|j: int| 0 <= j < 2 * i ==> out@[j] == #[trigger] hex_encode(bytes@)[j],
        decreases bytes@.len() - i,
    {
        let b = bytes[i];
        out.push(hex_char(b / 16));
        out.push(hex_char(b % 16));
        i += 1;
    }
    assert(out@ =~= hex_encode(bytes@));
    out
}

/// Value of one hexadecimal digit of either case, or `None`.
pub fn decode_hex_nibble(value: u8) -> (r: Option<u8>)
    ensures
        r == hex_nibble(value),
{
    if 48 <= value && value <= 57 {
        Some(value - 48)
    } else if 97 <= value && value <= 102 {
        Some(value - 97 + 10)
    } else if 65 <= value && value <= 70 {
        Some(value - 65 + 10)
    } else {
        None
    }
}

/// Decodes exactly 64 hexadecimal characters into the 32 bytes of a SHA-256 digest.
pub fn decode_sha256_hex(value: &str) -> (r: Option<[u8; 32]>)
    ensures
        match r {
            Some(a) => hex_decode_sha256(value.spec_bytes()) == Some(a@),
            None => hex_decode_sha256(value.spec_bytes()) is None,
        },
{
    let text = value.as_bytes();
    if text.len() != 64 {
        return None;
    }
    let mut decoded: [u8; 32] = [0u8; 32];
    let mut index: usize = 0;
    while index < 32
        invariant
            text@ == value.spec_bytes(),
            text@.len() == 64,
            index <= 32,
            decoded@.len() == 32,
            forall|i: int| 0 <= i < 2 * index ==> #[trigger] hex_nibble(text@[i]) is Some,
            forall|i: int|
                0 <= i < index ==> #[trigger] decoded@[i] == (hex_nibble(text@[2 * i])->0 * 16
                    + hex_nibble(text@[2 * i + 1])->0) as u8,
        decreases 32 - index,
    {
        let high = match decode_hex_nibble(text[2 * index]) {
            Some(h) => h,
            None => {
                return None;
            },
        };
        let low = match decode_hex_nibble(text[2 * index + 1]) {
            Some(l) => l,
            None => {
                return None;
            },
        };
        decoded[index] = high * 16 + low;
        index += 1;
    }
    assert(decoded@ =~= hex_decode_sha256(text@)->0);
    Some(decoded)
}

/// Hex encoding then decoding gives back any 32-byte digest: the wire form of a digest is
/// read back as the same digest.
pub proof fn lemma_hex_round_trip(bytes: Seq<u8>)
    requires
        bytes.len() == 32,
    ensures
        hex_decode_sha256(hex_encode(bytes)) == Some(bytes),
{
    let text = hex_encode(bytes);
    assert forall|i: int| 0 <= i < 64 implies #[trigger] hex_nibble(text[i]) is Some by {
        let b = bytes[i / 2] as int;
        assert(0 <= b / 16 < 16 && 0 <= b % 16 < 16);
    }
    let decoded = hex_decode_sha256(text)->0;
    assert forall|i: int| 0 <= i < 32 implies #[trigger] decoded[i] == bytes[i] by {
        let b = bytes[i] as int;
        assert((2 * i) / 2 == i && (2 * i + 1) / 2 == i);
        assert((2 * i) % 2 == 0 && (2 * i + 1) % 2 == 1);
        assert(b == (b / 16) * 16 + b % 16);
    }
    assert(decoded =~= bytes);
}

} // verus!
