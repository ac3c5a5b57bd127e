//! Certificate thumbprints and the errors of certificate work.
use vstd::prelude::*;
use vstd::string::StringSliceAdditionalSpecFns;
use vstd::string::StrSliceExecFns;
use crate::text::{decimal, hex_fixed, push_decimal, push_hex_fixed, push_text, decode_utf16_lossy};

verus! {

#[derive(Debug, Clone, Copy, PartialEq, Eq, Structural)]
pub enum UnsupportedKeyTypeReason {
    NotCng,
    UnsupportedAlgorithm,
}

#[derive(Debug, Clone, Copy, PartialEq, Eq, Structural)]
pub enum SigningFailedReason {
    InvalidParameter,
    NotSupported,
    InvalidKey,
    InternalError,
    Unknown(i32),
}

impl UnsupportedKeyTypeReason {
    pub open spec fn spec_name(&self) -> &'static str {
        match self {
            UnsupportedKeyTypeReason::NotCng => "NotCng",
            UnsupportedKeyTypeReason::UnsupportedAlgorithm => "UnsupportedAlgorithm",
        }
    }

    /// The reason's name.
    pub fn name(&self) -> (r: &'static str)
        ensures
            r == self.spec_name(),
    {
        match self {
            UnsupportedKeyTypeReason::NotCng => "NotCng",
            UnsupportedKeyTypeReason::UnsupportedAlgorithm => "UnsupportedAlgorithm",
        }
    }
}

/// The status codes a signing call fails with, as unsigned words.
pub const NTE_INVALID_PARAMETER: u32 = 0x8009_0027;
pub const NTE_NOT_SUPPORTED: u32 = 0x8009_0029;
pub const NTE_INVALID_KEY: u32 = 0x8009_0003;
pub const NTE_INTERNAL_ERROR: u32 = 0x8009_001A;

impl SigningFailedReason {
    /// The reason a status code names; any other code is kept as unknown.
    pub fn from(value: i32) -> (r: Self)
        ensures
            value as u32 == NTE_INVALID_PARAMETER ==> r == SigningFailedReason::InvalidParameter,
            value as u32 == NTE_NOT_SUPPORTED ==> r == SigningFailedReason::NotSupported,
            value as u32 == NTE_INVALID_KEY ==> r == SigningFailedReason::InvalidKey,
            value as u32 == NTE_INTERNAL_ERROR ==> r == SigningFailedReason::InternalError,
            value as u32 != NTE_INVALID_PARAMETER && value as u32 != NTE_NOT_SUPPORTED && value as u32
                != NTE_INVALID_KEY && value as u32 != NTE_INTERNAL_ERROR ==> r
                == SigningFailedReason::Unknown(value),
    {
        let code = value as u32;
        if code == NTE_INVALID_PARAMETER {
            SigningFailedReason::InvalidParameter
        } else if code == NTE_NOT_SUPPORTED {
            SigningFailedReason::NotSupported
        } else if code == NTE_INVALID_KEY {
            SigningFailedReason::InvalidKey
        } else if code == NTE_INTERNAL_ERROR {
            SigningFailedReason::InternalError
        } else {
            SigningFailedReason::Unknown(value)
        }
    }
}

impl SigningFailedReason {
    /// What the reason says; an unknown code in eight hex digits.
    pub fn to_string(&self) -> (r: String)
        ensures
            r@ == match self {
                SigningFailedReason::InvalidParameter => "Invalid parameter - check padding info structure"@,
                SigningFailedReason::NotSupported => "Operation not supported - key may not support SHA256 with PKCS1 padding"@,
                SigningFailedReason::InvalidKey => "Invalid key handle"@,
                SigningFailedReason::InternalError => "Internal error in cryptographic provider"@,
                SigningFailedReason::Unknown(code) => "Unknown error: 0x"@ + hex_fixed(*code as u32 as nat, 8, false),
            },
    {
        let mut s = String::new();
        match self {
            SigningFailedReason::InvalidParameter => push_text(&mut s, "Invalid parameter - check padding info structure"),
            SigningFailedReason::NotSupported => push_text(
                &mut s,
                "Operation not supported - key may not support SHA256 with PKCS1 padding",
            ),
            SigningFailedReason::InvalidKey => push_text(&mut s, "Invalid key handle"),
            SigningFailedReason::InternalError => push_text(&mut s, "Internal error in cryptographic provider"),
            SigningFailedReason::Unknown(code) => {
                push_text(&mut s, "Unknown error: 0x");
                push_hex_fixed(&mut s, *code as u32 as u64, 8, false);
            },
        }
        proof {
            assert(Seq::<char>::empty() + s@ =~= s@);
        }
        s
    }
}

/// The errors of certificate store work.
#[derive(Debug)]
pub enum CertStoreError {
    UnsupportedKeyType(UnsupportedKeyTypeReason),
    StoreOpenFailed { store_name: String, error_code: u32 },
    StoreCloseFailed { error_code: u32 },
    ThumbprintNotFound(Thumbprint, u32),
    CertificateNotFound { thumbprint: String, error_code: u32 },
    InvalidThumbprint { thumbprint: String, reason: String },
    InvalidStoreHandle,
    CertificateDataMissing,
    PrivateKeyAcquisitionFailed { error_code: u32 },
    SigningFailed(SigningFailedReason),
}

impl CertStoreError {
    /// What the error says, with the names, codes and texts it carries.
    pub fn to_string(&self) -> (r: String)
        ensures
            r@ == match self {
                CertStoreError::UnsupportedKeyType(reason) => "Unsupported key type: "@ + reason.spec_name()@,
                CertStoreError::StoreOpenFailed { store_name, error_code } => "Failed to open certificate store '"@
                    + store_name@ + "': error "@ + decimal(*error_code as nat),
                CertStoreError::StoreCloseFailed { error_code } => "Failed to close certificate store: error "@
                    + decimal(*error_code as nat),
                CertStoreError::ThumbprintNotFound(thumbprint, error_code) => "Certificate with thumbprint '"@
                    + hex_chars(thumbprint.0@, true) + "' not found: error "@ + decimal(*error_code as nat),
                CertStoreError::CertificateNotFound { thumbprint, error_code } => "Certificate '"@ + thumbprint@
                    + "' not found: error "@ + decimal(*error_code as nat),
                CertStoreError::InvalidThumbprint { thumbprint, reason } => "Invalid thumbprint '"@ + thumbprint@
                    + "': "@ + reason@,
                CertStoreError::InvalidStoreHandle => "Invalid store handle"@,
                CertStoreError::CertificateDataMissing => "Certificate data is missing"@,
                CertStoreError::PrivateKeyAcquisitionFailed { error_code } => "Failed to acquire private key: error "@
                    + decimal(*error_code as nat),
                CertStoreError::SigningFailed(reason) => "Signing failed: "@ + match reason {
                    SigningFailedReason::InvalidParameter => "Invalid parameter - check padding info structure"@,
                    SigningFailedReason::NotSupported => "Operation not supported - key may not support SHA256 with PKCS1 padding"@,
                    SigningFailedReason::InvalidKey => "Invalid key handle"@,
                    SigningFailedReason::InternalError => "Internal error in cryptographic provider"@,
                    SigningFailedReason::Unknown(code) => "Unknown error: 0x"@ + hex_fixed(*code as u32 as nat, 8, false),
                },
            },
    {
        let mut s = String::new();
        match self {
            CertStoreError::UnsupportedKeyType(reason) => {
                push_text(&mut s, "Unsupported key type: ");
                push_text(&mut s, reason.name());
            },
            CertStoreError::StoreOpenFailed { store_name, error_code } => {
                push_text(&mut s, "Failed to open certificate store '");
                push_text(&mut s, store_name.as_str());
                push_text(&mut s, "': error ");
                push_decimal(&mut s, *error_code as u64);
            },
            CertStoreError::StoreCloseFailed { error_code } => {
                push_text(&mut s, "Failed to close certificate store: error ");
                push_decimal(&mut s, *error_code as u64);
            },
            CertStoreError::ThumbprintNotFound(thumbprint, error_code) => {
                push_text(&mut s, "Certificate with thumbprint '");
                let hex = thumbprint.to_hex_string();
                push_text(&mut s, hex.as_str());
                push_text(&mut s, "' not found: error ");
                push_decimal(&mut s, *error_code as u64);
            },
            CertStoreError::CertificateNotFound { thumbprint, error_code } => {
                push_text(&mut s, "Certificate '");
                push_text(&mut s, thumbprint.as_str());
                push_text(&mut s, "' not found: error ");
                push_decimal(&mut s, *error_code as u64);
            },
            CertStoreError::InvalidThumbprint { thumbprint, reason } => {
                push_text(&mut s, "Invalid thumbprint '");
                push_text(&mut s, thumbprint.as_str());
                push_text(&mut s, "': ");
                push_text(&mut s, reason.as_str());
            },
            CertStoreError::InvalidStoreHandle => push_text(&mut s, "Invalid store handle"),
            CertStoreError::CertificateDataMissing => push_text(&mut s, "Certificate data is missing"),
            CertStoreError::PrivateKeyAcquisitionFailed { error_code } => {
                push_text(&mut s, "Failed to acquire private key: error ");
                push_decimal(&mut s, *error_code as u64);
            },
            CertStoreError::SigningFailed(reason) => {
                push_text(&mut s, "Signing failed: ");
                let t = reason.to_string();
                push_text(&mut s, t.as_str());
            },
        }
        proof {
            assert(Seq::<char>::empty() + s@ =~= s@);
        }
        s
    }
}

/// The kind of a private key.
#[derive(Debug, Clone, Copy, PartialEq, Eq, Structural)]
pub enum KeyType {
    Rsa,
    Ecdsa,
    Ecdh,
    Unknown,
}

impl KeyType {
    pub open spec fn spec_text(&self) -> &'static str {
        match self {
            KeyType::Rsa => "RSA",
            KeyType::Ecdsa => "ECDSA",
            KeyType::Ecdh => "ECDH",
            KeyType::Unknown => "Unknown",
        }
    }

    /// The kind's name.
    pub fn to_string(&self) -> (r: String)
        ensures
            r@ == self.spec_text()@,
    {
        let mut s = String::new();
        let t = match self {
            KeyType::Rsa => "RSA",
            KeyType::Ecdsa => "ECDSA",
            KeyType::Ecdh => "ECDH",
            KeyType::Unknown => "Unknown",
        };
        push_text(&mut s, t);
        assert(s@ =~= self.spec_text()@);
        s
    }
}

/// What a private key is: its algorithm's name, its size and its kind.
#[derive(Debug, Clone)]
pub struct KeyInfo {
    pub algorithm: String,
    pub key_size: u32,
    pub key_type: KeyType,
}

impl KeyInfo {
    /// The algorithm, the size in bits and the kind, as one line.
    pub fn to_string(&self) -> (r: String)
        ensures
            r@ == "Algorithm: "@ + self.algorithm@ + ", Key Size: "@ + decimal(self.key_size as nat)
                + " bits, Type: "@ + self.key_type.spec_text()@,
    {
        let mut s = String::new();
        push_text(&mut s, "Algorithm: ");
        push_text(&mut s, self.algorithm.as_str());
        push_text(&mut s, ", Key Size: ");
        push_decimal(&mut s, self.key_size as u64);
        push_text(&mut s, " bits, Type: ");
        let t = self.key_type.to_string();
        push_text(&mut s, t.as_str());
        s
    }
}

/// `p` occurs in `s` as a run of consecutive characters.
pub open spec fn has_run(s: Seq<char>, p: Seq<char>) -> bool {
    exists|i: int| 0 <= i && i + p.len() <= s.len() && #[trigger] s.subrange(i, i + p.len()) == p
}

/// The kind of key an algorithm's name names: RSA, then ECDSA, then ECDH,
/// by the first of them that occurs in it.
pub open spec fn key_type_of(alg: Seq<char>) -> KeyType {
    if has_run(alg, seq!['R', 'S', 'A']) {
        KeyType::Rsa
    } else if has_run(alg, seq!['E', 'C', 'D', 'S', 'A']) {
        KeyType::Ecdsa
    } else if has_run(alg, seq!['E', 'C', 'D', 'H']) {
        KeyType::Ecdh
    } else {
        KeyType::Unknown
    }
}

/// Whether `p` occurs in `s` as a run of consecutive characters.
fn contains_run(s: &Vec<char>, p: &Vec<char>) -> (r: bool)
    ensures
        r == has_run(s@, p@),
{
    if p.len() > s.len() {
        return false;
    }
    let mut i: usize = 0;
    while i <= s.len() - p.len()
        invariant
            p@.len() <= s@.len(),
            i <= s@.len() - p@.len() + 1,
            forall|k: int| 0 <= k < i ==> #[trigger] s@.subrange(k, k + p@.len()) != p@,
        decreases s@.len() - p@.len() + 1 - i,
    {
        let mut j: usize = 0;
        let mut same = true;
        let sl = s.len();
        while j < p.len()
            invariant
                sl == s@.len(),
                p@.len() <= s@.len(),
                i + p@.len() <= s@.len(),
                j <= p@.len(),
                same == (forall|m: int| 0 <= m < j ==> s@[i + m] == p@[m]),
            decreases p@.len() - j,
        {
            if s[i + j] != p[j] {
                same = false;
            }
            j = j + 1;
        }
        if same {
            assert(s@.subrange(i as int, i + p@.len()) =~= p@);
            return true;
        }
        proof {
            let m = choose|m: int| 0 <= m < p@.len() && s@[i + m] != p@[m];
            assert(s@.subrange(i as int, i + p@.len())[m] != p@[m]);
        }
        i = i + 1;
    }
    proof {
        assert forall|k: int| 0 <= k && k + p@.len() <= s@.len() implies #[trigger] s@.subrange(k, k + p@.len()) != p@ by {
            assert(k < i);
        }
    }
    false
}

/// `widestring::U16String::from_vec(..).to_string_lossy()`, which hands the
/// units to `String::from_utf16_lossy`: the text that the UTF-16 `units`
/// decode to, each unit that does not decode standing as U+FFFD.
#[verifier::external_body]
fn utf16_lossy(units: &[u16]) -> (r: String)
    ensures
        r@ == decode_utf16_lossy(units@),
{
    widestring::U16String::from_vec(units.to_vec()).to_string_lossy()
}

/// What a private key is, from what its queries gave: a key that is not a
/// CNG key is refused; otherwise the algorithm's name is the text of its
/// UTF-16 units where its queries succeeded (status zero) and gave a name
/// of at least one unit, units that do not decode standing as U+FFFD, and
/// "Unknown" otherwise; the kind follows the
/// name; the size is the one the length query gave.
pub fn key_info(is_cng: bool, alg_status: i32, alg_units: &[u16], key_size: u32) -> (r: Result<KeyInfo, CertStoreError>)
    ensures
        !is_cng ==> (r matches Err(CertStoreError::UnsupportedKeyType(UnsupportedKeyTypeReason::NotCng))),
        is_cng ==> ({
            let alg = if alg_status == 0 && alg_units@.len() > 0 {
                decode_utf16_lossy(alg_units@)
            } else {
                "Unknown"@
            };
            &&& r matches Ok(k)
            &&& k.algorithm@ == alg
            &&& k.key_size == key_size
            &&& k.key_type == key_type_of(alg)
        }),
{
    if !is_cng {
        return Err(CertStoreError::UnsupportedKeyType(UnsupportedKeyTypeReason::NotCng));
    }
    let mut algorithm = String::new();
    if alg_status == 0 && alg_units.len() > 0 {
        algorithm = utf16_lossy(alg_units);
    } else {
        push_text(&mut algorithm, "Unknown");
        proof {
            assert(algorithm@ =~= "Unknown"@);
        }
    }
    let text = algorithm.as_str();
    let n = text.unicode_len();
    let mut chars: Vec<char> = Vec::new();
    let mut i: usize = 0;
    while i < n
        invariant
            n == text@.len(),
            i <= n,
            chars@ == text@.take(i as int),
        decreases n - i,
    {
        chars.push(text.get_char(i));
        proof {
            assert(text@.take(i + 1) =~= text@.take(i as int).push(text@[i as int]));
        }
        i = i + 1;
    }
    proof {
        assert(text@.take(n as int) =~= text@);
    }
    let key_type = if contains_run(&chars, &vec!['R', 'S', 'A']) {
        KeyType::Rsa
    } else if contains_run(&chars, &vec!['E', 'C', 'D', 'S', 'A']) {
        KeyType::Ecdsa
    } else if contains_run(&chars, &vec!['E', 'C', 'D', 'H']) {
        KeyType::Ecdh
    } else {
        KeyType::Unknown
    };
    Ok(KeyInfo { algorithm, key_size, key_type })
}

#[verifier::external_type_specification]
#[verifier::external_body]
pub struct ExFromHexError(hex::FromHexError);

/// The value of a hex digit, upper or lower case.
pub open spec fn hex_value(c: u8) -> Option<u8> {
    if 48 <= c <= 57 {
        Some((c - 48) as u8)
    } else if 65 <= c <= 70 {
        Some((c - 55) as u8)
    } else if 97 <= c <= 102 {
        Some((c - 87) as u8)
    } else {
        None
    }
}

/// `data` is two hex digits for each byte of `out`, high digit first.
pub open spec fn hex_decodes(data: Seq<u8>, out: Seq<u8>) -> bool {
    &&& data.len() == 2 * out.len()
    &&& forall|i: int|
        0 <= i < out.len() ==> hex_value(#[trigger] data[2 * i]) is Some && hex_value(data[2 * i + 1])
            is Some && out[i] == hex_value(data[2 * i])->0 * 16 + hex_value(data[2 * i + 1])->0
}

/// Whether the bytes are an even number of hex digits, as many pairs as
/// `n`.
pub open spec fn all_hex(data: Seq<u8>, n: int) -> bool {
    &&& data.len() == 2 * n
    &&& forall|i: int| 0 <= i < data.len() ==> hex_value(#[trigger] data[i]) is Some
}

/// `hex::decode_to_slice`: fills `out` from the hex digits of `data`, two
/// digits a byte, and succeeds exactly when `data` has two digits for each
/// byte of `out`; on failure nothing is said of what `out` holds.
#[verifier::external_body]
fn hex_decode_to_slice(data: &str, out: &mut [u8]) -> (r: Result<(), hex::FromHexError>)
    ensures
        final(out)@.len() == old(out)@.len(),
        r is Ok <==> all_hex(data.spec_bytes(), old(out)@.len() as int),
        r is Ok ==> hex_decodes(data.spec_bytes(), final(out)@),
{
    hex::decode_to_slice(data, out)
}

/// The lower-case hex digit of a nibble.
pub open spec fn lower_digit(n: int) -> char {
    if n < 10 {
        (48 + n) as char
    } else {
        (87 + n) as char
    }
}

/// The upper-case hex digit of a nibble.
pub open spec fn upper_digit(n: int) -> char {
    if n < 10 {
        (48 + n) as char
    } else {
        (55 + n) as char
    }
}

/// Two hex digits per byte, high nibble first, with `digit` for each.
pub open spec fn hex_chars(bytes: Seq<u8>, upper: bool) -> Seq<char> {
    Seq::new(
        2 * bytes.len(),
        |i: int|
            {
                let b = bytes[i / 2] as int;
                let n = if i % 2 == 0 {
                    b / 16
                } else {
                    b % 16
                };
                if upper {
                    upper_digit(n)
                } else {
                    lower_digit(n)
                }
            },
    )
}

/// `hex::encode`: the lower-case hex digits of the bytes, high nibble
/// first.
#[verifier::external_body]
fn hex_encode(data: &[u8]) -> (r: String)
    ensures
        r@ == hex_chars(data@, false),
{
    hex::encode(data)
}

/// The upper-case form of an ASCII character.
pub open spec fn ascii_upper(c: char) -> char {
    if 'a' <= c <= 'z' {
        ((c as u32) - 32) as char
    } else {
        c
    }
}

/// `str::to_uppercase`; of a string of ASCII characters only, each lower
/// case letter turns upper case and the rest stay. Nothing is stated of
/// other strings.
#[verifier::external_body]
fn str_to_uppercase(s: &str) -> (r: String)
    ensures
        (forall|i: int| 0 <= i < s@.len() ==> (#[trigger] s@[i] as u32) < 128) ==> r@ == s@.map_values(
            |c: char| ascii_upper(c),
        ),
{
    s.to_uppercase()
}

/// White space as `char::is_whitespace` has it: the Unicode White_Space
/// characters.
pub open spec fn is_white_space(c: char) -> bool {
    let v = c as u32;
    ||| 0x09 <= v <= 0x0D
    ||| v == 0x20
    ||| v == 0x85
    ||| v == 0xA0
    ||| v == 0x1680
    ||| 0x2000 <= v <= 0x200A
    ||| v == 0x2028
    ||| v == 0x2029
    ||| v == 0x202F
    ||| v == 0x205F
    ||| v == 0x3000
}

/// The characters without their leading white space.
pub open spec fn trim_start(s: Seq<char>) -> Seq<char>
    decreases s.len(),
{
    if s.len() > 0 && is_white_space(s[0]) {
        trim_start(s.drop_first())
    } else {
        s
    }
}

/// The characters without their trailing white space.
pub open spec fn trim_end(s: Seq<char>) -> Seq<char>
    decreases s.len(),
{
    if s.len() > 0 && is_white_space(s.last()) {
        trim_end(s.drop_last())
    } else {
        s
    }
}

/// `str::trim`: the string without leading and trailing white space.
#[verifier::external_body]
fn str_trim(s: &str) -> (r: &str)
    ensures
        r@ == trim_end(trim_start(s@)),
{
    s.trim()
}

/// The twenty bytes that name a certificate.
#[derive(Debug, Clone, Copy, PartialEq, Eq, Hash)]
pub struct Thumbprint(pub [u8; 20]);

impl Thumbprint {
    pub fn from_bytes(data: [u8; 20]) -> (r: Result<Self, CertStoreError>)
        ensures
            r matches Ok(t) && t.0 == data,
    {
        Ok(Thumbprint(data))
    }

    /// Reads forty hex digits, after trimming white space; otherwise an
    /// invalid thumbprint error that carries the trimmed text.
    pub fn new(data: &str) -> (r: Result<Self, CertStoreError>)
        ensures
            ({
                let t = trim_end(trim_start(data@));
                let b = vstd::utf8::encode_utf8(t);
                &&& r is Ok <==> all_hex(b, 20)
                &&& r matches Ok(tp) ==> hex_decodes(b, tp.0@)
                &&& r matches Err(e) ==> (e matches CertStoreError::InvalidThumbprint {
                    thumbprint,
                    reason,
                } && thumbprint@ == t)
            }),
    {
        let data = str_trim(data);
        if data.len() != 40 {
            proof {
                assert(data.spec_bytes().len() != 40);
            }
            return Err(
                CertStoreError::InvalidThumbprint {
                    thumbprint: data.to_owned(),
                    reason: "must be 40 hex characters".to_owned(),
                },
            );
        }
        let mut buffer: [u8; 20] = [0;20];
        let res = hex_decode_to_slice(data, &mut buffer);
        match res {
            Ok(()) => Ok(Thumbprint(buffer)),
            Err(_) => Err(
                CertStoreError::InvalidThumbprint {
                    thumbprint: data.to_owned(),
                    reason: "invalid hex characters".to_owned(),
                },
            ),
        }
    }

    pub fn as_bytes(&self) -> (r: &[u8; 20])
        ensures
            *r == self.0,
    {
        &self.0
    }

    /// The thumbprint as text: its forty upper-case hex digits.
    pub fn to_string(&self) -> (r: String)
        ensures
            r@ == hex_chars(self.0@, true),
    {
        self.to_hex_string()
    }

    /// The forty upper-case hex digits.
    pub fn to_hex_string(&self) -> (r: String)
        ensures
            r@ == hex_chars(self.0@, true),
    {
        let lower = hex_encode(self.0.as_slice());
        proof {
            assert forall|i: int| 0 <= i < lower@.len() implies (#[trigger] lower@[i] as u32) < 128 by {
                let n = if i % 2 == 0 {
                    self.0@[i / 2] as int / 16
                } else {
                    self.0@[i / 2] as int % 16
                };
                assert(0 <= n < 16);
            }
        }
        let upper = str_to_uppercase(lower.as_str());
        proof {
            assert forall|i: int| 0 <= i < upper@.len() implies upper@[i] == hex_chars(self.0@, true)[i] by {
                let n = if i % 2 == 0 {
                    self.0@[i / 2] as int / 16
                } else {
                    self.0@[i / 2] as int % 16
                };
                assert(0 <= n < 16);
            }
            assert(upper@ =~= hex_chars(self.0@, true));
        }
        upper
    }
}

/// The encoded bytes of a certificate.
#[derive(Debug, Clone)]
pub struct CertData(pub Vec<u8>);

impl CertData {
    pub fn as_slice(&self) -> (r: &[u8])
        ensures
            r@ == self.0@,
    {
        self.0.as_slice()
    }

    pub fn len(&self) -> (r: usize)
        ensures
            r == self.0@.len(),
    {
        self.0.len()
    }
}

} // verus!
