//! The text form of a buffer: the bytes followed by Reed-Solomon parity
//! symbols, in base64 with the two URL-unsafe characters substituted.

use vstd::prelude::*;
use vstd::string::StringSliceAdditionalSpecFns;
use crate::secbuf::{allowed_secure_size, ProtectState, SecBuf};
use crate::store::{Bufferable, RustBuf};

verus! {

/// Number of Reed-Solomon parity symbols appended to every payload.
pub const PARITY_LEN: usize = 5;

/// Why a text form could not be turned back into a buffer.
#[derive(Debug, Clone, Copy, PartialEq, Eq, Structural)]
pub enum SodiumError {
    /// The text is not valid base64.
    DecodeError,
    /// The corruption exceeds what the parity symbols can repair.
    CorrectionError,
    /// A buffer in guarded memory was asked for, but the payload has a size
    /// that guarded memory does not allow; reported by the checked decoder
    /// `try_securely_corrected`.
    BadSize,
}

/// The standard base64 text (as ASCII bytes) of `b`.
pub uninterp spec fn b64_of(b: Seq<u8>) -> Seq<u8>;

/// What standard base64 decoding makes of the text `s`, if it is valid.
pub uninterp spec fn b64_decoded(s: Seq<u8>) -> Option<Seq<u8>>;

/// The Reed-Solomon parity symbols of `d`.
pub uninterp spec fn parity_of(d: Seq<u8>) -> Seq<u8>;

/// What Reed-Solomon correction makes of the block `m`, if it can repair it.
pub uninterp spec fn rs_corrected(m: Seq<u8>) -> Option<Seq<u8>>;

/// A block made of a payload followed by that payload's parity symbols.
pub open spec fn is_codeword(m: Seq<u8>) -> bool {
    &&& m.len() >= PARITY_LEN
    &&& m == m.take(m.len() - PARITY_LEN) + parity_of(m.take(m.len() - PARITY_LEN))
}

/// The number of positions at which two equally long blocks differ.
pub open spec fn diff_count(a: Seq<u8>, b: Seq<u8>) -> nat
    decreases a.len(),
{
    if a.len() == 0 {
        0
    } else {
        diff_count(a.drop_last(), b.drop_last()) + if a.last() != b.last() {
            1nat
        } else {
            0nat
        }
    }
}

/// How many corrupted symbols the parity symbols can repair.
pub open spec fn repair_bound() -> nat {
    (PARITY_LEN / 2) as nat
}

/// A byte of the standard base64 alphabet, padding included.
pub open spec fn is_b64_byte(c: u8) -> bool {
    ||| 65 <= c <= 90
    ||| 97 <= c <= 122
    ||| 48 <= c <= 57
    ||| c == 43
    ||| c == 47
    ||| c == 61
}

pub open spec fn all_b64(s: Seq<u8>) -> bool {
    forall|i: int| 0 <= i < s.len() ==> is_b64_byte(#[trigger] s[i])
}

/// `+` becomes `-` and `/` becomes `_`.
pub open spec fn to_url_byte(c: u8) -> u8 {
    if c == 43 {
        45
    } else if c == 47 {
        95
    } else {
        c
    }
}

/// `-` becomes `+` and `_` becomes `/`.
pub open spec fn from_url_byte(c: u8) -> u8 {
    if c == 45 {
        43
    } else if c == 95 {
        47
    } else {
        c
    }
}

pub open spec fn to_url_safe(s: Seq<u8>) -> Seq<u8> {
    Seq::new(s.len(), |i: int| to_url_byte(s[i]))
}

pub open spec fn from_url_safe(s: Seq<u8>) -> Seq<u8> {
    Seq::new(s.len(), |i: int| from_url_byte(s[i]))
}

/// The characters of a sequence of ASCII bytes.
pub open spec fn ascii_chars(s: Seq<u8>) -> Seq<char> {
    Seq::new(s.len(), |i: int| s[i] as char)
}

/// The text form of the payload `d`, as bytes.
pub open spec fn rendered(d: Seq<u8>) -> Seq<u8> {
    to_url_safe(b64_of(d + parity_of(d)))
}

/// What rendering establishes of the payload `d`: its block fits the
/// scheme, its parity has the fixed length, and its base64 text uses the
/// standard alphabet.
pub open spec fn renderable(d: Seq<u8>) -> bool {
    &&& d.len() + PARITY_LEN <= 256
    &&& parity_of(d).len() == PARITY_LEN
    &&& all_b64(b64_of(d + parity_of(d)))
}

/// The payload that the text `t` (as bytes) stands for, or why there is none.
pub open spec fn corrected_payload(t: Seq<u8>) -> Result<Seq<u8>, SodiumError> {
    match b64_decoded(from_url_safe(t)) {
        None => Err(SodiumError::DecodeError),
        Some(raw) => if raw.len() < PARITY_LEN || raw.len() >= 256 {
            Err(SodiumError::CorrectionError)
        } else {
            match rs_corrected(raw) {
                None => Err(SodiumError::CorrectionError),
                Some(c) => Ok(c.take(c.len() - PARITY_LEN)),
            }
        },
    }
}

/// As `corrected_payload`, for a payload that must fit in guarded memory.
pub open spec fn securely_corrected_payload(t: Seq<u8>) -> Result<Seq<u8>, SodiumError> {
    match corrected_payload(t) {
        Ok(d) => if allowed_secure_size(d.len()) {
            Ok(d)
        } else {
            Err(SodiumError::BadSize)
        },
        Err(e) => Err(e),
    }
}

#[verifier::external_type_specification]
#[verifier::external_body]
pub struct ExDecodeError(base64::DecodeError);

#[verifier::external_type_specification]
#[verifier::external_body]
pub struct ExDecoderError(reed_solomon::DecoderError);

/// Relies on base64::encode: standard alphabet with `=` padding, which is
/// ASCII; four characters for every started group of three bytes, and at most
/// two `=`, all at the end.
#[verifier::external_body]
fn b64_encode(b: &[u8]) -> (r: Vec<u8>)
    ensures
        r@ == b64_of(b@),
        all_b64(r@),
        r@.len() == 4 * ((b@.len() + 2) / 3),
        forall|i: int| 0 <= i < r@.len() && #[trigger] r@[i] == 61 ==> i + 2 >= r@.len(),
        forall|i: int, j: int|
            0 <= i <= j < r@.len() && #[trigger] r@[i] == 61 ==> #[trigger] r@[j] == 61,
{
    base64::encode(b).into_bytes()
}

/// Relies on base64::decode: it gives back the bytes of any text that
/// base64::encode produced.
#[verifier::external_body]
fn b64_decode(s: &[u8]) -> (r: Result<Vec<u8>, base64::DecodeError>)
    ensures
        r is Ok <==> b64_decoded(s@) is Some,
        r is Ok ==> b64_decoded(s@) == Some(r->Ok_0@),
        forall|b: Seq<u8>| #[trigger] b64_of(b) == s@ ==> r is Ok && r->Ok_0@ == b,
{
    base64::decode(s)
}

/// Relies on reed_solomon::Encoder::encode: the payload unchanged, followed
/// by its parity symbols.
#[verifier::external_body]
fn rs_encode(d: &[u8]) -> (r: Vec<u8>)
    requires
        d@.len() + PARITY_LEN <= 256,
    ensures
        r@ == d@ + parity_of(d@),
        r@.len() == d@.len() + PARITY_LEN,
{
    reed_solomon::Encoder::new(PARITY_LEN).encode(d).to_vec()
}

/// Relies on reed_solomon::Decoder::correct: a block without errors comes
/// back unchanged, a corrected block is a codeword of the same length, and a
/// block with at most half as many corrupted symbols as there are parity
/// symbols is repaired to its codeword.
#[verifier::external_body]
fn rs_correct(m: &[u8]) -> (r: Result<Vec<u8>, reed_solomon::DecoderError>)
    requires
        PARITY_LEN <= m@.len() < 256,
    ensures
        r is Ok <==> rs_corrected(m@) is Some,
        r is Ok ==> rs_corrected(m@) == Some(r->Ok_0@),
        r is Ok ==> r->Ok_0@.len() == m@.len() && is_codeword(r->Ok_0@),
        is_codeword(m@) ==> r is Ok && r->Ok_0@ == m@,
        forall|c: Seq<u8>|
            is_codeword(c) && c.len() == m@.len() && #[trigger] diff_count(m@, c)
                <= repair_bound() ==> r is Ok && r->Ok_0@ == c,
{
    match reed_solomon::Decoder::new(PARITY_LEN).correct(m, None) {
        Ok(c) => Ok(c.to_vec()),
        Err(e) => Err(e),
    }
}

/// Relies on String::from_utf8: ASCII bytes are valid UTF-8, one character
/// each.
#[verifier::external_body]
fn ascii_string(v: Vec<u8>) -> (r: String)
    requires
        forall|i: int| 0 <= i < v@.len() ==> v@[i] < 128,
    ensures
        r@ == ascii_chars(v@),
{
    match String::from_utf8(v) {
        Ok(s) => s,
        Err(_) => String::new(),
    }
}

/// Replaces `+` by `-` and `/` by `_`.
pub fn url_safe(s: &[u8]) -> (r: Vec<u8>)
    ensures
        r@ == to_url_safe(s@),
{
    let mut r: Vec<u8> = Vec::new();
    let mut i: usize = 0;
    while i < s.len()
        invariant
            i <= s@.len(),
            r@ == to_url_safe(s@.take(i as int)),
        decreases s@.len() - i,
    {
        let c = s[i];
        let d: u8 = if c == 43 {
            45
        } else if c == 47 {
            95
        } else {
            c
        };
        r.push(d);
        i = i + 1;
        assert(r@ =~= to_url_safe(s@.take(i as int)));
    }
    assert(s@.take(s@.len() as int) =~= s@);
    r
}

/// Replaces `-` by `+` and `_` by `/`.
pub fn url_unsafe(s: &[u8]) -> (r: Vec<u8>)
    ensures
        r@ == from_url_safe(s@),
{
    let mut r: Vec<u8> = Vec::new();
    let mut i: usize = 0;
    while i < s.len()
        invariant
            i <= s@.len(),
            r@ == from_url_safe(s@.take(i as int)),
        decreases s@.len() - i,
    {
        let c = s[i];
        let d: u8 = if c == 45 {
            43
        } else if c == 95 {
            47
        } else {
            c
        };
        r.push(d);
        i = i + 1;
        assert(r@ =~= from_url_safe(s@.take(i as int)));
    }
    assert(s@.take(s@.len() as int) =~= s@);
    r
}

/// The payload is the front of its block.
pub proof fn lemma_block_front(d: Seq<u8>)
    ensures
        (d + parity_of(d)).take(d.len() as int) == d,
{
    assert((d + parity_of(d)).take(d.len() as int) =~= d);
}

/// Undoing the substitution restores any base64 text.
pub proof fn lemma_url_safe_inverse(s: Seq<u8>)
    requires
        all_b64(s),
    ensures
        from_url_safe(to_url_safe(s)) == s,
{
    assert(from_url_safe(to_url_safe(s)) =~= s);
}

/// The text form never holds `+` or `/`.
pub proof fn lemma_url_safe_alphabet(s: Seq<u8>)
    ensures
        forall|i: int| 0 <= i < to_url_safe(s).len() ==> #[trigger] to_url_safe(s)[i] != 43
            && to_url_safe(s)[i] != 47,
{
}

/// Text with `+` and `/` and text with `-` and `_` in their place stand for
/// the same payload.
pub proof fn lemma_substitution_symmetric(t: Seq<u8>)
    ensures
        corrected_payload(from_url_safe(t)) == corrected_payload(t),
        securely_corrected_payload(from_url_safe(t)) == securely_corrected_payload(t),
{
    assert(from_url_safe(from_url_safe(t)) =~= from_url_safe(t));
}

/// The text `t` decodes to a block that differs from the block of payload
/// `d` in no more symbols than the parity can repair.
pub open spec fn repairable(t: Seq<u8>, d: Seq<u8>) -> bool {
    match b64_decoded(from_url_safe(t)) {
        Some(x) => x.len() == d.len() + PARITY_LEN && diff_count(x, d + parity_of(d))
            <= repair_bound(),
        None => false,
    }
}

/// The payload that the text `s` stands for, after correction.
fn decode_payload(s: &str) -> (r: Result<Vec<u8>, SodiumError>)
    ensures
        match r {
            Ok(v) => corrected_payload(s.spec_bytes()) == Ok::<Seq<u8>, SodiumError>(v@),
            Err(e) => corrected_payload(s.spec_bytes()) == Err::<Seq<u8>, SodiumError>(e),
        },
        forall|d: Seq<u8>|
            #![trigger parity_of(d)]
            d.len() + PARITY_LEN < 256 && parity_of(d).len() == PARITY_LEN && repairable(
                s.spec_bytes(),
                d,
            ) ==> r is Ok && r->Ok_0@ == d,
        forall|d: Seq<u8>|
            #![trigger rendered(d)]
            d.len() + PARITY_LEN < 256 && renderable(d) && s.spec_bytes() == rendered(d) ==> r is Ok && r->Ok_0@ == d,
{
    let t = url_unsafe(s.as_bytes());
    proof {
        assert forall|p: Seq<u8>|
            #![trigger rendered(p)]
            renderable(p) && s.spec_bytes() == rendered(p) implies t@ == b64_of(
            p + parity_of(p),
        ) by {
            lemma_url_safe_inverse(b64_of(p + parity_of(p)));
        }
    }
    let raw = match b64_decode(t.as_slice()) {
        Ok(raw) => raw,
        Err(_) => {
            return Err(SodiumError::DecodeError);
        },
    };
    proof {
        assert forall|p: Seq<u8>|
            #![trigger rendered(p)]
            p.len() + PARITY_LEN < 256 && renderable(p) && s.spec_bytes() == rendered(p) implies raw@
            == p + parity_of(p) && is_codeword(raw@) by {
            lemma_block_front(p);
        }
        assert forall|p: Seq<u8>|
            #![trigger parity_of(p)]
            p.len() + PARITY_LEN < 256 && parity_of(p).len() == PARITY_LEN && repairable(
                s.spec_bytes(),
                p,
            ) implies raw@.len() == p.len() + PARITY_LEN && is_codeword(p + parity_of(p))
            && diff_count(raw@, p + parity_of(p)) <= repair_bound() by {
            lemma_block_front(p);
        }
    }
    if raw.len() < PARITY_LEN || raw.len() >= 256 {
        return Err(SodiumError::CorrectionError);
    }
    let c = match rs_correct(raw.as_slice()) {
        Ok(c) => c,
        Err(_) => {
            return Err(SodiumError::CorrectionError);
        },
    };
    let n = c.len() - PARITY_LEN;
    let mut d: Vec<u8> = Vec::new();
    let mut i: usize = 0;
    while i < n
        invariant
            i <= n,
            n == c@.len() - PARITY_LEN,
            d@ == c@.take(i as int),
        decreases n - i,
    {
        d.push(c[i]);
        i = i + 1;
        assert(d@ =~= c@.take(i as int));
    }
    assert forall|p: Seq<u8>|
        #![trigger rendered(p)]
        p.len() + PARITY_LEN < 256 && renderable(p) && s.spec_bytes() == rendered(p) implies d@
        == p by {
        lemma_block_front(p);
    }
    assert forall|p: Seq<u8>|
        #![trigger parity_of(p)]
        p.len() + PARITY_LEN < 256 && parity_of(p).len() == PARITY_LEN && repairable(
            s.spec_bytes(),
            p,
        ) implies d@ == p by {
        lemma_block_front(p);
    }
    Ok(d)
}

impl<B: Bufferable> SecBuf<B> {
    /// The text form of the buffer's bytes: the bytes and their parity
    /// symbols, in base64 with `-` for `+` and `_` for `/`. The buffer must be
    /// open.
    pub fn render(&self) -> (r: String)
        requires
            self.state() != ProtectState::NoAccess,
            self.bytes().len() + PARITY_LEN < 256,
        ensures
            r@ == ascii_chars(rendered(self.bytes())),
            renderable(self.bytes()),
            forall|i: int| 0 <= i < r@.len() ==> #[trigger] r@[i] != '+' && r@[i] != '/',
            r@.len() == 4 * ((self.bytes().len() + PARITY_LEN + 2) / 3),
            forall|i: int| 0 <= i < r@.len() && #[trigger] r@[i] == '=' ==> i + 2 >= r@.len(),
            forall|i: int, j: int|
                0 <= i <= j < r@.len() && #[trigger] r@[i] == '=' ==> #[trigger] r@[j] == '=',
    {
        let d = self.to_vec();
        let enc = rs_encode(d.as_slice());
        let text = b64_encode(enc.as_slice());
        let safe = url_safe(text.as_slice());
        proof {
            lemma_url_safe_alphabet(text@);
            assert forall|i: int| 0 <= i < safe@.len() implies safe@[i] < 128 by {
                assert(is_b64_byte(text@[i]));
            }
        }
        let r = ascii_string(safe);
        proof {
            assert forall|i: int| 0 <= i < r@.len() && #[trigger] r@[i] == '=' implies i + 2
                >= r@.len() by {
                assert(text@[i] == 61);
            }
            assert forall|i: int, j: int|
                0 <= i <= j < r@.len() && #[trigger] r@[i] == '=' implies #[trigger] r@[j]
                == '=' by {
                assert(text@[i] == 61);
                assert(text@[j] == 61);
            }
            assert forall|i: int| 0 <= i < r@.len() implies #[trigger] r@[i] != '+' && r@[i]
                != '/' by {
                assert(to_url_safe(text@)[i] != 43 && to_url_safe(text@)[i] != 47);
                assert(is_b64_byte(text@[i]));
            }
        }
        r
    }

}

impl SecBuf<RustBuf> {
    /// A new insecure buffer holding the payload that the text `s` stands
    /// for, with up to the scheme's bound of mistyped symbols repaired.
    pub fn insecurely_corrected(s: &str) -> (r: Result<SecBuf<RustBuf>, SodiumError>)
        ensures
            match r {
                Ok(b) => corrected_payload(s.spec_bytes()) == Ok::<Seq<u8>, SodiumError>(b.bytes())
                    && b.state() == ProtectState::NoAccess,
                Err(e) => corrected_payload(s.spec_bytes()) == Err::<Seq<u8>, SodiumError>(e),
            },
            forall|d: Seq<u8>|
                #![trigger rendered(d)]
                d.len() + PARITY_LEN < 256 && renderable(d) && s.spec_bytes() == rendered(d) ==> r is Ok && r->Ok_0.bytes() == d,
            forall|d: Seq<u8>|
                #![trigger parity_of(d)]
                d.len() + PARITY_LEN < 256 && parity_of(d).len() == PARITY_LEN && repairable(
                    s.spec_bytes(),
                    d,
                ) ==> r is Ok && r->Ok_0.bytes() == d,
    {
        let d = match decode_payload(s) {
            Ok(d) => d,
            Err(e) => {
                return Err(e);
            },
        };
        let mut b = SecBuf::with_insecure(d.len());
        SecBuf::convert_array_to_secbuf(d.as_slice(), &mut b);
        assert(b.bytes() =~= d@);
        Ok(b)
    }

}

impl<B: Bufferable> SecBuf<B> {
    /// As `insecurely_corrected`, into a new buffer in a store of kind `B`
    /// meant for guarded memory. The payload, where the text has one, must
    /// have a size that guarded memory allows.
    pub fn securely_corrected(s: &str) -> (r: Result<SecBuf<B>, SodiumError>)
        requires
            corrected_payload(s.spec_bytes()) is Ok ==> allowed_secure_size(
                corrected_payload(s.spec_bytes())->Ok_0.len(),
            ),
        ensures
            match r {
                Ok(b) => corrected_payload(s.spec_bytes()) == Ok::<Seq<u8>, SodiumError>(b.bytes())
                    && b.state() == ProtectState::NoAccess,
                Err(e) => corrected_payload(s.spec_bytes()) == Err::<Seq<u8>, SodiumError>(e),
            },
            forall|d: Seq<u8>|
                #![trigger rendered(d)]
                d.len() + PARITY_LEN < 256 && renderable(d) && s.spec_bytes() == rendered(d) ==> r is Ok && r->Ok_0.bytes() == d,
            forall|d: Seq<u8>|
                #![trigger parity_of(d)]
                d.len() + PARITY_LEN < 256 && parity_of(d).len() == PARITY_LEN && repairable(
                    s.spec_bytes(),
                    d,
                ) ==> r is Ok && r->Ok_0.bytes() == d,
    {
        let d = match decode_payload(s) {
            Ok(d) => d,
            Err(e) => {
                return Err(e);
            },
        };
        let mut b = SecBuf::<B>::with_secure(d.len());
        SecBuf::convert_array_to_secbuf(d.as_slice(), &mut b);
        assert(b.bytes() =~= d@);
        Ok(b)
    }

    /// As `securely_corrected`, for text whose payload size is not known to
    /// fit guarded memory: a payload of another size is refused with
    /// `BadSize` before any guarded buffer is made.
    pub fn try_securely_corrected(s: &str) -> (r: Result<SecBuf<B>, SodiumError>)
        ensures
            match r {
                Ok(b) => securely_corrected_payload(s.spec_bytes()) == Ok::<Seq<u8>, SodiumError>(
                    b.bytes(),
                ) && b.state() == ProtectState::NoAccess,
                Err(e) => securely_corrected_payload(s.spec_bytes()) == Err::<Seq<u8>, SodiumError>(
                    e,
                ),
            },
    {
        let d = match decode_payload(s) {
            Ok(d) => d,
            Err(e) => {
                return Err(e);
            },
        };
        if !crate::secbuf::is_allowed_secure_size(d.len()) {
            return Err(SodiumError::BadSize);
        }
        SecBuf::<B>::securely_corrected(s)
    }
}

} // verus!
