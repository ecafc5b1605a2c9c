//! Tokens as they are stored: sealed by the system for the current user, then
//! written as Base64.
use base64::Engine;
use vstd::prelude::*;
use vstd::string::*;
use vstd::utf8;

verus! {

/// What storing a token takes.
#[derive(Debug)]
pub enum ProtectStep {
    /// Nothing: this is what is stored.
    Store(String),
    /// The bytes are to be sealed first.
    Seal(Vec<u8>),
}

/// What getting at a stored token takes.
#[derive(Debug)]
pub enum UnprotectStep {
    /// Nothing: this is the token.
    Token(String),
    /// The bytes are to be unsealed first.
    Unseal(Vec<u8>),
}

/// Why a stored token cannot be had.
#[derive(Debug, Clone, Copy, PartialEq, Eq, Structural)]
pub enum StoredTokenError {
    /// What is stored is not Base64.
    Format,
    /// What was sealed is not text.
    NotText,
}

impl StoredTokenError {
    pub open spec fn wording(self) -> Seq<char> {
        match self {
            StoredTokenError::Format => "加密令牌格式无效"@,
            StoredTokenError::NotText => "解密后的令牌不是有效文本"@,
        }
    }

    /// What the user reads.
    pub fn message(self) -> (message: String)
        ensures
            message@ == self.wording(),
    {
        match self {
            StoredTokenError::Format => "加密令牌格式无效".to_owned(),
            StoredTokenError::NotText => "解密后的令牌不是有效文本".to_owned(),
        }
    }
}

/// `bytes` in the standard Base64 alphabet, padded: what `Engine::encode` of the
/// crate `base64` makes of them.
pub uninterp spec fn base64_text(bytes: Seq<u8>) -> Seq<char>;

/// The bytes that `text` writes down in standard Base64, where it does: what
/// `Engine::decode` of the crate `base64` makes of it.
pub uninterp spec fn base64_bytes(text: Seq<char>) -> Option<Seq<u8>>;

/// `Engine::encode` of the crate `base64`, with its `STANDARD` engine. Claims
/// that the text is settled by the bytes, has four characters for each three
/// bytes begun, and decodes to the bytes again.
#[verifier::external_body]
fn encode_base64(bytes: &Vec<u8>) -> (text: String)
    requires
        (bytes@.len() + 2) / 3 * 4 <= usize::MAX,
    ensures
        text@ == base64_text(bytes@),
        text@.len() == (bytes@.len() + 2) / 3 * 4,
        base64_bytes(text@) == Some(bytes@),
{
    base64::engine::general_purpose::STANDARD.encode(bytes)
}

/// `Engine::decode` of the crate `base64`, with its `STANDARD` engine. Claims
/// that the outcome is settled by the text.
#[verifier::external_body]
fn decode_base64(text: &str) -> (bytes: Option<Vec<u8>>)
    ensures
        match bytes {
            Some(found) => base64_bytes(text@) == Some(found@),
            None => base64_bytes(text@) is None,
        },
{
    base64::engine::general_purpose::STANDARD.decode(text).ok()
}

/// `String::from_utf8` of std: bytes that are UTF-8 become the text that they
/// encode, others none.
#[verifier::external_body]
fn text_from_utf8(bytes: Vec<u8>) -> (text: Option<String>)
    ensures
        match text {
            Some(found) => utf8::valid_utf8(bytes@) && found@ == utf8::decode_utf8(bytes@),
            None => !utf8::valid_utf8(bytes@),
        },
{
    String::from_utf8(bytes).ok()
}

/// The bytes of a token that are to be sealed: none where it is stored as it is.
pub open spec fn bytes_to_seal(token: Seq<char>) -> Option<Seq<u8>> {
    if token.len() == 0 {
        None
    } else {
        Some(utf8::encode_utf8(token))
    }
}

/// Starts to store a token.
pub fn protect_token(token: &str) -> (step: ProtectStep)
    ensures
        if token@.len() == 0 {
            step matches ProtectStep::Store(stored) && stored@ == token@
        } else {
            step matches ProtectStep::Seal(bytes) && bytes@ == utf8::encode_utf8(token@)
        },
        match bytes_to_seal(token@) {
            Some(bytes) => step matches ProtectStep::Seal(made) && made@ == bytes,
            None => step matches ProtectStep::Store(stored) && stored@ == token@,
        },
{
    if token.is_empty() {
        let stored = String::new();
        assert(stored@ =~= token@);
        return ProtectStep::Store(stored);
    }
    ProtectStep::Seal(token.as_bytes_vec())
}

/// Whether `stored` is what is stored of sealed bytes: their Base64, which has
/// four characters for each three bytes begun, and reads back as these bytes.
pub open spec fn stores(stored: Seq<char>, sealed: Seq<u8>) -> bool {
    &&& stored == base64_text(sealed)
    &&& stored.len() == (sealed.len() + 2) / 3 * 4
    &&& base64_bytes(stored) == Some(sealed)
}

/// What is stored of a token that was sealed.
pub fn store_sealed(sealed: &Vec<u8>) -> (stored: String)
    requires
        (sealed@.len() + 2) / 3 * 4 <= usize::MAX,
    ensures
        stores(stored@, sealed@),
{
    encode_base64(sealed)
}

/// The sealed bytes in what is stored: none where a token is stored as it is.
pub open spec fn sealed_in(stored: Seq<char>) -> Result<Option<Seq<u8>>, StoredTokenError> {
    if stored.len() == 0 {
        Ok(None)
    } else {
        match base64_bytes(stored) {
            Some(sealed) => Ok(Some(sealed)),
            None => Err(StoredTokenError::Format),
        }
    }
}

/// Starts to get at a stored token.
pub fn unprotect_token(stored: &str) -> (step: Result<UnprotectStep, StoredTokenError>)
    ensures
        if stored@.len() == 0 {
            step matches Ok(UnprotectStep::Token(token)) && token@ == stored@
        } else {
            match base64_bytes(stored@) {
                Some(sealed) => step matches Ok(UnprotectStep::Unseal(bytes)) && bytes@ == sealed,
                None => step == Err::<UnprotectStep, StoredTokenError>(StoredTokenError::Format),
            }
        },
        match sealed_in(stored@) {
            Ok(Some(sealed)) => step matches Ok(UnprotectStep::Unseal(bytes)) && bytes@ == sealed,
            Ok(None) => step matches Ok(UnprotectStep::Token(token)) && token@ == stored@,
            Err(error) => step == Err::<UnprotectStep, StoredTokenError>(error),
        },
{
    if stored.is_empty() {
        let token = String::new();
        assert(token@ =~= stored@);
        return Ok(UnprotectStep::Token(token));
    }
    match decode_base64(stored) {
        Some(bytes) => Ok(UnprotectStep::Unseal(bytes)),
        None => Err(StoredTokenError::Format),
    }
}

/// The token in unsealed bytes.
pub open spec fn unsealed_token(plain: Seq<u8>) -> Result<Seq<char>, StoredTokenError> {
    if utf8::valid_utf8(plain) {
        Ok(utf8::decode_utf8(plain))
    } else {
        Err(StoredTokenError::NotText)
    }
}

/// The token in bytes that were unsealed.
pub fn read_unsealed(plain: Vec<u8>) -> (token: Result<String, StoredTokenError>)
    ensures
        match unsealed_token(plain@) {
            Ok(text) => token matches Ok(found) && found@ == text,
            Err(error) => token == Err::<String, StoredTokenError>(error),
        },
{
    match text_from_utf8(plain) {
        Some(text) => Ok(text),
        None => Err(StoredTokenError::NotText),
    }
}

/// The token in what is stored, given what the system unseals bytes to, where it
/// does: `None` where it does not.
pub open spec fn recovered(
    stored: Seq<char>,
    unseal: spec_fn(Seq<u8>) -> Option<Seq<u8>>,
) -> Option<Result<Seq<char>, StoredTokenError>> {
    if stored.len() == 0 {
        Some(Ok(stored))
    } else {
        match base64_bytes(stored) {
            None => Some(Err(StoredTokenError::Format)),
            Some(sealed) => match unseal(sealed) {
                Some(plain) => Some(unsealed_token(plain)),
                None => None,
            },
        }
    }
}

proof fn lemma_bytes_of_text(text: Seq<char>)
    ensures
        utf8::encode_utf8(text).len() >= text.len(),
    decreases text.len(),
{
    if text.len() > 0 {
        lemma_bytes_of_text(text.drop_first());
    }
}

/// What is stored of a token is never the token itself, unless that is empty:
/// given that the system seals a token's bytes to no fewer bytes.
pub proof fn tokens_are_not_stored_as_they_are(
    token: Seq<char>,
    sealed: Seq<u8>,
    stored: Seq<char>,
)
    requires
        token.len() > 0,
        stores(stored, sealed),
        sealed.len() >= utf8::encode_utf8(token).len(),
    ensures
        stored.len() > token.len(),
        stored != token,
{
    lemma_bytes_of_text(token);
}

/// A stored token comes back, what is stored is empty only where the token is,
/// and it is the token itself only then: given that the system seals a token's
/// bytes to some bytes, for the last to no fewer bytes, and unseals these to the
/// token's bytes again.
pub proof fn stored_tokens_come_back(
    token: Seq<char>,
    sealed: Seq<u8>,
    stored: Seq<char>,
    unseal: spec_fn(Seq<u8>) -> Option<Seq<u8>>,
)
    requires
        token.len() == 0 ==> stored == token,
        token.len() > 0 ==> stores(stored, sealed) && sealed.len() > 0 && unseal(sealed) == Some(
            utf8::encode_utf8(token),
        ),
    ensures
        recovered(stored, unseal) == Some(Ok::<Seq<char>, StoredTokenError>(token)),
        stored.len() == 0 <==> token.len() == 0,
        sealed.len() >= utf8::encode_utf8(token).len() ==> (stored == token <==> token.len() == 0),
{
    utf8::encode_utf8_valid_utf8(token);
    utf8::encode_utf8_decode_utf8(token);
    lemma_bytes_of_text(token);
}

/// What is sealed of a token is the token, byte for byte; what is unsealed again is
/// what was sealed; and bytes that are the token's are read as the token, others
/// that are no text as none.
pub proof fn every_step_keeps_the_token(token: Seq<char>, sealed: Seq<u8>, stored: Seq<char>)
    ensures
        token.len() > 0 ==> (bytes_to_seal(token) matches Some(bytes) && utf8::decode_utf8(bytes)
            == token && unsealed_token(bytes) == Ok::<Seq<char>, StoredTokenError>(token)),
        token.len() == 0 ==> bytes_to_seal(token) is None,
        stores(stored, sealed) && sealed.len() > 0 ==> sealed_in(stored) == Ok::<
            Option<Seq<u8>>,
            StoredTokenError,
        >(Some(sealed)),
        stored.len() == 0 ==> sealed_in(stored) == Ok::<Option<Seq<u8>>, StoredTokenError>(None),
        stored.len() > 0 && base64_bytes(stored) is None ==> sealed_in(stored) == Err::<
            Option<Seq<u8>>,
            StoredTokenError,
        >(StoredTokenError::Format),
        !utf8::valid_utf8(sealed) ==> unsealed_token(sealed) == Err::<Seq<char>, StoredTokenError>(
            StoredTokenError::NotText,
        ),
{
    utf8::encode_utf8_valid_utf8(token);
    utf8::encode_utf8_decode_utf8(token);
}

} // verus!
