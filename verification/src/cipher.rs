//! The cipher service: symmetric encryption of stored secrets, keyed by the
//! operator's shared token. The key is derived from the token alone, so the
//! whole encryption is deterministic per token, and decryption under a wrong
//! token or of corrupted text fails instead of inventing a value.

use magic_crypt::{MagicCrypt256, MagicCryptTrait};
use vstd::prelude::*;

verus! {

/// What `encrypt_str_to_base64` returns for a cipher keyed by `token`: the
/// key and IV are derived from the token alone, so the ciphertext is a
/// function of token and plaintext.
pub uninterp spec fn encrypted_by(token: Seq<char>, plain: Seq<char>) -> Seq<char>;

/// What `decrypt_base64_to_string` returns for a cipher keyed by `token`:
/// `None` where the call fails, the decrypted plaintext otherwise. The call
/// is deterministic, so its outcome is a function of token and ciphertext.
pub uninterp spec fn decrypted_by(token: Seq<char>, cipher_text: Seq<char>) -> Option<Seq<char>>;

/// Relies on `MagicCrypt256::new` and `MagicCryptTrait::encrypt_str_to_base64`:
/// AES-256-CBC encryption keyed by the token alone, then standard base64
/// encoding, whose alphabet holds no line break; decrypting the result with
/// the same token undoes it and returns the plaintext.
#[verifier::external_body]
fn mc_encrypt(token: &str, plain: &str) -> (r: String)
    ensures
        r@ == encrypted_by(token@, plain@),
        decrypted_by(token@, r@) == Some(plain@),
        forall|i: int| 0 <= i < r@.len() ==> r@[i] != '\n',
{
    let mc = MagicCrypt256::new(token, None::<&str>);
    mc.encrypt_str_to_base64(plain)
}

/// Relies on `MagicCrypt256::new` and `MagicCryptTrait::decrypt_base64_to_string`:
/// base64 decoding, AES-256-CBC decryption keyed by the token alone, and a
/// UTF-8 check, any of which may fail; the outcome is deterministic.
#[verifier::external_body]
fn mc_decrypt(token: &str, cipher_text: &str) -> (r: Option<String>)
    ensures
        match r {
            Some(p) => decrypted_by(token@, cipher_text@) == Some(p@),
            None => decrypted_by(token@, cipher_text@) is None,
        },
{
    let mc = MagicCrypt256::new(token, None::<&str>);
    mc.decrypt_base64_to_string(cipher_text).ok()
}

/// Decryption failed: the ciphertext is malformed, or was produced under a
/// different token.
pub struct DecryptionError {}

/// The cipher service. It owns nothing but the operator's token; the 256-bit
/// key is derived from it on every call, so the service is stateless and
/// safe to invoke repeatedly.
pub struct Cipher {
    token: String,
}

impl View for Cipher {
    type V = Seq<char>;

    closed spec fn view(&self) -> Seq<char> {
        self.token@
    }
}

impl Cipher {
    /// A cipher keyed by `token`.
    pub fn new(token: String) -> (c: Cipher)
        ensures
            c@ == token@,
    {
        Cipher { token }
    }

    /// Encrypt one secret. The result is single-line text, safe for the
    /// store file, and decrypting it under the same token yields the secret
    /// back: the round-trip law.
    pub fn encrypt(&self, plain: &str) -> (r: String)
        ensures
            r@ == encrypted_by(self@, plain@),
            decrypted_by(self@, r@) == Some(plain@),
            forall|i: int| 0 <= i < r@.len() ==> r@[i] != '\n',
    {
        mc_encrypt(self.token.as_str(), plain)
    }

    /// Decrypt one stored ciphertext. Fails with a `DecryptionError`, never
    /// with a made-up plaintext, when the text is malformed or was produced
    /// under another token.
    pub fn decrypt(&self, cipher_text: &str) -> (r: Result<String, DecryptionError>)
        ensures
            match r {
                Ok(p) => decrypted_by(self@, cipher_text@) == Some(p@),
                Err(_) => decrypted_by(self@, cipher_text@) is None,
            },
    {
        match mc_decrypt(self.token.as_str(), cipher_text) {
            Some(p) => Ok(p),
            None => Err(DecryptionError {}),
        }
    }
}

/// The round-trip law as running code: decrypting what `encrypt` produced,
/// under the same cipher, always succeeds and returns the plaintext.
pub fn encrypt_then_decrypt(c: &Cipher, plain: &str) -> (r: Result<String, DecryptionError>)
    ensures
        r matches Ok(p) && p@ == plain@,
{
    let cipher_text = c.encrypt(plain);
    c.decrypt(cipher_text.as_str())
}

} // verus!
