//! Crypto handshake bookkeeping: a per-session, write-once slot for the
//! symmetric cipher context derived from the asymmetric key exchange.

use vstd::prelude::*;

verus! {

/// Symmetric cipher context derived from the handshake. The session logic
/// never reads inside it: it installs the context exactly once and the
/// transport layer reads `inner` to seal and open payloads.
#[verifier::external_body]
pub struct CipherContext {
    /// The derived box, for the (unverified) transport layer.
    pub inner: crypto_box::ChaChaBox,
}

/// Relies on `crypto_box::ChaChaBox::new`: X25519 Diffie-Hellman over the
/// client's ephemeral public key and the server's long-lived secret key,
/// giving the shared symmetric cipher. `PublicKey::from_bytes` and
/// `SecretKey::from_bytes` only convert the raw key bytes.
#[verifier::external_body]
pub fn derive_cipher(client_key: &[u8; 32], server_secret: &[u8; 32]) -> (r: CipherContext) {
    let pk = crypto_box::PublicKey::from_bytes(*client_key);
    let sk = crypto_box::SecretKey::from_bytes(*server_secret);
    CipherContext { inner: crypto_box::ChaChaBox::new(&pk, &sk) }
}

/// The session's crypto slot: empty until the handshake completes, then
/// established for good. Installation is a compare-and-set from
/// `Uninitialized` to `Established`; a second installation attempt is
/// rejected and never overwrites the existing context.
pub enum CryptoState {
    Uninitialized,
    Established(CipherContext),
}

impl CryptoState {
    /// Install the context if and only if none is present. A slot that is
    /// already established is left exactly as it was.
    pub fn install(&mut self, ctx: CipherContext) -> (r: bool)
        ensures
            r == (*old(self) is Uninitialized),
            *old(self) is Uninitialized ==> *final(self) == CryptoState::Established(ctx),
            *old(self) is Established ==> *final(self) == *old(self),
    {
        match self {
            CryptoState::Established(_) => false,
            CryptoState::Uninitialized => {
                *self = CryptoState::Established(ctx);
                true
            },
        }
    }
}

} // verus!
