//! At-rest database key selection: which source supplies the SQLCipher key
//! for the configured encryption mode, and the fixed-size key taken from the
//! derived bytes.

use vstd::prelude::*;

verus! {

/// How the database file is encrypted at rest.
pub enum EncryptionMode {
    /// No at-rest encryption: the database opens in plaintext.
    Off,
    /// The key is derived from a YubiKey slot-2 HMAC challenge-response.
    Yubikey,
    /// The key comes from a key file.
    Keyfile,
    /// The key comes from the environment.
    Env,
}

/// The encryption settings of the host configuration.
pub struct EncryptionConfig {
    pub mode: EncryptionMode,
}

/// Where the at-rest key comes from.
pub enum AtRestKeySource {
    /// No key: open the database in plaintext.
    Plaintext,
    /// Derive the key from this YubiKey response, which the caller already
    /// obtained.
    DeriveFromResponse(Vec<u8>),
    /// Run the YubiKey challenge-response, then derive the key from the
    /// response.
    ChallengeYubikey,
    /// Ask the shared key resolver, which reads the key file or environment.
    SharedResolver,
}

/// Resolves where the optional 32-byte at-rest key for the configured mode
/// comes from. A YubiKey response the caller already holds is reused, so one
/// invocation performs at most one HMAC on the device.
pub fn resolve_at_rest_key(config: &EncryptionConfig, precomputed_response: Option<&[u8]>) -> (src: AtRestKeySource)
    ensures
        match config.mode {
            EncryptionMode::Off => src is Plaintext,
            EncryptionMode::Yubikey => match precomputed_response {
                Some(resp) => src matches AtRestKeySource::DeriveFromResponse(r) && r@ == resp@,
                None => src is ChallengeYubikey,
            },
            _ => src is SharedResolver,
        },
{
    match config.mode {
        EncryptionMode::Off => AtRestKeySource::Plaintext,
        EncryptionMode::Yubikey => match precomputed_response {
            Some(resp) => {
                let mut r: Vec<u8> = Vec::new();
                let n = resp.len();
                let mut i: usize = 0;
                while i < n
                    invariant
                        n == resp@.len(),
                        i <= n,
                        r@ == resp@.take(i as int),
                    decreases n - i,
                {
                    r.push(resp[i]);
                    assert(resp@.take(i + 1) =~= resp@.take(i as int).push(resp@[i as int]));
                    i = i + 1;
                }
                assert(resp@.take(n as int) =~= resp@);
                AtRestKeySource::DeriveFromResponse(r)
            },
            None => AtRestKeySource::ChallengeYubikey,
        },
        _ => AtRestKeySource::SharedResolver,
    }
}

/// The database layer's fixed-size key, copied from 32 derived bytes.
pub fn at_rest_key_from(derived: &[u8]) -> (key: [u8; 32])
    requires
        derived@.len() == 32,
    ensures
        key@ == derived@,
{
    let mut key = [0u8; 32];
    let mut i: usize = 0;
    while i < 32
        invariant
            derived@.len() == 32,
            i <= 32,
            key@.len() == 32,
            forall|j: int| 0 <= j < i ==> key@[j] == derived@[j],
        decreases 32 - i,
    {
        key[i] = derived[i];
        i = i + 1;
    }
    assert(key@ =~= derived@);
    key
}

} // verus!
