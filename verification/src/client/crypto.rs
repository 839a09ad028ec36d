//! The client's end of the encryption: the key exchange with the relay,
//! per-channel keys derived from channel passwords, and the sealing and
//! opening of padded messages under counted nonces.

use vstd::prelude::*;
use vstd::string::StringSliceAdditionalSpecFns;
use crate::keyed::{index_of_unique, push_keeps_distinct};
pub use crate::keys::KEY_LEN;
use crate::keys::{agree, fresh_keypair};
use crate::protocol::crypto::{
    add_padding_with,
    generate_padding,
    MAX_PADDING,
    padded,
    padding_round_trip,
    remove_padding,
    unpadded,
};
use crate::text::{joined, owned, str_eq};

verus! {

/// The length of an AES-GCM nonce.
pub const NONCE_LEN: usize = 12;

/// The rounds of PBKDF2 behind a channel key.
pub const CHANNEL_KEY_ROUNDS: u32 = 100_000;

/// What AES-256-GCM makes of `plaintext` under `key` and `nonce`: the
/// ciphertext with its tag, or nothing where the cipher refuses.
pub uninterp spec fn aes256_gcm_sealed(key: Seq<u8>, nonce: Seq<u8>, plaintext: Seq<u8>) -> Option<
    Seq<u8>,
>;

/// What AES-256-GCM recovers from `ciphertext` under `key` and `nonce`:
/// the plaintext, or nothing where the tag does not match.
pub uninterp spec fn aes256_gcm_opened(key: Seq<u8>, nonce: Seq<u8>, ciphertext: Seq<u8>) -> Option<
    Seq<u8>,
>;

/// The 32 bytes that PBKDF2-HMAC-SHA256 derives from `password` and `salt`
/// in `rounds` rounds.
pub uninterp spec fn pbkdf2_sha256(password: Seq<u8>, salt: Seq<u8>, rounds: u32) -> Seq<u8>;

/// `Aes256Gcm::new_from_slice` and `encrypt` of the aes-gcm crate. What it
/// returns is taken on trust as [`aes256_gcm_sealed`], together with the
/// promise of every authenticated cipher that what was sealed opens again
/// under the same key and nonce.
#[verifier::external_body]
fn seal(key: &[u8], nonce: &[u8], plaintext: &[u8]) -> (sealed: Option<Vec<u8>>)
    requires
        key@.len() == KEY_LEN,
        nonce@.len() == NONCE_LEN,
    ensures
        sealed.deep_view() == aes256_gcm_sealed(key@, nonce@, plaintext@),
        sealed matches Some(ciphertext) ==> aes256_gcm_opened(key@, nonce@, ciphertext@) == Some(
            plaintext@,
        ),
{
    let cipher = <aes_gcm::Aes256Gcm as aes_gcm::KeyInit>::new_from_slice(key).ok()?;
    aes_gcm::aead::Aead::encrypt(&cipher, aes_gcm::Nonce::from_slice(nonce), plaintext).ok()
}

/// `Aes256Gcm::new_from_slice` and `decrypt` of the aes-gcm crate.
#[verifier::external_body]
fn open(key: &[u8], nonce: &[u8], ciphertext: &[u8]) -> (opened: Option<Vec<u8>>)
    requires
        key@.len() == KEY_LEN,
        nonce@.len() == NONCE_LEN,
    ensures
        opened.deep_view() == aes256_gcm_opened(key@, nonce@, ciphertext@),
{
    let cipher = <aes_gcm::Aes256Gcm as aes_gcm::KeyInit>::new_from_slice(key).ok()?;
    aes_gcm::aead::Aead::decrypt(&cipher, aes_gcm::Nonce::from_slice(nonce), ciphertext).ok()
}

/// `pbkdf2_hmac_array::<Sha256, 32>` of the pbkdf2 crate.
#[verifier::external_body]
fn derive_key(password: &str, salt: &str, rounds: u32) -> (key: Vec<u8>)
    ensures
        key@ == pbkdf2_sha256(password.spec_bytes(), salt.spec_bytes(), rounds),
        key@.len() == KEY_LEN,
{
    pbkdf2::pbkdf2_hmac_array::<sha2::Sha256, 32>(password.as_bytes(), salt.as_bytes(), rounds)
        .to_vec()
}

/// Why a message could not be sealed or opened.
#[derive(Debug)]
pub enum CryptoError {
    /// The key exchange has not been completed.
    NotReady,
    /// The nonce is not 12 bytes long.
    InvalidNonce,
    /// Every nonce of this session has been used.
    NoncesExhausted,
    /// The cipher refused to seal.
    Encryption,
    /// The ciphertext does not open under the session's secret.
    Decryption,
    /// What opened is no padded message.
    Padding(String),
}

/// The model of a [`CryptoError`].
pub enum CryptoErrorModel {
    NotReady,
    InvalidNonce,
    NoncesExhausted,
    Encryption,
    Decryption,
    Padding(Seq<char>),
}

impl View for CryptoError {
    type V = CryptoErrorModel;

    open spec fn view(&self) -> CryptoErrorModel {
        match self {
            CryptoError::NotReady => CryptoErrorModel::NotReady,
            CryptoError::InvalidNonce => CryptoErrorModel::InvalidNonce,
            CryptoError::NoncesExhausted => CryptoErrorModel::NoncesExhausted,
            CryptoError::Encryption => CryptoErrorModel::Encryption,
            CryptoError::Decryption => CryptoErrorModel::Decryption,
            CryptoError::Padding(reason) => CryptoErrorModel::Padding(reason@),
        }
    }
}

impl CryptoErrorModel {
    pub open spec fn message(self) -> Seq<char> {
        match self {
            CryptoErrorModel::NotReady => "ECDH not complete"@,
            CryptoErrorModel::InvalidNonce => "invalid nonce length"@,
            CryptoErrorModel::NoncesExhausted => "nonce counter exhausted"@,
            CryptoErrorModel::Encryption => "encryption failed"@,
            CryptoErrorModel::Decryption => "decryption failed"@,
            CryptoErrorModel::Padding(reason) => reason,
        }
    }
}

impl CryptoError {
    /// The error in words.
    pub fn message(&self) -> (s: String)
        ensures
            s@ == self@.message(),
    {
        match self {
            CryptoError::NotReady => owned("ECDH not complete"),
            CryptoError::InvalidNonce => owned("invalid nonce length"),
            CryptoError::NoncesExhausted => owned("nonce counter exhausted"),
            CryptoError::Encryption => owned("encryption failed"),
            CryptoError::Decryption => owned("decryption failed"),
            CryptoError::Padding(reason) => reason.clone(),
        }
    }
}

/// The nonce for the message number `counter`: four zero bytes, then the
/// counter in eight bytes, most significant first.
pub open spec fn nonce_for(counter: u64) -> Seq<u8> {
    seq![
        0u8,
        0u8,
        0u8,
        0u8,
        (counter / 0x100_0000_0000_0000) as u8,
        ((counter / 0x1_0000_0000_0000) % 0x100) as u8,
        ((counter / 0x100_0000_0000) % 0x100) as u8,
        ((counter / 0x1_0000_0000) % 0x100) as u8,
        ((counter / 0x100_0000) % 0x100) as u8,
        ((counter / 0x1_0000) % 0x100) as u8,
        ((counter / 0x100) % 0x100) as u8,
        (counter % 0x100) as u8,
    ]
}

/// The message number that the last eight bytes of `nonce` spell.
pub open spec fn counter_of(nonce: Seq<u8>) -> u64
    recommends
        nonce.len() == NONCE_LEN,
{
    ((nonce[4] as u64) * 0x100_0000_0000_0000 + (nonce[5] as u64) * 0x1_0000_0000_0000 + (
    nonce[6] as u64) * 0x100_0000_0000 + (nonce[7] as u64) * 0x1_0000_0000 + (nonce[8] as u64)
        * 0x100_0000 + (nonce[9] as u64) * 0x1_0000 + (nonce[10] as u64) * 0x100 + (
    nonce[11] as u64)) as u64
}

/// A nonce spells the number of its message.
pub proof fn nonce_spells_counter(c: u64)
    ensures
        nonce_for(c).len() == NONCE_LEN,
        counter_of(nonce_for(c)) == c,
{
    assert(c == (c / 0x100_0000_0000_0000) * 0x100_0000_0000_0000 + ((c / 0x1_0000_0000_0000)
        % 0x100) * 0x1_0000_0000_0000 + ((c / 0x100_0000_0000) % 0x100) * 0x100_0000_0000 + ((c
        / 0x1_0000_0000) % 0x100) * 0x1_0000_0000 + ((c / 0x100_0000) % 0x100) * 0x100_0000 + ((c
        / 0x1_0000) % 0x100) * 0x1_0000 + ((c / 0x100) % 0x100) * 0x100 + (c % 0x100))
        by (bit_vector);
    assert(c / 0x100_0000_0000_0000 < 0x100) by (bit_vector);
}

/// Different messages get different nonces.
pub proof fn nonces_differ(a: u64, b: u64)
    requires
        a != b,
    ensures
        nonce_for(a) != nonce_for(b),
{
    nonce_spells_counter(a);
    nonce_spells_counter(b);
}

/// The key of one channel.
#[derive(Debug)]
pub struct ChannelKey {
    pub channel: String,
    pub key: Vec<u8>,
}

/// The model of a [`ChannelKey`].
pub struct ChannelKeyModel {
    pub channel: Seq<char>,
    pub key: Seq<u8>,
}

impl View for ChannelKey {
    type V = ChannelKeyModel;

    open spec fn view(&self) -> ChannelKeyModel {
        ChannelKeyModel { channel: self.channel@, key: self.key@ }
    }
}

impl DeepView for ChannelKey {
    type V = ChannelKeyModel;

    open spec fn deep_view(&self) -> ChannelKeyModel {
        self@
    }
}

/// The model of a [`CryptoState`].
pub struct CryptoModel {
    pub ecdh_secret: Option<Seq<u8>>,
    pub channel_keys: Seq<ChannelKeyModel>,
    pub message_counter: u64,
}

impl CryptoModel {
    pub open spec fn channels(self) -> Seq<Seq<char>> {
        Seq::new(self.channel_keys.len(), |i: int| self.channel_keys[i].channel)
    }

    /// The secret and every key are 32 bytes long; no channel has two keys.
    pub open spec fn wf(self) -> bool {
        &&& self.ecdh_secret matches Some(secret) ==> secret.len() == KEY_LEN
        &&& self.channels().no_duplicates()
        &&& forall|i: int|
            0 <= i < self.channel_keys.len() ==> (#[trigger] self.channel_keys[i]).key.len()
                == KEY_LEN
    }

    /// The key of `channel`, where one was derived.
    pub open spec fn channel_key(self, channel: Option<Seq<char>>) -> Option<Seq<u8>> {
        match channel {
            Some(name) => if self.channels().contains(name) {
                Some(self.channel_keys[self.channels().index_of(name)].key)
            } else {
                None
            },
            None => None,
        }
    }

    /// The salt under which the key of `channel` is derived.
    pub open spec fn salt_for(channel: Seq<char>) -> Seq<char> {
        "darkrelay-channel-"@ + channel
    }

    /// How many nonces a message for `channel` uses: one, and one more for
    /// the channel's layer.
    pub open spec fn nonces_used(self, channel: Option<Seq<char>>) -> nat {
        if self.channel_key(channel) is Some {
            2
        } else {
            1
        }
    }

    /// What sealing `plaintext` for `channel` with the padding `padding`
    /// gives: the ciphertext and the nonce of the inner layer.
    pub open spec fn encrypt(
        self,
        plaintext: Seq<u8>,
        channel: Option<Seq<char>>,
        padding: Seq<u8>,
    ) -> Result<
        (Seq<u8>, Seq<u8>),
        CryptoErrorModel,
    > {
        if self.message_counter == u64::MAX || (self.message_counter == u64::MAX - 1
            && self.channel_key(channel) is Some) {
            Err(CryptoErrorModel::NoncesExhausted)
        } else if self.ecdh_secret is None {
            Err(CryptoErrorModel::NotReady)
        } else {
            let nonce = nonce_for(self.message_counter);
            match aes256_gcm_sealed(self.ecdh_secret->0, nonce, padded(plaintext, padding)) {
                None => Err(CryptoErrorModel::Encryption),
                Some(inner) => match self.channel_key(channel) {
                    None => Ok((inner, nonce)),
                    Some(key) => match aes256_gcm_sealed(
                        key,
                        nonce_for((self.message_counter + 1) as u64),
                        inner,
                    ) {
                        None => Err(CryptoErrorModel::Encryption),
                        Some(outer) => Ok((outer, nonce)),
                    },
                },
            }
        }
    }

    /// How many nonces that sealing uses up: none where none is left, one
    /// for the session's layer, tried or done, and one more where the
    /// channel has a key and the first layer was sealed.
    pub open spec fn nonces_spent(
        self,
        plaintext: Seq<u8>,
        channel: Option<Seq<char>>,
        padding: Seq<u8>,
    ) -> nat {
        if self.message_counter == u64::MAX || (self.message_counter == u64::MAX - 1
            && self.channel_key(channel) is Some) {
            0
        } else if self.ecdh_secret is None || aes256_gcm_sealed(
            self.ecdh_secret->0,
            nonce_for(self.message_counter),
            padded(plaintext, padding),
        ) is None {
            1
        } else {
            self.nonces_used(channel)
        }
    }

    /// What opening `ciphertext` under `nonce` gives.
    pub open spec fn decrypt(self, ciphertext: Seq<u8>, nonce: Seq<u8>) -> Result<
        Seq<u8>,
        CryptoErrorModel,
    > {
        if self.ecdh_secret is None {
            Err(CryptoErrorModel::NotReady)
        } else if nonce.len() != NONCE_LEN {
            Err(CryptoErrorModel::InvalidNonce)
        } else {
            match aes256_gcm_opened(self.ecdh_secret->0, nonce, ciphertext) {
                None => Err(CryptoErrorModel::Decryption),
                Some(data) => match unpadded(data) {
                    Ok(plaintext) => Ok(plaintext),
                    Err(reason) => Err(CryptoErrorModel::Padding(reason)),
                },
            }
        }
    }
}

/// What a client needs to seal and open messages.
#[derive(Debug)]
pub struct CryptoState {
    /// The secret shared with the relay, once the key exchange is done.
    pub ecdh_secret: Option<Vec<u8>>,
    channel_keys: Vec<ChannelKey>,
    message_counter: u64,
}

impl View for CryptoState {
    type V = CryptoModel;

    closed spec fn view(&self) -> CryptoModel {
        CryptoModel {
            ecdh_secret: self.ecdh_secret.deep_view(),
            channel_keys: self.channel_keys.deep_view(),
            message_counter: self.message_counter,
        }
    }
}

fn nonce_bytes(counter: u64) -> (nonce: Vec<u8>)
    ensures
        nonce@ == nonce_for(counter),
        nonce@.len() == NONCE_LEN,
{
    let mut nonce: Vec<u8> = Vec::new();
    nonce.push(0);
    nonce.push(0);
    nonce.push(0);
    nonce.push(0);
    nonce.push((counter / 0x100_0000_0000_0000) as u8);
    nonce.push(((counter / 0x1_0000_0000_0000) % 0x100) as u8);
    nonce.push(((counter / 0x100_0000_0000) % 0x100) as u8);
    nonce.push(((counter / 0x1_0000_0000) % 0x100) as u8);
    nonce.push(((counter / 0x100_0000) % 0x100) as u8);
    nonce.push(((counter / 0x1_0000) % 0x100) as u8);
    nonce.push(((counter / 0x100) % 0x100) as u8);
    nonce.push((counter % 0x100) as u8);
    assert(nonce@ =~= nonce_for(counter));
    nonce
}

impl CryptoState {
    pub open spec fn wf(&self) -> bool {
        self@.wf()
    }

    /// Whether the state is well formed. The secret is a public field, so a
    /// caller that set it can ask before it goes on.
    pub fn is_wf(&self) -> (ok: bool)
        ensures
            ok == self.wf(),
    {
        if let Some(secret) = &self.ecdh_secret {
            assert(secret.deep_view() =~= secret@);
            if secret.len() != KEY_LEN {
                return false;
            }
        }
        let mut i: usize = 0;
        while i < self.channel_keys.len()
            invariant
                i <= self.channel_keys.len(),
                forall|a: int, b: int|
                    0 <= a < b < i ==> self@.channels()[a] != self@.channels()[b],
                forall|k: int| 0 <= k < i
                    ==> (#[trigger] self@.channel_keys[k]).key.len() == KEY_LEN,
            decreases self.channel_keys.len() - i,
        {
            assert(self@.channel_keys[i as int].key == self.channel_keys[i as int].key@);
            if self.channel_keys[i].key.len() != KEY_LEN {
                return false;
            }
            let mut j: usize = 0;
            while j < i
                invariant
                    j <= i < self.channel_keys.len(),
                    forall|a: int| 0 <= a < j ==> self@.channels()[a] != self@.channels()[i as int],
                decreases i - j,
            {
                if str_eq(
                    self.channel_keys[j].channel.as_str(),
                    self.channel_keys[i].channel.as_str(),
                ) {
                    assert(self@.channels()[j as int] == self@.channels()[i as int]);
                    return false;
                }
                j += 1;
            }
            i += 1;
        }
        true
    }

    pub fn new() -> (state: Self)
        ensures
            state.wf(),
            state@.ecdh_secret is None,
            state@.channel_keys.len() == 0,
            state@.message_counter == 0,
    {
        let state = Self { ecdh_secret: None, channel_keys: Vec::new(), message_counter: 0 };
        assert(state@.channels() =~= Seq::empty());
        state
    }

    /// A fresh public key. The secret behind it is dropped: a key exchange
    /// that is to be completed goes through an [`EcdhHandshake`].
    pub fn generate_keypair(&mut self) -> (public_key: Vec<u8>)
        ensures
            *final(self) == *old(self),
            public_key@.len() == KEY_LEN,
    {
        let (_secret, public_key) = fresh_keypair();
        public_key
    }

    /// Completes the key exchange with the relay's public key.
    pub fn complete_handshake(
        &mut self,
        server_public_key: &[u8],
        client_secret: x25519_dalek::EphemeralSecret,
    ) -> (r: Result<(), String>)
        requires
            old(self).wf(),
        ensures
            final(self).wf(),
            r is Ok <==> server_public_key@.len() == KEY_LEN,
            r matches Err(reason)
                ==> reason@ == "invalid server public key length"@ && final(self)@ == old(self)@,
            r is Ok ==> final(self)@.ecdh_secret is Some && final(self)@.channel_keys
                == old(self)@.channel_keys && final(self)@.message_counter
                == old(self)@.message_counter,
    {
        if server_public_key.len() != KEY_LEN {
            return Err(owned("invalid server public key length"));
        }
        let shared = agree(client_secret, server_public_key);
        assert(shared.deep_view() =~= shared@);
        self.ecdh_secret = Some(shared);
        Ok(())
    }

    pub fn is_ready(&self) -> (ready: bool)
        ensures
            ready == self@.ecdh_secret is Some,
    {
        self.ecdh_secret.is_some()
    }

    fn key_position(&self, channel: &str) -> (r: Option<usize>)
        requires
            self.wf(),
        ensures
            match r {
                Some(i) => self@.channels().contains(channel@) && self@.channels().index_of(
                    channel@,
                ) == i && i < self.channel_keys.len(),
                None => !self@.channels().contains(channel@),
            },
    {
        let mut i: usize = 0;
        while i < self.channel_keys.len()
            invariant
                self.wf(),
                i <= self.channel_keys.len(),
                forall|k: int| 0 <= k < i ==> self@.channels()[k] != channel@,
            decreases self.channel_keys.len() - i,
        {
            if str_eq(self.channel_keys[i].channel.as_str(), channel) {
                proof {
                    index_of_unique(self@.channels(), i as int);
                }
                return Some(i);
            }
            i += 1;
        }
        None
    }

    /// Derives the key of `channel` from its password, where it has one:
    /// PBKDF2-HMAC-SHA256 over the password, salted with the channel's name,
    /// in 100000 rounds.
    pub fn set_channel_key(&mut self, channel: &str, password: Option<&str>)
        requires
            old(self).wf(),
        ensures
            final(self).wf(),
            final(self)@.ecdh_secret == old(self)@.ecdh_secret,
            final(self)@.message_counter == old(self)@.message_counter,
            password is None ==> final(self)@ == old(self)@,
            password matches Some(p) ==> final(self)@.channel_key(Some(channel@)) == Some(
                pbkdf2_sha256(
                    p.spec_bytes(),
                    vstd::utf8::encode_utf8(CryptoModel::salt_for(channel@)),
                    CHANNEL_KEY_ROUNDS,
                ),
            ),
            forall|other: Seq<char>|
                other != channel@ ==> #[trigger] final(self)@.channel_key(Some(other))
                    == old(self)@.channel_key(Some(other)),
    {
        let Some(p) = password else {
            return ;
        };
        let salt = joined("darkrelay-channel-", channel);
        let key = derive_key(p, salt.as_str(), CHANNEL_KEY_ROUNDS);
        let entry = ChannelKey { channel: owned(channel), key };
        match self.key_position(channel) {
            Some(i) => {
                self.channel_keys[i] = entry;
                proof {
                    assert(self@.channel_keys =~= old(self)@.channel_keys.update(i as int, entry@));
                    assert(self@.channels() =~= old(self)@.channels());
                }
            },
            None => {
                self.channel_keys.push(entry);
                proof {
                    assert(self@.channel_keys =~= old(self)@.channel_keys.push(entry@));
                    assert(self@.channels() =~= old(self)@.channels().push(channel@));
                    push_keeps_distinct(old(self)@.channels(), channel@);
                }
            },
        }
        proof {
            assert forall|other: Seq<char>| other != channel@ implies #[trigger] self@.channel_key(
                Some(other),
            ) == old(self)@.channel_key(Some(other)) by {
                if old(self)@.channels().contains(other) {
                    let k = old(self)@.channels().index_of(other);
                    assert(self@.channels()[k] == other);
                    index_of_unique(self@.channels(), k);
                }
                if self@.channels().contains(other) {
                    let k = self@.channels().index_of(other);
                    if k < old(self)@.channels().len() {
                        assert(old(self)@.channels()[k] == other);
                    }
                }
            }
        }
    }

    /// What came of sealing, as the model has it.
    pub open spec fn sealed(r: Result<(Vec<u8>, Vec<u8>), CryptoError>) -> Result<
        (Seq<u8>, Seq<u8>),
        CryptoErrorModel,
    > {
        match r {
            Ok((ciphertext, nonce)) => Ok((ciphertext@, nonce@)),
            Err(e) => Err(e@),
        }
    }

    /// Seals `plaintext` with the padding given: padded, sealed under the
    /// session's secret with the next nonce and, where `channel` has a key,
    /// sealed once more under that key with the nonce after it. Returns the
    /// ciphertext and the first nonce.
    pub fn encrypt_with(
        &mut self,
        plaintext: &[u8],
        channel: Option<&str>,
        padding: &[u8],
    ) -> (r: Result<
        (Vec<u8>, Vec<u8>),
        CryptoError,
    >)
        requires
            old(self).wf(),
        ensures
            final(self).wf(),
            final(self)@.ecdh_secret == old(self)@.ecdh_secret,
            final(self)@.channel_keys == old(self)@.channel_keys,
            Self::sealed(r) == old(self)@.encrypt(plaintext@, channel.deep_view(), padding@),
            final(self)@.message_counter == old(self)@.message_counter + old(self)@.nonces_spent(
                plaintext@,
                channel.deep_view(),
                padding@,
            ),
            r matches Ok((ciphertext, nonce)) ==> (old(self)@.channel_key(channel.deep_view())
                is None && plaintext@.len() <= u32::MAX ==> final(self)@.decrypt(
                ciphertext@,
                nonce@,
            ) == Ok::<Seq<u8>, CryptoErrorModel>(plaintext@)),
    {
        let channel_place = match channel {
            Some(name) => self.key_position(name),
            None => None,
        };
        if self.message_counter == u64::MAX || (self.message_counter == u64::MAX - 1
            && channel_place.is_some()) {
            return Err(CryptoError::NoncesExhausted);
        }
        let data = add_padding_with(plaintext, padding);
        let nonce = nonce_bytes(self.message_counter);
        self.message_counter = self.message_counter + 1;
        let Some(secret) = &self.ecdh_secret else {
            return Err(CryptoError::NotReady);
        };
        assert(secret.deep_view() =~= secret@);
        let Some(inner) = seal(secret.as_slice(), nonce.as_slice(), data.as_slice()) else {
            return Err(CryptoError::Encryption);
        };
        assert(inner.deep_view() =~= inner@);
        match channel_place {
            None => {
                proof {
                    if plaintext@.len() <= u32::MAX {
                        padding_round_trip(plaintext@, padding@);
                    }
                }
                Ok((inner, nonce))
            },
            Some(i) => {
                let outer_nonce = nonce_bytes(self.message_counter);
                self.message_counter = self.message_counter + 1;
                assert(self.channel_keys[i as int]@.key == self.channel_keys[i as int].key@);
                match seal(
                    self.channel_keys[i].key.as_slice(),
                    outer_nonce.as_slice(),
                    inner.as_slice(),
                ) {
                    None => Err(CryptoError::Encryption),
                    Some(outer) => {
                        assert(outer.deep_view() =~= outer@);
                        Ok((outer, nonce))
                    },
                }
            },
        }
    }

    /// Seals `plaintext` under fresh random padding.
    pub fn encrypt(&mut self, plaintext: &[u8], channel: Option<&str>) -> (r: Result<
        (Vec<u8>, Vec<u8>),
        CryptoError,
    >)
        requires
            old(self).wf(),
        ensures
            final(self).wf(),
            final(self)@.ecdh_secret == old(self)@.ecdh_secret,
            final(self)@.channel_keys == old(self)@.channel_keys,
            exists|padding: Seq<u8>|
                {
                    &&& padding.len() <= MAX_PADDING
                    &&& Self::sealed(r) == #[trigger] old(self)@.encrypt(
                        plaintext@,
                        channel.deep_view(),
                        padding,
                    )
                    &&& final(self)@.message_counter == old(self)@.message_counter
                        + old(self)@.nonces_spent(plaintext@, channel.deep_view(), padding)
                },
            r matches Ok((ciphertext, nonce)) ==> (old(self)@.channel_key(channel.deep_view())
                is None && plaintext@.len() <= u32::MAX ==> final(self)@.decrypt(
                ciphertext@,
                nonce@,
            ) == Ok::<Seq<u8>, CryptoErrorModel>(plaintext@)),
    {
        let padding = generate_padding();
        let r = self.encrypt_with(plaintext, channel, padding.as_slice());
        assert(Self::sealed(r) == old(self)@.encrypt(plaintext@, channel.deep_view(), padding@));
        r
    }

    /// Opens `ciphertext` under the session's secret and `nonce` and takes
    /// the padding off. The channel's layer, where a message has one, is not
    /// opened.
    pub fn decrypt(&self, ciphertext: &[u8], nonce: &[u8], channel: Option<&str>) -> (r: Result<
        Vec<u8>,
        CryptoError,
    >)
        requires
            self.wf(),
        ensures
            match r {
                Ok(plaintext) => self@.decrypt(ciphertext@, nonce@) == Ok::<
                    Seq<u8>,
                    CryptoErrorModel,
                >(plaintext@),
                Err(e) => self@.decrypt(ciphertext@, nonce@) == Err::<Seq<u8>, CryptoErrorModel>(
                    e@,
                ),
            },
    {
        let Some(secret) = &self.ecdh_secret else {
            return Err(CryptoError::NotReady);
        };
        assert(secret.deep_view() =~= secret@);
        if nonce.len() != NONCE_LEN {
            return Err(CryptoError::InvalidNonce);
        }
        let Some(data) = open(secret.as_slice(), nonce, ciphertext) else {
            return Err(CryptoError::Decryption);
        };
        assert(data.deep_view() =~= data@);
        match remove_padding(data.as_slice()) {
            Ok(plaintext) => Ok(plaintext),
            Err(reason) => Err(CryptoError::Padding(reason)),
        }
    }

    /// Forgets the secret, the channel keys and the count of messages.
    pub fn reset(&mut self)
        ensures
            final(self).wf(),
            final(self)@.ecdh_secret is None,
            final(self)@.channel_keys.len() == 0,
            final(self)@.message_counter == 0,
    {
        self.ecdh_secret = None;
        self.channel_keys.clear();
        self.message_counter = 0;
        assert(self@.channels() =~= Seq::empty());
    }
}

/// The client's half of a key exchange, from its public key to the shared
/// secret.
pub struct EcdhHandshake {
    secret: Option<x25519_dalek::EphemeralSecret>,
    public_key: Vec<u8>,
}

impl EcdhHandshake {
    /// A fresh key pair.
    pub fn new() -> (handshake: Self)
        ensures
            handshake.spec_public_key().len() == KEY_LEN,
            handshake.is_open(),
    {
        let (secret, public_key) = fresh_keypair();
        Self { secret: Some(secret), public_key }
    }

    pub closed spec fn spec_public_key(&self) -> Seq<u8> {
        self.public_key@
    }

    /// The secret has not been used yet.
    pub closed spec fn is_open(&self) -> bool {
        self.secret is Some
    }

    /// The public key to send to the relay.
    pub fn public_key(&self) -> (key: &[u8])
        ensures
            key@ == self.spec_public_key(),
    {
        self.public_key.as_slice()
    }

    /// Completes the exchange with the relay's public key and gives the
    /// shared secret.
    pub fn complete(self, server_public_key: &[u8]) -> (r: Result<Vec<u8>, String>)
        ensures
            r is Ok <==> server_public_key@.len() == KEY_LEN && self.is_open(),
            r matches Ok(shared) ==> shared@.len() == KEY_LEN,
            r matches Err(reason) ==> reason@ == (if server_public_key@.len() != KEY_LEN {
                "invalid server public key length"@
            } else {
                "handshake already completed"@
            }),
    {
        if server_public_key.len() != KEY_LEN {
            return Err(owned("invalid server public key length"));
        }
        match self.secret {
            Some(secret) => Ok(agree(secret, server_public_key)),
            None => Err(owned("handshake already completed")),
        }
    }
}

} // verus!
