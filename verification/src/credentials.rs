//! Stored SSH passwords: the store itself, and the encrypted file format
//! (base64 of a random nonce followed by the AES-256-GCM ciphertext of a
//! JSON object), with the key derived by Argon2 from machine-specific text.
use vstd::prelude::*;
use crate::strmap::StrMap;
use crate::text::{copy_str, trim, trim_string};
use vstd::utf8::{decode_utf8, encode_utf8, valid_utf8};
use aes_gcm::aead::{Aead, KeyInit};
use aes_gcm::{Aes256Gcm, Nonce};
use argon2::Argon2;
use base64::engine::general_purpose::STANDARD as BASE64_STANDARD;
use base64::Engine;
use rand::RngCore;

verus! {

/// Bytes of the encryption key.
pub const ENCRYPTION_KEY_SIZE: usize = 32;

/// Bytes of the nonce stored before the ciphertext.
pub const ENCRYPTION_NONCE_SIZE: usize = 12;

/// The fixed start of the key derivation's salt.
pub const APP_SALT_PREFIX: &'static str = "oxitailr-credential-storage-v2";

// ---------------------------------------------------------------------------
// Outside computations

/// The 32-byte key Argon2 (default parameters) derives from `password` and
/// `salt`.
pub uninterp spec fn argon2_key(password: Seq<u8>, salt: Seq<u8>) -> Seq<u8>;

/// Calls `Argon2::default().hash_password_into` with a 32-byte output. It
/// fails only for a salt shorter than 8 bytes or a password or salt longer
/// than `u32::MAX` bytes, which `requires` leaves out.
#[verifier::external_body]
fn argon2_derive(password: &[u8], salt: &[u8]) -> (r: [u8; 32])
    requires
        8 <= salt@.len() <= 0xFFFF_FFFF,
        password@.len() <= 0xFFFF_FFFF,
    ensures
        r@ == argon2_key(password@, salt@),
{
    let mut out = [0u8; 32];
    Argon2::default().hash_password_into(password, salt, &mut out).expect("Argon2 key derivation failed");
    out
}

/// What AES-256-GCM encryption gives for `plaintext` under `key` and
/// `nonce` (ciphertext followed by the tag), or `None` when it refuses.
pub uninterp spec fn gcm_seal(key: Seq<u8>, nonce: Seq<u8>, plaintext: Seq<u8>) -> Option<Seq<u8>>;

/// What AES-256-GCM decryption gives for `ciphertext` under `key` and
/// `nonce`, or `None` when the tag does not check.
pub uninterp spec fn gcm_open(key: Seq<u8>, nonce: Seq<u8>, ciphertext: Seq<u8>) -> Option<Seq<u8>>;

/// Calls `Aes256Gcm::encrypt`; the result is named by `gcm_seal`, and (as an
/// AEAD) decrypting it with the same key and nonce gives the plaintext back.
#[verifier::external_body]
fn aes_gcm_encrypt(key: &[u8; 32], nonce: &[u8; 12], plaintext: &[u8]) -> (r: Option<Vec<u8>>)
    ensures
        match r {
            Some(c) => gcm_seal(key@, nonce@, plaintext@) == Some(c@) && gcm_open(key@, nonce@, c@)
                == Some(plaintext@),
            None => gcm_seal(key@, nonce@, plaintext@) is None,
        },
{
    let cipher = Aes256Gcm::new_from_slice(key).ok()?;
    cipher.encrypt(Nonce::from_slice(nonce), plaintext).ok()
}

/// Calls `Aes256Gcm::decrypt`; the result is named by `gcm_open`.
#[verifier::external_body]
fn aes_gcm_decrypt(key: &[u8; 32], nonce: &[u8], ciphertext: &[u8]) -> (r: Option<Vec<u8>>)
    requires
        nonce@.len() == ENCRYPTION_NONCE_SIZE,
    ensures
        match r {
            Some(p) => gcm_open(key@, nonce@, ciphertext@) == Some(p@),
            None => gcm_open(key@, nonce@, ciphertext@) is None,
        },
{
    let cipher = Aes256Gcm::new_from_slice(key).ok()?;
    cipher.decrypt(Nonce::from_slice(nonce), ciphertext).ok()
}

/// The standard, padded base64 text of `bytes`.
pub uninterp spec fn base64_text(bytes: Seq<u8>) -> Seq<char>;

/// The bytes the standard base64 engine decodes from `text`, or `None` when
/// it rejects it.
pub uninterp spec fn base64_bytes(text: Seq<char>) -> Option<Seq<u8>>;

/// Whether `c` is in the standard base64 alphabet or is the padding `=`.
pub open spec fn is_base64_char(c: char) -> bool {
    ('A' <= c && c <= 'Z') || ('a' <= c && c <= 'z') || ('0' <= c && c <= '9') || c == '+' || c
        == '/' || c == '='
}

/// Calls `STANDARD.encode`: the text is named by `base64_text`, is made of
/// the base64 alphabet and padding, and decodes back to `bytes`.
#[verifier::external_body]
fn base64_encode(bytes: &[u8]) -> (r: String)
    ensures
        r@ == base64_text(bytes@),
        forall|i: int| 0 <= i < r@.len() ==> is_base64_char(#[trigger] r@[i]),
        base64_bytes(r@) == Some(bytes@),
{
    BASE64_STANDARD.encode(bytes)
}

/// Calls `STANDARD.decode`; the result is named by `base64_bytes`.
#[verifier::external_body]
fn base64_decode(text: &str) -> (r: Option<Vec<u8>>)
    ensures
        match r {
            Some(b) => base64_bytes(text@) == Some(b@),
            None => base64_bytes(text@) is None,
        },
{
    BASE64_STANDARD.decode(text).ok()
}

/// Calls `String::from_utf8`: the text of valid UTF-8, `None` otherwise.
#[verifier::external_body]
fn utf8_string(bytes: &[u8]) -> (r: Option<String>)
    ensures
        r is Some <==> valid_utf8(bytes@),
        r matches Some(s) ==> s@ == decode_utf8(bytes@),
{
    String::from_utf8(bytes.to_vec()).ok()
}

/// The key-value pairs of the JSON object of strings that
/// `serde_json::from_str::<BTreeMap<String, String>>` reads from `text`, in
/// key order (a repeated key keeps its last value), or `None` when `text` is
/// not such an object.
pub uninterp spec fn json_string_pairs(text: Seq<char>) -> Option<Seq<(Seq<char>, Seq<char>)>>;

/// The JSON text `serde_json::to_string` writes for the pairs collected into
/// a `BTreeMap<String, String>`.
pub uninterp spec fn json_text_of(pairs: Seq<(Seq<char>, Seq<char>)>) -> Seq<char>;

/// Pairs of strings as pairs of their characters.
pub open spec fn pair_views(pairs: Seq<(String, String)>) -> Seq<(Seq<char>, Seq<char>)> {
    pairs.map_values(|p: (String, String)| (p.0@, p.1@))
}

/// Calls `serde_json::from_str::<BTreeMap<String, String>>` and lists the
/// pairs in key order; named by `json_string_pairs`.
#[verifier::external_body]
fn parse_json_pairs(text: &str) -> (r: Option<Vec<(String, String)>>)
    ensures
        match r {
            Some(ps) => json_string_pairs(text@) == Some(pair_views(ps@)),
            None => json_string_pairs(text@) is None,
        },
{
    serde_json::from_str::<std::collections::BTreeMap<String, String>>(text).ok().map(|m| m.into_iter().collect())
}

/// Collects the pairs into a `BTreeMap<String, String>` and calls
/// `serde_json::to_string` (which cannot fail on it); named by
/// `json_text_of`. `serde_json::from_str` reads the object it writes back
/// into the same map (a later pair of the same name having replaced an
/// earlier one when collecting).
#[verifier::external_body]
fn write_json_pairs(pairs: &Vec<(String, String)>) -> (r: String)
    ensures
        r@ == json_text_of(pair_views(pairs@)),
        json_string_pairs(r@) is Some,
        pairs_map(json_string_pairs(r@)->0) == pairs_map(pair_views(pairs@)),
{
    let m: std::collections::BTreeMap<String, String> = pairs.iter().cloned().collect();
    serde_json::to_string(&m).unwrap_or_default()
}

/// Calls `rand::thread_rng().fill_bytes`: random bytes, of which nothing is
/// promised.
#[verifier::external_body]
pub fn generate_random_nonce() -> (r: [u8; 12])
{
    let mut nonce = [0u8; 12];
    rand::thread_rng().fill_bytes(&mut nonce);
    nonce
}

// ---------------------------------------------------------------------------
// The key

/// The machine-specific text the key is derived from: the user name, then the
/// home directory, each when known.
pub open spec fn key_material_of(user: Option<Seq<char>>, home: Option<Seq<char>>) -> Seq<char> {
    (match user {
        Some(u) => u,
        None => Seq::<char>::empty(),
    }) + (match home {
        Some(h) => h,
        None => Seq::<char>::empty(),
    })
}

/// The machine-specific text the key is derived from.
pub fn key_material(user: Option<String>, home: Option<String>) -> (r: String)
    ensures
        r@ == key_material_of(crate::alert::opt_view(user), crate::alert::opt_view(home)),
{
    let mut m = String::new();
    if let Some(u) = user {
        m.append(u.as_str());
    }
    if let Some(h) = home {
        m.append(h.as_str());
    }
    m
}

/// The salt for `material`: the fixed prefix followed by the material, as
/// UTF-8 bytes.
pub open spec fn salt_of(material: Seq<char>) -> Seq<u8> {
    encode_utf8(APP_SALT_PREFIX@) + encode_utf8(material)
}

/// The key derived from `material`: Argon2 with the material as password and
/// the prefixed material as salt.
pub fn get_encryption_key(material: &str) -> (r: [u8; 32])
    requires
        encode_utf8(material@).len() + 30 <= 0xFFFF_FFFF,
    ensures
        r@ == argon2_key(encode_utf8(material@), salt_of(material@)),
{
    let prefix = APP_SALT_PREFIX.as_bytes();
    let mbytes = material.as_bytes();
    let mut salt: Vec<u8> = Vec::new();
    let mut i: usize = 0;
    while i < prefix.len()
        invariant
            i <= prefix@.len(),
            salt@ == prefix@.take(i as int),
        decreases prefix@.len() - i,
    {
        salt.push(prefix[i]);
        assert(prefix@.take(i + 1) =~= prefix@.take(i as int).push(prefix@[i as int]));
        i += 1;
    }
    let mut j: usize = 0;
    while j < mbytes.len()
        invariant
            prefix@.len() == encode_utf8(APP_SALT_PREFIX@).len(),
            j <= mbytes@.len(),
            salt@ == prefix@ + mbytes@.take(j as int),
        decreases mbytes@.len() - j,
    {
        salt.push(mbytes[j]);
        assert(mbytes@.take(j + 1) =~= mbytes@.take(j as int).push(mbytes@[j as int]));
        j += 1;
    }
    assert(prefix@.take(prefix@.len() as int) =~= prefix@);
    assert(mbytes@.take(mbytes@.len() as int) =~= mbytes@);
    proof {
        reveal_strlit("oxitailr-credential-storage-v2");
        vstd::string::is_ascii_spec_bytes(APP_SALT_PREFIX);
        assert(encode_utf8(APP_SALT_PREFIX@).len() == 30);
    }
    argon2_derive(mbytes, salt.as_slice())
}

// ---------------------------------------------------------------------------
// The file format

/// Why the credentials file could not be read.
pub enum CredentialError {
    /// The text is not base64.
    Decode,
    /// The ciphertext did not decrypt (wrong key or corrupted).
    Decrypt,
    /// The plaintext is not UTF-8.
    Utf8,
    /// The plaintext is not a JSON object of strings.
    Json,
}

/// The text of the file for `plaintext`: base64 of the nonce followed by the
/// ciphertext.
pub open spec fn sealed_text(key: Seq<u8>, nonce: Seq<u8>, plaintext: Seq<u8>) -> Option<Seq<char>> {
    match gcm_seal(key, nonce, plaintext) {
        Some(c) => Some(base64_text(nonce + c)),
        None => None,
    }
}

/// Encrypts `plaintext` under `key` with `nonce` into the file's text.
pub fn seal_frame(key: &[u8; 32], nonce: &[u8; 12], plaintext: &[u8]) -> (r: Option<String>)
    ensures
        crate::alert::opt_view(r) == sealed_text(key@, nonce@, plaintext@),
        r matches Some(t) ==> base64_bytes(t@) matches Some(b) && b.len() >= ENCRYPTION_NONCE_SIZE
            && b.take(12) == nonce@ && gcm_open(key@, nonce@, b.skip(12)) == Some(plaintext@),
        r matches Some(t) ==> forall|i: int| 0 <= i < t@.len() ==> is_base64_char(#[trigger] t@[i]),
{
    let c = match aes_gcm_encrypt(key, nonce, plaintext) {
        Some(c) => c,
        None => {
            return None;
        },
    };
    let mut data: Vec<u8> = Vec::new();
    let mut i: usize = 0;
    while i < 12
        invariant
            i <= 12,
            data@ == nonce@.take(i as int),
        decreases 12 - i,
    {
        data.push(nonce[i]);
        assert(nonce@.take(i + 1) =~= nonce@.take(i as int).push(nonce@[i as int]));
        i += 1;
    }
    let mut j: usize = 0;
    while j < c.len()
        invariant
            j <= c@.len(),
            data@ == nonce@ + c@.take(j as int),
        decreases c@.len() - j,
    {
        data.push(c[j]);
        assert(c@.take(j + 1) =~= c@.take(j as int).push(c@[j as int]));
        j += 1;
    }
    assert(nonce@.take(12) =~= nonce@);
    assert(c@.take(c@.len() as int) =~= c@);
    assert(data@.take(12) =~= nonce@);
    assert(data@.skip(12) =~= c@);
    Some(base64_encode(data.as_slice()))
}

/// What reading the file's text gives: the plaintext, nothing when the
/// decoded data is shorter than a nonce, or the failure.
pub open spec fn opened_text(key: Seq<u8>, text: Seq<char>) -> Result<Option<Seq<u8>>, CredentialError> {
    match base64_bytes(trim(text)) {
        None => Err(CredentialError::Decode),
        Some(b) => if b.len() < ENCRYPTION_NONCE_SIZE {
            Ok(None)
        } else {
            match gcm_open(key, b.take(12), b.skip(12)) {
                Some(p) => Ok(Some(p)),
                None => Err(CredentialError::Decrypt),
            }
        },
    }
}

/// Reads the file's text (surrounding whitespace ignored): decodes it, splits
/// off the nonce and decrypts the rest.
pub fn open_frame(key: &[u8; 32], text: &str) -> (r: Result<Option<Vec<u8>>, CredentialError>)
    ensures
        match (r, opened_text(key@, text@)) {
            (Ok(Some(p)), Ok(Some(q))) => p@ == q,
            (Ok(None), Ok(None)) => true,
            (Err(CredentialError::Decode), Err(CredentialError::Decode)) => true,
            (Err(CredentialError::Decrypt), Err(CredentialError::Decrypt)) => true,
            _ => false,
        },
{
    let t = trim_string(text);
    let data = match base64_decode(t.as_str()) {
        Some(d) => d,
        None => {
            return Err(CredentialError::Decode);
        },
    };
    if data.len() < ENCRYPTION_NONCE_SIZE {
        return Ok(None);
    }
    let (nonce, ciphertext) = data.as_slice().split_at(ENCRYPTION_NONCE_SIZE);
    assert(nonce@ =~= data@.take(12));
    assert(ciphertext@ =~= data@.skip(12));
    match aes_gcm_decrypt(key, nonce, ciphertext) {
        Some(p) => Ok(Some(p)),
        None => Err(CredentialError::Decrypt),
    }
}

/// A text of base64 characters has no surrounding whitespace.
proof fn lemma_base64_untrimmed(t: Seq<char>)
    requires
        forall|i: int| 0 <= i < t.len() ==> is_base64_char(#[trigger] t[i]),
    ensures
        trim(t) == t,
{
    if t.len() > 0 {
        assert(!crate::text::is_ws(t[0]));
        assert(!crate::text::is_ws(t.last()));
    }
    assert(crate::text::trim_start(t) == t);
}

/// Reading back what sealing wrote with the same key gives the plaintext.
pub proof fn lemma_frame_round_trip(key: Seq<u8>, nonce: Seq<u8>, plaintext: Seq<u8>, text: Seq<char>)
    requires
        nonce.len() == ENCRYPTION_NONCE_SIZE,
        forall|i: int| 0 <= i < text.len() ==> is_base64_char(#[trigger] text[i]),
        base64_bytes(text) matches Some(b) && b.len() >= ENCRYPTION_NONCE_SIZE && b.take(12) == nonce
            && gcm_open(key, nonce, b.skip(12)) == Some(plaintext),
    ensures
        opened_text(key, text) == Ok::<Option<Seq<u8>>, CredentialError>(Some(plaintext)),
{
    lemma_base64_untrimmed(text);
}

// ---------------------------------------------------------------------------
// The store

/// Stored passwords by source name.
pub struct CredentialStore {
    passwords: StrMap<String>,
}

impl CredentialStore {
    /// The stored password of each source name.
    pub closed spec fn view(&self) -> Map<Seq<char>, Seq<char>> {
        self.passwords.view().map_values(|p: String| p@)
    }

    /// The store's map is consistent.
    pub closed spec fn wf(&self) -> bool {
        self.passwords.wf()
    }

    /// The stored pairs (source name, password), in the order first stored.
    pub closed spec fn stored_pairs(&self) -> Seq<(Seq<char>, Seq<char>)> {
        self.passwords.entries().map_values(|e: (String, String)| (e.0@, e.1@))
    }

    /// An empty store.
    pub fn new() -> (r: CredentialStore)
        ensures
            r.wf(),
            r.view() == Map::<Seq<char>, Seq<char>>::empty(),
    {
        let r = CredentialStore { passwords: StrMap::new() };
        assert(r.view() =~= Map::<Seq<char>, Seq<char>>::empty());
        r
    }

    /// Stores the password of `source_name`, replacing any.
    pub fn store_ssh_password(&mut self, source_name: &str, password: &str)
        requires
            old(self).wf(),
        ensures
            final(self).wf(),
            final(self).view() == old(self).view().insert(source_name@, password@),
    {
        self.passwords.insert(copy_str(source_name), copy_str(password));
        assert(self.view() =~= old(self).view().insert(source_name@, password@));
    }

    /// The stored password of `source_name`, if any.
    pub fn get_ssh_password(&self, source_name: &str) -> (r: Option<String>)
        requires
            self.wf(),
        ensures
            crate::alert::opt_view(r) == (if self.view().contains_key(source_name@) {
                Some(self.view()[source_name@])
            } else {
                None
            }),
    {
        match self.passwords.get(source_name) {
            Some(p) => Some(copy_str(p.as_str())),
            None => None,
        }
    }

    /// Forgets the password of `source_name`.
    pub fn delete_ssh_password(&mut self, source_name: &str)
        requires
            old(self).wf(),
        ensures
            final(self).wf(),
            final(self).view() == old(self).view().remove(source_name@),
    {
        let _ = self.passwords.remove(source_name);
        assert(self.view() =~= old(self).view().remove(source_name@));
    }

    /// The stored pairs (source name, password), in the order first stored.
    pub fn pairs(&self) -> (r: Vec<(String, String)>)
        requires
            self.wf(),
        ensures
            forall|k: int| 0 <= k < r@.len() ==> #[trigger] self.view().contains_key(r@[k].0@) && self.view()[r@[k].0@] == r@[k].1@,
            r@.len() == self.view().dom().len(),
            pair_views(r@) == self.stored_pairs(),
    {
        let n = self.passwords.len();
        assert(self.view().dom() =~= self.passwords.view().dom());
        let mut r: Vec<(String, String)> = Vec::new();
        let mut i: usize = 0;
        proof {
            crate::strmap::lemma_to_map(self.passwords.entries());
        }
        while i < n
            invariant
                self.wf(),
                n == self.passwords.entries().len(),
                i <= n,
                r@.len() == i,
                forall|k: int| 0 <= k < i ==> #[trigger] self.view().contains_key(r@[k].0@) && self.view()[r@[k].0@] == r@[k].1@,
                pair_views(r@) == self.stored_pairs().take(i as int),
            decreases n - i,
        {
            let (name, pwd) = self.passwords.entry_at(i);
            proof {
                crate::strmap::lemma_to_map(self.passwords.entries());
            }
            r.push((copy_str(name.as_str()), copy_str(pwd.as_str())));
            assert(pair_views(r@) =~= self.stored_pairs().take(i + 1));
            i += 1;
        }
        assert(self.stored_pairs().take(n as int) =~= self.stored_pairs());
        r
    }

    /// The store holding `pairs`, a later pair replacing an earlier one of
    /// the same name.
    pub fn from_pairs(pairs: &Vec<(String, String)>) -> (r: CredentialStore)
        ensures
            r.wf(),
            r.view() == pairs_map(pair_views(pairs@)),
    {
        let mut store = CredentialStore::new();
        let mut i: usize = 0;
        while i < pairs.len()
            invariant
                i <= pairs@.len(),
                store.wf(),
                store.view() == pairs_map(pair_views(pairs@.take(i as int))),
            decreases pairs@.len() - i,
        {
            assert(pair_views(pairs@.take(i + 1)).drop_last() =~= pair_views(pairs@.take(i as int)));
            store.store_ssh_password(pairs[i].0.as_str(), pairs[i].1.as_str());
            i += 1;
        }
        assert(pairs@.take(pairs@.len() as int) =~= pairs@);
        store
    }

    /// The file's text for the store under `key`, with `nonce`.
    pub fn encrypted_text(&self, key: &[u8; 32], nonce: &[u8; 12]) -> (r: Option<String>)
        requires
            self.wf(),
        ensures
            crate::alert::opt_view(r) == sealed_text(key@, nonce@, encode_utf8(json_text_of(self.stored_pairs()))),
            r matches Some(t) ==> text_store_map(key@, t@) == Some(self.view()),
    {
        let pairs = self.pairs();
        let json = write_json_pairs(&pairs);
        let r = seal_frame(key, nonce, json.as_str().as_bytes());
        proof {
            lemma_pairs_map_entries(self.passwords.entries());
            vstd::utf8::encode_utf8_valid_utf8(json@);
            vstd::utf8::encode_utf8_decode_utf8(json@);
            if r is Some {
                lemma_frame_round_trip(key@, nonce@, encode_utf8(json@), r->0@);
            }
        }
        r
    }

    /// The store read from the file's text under `key`: empty when the data
    /// is shorter than a nonce; otherwise the JSON object of strings that the
    /// plaintext holds.
    pub fn from_encrypted_text(key: &[u8; 32], text: &str) -> (r: Result<CredentialStore, CredentialError>)
        ensures
            r matches Ok(s) ==> s.wf() && s.view() == match opened_text(key@, text@) {
                Ok(Some(p)) => match json_string_pairs(decode_utf8(p)) {
                    Some(ps) => pairs_map(ps),
                    None => Map::empty(),
                },
                _ => Map::empty(),
            },
            r is Err <==> (match opened_text(key@, text@) {
                Err(_) => true,
                Ok(None) => false,
                Ok(Some(p)) => !valid_utf8(p) || json_string_pairs(decode_utf8(p)) is None,
            }),
            match r {
                Ok(s) => text_store_map(key@, text@) == Some(s.view()),
                Err(_) => text_store_map(key@, text@) is None,
            },
    {
        let plain = match open_frame(key, text) {
            Ok(Some(p)) => p,
            Ok(None) => {
                return Ok(CredentialStore::new());
            },
            Err(e) => {
                return Err(e);
            },
        };
        let json = match utf8_string(plain.as_slice()) {
            Some(s) => s,
            None => {
                return Err(CredentialError::Utf8);
            },
        };
        match parse_json_pairs(json.as_str()) {
            Some(pairs) => Ok(CredentialStore::from_pairs(&pairs)),
            None => Err(CredentialError::Json),
        }
    }
}

/// The passwords a file's text holds under `key`: none when it does not
/// open, is not UTF-8 or is not a JSON object of strings; an empty store
/// when the data is shorter than a nonce.
pub open spec fn text_store_map(key: Seq<u8>, text: Seq<char>) -> Option<Map<Seq<char>, Seq<char>>> {
    match opened_text(key, text) {
        Ok(Some(p)) => if valid_utf8(p) {
            match json_string_pairs(decode_utf8(p)) {
                Some(ps) => Some(pairs_map(ps)),
                None => None,
            }
        } else {
            None
        },
        Ok(None) => Some(Map::empty()),
        Err(_) => None,
    }
}

/// The stored entries, as pairs of characters, make the store's map.
proof fn lemma_pairs_map_entries(s: Seq<(String, String)>)
    ensures
        pairs_map(s.map_values(|e: (String, String)| (e.0@, e.1@))) == crate::strmap::to_map(s).map_values(
            |p: String| p@,
        ),
    decreases s.len(),
{
    let f = |e: (String, String)| (e.0@, e.1@);
    if s.len() == 0 {
        assert(s.map_values(f) =~= Seq::<(Seq<char>, Seq<char>)>::empty());
        assert(crate::strmap::to_map(s).map_values(|p: String| p@) =~= Map::<Seq<char>, Seq<char>>::empty());
    } else {
        lemma_pairs_map_entries(s.drop_last());
        assert(s.map_values(f).drop_last() =~= s.drop_last().map_values(f));
        assert(crate::strmap::to_map(s).map_values(|p: String| p@) =~= crate::strmap::to_map(s.drop_last()).map_values(
            |p: String| p@,
        ).insert(s.last().0@, s.last().1@));
    }
}

/// The map holding `pairs`, a later pair replacing an earlier one of the same
/// name.
pub open spec fn pairs_map(pairs: Seq<(Seq<char>, Seq<char>)>) -> Map<Seq<char>, Seq<char>>
    decreases pairs.len(),
{
    if pairs.len() == 0 {
        Map::empty()
    } else {
        pairs_map(pairs.drop_last()).insert(pairs.last().0, pairs.last().1)
    }
}

/// A password stored for a name is what is then read for it.
pub proof fn lemma_get_after_store(m: Map<Seq<char>, Seq<char>>, name: Seq<char>, password: Seq<char>)
    ensures
        m.insert(name, password).contains_key(name),
        m.insert(name, password)[name] == password,
{
}

/// Storing a password for one name leaves every other name's password as it
/// was.
pub proof fn lemma_store_keeps_others(m: Map<Seq<char>, Seq<char>>, name: Seq<char>, password: Seq<char>, other: Seq<char>)
    requires
        other != name,
    ensures
        m.insert(name, password).contains_key(other) == m.contains_key(other),
        m.contains_key(other) ==> m.insert(name, password)[other] == m[other],
{
}

/// After a name's password is deleted, none is read for it.
pub proof fn lemma_get_after_delete(m: Map<Seq<char>, Seq<char>>, name: Seq<char>)
    ensures
        !m.remove(name).contains_key(name),
{
}

} // verus!
