//! Connection profiles and their encrypted store: the key kept as hex in
//! the system keyring, the AES-256-GCM payload of the profile list (a
//! random nonce, then the ciphertext), and the list operations that edit
//! it.
use vstd::prelude::*;
use aes_gcm::aead::{Aead, KeyInit};
use crate::manager::error::ServerManagerError;
use crate::text::append_str;

verus! {

// ------------------------------------------------------------------
// Profiles
// ------------------------------------------------------------------

/// How to reach one host: an id, a display name, the host, the SSH user
/// and the path of the SSH key.
pub struct ConnectionProfile {
    pub id: String,
    pub name: String,
    pub host: String,
    pub username: String,
    pub key_path: String,
}

pub struct ProfileView {
    pub id: Seq<char>,
    pub name: Seq<char>,
    pub host: Seq<char>,
    pub username: Seq<char>,
    pub key_path: Seq<char>,
}

impl View for ConnectionProfile {
    type V = ProfileView;

    open spec fn view(&self) -> ProfileView {
        ProfileView {
            id: self.id@,
            name: self.name@,
            host: self.host@,
            username: self.username@,
            key_path: self.key_path@,
        }
    }
}

impl ConnectionProfile {
    /// A copy of this profile.
    pub fn duplicate(&self) -> (r: ConnectionProfile)
        ensures
            r@ == self@,
    {
        ConnectionProfile {
            id: self.id.clone(),
            name: self.name.clone(),
            host: self.host.clone(),
            username: self.username.clone(),
            key_path: self.key_path.clone(),
        }
    }
}

pub open spec fn profile_views(ps: Seq<ConnectionProfile>) -> Seq<ProfileView> {
    ps.map_values(|p: ConnectionProfile| p@)
}

pub open spec fn profile_ids(ps: Seq<ProfileView>) -> Seq<Seq<char>> {
    ps.map_values(|p: ProfileView| p.id)
}

/// The first profile of `ps` with the id `id`.
pub open spec fn find_by_id(ps: Seq<ProfileView>, id: Seq<char>) -> Option<ProfileView> {
    match profile_ids(ps).index_of_first(id) {
        Some(i) => Some(ps[i]),
        None => None,
    }
}

/// `ps` with `p` saved: in the place of the first profile with its id,
/// else at the end.
pub open spec fn upsert(ps: Seq<ProfileView>, p: ProfileView) -> Seq<ProfileView> {
    match profile_ids(ps).index_of_first(p.id) {
        Some(i) => ps.update(i, p),
        None => ps.push(p),
    }
}

/// `ps` without the profiles with the id `id`, in order.
pub open spec fn without_id(ps: Seq<ProfileView>, id: Seq<char>) -> Seq<ProfileView>
    decreases ps.len(),
{
    if ps.len() == 0 {
        Seq::empty()
    } else {
        let prev = without_id(ps.drop_last(), id);
        if ps.last().id == id {
            prev
        } else {
            prev.push(ps.last())
        }
    }
}

/// No two profiles of `ps` have the same id.
pub open spec fn unique_ids(ps: Seq<ProfileView>) -> bool {
    forall|i: int, j: int| 0 <= i < j < ps.len() ==> ps[i].id != ps[j].id
}

fn profile_position(ps: &Vec<ConnectionProfile>, id: &str) -> (r: Option<usize>)
    ensures
        match r {
            Some(i) => i < ps@.len() && profile_ids(profile_views(ps@)).index_of_first(id@) == Some(
                i as int,
            ),
            None => profile_ids(profile_views(ps@)).index_of_first(id@) is None,
        },
{
    let ghost ids = profile_ids(profile_views(ps@));
    let key = crate::text::str_chars(id);
    let mut i: usize = 0;
    while i < ps.len()
        invariant
            i <= ps@.len(),
            key@ == id@,
            ids == profile_ids(profile_views(ps@)),
            forall|j: int| 0 <= j < i ==> ids[j] != id@,
        decreases ps@.len() - i,
    {
        let pid = crate::text::str_chars(ps[i].id.as_str());
        assert(ids[i as int] == ps@[i as int].id@);
        if crate::text::chars_eq(pid.as_slice(), key.as_slice()) {
            proof {
                crate::net::catalog::lemma_first_index(ids, id@, i as int);
            }
            return Some(i);
        }
        i = i + 1;
    }
    proof {
        crate::net::catalog::lemma_no_index(ids, id@);
    }
    None
}

/// The first profile with the id `id`, as a copy.
pub fn find_profile(ps: &Vec<ConnectionProfile>, id: &str) -> (r: Option<ConnectionProfile>)
    ensures
        match r {
            Some(p) => find_by_id(profile_views(ps@), id@) == Some(p@),
            None => find_by_id(profile_views(ps@), id@) is None,
        },
{
    match profile_position(ps, id) {
        Some(i) => Some(ps[i].duplicate()),
        None => None,
    }
}

/// Saves `p` in `ps`: it replaces the first profile with its id, or is
/// added at the end.
pub fn upsert_profile(ps: &mut Vec<ConnectionProfile>, p: ConnectionProfile)
    ensures
        profile_views(final(ps)@) == upsert(profile_views(old(ps)@), p@),
{
    let ghost before = profile_views(ps@);
    let ghost pv = p@;
    match profile_position(ps, p.id.as_str()) {
        Some(i) => {
            ps[i] = p;
            assert(profile_views(ps@) =~= before.update(i as int, pv));
        },
        None => {
            ps.push(p);
            assert(profile_views(ps@) =~= before.push(pv));
        },
    }
}

/// Removes every profile with the id `id` from `ps`, keeping the order of
/// the others.
pub fn remove_profiles_with_id(ps: &mut Vec<ConnectionProfile>, id: &str)
    ensures
        profile_views(final(ps)@) == without_id(profile_views(old(ps)@), id@),
{
    let ghost all = profile_views(ps@);
    let key = crate::text::str_chars(id);
    let mut kept: Vec<ConnectionProfile> = Vec::new();
    let mut i: usize = 0;
    while i < ps.len()
        invariant
            i <= ps@.len(),
            key@ == id@,
            all == profile_views(ps@),
            profile_views(kept@) == without_id(all.take(i as int), id@),
        decreases ps@.len() - i,
    {
        let ghost tk = all.take(i + 1);
        assert(tk.drop_last() =~= all.take(i as int));
        assert(tk.last() == ps@[i as int]@);
        let pid = crate::text::str_chars(ps[i].id.as_str());
        if !crate::text::chars_eq(pid.as_slice(), key.as_slice()) {
            let c = ps[i].duplicate();
            let ghost before = profile_views(kept@);
            kept.push(c);
            assert(profile_views(kept@) =~= before.push(c@));
        }
        i = i + 1;
    }
    assert(all.take(ps@.len() as int) =~= all);
    *ps = kept;
}

// ------------------------------------------------------------------
// Laws of the profile list
// ------------------------------------------------------------------

/// A saved profile is found under its id.
pub proof fn lemma_find_after_upsert(ps: Seq<ProfileView>, p: ProfileView)
    ensures
        find_by_id(upsert(ps, p), p.id) == Some(p),
{
    let ids = profile_ids(ps);
    ids.index_of_first_ensures(p.id);
    let up = upsert(ps, p);
    let uids = profile_ids(up);
    match ids.index_of_first(p.id) {
        Some(i) => {
            assert forall|j: int| 0 <= j < i implies uids[j] != p.id by {
                assert(uids[j] == ids[j]);
            }
            crate::net::catalog::lemma_first_index(uids, p.id, i);
        },
        None => {
            assert forall|j: int| 0 <= j < ps.len() implies uids[j] != p.id by {
                assert(uids[j] == ids[j]);
                assert(!ids.contains(p.id));
            }
            assert(uids[ps.len() as int] == p.id);
            crate::net::catalog::lemma_first_index(uids, p.id, ps.len() as int);
        },
    }
}

/// Saving a profile leaves what is found under every other id unchanged.
pub proof fn lemma_upsert_keeps_others(ps: Seq<ProfileView>, p: ProfileView, id: Seq<char>)
    requires
        id != p.id,
    ensures
        find_by_id(upsert(ps, p), id) == find_by_id(ps, id),
{
    let ids = profile_ids(ps);
    let up = upsert(ps, p);
    let uids = profile_ids(up);
    ids.index_of_first_ensures(p.id);
    ids.index_of_first_ensures(id);
    match ids.index_of_first(id) {
        Some(k) => {
            assert forall|j: int| 0 <= j < k implies uids[j] != id by {
                if j < ps.len() {
                    assert(uids[j] == ids[j] || uids[j] == p.id);
                }
            }
            assert(uids[k] == ids[k]);
            crate::net::catalog::lemma_first_index(uids, id, k);
            assert(up[k] == ps[k]);
        },
        None => {
            assert forall|j: int| 0 <= j < uids.len() implies uids[j] != id by {
                if j < ps.len() {
                    assert(uids[j] == ids[j] || uids[j] == p.id);
                }
            }
            crate::net::catalog::lemma_no_index(uids, id);
        },
    }
}

/// Saving a profile keeps the ids unique.
pub proof fn lemma_upsert_unique(ps: Seq<ProfileView>, p: ProfileView)
    requires
        unique_ids(ps),
    ensures
        unique_ids(upsert(ps, p)),
{
    let ids = profile_ids(ps);
    ids.index_of_first_ensures(p.id);
    let up = upsert(ps, p);
    match ids.index_of_first(p.id) {
        Some(i) => {
            assert forall|a: int, b: int| 0 <= a < b < up.len() implies up[a].id != up[b].id by {
                if a == i {
                    assert(ids[b] == ps[b].id);
                } else if b == i {
                    assert(ids[a] == ps[a].id);
                }
            }
        },
        None => {
            assert forall|a: int, b: int| 0 <= a < b < up.len() implies up[a].id != up[b].id by {
                if b == ps.len() {
                    assert(ids[a] == ps[a].id);
                }
            }
        },
    }
}

proof fn lemma_without_id_members(ps: Seq<ProfileView>, id: Seq<char>)
    ensures
        forall|k: int| 0 <= k < without_id(ps, id).len() ==> without_id(ps, id)[k].id != id,
        forall|k: int| 0 <= k < without_id(ps, id).len() ==> ps.contains(#[trigger] without_id(ps, id)[k]),
        forall|k: int| 0 <= k < ps.len() && ps[k].id != id ==> without_id(ps, id).contains(#[trigger] ps[k]),
    decreases ps.len(),
{
    if ps.len() > 0 {
        lemma_without_id_members(ps.drop_last(), id);
        let prev = without_id(ps.drop_last(), id);
        let w = without_id(ps, id);
        assert forall|k: int| 0 <= k < w.len() implies ps.contains(#[trigger] w[k]) by {
            if k < prev.len() {
                assert(w[k] == prev[k]);
                let j = choose|j: int| 0 <= j < ps.drop_last().len() && ps.drop_last()[j] == prev[k];
                assert(ps[j] == w[k]);
            } else {
                assert(ps[ps.len() - 1] == w[k]);
            }
        }
        assert forall|k: int| 0 <= k < ps.len() && ps[k].id != id implies w.contains(#[trigger] ps[k]) by {
            if k < ps.len() - 1 {
                assert(ps.drop_last()[k] == ps[k]);
                let j = choose|j: int| 0 <= j < prev.len() && prev[j] == ps[k];
                assert(w[j] == ps[k]);
            } else {
                assert(w[w.len() - 1] == ps[k]);
            }
        }
    }
}

/// After removing the profiles with an id, none is found under it.
pub proof fn lemma_find_after_remove(ps: Seq<ProfileView>, id: Seq<char>)
    ensures
        find_by_id(without_id(ps, id), id) is None,
{
    lemma_without_id_members(ps, id);
    let w = without_id(ps, id);
    crate::net::catalog::lemma_no_index(profile_ids(w), id);
}

/// Removing the profiles with an id keeps the others, in order: every
/// profile with another id is still there, and nothing new is.
pub proof fn lemma_remove_keeps_others(ps: Seq<ProfileView>, id: Seq<char>)
    ensures
        forall|k: int| 0 <= k < ps.len() && ps[k].id != id ==> without_id(ps, id).contains(#[trigger] ps[k]),
        forall|k: int| 0 <= k < without_id(ps, id).len() ==> ps.contains(#[trigger] without_id(ps, id)[k]),
{
    lemma_without_id_members(ps, id);
}

// ------------------------------------------------------------------
// The key, stored as hex
// ------------------------------------------------------------------

/// A hex digit in either case.
pub open spec fn is_hex_digit(c: char) -> bool {
    ('0' <= c && c <= '9') || ('a' <= c && c <= 'f') || ('A' <= c && c <= 'F')
}

/// The value of the hex digit `c`.
pub open spec fn hex_value(c: char) -> int {
    if '0' <= c && c <= '9' {
        c as int - '0' as int
    } else if 'a' <= c && c <= 'f' {
        c as int - 'a' as int + 10
    } else {
        c as int - 'A' as int + 10
    }
}

/// What `hex::decode` gives for `s`: the bytes of its digit pairs where
/// it is an even number of hex digits, else nothing.
pub open spec fn hex_decoded(s: Seq<char>) -> Option<Seq<u8>> {
    if s.len() % 2 == 0 && forall|i: int| 0 <= i < s.len() ==> is_hex_digit(#[trigger] s[i]) {
        Some(Seq::new(s.len() / 2, |i: int| (hex_value(s[2 * i]) * 16 + hex_value(s[2 * i + 1])) as u8))
    } else {
        None
    }
}

/// The lower-case hex digit of `d` (below 16).
pub open spec fn hex_char(d: int) -> char {
    if d < 10 {
        (('0' as int) + d) as char
    } else {
        (('a' as int) + d - 10) as char
    }
}

/// What `hex::encode` gives for `b`: two lower-case digits per byte,
/// the high one first.
pub open spec fn hex_encoded(b: Seq<u8>) -> Seq<char> {
    Seq::new(
        2 * b.len(),
        |i: int|
            if i % 2 == 0 {
                hex_char(b[i / 2] as int / 16)
            } else {
                hex_char(b[i / 2] as int % 16)
            },
    )
}

/// `hex::decode`: the bytes of an even number of hex digits (either case,
/// high digit first), nothing for any other text.
#[verifier::external_body]
fn hex_decode(s: &str) -> (r: Option<Vec<u8>>)
    ensures
        match r {
            Some(b) => hex_decoded(s@) == Some(b@),
            None => hex_decoded(s@) is None,
        },
{
    hex::decode(s).ok()
}

/// `hex::encode`: two lower-case hex digits per byte.
#[verifier::external_body]
fn hex_encode(b: &[u8]) -> (r: String)
    ensures
        r@ == hex_encoded(b@),
{
    hex::encode(b)
}

proof fn lemma_hex_char(d: int)
    requires
        0 <= d < 16,
    ensures
        is_hex_digit(hex_char(d)),
        hex_value(hex_char(d)) == d,
{
}

/// Reading back the hex of a key gives the key.
pub proof fn lemma_hex_roundtrip(b: Seq<u8>)
    ensures
        hex_decoded(hex_encoded(b)) == Some(b),
{
    let s = hex_encoded(b);
    assert forall|i: int| 0 <= i < s.len() implies is_hex_digit(#[trigger] s[i]) by {
        if i % 2 == 0 {
            lemma_hex_char(b[i / 2] as int / 16);
        } else {
            lemma_hex_char(b[i / 2] as int % 16);
        }
    }
    assert(s.len() % 2 == 0) by (nonlinear_arith)
        requires
            s.len() == 2 * b.len(),
    ;
    let d = hex_decoded(s)->0;
    assert(s.len() / 2 == b.len()) by (nonlinear_arith)
        requires
            s.len() == 2 * b.len(),
    ;
    assert forall|i: int| 0 <= i < b.len() implies d[i] == b[i] by {
        assert((2 * i) % 2 == 0) by (nonlinear_arith);
        assert((2 * i + 1) % 2 == 1) by (nonlinear_arith);
        assert((2 * i) / 2 == i) by (nonlinear_arith);
        assert((2 * i + 1) / 2 == i) by (nonlinear_arith);
        lemma_hex_char(b[i] as int / 16);
        lemma_hex_char(b[i] as int % 16);
        assert((b[i] as int / 16) * 16 + b[i] as int % 16 == b[i] as int) by (nonlinear_arith);
    }
    assert(d =~= b);
}

// ------------------------------------------------------------------
// AES-256-GCM
// ------------------------------------------------------------------

#[verifier::external_type_specification]
#[verifier::external_body]
pub struct ExAeadError(aes_gcm::aead::Error);

/// The largest plaintext that AES-GCM encrypts, in bytes.
pub open spec fn plaintext_max() -> nat {
    68719476736
}

/// The ciphertext (with its tag) that AES-256-GCM makes of `plaintext`
/// under `key` and `nonce`, without associated data.
pub uninterp spec fn aes_gcm_sealed(key: Seq<u8>, nonce: Seq<u8>, plaintext: Seq<u8>) -> Seq<u8>;

/// What AES-256-GCM decryption of `ciphertext` under `key` and `nonce`
/// gives: the plaintext, or nothing where the tag does not match.
pub uninterp spec fn aes_gcm_opened(key: Seq<u8>, nonce: Seq<u8>, ciphertext: Seq<u8>) -> Option<Seq<u8>>;

/// `Aes256Gcm::encrypt` with no associated data: a plaintext of at most
/// 2^36 bytes is sealed (the result named, 16 bytes longer), a longer one
/// refused. The cipher itself is not written out.
#[verifier::external_body]
fn aes_encrypt(key: &[u8], nonce: &[u8], plaintext: &[u8]) -> (r: Result<Vec<u8>, aes_gcm::aead::Error>)
    requires
        key@.len() == 32,
        nonce@.len() == 12,
    ensures
        match r {
            Ok(c) => plaintext@.len() <= plaintext_max() && c@ == aes_gcm_sealed(key@, nonce@, plaintext@)
                && c@.len() == plaintext@.len() + 16,
            Err(_) => plaintext@.len() > plaintext_max(),
        },
{
    let cipher = aes_gcm::Aes256Gcm::new(aes_gcm::Key::<aes_gcm::Aes256Gcm>::from_slice(key));
    cipher.encrypt(aes_gcm::Nonce::from_slice(nonce), plaintext)
}

/// `Aes256Gcm::decrypt` with no associated data: the result is named;
/// and what `encrypt` sealed under the same key and nonce opens to the
/// plaintext that was sealed.
#[verifier::external_body]
fn aes_decrypt(key: &[u8], nonce: &[u8], ciphertext: &[u8]) -> (r: Option<Vec<u8>>)
    requires
        key@.len() == 32,
        nonce@.len() == 12,
    ensures
        match r {
            Some(p) => aes_gcm_opened(key@, nonce@, ciphertext@) == Some(p@),
            None => aes_gcm_opened(key@, nonce@, ciphertext@) is None,
        },
        forall|p: Seq<u8>|
            p.len() <= plaintext_max() && ciphertext@ == #[trigger] aes_gcm_sealed(key@, nonce@, p)
                ==> match r {
                Some(q) => q@ == p,
                None => false,
            },
{
    let cipher = aes_gcm::Aes256Gcm::new(aes_gcm::Key::<aes_gcm::Aes256Gcm>::from_slice(key));
    cipher.decrypt(aes_gcm::Nonce::from_slice(nonce), ciphertext).ok()
}

/// The text of an AES-GCM error (`aead::Error`'s `Display`).
#[verifier::external_body]
fn aead_error_text(e: &aes_gcm::aead::Error) -> (r: String)
    ensures
        r@ == "aead::Error"@,
{
    e.to_string()
}

// ------------------------------------------------------------------
// The profile store
// ------------------------------------------------------------------

/// The key that encrypts the profile store.
pub struct ProfileManager {
    encryption_key: [u8; 32],
}

/// The file that holds the encrypted profile list.
pub fn profiles_path() -> (r: &'static str)
    ensures
        r@ == "profiles.json"@,
{
    "profiles.json"
}

/// The name under which the keyring holds the store's key: service and
/// user.
pub fn keyring_entry() -> (r: (&'static str, &'static str))
    ensures
        r.0@ == "ac-cloud-server-manager"@,
        r.1@ == "encryption_key"@,
{
    ("ac-cloud-server-manager", "encryption_key")
}

/// The key read from its stored hex: the decoded bytes where they are 32,
/// else all zeros.
pub open spec fn key_from_hex(hex: Seq<char>) -> Seq<u8> {
    match hex_decoded(hex) {
        Some(b) => if b.len() == 32 {
            b
        } else {
            Seq::new(32, |i: int| 0u8)
        },
        None => Seq::new(32, |i: int| 0u8),
    }
}

/// A store opened with the hex that an earlier store asked to keep in
/// the keyring uses that store's key: the hex of a 32-byte key reads back
/// as the key.
pub proof fn lemma_kept_key_reopens(fresh: Seq<u8>)
    requires
        fresh.len() == 32,
    ensures
        key_from_hex(hex_encoded(fresh)) == fresh,
{
    lemma_hex_roundtrip(fresh);
}

/// The payload of a store: the nonce, then the ciphertext of the profile
/// list's JSON under `key`.
pub open spec fn sealed_payload(key: Seq<u8>, nonce: Seq<u8>, json: Seq<u8>) -> Seq<u8> {
    nonce + aes_gcm_sealed(key, nonce, json)
}

impl ProfileManager {
    /// The key of this store.
    pub closed spec fn key(&self) -> Seq<u8> {
        self.encryption_key@
    }

    /// The store of the keyring's key. `stored` is the hex that the
    /// keyring holds, where it could be read; where it could not, the
    /// random `fresh` key is used, and its hex is returned to be stored.
    pub fn new(stored: Option<&str>, fresh: &[u8; 32]) -> (r: (ProfileManager, Option<String>))
        ensures
            match stored {
                Some(h) => r.0.key() == key_from_hex(h@) && r.1 is None,
                None => r.0.key() == key_from_hex(hex_encoded(fresh@)) && (r.1 matches Some(h) && h@
                    == hex_encoded(fresh@)),
            },
    {
        let (hex, to_store) = match stored {
            Some(h) => {
                let mut s = String::new();
                append_str(&mut s, h);
                (s, None)
            },
            None => {
                let h = hex_encode(fresh);
                let copy = h.clone();
                (h, Some(copy))
            },
        };
        let mut key = [0u8; 32];
        match hex_decode(hex.as_str()) {
            Some(bytes) => {
                if bytes.len() == 32 {
                    let mut i: usize = 0;
                    while i < 32
                        invariant
                            i <= 32,
                            bytes@.len() == 32,
                            key@.len() == 32,
                            forall|j: int| 0 <= j < i ==> key@[j] == bytes@[j],
                            forall|j: int| i <= j < 32 ==> key@[j] == 0u8,
                        decreases 32 - i,
                    {
                        key[i] = bytes[i];
                        i = i + 1;
                    }
                    assert(key@ =~= bytes@);
                } else {
                    assert(key@ =~= Seq::new(32, |i: int| 0u8));
                }
            },
            None => {
                assert(key@ =~= Seq::new(32, |i: int| 0u8));
            },
        }
        (ProfileManager { encryption_key: key }, to_store)
    }

    /// The payload that stores the profile list's JSON `json`, encrypted
    /// with the random `nonce`: the nonce, then the ciphertext. Where the
    /// JSON is too long to encrypt, a crypto error.
    pub fn save_profiles(&self, json: &[u8], nonce: &[u8; 12]) -> (r: Result<Vec<u8>, ServerManagerError>)
        ensures
            json@.len() <= plaintext_max() ==> (r matches Ok(p) && p@ == sealed_payload(
                self.key(),
                nonce@,
                json@,
            ) && p@.len() == 12 + json@.len() + 16),
            json@.len() > plaintext_max() ==> (r matches Err(ServerManagerError::CryptoError(m))
                && m@ == "Encryption failed: aead::Error"@),
    {
        match aes_encrypt(self.encryption_key.as_slice(), nonce.as_slice(), json) {
            Ok(ct) => {
                let mut payload: Vec<u8> = Vec::new();
                let mut i: usize = 0;
                while i < 12
                    invariant
                        i <= 12,
                        nonce@.len() == 12,
                        payload@ == nonce@.take(i as int),
                    decreases 12 - i,
                {
                    payload.push(nonce[i]);
                    i = i + 1;
                    assert(payload@ =~= nonce@.take(i as int));
                }
                let mut k: usize = 0;
                while k < ct.len()
                    invariant
                        k <= ct@.len(),
                        nonce@.len() == 12,
                        payload@ == nonce@ + ct@.take(k as int),
                    decreases ct@.len() - k,
                {
                    payload.push(ct[k]);
                    k = k + 1;
                    assert(payload@ =~= nonce@ + ct@.take(k as int));
                }
                assert(ct@.take(ct@.len() as int) =~= ct@);
                assert(nonce@.take(12) =~= nonce@);
                Ok(payload)
            },
            Err(e) => {
                let mut m = String::new();
                append_str(&mut m, "Encryption failed: ");
                let t = aead_error_text(&e);
                append_str(&mut m, t.as_str());
                proof {
                    reveal_strlit("Encryption failed: ");
                    reveal_strlit("aead::Error");
                    reveal_strlit("Encryption failed: aead::Error");
                    assert(m@ =~= "Encryption failed: aead::Error"@);
                }
                Err(ServerManagerError::CryptoError(m))
            },
        }
    }

    /// The profile list's JSON stored in `payload`: a crypto error where
    /// the payload is shorter than a nonce; nothing where it does not
    /// decrypt with this store's key (a changed key); else the plaintext.
    /// A payload that `save_profiles` made with the same key gives back
    /// the JSON that it stored.
    pub fn load_profiles(&self, payload: &[u8]) -> (r: Result<Option<Vec<u8>>, ServerManagerError>)
        ensures
            payload@.len() < 12 ==> (r matches Err(ServerManagerError::CryptoError(m)) && m@
                == "Payload too short"@),
            payload@.len() >= 12 ==> (r matches Ok(o) && match o {
                Some(p) => aes_gcm_opened(self.key(), payload@.take(12), payload@.skip(12)) == Some(
                    p@,
                ),
                None => aes_gcm_opened(self.key(), payload@.take(12), payload@.skip(12)) is None,
            }),
            forall|nonce: Seq<u8>, json: Seq<u8>|
                nonce.len() == 12 && json.len() <= plaintext_max() && payload@ == #[trigger] sealed_payload(
                    self.key(),
                    nonce,
                    json,
                ) ==> (r matches Ok(Some(p)) && p@ == json),
    {
        if payload.len() < 12 {
            let mut m = String::new();
            append_str(&mut m, "Payload too short");
            return Err(ServerManagerError::CryptoError(m));
        }
        let mut nonce = [0u8; 12];
        let mut i: usize = 0;
        while i < 12
            invariant
                i <= 12,
                payload@.len() >= 12,
                nonce@.len() == 12,
                forall|j: int| 0 <= j < i ==> nonce@[j] == payload@[j],
            decreases 12 - i,
        {
            nonce[i] = payload[i];
            i = i + 1;
        }
        assert(nonce@ =~= payload@.take(12));
        let mut ct: Vec<u8> = Vec::new();
        let mut k: usize = 12;
        while k < payload.len()
            invariant
                12 <= k <= payload@.len(),
                ct@ == payload@.subrange(12, k as int),
            decreases payload@.len() - k,
        {
            ct.push(payload[k]);
            k = k + 1;
            assert(ct@ =~= payload@.subrange(12, k as int));
        }
        assert(ct@ =~= payload@.skip(12));
        let opened = aes_decrypt(self.encryption_key.as_slice(), nonce.as_slice(), ct.as_slice());
        proof {
            assert forall|n: Seq<u8>, json: Seq<u8>|
                n.len() == 12 && json.len() <= plaintext_max() && payload@ == #[trigger] sealed_payload(
                    self.key(),
                    n,
                    json,
                ) implies (opened matches Some(q) && q@ == json) by {
                assert(payload@.take(12) =~= n);
                assert(payload@.skip(12) =~= aes_gcm_sealed(self.key(), n, json));
                assert(ct@ == aes_gcm_sealed(self.encryption_key@, nonce@, json));
            }
        }
        Ok(opened)
    }
}

} // verus!
