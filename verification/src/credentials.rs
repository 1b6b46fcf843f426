//! API keys: how they are hashed, stored, checked and read from a request.

use crate::digest::{hash_text, sha256_hex};
use crate::text::{join_text, spec_head, spec_rest, split_first, str_equal};
use vstd::prelude::*;

verus! {

/// The claims of an access token.
#[derive(Debug)]
pub struct AccessToken {
    /// The user that the token was made for.
    pub sub: String,
    pub id: String,
    /// When the token ends, in seconds since the epoch.
    pub exp: usize,
    /// When the token was made, in seconds since the epoch.
    pub iat: usize,
}

/// Whether a token that ends at `exp` has ended at the time `now`, both in
/// seconds since the epoch.
pub fn is_expired(exp: usize, now: i64) -> (expired: bool)
    ensures
        expired == (now > exp),
{
    if now < 0 {
        false
    } else {
        now as u64 > exp as u64
    }
}

/// An API key with the client that it belongs to, as a request carries them.
#[derive(Debug)]
pub struct UserCredentials {
    pub api_key: String,
    pub user: String,
}

/// Who makes a request: a client with its key, or nobody where the server
/// asks for no key.
#[derive(Debug)]
pub struct User {
    pub credentials: Option<UserCredentials>,
}

/// What is stored of the key of one client.
#[derive(Debug)]
pub struct ApiKeyEntry {
    pub hashed_key: String,
    pub description: String,
}

/// The stored key of a client, under the client's name.
#[derive(Debug)]
pub struct ClientKey {
    pub client: String,
    pub entry: ApiKeyEntry,
}

/// What a `ClientKey` holds, with its strings as sequences.
pub struct ClientKeyView {
    pub client: Seq<char>,
    pub hashed_key: Seq<char>,
    pub description: Seq<char>,
}

impl View for ClientKey {
    type V = ClientKeyView;

    open spec fn view(&self) -> ClientKeyView {
        ClientKeyView {
            client: self.client@,
            hashed_key: self.entry.hashed_key@,
            description: self.entry.description@,
        }
    }
}

/// The views of a sequence of stored keys.
pub open spec fn key_views(keys: Seq<ClientKey>) -> Seq<ClientKeyView> {
    keys.map_values(|key: ClientKey| key@)
}

/// The form in which a key is stored: the SHA-256 digest of the key followed
/// by the server's secret, in lower-case hexadecimal digits.
pub open spec fn spec_hashed_key(api_key: Seq<char>, secret: Seq<char>) -> Seq<char> {
    sha256_hex(api_key + secret)
}

/// Hashes a key with the server's secret, as it is stored.
pub fn hash_api_key(api_key: &str, secret: &str) -> (hashed: String)
    ensures
        hashed@ == spec_hashed_key(api_key@, secret@),
{
    let salted = join_text(api_key, secret);
    hash_text(salted.as_str())
}

/// Whether `encrypted` is the stored form of `api_key` under the server's
/// secret.
pub fn verify_encrypted_key(api_key: &str, encrypted: &str, secret: &str) -> (valid: bool)
    ensures
        valid == (encrypted@ == spec_hashed_key(api_key@, secret@)),
{
    let hashed = hash_api_key(api_key, secret);
    str_equal(encrypted, hashed.as_str())
}

/// The place of the first stored key of `client`.
pub open spec fn spec_position(keys: Seq<ClientKeyView>, client: Seq<char>) -> Option<int>
    decreases keys.len(),
{
    if keys.len() == 0 {
        None
    } else {
        match spec_position(keys.drop_last(), client) {
            Some(i) => Some(i),
            None => if keys.last().client == client {
                Some(keys.len() - 1)
            } else {
                None
            },
        }
    }
}

/// The place of the key of a client holds a key of the client, and no place
/// before it does; a client without place has no key.
pub proof fn lemma_position_bounds(keys: Seq<ClientKeyView>, client: Seq<char>)
    ensures
        match spec_position(keys, client) {
            Some(i) => 0 <= i < keys.len() && keys[i].client == client && forall|j: int|
                0 <= j < i ==> (#[trigger] keys[j]).client != client,
            None => forall|j: int| 0 <= j < keys.len() ==> (#[trigger] keys[j]).client != client,
        },
    decreases keys.len(),
{
    if keys.len() > 0 {
        let front = keys.drop_last();
        lemma_position_bounds(front, client);
        match spec_position(front, client) {
            Some(i) => {
                assert(keys[i] == front[i]);
                assert forall|j: int| 0 <= j < i implies (#[trigger] keys[j]).client
                    != client by {
                    assert(keys[j] == front[j]);
                }
            },
            None => {
                assert forall|j: int| 0 <= j < keys.len() - 1 implies (#[trigger] keys[j]).client
                    != client by {
                    assert(keys[j] == front[j]);
                }
            },
        }
    }
}

/// The first place that holds a key of `client` is the place of its key.
pub proof fn lemma_position_is(keys: Seq<ClientKeyView>, client: Seq<char>, i: int)
    requires
        0 <= i < keys.len(),
        keys[i].client == client,
        forall|j: int| 0 <= j < i ==> (#[trigger] keys[j]).client != client,
    ensures
        spec_position(keys, client) == Some(i),
{
    lemma_position_bounds(keys, client);
    match spec_position(keys, client) {
        Some(found) => {
            if found < i {
                assert(keys[found].client != client);
            }
            if i < found {
                assert(keys[i].client != client);
            }
        },
        None => {
            assert(keys[i].client != client);
        },
    }
}

/// Finds the first stored key of `client`.
pub fn find_key(keys: &Vec<ClientKey>, client: &str) -> (found: Option<usize>)
    ensures
        match found {
            Some(i) => spec_position(key_views(keys@), client@) == Some(i as int) && i
                < keys.len(),
            None => spec_position(key_views(keys@), client@) is None,
        },
{
    let mut at: usize = 0;
    while at < keys.len()
        invariant
            at <= keys.len(),
            forall|j: int| 0 <= j < at ==> (#[trigger] key_views(keys@)[j]).client != client@,
        decreases keys.len() - at,
    {
        if str_equal(keys[at].client.as_str(), client) {
            proof {
                lemma_position_is(key_views(keys@), client@, at as int);
            }
            return Some(at);
        }
        at = at + 1;
    }
    proof {
        lemma_position_bounds(key_views(keys@), client@);
    }
    None
}

/// Whether `api_key` is the key of `client`: a key is stored for the client
/// and it is the stored form of `api_key`.
pub open spec fn spec_verify_for_client(
    keys: Seq<ClientKeyView>,
    api_key: Seq<char>,
    client: Seq<char>,
    secret: Seq<char>,
) -> bool {
    match spec_position(keys, client) {
        Some(i) => keys[i].hashed_key == spec_hashed_key(api_key, secret),
        None => false,
    }
}

/// Checks a key against the stored key of a client. A client without stored
/// key has no valid key.
pub fn verify_encrypted_key_for_client(
    api_key: &str,
    client: &str,
    keys: &Vec<ClientKey>,
    secret: &str,
) -> (valid: bool)
    ensures
        valid == spec_verify_for_client(key_views(keys@), api_key@, client@, secret@),
{
    match find_key(keys, client) {
        Some(at) => verify_encrypted_key(api_key, keys[at].entry.hashed_key.as_str(), secret),
        None => false,
    }
}

/// The key and the client that a token of the form `key:client` names: what
/// stands before the first colon, and what stands between it and the next.
/// A token without colon names none.
pub open spec fn spec_parse_token(token: Seq<char>) -> Option<(Seq<char>, Seq<char>)> {
    match spec_rest(token, ':') {
        Some(rest) => Some((spec_head(token, ':'), spec_head(rest, ':'))),
        None => None,
    }
}

/// Reads the key and the client from a token of the form `key:client`.
pub fn parse_token(token: &str) -> (parsed: Option<(String, String)>)
    ensures
        match parsed {
            Some(pair) => spec_parse_token(token@) == Some((pair.0@, pair.1@)),
            None => spec_parse_token(token@) is None,
        },
{
    let (api_key, rest) = split_first(token, ':');
    match rest {
        Some(rest) => {
            let (client, _) = split_first(rest.as_str(), ':');
            Some((api_key, client))
        },
        None => None,
    }
}

/// Whether a token of the form `key:client` names a client with its key.
pub open spec fn spec_authenticate(
    token: Seq<char>,
    keys: Seq<ClientKeyView>,
    secret: Seq<char>,
) -> bool {
    match spec_parse_token(token) {
        Some((api_key, client)) => spec_verify_for_client(keys, api_key, client, secret),
        None => false,
    }
}

/// Checks the token that a streaming client sends to authenticate. A token
/// that is not of the form `key:client` is not valid.
pub fn authenticate_connection(token: &str, keys: &Vec<ClientKey>, secret: &str) -> (valid: bool)
    ensures
        valid == spec_authenticate(token@, key_views(keys@), secret@),
{
    match parse_token(token) {
        Some((api_key, client)) => verify_encrypted_key_for_client(
            api_key.as_str(),
            client.as_str(),
            keys,
            secret,
        ),
        None => false,
    }
}

/// Why a request is not let in.
#[derive(Clone, Copy, Debug, PartialEq, Eq, Structural)]
pub enum AuthError {
    /// The request carries no key.
    MissingHeader,
    /// The key header is not of the form `key:client`.
    InvalidFormat,
    /// The key is not the key of the client.
    InvalidKey,
}

impl AuthError {
    /// The error in words.
    pub fn message(&self) -> (text: &'static str)
        ensures
            text@ == match self {
                AuthError::MissingHeader => "Missing X-API-KEY  header"@,
                AuthError::InvalidFormat => "Invalid API key format"@,
                AuthError::InvalidKey => "Invalid API key"@,
            },
    {
        match self {
            AuthError::MissingHeader => "Missing X-API-KEY  header",
            AuthError::InvalidFormat => "Invalid API key format",
            AuthError::InvalidKey => "Invalid API key",
        }
    }
}

/// The key and the client that a key header names: the header must hold
/// exactly one colon, with the key before it and the client behind.
pub open spec fn spec_parse_header(header: Seq<char>) -> Option<(Seq<char>, Seq<char>)> {
    match spec_rest(header, ':') {
        Some(rest) => if spec_rest(rest, ':') is None {
            Some((spec_head(header, ':'), rest))
        } else {
            None
        },
        None => None,
    }
}

/// Reads the key and the client from a key header.
pub fn parse_api_key_header(header: &str) -> (parsed: Option<UserCredentials>)
    ensures
        match parsed {
            Some(credentials) => spec_parse_header(header@) == Some(
                (credentials.api_key@, credentials.user@),
            ),
            None => spec_parse_header(header@) is None,
        },
{
    let (api_key, rest) = split_first(header, ':');
    match rest {
        Some(user) => {
            let (_, more) = split_first(user.as_str(), ':');
            match more {
                Some(_) => None,
                None => Some(UserCredentials { api_key, user }),
            }
        },
        None => None,
    }
}

/// Who a request is let in as, or why it is not. A server that asks for no
/// key lets everybody in as nobody. Else the request must carry a key
/// header of the form `key:client` with the key of the client.
pub open spec fn spec_authorize(
    require_auth: bool,
    header: Option<Seq<char>>,
    keys: Seq<ClientKeyView>,
    secret: Seq<char>,
) -> Result<Option<(Seq<char>, Seq<char>)>, AuthError> {
    if !require_auth {
        Ok(None)
    } else {
        match header {
            None => Err(AuthError::MissingHeader),
            Some(header) => match spec_parse_header(header) {
                None => Err(AuthError::InvalidFormat),
                Some((api_key, client)) => if spec_verify_for_client(
                    keys,
                    api_key,
                    client,
                    secret,
                ) {
                    Ok(Some((api_key, client)))
                } else {
                    Err(AuthError::InvalidKey)
                },
            },
        }
    }
}

/// The key and the client of a user, by their views.
pub open spec fn user_view(user: User) -> Option<(Seq<char>, Seq<char>)> {
    match user.credentials {
        Some(credentials) => Some((credentials.api_key@, credentials.user@)),
        None => None,
    }
}

/// Decides whether a request is let in, from its key header.
pub fn authorize(require_auth: bool, header: Option<&str>, keys: &Vec<ClientKey>, secret: &str) -> (user:
    Result<User, AuthError>)
    ensures
        match user {
            Ok(user) => spec_authorize(
                require_auth,
                match header {
                    Some(header) => Some(header@),
                    None => None,
                },
                key_views(keys@),
                secret@,
            ) == Ok::<Option<(Seq<char>, Seq<char>)>, AuthError>(user_view(user)),
            Err(error) => spec_authorize(
                require_auth,
                match header {
                    Some(header) => Some(header@),
                    None => None,
                },
                key_views(keys@),
                secret@,
            ) == Err::<Option<(Seq<char>, Seq<char>)>, AuthError>(error),
        },
{
    if !require_auth {
        return Ok(User { credentials: None });
    }
    let header = match header {
        Some(header) => header,
        None => {
            return Err(AuthError::MissingHeader);
        },
    };
    let credentials = match parse_api_key_header(header) {
        Some(credentials) => credentials,
        None => {
            return Err(AuthError::InvalidFormat);
        },
    };
    if verify_encrypted_key_for_client(
        credentials.api_key.as_str(),
        credentials.user.as_str(),
        keys,
        secret,
    ) {
        Ok(User { credentials: Some(credentials) })
    } else {
        Err(AuthError::InvalidKey)
    }
}

/// The token that answers a successful authentication: the key and the
/// client joined by a colon, or a fixed word for nobody.
pub open spec fn spec_session_token(user: Option<(Seq<char>, Seq<char>)>) -> Seq<char> {
    match user {
        Some((api_key, client)) => api_key + ":"@ + client,
        None => "authorization_skipped"@,
    }
}

/// The token that answers a successful authentication.
pub fn session_token(user: &User) -> (token: String)
    ensures
        token@ == spec_session_token(user_view(*user)),
{
    match &user.credentials {
        Some(credentials) => {
            let front = join_text(credentials.api_key.as_str(), ":");
            join_text(front.as_str(), credentials.user.as_str())
        },
        None => "authorization_skipped".to_owned(),
    }
}

/// The stored keys after the key of `client` was set: it takes the place of
/// the first key stored for the client, or comes last where none was.
pub open spec fn spec_store_key(keys: Seq<ClientKeyView>, key: ClientKeyView) -> Seq<
    ClientKeyView,
> {
    match spec_position(keys, key.client) {
        Some(i) => keys.update(i, key),
        None => keys.push(key),
    }
}

/// Stores the key of a client, in place of the one that was stored for it.
pub fn store_key(keys: &mut Vec<ClientKey>, key: ClientKey)
    ensures
        key_views(final(keys)@) == spec_store_key(key_views(old(keys)@), key@),
{
    let ghost before = key_views(keys@);
    match find_key(keys, key.client.as_str()) {
        Some(at) => {
            keys.set(at, key);
            assert(key_views(keys@) =~= before.update(at as int, key@));
        },
        None => {
            keys.push(key);
            assert(key_views(keys@) =~= before.push(key@));
        },
    }
}

/// Calls `uuid::Uuid::new_v4` and writes the identifier with `to_string`.
/// The identifier is random: the contract says only that its text has 36
/// characters, as every hyphenated identifier has.
#[verifier::external_body]
fn random_key() -> (api_key: String)
    ensures
        api_key@.len() == 36,
{
    uuid::Uuid::new_v4().to_string()
}

/// Makes a new key for a client and stores its hashed form with the
/// description, in place of the key that was stored for the client. The new
/// key is returned: it is stored nowhere.
pub fn generate_api_key(
    client_id: String,
    desc: String,
    secret: &str,
    keys: &mut Vec<ClientKey>,
) -> (api_key: String)
    ensures
        api_key@.len() == 36,
        key_views(final(keys)@) == spec_store_key(
            key_views(old(keys)@),
            ClientKeyView {
                client: client_id@,
                hashed_key: spec_hashed_key(api_key@, secret@),
                description: desc@,
            },
        ),
        spec_verify_for_client(key_views(final(keys)@), api_key@, client_id@, secret@),
{
    let api_key = random_key();
    let hashed_key = hash_api_key(api_key.as_str(), secret);
    let key = ClientKey { client: client_id, entry: ApiKeyEntry { hashed_key, description: desc } };
    let ghost before = key_views(keys@);
    store_key(keys, key);
    proof {
        lemma_stored_key_is_found(before, key@);
    }
    api_key
}

/// A key that was stored for a client is the key found for the client.
pub proof fn lemma_stored_key_is_found(keys: Seq<ClientKeyView>, key: ClientKeyView)
    ensures
        ({
            let stored = spec_store_key(keys, key);
            &&& spec_position(stored, key.client) is Some
            &&& stored[spec_position(stored, key.client)->0] == key
        }),
{
    let stored = spec_store_key(keys, key);
    lemma_position_bounds(keys, key.client);
    match spec_position(keys, key.client) {
        Some(i) => {
            assert forall|j: int| 0 <= j < i implies (#[trigger] stored[j]).client
                != key.client by {
                assert(keys[j].client != key.client);
            }
            lemma_position_is(stored, key.client, i);
        },
        None => {
            let last = keys.len() as int;
            assert forall|j: int| 0 <= j < last implies (#[trigger] stored[j]).client
                != key.client by {
                assert(keys[j].client != key.client);
            }
            lemma_position_is(stored, key.client, last);
        },
    }
}

} // verus!
