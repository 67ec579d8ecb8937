//! The issuer's public keys: reading them from a JWK set and keeping those that
//! were used.

use vstd::prelude::*;

use jsonwebtoken::errors::Error as JwtError;
use jsonwebtoken::jwk::{Jwk, JwkSet};
use jsonwebtoken::DecodingKey;

use crate::text::same;

verus! {

/// A key as its issuer publishes it.
#[verifier::external_type_specification]
#[verifier::external_body]
pub struct ExJwk(jsonwebtoken::jwk::Jwk);

/// A key that signatures are checked with.
#[verifier::external_type_specification]
#[verifier::external_body]
pub struct ExDecodingKey(jsonwebtoken::DecodingKey);

/// Why a token or a key was refused.
#[verifier::external_type_specification]
#[verifier::external_body]
pub struct ExJwtError(jsonwebtoken::errors::Error);

/// Why a text is not the JSON that was asked for.
#[verifier::external_type_specification]
#[verifier::external_body]
pub struct ExJsonError(serde_json::Error);

/// The keys in the JWK set that `body` holds, in order, or `None` where `body`
/// holds none.
pub uninterp spec fn jwk_set_keys(body: Seq<u8>) -> Option<Seq<Jwk>>;

/// The `kid` of a published key, if it has one.
pub uninterp spec fn jwk_key_id(jwk: Jwk) -> Option<Seq<char>>;

/// The key that signatures are checked with, as `DecodingKey::from_jwk` makes it.
pub uninterp spec fn jwk_decoding_key(jwk: Jwk) -> Result<DecodingKey, JwtError>;

/// What an error of the token library reads.
pub uninterp spec fn jwt_error_text(error: JwtError) -> Seq<char>;

/// Calls `serde_json::from_slice` for a `JwkSet`. The contract names what it
/// returns: the keys of the set in order where `body` is the JSON of one, and an
/// error exactly where it is not. Of the error nothing is said.
#[verifier::external_body]
fn parse_jwk_set(body: &[u8]) -> (r: Result<Vec<Jwk>, serde_json::Error>)
    ensures
        match r {
            Ok(keys) => jwk_set_keys(body@) == Some(keys@),
            Err(_) => jwk_set_keys(body@) is None,
        },
{
    serde_json::from_slice::<JwkSet>(body).map(|set| set.keys)
}

/// Reads the field `common.key_id` of a `Jwk`. The contract names it.
#[verifier::external_body]
fn key_id(jwk: &Jwk) -> (r: Option<String>)
    ensures
        match r {
            Some(kid) => jwk_key_id(*jwk) == Some(kid@),
            None => jwk_key_id(*jwk) is None,
        },
{
    jwk.common.key_id.clone()
}

/// Calls `DecodingKey::from_jwk`. The contract names what it returns, which
/// depends on the key alone.
#[verifier::external_body]
fn decoding_key_of(jwk: &Jwk) -> (r: Result<DecodingKey, JwtError>)
    ensures
        r == jwk_decoding_key(*jwk),
{
    DecodingKey::from_jwk(jwk)
}

/// Calls `to_string` on an error of the token library, which writes it out with
/// its `Display`. The contract names the text, which depends on the error alone.
#[verifier::external_body]
pub(crate) fn error_text(error: &JwtError) -> (r: String)
    ensures
        r@ == jwt_error_text(*error),
{
    error.to_string()
}

/// `DecodingKey::clone`, which copies all that the key holds.
pub assume_specification[ <DecodingKey as Clone>::clone ](key: &DecodingKey) -> (r: DecodingKey)
    ensures
        r == *key,
;

/// Why there is no key for a token.
#[derive(Debug, PartialEq, Eq)]
pub enum KeyError {
    /// The JWK set could not be fetched.
    Fetch(String),
    /// What was fetched is not a JWK set.
    Parse(String),
    /// The JWK set has no key with this `kid`.
    NotFound(String),
    /// The key in the JWK set cannot be used.
    Build(String),
}

/// What is said of a body that can be read but is not a JWK set.
pub open spec fn not_a_jwk_set() -> Seq<char> {
    "error decoding response body"@
}

/// What a `KeyError` reads.
pub enum KeyErrorView {
    Fetch(Seq<char>),
    Parse(Seq<char>),
    NotFound(Seq<char>),
    Build(Seq<char>),
}

impl KeyErrorView {
    /// What the report says.
    pub open spec fn text(self) -> Seq<char> {
        match self {
            KeyErrorView::Fetch(cause) => "failed to fetch JWKS: "@ + cause,
            KeyErrorView::Parse(cause) => "failed to parse JWKS response: "@ + cause,
            KeyErrorView::NotFound(kid) => "key not found in JWKS for kid: "@ + kid,
            KeyErrorView::Build(cause) => "failed to create DecodingKey from JWK: "@ + cause,
        }
    }
}

impl View for KeyError {
    type V = KeyErrorView;

    open spec fn view(&self) -> KeyErrorView {
        match self {
            KeyError::Fetch(cause) => KeyErrorView::Fetch(cause@),
            KeyError::Parse(cause) => KeyErrorView::Parse(cause@),
            KeyError::NotFound(kid) => KeyErrorView::NotFound(kid@),
            KeyError::Build(cause) => KeyErrorView::Build(cause@),
        }
    }
}

impl KeyError {
    /// The report to show.
    pub fn message(&self) -> (r: String)
        ensures
            r@ == self@.text(),
    {
        match self {
            KeyError::Fetch(cause) => "failed to fetch JWKS: ".to_owned().concat(cause.as_str()),
            KeyError::Parse(cause) => "failed to parse JWKS response: ".to_owned().concat(
                cause.as_str(),
            ),
            KeyError::NotFound(kid) => "key not found in JWKS for kid: ".to_owned().concat(
                kid.as_str(),
            ),
            KeyError::Build(cause) => "failed to create DecodingKey from JWK: ".to_owned().concat(
                cause.as_str(),
            ),
        }
    }
}

/// The place of the first key with the given `kid`, or the number of keys where
/// none has it.
pub open spec fn key_index(keys: Seq<Jwk>, kid: Seq<char>) -> int
    decreases keys.len(),
{
    if keys.len() == 0 || jwk_key_id(keys[0]) == Some(kid) {
        0
    } else {
        1 + key_index(keys.drop_first(), kid)
    }
}

proof fn lemma_key_index(keys: Seq<Jwk>, kid: Seq<char>, i: int)
    requires
        0 <= i <= keys.len(),
        forall|j: int| 0 <= j < i ==> jwk_key_id(#[trigger] keys[j]) != Some(kid),
        i < keys.len() ==> jwk_key_id(keys[i]) == Some(kid),
    ensures
        key_index(keys, kid) == i,
    decreases keys.len(),
{
    if i > 0 {
        let rest = keys.drop_first();
        assert forall|j: int| 0 <= j < i - 1 implies jwk_key_id(#[trigger] rest[j]) != Some(
            kid,
        ) by {
            assert(rest[j] == keys[j + 1]);
        }
        lemma_key_index(rest, kid, i - 1);
    }
}

/// The place of the first key with the given `kid`, if one has it.
pub fn find_key(keys: &Vec<Jwk>, kid: &str) -> (r: Option<usize>)
    ensures
        match r {
            Some(i) => i < keys@.len() && i == key_index(keys@, kid@),
            None => key_index(keys@, kid@) == keys@.len(),
        },
{
    let mut i: usize = 0;
    while i < keys.len()
        invariant
            i <= keys@.len(),
            forall|j: int| 0 <= j < i ==> jwk_key_id(#[trigger] keys@[j]) != Some(kid@),
        decreases keys@.len() - i,
    {
        match key_id(&keys[i]) {
            Some(id) => {
                if same(id.as_str(), kid) {
                    proof {
                        lemma_key_index(keys@, kid@, i as int);
                    }
                    return Some(i);
                }
            },
            None => {},
        }
        i += 1;
    }
    proof {
        lemma_key_index(keys@, kid@, i as int);
    }
    None
}

/// A key that was used, and the `kid` it was found under.
struct CachedKey {
    kid: String,
    key: DecodingKey,
}

/// The keys that were used before, each under its `kid`.
pub struct KeyCache {
    entries: Vec<CachedKey>,
}

/// No `kid` stands twice.
spec fn distinct(entries: Seq<CachedKey>) -> bool {
    forall|i: int, j: int|
        0 <= i < j < entries.len() ==> #[trigger] entries[i].kid@ != #[trigger] entries[j].kid@
}

/// Whether the entry at `i` is the one for `kid`.
spec fn entry_is_for(entries: Seq<CachedKey>, i: int, kid: Seq<char>) -> bool {
    0 <= i < entries.len() && entries[i].kid@ == kid
}

/// The keys of the entries, by `kid`.
spec fn contents(entries: Seq<CachedKey>) -> Map<Seq<char>, DecodingKey>
    decreases entries.len(),
{
    if entries.len() == 0 {
        Map::empty()
    } else {
        contents(entries.drop_last()).insert(entries.last().kid@, entries.last().key)
    }
}

proof fn lemma_contents(entries: Seq<CachedKey>)
    requires
        distinct(entries),
    ensures
        forall|kid: Seq<char>| #[trigger]
            contents(entries).contains_key(kid) ==> exists|i: int| entry_is_for(entries, i, kid),
        forall|i: int| #![trigger entries[i]]
            0 <= i < entries.len() ==> contents(entries).contains_key(entries[i].kid@)
                && contents(entries)[entries[i].kid@] == entries[i].key,
    decreases entries.len(),
{
    if entries.len() > 0 {
        let prior = entries.drop_last();
        lemma_contents(prior);
        assert forall|kid: Seq<char>| #[trigger]
            contents(entries).contains_key(kid) implies exists|i: int|
            entry_is_for(entries, i, kid) by {
            if kid == entries.last().kid@ {
                assert(entry_is_for(entries, entries.len() - 1, kid));
            } else {
                assert(contents(prior).contains_key(kid));
                let i = choose|i: int| entry_is_for(prior, i, kid);
                assert(entry_is_for(entries, i, kid));
            }
        }
        assert forall|i: int| #![trigger entries[i]]
            0 <= i < entries.len() implies contents(entries).contains_key(entries[i].kid@)
            && contents(entries)[entries[i].kid@] == entries[i].key by {
            if i < entries.len() - 1 {
                assert(prior[i] == entries[i]);
                assert(entries[i].kid@ != entries[entries.len() - 1].kid@);
            }
        }
    }
}

impl View for KeyCache {
    type V = Map<Seq<char>, DecodingKey>;

    closed spec fn view(&self) -> Map<Seq<char>, DecodingKey> {
        contents(self.entries@)
    }
}

impl KeyCache {
    #[verifier::type_invariant]
    spec fn well_formed(self) -> bool {
        distinct(self.entries@)
    }

    /// A cache that holds nothing.
    pub fn new() -> (r: KeyCache)
        ensures
            r@ == Map::<Seq<char>, DecodingKey>::empty(),
    {
        KeyCache { entries: Vec::new() }
    }

    /// The key held under `kid`, if there is one.
    pub fn get(&self, kid: &str) -> (r: Option<DecodingKey>)
        ensures
            r == (if self@.contains_key(kid@) {
                Some(self@[kid@])
            } else {
                None
            }),
    {
        proof {
            use_type_invariant(self);
            lemma_contents(self.entries@);
        }
        let mut i: usize = 0;
        while i < self.entries.len()
            invariant
                i <= self.entries@.len(),
                forall|j: int| 0 <= j < i ==> (#[trigger] self.entries@[j]).kid@ != kid@,
                forall|j: int| #![trigger self.entries@[j]]
                    0 <= j < self.entries@.len() ==> self@.contains_key(self.entries@[j].kid@)
                        && self@[self.entries@[j].kid@] == self.entries@[j].key,
            decreases self.entries@.len() - i,
        {
            if same(self.entries[i].kid.as_str(), kid) {
                return Some(self.entries[i].key.clone());
            }
            i += 1;
        }
        proof {
            if self@.contains_key(kid@) {
                let j = choose|j: int| entry_is_for(self.entries@, j, kid@);
                assert(self.entries@[j].kid@ == kid@);
            }
        }
        None
    }

    /// Holds `key` under `kid` from now on, in place of what was held under it.
    pub fn insert(&mut self, kid: String, key: DecodingKey)
        ensures
            final(self)@ == old(self)@.insert(kid@, key),
    {
        proof {
            use_type_invariant(&*self);
        }
        let mut entries: Vec<CachedKey> = Vec::new();
        std::mem::swap(&mut entries, &mut self.entries);
        let ghost before = entries@;
        let mut i: usize = 0;
        while i < entries.len() && !same(entries[i].kid.as_str(), kid.as_str())
            invariant
                i <= entries@.len(),
                forall|j: int| 0 <= j < i ==> (#[trigger] entries@[j]).kid@ != kid@,
            decreases entries@.len() - i,
        {
            i += 1;
        }
        let entry = CachedKey { kid, key };
        if i < entries.len() {
            entries.set(i, entry);
        } else {
            entries.push(entry);
        }
        proof {
            lemma_contents(before);
            lemma_contents(entries@);
            let now = contents(entries@);
            let wanted = contents(before).insert(kid@, key);
            assert(entries@[i as int].kid@ == kid@);
            assert forall|k: Seq<char>| #[trigger] now.dom().contains(k) implies wanted.dom().contains(
                k,
            ) && now[k] == wanted[k] by {
                assert(now.contains_key(k));
                let j = choose|j: int| entry_is_for(entries@, j, k);
                assert(entries@[j].kid@ == k);
                if j != i {
                    assert(before[j] == entries@[j]);
                }
            }
            assert forall|k: Seq<char>| #[trigger] wanted.dom().contains(k) implies now.dom().contains(
                k,
            ) by {
                if k != kid@ {
                    assert(contents(before).contains_key(k));
                    let j = choose|j: int| entry_is_for(before, j, k);
                    assert(before[j].kid@ == k);
                    assert(entries@[j] == before[j]);
                }
            }
            assert(now =~= wanted);
        }
        self.entries = entries;
    }
}

/// What came of asking the issuer for its JWK set.
#[derive(Debug)]
pub enum JwksFetch {
    /// There was no response; the text says why.
    Unreachable(String),
    /// The response could not be read to its end; the text says why.
    Unreadable(String),
    /// The response was read.
    Body(Vec<u8>),
}

/// The keys that were fetched, or why there are none.
pub open spec fn fetched_keys(fetch: JwksFetch) -> Result<Seq<Jwk>, KeyErrorView> {
    match fetch {
        JwksFetch::Unreachable(cause) => Err(KeyErrorView::Fetch(cause@)),
        JwksFetch::Unreadable(cause) => Err(KeyErrorView::Parse(cause@)),
        JwksFetch::Body(body) => match jwk_set_keys(body@) {
            Some(keys) => Ok(keys),
            None => Err(KeyErrorView::Parse(not_a_jwk_set())),
        },
    }
}

/// The key for `kid` that comes of the published keys, or why there is none.
pub open spec fn selected_key(keys: Seq<Jwk>, kid: Seq<char>) -> Result<DecodingKey, KeyErrorView> {
    let i = key_index(keys, kid);
    if i < keys.len() {
        match jwk_decoding_key(keys[i]) {
            Ok(key) => Ok(key),
            Err(e) => Err(KeyErrorView::Build(jwt_error_text(e))),
        }
    } else {
        Err(KeyErrorView::NotFound(kid))
    }
}

/// The key for `kid` that comes of what was fetched, or why there is none.
pub open spec fn fetched_key(fetch: JwksFetch, kid: Seq<char>) -> Result<DecodingKey, KeyErrorView> {
    match fetched_keys(fetch) {
        Ok(keys) => selected_key(keys, kid),
        Err(e) => Err(e),
    }
}

/// The cache after a key for `kid` was made, or was not.
pub open spec fn cache_after(
    cache: Map<Seq<char>, DecodingKey>,
    kid: Seq<char>,
    made: Result<DecodingKey, KeyErrorView>,
) -> Map<Seq<char>, DecodingKey> {
    match made {
        Ok(key) => cache.insert(kid, key),
        Err(_) => cache,
    }
}

/// The keys of a parsed JWK set, or that it could not be parsed.
pub fn accept_keys(parsed: Result<Vec<Jwk>, serde_json::Error>) -> (r: Result<Vec<Jwk>, KeyError>)
    ensures
        match parsed {
            Ok(keys) => r == Ok::<Vec<Jwk>, KeyError>(keys),
            Err(_) => r is Err && r->Err_0@ == KeyErrorView::Parse(not_a_jwk_set()),
        },
{
    match parsed {
        Ok(keys) => Ok(keys),
        Err(_) => Err(KeyError::Parse("error decoding response body".to_owned())),
    }
}

/// The keys that were fetched, or why there are none.
pub fn read_keys(fetch: &JwksFetch) -> (r: Result<Vec<Jwk>, KeyError>)
    ensures
        match r {
            Ok(keys) => fetched_keys(*fetch) == Ok::<Seq<Jwk>, KeyErrorView>(keys@),
            Err(e) => fetched_keys(*fetch) == Err::<Seq<Jwk>, KeyErrorView>(e@),
        },
{
    match fetch {
        JwksFetch::Unreachable(cause) => Err(KeyError::Fetch(cause.clone())),
        JwksFetch::Unreadable(cause) => Err(KeyError::Parse(cause.clone())),
        JwksFetch::Body(body) => accept_keys(parse_jwk_set(body.as_slice())),
    }
}

impl KeyCache {
    /// Holds the key that was made of the published one under `kid`, or says why
    /// it could not be made.
    pub fn keep(&mut self, kid: &str, made: Result<DecodingKey, JwtError>) -> (r: Result<
        DecodingKey,
        KeyError,
    >)
        ensures
            match made {
                Ok(key) => {
                    &&& r == Ok::<DecodingKey, KeyError>(key)
                    &&& final(self)@ == old(self)@.insert(kid@, key)
                },
                Err(e) => {
                    &&& r is Err
                    &&& r->Err_0@ == KeyErrorView::Build(jwt_error_text(e))
                    &&& final(self)@ == old(self)@
                },
            },
    {
        match made {
            Ok(key) => {
                self.insert(kid.to_owned(), key.clone());
                Ok(key)
            },
            Err(e) => Err(KeyError::Build(error_text(&e))),
        }
    }

    /// Takes the key for `kid` from the published ones and holds it, or says why
    /// there is none to take.
    pub fn select(&mut self, kid: &str, keys: &Vec<Jwk>) -> (r: Result<DecodingKey, KeyError>)
        ensures
            match r {
                Ok(key) => selected_key(keys@, kid@) == Ok::<DecodingKey, KeyErrorView>(key),
                Err(e) => selected_key(keys@, kid@) == Err::<DecodingKey, KeyErrorView>(e@),
            },
            final(self)@ == cache_after(old(self)@, kid@, selected_key(keys@, kid@)),
    {
        match find_key(keys, kid) {
            Some(i) => self.keep(kid, decoding_key_of(&keys[i])),
            None => Err(KeyError::NotFound(kid.to_owned())),
        }
    }

    /// Takes the key for `kid` from what was fetched and holds it, or says why
    /// there is none to take.
    pub fn receive(&mut self, kid: &str, fetch: &JwksFetch) -> (r: Result<DecodingKey, KeyError>)
        ensures
            match r {
                Ok(key) => fetched_key(*fetch, kid@) == Ok::<DecodingKey, KeyErrorView>(key),
                Err(e) => fetched_key(*fetch, kid@) == Err::<DecodingKey, KeyErrorView>(e@),
            },
            final(self)@ == cache_after(old(self)@, kid@, fetched_key(*fetch, kid@)),
    {
        match read_keys(fetch) {
            Ok(keys) => self.select(kid, &keys),
            Err(e) => Err(e),
        }
    }
}

/// A key that was fetched once is held from then on: what is fetched later under
/// another `kid`, or fetched in vain, does not touch it.
pub proof fn law_held_key_stays(
    cache: Map<Seq<char>, DecodingKey>,
    kid: Seq<char>,
    first: JwksFetch,
    other: Seq<char>,
    later: JwksFetch,
)
    requires
        fetched_key(first, kid) is Ok,
        other != kid || fetched_key(later, other) is Err,
    ensures
        ({
            let held = cache_after(cache, kid, fetched_key(first, kid));
            let after = cache_after(held, other, fetched_key(later, other));
            &&& held.contains_key(kid)
            &&& held[kid] == fetched_key(first, kid)->Ok_0
            &&& after.contains_key(kid)
            &&& after[kid] == held[kid]
        }),
{
}

/// Fetching in vain leaves the cache as it was.
pub proof fn law_failed_fetch_leaves_cache(
    cache: Map<Seq<char>, DecodingKey>,
    kid: Seq<char>,
    fetch: JwksFetch,
)
    requires
        fetched_key(fetch, kid) is Err,
    ensures
        cache_after(cache, kid, fetched_key(fetch, kid)) == cache,
{
}

/// A key is taken only from a JWK set that publishes it under the `kid` asked for.
pub proof fn law_selected_key_is_published_under_kid(keys: Seq<Jwk>, kid: Seq<char>)
    ensures
        selected_key(keys, kid) matches Ok(key) ==> exists|i: int|
            0 <= i < keys.len() && jwk_key_id(#[trigger] keys[i]) == Some(kid)
                && jwk_decoding_key(keys[i]) == Ok::<DecodingKey, JwtError>(key),
{
    lemma_key_index_has_id(keys, kid);
}

proof fn lemma_key_index_has_id(keys: Seq<Jwk>, kid: Seq<char>)
    ensures
        0 <= key_index(keys, kid) <= keys.len(),
        key_index(keys, kid) < keys.len() ==> jwk_key_id(keys[key_index(keys, kid)]) == Some(kid),
    decreases keys.len(),
{
    if keys.len() > 0 && jwk_key_id(keys[0]) != Some(kid) {
        lemma_key_index_has_id(keys.drop_first(), kid);
    }
}

/// The first key that is published under a `kid` is the one that is found, wherever
/// it stands; and none is found exactly where none is published under it.
pub proof fn law_first_key_under_kid_is_found(keys: Seq<Jwk>, kid: Seq<char>, i: int)
    requires
        0 <= i < keys.len(),
        jwk_key_id(keys[i]) == Some(kid),
        forall|j: int| 0 <= j < i ==> jwk_key_id(#[trigger] keys[j]) != Some(kid),
    ensures
        key_index(keys, kid) == i,
        selected_key(keys, kid) == (match jwk_decoding_key(keys[i]) {
            Ok(key) => Ok(key),
            Err(e) => Err(KeyErrorView::Build(jwt_error_text(e))),
        }),
{
    lemma_key_index(keys, kid, i);
}

/// A key is missing exactly where none is published under its `kid`.
pub proof fn law_key_is_missing_only_where_not_published(keys: Seq<Jwk>, kid: Seq<char>)
    ensures
        key_index(keys, kid) == keys.len() <==> forall|j: int|
            0 <= j < keys.len() ==> jwk_key_id(#[trigger] keys[j]) != Some(kid),
        selected_key(keys, kid) is Err && selected_key(keys, kid)->Err_0 is NotFound <==> forall|
            j: int,
        |
            0 <= j < keys.len() ==> jwk_key_id(#[trigger] keys[j]) != Some(kid),
        selected_key(keys, kid) matches Err(KeyErrorView::NotFound(named)) ==> named == kid,
{
    lemma_key_index_has_id(keys, kid);
    if forall|j: int| 0 <= j < keys.len() ==> jwk_key_id(#[trigger] keys[j]) != Some(kid) {
        lemma_key_index(keys, kid, keys.len() as int);
    } else {
        lemma_key_index_is_first(keys, kid);
    }
}

proof fn lemma_key_index_is_first(keys: Seq<Jwk>, kid: Seq<char>)
    ensures
        forall|j: int|
            0 <= j < keys.len() && j < key_index(keys, kid) ==> jwk_key_id(#[trigger] keys[j])
                != Some(kid),
    decreases keys.len(),
{
    if keys.len() > 0 && jwk_key_id(keys[0]) != Some(kid) {
        let rest = keys.drop_first();
        lemma_key_index_is_first(rest, kid);
        assert forall|j: int| 0 <= j < keys.len() && j < key_index(keys, kid) implies jwk_key_id(
            #[trigger] keys[j],
        ) != Some(kid) by {
            if j > 0 {
                assert(keys[j] == rest[j - 1]);
            }
        }
    }
}

/// Keys that are published before or behind others, under other names, change
/// nothing for a `kid`.
pub proof fn law_other_published_keys_do_not_matter(
    before: Seq<Jwk>,
    keys: Seq<Jwk>,
    behind: Seq<Jwk>,
    kid: Seq<char>,
)
    requires
        forall|j: int| 0 <= j < before.len() ==> jwk_key_id(#[trigger] before[j]) != Some(kid),
        forall|j: int| 0 <= j < behind.len() ==> jwk_key_id(#[trigger] behind[j]) != Some(kid),
    ensures
        selected_key(before + keys + behind, kid) == selected_key(keys, kid),
{
    let all = before + keys + behind;
    lemma_key_index_has_id(keys, kid);
    lemma_key_index_is_first(keys, kid);
    let i = key_index(keys, kid);
    let n = before.len() as int;
    if i < keys.len() {
        assert(all[n + i] == keys[i]);
        assert forall|j: int| 0 <= j < n + i implies jwk_key_id(#[trigger] all[j]) != Some(kid) by {
            if j < n {
                assert(all[j] == before[j]);
            } else {
                assert(all[j] == keys[j - n]);
            }
        }
        lemma_key_index(all, kid, n + i);
    } else {
        assert forall|j: int| 0 <= j < all.len() implies jwk_key_id(#[trigger] all[j]) != Some(
            kid,
        ) by {
            if j < n {
                assert(all[j] == before[j]);
            } else if j < n + keys.len() {
                assert(all[j] == keys[j - n]);
            } else {
                assert(all[j] == behind[j - n - keys.len()]);
            }
        }
        lemma_key_index(all, kid, all.len() as int);
    }
}

/// A key comes of exactly those fetches whose body is a JWK set that has it. What
/// else comes of a fetch is told as it is.
pub proof fn law_key_comes_of_the_fetched_set(
    cause: String,
    body: Vec<u8>,
    keys: Seq<Jwk>,
    kid: Seq<char>,
)
    ensures
        fetched_key(JwksFetch::Unreachable(cause), kid) == Err::<DecodingKey, KeyErrorView>(
            KeyErrorView::Fetch(cause@),
        ),
        fetched_key(JwksFetch::Unreadable(cause), kid) == Err::<DecodingKey, KeyErrorView>(
            KeyErrorView::Parse(cause@),
        ),
        jwk_set_keys(body@) is None ==> fetched_key(JwksFetch::Body(body), kid) == Err::<
            DecodingKey,
            KeyErrorView,
        >(KeyErrorView::Parse("error decoding response body"@)),
        jwk_set_keys(body@) == Some(keys) ==> fetched_key(JwksFetch::Body(body), kid)
            == selected_key(keys, kid) && fetched_keys(JwksFetch::Body(body)) == Ok::<
            Seq<Jwk>,
            KeyErrorView,
        >(keys),
{
}

/// A key that was made is held under its `kid`, whatever was held before, and what
/// is held under every other `kid` stays as it was.
pub proof fn law_made_key_is_held(
    cache: Map<Seq<char>, DecodingKey>,
    kid: Seq<char>,
    key: DecodingKey,
    other: Seq<char>,
    error: KeyErrorView,
)
    ensures
        ({
            let after = cache_after(cache, kid, Ok(key));
            &&& after.contains_key(kid)
            &&& after[kid] == key
            &&& other != kid ==> after.contains_key(other) == cache.contains_key(other)
            &&& other != kid && cache.contains_key(other) ==> after[other] == cache[other]
        }),
        cache_after(cache, kid, Err(error)) == cache,
{
}

/// The report says what failed and ends in the cause or the `kid`.
pub proof fn law_key_report_ends_in_its_cause(cause: Seq<char>)
    ensures
        KeyErrorView::Fetch(cause).text() == "failed to fetch JWKS: "@ + cause,
        KeyErrorView::Parse(cause).text() == "failed to parse JWKS response: "@ + cause,
        KeyErrorView::NotFound(cause).text() == "key not found in JWKS for kid: "@ + cause,
        KeyErrorView::Build(cause).text() == "failed to create DecodingKey from JWK: "@ + cause,
{
}

/// An error shows what it holds, and of what kind it is.
pub proof fn law_key_error_is_seen_whole(cause: String)
    ensures
        KeyError::Fetch(cause)@ == KeyErrorView::Fetch(cause@),
        KeyError::Parse(cause)@ == KeyErrorView::Parse(cause@),
        KeyError::NotFound(cause)@ == KeyErrorView::NotFound(cause@),
        KeyError::Build(cause)@ == KeyErrorView::Build(cause@),
{
}

} // verus!
