//! What a request is answered.
//!
//! A request for `/validate` goes through up to three steps, between which its
//! caller does what only it can do: fetch the issuer's keys, and read the claims
//! of a token.
//!
//! - `handle_validate` looks at the token and at the keys that were used before.
//! - `keys_fetched` goes on with the issuer's keys, where they were asked for.
//! - `claims_read` goes on with the claims, and the scopes in them decide.

use vstd::prelude::*;

use jsonwebtoken::errors::Error as JwtError;
use jsonwebtoken::{Algorithm, DecodingKey};

use crate::access::{authorize, Forwarded, Outcome, Policy};
use crate::keys::{JwksFetch, KeyCache, KeyError};
use crate::reply::{text_response, Status, TextResponse};
use crate::text::same;
use crate::token::{
    bearer_token, check_signature, read_header, verify_token, BearerError, TokenError,
};

verus! {

/// What a request for `path` is answered where no token is needed to tell.
pub open spec fn fixed_answer(path: Seq<char>) -> Option<crate::reply::ReplyView> {
    if path == "/healthz"@ {
        Some(crate::reply::ReplyView { status: Status::Success, body: "ok"@ })
    } else if path == "/validate"@ {
        None
    } else {
        Some(crate::reply::ReplyView { status: Status::NotFound, body: "not found"@ })
    }
}

/// What a request for `path` is answered where no token is needed to tell.
pub fn response(path: &str) -> (r: Option<TextResponse>)
    ensures
        match r {
            Some(reply) => fixed_answer(path@) == Some(reply@),
            None => fixed_answer(path@) is None,
        },
{
    if same(path, "/healthz") {
        Some(text_response(Status::Success, "ok"))
    } else if same(path, "/validate") {
        None
    } else {
        Some(text_response(Status::NotFound, "not found"))
    }
}

/// A token, and the key that must be fetched to check it.
pub struct KeyRequest {
    pub token: String,
    pub kid: String,
    pub alg: Algorithm,
}

/// A token with nothing against its signature, and the key that this was found
/// with.
pub struct SignedToken {
    pub token: String,
    pub key: DecodingKey,
    pub alg: Algorithm,
}

/// What comes next for a request.
pub enum Step {
    /// It is answered.
    Reply(TextResponse),
    /// The issuer's keys are to be fetched.
    Fetch(KeyRequest),
    /// The claims of its token are to be read.
    Read(SignedToken),
}

/// What comes next for a request.
pub enum StepView {
    Reply(crate::reply::ReplyView),
    Fetch { token: Seq<char>, kid: Seq<char>, alg: Algorithm },
    Read { token: Seq<char>, key: DecodingKey, alg: Algorithm },
}

impl View for Step {
    type V = StepView;

    open spec fn view(&self) -> StepView {
        match self {
            Step::Reply(reply) => StepView::Reply(reply@),
            Step::Fetch(request) => StepView::Fetch {
                token: request.token@,
                kid: request.kid@,
                alg: request.alg,
            },
            Step::Read(signed) => StepView::Read {
                token: signed.token@,
                key: signed.key,
                alg: signed.alg,
            },
        }
    }
}

/// What a request is answered whose token is not accepted.
pub open spec fn refusal(error: crate::token::TokenErrorView) -> crate::reply::ReplyView {
    crate::reply::ReplyView {
        status: Status::Unauthorized,
        body: "failed to validate token: "@ + error.text(),
    }
}

/// What a request is answered that carries no token to look at.
pub open spec fn no_token(error: BearerError) -> crate::reply::ReplyView {
    match error {
        BearerError::Missing => crate::reply::ReplyView {
            status: Status::Unauthorized,
            body: "missing bearer token"@,
        },
        BearerError::Invalid => crate::reply::ReplyView {
            status: Status::Unauthorized,
            body: "invalid bearer token"@,
        },
    }
}

/// What a request is answered whose token is not accepted.
pub fn refuse(error: &TokenError) -> (r: TextResponse)
    ensures
        r@ == refusal(error@),
{
    let message: String = error.message();
    let body: String = "failed to validate token: ".to_owned().concat(message.as_str());
    text_response(Status::Unauthorized, body.as_str())
}

/// What comes next once the signature was checked.
pub open spec fn signature_step(
    token: Seq<char>,
    key: DecodingKey,
    alg: Algorithm,
    checked: Result<(), crate::token::TokenErrorView>,
) -> StepView {
    match checked {
        Ok(()) => StepView::Read { token, key, alg },
        Err(e) => StepView::Reply(refusal(e)),
    }
}

/// Whether there is nothing against the signature of a token under `key`, or what
/// there is.
pub open spec fn signature_under(token: Seq<char>, key: DecodingKey, alg: Algorithm) -> Result<
    (),
    crate::token::TokenErrorView,
> {
    crate::token::signature(
        crate::token::jwt_header(token),
        crate::token::jwt_verified(token, key, alg, crate::token::signature_only()),
    )
}

/// What comes next once there is a key, or there is none.
pub open spec fn key_step(
    token: Seq<char>,
    alg: Algorithm,
    key: Result<DecodingKey, crate::keys::KeyErrorView>,
) -> StepView {
    match key {
        Ok(key) => signature_step(token, key, alg, signature_under(token, key, alg)),
        Err(e) => StepView::Reply(refusal(crate::token::TokenErrorView::Key(e))),
    }
}

/// What comes next once the header of the token was read.
pub open spec fn header_step(
    cache: Map<Seq<char>, DecodingKey>,
    token: Seq<char>,
    header: Result<(Seq<char>, Algorithm), crate::token::TokenErrorView>,
) -> StepView {
    match header {
        Ok((kid, alg)) => if cache.contains_key(kid) {
            key_step(token, alg, Ok(cache[kid]))
        } else {
            StepView::Fetch { token, kid, alg }
        },
        Err(e) => StepView::Reply(refusal(e)),
    }
}

/// What comes first for a request with the given `Authorization` header.
pub open spec fn first_step(
    cache: Map<Seq<char>, DecodingKey>,
    auth_header: Option<Seq<char>>,
) -> StepView {
    match crate::token::bearer(auth_header) {
        Ok(token) => header_step(
            cache,
            token,
            crate::token::signed_with(crate::token::jwt_header(token)),
        ),
        Err(e) => StepView::Reply(no_token(e)),
    }
}

/// What comes next once the signature was checked.
pub fn after_signature(
    token: &str,
    key: DecodingKey,
    alg: Algorithm,
    checked: Result<(), TokenError>,
) -> (r: Step)
    ensures
        r@ == signature_step(token@, key, alg, crate::token::acceptance_view(checked)),
{
    match checked {
        Ok(()) => Step::Read(SignedToken { token: token.to_owned(), key, alg }),
        Err(e) => Step::Reply(refuse(&e)),
    }
}

/// What comes next once there is a key, or there is none.
pub fn after_key(token: &str, alg: Algorithm, key: Result<DecodingKey, KeyError>) -> (r: Step)
    ensures
        r@ == key_step(
            token@,
            alg,
            match key {
                Ok(k) => Ok(k),
                Err(e) => Err(e@),
            },
        ),
{
    match key {
        Ok(key) => {
            let checked: Result<(), TokenError> = check_signature(token, &key, alg);
            after_signature(token, key, alg, checked)
        },
        Err(e) => Step::Reply(refuse(&TokenError::Key(e))),
    }
}

/// What comes next once the header of the token was read.
pub fn after_header(
    cache: &KeyCache,
    token: &str,
    header: Result<(String, Algorithm), TokenError>,
) -> (r: Step)
    ensures
        r@ == header_step(
            cache@,
            token@,
            crate::token::signed_with_view(header),
        ),
{
    match header {
        Ok((kid, alg)) => match cache.get(kid.as_str()) {
            Some(key) => after_key(token, alg, Ok(key)),
            None => Step::Fetch(KeyRequest { token: token.to_owned(), kid, alg }),
        },
        Err(e) => Step::Reply(refuse(&e)),
    }
}

/// What comes first for a request with the given `Authorization` header, given the
/// keys that were used before.
pub fn handle_validate(cache: &KeyCache, auth_header: Option<&str>) -> (r: Step)
    ensures
        r@ == first_step(cache@, crate::scopes::option_view(auth_header)),
{
    match bearer_token(auth_header) {
        Ok(token) => after_header(cache, token, read_header(token)),
        Err(BearerError::Missing) => Step::Reply(
            text_response(Status::Unauthorized, "missing bearer token"),
        ),
        Err(BearerError::Invalid) => Step::Reply(
            text_response(Status::Unauthorized, "invalid bearer token"),
        ),
    }
}

/// What comes next for a request once the issuer's keys were fetched. The key that
/// was asked for is held from now on.
pub fn keys_fetched(cache: &mut KeyCache, request: &KeyRequest, fetch: &JwksFetch) -> (r: Step)
    ensures
        r@ == key_step(
            request.token@,
            request.alg,
            crate::keys::fetched_key(*fetch, request.kid@),
        ),
        final(cache)@ == crate::keys::cache_after(
            old(cache)@,
            request.kid@,
            crate::keys::fetched_key(*fetch, request.kid@),
        ),
{
    let key: Result<DecodingKey, KeyError> = cache.receive(request.kid.as_str(), fetch);
    after_key(request.token.as_str(), request.alg, key)
}

/// The scopes in the claims, or what the request is answered.
pub open spec fn scopes_or_refusal(
    read: Result<Option<Seq<char>>, Seq<char>>,
    verified: Result<(), crate::token::TokenErrorView>,
) -> Result<Seq<char>, crate::reply::ReplyView> {
    match read {
        Ok(scope) => match verified {
            Ok(()) => Ok(
                match scope {
                    Some(scopes) => scopes,
                    None => Seq::empty(),
                },
            ),
            Err(e) => Err(refusal(e)),
        },
        Err(cause) => Err(refusal(crate::token::TokenErrorView::Verify(cause))),
    }
}

/// What came of reading the claims.
pub open spec fn read_view(read: Result<Option<String>, String>) -> Result<
    Option<Seq<char>>,
    Seq<char>,
> {
    match read {
        Ok(Some(scope)) => Ok(Some(scope@)),
        Ok(None) => Ok(None),
        Err(cause) => Err(cause@),
    }
}

/// The scopes in the claims, or what the request is answered. The claims were read
/// with `read`, which holds their `scope`, or says why they cannot be read; and
/// `verified` is what came of verifying the token.
pub fn token_scopes(read: Result<Option<String>, String>, verified: Result<(), TokenError>) -> (r:
    Result<String, TextResponse>)
    ensures
        ({
            let result = scopes_or_refusal(
                read_view(read),
                crate::token::acceptance_view(verified),
            );
            match r {
                Ok(scopes) => result == Ok::<Seq<char>, crate::reply::ReplyView>(scopes@),
                Err(reply) => result == Err::<Seq<char>, crate::reply::ReplyView>(reply@),
            }
        }),
{
    match read {
        Ok(scope) => match verified {
            Ok(()) => Ok(
                match scope {
                    Some(scopes) => scopes,
                    None => String::new(),
                },
            ),
            Err(e) => Err(refuse(&e)),
        },
        Err(cause) => Err(refuse(&TokenError::Verify(cause))),
    }
}

/// Whether an outcome is what a request is answered and what is reported of it,
/// given the scopes of its token or why there are none.
pub open spec fn concludes(
    outcome: Outcome,
    policy: crate::access::PolicyView,
    request: crate::access::ForwardedView,
    scopes: Result<Seq<char>, crate::reply::ReplyView>,
) -> bool {
    let reported = match outcome.report {
        Some(text) => Some(text@),
        None => None,
    };
    match scopes {
        Ok(scopes) => {
            &&& outcome.response@ == crate::access::answer(policy, request, scopes)
            &&& reported == crate::access::report(policy, request, scopes)
        },
        Err(reply) => {
            &&& outcome.response@ == reply
            &&& reported is None
        },
    }
}

/// What a request is answered and what is reported of it, given the scopes of its
/// token or what it is answered without them.
pub fn conclude(
    policy: &Policy,
    request: Forwarded<'_>,
    scopes: Result<String, TextResponse>,
) -> (r: Outcome)
    ensures
        concludes(
            r,
            policy@,
            request@,
            match scopes {
                Ok(s) => Ok(s@),
                Err(reply) => Err(reply@),
            },
        ),
{
    match scopes {
        Ok(scopes) => authorize(policy, request, scopes.as_str()),
        Err(reply) => Outcome { response: reply, report: None },
    }
}

/// What a request is answered and what is reported of it, once the claims of its
/// token were read: `read` holds their `scope`, or says why they cannot be read.
/// What is wrong with the claims is told before what the clock says, so the clock
/// is asked last.
///
/// Whether the clock speaks against the token is not stated.
pub fn claims_read(
    policy: &Policy,
    request: Forwarded<'_>,
    signed: &SignedToken,
    read: Result<Option<String>, String>,
) -> (r: Outcome)
    ensures
        match crate::token::jwt_verified(
            signed.token@,
            signed.key,
            signed.alg,
            crate::token::signature_and_time(),
        ) {
            Ok(()) => {
                ||| concludes(r, policy@, request@, scopes_or_refusal(read_view(read), Ok(())))
                ||| exists|late: JwtError|
                    #![trigger crate::keys::jwt_error_text(late)]
                    crate::token::clock_refuses(late, crate::token::signature_and_time())
                        && concludes(
                        r,
                        policy@,
                        request@,
                        scopes_or_refusal(read_view(read), crate::token::acceptance(Err(late))),
                    )
            },
            Err(e) => concludes(
                r,
                policy@,
                request@,
                scopes_or_refusal(read_view(read), crate::token::acceptance(Err(e))),
            ),
        },
{
    let verified: Result<(), TokenError> = verify_token(
        signed.token.as_str(),
        &signed.key,
        signed.alg,
    );
    conclude(policy, request, token_scopes(read, verified))
}

/// A request without a token to look at is refused, whatever keys are held, and no
/// key is fetched for it.
pub proof fn law_request_without_token_is_refused(
    cache: Map<Seq<char>, DecodingKey>,
    auth_header: Option<Seq<char>>,
)
    requires
        crate::token::bearer(auth_header) is Err,
    ensures
        first_step(cache, auth_header) matches StepView::Reply(reply) && reply.status
            == Status::Unauthorized,
{
}

/// Until the claims of its token are read, a request can only be refused.
pub proof fn law_only_refusals_before_claims_are_read(
    cache: Map<Seq<char>, DecodingKey>,
    auth_header: Option<Seq<char>>,
    token: Seq<char>,
    alg: Algorithm,
    key: Result<DecodingKey, crate::keys::KeyErrorView>,
)
    ensures
        first_step(cache, auth_header) matches StepView::Reply(reply) ==> reply.status
            == Status::Unauthorized,
        key_step(token, alg, key) matches StepView::Reply(reply) ==> reply.status
            == Status::Unauthorized,
{
}

/// The claims are read of no token but the one of the request, and only where there
/// is nothing against its signature under the key that its header names.
pub proof fn law_claims_are_read_of_signed_tokens_only(
    cache: Map<Seq<char>, DecodingKey>,
    auth_header: Option<Seq<char>>,
    fetch: JwksFetch,
)
    ensures
        first_step(cache, auth_header) matches StepView::Read { token, key, alg } ==> {
            &&& crate::token::bearer(auth_header) == Ok::<Seq<char>, BearerError>(token)
            &&& crate::token::signed_with(crate::token::jwt_header(token)) matches Ok((kid, a))
            &&& a == alg
            &&& cache.contains_key(kid)
            &&& cache[kid] == key
            &&& signature_under(token, key, alg) is Ok
        },
        first_step(cache, auth_header) matches StepView::Fetch { token, kid, alg } ==> {
            &&& crate::token::bearer(auth_header) == Ok::<Seq<char>, BearerError>(token)
            &&& crate::token::signed_with(crate::token::jwt_header(token)) == Ok::<
                (Seq<char>, Algorithm),
                crate::token::TokenErrorView,
            >((kid, alg))
            &&& key_step(token, alg, crate::keys::fetched_key(fetch, kid)) matches StepView::Read {
                token: t,
                key,
                alg: a,
            } ==> {
                &&& t == token
                &&& a == alg
                &&& crate::keys::fetched_key(fetch, kid) == Ok::<
                    DecodingKey,
                    crate::keys::KeyErrorView,
                >(key)
                &&& signature_under(token, key, alg) is Ok
            }
        },
{
}

/// A key that was fetched once is not fetched again: it serves every later request
/// whose token names it.
pub proof fn law_fetched_key_serves_later_requests(
    cache: Map<Seq<char>, DecodingKey>,
    kid: Seq<char>,
    fetch: JwksFetch,
    auth_header: Option<Seq<char>>,
    alg: Algorithm,
)
    requires
        crate::keys::fetched_key(fetch, kid) is Ok,
        crate::token::bearer(auth_header) is Ok,
        crate::token::signed_with(
            crate::token::jwt_header(crate::token::bearer(auth_header)->Ok_0),
        ) == Ok::<(Seq<char>, Algorithm), crate::token::TokenErrorView>((kid, alg)),
    ensures
        ({
            let held = crate::keys::cache_after(
                cache,
                kid,
                crate::keys::fetched_key(fetch, kid),
            );
            &&& first_step(held, auth_header) == key_step(
                crate::token::bearer(auth_header)->Ok_0,
                alg,
                crate::keys::fetched_key(fetch, kid),
            )
            &&& !(first_step(held, auth_header) is Fetch)
        }),
{
}

/// One fetch is enough: after it the request is answered or its claims are read.
pub proof fn law_one_fetch_is_enough(
    token: Seq<char>,
    alg: Algorithm,
    key: Result<DecodingKey, crate::keys::KeyErrorView>,
)
    ensures
        !(key_step(token, alg, key) is Fetch),
{
}

/// A request goes on only where the claims of its token could be read, nothing
/// speaks against it, and its scopes have what the query and an enforced
/// route map ask for. A token that is not accepted is answered 401, one that lacks
/// scopes 403.
pub proof fn law_status_tells_what_was_lacking(
    outcome: Outcome,
    policy: crate::access::PolicyView,
    request: crate::access::ForwardedView,
    read: Result<Option<Seq<char>>, Seq<char>>,
    verified: Result<(), crate::token::TokenErrorView>,
)
    requires
        concludes(outcome, policy, request, scopes_or_refusal(read, verified)),
    ensures
        outcome.response@.status == Status::Unauthorized <==> read is Err || verified is Err,
        outcome.response@.status != Status::Unauthorized ==> {
            let scopes = match read->Ok_0 {
                Some(scopes) => scopes,
                None => Seq::empty(),
            };
            outcome.response@.status == (if crate::access::meets_query(request.query, scopes) && (
            policy.enforce ==> !crate::access::denied(policy, request, scopes)) {
                Status::Success
            } else {
                Status::Forbidden
            })
        },
{
}

/// Only `/healthz` and `/validate` are there, and only `/validate` needs a token.
pub proof fn law_paths_are_answered(path: Seq<char>)
    ensures
        fixed_answer(path) is None <==> path == "/validate"@,
        path == "/healthz"@ ==> fixed_answer(path) == Some(
            (crate::reply::ReplyView { status: Status::Success, body: "ok"@ }),
        ),
        path != "/healthz"@ && path != "/validate"@ ==> fixed_answer(path) == Some(
            (crate::reply::ReplyView { status: Status::NotFound, body: "not found"@ }),
        ),
{
    reveal_strlit("/healthz");
    reveal_strlit("/validate");
    assert("/healthz"@[1] == 'h' && "/validate"@[1] == 'v');
}

/// A token whose header names a key goes on with that key where it is held, and asks
/// for it, by its name, where it is not.
pub proof fn law_token_goes_on_with_the_key_it_names(
    cache: Map<Seq<char>, DecodingKey>,
    token: Seq<char>,
    kid: Seq<char>,
    alg: Algorithm,
)
    requires
        0 < vstd::utf8::encode_utf8(token).len() <= 4096,
        crate::token::jwt_header(token) == Ok::<(Option<Seq<char>>, Algorithm), JwtError>(
            (Some(kid), alg),
        ),
    ensures
        ({
            let step = first_step(cache, Some("Bearer "@ + token));
            &&& cache.contains_key(kid) ==> step == key_step(token, alg, Ok(cache[kid]))
            &&& !cache.contains_key(kid) ==> step == (StepView::Fetch { token, kid, alg })
        }),
{
    crate::token::law_token_follows_scheme(token, Some("Bearer "@ + token));
}

/// A token that names no key, or whose header cannot be read, is refused for that,
/// whatever keys are held.
pub proof fn law_token_without_key_name_is_refused(
    cache: Map<Seq<char>, DecodingKey>,
    token: Seq<char>,
)
    requires
        0 < vstd::utf8::encode_utf8(token).len() <= 4096,
    ensures
        crate::token::jwt_header(token) matches Ok((kid, alg)) && kid is None ==> first_step(
            cache,
            Some("Bearer "@ + token),
        ) == StepView::Reply(
            (crate::reply::ReplyView {
                status: Status::Unauthorized,
                body: "failed to validate token: "@ + "JWT header missing 'kid' field"@,
            }),
        ),
        crate::token::jwt_header(token) matches Err(e) ==> first_step(
            cache,
            Some("Bearer "@ + token),
        ) == StepView::Reply(
            (crate::reply::ReplyView {
                status: Status::Unauthorized,
                body: "failed to validate token: "@ + ("failed to decode JWT header: "@
                    + crate::keys::jwt_error_text(e)),
            }),
        ),
{
    crate::token::law_token_follows_scheme(token, Some("Bearer "@ + token));
}

/// A token with nothing against its signature has its claims read, with the key at
/// hand; one with something against it, or without a key, is refused for that.
pub proof fn law_key_decides_by_the_signature(
    token: Seq<char>,
    alg: Algorithm,
    key: DecodingKey,
    error: crate::keys::KeyErrorView,
)
    ensures
        signature_under(token, key, alg) is Ok <==> key_step(token, alg, Ok(key)) == (
        StepView::Read { token, key, alg }),
        signature_under(token, key, alg) matches Err(e) ==> key_step(token, alg, Ok(key))
            == StepView::Reply(
            (crate::reply::ReplyView {
                status: Status::Unauthorized,
                body: "failed to validate token: "@ + e.text(),
            }),
        ),
        key_step(token, alg, Err(error)) == StepView::Reply(
            (crate::reply::ReplyView {
                status: Status::Unauthorized,
                body: "failed to validate token: "@ + error.text(),
            }),
        ),
{
}

/// The signature of a token is judged by what verifying it for that alone gives: it
/// holds where the token is accepted, or where only the JSON of its claims is at
/// fault.
pub proof fn law_signature_is_judged_by_verification(
    token: Seq<char>,
    key: DecodingKey,
    alg: Algorithm,
)
    ensures
        ({
            let verified = crate::token::jwt_verified(
                token,
                key,
                alg,
                crate::token::signature_only(),
            );
            &&& signature_under(token, key, alg) is Ok <==> verified is Ok || (
            crate::token::jwt_header(token) is Ok && crate::token::jwt_error_is_json(
                verified->Err_0,
            ))
            &&& signature_under(token, key, alg) matches Err(e) ==> e
                == crate::token::TokenErrorView::Verify(
                crate::keys::jwt_error_text(verified->Err_0),
            )
        }),
{
}

/// A request that carries no token reads so, and one with an empty or too long one.
pub proof fn law_refusal_tells_missing_from_invalid(
    cache: Map<Seq<char>, DecodingKey>,
    auth_header: Option<Seq<char>>,
)
    ensures
        crate::token::bearer(auth_header) == Err::<Seq<char>, BearerError>(BearerError::Missing)
            ==> first_step(cache, auth_header) == StepView::Reply(
            (crate::reply::ReplyView {
                status: Status::Unauthorized,
                body: "missing bearer token"@,
            }),
        ),
        crate::token::bearer(auth_header) == Err::<Seq<char>, BearerError>(BearerError::Invalid)
            ==> first_step(cache, auth_header) == StepView::Reply(
            (crate::reply::ReplyView {
                status: Status::Unauthorized,
                body: "invalid bearer token"@,
            }),
        ),
{
}

/// The scopes of a token are those in its claims, all of them as they stand, or none
/// where the claims have none. A refusal gives the cause, that of the reading first.
pub proof fn law_scopes_are_those_of_the_claims(
    scopes: Seq<char>,
    cause: Seq<char>,
    read: Result<Option<Seq<char>>, Seq<char>>,
    verified: Result<(), crate::token::TokenErrorView>,
)
    ensures
        scopes_or_refusal(Ok(Some(scopes)), Ok(())) == Ok::<Seq<char>, crate::reply::ReplyView>(
            scopes,
        ),
        scopes_or_refusal(Ok(None), Ok(())) == Ok::<Seq<char>, crate::reply::ReplyView>(
            Seq::empty(),
        ),
        scopes_or_refusal(Err(cause), verified) == Err::<Seq<char>, crate::reply::ReplyView>(
            (crate::reply::ReplyView {
                status: Status::Unauthorized,
                body: "failed to validate token: "@ + ("failed to decode and verify JWT: "@
                    + cause),
            }),
        ),
        read is Ok && verified is Err ==> scopes_or_refusal(read, verified) == Err::<
            Seq<char>,
            crate::reply::ReplyView,
        >(
            (crate::reply::ReplyView {
                status: Status::Unauthorized,
                body: "failed to validate token: "@ + verified->Err_0.text(),
            }),
        ),
{
}

/// An outcome is what the scopes decide, reply and report, or the refusal as it is,
/// with nothing reported.
pub proof fn law_outcome_is_decided_by_the_scopes(
    outcome: Outcome,
    policy: crate::access::PolicyView,
    request: crate::access::ForwardedView,
    scopes: Seq<char>,
    reply: crate::reply::ReplyView,
)
    ensures
        concludes(outcome, policy, request, Ok(scopes)) <==> outcome.response.status
            == crate::access::answer(policy, request, scopes).status && outcome.response.body@
            == crate::access::answer(policy, request, scopes).body && match outcome.report {
            Some(text) => crate::access::report(policy, request, scopes) == Some(text@),
            None => crate::access::report(policy, request, scopes) is None,
        },
        concludes(outcome, policy, request, Err(reply)) <==> outcome.response.status == reply.status
            && outcome.response.body@ == reply.body && outcome.report is None,
{
}

/// All of a step is seen.
pub proof fn law_step_is_seen_whole(reply: TextResponse, request: KeyRequest, signed: SignedToken)
    ensures
        Step::Reply(reply)@ == StepView::Reply(
            (crate::reply::ReplyView { status: reply.status, body: reply.body@ }),
        ),
        Step::Fetch(request)@ == (StepView::Fetch {
            token: request.token@,
            kid: request.kid@,
            alg: request.alg,
        }),
        Step::Read(signed)@ == (StepView::Read {
            token: signed.token@,
            key: signed.key,
            alg: signed.alg,
        }),
{
}

/// All that came of reading the claims is seen.
pub proof fn law_read_claims_are_seen_whole(scope: String, cause: String)
    ensures
        read_view(Ok(Some(scope))) == Ok::<Option<Seq<char>>, Seq<char>>(Some(scope@)),
        read_view(Ok(None)) == Ok::<Option<Seq<char>>, Seq<char>>(None),
        read_view(Err(cause)) == Err::<Option<Seq<char>>, Seq<char>>(cause@),
{
}

} // verus!
