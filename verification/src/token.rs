//! Bearer tokens: taking them from the request, and checking them against the
//! issuer's keys.

use vstd::prelude::*;

use jsonwebtoken::errors::{Error as JwtError, ErrorKind};
use jsonwebtoken::{Algorithm, DecodingKey, Validation};
use serde::de::IgnoredAny;

use crate::keys::{error_text, KeyError};
use crate::text::strip_prefix;

verus! {

/// An algorithm that tokens are signed with.
#[verifier::external_type_specification]
#[verifier::external_body]
pub struct ExAlgorithm(jsonwebtoken::Algorithm);

/// The longest token that is looked at, in bytes.
pub const MAX_TOKEN_BYTES: usize = 4096;

/// By how many seconds the clocks of issuer and verifier may differ.
pub const LEEWAY_SECONDS: u64 = 10;

/// Why a request carries no token to look at.
#[derive(Debug, Clone, Copy, PartialEq, Eq, Structural)]
pub enum BearerError {
    /// There is no `Authorization: Bearer` header.
    Missing,
    /// The token is empty or too long.
    Invalid,
}

/// The token in an `Authorization` header, or why there is none.
pub open spec fn bearer(auth_header: Option<Seq<char>>) -> Result<Seq<char>, BearerError> {
    match auth_header {
        None => Err(BearerError::Missing),
        Some(header) => if "Bearer "@.is_prefix_of(header) {
            let token = header.skip("Bearer "@.len() as int);
            if 0 < vstd::utf8::encode_utf8(token).len() <= MAX_TOKEN_BYTES {
                Ok(token)
            } else {
                Err(BearerError::Invalid)
            }
        } else {
            Err(BearerError::Missing)
        },
    }
}

/// The token in an `Authorization` header, or why there is none.
pub fn bearer_token<'a>(auth_header: Option<&'a str>) -> (r: Result<&'a str, BearerError>)
    ensures
        bearer(crate::scopes::option_view(auth_header)) == match r {
            Ok(token) => Ok(token@),
            Err(e) => Err(e),
        },
{
    match auth_header {
        None => Err(BearerError::Missing),
        Some(header) => match strip_prefix(header, "Bearer ") {
            None => Err(BearerError::Missing),
            Some(token) => {
                assert(header@.skip("Bearer "@.len() as int) =~= token@);
                let size: usize = token.as_bytes().len();
                if size > 0 && size <= MAX_TOKEN_BYTES {
                    Ok(token)
                } else {
                    Err(BearerError::Invalid)
                }
            },
        },
    }
}

/// What the header of a token says of its signature.
pub struct TokenHeader {
    /// The key it was made with.
    pub kid: Option<String>,
    /// The algorithm it was made with.
    pub alg: Algorithm,
}

/// What a read header says.
pub open spec fn header_view(header: Result<TokenHeader, JwtError>) -> Result<
    (Option<Seq<char>>, Algorithm),
    JwtError,
> {
    match header {
        Ok(h) => Ok(
            (
                match h.kid {
                    Some(kid) => Some(kid@),
                    None => None,
                },
                h.alg,
            ),
        ),
        Err(e) => Err(e),
    }
}

/// The `kid` and the algorithm in the header of a token, as
/// `jsonwebtoken::decode_header` reads them, or why it cannot.
pub uninterp spec fn jwt_header(token: Seq<char>) -> Result<
    (Option<Seq<char>>, Algorithm),
    JwtError,
>;

/// What is asked of the claims of a token besides that they are signed.
pub struct Checks {
    /// By how many seconds the clocks may differ.
    pub leeway: u64,
    /// Whether the token must not have expired.
    pub exp: bool,
    /// Whether the token must be valid already.
    pub nbf: bool,
    /// Whether the token must not be for somebody else.
    pub aud: bool,
    /// The claims that must be there.
    pub required: Vec<&'static str>,
}

/// What is asked of the claims of a token.
pub struct ChecksView {
    pub leeway: u64,
    pub exp: bool,
    pub nbf: bool,
    pub aud: bool,
    pub required: Seq<Seq<char>>,
}

impl View for Checks {
    type V = ChecksView;

    open spec fn view(&self) -> ChecksView {
        ChecksView {
            leeway: self.leeway,
            exp: self.exp,
            nbf: self.nbf,
            aud: self.aud,
            required: crate::text::views(self.required@),
        }
    }
}

/// Whether `jsonwebtoken::decode` accepts a token, or why it refuses it, apart from
/// what it finds by comparing the claims with the clock.
pub uninterp spec fn jwt_verified(
    token: Seq<char>,
    key: DecodingKey,
    alg: Algorithm,
    checks: ChecksView,
) -> Result<(), JwtError>;

/// Whether an error of the token library says that a text is not the JSON that was
/// asked for.
pub uninterp spec fn jwt_error_is_json(error: JwtError) -> bool;

/// Whether an error is one that comes of holding claims against the clock.
pub open spec fn clock_refuses(error: JwtError, checks: ChecksView) -> bool {
    ||| checks.exp && crate::keys::jwt_error_text(error) == "ExpiredSignature"@
    ||| checks.nbf && crate::keys::jwt_error_text(error) == "ImmatureSignature"@
}

/// Calls `jsonwebtoken::decode_header`, which checks nothing. The contract names
/// the two fields that are used of what it returns, and its error.
#[verifier::external_body]
fn decode_header(token: &str) -> (r: Result<TokenHeader, JwtError>)
    ensures
        header_view(r) == jwt_header(token@),
{
    jsonwebtoken::decode_header(token).map(|h| TokenHeader { kid: h.kid, alg: h.alg })
}

/// Calls `jsonwebtoken::decode`, for the one algorithm and with the given checks,
/// for claims that may be any JSON and are not kept. The contract names what it
/// returns. Whether the clock speaks against a token is left unsaid: where a token
/// has expired, or is not valid yet, and that is looked at, an error that says so
/// comes though all else is in order. The audience is looked at after the clock, so
/// with that check the error may be the clock's. The crate walks the required
/// claims in no fixed order, so there is at most one, and it subtracts the leeway
/// from the clock, which must be set past the year 2001.
#[verifier::external_body]
fn decode(token: &str, key: &DecodingKey, alg: Algorithm, checks: &Checks) -> (r: Result<
    (),
    JwtError,
>)
    requires
        checks.leeway <= 1_000_000_000,
        checks.required@.len() <= 1,
    ensures
        match jwt_verified(token@, *key, alg, checks@) {
            Ok(()) => r is Err ==> clock_refuses(r->Err_0, checks@),
            Err(e) => {
                &&& r is Err
                &&& !checks.aud ==> r->Err_0 == e
            },
        },
{
    let mut validation = Validation::new(alg);
    validation.leeway = checks.leeway;
    validation.validate_exp = checks.exp;
    validation.validate_nbf = checks.nbf;
    validation.validate_aud = checks.aud;
    validation.set_required_spec_claims(checks.required.as_slice());
    jsonwebtoken::decode::<IgnoredAny>(token, key, &validation).map(|_| ())
}

/// Calls `jsonwebtoken::errors::Error::kind` and tells whether it is
/// `ErrorKind::Json`. The contract names the answer, which depends on the error
/// alone.
#[verifier::external_body]
fn is_json_error(error: &JwtError) -> (r: bool)
    ensures
        r == jwt_error_is_json(*error),
{
    matches!(error.kind(), ErrorKind::Json(_))
}

/// Why a token is not accepted.
#[derive(Debug, PartialEq, Eq)]
pub enum TokenError {
    /// Its header cannot be read.
    Header(String),
    /// Its header does not say which key it was signed with.
    NoKeyId,
    /// There is no key to check it with.
    Key(KeyError),
    /// Its signature or its claims are refused.
    Verify(String),
}

/// What a `TokenError` reads.
pub enum TokenErrorView {
    Header(Seq<char>),
    NoKeyId,
    Key(crate::keys::KeyErrorView),
    Verify(Seq<char>),
}

impl TokenErrorView {
    /// What the report says.
    pub open spec fn text(self) -> Seq<char> {
        match self {
            TokenErrorView::Header(cause) => "failed to decode JWT header: "@ + cause,
            TokenErrorView::NoKeyId => "JWT header missing 'kid' field"@,
            TokenErrorView::Key(e) => e.text(),
            TokenErrorView::Verify(cause) => "failed to decode and verify JWT: "@ + cause,
        }
    }
}

impl View for TokenError {
    type V = TokenErrorView;

    open spec fn view(&self) -> TokenErrorView {
        match self {
            TokenError::Header(cause) => TokenErrorView::Header(cause@),
            TokenError::NoKeyId => TokenErrorView::NoKeyId,
            TokenError::Key(e) => TokenErrorView::Key(e@),
            TokenError::Verify(cause) => TokenErrorView::Verify(cause@),
        }
    }
}

impl TokenError {
    /// The report to show.
    pub fn message(&self) -> (r: String)
        ensures
            r@ == self@.text(),
    {
        match self {
            TokenError::Header(cause) => "failed to decode JWT header: ".to_owned().concat(
                cause.as_str(),
            ),
            TokenError::NoKeyId => "JWT header missing 'kid' field".to_owned(),
            TokenError::Key(e) => e.message(),
            TokenError::Verify(cause) => "failed to decode and verify JWT: ".to_owned().concat(
                cause.as_str(),
            ),
        }
    }
}

/// The key and the algorithm that a token says it was signed with, or why it
/// cannot be checked.
pub open spec fn signed_with(
    header: Result<(Option<Seq<char>>, Algorithm), JwtError>,
) -> Result<(Seq<char>, Algorithm), TokenErrorView> {
    match header {
        Ok((Some(kid), alg)) => Ok((kid, alg)),
        Ok((None, _)) => Err(TokenErrorView::NoKeyId),
        Err(e) => Err(TokenErrorView::Header(crate::keys::jwt_error_text(e))),
    }
}

/// The key and the algorithm, or why the token cannot be checked.
pub open spec fn signed_with_view(signed: Result<(String, Algorithm), TokenError>) -> Result<
    (Seq<char>, Algorithm),
    TokenErrorView,
> {
    match signed {
        Ok((kid, alg)) => Ok((kid@, alg)),
        Err(e) => Err(e@),
    }
}

/// The key and the algorithm that a read header asks for, or why the token cannot
/// be checked.
pub fn require_key_id(header: Result<TokenHeader, JwtError>) -> (r: Result<
    (String, Algorithm),
    TokenError,
>)
    ensures
        signed_with_view(r) == signed_with(header_view(header)),
{
    match header {
        Ok(h) => match h.kid {
            Some(kid) => Ok((kid, h.alg)),
            None => Err(TokenError::NoKeyId),
        },
        Err(e) => Err(TokenError::Header(error_text(&e))),
    }
}

/// The key and the algorithm that a token says it was signed with, or why it
/// cannot be checked.
pub fn read_header(token: &str) -> (r: Result<(String, Algorithm), TokenError>)
    ensures
        signed_with_view(r) == signed_with(jwt_header(token@)),
{
    require_key_id(decode_header(token))
}

/// Nothing but the signature.
pub open spec fn signature_only() -> ChecksView {
    ChecksView { leeway: 0, exp: false, nbf: false, aud: false, required: Seq::empty() }
}

/// The signature, that the token says when it expires, and that it is valid now.
pub open spec fn signature_and_time() -> ChecksView {
    ChecksView {
        leeway: LEEWAY_SECONDS,
        exp: true,
        nbf: true,
        aud: false,
        required: seq!["exp"@],
    }
}

/// Whether there is nothing against a token, or what there is.
pub open spec fn acceptance(verified: Result<(), JwtError>) -> Result<(), TokenErrorView> {
    match verified {
        Ok(()) => Ok(()),
        Err(e) => Err(TokenErrorView::Verify(crate::keys::jwt_error_text(e))),
    }
}

/// Whether there is nothing against the signature of a token, or what there is. The
/// signature is looked at after the header and before the claims. So where the
/// header can be read, an error in the JSON is one in that of the claims, and says
/// nothing against the signature.
pub open spec fn signature(
    header: Result<(Option<Seq<char>>, Algorithm), JwtError>,
    verified: Result<(), JwtError>,
) -> Result<(), TokenErrorView> {
    match verified {
        Err(e) => if header is Ok && jwt_error_is_json(e) {
            Ok(())
        } else {
            acceptance(verified)
        },
        Ok(()) => Ok(()),
    }
}

/// Whether there is nothing against a token, or what there is.
pub open spec fn acceptance_view(accepted: Result<(), TokenError>) -> Result<(), TokenErrorView> {
    match accepted {
        Ok(()) => Ok(()),
        Err(e) => Err(e@),
    }
}

/// Whether there is nothing against a token, or what there is.
pub fn accept(verified: Result<(), JwtError>) -> (r: Result<(), TokenError>)
    ensures
        acceptance_view(r) == acceptance(verified),
{
    match verified {
        Ok(()) => Ok(()),
        Err(e) => Err(TokenError::Verify(error_text(&e))),
    }
}

/// Whether there is nothing against the signature of a token, or what there is,
/// given what came of reading its header and of verifying it.
pub fn accept_signature(
    header: &Result<TokenHeader, JwtError>,
    verified: Result<(), JwtError>,
) -> (r: Result<(), TokenError>)
    ensures
        acceptance_view(r) == signature(header_view(*header), verified),
{
    match verified {
        Err(e) => if header.is_ok() && is_json_error(&e) {
            Ok(())
        } else {
            accept(Err(e))
        },
        Ok(()) => Ok(()),
    }
}

/// Whether there is nothing against the signature of a token under `key`, or what
/// there is. What the claims say is not looked at.
pub fn check_signature(token: &str, key: &DecodingKey, alg: Algorithm) -> (r: Result<
    (),
    TokenError,
>)
    ensures
        acceptance_view(r) == signature(
            jwt_header(token@),
            jwt_verified(token@, *key, alg, signature_only()),
        ),
{
    let checks = Checks { leeway: 0, exp: false, nbf: false, aud: false, required: Vec::new() };
    assert(checks@.required =~= Seq::empty());
    accept_signature(&decode_header(token), decode(token, key, alg, &checks))
}

/// Whether there is nothing against a token, or what there is: its signature holds
/// under `key`, it says when it expires, and it is valid now. It is given up to
/// `LEEWAY_SECONDS` after its expiry and before its start. Its audience is not
/// looked at.
///
/// Whether the clock speaks against a token is not stated.
pub fn verify_token(token: &str, key: &DecodingKey, alg: Algorithm) -> (r: Result<(), TokenError>)
    ensures
        match jwt_verified(token@, *key, alg, signature_and_time()) {
            Ok(()) => r is Ok || exists|late: JwtError|
                #![trigger crate::keys::jwt_error_text(late)]
                clock_refuses(late, signature_and_time()) && acceptance_view(r) == acceptance(
                    Err(late),
                ),
            Err(e) => acceptance_view(r) == acceptance(Err(e)),
        },
{
    let mut required: Vec<&'static str> = Vec::new();
    required.push("exp");
    let checks = Checks { leeway: LEEWAY_SECONDS, exp: true, nbf: true, aud: false, required };
    assert(checks@ =~= signature_and_time()) by {
        assert(checks@.required =~= signature_and_time().required);
    }
    accept(decode(token, key, alg, &checks))
}

/// A token that is looked at is what follows `Bearer ` in the header, the whole of
/// it, and has at least one and at most `MAX_TOKEN_BYTES` bytes; and every such
/// token is looked at.
pub proof fn law_token_follows_scheme(token: Seq<char>, auth_header: Option<Seq<char>>)
    ensures
        bearer(auth_header) == Ok::<Seq<char>, BearerError>(token) <==> auth_header == Some(
            "Bearer "@ + token,
        ) && 0 < vstd::utf8::encode_utf8(token).len() <= MAX_TOKEN_BYTES,
{
    match auth_header {
        Some(header) => {
            if "Bearer "@.is_prefix_of(header) {
                assert(header =~= "Bearer "@ + header.skip("Bearer "@.len() as int));
            }
            if header == "Bearer "@ + token {
                assert("Bearer "@ =~= header.subrange(0, "Bearer "@.len() as int));
                assert(header.skip("Bearer "@.len() as int) =~= token);
            }
        },
        None => {},
    }
}

/// A header that does not begin with `Bearer `, or is not there, has no token; one
/// that does has a bad one where it is empty or over 4096 bytes.
pub proof fn law_token_is_missing_or_invalid(token: Seq<char>, auth_header: Option<Seq<char>>)
    ensures
        bearer(auth_header) == Err::<Seq<char>, BearerError>(BearerError::Missing) <==> forall|
            t: Seq<char>,
        |
            auth_header != Some(#[trigger] ("Bearer "@ + t)),
        bearer(Some("Bearer "@ + token)) == (if 0 < vstd::utf8::encode_utf8(token).len() <= 4096 {
            Ok(token)
        } else {
            Err(BearerError::Invalid)
        }),
{
    let header = "Bearer "@ + token;
    assert("Bearer "@ =~= header.subrange(0, "Bearer "@.len() as int));
    assert(header.skip("Bearer "@.len() as int) =~= token);
    match auth_header {
        Some(h) => {
            if "Bearer "@.is_prefix_of(h) {
                assert(h =~= "Bearer "@ + h.skip("Bearer "@.len() as int));
            }
            assert forall|t: Seq<char>| h == #[trigger] ("Bearer "@ + t) implies "Bearer "@
                .is_prefix_of(h) by {
                assert("Bearer "@ =~= h.subrange(0, "Bearer "@.len() as int));
            }
        },
        None => {},
    }
}

/// A token is checked with the key and the algorithm that its own header names. One
/// that names no key, or whose header cannot be read, is not checked.
pub proof fn law_header_names_key_and_algorithm(
    kid: Seq<char>,
    alg: Algorithm,
    error: JwtError,
)
    ensures
        signed_with(Ok((Some(kid), alg))) == Ok::<(Seq<char>, Algorithm), TokenErrorView>((kid, alg)),
        signed_with(Ok((None, alg))) == Err::<(Seq<char>, Algorithm), TokenErrorView>(
            TokenErrorView::NoKeyId,
        ),
        signed_with(Err(error)) == Err::<(Seq<char>, Algorithm), TokenErrorView>(
            TokenErrorView::Header(crate::keys::jwt_error_text(error)),
        ),
{
}

/// A token that the verification refuses is refused for the cause that it gives. To
/// the signature alone, an error in the JSON of the claims makes no difference.
pub proof fn law_refusal_gives_its_cause(
    header: Result<(Option<Seq<char>>, Algorithm), JwtError>,
    error: JwtError,
)
    ensures
        acceptance(Ok(())) == Ok::<(), TokenErrorView>(()),
        acceptance(Err(error)) == Err::<(), TokenErrorView>(
            TokenErrorView::Verify(crate::keys::jwt_error_text(error)),
        ),
        signature(header, Ok(())) == Ok::<(), TokenErrorView>(()),
        signature(header, Err(error)) == (if header is Ok && jwt_error_is_json(error) {
            Ok(())
        } else {
            Err(TokenErrorView::Verify(crate::keys::jwt_error_text(error)))
        }),
{
}

/// Verifying a token asks that it says when it expires, and looks at expiry and
/// start with a leeway of ten seconds, and not at the audience. The signature alone
/// is checked with none of these.
pub proof fn law_expiry_and_start_are_looked_at(required: Seq<char>)
    ensures
        signature_and_time().leeway == 10,
        signature_and_time().exp && signature_and_time().nbf && !signature_and_time().aud,
        signature_and_time().required.contains(required) <==> required == "exp"@,
        signature_and_time().required.len() == 1,
        !signature_only().exp && !signature_only().nbf && !signature_only().aud,
        !signature_only().required.contains(required),
{
    assert(signature_and_time().required[0] == "exp"@);
}

/// The clock refuses a token only as expired, where expiry is looked at, or as not
/// valid yet, where the start is.
pub proof fn law_clock_refuses_as_expired_or_early(error: JwtError, checks: ChecksView)
    ensures
        clock_refuses(error, checks) <==> checks.exp && crate::keys::jwt_error_text(error)
            == "ExpiredSignature"@ || checks.nbf && crate::keys::jwt_error_text(error)
            == "ImmatureSignature"@,
{
}

/// The report says what was wrong, and ends in the cause.
pub proof fn law_token_report_ends_in_its_cause(cause: Seq<char>, error: crate::keys::KeyErrorView)
    ensures
        TokenErrorView::Header(cause).text() == "failed to decode JWT header: "@ + cause,
        TokenErrorView::NoKeyId.text() == "JWT header missing 'kid' field"@,
        TokenErrorView::Key(error).text() == error.text(),
        TokenErrorView::Verify(cause).text() == "failed to decode and verify JWT: "@ + cause,
{
}

/// An error shows what it holds, and of what kind it is.
pub proof fn law_token_error_is_seen_whole(cause: String, error: KeyError)
    ensures
        TokenError::Header(cause)@ == TokenErrorView::Header(cause@),
        TokenError::NoKeyId@ == TokenErrorView::NoKeyId,
        TokenError::Key(error)@ == TokenErrorView::Key(error@),
        TokenError::Verify(cause)@ == TokenErrorView::Verify(cause@),
{
}

/// All that a header, a check or a result holds is seen.
pub proof fn law_results_are_seen_whole(
    kid: String,
    alg: Algorithm,
    broken: JwtError,
    error: TokenError,
    checks: Checks,
)
    ensures
        header_view(Ok((TokenHeader { kid: Some(kid), alg }))) == Ok::<
            (Option<Seq<char>>, Algorithm),
            JwtError,
        >((Some(kid@), alg)),
        header_view(Ok((TokenHeader { kid: None, alg }))) == Ok::<
            (Option<Seq<char>>, Algorithm),
            JwtError,
        >((None, alg)),
        header_view(Err(broken)) == Err::<(Option<Seq<char>>, Algorithm), JwtError>(broken),
        signed_with_view(Ok((kid, alg))) == Ok::<(Seq<char>, Algorithm), TokenErrorView>(
            (kid@, alg),
        ),
        signed_with_view(Err(error)) == Err::<(Seq<char>, Algorithm), TokenErrorView>(error@),
        acceptance_view(Ok(())) == Ok::<(), TokenErrorView>(()),
        acceptance_view(Err(error)) == Err::<(), TokenErrorView>(error@),
        checks@.leeway == checks.leeway,
        checks@.exp == checks.exp && checks@.nbf == checks.nbf && checks@.aud == checks.aud,
        checks@.required.len() == checks.required@.len(),
        forall|i: int|
            0 <= i < checks.required@.len() ==> #[trigger] checks@.required[i]
                == checks.required@[i]@,
{
}

} // verus!
