//! Which scopes a request needs, and what it is answered for those of its token.

use vstd::prelude::*;

use crate::reply::{text_response, Status, TextResponse};
use crate::routes::{Decision, RouteConfig};
use crate::text::{same, split, split_once, split_whitespace, up_to, Separator};

verus! {

/// The value of a query parameter that is named `scope`.
pub open spec fn scope_value(param: Seq<char>) -> Option<Seq<char>> {
    match crate::text::halves(param, '=') {
        Some((name, value)) => if name == "scope"@ {
            Some(value)
        } else {
            None
        },
        None => None,
    }
}

/// The values of those parameters that are named `scope`, in order.
pub open spec fn scope_values(params: Seq<Seq<char>>) -> Seq<Seq<char>> {
    params.filter(|param: Seq<char>| scope_value(param) is Some).map_values(
        |param: Seq<char>| scope_value(param)->0,
    )
}

/// The scopes that a query asks for, in order.
pub open spec fn required(query: Seq<char>) -> Seq<Seq<char>> {
    scope_values(crate::text::pieces(query, Separator::Char('&')))
}

/// Whether a token that carries `token_scopes` has one of the scopes that a query
/// asks for, letter for letter, or the query asks for none.
pub open spec fn meets_query(query: Seq<char>, token_scopes: Seq<char>) -> bool {
    ||| required(query).len() == 0
    ||| exists|i: int|
        0 <= i < required(query).len() && crate::text::words(token_scopes).contains(
            #[trigger] required(query)[i],
        )
}

proof fn lemma_scope_values_push(params: Seq<Seq<char>>, param: Seq<char>)
    ensures
        scope_values(params.push(param)) == match scope_value(param) {
            Some(value) => scope_values(params).push(value),
            None => scope_values(params),
        },
{
    reveal(Seq::filter);
    assert(params.push(param).drop_last() =~= params);
    assert(scope_values(params.push(param)) =~= match scope_value(param) {
        Some(value) => scope_values(params).push(value),
        None => scope_values(params),
    });
}

/// The scopes that a query asks for, in order.
pub fn required_scopes<'a>(query: &'a str) -> (r: Vec<&'a str>)
    ensures
        crate::text::views(r@) == required(query@),
{
    let params: Vec<&str> = split(query, Separator::Char('&'));
    let ghost ps = crate::text::pieces(query@, Separator::Char('&'));
    let mut out: Vec<&'a str> = Vec::new();
    let mut i: usize = 0;
    proof {
        reveal(Seq::filter);
        assert(ps.take(0) =~= Seq::empty());
        assert(crate::text::views(out@) =~= scope_values(ps.take(0)));
    }
    while i < params.len()
        invariant
            i <= params@.len() == ps.len(),
            crate::text::views(params@) == ps,
            crate::text::views(out@) == scope_values(ps.take(i as int)),
        decreases params@.len() - i,
    {
        let ghost before = out@;
        proof {
            assert(ps[i as int] == params@[i as int]@);
            assert(ps.take(i + 1) =~= ps.take(i as int).push(ps[i as int]));
            lemma_scope_values_push(ps.take(i as int), ps[i as int]);
        }
        match split_once(params[i], '=') {
            Some((name, value)) => {
                if same(name, "scope") {
                    out.push(value);
                    assert(crate::text::views(out@) =~= crate::text::views(before).push(value@));
                }
            },
            None => {},
        }
        i += 1;
    }
    assert(ps.take(i as int) =~= ps);
    out
}

/// Whether the words hold the one that is sought.
fn holds(words: &Vec<&str>, sought: &str) -> (r: bool)
    ensures
        r == crate::text::views(words@).contains(sought@),
{
    let ghost ws = crate::text::views(words@);
    let mut i: usize = 0;
    while i < words.len()
        invariant
            i <= words@.len(),
            ws == crate::text::views(words@),
            forall|j: int| 0 <= j < i ==> #[trigger] ws[j] != sought@,
        decreases words@.len() - i,
    {
        assert(ws[i as int] == words@[i as int]@);
        if same(words[i], sought) {
            return true;
        }
        i += 1;
    }
    false
}

/// Whether a token that carries `token_scopes` has one of the scopes that a query
/// asks for, letter for letter, or the query asks for none.
pub fn satisfies_query(query: &str, token_scopes: &str) -> (r: bool)
    ensures
        r == meets_query(query@, token_scopes@),
{
    let candidates: Vec<&str> = required_scopes(query);
    if candidates.len() == 0 {
        return true;
    }
    let present: Vec<&str> = split_whitespace(token_scopes);
    let ghost cs = required(query@);
    let mut i: usize = 0;
    while i < candidates.len()
        invariant
            i <= candidates@.len(),
            cs == required(query@),
            cs == crate::text::views(candidates@),
            crate::text::views(present@) == crate::text::words(token_scopes@),
            forall|j: int|
                0 <= j < i ==> !crate::text::words(token_scopes@).contains(#[trigger] cs[j]),
        decreases candidates@.len() - i,
    {
        assert(cs[i as int] == candidates@[i as int]@);
        if holds(&present, candidates[i]) {
            return true;
        }
        i += 1;
    }
    false
}

/// What is asked of a request besides what its query asks for.
#[derive(Debug)]
pub struct Policy {
    /// The route map, if there is one.
    pub routes: Option<RouteConfig>,
    /// Whether what the route map denies is refused, not only reported.
    pub enforce: bool,
}

/// What is asked of a request besides what its query asks for.
pub struct PolicyView {
    pub routes: Option<crate::routes::RouteConfigView>,
    pub enforce: bool,
}

impl View for Policy {
    type V = PolicyView;

    open spec fn view(&self) -> PolicyView {
        PolicyView {
            routes: match self.routes {
                Some(routes) => Some(routes@),
                None => None,
            },
            enforce: self.enforce,
        }
    }
}

/// What is known of a request that was forwarded.
#[derive(Debug, Clone, Copy)]
pub struct Forwarded<'a> {
    /// The query of the forwarding, which may name scopes.
    pub query: &'a str,
    /// The method of the request, if it was handed on.
    pub method: Option<&'a str>,
    /// The path and query of the request, if they were handed on.
    pub uri: Option<&'a str>,
}

/// What is known of a request that was forwarded. What was not handed on is empty.
pub struct ForwardedView {
    pub query: Seq<char>,
    pub method: Seq<char>,
    pub uri: Seq<char>,
}

/// What the text reads, or nothing where there is none.
pub open spec fn text_or_empty(text: Option<&str>) -> Seq<char> {
    match text {
        Some(s) => s@,
        None => Seq::empty(),
    }
}

impl<'a> View for Forwarded<'a> {
    type V = ForwardedView;

    open spec fn view(&self) -> ForwardedView {
        ForwardedView {
            query: self.query@,
            method: text_or_empty(self.method),
            uri: text_or_empty(self.uri),
        }
    }
}

impl ForwardedView {
    /// The path of the request, without its query.
    pub open spec fn path(self) -> Seq<char> {
        crate::text::before(self.uri, '?')
    }
}

/// What the route map says of a request. Without one there is nothing to deny.
pub open spec fn decision(
    policy: PolicyView,
    request: ForwardedView,
    token_scopes: Seq<char>,
) -> crate::routes::DecisionView {
    match policy.routes {
        Some(config) => crate::routes::evaluation(
            config,
            request.method,
            request.path(),
            token_scopes,
        ),
        None => crate::routes::DecisionView::Allow,
    }
}

/// Whether the route map denies a request.
pub open spec fn denied(policy: PolicyView, request: ForwardedView, token_scopes: Seq<char>) -> bool {
    decision(policy, request, token_scopes) != crate::routes::DecisionView::Allow
}

/// What a request is answered whose token carries `token_scopes`.
pub open spec fn answer(
    policy: PolicyView,
    request: ForwardedView,
    token_scopes: Seq<char>,
) -> crate::reply::ReplyView {
    if meets_query(request.query, token_scopes) && !(policy.enforce && denied(
        policy,
        request,
        token_scopes,
    )) {
        crate::reply::ReplyView { status: Status::Success, body: "ok"@ }
    } else {
        crate::reply::ReplyView { status: Status::Forbidden, body: "insufficient scope"@ }
    }
}

/// What is reported of a request that the route map denies but that is not refused
/// for it.
pub open spec fn report(
    policy: PolicyView,
    request: ForwardedView,
    token_scopes: Seq<char>,
) -> Option<Seq<char>> {
    if !policy.enforce && denied(policy, request, token_scopes) {
        Some(
            "report-only: "@ + request.method + " "@ + request.path()
                + " would be denied with ENFORCE_ROUTES=true"@,
        )
    } else {
        None
    }
}

/// What a request is answered, and what is reported of it.
#[derive(Debug, PartialEq, Eq)]
pub struct Outcome {
    pub response: TextResponse,
    pub report: Option<String>,
}

/// The text, or nothing where there is none.
fn or_empty<'a>(text: Option<&'a str>) -> (r: &'a str)
    ensures
        r@ == text_or_empty(text),
{
    match text {
        Some(s) => s,
        None => {
            proof {
                reveal_strlit("");
            }
            assert(""@ =~= Seq::empty());
            ""
        },
    }
}

/// What a request is answered whose token carries `token_scopes`, and what is
/// reported of it.
pub fn authorize(policy: &Policy, request: Forwarded<'_>, token_scopes: &str) -> (r: Outcome)
    ensures
        r.response@ == answer(policy@, request@, token_scopes@),
        match r.report {
            Some(text) => report(policy@, request@, token_scopes@) == Some(text@),
            None => report(policy@, request@, token_scopes@) is None,
        },
{
    let method: &str = or_empty(request.method);
    let path: &str = up_to(or_empty(request.uri), '?');
    let denied: bool = match &policy.routes {
        Some(config) => match config.evaluate(method, path, token_scopes) {
            Decision::Allow => false,
            _ => true,
        },
        None => false,
    };
    let response: TextResponse = if satisfies_query(request.query, token_scopes) && !(policy.enforce
        && denied) {
        text_response(Status::Success, "ok")
    } else {
        text_response(Status::Forbidden, "insufficient scope")
    };
    let report: Option<String> = if !policy.enforce && denied {
        Some(
            "report-only: ".to_owned().concat(method).concat(" ").concat(path).concat(
                " would be denied with ENFORCE_ROUTES=true",
            ),
        )
    } else {
        None
    };
    Outcome { response, report }
}

/// The scopes that two queries ask for are asked for by the two together.
pub proof fn law_parts_of_a_query_add_up(a: Seq<char>, b: Seq<char>)
    ensures
        required(a.push('&') + b) == required(a) + required(b),
{
    let by = Separator::Char('&');
    let (pa, pb) = (crate::text::pieces(a, by), crate::text::pieces(b, by));
    crate::text::law_split_at_separator(a, '&', b, by);
    Seq::filter_distributes_over_add(pa, pb, |param: Seq<char>| scope_value(param) is Some);
    assert(scope_values(pa + pb) =~= scope_values(pa) + scope_values(pb));
}

/// A parameter asks for its value where it is named `scope`, whatever the value
/// holds, and for nothing where it is not.
pub proof fn law_value_follows_first_equals_sign(name: Seq<char>, value: Seq<char>)
    requires
        !name.contains('='),
    ensures
        scope_value(name.push('=') + value) == (if name == "scope"@ {
            Some(value)
        } else {
            None
        }),
{
    let param = name.push('=') + value;
    assert(param[name.len() as int] == '=');
    assert forall|i: int| 0 <= i < name.len() implies param[i] != '=' by {
        assert(name.contains(name[i]));
        assert(param[i] == name[i]);
    }
    crate::text::lemma_first_index(param, '=', name.len() as int);
    assert(param.take(name.len() as int) =~= name);
    assert(param.skip(name.len() as int + 1) =~= value);
}

proof fn lemma_single_parameter(param: Seq<char>)
    requires
        !param.contains('&'),
    ensures
        required(param) == match scope_value(param) {
            Some(value) => seq![value],
            None => Seq::empty(),
        },
{
    assert forall|i: int| 0 <= i < param.len() implies param[i] != '&' by {
        assert(param.contains(param[i]));
    }
    crate::text::law_text_without_separator_is_one_piece(param, Separator::Char('&'));
    reveal(Seq::filter);
    let none = Seq::<Seq<char>>::empty();
    assert(scope_values(none) =~= Seq::empty());
    assert(seq![param] =~= none.push(param));
    lemma_scope_values_push(none, param);
    assert(none.push(scope_value(param)->0) =~= seq![scope_value(param)->0]);
}

/// A parameter that is not a `scope` changes nothing, wherever it stands.
pub proof fn law_other_parameters_are_ignored(a: Seq<char>, param: Seq<char>, b: Seq<char>)
    requires
        !param.contains('&'),
        scope_value(param) is None,
    ensures
        required(param) == Seq::<Seq<char>>::empty(),
        required(param.push('&') + b) == required(b),
        required(a.push('&') + param) == required(a),
        required(a.push('&') + (param.push('&') + b)) == required(a.push('&') + b),
{
    lemma_single_parameter(param);
    law_parts_of_a_query_add_up(param, b);
    law_parts_of_a_query_add_up(a, param);
    law_parts_of_a_query_add_up(a, b);
    law_parts_of_a_query_add_up(a, param.push('&') + b);
    assert(Seq::<Seq<char>>::empty() + required(b) =~= required(b));
    assert(required(a) + Seq::<Seq<char>>::empty() =~= required(a));
}

/// A `scope` parameter asks for its value.
pub proof fn law_scope_parameter_asks_for_its_value(value: Seq<char>)
    requires
        !value.contains('&'),
    ensures
        required("scope="@ + value) == seq![value],
{
    reveal_strlit("scope");
    reveal_strlit("scope=");
    let param = "scope="@ + value;
    assert("scope="@ =~= "scope"@.push('='));
    assert(!"scope"@.contains('='));
    law_value_follows_first_equals_sign("scope"@, value);
    assert(!param.contains('&')) by {
        if param.contains('&') {
            let i = choose|i: int| 0 <= i < param.len() && param[i] == '&';
            if i >= 6 {
                assert(value[i - 6] == '&');
            }
        }
    }
    lemma_single_parameter(param);
}

/// A query that asks for no scope is met by every token.
pub proof fn law_query_without_scope_is_met(query: Seq<char>, token_scopes: Seq<char>)
    requires
        required(query).len() == 0,
    ensures
        meets_query(query, token_scopes),
{
}

/// Where no query is given, no scope is asked for.
pub proof fn law_no_query_asks_for_nothing(token_scopes: Seq<char>)
    ensures
        meets_query(Seq::empty(), token_scopes),
{
    assert(!Seq::<char>::empty().contains('&'));
    assert(!Seq::<char>::empty().contains('='));
    lemma_single_parameter(Seq::empty());
}

/// A query that asks for scopes is met by exactly those tokens that carry one of
/// them letter for letter.
pub proof fn law_one_scope_of_the_query_suffices(query: Seq<char>, token_scopes: Seq<char>)
    requires
        required(query).len() > 0,
    ensures
        meets_query(query, token_scopes) <==> exists|scope: Seq<char>| #[trigger]
            required(query).contains(scope) && crate::text::words(token_scopes).contains(scope),
{
    if meets_query(query, token_scopes) {
        let i = choose|i: int|
            0 <= i < required(query).len() && crate::text::words(token_scopes).contains(
                #[trigger] required(query)[i],
            );
        assert(required(query).contains(required(query)[i]));
    }
}

/// A query whose scopes are all empty is met by no token.
pub proof fn law_empty_scope_is_never_held(query: Seq<char>, token_scopes: Seq<char>)
    requires
        required(query).len() > 0,
        forall|i: int| 0 <= i < required(query).len() ==> (#[trigger] required(query)[i]).len() == 0,
    ensures
        !meets_query(query, token_scopes),
{
    crate::text::law_words_hold_no_whitespace(token_scopes);
}

/// The query of the request itself does not matter to the route map.
pub proof fn law_own_query_does_not_matter(
    request: ForwardedView,
    path: Seq<char>,
    own_query: Seq<char>,
)
    requires
        !path.contains('?'),
        request.uri == path || request.uri == path.push('?') + own_query,
    ensures
        request.path() == path,
{
    let uri = request.uri;
    assert forall|i: int| 0 <= i < path.len() implies uri[i] != '?' by {
        assert(path.contains(path[i]));
        assert(uri[i] == path[i]);
    }
    crate::text::lemma_first_index(uri, '?', path.len() as int);
    assert(uri.take(path.len() as int) =~= path);
}

/// A request goes on exactly where its token has what the query asks for and no
/// enforced route map denies it. Else it is forbidden.
pub proof fn law_request_goes_on_or_is_forbidden(
    policy: PolicyView,
    request: ForwardedView,
    token_scopes: Seq<char>,
)
    ensures
        answer(policy, request, token_scopes).status == Status::Success <==> meets_query(
            request.query,
            token_scopes,
        ) && (policy.enforce ==> decision(policy, request, token_scopes)
            == crate::routes::DecisionView::Allow),
        answer(policy, request, token_scopes).status == Status::Success || answer(
            policy,
            request,
            token_scopes,
        ).status == Status::Forbidden,
{
}

/// What the route map denies is refused where it is enforced, and only reported
/// where it is not.
pub proof fn law_denial_is_refused_or_reported(
    policy: PolicyView,
    request: ForwardedView,
    token_scopes: Seq<char>,
)
    requires
        denied(policy, request, token_scopes),
    ensures
        policy.enforce ==> answer(policy, request, token_scopes).status == Status::Forbidden,
        policy.enforce <==> report(policy, request, token_scopes) is None,
{
}

/// A route map that is not enforced changes no answer: the query alone decides.
pub proof fn law_report_only_changes_no_answer(
    policy: PolicyView,
    request: ForwardedView,
    token_scopes: Seq<char>,
)
    requires
        !policy.enforce,
    ensures
        answer(policy, request, token_scopes) == answer(
            PolicyView { routes: None, enforce: false },
            request,
            token_scopes,
        ),
        answer(policy, request, token_scopes).status == Status::Success <==> meets_query(
            request.query,
            token_scopes,
        ),
{
}

/// Without a route map the query alone decides, and nothing is reported.
pub proof fn law_query_alone_decides_without_route_map(
    policy: PolicyView,
    request: ForwardedView,
    token_scopes: Seq<char>,
)
    requires
        policy.routes is None,
    ensures
        answer(policy, request, token_scopes).status == Status::Success <==> meets_query(
            request.query,
            token_scopes,
        ),
        report(policy, request, token_scopes) is None,
{
}

/// A request that goes on also goes on when scopes are added to its token.
pub proof fn law_added_scopes_keep_request_going(
    policy: PolicyView,
    request: ForwardedView,
    token_scopes: Seq<char>,
    more: Seq<char>,
)
    requires
        answer(policy, request, token_scopes).status == Status::Success,
    ensures
        answer(policy, request, token_scopes.push(' ') + more).status == Status::Success,
{
    let all = token_scopes.push(' ') + more;
    let ws = crate::text::words(token_scopes);
    crate::text::law_words_at_whitespace(token_scopes, ' ', more);
    if required(request.query).len() > 0 {
        let i = choose|i: int|
            0 <= i < required(request.query).len() && ws.contains(
                #[trigger] required(request.query)[i],
            );
        let j = choose|j: int| 0 <= j < ws.len() && ws[j] == required(request.query)[i];
        assert(crate::text::words(all)[j] == ws[j]);
        assert(crate::text::words(all).contains(required(request.query)[i]));
    }
    if policy.enforce && policy.routes is Some {
        crate::routes::law_added_scopes_keep_access(
            policy.routes->0,
            request.method,
            request.path(),
            token_scopes,
            more,
        );
    }
}

/// A parameter without an equals sign asks for nothing.
pub proof fn law_parameter_without_value_asks_for_nothing(param: Seq<char>)
    requires
        !param.contains('='),
    ensures
        scope_value(param) is None,
{
    crate::text::law_halves_meet_at_the_first(param, '=', Seq::empty());
}

/// The route map is asked about the path of a request without its own query: a
/// request with one is decided, and answered, just as the request without it.
pub proof fn law_routes_are_matched_without_own_query(
    policy: PolicyView,
    request: ForwardedView,
    path: Seq<char>,
    own_query: Seq<char>,
    token_scopes: Seq<char>,
)
    requires
        !path.contains('?'),
    ensures
        ({
            let bare = ForwardedView { uri: path, ..request };
            let full = ForwardedView { uri: path.push('?') + own_query, ..request };
            &&& decision(policy, full, token_scopes) == decision(policy, bare, token_scopes)
            &&& answer(policy, full, token_scopes) == answer(policy, bare, token_scopes)
            &&& report(policy, full, token_scopes) == report(policy, bare, token_scopes)
            &&& policy.routes matches Some(config) ==> decision(policy, full, token_scopes)
                == crate::routes::evaluation(config, request.method, path, token_scopes)
        }),
{
    let bare = ForwardedView { uri: path, ..request };
    let full = ForwardedView { uri: path.push('?') + own_query, ..request };
    law_own_query_does_not_matter(bare, path, own_query);
    law_own_query_does_not_matter(full, path, own_query);
}

/// The forwarding query has no part in what the route map says, and without a route
/// map nothing is denied.
pub proof fn law_decision_is_that_of_the_route_map(
    policy: PolicyView,
    request: ForwardedView,
    token_scopes: Seq<char>,
    enforce: bool,
    query: Seq<char>,
)
    ensures
        decision(policy, request, token_scopes) == decision(
            (PolicyView { enforce, ..policy }),
            (ForwardedView { query, ..request }),
            token_scopes,
        ),
        policy.routes is None ==> decision(policy, request, token_scopes)
            == crate::routes::DecisionView::Allow,
        denied(policy, request, token_scopes) <==> decision(policy, request, token_scopes)
            != crate::routes::DecisionView::Allow,
{
}

/// Who may go on reads `ok`, who may not `insufficient scope`, and nothing else is
/// answered.
pub proof fn law_answer_says_whether_a_request_goes_on(
    policy: PolicyView,
    request: ForwardedView,
    token_scopes: Seq<char>,
)
    ensures
        ({
            let reply = answer(policy, request, token_scopes);
            ||| reply.status == Status::Success && reply.body == "ok"@
            ||| reply.status == Status::Forbidden && reply.body == "insufficient scope"@
        }),
{
}

/// A report is made exactly where a route map denies and is not enforced. It names
/// the method, and the path without its query.
pub proof fn law_report_names_the_request(
    policy: PolicyView,
    request: ForwardedView,
    path: Seq<char>,
    own_query: Seq<char>,
    token_scopes: Seq<char>,
)
    requires
        !path.contains('?'),
        request.uri == path || request.uri == path.push('?') + own_query,
    ensures
        report(policy, request, token_scopes) is Some <==> !policy.enforce && decision(
            policy,
            request,
            token_scopes,
        ) != crate::routes::DecisionView::Allow,
        report(policy, request, token_scopes) matches Some(text) ==> text == "report-only: "@
            + request.method + " "@ + path + " would be denied with ENFORCE_ROUTES=true"@,
{
    law_own_query_does_not_matter(request, path, own_query);
}

/// All that a request was forwarded with is seen, and all of the policy.
pub proof fn law_request_and_policy_are_seen_whole(request: Forwarded<'_>, policy: Policy)
    ensures
        request@.query == request.query@,
        request@.method == (match request.method {
            Some(method) => method@,
            None => Seq::empty(),
        }),
        request@.uri == (match request.uri {
            Some(uri) => uri@,
            None => Seq::empty(),
        }),
        policy@.enforce == policy.enforce,
        policy@.routes == (match policy.routes {
            Some(routes) => Some(routes@),
            None => None,
        }),
{
}

} // verus!
