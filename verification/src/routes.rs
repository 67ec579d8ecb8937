//! Static map from routes to scopes.
//!
//! A rule says which scopes a request needs, by method and path. Path patterns
//! are segment globs: `*` matches exactly one segment, `**` (final segment only)
//! matches any remainder, including nothing. Rules are evaluated top to bottom;
//! the first rule whose method and path match decides, so the most specific rules
//! stand first. A rule's scopes are satisfied when the token carries at least one
//! scope that satisfies (see `scopes::satisfies`) one of those listed: rules name
//! the narrowest sufficient scope and rely on implication for wider tokens.

use vstd::prelude::*;

use crate::scopes::any_satisfies;
use crate::text::{
    eq_ignore_ascii_case, same, split, split_whitespace, strip_prefix, to_decimal, trim_matches,
    Separator,
};

verus! {

/// What happens to a request that no rule matches.
#[derive(Debug, Clone, Copy, PartialEq, Eq, Structural)]
pub enum DefaultAction {
    Deny,
    Allow,
}

impl Default for DefaultAction {
    fn default() -> (r: Self)
        ensures
            r == DefaultAction::Deny,
    {
        DefaultAction::Deny
    }
}

/// One rule: the requests that it is for, and the scopes of which it asks for
/// one.
#[derive(Debug)]
pub struct Route {
    pub path: String,
    /// Empty to match any method.
    pub methods: Vec<String>,
    pub any_of: Vec<String>,
}

/// The rules, in order, and what happens where none matches.
#[derive(Debug)]
pub struct RouteConfig {
    pub default: DefaultAction,
    pub routes: Vec<Route>,
}

/// Outcome of evaluating a request against the route map.
#[derive(Debug, PartialEq, Eq)]
pub enum Decision {
    /// A rule matched and the token satisfies it, or no rule matched and default is allow.
    Allow,
    /// A rule matched but the token does not satisfy its scopes.
    InsufficientScope { rule_path: String, required: Vec<String> },
    /// No rule matched and the default is deny.
    NoMatchingRule,
}

/// What a rule reads.
pub struct RouteView {
    pub path: Seq<char>,
    pub methods: Seq<Seq<char>>,
    pub any_of: Seq<Seq<char>>,
}

/// What a route map reads.
pub struct RouteConfigView {
    pub default: DefaultAction,
    pub routes: Seq<RouteView>,
}

/// What a decision reads.
pub enum DecisionView {
    Allow,
    InsufficientScope { rule_path: Seq<char>, required: Seq<Seq<char>> },
    NoMatchingRule,
}

impl View for Route {
    type V = RouteView;

    open spec fn view(&self) -> RouteView {
        RouteView {
            path: self.path@,
            methods: crate::text::string_views(self.methods@),
            any_of: crate::text::string_views(self.any_of@),
        }
    }
}

impl View for RouteConfig {
    type V = RouteConfigView;

    open spec fn view(&self) -> RouteConfigView {
        RouteConfigView {
            default: self.default,
            routes: self.routes@.map_values(|route: Route| route@),
        }
    }
}

impl View for Decision {
    type V = DecisionView;

    open spec fn view(&self) -> DecisionView {
        match self {
            Decision::Allow => DecisionView::Allow,
            Decision::InsufficientScope { rule_path, required } => DecisionView::InsufficientScope {
                rule_path: rule_path@,
                required: crate::text::string_views(required@),
            },
            Decision::NoMatchingRule => DecisionView::NoMatchingRule,
        }
    }
}

/// The segments of a path or a pattern: what stands between its slashes, those at
/// its two ends left aside.
pub open spec fn segments(path: Seq<char>) -> Seq<Seq<char>> {
    crate::text::pieces(crate::text::trimmed(path, '/'), Separator::Char('/'))
}

/// The number of pattern segments before the first `**`, or of all of them where
/// there is none.
pub open spec fn fixed_len(pattern: Seq<Seq<char>>) -> int
    decreases pattern.len(),
{
    if pattern.len() == 0 || pattern[0] == "**"@ {
        0
    } else {
        1 + fixed_len(pattern.drop_first())
    }
}

/// Whether one segment of a path is what one of a pattern asks for.
pub open spec fn segment_matches(pattern: Seq<char>, segment: Seq<char>) -> bool {
    pattern == "*"@ || pattern == segment
}

/// Whether the segments of a path are what those of a pattern ask for: each up to
/// the first `**` what stands at its place, with nothing left over unless there is
/// a `**`.
pub open spec fn segments_match(pattern: Seq<Seq<char>>, path: Seq<Seq<char>>) -> bool {
    let n = fixed_len(pattern);
    &&& n <= path.len()
    &&& n == pattern.len() ==> n == path.len()
    &&& forall|i: int| 0 <= i < n ==> segment_matches(#[trigger] pattern[i], path[i])
}

/// Whether a path is one of those that a pattern stands for.
pub open spec fn glob_matches(pattern: Seq<char>, path: Seq<char>) -> bool {
    segments_match(segments(pattern), segments(path))
}

/// Whether `method` is one of those allowed, the case of its letters left aside;
/// where none is listed, all are allowed.
pub open spec fn method_allowed(allowed: Seq<Seq<char>>, method: Seq<char>) -> bool {
    allowed.len() == 0 || exists|i: int|
        0 <= i < allowed.len() && crate::text::same_but_case(#[trigger] allowed[i], method)
}

/// Whether a rule is for a request.
pub open spec fn route_matches(route: RouteView, method: Seq<char>, path: Seq<char>) -> bool {
    method_allowed(route.methods, method) && glob_matches(route.path, path)
}

/// The place of the first rule that is for a request, or the number of rules
/// where none is.
pub open spec fn first_match(routes: Seq<RouteView>, method: Seq<char>, path: Seq<char>) -> int
    decreases routes.len(),
{
    if routes.len() == 0 || route_matches(routes[0], method, path) {
        0
    } else {
        1 + first_match(routes.drop_first(), method, path)
    }
}

/// What a route map says of a request whose token carries `token_scopes`.
pub open spec fn evaluation(
    config: RouteConfigView,
    method: Seq<char>,
    path: Seq<char>,
    token_scopes: Seq<char>,
) -> DecisionView {
    let i = first_match(config.routes, method, path);
    if i < config.routes.len() {
        let route = config.routes[i];
        if crate::scopes::any_implied(crate::text::words(token_scopes), route.any_of) {
            DecisionView::Allow
        } else {
            DecisionView::InsufficientScope { rule_path: route.path, required: route.any_of }
        }
    } else {
        match config.default {
            DefaultAction::Allow => DecisionView::Allow,
            DefaultAction::Deny => DecisionView::NoMatchingRule,
        }
    }
}

/// What can be wrong with a rule.
#[derive(Debug, Clone, Copy, PartialEq, Eq, Structural)]
pub enum RouteFault {
    /// Its path does not start with a slash.
    NoLeadingSlash,
    /// It names no scope.
    NoScope,
    /// A `**` stands before the final segment of its path.
    InnerGlob,
}

/// What is wrong with a rule, if anything is.
pub open spec fn route_fault(route: RouteView) -> Option<RouteFault> {
    let pattern = segments(route.path);
    if route.path.len() == 0 || route.path[0] != '/' {
        Some(RouteFault::NoLeadingSlash)
    } else if route.any_of.len() == 0 {
        Some(RouteFault::NoScope)
    } else if fixed_len(pattern) < pattern.len() - 1 {
        Some(RouteFault::InnerGlob)
    } else {
        None
    }
}

/// The place of the first rule that is not as it should be, or the number of rules
/// where all are.
pub open spec fn first_faulty(routes: Seq<RouteView>) -> int
    decreases routes.len(),
{
    if routes.len() == 0 || route_fault(routes[0]) is Some {
        0
    } else {
        1 + first_faulty(routes.drop_first())
    }
}

/// The first rule that is not as it should be.
#[derive(Debug, PartialEq, Eq)]
pub struct RouteError {
    /// Its place among the rules, counted from zero.
    pub index: usize,
    pub fault: RouteFault,
    /// Its path.
    pub path: String,
}

/// What the report on a rule says between its place and its path.
pub open spec fn fault_text(fault: RouteFault) -> Seq<char> {
    match fault {
        RouteFault::NoLeadingSlash => "] path must start with '/': "@,
        RouteFault::NoScope => "] anyOf must not be empty: "@,
        RouteFault::InnerGlob => "] '**' is only allowed as the final segment: "@,
    }
}

impl RouteError {
    /// What the report says.
    pub open spec fn text(self) -> Seq<char> {
        "route["@ + crate::text::decimal(self.index as nat) + fault_text(self.fault) + self.path@
    }

    /// Whether it is about the first rule of the route map that is not as it should
    /// be, and says what is wrong with that.
    pub open spec fn names_fault_of(self, config: RouteConfigView) -> bool {
        &&& self.index < config.routes.len()
        &&& self.index == first_faulty(config.routes)
        &&& route_fault(config.routes[self.index as int]) == Some(self.fault)
        &&& self.path@ == config.routes[self.index as int].path
    }

    /// The report to show.
    pub fn message(&self) -> (r: String)
        ensures
            r@ == self.text(),
    {
        let mut out: String = "route[".to_owned();
        out.append(to_decimal(self.index).as_str());
        out.append(
            match self.fault {
                RouteFault::NoLeadingSlash => "] path must start with '/': ",
                RouteFault::NoScope => "] anyOf must not be empty: ",
                RouteFault::InnerGlob => "] '**' is only allowed as the final segment: ",
            },
        );
        out.append(self.path.as_str());
        out
    }
}

proof fn lemma_fixed_len(pattern: Seq<Seq<char>>, i: int)
    requires
        0 <= i <= pattern.len(),
        forall|j: int| 0 <= j < i ==> pattern[j] != "**"@,
        i < pattern.len() ==> pattern[i] == "**"@,
    ensures
        fixed_len(pattern) == i,
    decreases pattern.len(),
{
    if i > 0 {
        lemma_fixed_len(pattern.drop_first(), i - 1);
    }
}

proof fn lemma_first_faulty(routes: Seq<RouteView>, i: int)
    requires
        0 <= i <= routes.len(),
        forall|j: int| 0 <= j < i ==> route_fault(#[trigger] routes[j]) is None,
        i < routes.len() ==> route_fault(routes[i]) is Some,
    ensures
        first_faulty(routes) == i,
    decreases routes.len(),
{
    if i > 0 {
        let rest = routes.drop_first();
        assert forall|j: int| 0 <= j < i - 1 implies route_fault(#[trigger] rest[j]) is None by {
            assert(rest[j] == routes[j + 1]);
        }
        lemma_first_faulty(rest, i - 1);
    }
}

proof fn lemma_first_match(routes: Seq<RouteView>, method: Seq<char>, path: Seq<char>, i: int)
    requires
        0 <= i <= routes.len(),
        forall|j: int| 0 <= j < i ==> !route_matches(#[trigger] routes[j], method, path),
        i < routes.len() ==> route_matches(routes[i], method, path),
    ensures
        first_match(routes, method, path) == i,
    decreases routes.len(),
{
    if i > 0 {
        let rest = routes.drop_first();
        assert forall|j: int| 0 <= j < i - 1 implies !route_matches(
            #[trigger] rest[j],
            method,
            path,
        ) by {
            assert(rest[j] == routes[j + 1]);
        }
        lemma_first_match(rest, method, path, i - 1);
    }
}

/// The segments of a path or a pattern.
fn split_segments<'a>(path: &'a str) -> (r: Vec<&'a str>)
    ensures
        crate::text::views(r@) == segments(path@),
        r@.len() == segments(path@).len() > 0,
        forall|i: int| 0 <= i < r@.len() ==> segments(path@)[i] == #[trigger] r@[i]@,
{
    let r: Vec<&'a str> = split(trim_matches(path, '/'), Separator::Char('/'));
    proof {
        crate::text::lemma_pieces_nonempty(
            crate::text::trimmed(path@, '/'),
            Separator::Char('/'),
        );
        assert(crate::text::views(r@).len() == r@.len());
        assert(forall|i: int| 0 <= i < r@.len() ==> crate::text::views(r@)[i] == #[trigger] r@[i]@);
    }
    r
}

/// Whether `method` is one of those allowed.
pub fn method_matches(allowed: &[String], method: &str) -> (r: bool)
    ensures
        r == method_allowed(crate::text::string_views(allowed@), method@),
{
    let ghost names = crate::text::string_views(allowed@);
    if allowed.len() == 0 {
        return true;
    }
    let mut i: usize = 0;
    while i < allowed.len()
        invariant
            i <= allowed@.len(),
            names == crate::text::string_views(allowed@),
            forall|j: int|
                0 <= j < i ==> !crate::text::same_but_case(#[trigger] names[j], method@),
        decreases allowed@.len() - i,
    {
        if eq_ignore_ascii_case(allowed[i].as_str(), method) {
            assert(crate::text::same_but_case(names[i as int], method@));
            return true;
        }
        i += 1;
    }
    false
}

/// Whether a path is one of those that a pattern stands for. A `**` that is not
/// the final segment, which `RouteConfig::validate` refuses, matches any remainder
/// too.
pub fn path_matches(pattern: &str, path: &str) -> (r: bool)
    ensures
        r == glob_matches(pattern@, path@),
{
    let pattern_segs: Vec<&str> = split_segments(pattern);
    let path_segs: Vec<&str> = split_segments(path);
    let ghost ps = segments(pattern@);
    let ghost ss = segments(path@);
    let mut i: usize = 0;
    while i < pattern_segs.len()
        invariant
            i <= pattern_segs@.len() == ps.len(),
            i <= path_segs@.len() == ss.len(),
            ps == segments(pattern@),
            ss == segments(path@),
            forall|j: int| 0 <= j < ps.len() ==> ps[j] == #[trigger] pattern_segs@[j]@,
            forall|j: int| 0 <= j < ss.len() ==> ss[j] == #[trigger] path_segs@[j]@,
            forall|j: int| 0 <= j < i ==> ps[j] != "**"@,
            forall|j: int| 0 <= j < i ==> segment_matches(#[trigger] ps[j], ss[j]),
        decreases pattern_segs@.len() - i,
    {
        let pseg: &str = pattern_segs[i];
        if same(pseg, "**") {
            proof {
                lemma_fixed_len(ps, i as int);
            }
            return true;
        }
        proof {
            lemma_fixed_len_at_least(ps, i + 1);
        }
        if i >= path_segs.len() {
            return false;
        }
        if !same(pseg, "*") && !same(pseg, path_segs[i]) {
            assert(!segment_matches(ps[i as int], ss[i as int]));
            return false;
        }
        i += 1;
    }
    proof {
        lemma_fixed_len(ps, i as int);
    }
    i == path_segs.len()
}

proof fn lemma_fixed_len_at_least(pattern: Seq<Seq<char>>, i: int)
    requires
        0 <= i <= pattern.len(),
        forall|j: int| 0 <= j < i ==> pattern[j] != "**"@,
    ensures
        i <= fixed_len(pattern) <= pattern.len(),
    decreases pattern.len(),
{
    if pattern.len() > 0 && pattern[0] != "**"@ {
        lemma_fixed_len_at_least(
            pattern.drop_first(),
            if i > 0 {
                i - 1
            } else {
                0
            },
        );
    }
}

/// A copy of the texts.
fn copied(texts: &Vec<String>) -> (r: Vec<String>)
    ensures
        crate::text::string_views(r@) == crate::text::string_views(texts@),
{
    let mut out: Vec<String> = Vec::new();
    let mut i: usize = 0;
    while i < texts.len()
        invariant
            i <= texts@.len(),
            out@ == texts@.take(i as int),
        decreases texts@.len() - i,
    {
        out.push(texts[i].clone());
        assert(out@ =~= texts@.take(i + 1));
        i += 1;
    }
    assert(out@ =~= texts@);
    out
}

impl RouteConfig {
    /// Whether every rule is as it should be; the error names the first that is
    /// not.
    pub fn validate(&self) -> (r: Result<(), RouteError>)
        ensures
            match r {
                Ok(()) => first_faulty(self@.routes) == self@.routes.len(),
                Err(e) => e.names_fault_of(self@),
            },
    {
        let ghost routes = self@.routes;
        let mut i: usize = 0;
        while i < self.routes.len()
            invariant
                i <= self.routes@.len() == routes.len(),
                routes == self@.routes,
                forall|j: int| 0 <= j < i ==> route_fault(#[trigger] routes[j]) is None,
            decreases self.routes@.len() - i,
        {
            let route: &Route = &self.routes[i];
            assert(routes[i as int] == route@);
            match check_route(route) {
                Some(fault) => {
                    proof {
                        lemma_first_faulty(routes, i as int);
                    }
                    return Err(RouteError { index: i, fault, path: route.path.clone() });
                },
                None => {},
            }
            i += 1;
        }
        proof {
            lemma_first_faulty(routes, i as int);
        }
        Ok(())
    }

    /// Evaluates `method` and `path` (no query string) against the rules, checking
    /// required scopes against the space-separated token `scope` claim.
    pub fn evaluate(&self, method: &str, path: &str, token_scopes: &str) -> (r: Decision)
        ensures
            r@ == evaluation(self@, method@, path@, token_scopes@),
    {
        let ghost routes = self@.routes;
        let mut i: usize = 0;
        while i < self.routes.len()
            invariant
                i <= self.routes@.len() == routes.len(),
                routes == self@.routes,
                forall|j: int|
                    0 <= j < i ==> !route_matches(#[trigger] routes[j], method@, path@),
            decreases self.routes@.len() - i,
        {
            let route: &Route = &self.routes[i];
            assert(routes[i as int] == route@);
            if !method_matches(route.methods.as_slice(), method) || !path_matches(
                route.path.as_str(),
                path,
            ) {
                i += 1;
                continue;
            }
            proof {
                lemma_first_match(routes, method@, path@, i as int);
            }
            let held: Vec<&str> = split_whitespace(token_scopes);
            return if any_satisfies(held.into_iter(), route.any_of.as_slice()) {
                Decision::Allow
            } else {
                Decision::InsufficientScope {
                    rule_path: route.path.clone(),
                    required: copied(&route.any_of),
                }
            };
        }
        proof {
            lemma_first_match(routes, method@, path@, i as int);
        }
        match self.default {
            DefaultAction::Allow => Decision::Allow,
            DefaultAction::Deny => Decision::NoMatchingRule,
        }
    }
}

/// What came of reading a file that should hold a route map.
#[derive(Debug)]
pub enum RoutesFile {
    /// It could not be read; the text says why.
    Unreadable(String),
    /// It does not hold a route map; the text says why.
    Malformed(String),
    /// It holds this route map.
    Parsed(RouteConfig),
}

/// Why a file gives no route map to go by.
#[derive(Debug, PartialEq, Eq)]
pub enum LoadError {
    /// The file at this path could not be read, for this cause.
    Read { path: String, cause: String },
    /// The file at this path does not hold a route map, for this cause.
    Parse { path: String, cause: String },
    /// A rule is not as it should be.
    Invalid(RouteError),
}

impl LoadError {
    /// What the report says.
    pub open spec fn text(self) -> Seq<char> {
        match self {
            LoadError::Read { path, cause } => "failed to read routes file "@ + path@ + ": "@
                + cause@,
            LoadError::Parse { path, cause } => "failed to parse routes file "@ + path@ + ": "@
                + cause@,
            LoadError::Invalid(e) => e.text(),
        }
    }

    /// The report to show.
    pub fn message(&self) -> (r: String)
        ensures
            r@ == self.text(),
    {
        match self {
            LoadError::Read { path, cause } => "failed to read routes file ".to_owned().concat(
                path.as_str(),
            ).concat(": ").concat(cause.as_str()),
            LoadError::Parse { path, cause } => "failed to parse routes file ".to_owned().concat(
                path.as_str(),
            ).concat(": ").concat(cause.as_str()),
            LoadError::Invalid(e) => e.message(),
        }
    }
}

impl RouteConfig {
    /// The route map that the file at `path` holds, where every rule of it is as it
    /// should be, or why there is none.
    pub fn load(path: &str, file: RoutesFile) -> (r: Result<RouteConfig, LoadError>)
        ensures
            match file {
                RoutesFile::Unreadable(cause) => r matches Err(LoadError::Read { path: p, cause: c })
                    && p@ == path@ && c@ == cause@,
                RoutesFile::Malformed(cause) => r matches Err(LoadError::Parse { path: p, cause: c })
                    && p@ == path@ && c@ == cause@,
                RoutesFile::Parsed(config) => match r {
                    Ok(loaded) => loaded == config && first_faulty(config@.routes) == config@.routes.len(),
                    Err(LoadError::Invalid(e)) => e.names_fault_of(config@),
                    Err(_) => false,
                },
            },
    {
        match file {
            RoutesFile::Unreadable(cause) => Err(LoadError::Read { path: path.to_owned(), cause }),
            RoutesFile::Malformed(cause) => Err(LoadError::Parse { path: path.to_owned(), cause }),
            RoutesFile::Parsed(config) => match config.validate() {
                Ok(()) => Ok(config),
                Err(e) => Err(LoadError::Invalid(e)),
            },
        }
    }
}

/// What is wrong with a rule, if anything is.
fn check_route(route: &Route) -> (r: Option<RouteFault>)
    ensures
        r == route_fault(route@),
{
    proof {
        reveal_strlit("/");
    }
    if strip_prefix(route.path.as_str(), "/").is_none() {
        return Some(RouteFault::NoLeadingSlash);
    }
    if route.any_of.len() == 0 {
        return Some(RouteFault::NoScope);
    }
    let pattern: Vec<&str> = split_segments(route.path.as_str());
    let ghost ps = segments(route.path@);
    let mut i: usize = 0;
    while i < pattern.len()
        invariant
            i <= pattern@.len() == ps.len(),
            ps == segments(route.path@),
            forall|j: int| 0 <= j < ps.len() ==> ps[j] == #[trigger] pattern@[j]@,
            forall|j: int| 0 <= j < i ==> ps[j] != "**"@,
            route.path@.len() > 0,
            route.path@[0] == '/',
            route.any_of@.len() > 0,
        decreases pattern@.len() - i,
    {
        if same(pattern[i], "**") {
            proof {
                lemma_fixed_len(ps, i as int);
            }
            if i != pattern.len() - 1 {
                return Some(RouteFault::InnerGlob);
            }
            return None;
        }
        i += 1;
    }
    proof {
        lemma_fixed_len(ps, i as int);
    }
    None
}

/// A route map is accepted exactly where every rule of it starts with a slash,
/// names a scope and has no `**` before its final segment.
pub proof fn law_accepted_map_has_no_faulty_rule(routes: Seq<RouteView>)
    ensures
        first_faulty(routes) == routes.len() <==> forall|i: int|
            0 <= i < routes.len() ==> route_fault(#[trigger] routes[i]) is None,
    decreases routes.len(),
{
    if routes.len() > 0 {
        let rest = routes.drop_first();
        law_accepted_map_has_no_faulty_rule(rest);
        assert forall|i: int| 0 < i < routes.len() implies routes[i] == #[trigger] rest[i - 1] by {}
        if route_fault(routes[0]) is None && first_faulty(rest) == rest.len() {
            assert forall|i: int| 0 <= i < routes.len() implies route_fault(
                #[trigger] routes[i],
            ) is None by {
                if i > 0 {
                    assert(routes[i] == rest[i - 1]);
                }
            }
        }
        if forall|i: int|
            0 <= i < routes.len() ==> route_fault(#[trigger] routes[i]) is None {
            assert forall|i: int| 0 <= i < rest.len() implies route_fault(
                #[trigger] rest[i],
            ) is None by {
                assert(rest[i] == routes[i + 1]);
            }
        }
    }
}

/// The first rule that is for a request decides: neither the other rules nor the
/// default have a say.
pub proof fn law_first_matching_rule_decides(
    config: RouteConfigView,
    method: Seq<char>,
    path: Seq<char>,
    token_scopes: Seq<char>,
    i: int,
    any_default: DefaultAction,
)
    requires
        0 <= i < config.routes.len(),
        route_matches(config.routes[i], method, path),
        forall|j: int| 0 <= j < i ==> !route_matches(#[trigger] config.routes[j], method, path),
    ensures
        evaluation(config, method, path, token_scopes) == evaluation(
            (RouteConfigView { default: any_default, routes: seq![config.routes[i]] }),
            method,
            path,
            token_scopes,
        ),
{
    lemma_first_match(config.routes, method, path, i);
    lemma_first_match(seq![config.routes[i]], method, path, 0);
}

/// Where no rule is for a request, the default decides, whatever the token
/// carries.
pub proof fn law_default_decides_where_no_rule_matches(
    config: RouteConfigView,
    method: Seq<char>,
    path: Seq<char>,
    token_scopes: Seq<char>,
)
    requires
        forall|j: int|
            0 <= j < config.routes.len() ==> !route_matches(
                #[trigger] config.routes[j],
                method,
                path,
            ),
    ensures
        evaluation(config, method, path, token_scopes) == (match config.default {
            DefaultAction::Allow => DecisionView::Allow,
            DefaultAction::Deny => DecisionView::NoMatchingRule,
        }),
{
    lemma_first_match(config.routes, method, path, config.routes.len() as int);
}

/// A request is denied for its scopes only by a rule that is for it and that its
/// token does not satisfy.
pub proof fn law_denial_names_an_unsatisfied_rule(
    config: RouteConfigView,
    method: Seq<char>,
    path: Seq<char>,
    token_scopes: Seq<char>,
)
    ensures
        evaluation(
            config,
            method,
            path,
            token_scopes,
        ) matches DecisionView::InsufficientScope { rule_path, required } ==> exists|i: int|
            0 <= i < config.routes.len() && route_matches(
                #[trigger] config.routes[i],
                method,
                path,
            ) && config.routes[i].path == rule_path && config.routes[i].any_of == required
                && !crate::scopes::any_implied(crate::text::words(token_scopes), required),
{
    lemma_first_match_matches(config.routes, method, path);
    let i = first_match(config.routes, method, path);
    if i < config.routes.len() {
        assert(route_matches(config.routes[i], method, path));
    }
}

proof fn lemma_first_match_matches(routes: Seq<RouteView>, method: Seq<char>, path: Seq<char>)
    ensures
        0 <= first_match(routes, method, path) <= routes.len(),
        first_match(routes, method, path) < routes.len() ==> route_matches(
            routes[first_match(routes, method, path)],
            method,
            path,
        ),
    decreases routes.len(),
{
    if routes.len() > 0 && !route_matches(routes[0], method, path) {
        lemma_first_match_matches(routes.drop_first(), method, path);
    }
}

/// Without a `**`, a pattern matches only paths with as many segments as it has
/// itself, and at the place of a `*` any one segment will do.
pub proof fn law_star_is_exactly_one_segment(
    pattern: Seq<Seq<char>>,
    path: Seq<Seq<char>>,
    i: int,
    other: Seq<char>,
)
    requires
        forall|j: int| 0 <= j < pattern.len() ==> #[trigger] pattern[j] != "**"@,
        0 <= i < pattern.len(),
        pattern[i] == "*"@,
    ensures
        segments_match(pattern, path) ==> path.len() == pattern.len(),
        segments_match(pattern, path) ==> segments_match(pattern, path.update(i, other)),
{
    lemma_fixed_len(pattern, pattern.len() as int);
}

/// A final `**` matches any remainder, including nothing: only the segments
/// before it are asked for.
pub proof fn law_double_star_matches_any_remainder(fixed: Seq<Seq<char>>, path: Seq<Seq<char>>)
    requires
        forall|j: int| 0 <= j < fixed.len() ==> #[trigger] fixed[j] != "**"@,
    ensures
        segments_match(fixed.push("**"@), path) == (fixed.len() <= path.len() && segments_match(
            fixed,
            path.take(fixed.len() as int),
        )),
{
    let pattern = fixed.push("**"@);
    let n = fixed.len() as int;
    assert(forall|j: int| 0 <= j < n ==> pattern[j] == fixed[j]);
    lemma_fixed_len(fixed, n);
    lemma_fixed_len(pattern, n);
    if n <= path.len() {
        let start = path.take(n);
        assert(forall|j: int| 0 <= j < n ==> start[j] == path[j]);
        if segments_match(pattern, path) {
            assert forall|j: int| 0 <= j < n implies segment_matches(
                #[trigger] fixed[j],
                start[j],
            ) by {
                assert(segment_matches(pattern[j], path[j]));
            }
        }
        if segments_match(fixed, start) {
            assert forall|j: int| 0 <= j < n implies segment_matches(
                #[trigger] pattern[j],
                path[j],
            ) by {
                assert(segment_matches(fixed[j], start[j]));
            }
        }
    }
}

/// Every pattern matches the path that reads as it does.
pub proof fn law_pattern_matches_itself(pattern: Seq<char>)
    ensures
        glob_matches(pattern, pattern),
{
    lemma_fixed_len_at_least(segments(pattern), 0);
}

proof fn lemma_trimmed_ignores_last(s: Seq<char>, c: char)
    ensures
        crate::text::trimmed(s.push(c), c) == crate::text::trimmed(s, c),
    decreases s.len(),
{
    if s.len() == 0 {
        assert(s.push(c).drop_first() =~= s);
    } else if s[0] == c {
        assert(s.push(c).drop_first() =~= s.drop_first().push(c));
        lemma_trimmed_ignores_last(s.drop_first(), c);
    } else {
        assert(s.push(c).drop_last() =~= s);
    }
}

/// A slash more at either end of a path or a pattern makes no difference.
pub proof fn law_outer_slashes_do_not_matter(path: Seq<char>)
    ensures
        segments(path.push('/')) == segments(path),
        segments(seq!['/'] + path) == segments(path),
{
    lemma_trimmed_ignores_last(path, '/');
    assert((seq!['/'] + path).drop_first() =~= path);
}

/// The case of the method's letters makes no difference.
pub proof fn law_method_case_does_not_matter(
    config: RouteConfigView,
    method: Seq<char>,
    other: Seq<char>,
    path: Seq<char>,
    token_scopes: Seq<char>,
)
    requires
        crate::text::same_but_case(method, other),
    ensures
        evaluation(config, method, path, token_scopes) == evaluation(
            config,
            other,
            path,
            token_scopes,
        ),
{
    lemma_method_case(config.routes, method, other, path);
}

proof fn lemma_method_case(
    routes: Seq<RouteView>,
    method: Seq<char>,
    other: Seq<char>,
    path: Seq<char>,
)
    requires
        crate::text::same_but_case(method, other),
    ensures
        first_match(routes, method, path) == first_match(routes, other, path),
    decreases routes.len(),
{
    if routes.len() > 0 {
        lemma_method_case(routes.drop_first(), method, other, path);
        let allowed = routes[0].methods;
        assert forall|i: int| 0 <= i < allowed.len() implies crate::text::same_but_case(
            #[trigger] allowed[i],
            method,
        ) == crate::text::same_but_case(allowed[i], other) by {
            lemma_same_but_case_carries_over(allowed[i], method, other);
        }
    }
}

proof fn lemma_same_but_case_carries_over(a: Seq<char>, b: Seq<char>, c: Seq<char>)
    requires
        crate::text::same_but_case(b, c),
    ensures
        crate::text::same_but_case(a, b) == crate::text::same_but_case(a, c),
{
    if a.len() == b.len() {
        assert(forall|i: int|
            0 <= i < a.len() ==> crate::text::folded(#[trigger] b[i]) == crate::text::folded(c[i]));
        if crate::text::same_but_case(a, b) {
            assert forall|i: int| 0 <= i < a.len() implies crate::text::folded(#[trigger] a[i])
                == crate::text::folded(c[i]) by {
                assert(crate::text::folded(b[i]) == crate::text::folded(c[i]));
            }
        }
        if crate::text::same_but_case(a, c) {
            assert forall|i: int| 0 <= i < a.len() implies crate::text::folded(#[trigger] a[i])
                == crate::text::folded(b[i]) by {
                assert(crate::text::folded(b[i]) == crate::text::folded(c[i]));
            }
        }
    }
}

/// A rule without methods is for every method.
pub proof fn law_rule_without_methods_matches_any_method(
    route: RouteView,
    method: Seq<char>,
    other: Seq<char>,
    path: Seq<char>,
)
    requires
        route.methods.len() == 0,
    ensures
        route_matches(route, method, path) == route_matches(route, other, path),
        route_matches(route, method, path) == glob_matches(route.path, path),
{
}

/// In a rule that is as it should be, nothing follows a `**`.
pub proof fn law_valid_rule_has_only_a_final_glob(route: RouteView, i: int)
    requires
        route_fault(route) is None,
        0 <= i < segments(route.path).len() - 1,
    ensures
        segments(route.path)[i] != "**"@,
{
    lemma_fixed_len_holds(segments(route.path), i);
}

proof fn lemma_fixed_len_holds(pattern: Seq<Seq<char>>, i: int)
    requires
        0 <= i < fixed_len(pattern),
    ensures
        i < pattern.len(),
        pattern[i] != "**"@,
    decreases pattern.len(),
{
    if i > 0 {
        lemma_fixed_len_holds(pattern.drop_first(), i - 1);
    }
}

/// A token keeps its access when each of its scopes gives way to one that is equal
/// or wider.
pub proof fn law_wider_token_keeps_access(
    config: RouteConfigView,
    method: Seq<char>,
    path: Seq<char>,
    token_scopes: Seq<char>,
    wider: Seq<char>,
)
    requires
        evaluation(config, method, path, token_scopes) == DecisionView::Allow,
        forall|i: int|
            0 <= i < crate::text::words(token_scopes).len() ==> crate::scopes::any_implied(
                crate::text::words(wider),
                seq![#[trigger] crate::text::words(token_scopes)[i]],
            ),
    ensures
        evaluation(config, method, path, wider) == DecisionView::Allow,
{
    lemma_first_match_matches(config.routes, method, path);
    let i = first_match(config.routes, method, path);
    if i < config.routes.len() {
        let required = config.routes[i].any_of;
        assert forall|j: int| 0 <= j < required.len() implies required.contains(
            #[trigger] required[j],
        ) by {}
        crate::scopes::law_wider_scopes_keep_working(
            crate::text::words(token_scopes),
            crate::text::words(wider),
            required,
            required,
        );
    }
}

/// A token keeps its access when scopes are added to it.
pub proof fn law_added_scopes_keep_access(
    config: RouteConfigView,
    method: Seq<char>,
    path: Seq<char>,
    token_scopes: Seq<char>,
    more: Seq<char>,
)
    requires
        evaluation(config, method, path, token_scopes) == DecisionView::Allow,
    ensures
        evaluation(config, method, path, token_scopes.push(' ') + more) == DecisionView::Allow,
{
    let all = token_scopes.push(' ') + more;
    let ws = crate::text::words(token_scopes);
    crate::text::law_words_at_whitespace(token_scopes, ' ', more);
    assert forall|i: int| 0 <= i < ws.len() implies crate::scopes::any_implied(
        crate::text::words(all),
        seq![#[trigger] ws[i]],
    ) by {
        let one = seq![ws[i]];
        assert(crate::text::words(all)[i] == ws[i]);
        assert(crate::scopes::implied(crate::text::words(all)[i], one[0]));
    }
    law_wider_token_keeps_access(config, method, path, token_scopes, all);
}

proof fn lemma_joined_ends(ps: Seq<Seq<char>>, sep: char)
    requires
        ps.len() > 0,
        ps.first().len() > 0,
        ps.last().len() > 0,
    ensures
        crate::text::joined(ps, sep).len() > 0,
        crate::text::joined(ps, sep).first() == ps.first().first(),
        crate::text::joined(ps, sep).last() == ps.last().last(),
{
    lemma_joined_begins(ps, sep);
}

proof fn lemma_joined_begins(ps: Seq<Seq<char>>, sep: char)
    requires
        ps.len() > 0,
        ps.first().len() > 0,
    ensures
        crate::text::joined(ps, sep).len() > 0,
        crate::text::joined(ps, sep).first() == ps.first().first(),
    decreases ps.len(),
{
    if ps.len() > 1 {
        lemma_joined_begins(ps.drop_last(), sep);
    }
}

/// Whether texts can be the segments of a path: none holds a slash, and neither the
/// first nor the last is empty unless it is the only one.
pub open spec fn are_segments(ps: Seq<Seq<char>>) -> bool {
    &&& ps.len() > 0
    &&& forall|i: int| 0 <= i < ps.len() ==> !(#[trigger] ps[i]).contains('/')
    &&& ps.len() > 1 ==> ps.first().len() > 0 && ps.last().len() > 0
}

/// The path with the given segments, with `m` slashes before and `n` behind it.
pub open spec fn path_of(m: nat, ps: Seq<Seq<char>>, n: nat) -> Seq<char> {
    Seq::new(m, |i: int| '/') + crate::text::joined(ps, '/') + Seq::new(n, |i: int| '/')
}

/// A path put together of segments has just these, however many slashes stand at
/// its ends.
pub proof fn law_path_has_the_segments_it_is_made_of(m: nat, ps: Seq<Seq<char>>, n: nat)
    requires
        are_segments(ps),
    ensures
        segments(path_of(m, ps, n)) == ps,
{
    let middle = crate::text::joined(ps, '/');
    if ps.len() > 1 || ps[0].len() > 0 {
        lemma_joined_ends(ps, '/');
        assert(ps.first().contains(ps.first().first()));
        assert(ps.last().contains(ps.last().last()));
        assert(!ps[0].contains('/') && !ps[ps.len() - 1].contains('/'));
    }
    crate::text::law_trimming_takes_the_runs_at_the_ends(m, middle, n, '/');
    crate::text::law_split_undoes_join(ps, '/');
}

/// A pattern without a `**` matches exactly the paths with as many segments as it
/// has, of which each is the pattern's own, but for where the pattern has a `*`.
pub proof fn law_segments_are_compared_one_by_one(pattern: Seq<Seq<char>>, path: Seq<Seq<char>>)
    requires
        forall|j: int| 0 <= j < pattern.len() ==> #[trigger] pattern[j] != "**"@,
    ensures
        segments_match(pattern, path) <==> pattern.len() == path.len() && forall|i: int|
            #![trigger pattern[i]]
            0 <= i < pattern.len() ==> pattern[i] == "*"@ || path[i] == pattern[i],
{
    lemma_fixed_len(pattern, pattern.len() as int);
}

/// A pattern without globs matches no segments but its own.
pub proof fn law_pattern_without_globs_matches_only_itself(
    pattern: Seq<Seq<char>>,
    path: Seq<Seq<char>>,
)
    requires
        forall|j: int|
            #![trigger pattern[j]]
            0 <= j < pattern.len() ==> pattern[j] != "**"@ && pattern[j] != "*"@,
    ensures
        segments_match(pattern, path) <==> pattern == path,
{
    law_segments_are_compared_one_by_one(pattern, path);
    if segments_match(pattern, path) {
        assert(pattern =~= path);
    }
}

/// Where a pattern matches, each of its segments before a `**` is a `*` or is what
/// stands at its place in the path.
pub proof fn law_match_keeps_every_fixed_segment(
    pattern: Seq<Seq<char>>,
    path: Seq<Seq<char>>,
    i: int,
)
    requires
        segments_match(pattern, path),
        0 <= i < pattern.len(),
        forall|j: int| 0 <= j <= i ==> #[trigger] pattern[j] != "**"@,
        pattern[i] != "*"@,
    ensures
        i < path.len(),
        path[i] == pattern[i],
{
    lemma_fixed_len_at_least(pattern, i + 1);
    assert(segment_matches(pattern[i], path[i]));
}

/// The first `**` ends a pattern: the path begins with what stands before it, and
/// nothing that follows counts.
pub proof fn law_nothing_behind_a_double_star_counts(
    fixed: Seq<Seq<char>>,
    behind: Seq<Seq<char>>,
    path: Seq<Seq<char>>,
)
    requires
        forall|j: int| 0 <= j < fixed.len() ==> #[trigger] fixed[j] != "**"@,
    ensures
        segments_match(fixed.push("**"@) + behind, path) <==> fixed.len() <= path.len()
            && forall|i: int|
            #![trigger fixed[i]]
            0 <= i < fixed.len() ==> fixed[i] == "*"@ || path[i] == fixed[i],
{
    let pattern = fixed.push("**"@) + behind;
    let n = fixed.len() as int;
    assert forall|j: int| 0 <= j < n implies pattern[j] == #[trigger] fixed[j] by {}
    assert(pattern[n] == "**"@);
    lemma_fixed_len(pattern, n);
    if segments_match(pattern, path) {
        assert forall|i: int| #![trigger fixed[i]] 0 <= i < n implies fixed[i] == "*"@ || path[i]
            == fixed[i] by {
            assert(segment_matches(pattern[i], path[i]));
        }
    }
    if n <= path.len() && forall|i: int|
        #![trigger fixed[i]]
        0 <= i < n ==> fixed[i] == "*"@ || path[i] == fixed[i] {
        assert forall|i: int| 0 <= i < n implies segment_matches(#[trigger] pattern[i], path[i]) by {
            assert(pattern[i] == fixed[i]);
        }
    }
}

/// A pattern matches a path just as the segments that the two are made of do.
pub proof fn law_globs_are_matched_by_segments(
    m: nat,
    pattern: Seq<Seq<char>>,
    n: nat,
    k: nat,
    path: Seq<Seq<char>>,
    l: nat,
)
    requires
        are_segments(pattern),
        are_segments(path),
    ensures
        glob_matches(path_of(m, pattern, n), path_of(k, path, l)) <==> segments_match(
            pattern,
            path,
        ),
{
    law_path_has_the_segments_it_is_made_of(m, pattern, n);
    law_path_has_the_segments_it_is_made_of(k, path, l);
}

/// A list of methods allows those that one of its own reads the same as but for
/// case, and no other; an empty list allows all.
pub proof fn law_listed_methods_are_allowed(allowed: Seq<Seq<char>>, method: Seq<char>)
    ensures
        method_allowed(allowed, method) <==> allowed.len() == 0 || exists|listed: Seq<char>|
            #[trigger] allowed.contains(listed) && crate::text::same_but_case(listed, method),
{
    if exists|listed: Seq<char>| #[trigger]
        allowed.contains(listed) && crate::text::same_but_case(listed, method) {
        let listed = choose|listed: Seq<char>| #[trigger]
            allowed.contains(listed) && crate::text::same_but_case(listed, method);
        let i = choose|i: int| 0 <= i < allowed.len() && allowed[i] == listed;
        assert(crate::text::same_but_case(allowed[i], method));
    }
    if method_allowed(allowed, method) && allowed.len() > 0 {
        let i = choose|i: int|
            0 <= i < allowed.len() && crate::text::same_but_case(#[trigger] allowed[i], method);
        assert(allowed.contains(allowed[i]));
    }
}

/// A rule is for the requests whose method it lists and whose path its pattern
/// matches. What scopes it asks for has no part in it.
pub proof fn law_rule_is_for_its_methods_and_paths(
    route: RouteView,
    method: Seq<char>,
    path: Seq<char>,
)
    ensures
        route_matches(route, method, path) <==> (route.methods.len() == 0 || method_allowed(
            route.methods,
            method,
        )) && segments_match(segments(route.path), segments(path)),
{
}

/// The first rule that is for a request allows it exactly where one scope of the
/// token satisfies one that the rule names. Else the denial names that rule.
pub proof fn law_first_matching_rule_decides_by_its_scopes(
    config: RouteConfigView,
    method: Seq<char>,
    path: Seq<char>,
    token_scopes: Seq<char>,
    i: int,
)
    requires
        0 <= i < config.routes.len(),
        route_matches(config.routes[i], method, path),
        forall|j: int| 0 <= j < i ==> !route_matches(#[trigger] config.routes[j], method, path),
    ensures
        evaluation(config, method, path, token_scopes) == DecisionView::Allow <==> exists|
            held: Seq<char>,
            asked: Seq<char>,
        |
            crate::text::words(token_scopes).contains(held) && config.routes[i].any_of.contains(
                asked,
            ) && #[trigger] crate::scopes::implied(held, asked),
        evaluation(config, method, path, token_scopes) != DecisionView::Allow ==> evaluation(
            config,
            method,
            path,
            token_scopes,
        ) == (DecisionView::InsufficientScope {
            rule_path: config.routes[i].path,
            required: config.routes[i].any_of,
        }),
{
    lemma_first_match(config.routes, method, path, i);
    crate::scopes::law_one_pair_suffices(
        crate::text::words(token_scopes),
        config.routes[i].any_of,
    );
}

/// What is wrong with a rule is, in this order, that its path does not start with a
/// slash, that it names no scope, or that a `**` stands before its last segment.
pub proof fn law_faults_of_a_rule(route: RouteView)
    ensures
        ({
            let slash = route.path.len() > 0 && route.path[0] == '/';
            let scope = route.any_of.len() > 0;
            let inner = exists|i: int|
                0 <= i < segments(route.path).len() - 1 && #[trigger] segments(route.path)[i]
                    == "**"@;
            &&& route_fault(route) == Some(RouteFault::NoLeadingSlash) <==> !slash
            &&& route_fault(route) == Some(RouteFault::NoScope) <==> slash && !scope
            &&& route_fault(route) == Some(RouteFault::InnerGlob) <==> slash && scope && inner
            &&& route_fault(route) is None <==> slash && scope && !inner
        }),
{
    let ps = segments(route.path);
    lemma_fixed_len_at_least(ps, 0);
    lemma_fixed_len_ends(ps);
    let n = fixed_len(ps);
    if n < ps.len() - 1 {
        assert(ps[n] == "**"@);
    }
    assert forall|i: int| 0 <= i < ps.len() - 1 && #[trigger] ps[i] == "**"@ implies n
        < ps.len() - 1 by {
        if n > i {
            lemma_fixed_len_holds(ps, i);
        }
    }
}

proof fn lemma_fixed_len_ends(pattern: Seq<Seq<char>>)
    ensures
        0 <= fixed_len(pattern) <= pattern.len(),
        fixed_len(pattern) < pattern.len() ==> pattern[fixed_len(pattern)] == "**"@,
    decreases pattern.len(),
{
    if pattern.len() > 0 && pattern[0] != "**"@ {
        lemma_fixed_len_ends(pattern.drop_first());
    }
}

/// The fault that is reported of a route map is that of its first faulty rule.
pub proof fn law_first_fault_is_reported(error: RouteError, config: RouteConfigView)
    requires
        error.names_fault_of(config),
    ensures
        error.index < config.routes.len(),
        route_fault(config.routes[error.index as int]) == Some(error.fault),
        error.path@ == config.routes[error.index as int].path,
        forall|j: int| 0 <= j < error.index ==> route_fault(#[trigger] config.routes[j]) is None,
{
    lemma_first_faulty_is_first(config.routes);
}

proof fn lemma_first_faulty_is_first(routes: Seq<RouteView>)
    ensures
        0 <= first_faulty(routes) <= routes.len(),
        forall|j: int|
            0 <= j < first_faulty(routes) ==> route_fault(#[trigger] routes[j]) is None,
    decreases routes.len(),
{
    if routes.len() > 0 && route_fault(routes[0]) is None {
        let rest = routes.drop_first();
        lemma_first_faulty_is_first(rest);
        assert forall|j: int| 0 <= j < first_faulty(routes) implies route_fault(
            #[trigger] routes[j],
        ) is None by {
            if j > 0 {
                assert(routes[j] == rest[j - 1]);
            }
        }
    }
}

/// Every rule of a route map is seen, at its place, with every method and scope that
/// it lists, and so is every scope that a denial names.
pub proof fn law_every_rule_is_seen(config: RouteConfig, i: int, decision: Decision)
    ensures
        config@.default == config.default,
        config@.routes.len() == config.routes@.len(),
        0 <= i < config.routes@.len() ==> {
            let (seen, rule) = (config@.routes[i], config.routes@[i]);
            &&& seen.path == rule.path@
            &&& seen.methods.len() == rule.methods@.len()
            &&& seen.any_of.len() == rule.any_of@.len()
            &&& forall|j: int|
                0 <= j < seen.methods.len() ==> #[trigger] seen.methods[j] == rule.methods@[j]@
            &&& forall|j: int|
                0 <= j < seen.any_of.len() ==> #[trigger] seen.any_of[j] == rule.any_of@[j]@
        },
        decision is Allow <==> decision@ is Allow,
        decision is NoMatchingRule <==> decision@ is NoMatchingRule,
        decision matches Decision::InsufficientScope { rule_path, required } ==> (decision@
            matches DecisionView::InsufficientScope { rule_path: path, required: scopes }
            && path == rule_path@ && scopes.len() == required@.len() && forall|j: int|
            0 <= j < scopes.len() ==> #[trigger] scopes[j] == required@[j]@),
{
}

/// The report on a rule gives its place in decimal and ends in its path.
pub proof fn law_report_gives_place_and_path(error: RouteError)
    ensures
        error.text() == "route["@ + crate::text::decimal(error.index as nat) + (match error.fault {
            RouteFault::NoLeadingSlash => "] path must start with '/': "@,
            RouteFault::NoScope => "] anyOf must not be empty: "@,
            RouteFault::InnerGlob => "] '**' is only allowed as the final segment: "@,
        }) + error.path@,
{
}

/// The report on a file names it and ends in the cause; that on a rule is the
/// rule's own.
pub proof fn law_report_names_file_and_cause(path: String, cause: String, error: RouteError)
    ensures
        (LoadError::Read { path, cause }).text() == "failed to read routes file "@ + path@ + ": "@
            + cause@,
        (LoadError::Parse { path, cause }).text() == "failed to parse routes file "@ + path@ + ": "@
            + cause@,
        LoadError::Invalid(error).text() == error.text(),
{
}

} // verus!
