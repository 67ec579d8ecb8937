//! Scope implication, following the scope grammar `<api>:[<resource>:]<action>`
//! with `action` one of `read`, `write` and `admin`.
//!
//! A presented scope satisfies a required scope when it is equal or wider:
//!   - actions form a hierarchy: `admin` covers `write`, which covers `read`
//!   - an api-level scope (`identity-api:read`) or a resource wildcard
//!     (`identity-api:*:read`) covers any resource-level requirement
//!     (`identity-api:participants:read`)
//!   - a resource-level scope does not satisfy an api-level requirement
//!
//! Scopes that do not follow the grammar (such as plain `read`) only match
//! exactly.

use vstd::prelude::*;

use crate::text::{same, split, Separator};

verus! {

/// The place of an action in the hierarchy, if it is one.
pub open spec fn rank_of(action: Seq<char>) -> Option<u8> {
    if action == "read"@ {
        Some(1u8)
    } else if action == "write"@ {
        Some(2u8)
    } else if action == "admin"@ {
        Some(3u8)
    } else {
        None
    }
}

/// What a scope that follows the grammar says.
pub struct ScopeView {
    pub api: Seq<char>,
    pub resource: Option<Seq<char>>,
    pub rank: u8,
}

/// What `scope` says, if it follows the grammar: two or three parts between
/// colons, of which the last is an action and the others are not empty.
pub open spec fn grammar(scope: Seq<char>) -> Option<ScopeView> {
    let parts = crate::text::pieces(scope, Separator::Char(':'));
    if parts.len() == 2 && parts[0].len() > 0 {
        match rank_of(parts[1]) {
            Some(rank) => Some(ScopeView { api: parts[0], resource: None, rank }),
            None => None,
        }
    } else if parts.len() == 3 && parts[0].len() > 0 && parts[1].len() > 0 {
        match rank_of(parts[2]) {
            Some(rank) => Some(ScopeView { api: parts[0], resource: Some(parts[1]), rank }),
            None => None,
        }
    } else {
        None
    }
}

/// Whether a scope for `presented` reaches what one for `required` asks for.
pub open spec fn covers(presented: Option<Seq<char>>, required: Option<Seq<char>>) -> bool {
    match presented {
        None => true,
        Some(p) => p == "*"@ || required == Some(p),
    }
}

/// Whether the scope `presented` is equal to `required` or wider.
pub open spec fn implied(presented: Seq<char>, required: Seq<char>) -> bool {
    presented == required || match (grammar(presented), grammar(required)) {
        (Some(p), Some(r)) => p.api == r.api && p.rank >= r.rank && covers(p.resource, r.resource),
        _ => false,
    }
}

/// Whether one of the scopes in `presented` is equal to one of those in
/// `required` or wider.
pub open spec fn any_implied(presented: Seq<Seq<char>>, required: Seq<Seq<char>>) -> bool {
    exists|i: int, j: int|
        0 <= i < presented.len() && 0 <= j < required.len() && #[trigger] implied(
            presented[i],
            required[j],
        )
}

/// The place of an action in the hierarchy, if it is one.
pub fn action_rank(action: &str) -> (r: Option<u8>)
    ensures
        r == rank_of(action@),
{
    proof {
        reveal_strlit("read");
        reveal_strlit("write");
        reveal_strlit("admin");
    }
    if same(action, "read") {
        Some(1)
    } else if same(action, "write") {
        Some(2)
    } else if same(action, "admin") {
        Some(3)
    } else {
        None
    }
}

/// A scope that follows the grammar.
pub struct ParsedScope<'a> {
    pub api: &'a str,
    pub resource: Option<&'a str>,
    pub rank: u8,
}

impl<'a> View for ParsedScope<'a> {
    type V = ScopeView;

    open spec fn view(&self) -> ScopeView {
        ScopeView {
            api: self.api@,
            resource: match self.resource {
                Some(resource) => Some(resource@),
                None => None,
            },
            rank: self.rank,
        }
    }
}

/// What `scope` says, if it follows the grammar.
pub fn parse<'a>(scope: &'a str) -> (r: Option<ParsedScope<'a>>)
    ensures
        r is Some == grammar(scope@) is Some,
        r matches Some(parsed) ==> grammar(scope@) == Some(parsed@),
{
    let parts: Vec<&'a str> = split(scope, Separator::Char(':'));
    let ghost cut = crate::text::pieces(scope@, Separator::Char(':'));
    assert(cut.len() == parts@.len());
    assert(forall|i: int| 0 <= i < parts@.len() ==> cut[i] == #[trigger] parts@[i]@);
    if parts.len() == 2 && !parts[0].is_empty() {
        match action_rank(parts[1]) {
            Some(rank) => Some(ParsedScope { api: parts[0], resource: None, rank }),
            None => None,
        }
    } else if parts.len() == 3 && !parts[0].is_empty() && !parts[1].is_empty() {
        match action_rank(parts[2]) {
            Some(rank) => Some(ParsedScope { api: parts[0], resource: Some(parts[1]), rank }),
            None => None,
        }
    } else {
        None
    }
}

/// What the text reads, if there is one.
pub open spec fn option_view(s: Option<&str>) -> Option<Seq<char>> {
    match s {
        Some(text) => Some(text@),
        None => None,
    }
}

/// Does `presented` cover the resource segment demanded by `required`?
pub fn resource_covers(presented: Option<&str>, required: Option<&str>) -> (r: bool)
    ensures
        r == covers(option_view(presented), option_view(required)),
{
    match presented {
        // api-level and wildcard scopes cover every resource of that api
        None => true,
        Some(p) => {
            if same(p, "*") {
                true
            } else {
                // a concrete resource only covers exactly that resource
                match required {
                    Some(q) => same(p, q),
                    None => false,
                }
            }
        },
    }
}

/// Returns true when the `presented` scope satisfies the `required` scope.
pub fn satisfies(presented: &str, required: &str) -> (r: bool)
    ensures
        r == implied(presented@, required@),
{
    if same(presented, required) {
        return true;
    }
    match (parse(presented), parse(required)) {
        (Some(p), Some(q)) => {
            same(p.api, q.api) && p.rank >= q.rank && resource_covers(p.resource, q.resource)
        },
        _ => false,
    }
}

/// Returns true when any of the `held` scopes satisfies any of the `required`
/// scopes.
fn any_held(held: &Vec<&str>, required: &[String]) -> (r: bool)
    ensures
        r == any_implied(crate::text::views(held@), crate::text::string_views(required@)),
{
    let ghost ps = crate::text::views(held@);
    let ghost rs = crate::text::string_views(required@);
    let mut j: usize = 0;
    while j < required.len()
        invariant
            j <= required@.len(),
            ps == crate::text::views(held@),
            rs == crate::text::string_views(required@),
            forall|x: int, y: int|
                0 <= x < ps.len() && 0 <= y < j ==> !#[trigger] implied(ps[x], rs[y]),
        decreases required@.len() - j,
    {
        let mut i: usize = 0;
        while i < held.len()
            invariant
                i <= held@.len(),
                j < required@.len(),
                ps == crate::text::views(held@),
                rs == crate::text::string_views(required@),
                forall|x: int, y: int|
                    0 <= x < ps.len() && 0 <= y < j ==> !#[trigger] implied(ps[x], rs[y]),
                forall|x: int| 0 <= x < i ==> !#[trigger] implied(ps[x], rs[j as int]),
            decreases held@.len() - i,
        {
            if satisfies(held[i], required[j].as_str()) {
                assert(implied(ps[i as int], rs[j as int]));
                return true;
            }
            i += 1;
        }
        j += 1;
    }
    false
}

/// Returns true when any of the `presented` scopes satisfies any of the
/// `required` scopes.
pub fn any_satisfies<'a, I: Iterator<Item = &'a str> + Clone>(
    presented: I,
    required: &[String],
) -> (r: bool)
    requires
        vstd::std_specs::iter::IteratorSpec::obeys_prophetic_iter_laws(&presented),
        vstd::std_specs::iter::IteratorSpec::decrease(&presented) is Some,
    ensures
        r == any_implied(
            crate::text::views(vstd::std_specs::iter::IteratorSpec::remaining(&presented)),
            crate::text::string_views(required@),
        ),
{
    let ghost given = vstd::std_specs::iter::IteratorSpec::remaining(&presented);
    let mut held: Vec<&'a str> = Vec::new();
    let mut rest: I = presented;
    assert(held@ + vstd::std_specs::iter::IteratorSpec::remaining(&rest) =~= given);
    loop
        invariant
            held@ + vstd::std_specs::iter::IteratorSpec::remaining(&rest) == given,
            vstd::std_specs::iter::IteratorSpec::obeys_prophetic_iter_laws(&rest),
            vstd::std_specs::iter::IteratorSpec::decrease(&rest) is Some,
        ensures
            held@ == given,
        decreases vstd::std_specs::iter::IteratorSpec::decrease(&rest)->0,
    {
        let ghost before = held@;
        let ghost left = vstd::std_specs::iter::IteratorSpec::remaining(&rest);
        match rest.next() {
            Some(scope) => {
                held.push(scope);
                assert(held@ + left.drop_first() =~= before + left);
            },
            None => {
                assert(held@ + left =~= held@);
                break;
            },
        }
    }
    any_held(&held, required)
}

/// Whether `part` can stand between the colons of a scope.
pub open spec fn plain(part: Seq<char>) -> bool {
    part.len() > 0 && !part.contains(':')
}

/// The scope `<api>:<action>`.
pub open spec fn api_scope(api: Seq<char>, action: Seq<char>) -> Seq<char> {
    api.push(':') + action
}

/// The scope `<api>:<resource>:<action>`.
pub open spec fn resource_scope(
    api: Seq<char>,
    resource: Seq<char>,
    action: Seq<char>,
) -> Seq<char> {
    api.push(':') + api_scope(resource, action)
}

proof fn lemma_one_part(part: Seq<char>)
    requires
        !part.contains(':'),
    ensures
        crate::text::pieces(part, Separator::Char(':')) == seq![part],
{
    assert forall|j: int| 0 <= j < part.len() implies !Separator::Char(':').separates(
        #[trigger] part[j],
    ) by {
        assert(part.contains(part[j]));
    }
    crate::text::law_text_without_separator_is_one_piece(part, Separator::Char(':'));
}

proof fn lemma_action_is_plain(action: Seq<char>)
    requires
        rank_of(action) is Some,
    ensures
        plain(action),
{
    reveal_strlit("read");
    reveal_strlit("write");
    reveal_strlit("admin");
}

/// The grammar reads `<api>:<action>` as it was put together.
pub proof fn law_api_scope_follows_grammar(api: Seq<char>, action: Seq<char>)
    requires
        plain(api),
        rank_of(action) is Some,
    ensures
        grammar(api_scope(api, action)) == Some(
            (ScopeView { api, resource: None, rank: rank_of(action)->0 }),
        ),
{
    lemma_action_is_plain(action);
    lemma_one_part(api);
    lemma_one_part(action);
    crate::text::law_split_at_separator(api, ':', action, Separator::Char(':'));
}

/// The grammar reads `<api>:<resource>:<action>` as it was put together.
pub proof fn law_resource_scope_follows_grammar(
    api: Seq<char>,
    resource: Seq<char>,
    action: Seq<char>,
)
    requires
        plain(api),
        plain(resource),
        rank_of(action) is Some,
    ensures
        grammar(resource_scope(api, resource, action)) == Some(
            (ScopeView { api, resource: Some(resource), rank: rank_of(action)->0 }),
        ),
{
    lemma_action_is_plain(action);
    lemma_one_part(api);
    lemma_one_part(resource);
    lemma_one_part(action);
    crate::text::law_split_at_separator(resource, ':', action, Separator::Char(':'));
    crate::text::law_split_at_separator(
        api,
        ':',
        api_scope(resource, action),
        Separator::Char(':'),
    );
}

/// Every scope satisfies itself, whether or not it follows the grammar.
pub proof fn law_exact_match_satisfies(scope: Seq<char>)
    ensures
        implied(scope, scope),
{
}

/// A scope satisfies whatever is satisfied by a scope that it satisfies, so a
/// wider scope may always take the place of a narrower one.
pub proof fn law_wider_scope_takes_the_place(a: Seq<char>, b: Seq<char>, c: Seq<char>)
    requires
        implied(a, b),
        implied(b, c),
    ensures
        implied(a, c),
{
}

/// Actions form a hierarchy: with all else equal, `a` satisfies `b` just when it
/// ranks at least as high.
pub proof fn law_action_hierarchy(
    api: Seq<char>,
    resource: Seq<char>,
    a: Seq<char>,
    b: Seq<char>,
)
    requires
        plain(api),
        plain(resource),
        rank_of(a) is Some,
        rank_of(b) is Some,
    ensures
        implied(api_scope(api, a), api_scope(api, b)) == (rank_of(a)->0 >= rank_of(b)->0),
        implied(resource_scope(api, resource, a), resource_scope(api, resource, b)) == (rank_of(
            a,
        )->0 >= rank_of(b)->0),
{
    law_api_scope_follows_grammar(api, a);
    law_api_scope_follows_grammar(api, b);
    law_resource_scope_follows_grammar(api, resource, a);
    law_resource_scope_follows_grammar(api, resource, b);
}

/// `admin` ranks above `write`, and `write` above `read`; nothing else is an
/// action.
pub proof fn law_admin_above_write_above_read(action: Seq<char>)
    ensures
        rank_of("admin"@)->0 > rank_of("write"@)->0 > rank_of("read"@)->0,
        rank_of(action) is Some == (action == "admin"@ || action == "write"@ || action == "read"@),
{
    reveal_strlit("read");
    reveal_strlit("write");
    reveal_strlit("admin");
    assert("read"@.len() == 4 && "write"@.len() == 5 && "admin"@.len() == 5);
    assert("write"@[0] == 'w' && "admin"@[0] == 'a');
}

/// An api-level scope and a resource wildcard cover any resource of their api and
/// the api itself, for the actions that their own action covers, and for no other.
pub proof fn law_api_level_and_wildcard_cover_resources(
    api: Seq<char>,
    resource: Seq<char>,
    a: Seq<char>,
    b: Seq<char>,
)
    requires
        plain(api),
        plain(resource),
        rank_of(a) is Some,
        rank_of(b) is Some,
    ensures
        implied(api_scope(api, a), resource_scope(api, resource, b)) == (rank_of(a)->0 >= rank_of(
            b,
        )->0),
        implied(resource_scope(api, "*"@, a), resource_scope(api, resource, b)) == (rank_of(a)->0
            >= rank_of(b)->0),
        implied(api_scope(api, a), api_scope(api, b)) == (rank_of(a)->0 >= rank_of(b)->0),
        implied(resource_scope(api, "*"@, a), api_scope(api, b)) == (rank_of(a)->0 >= rank_of(
            b,
        )->0),
{
    reveal_strlit("*");
    law_api_scope_follows_grammar(api, a);
    law_api_scope_follows_grammar(api, b);
    law_resource_scope_follows_grammar(api, "*"@, a);
    law_resource_scope_follows_grammar(api, resource, b);
}

/// A scope for one resource satisfies no api-level requirement, and no
/// requirement for another resource or for the wildcard, whatever the actions.
pub proof fn law_resource_level_does_not_widen(
    api: Seq<char>,
    resource: Seq<char>,
    other: Seq<char>,
    a: Seq<char>,
    b: Seq<char>,
)
    requires
        plain(api),
        plain(resource),
        plain(other),
        resource != "*"@,
        resource != other,
        rank_of(a) is Some,
        rank_of(b) is Some,
    ensures
        !implied(resource_scope(api, resource, a), api_scope(api, b)),
        !implied(resource_scope(api, resource, a), resource_scope(api, other, b)),
{
    law_api_scope_follows_grammar(api, b);
    law_resource_scope_follows_grammar(api, resource, a);
    law_resource_scope_follows_grammar(api, other, b);
}

/// A scope outside the grammar satisfies only itself, and only itself satisfies
/// it.
pub proof fn law_outside_grammar_matches_exactly(presented: Seq<char>, required: Seq<char>)
    requires
        grammar(presented) is None || grammar(required) is None,
    ensures
        implied(presented, required) == (presented == required),
{
}

/// No scope satisfies a requirement of another api.
pub proof fn law_apis_do_not_cross(presented: Seq<char>, required: Seq<char>)
    requires
        grammar(presented) is Some,
        grammar(required) is Some,
        grammar(presented)->0.api != grammar(required)->0.api,
    ensures
        !implied(presented, required),
{
}

/// No scopes satisfy nothing, and nothing satisfies no requirement.
pub proof fn law_nothing_satisfies_nothing(scopes: Seq<Seq<char>>)
    ensures
        !any_implied(Seq::empty(), scopes),
        !any_implied(scopes, Seq::empty()),
{
}

/// Scopes that between them satisfy all that others do satisfy whichever
/// requirement the others satisfy, and one that allows more alternatives too.
pub proof fn law_wider_scopes_keep_working(
    presented: Seq<Seq<char>>,
    wider: Seq<Seq<char>>,
    required: Seq<Seq<char>>,
    relaxed: Seq<Seq<char>>,
)
    requires
        any_implied(presented, required),
        forall|i: int|
            0 <= i < presented.len() ==> any_implied(wider, seq![#[trigger] presented[i]]),
        forall|j: int| 0 <= j < required.len() ==> relaxed.contains(#[trigger] required[j]),
    ensures
        any_implied(wider, relaxed),
{
    let (i, j) = choose|i: int, j: int|
        0 <= i < presented.len() && 0 <= j < required.len() && #[trigger] implied(
            presented[i],
            required[j],
        );
    let one = seq![presented[i]];
    assert(any_implied(wider, one));
    let (x, y) = choose|x: int, y: int|
        0 <= x < wider.len() && 0 <= y < one.len() && #[trigger] implied(wider[x], one[y]);
    assert(relaxed.contains(required[j]));
    let k = choose|k: int| 0 <= k < relaxed.len() && relaxed[k] == required[j];
    law_wider_scope_takes_the_place(wider[x], presented[i], required[j]);
    assert(implied(wider[x], relaxed[k]));
}

/// A scope for a resource satisfies a requirement of its api exactly where it is
/// for every resource or for the one required, and its action ranks high enough.
pub proof fn law_resource_scope_satisfies_its_resource_only(
    api: Seq<char>,
    resource: Seq<char>,
    other: Seq<char>,
    a: Seq<char>,
    b: Seq<char>,
)
    requires
        plain(api),
        plain(resource),
        plain(other),
        rank_of(a) is Some,
        rank_of(b) is Some,
    ensures
        implied(resource_scope(api, resource, a), resource_scope(api, other, b)) <==> rank_of(a)->0
            >= rank_of(b)->0 && (resource == "*"@ || resource == other),
        implied(resource_scope(api, resource, a), api_scope(api, b)) <==> rank_of(a)->0 >= rank_of(
            b,
        )->0 && resource == "*"@,
{
    law_api_scope_follows_grammar(api, b);
    law_resource_scope_follows_grammar(api, resource, a);
    law_resource_scope_follows_grammar(api, other, b);
}

/// A scope satisfies nothing of another api, whatever the resources and actions.
pub proof fn law_scope_stays_within_its_api(
    api: Seq<char>,
    other: Seq<char>,
    resource: Seq<char>,
    wanted: Seq<char>,
    a: Seq<char>,
    b: Seq<char>,
)
    requires
        plain(api),
        plain(other),
        api != other,
        plain(resource),
        plain(wanted),
        rank_of(a) is Some,
        rank_of(b) is Some,
    ensures
        !implied(api_scope(api, a), api_scope(other, b)),
        !implied(api_scope(api, a), resource_scope(other, wanted, b)),
        !implied(resource_scope(api, resource, a), api_scope(other, b)),
        !implied(resource_scope(api, resource, a), resource_scope(other, wanted, b)),
{
    law_api_scope_follows_grammar(api, a);
    law_api_scope_follows_grammar(other, b);
    law_resource_scope_follows_grammar(api, resource, a);
    law_resource_scope_follows_grammar(other, wanted, b);
}

/// Nothing follows the grammar but `<api>:<action>` and
/// `<api>:<resource>:<action>`, with an api and a resource that are not empty.
pub proof fn law_grammar_admits_nothing_else(scope: Seq<char>)
    ensures
        grammar(scope) matches Some(said) ==> {
            &&& plain(said.api)
            &&& exists|action: Seq<char>|
                #[trigger] rank_of(action) == Some(said.rank) && scope == match said.resource {
                    Some(resource) => resource_scope(said.api, resource, action),
                    None => api_scope(said.api, action),
                }
            &&& said.resource matches Some(resource) ==> plain(resource)
        },
{
    let by = Separator::Char(':');
    let parts = crate::text::pieces(scope, by);
    crate::text::law_join_undoes_split(scope, ':');
    crate::text::law_pieces_hold_no_separator(scope, by);
    assert forall|i: int| 0 <= i < parts.len() implies !(#[trigger] parts[i]).contains(':') by {
        if parts[i].contains(':') {
            let j = choose|j: int| 0 <= j < parts[i].len() && parts[i][j] == ':';
            assert(!by.separates(parts[i][j]));
        }
    }
    if grammar(scope) is Some {
        let said = grammar(scope)->0;
        reveal_with_fuel(crate::text::joined, 3);
        if parts.len() == 2 {
            assert(parts.drop_last() =~= seq![parts[0]]);
            assert(scope =~= api_scope(said.api, parts[1]));
        } else {
            assert(parts.drop_last().drop_last() =~= seq![parts[0]]);
            assert(scope =~= resource_scope(said.api, parts[1], parts[2]));
        }
    }
}

/// No resource at all and `*` cover whatever is required; any other resource covers
/// itself and nothing else.
pub proof fn law_resource_covers_itself_only(
    resource: Seq<char>,
    other: Seq<char>,
    required: Option<Seq<char>>,
)
    ensures
        covers(None, required),
        covers(Some("*"@), required),
        covers(Some(resource), Some(other)) <==> resource == "*"@ || resource == other,
        covers(Some(resource), None) <==> resource == "*"@,
{
}

/// Scopes satisfy requirements exactly where one of the scopes, wherever it stands,
/// satisfies one of the requirements, wherever it stands.
pub proof fn law_one_pair_suffices(presented: Seq<Seq<char>>, required: Seq<Seq<char>>)
    ensures
        any_implied(presented, required) <==> exists|p: Seq<char>, r: Seq<char>|
            presented.contains(p) && required.contains(r) && #[trigger] implied(p, r),
{
    if any_implied(presented, required) {
        let (i, j) = choose|i: int, j: int|
            0 <= i < presented.len() && 0 <= j < required.len() && #[trigger] implied(
                presented[i],
                required[j],
            );
        assert(presented.contains(presented[i]) && required.contains(required[j]));
    }
    if exists|p: Seq<char>, r: Seq<char>|
        presented.contains(p) && required.contains(r) && #[trigger] implied(p, r) {
        let (p, r) = choose|p: Seq<char>, r: Seq<char>|
            presented.contains(p) && required.contains(r) && #[trigger] implied(p, r);
        let i = choose|i: int| 0 <= i < presented.len() && presented[i] == p;
        let j = choose|j: int| 0 <= j < required.len() && required[j] == r;
        assert(implied(presented[i], required[j]));
    }
}

/// Two lists of scopes together satisfy what either of them does, and satisfying
/// one of two lists of requirements is satisfying the two together.
pub proof fn law_lists_of_scopes_add_up(
    a: Seq<Seq<char>>,
    b: Seq<Seq<char>>,
    required: Seq<Seq<char>>,
    p: Seq<char>,
    r: Seq<char>,
)
    ensures
        any_implied(a + b, required) <==> any_implied(a, required) || any_implied(b, required),
        any_implied(required, a + b) <==> any_implied(required, a) || any_implied(required, b),
        any_implied(seq![p], seq![r]) <==> implied(p, r),
{
    let ab = a + b;
    assert forall|x: Seq<char>| #[trigger] ab.contains(x) <==> a.contains(x) || b.contains(x) by {
        if a.contains(x) {
            let i = choose|i: int| 0 <= i < a.len() && a[i] == x;
            assert(ab[i] == x);
        }
        if b.contains(x) {
            let i = choose|i: int| 0 <= i < b.len() && b[i] == x;
            assert(ab[a.len() + i] == x);
        }
    }
    law_one_pair_suffices(ab, required);
    law_one_pair_suffices(a, required);
    law_one_pair_suffices(b, required);
    law_one_pair_suffices(required, ab);
    law_one_pair_suffices(required, a);
    law_one_pair_suffices(required, b);
    law_one_pair_suffices(seq![p], seq![r]);
    assert(seq![p][0] == p && seq![r][0] == r);
    assert(seq![p].contains(p) && seq![r].contains(r));
    assert(forall|x: Seq<char>| seq![p].contains(x) ==> x == p);
    assert(forall|x: Seq<char>| seq![r].contains(x) ==> x == r);
}

/// All that a parsed scope holds is seen, and every text that is there.
pub proof fn law_parsed_scope_is_seen_whole(parsed: ParsedScope<'_>, text: Option<&str>)
    ensures
        parsed@.api == parsed.api@,
        parsed@.rank == parsed.rank,
        parsed@.resource is Some <==> parsed.resource is Some,
        parsed.resource matches Some(resource) ==> parsed@.resource == Some(resource@),
        option_view(text) is Some <==> text is Some,
        text matches Some(t) ==> option_view(text) == Some(t@),
{
}

} // verus!
