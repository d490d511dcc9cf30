//! Routers and the resolution of a path to the routes it offers.

use crate::config::Route;
use crate::pattern::{captures_of, full_match, groups_view, match_path};
use crate::table::Table;
use regex::Regex;
use vstd::prelude::*;

verus! {

/// The routes that one path offers, by method name.
pub type MethodMap<H, M> = Table<Route<H, M>>;

/// A path pattern with the routes of the paths that match it.
pub struct RegexPath<H, M> {
    pub regex: Regex,
    pub routes: MethodMap<H, M>,
}

impl<H, M> RegexPath<H, M> {
    /// The pattern matches `path` in full.
    pub open spec fn matches(self, path: Seq<char>) -> bool {
        full_match(captures_of(self.regex, path), path)
    }
}

/// A source of routes.
pub enum Router<H, M, D> {
    /// Exact paths.
    Static(Table<MethodMap<H, M>>),
    /// Patterns, tried in the order of the list.
    Regex(Vec<RegexPath<H, M>>),
    /// A resolver that the caller consults when nothing else knows the path.
    Dynamic(D),
}

/// The first route of the list whose pattern matches `path` in full.
pub open spec fn match_route<H, M>(routes: Seq<RegexPath<H, M>>, path: Seq<char>) -> Option<
    RegexPath<H, M>,
>
    decreases routes.len(),
{
    if routes.len() == 0 {
        None
    } else if routes[0].matches(path) {
        Some(routes[0])
    } else {
        match_route(routes.drop_first(), path)
    }
}

/// What the first static table that knows `path` offers for it.
pub open spec fn static_lookup<H, M, D>(routers: Seq<Router<H, M, D>>, path: Seq<char>) -> Option<
    MethodMap<H, M>,
>
    decreases routers.len(),
{
    if routers.len() == 0 {
        None
    } else {
        match routers[0] {
            Router::Static(table) => if table@.contains_key(path) {
                Some(table@[path])
            } else {
                static_lookup(routers.drop_first(), path)
            },
            _ => static_lookup(routers.drop_first(), path),
        }
    }
}

/// The pattern routes of a router, in the order of its list: none unless the
/// router is one of patterns.
pub open spec fn patterns<H, M, D>(router: Router<H, M, D>) -> Seq<RegexPath<H, M>> {
    match router {
        Router::Regex(routes) => routes@,
        _ => Seq::empty(),
    }
}

/// The first pattern route that matches `path`: routers in the order of
/// registration, and the routes of one router in the order of its list.
pub open spec fn pattern_lookup<H, M, D>(routers: Seq<Router<H, M, D>>, path: Seq<char>) -> Option<
    RegexPath<H, M>,
>
    decreases routers.len(),
{
    if routers.len() == 0 {
        None
    } else if match_route(patterns(routers[0]), path) is Some {
        match_route(patterns(routers[0]), path)
    } else {
        pattern_lookup(routers.drop_first(), path)
    }
}

/// The dynamic resolver that was registered first.
pub open spec fn dynamic_resolver<H, M, D>(routers: Seq<Router<H, M, D>>) -> Option<D>
    decreases routers.len(),
{
    if routers.len() == 0 {
        None
    } else {
        match routers[0] {
            Router::Dynamic(resolver) => Some(resolver),
            _ => dynamic_resolver(routers.drop_first()),
        }
    }
}

/// The groups' texts, where each of the groups took part in the match.
pub open spec fn texts_of(groups: Seq<Option<Seq<char>>>) -> Option<Seq<Seq<char>>> {
    if forall|i: int| 0 <= i < groups.len() ==> groups[i] is Some {
        Some(groups.map_values(|group: Option<Seq<char>>| group.unwrap()))
    } else {
        None
    }
}

/// The path parameters of a match: the capture groups behind the whole
/// match, in order, where each of them took part in the match.
pub open spec fn params_of(groups: Seq<Option<Seq<char>>>) -> Option<Seq<Seq<char>>> {
    if groups.len() == 0 {
        Some(Seq::empty())
    } else {
        texts_of(groups.drop_first())
    }
}

/// Strings as sequences of characters.
pub open spec fn strings_view(strings: Seq<String>) -> Seq<Seq<char>> {
    strings.map_values(|text: String| text@)
}

/// The path parameters that a match gives: its capture groups without the
/// whole match, in order. `None` when one of them took no part in the match.
pub fn path_params(groups: &Vec<Option<String>>) -> (params: Option<Vec<String>>)
    ensures
        match params {
            Some(params) => params_of(groups_view(groups@)) == Some(strings_view(params@)),
            None => params_of(groups_view(groups@)) is None,
        },
{
    let mut params: Vec<String> = Vec::new();
    if groups.len() == 0 {
        assert(strings_view(params@) =~= Seq::<Seq<char>>::empty());
        return Some(params);
    }
    let ghost rest = groups_view(groups@).drop_first();
    let mut i: usize = 1;
    while i < groups.len()
        invariant
            1 <= i <= groups.len(),
            rest == groups_view(groups@).drop_first(),
            params@.len() == i - 1,
            forall|j: int| 0 <= j < i - 1 ==> #[trigger] rest[j] == Some(params@[j]@),
        decreases groups.len() - i,
    {
        match &groups[i] {
            Some(text) => {
                params.push(text.clone());
            },
            None => {
                assert(rest[i - 1] is None);
                return None;
            },
        }
        i += 1;
    }
    assert(strings_view(params@) =~= rest.map_values(|group: Option<Seq<char>>| group.unwrap()));
    Some(params)
}

/// The first route of `regex_path_routes` whose pattern matches `path` in
/// full, as the capture groups of the match and the routes behind the
/// pattern.
pub fn check_regex_routes<'a, H, M>(
    path: &str,
    regex_path_routes: &'a Vec<RegexPath<H, M>>,
) -> (found: Option<(Vec<Option<String>>, &'a MethodMap<H, M>)>)
    ensures
        match found {
            Some((groups, routes)) => {
                &&& match_route(regex_path_routes@, path@) matches Some(route)
                &&& route.routes == *routes
                &&& captures_of(route.regex, path@) == Some(groups_view(groups@))
            },
            None => match_route(regex_path_routes@, path@) is None,
        },
{
    let mut i: usize = 0;
    assert(regex_path_routes@.skip(0) =~= regex_path_routes@);
    while i < regex_path_routes.len()
        invariant
            i <= regex_path_routes.len(),
            match_route(regex_path_routes@, path@) == match_route(
                regex_path_routes@.skip(i as int),
                path@,
            ),
        decreases regex_path_routes.len() - i,
    {
        let route = &regex_path_routes[i];
        assert(regex_path_routes@.skip(i as int)[0] == *route);
        if let Some(groups) = match_path(&route.regex, path) {
            return Some((groups, &route.routes));
        }
        assert(regex_path_routes@.skip(i as int).drop_first() =~= regex_path_routes@.skip(
            i + 1,
        ));
        i += 1;
    }
    None
}

/// How a path was resolved.
pub enum Resolution<'a, H, M, D> {
    /// A static table knows the path.
    Static(&'a MethodMap<H, M>),
    /// A pattern matches the path; with the capture groups of the match.
    Pattern(&'a MethodMap<H, M>, Vec<Option<String>>),
    /// No table and no pattern knows the path: this resolver is to be asked.
    Dynamic(&'a D),
    /// No table and no pattern knows the path, and there is no resolver.
    NotFound,
}

/// Resolves `path`: static tables first, then the patterns, each kind in the
/// order of registration; the dynamic resolver only when both know nothing.
pub fn resolve<'a, H, M, D>(routers: &'a Vec<Router<H, M, D>>, path: &str) -> (resolution:
    Resolution<'a, H, M, D>)
    ensures
        match resolution {
            Resolution::Static(routes) => static_lookup(routers@, path@) == Some(*routes),
            Resolution::Pattern(routes, groups) => {
                &&& static_lookup(routers@, path@) is None
                &&& pattern_lookup(routers@, path@) matches Some(route)
                &&& route.routes == *routes
                &&& captures_of(route.regex, path@) == Some(groups_view(groups@))
            },
            Resolution::Dynamic(resolver) => static_lookup(routers@, path@) is None
                && pattern_lookup(routers@, path@) is None && dynamic_resolver(routers@) == Some(
                *resolver,
            ),
            Resolution::NotFound => static_lookup(routers@, path@) is None && pattern_lookup(
                routers@,
                path@,
            ) is None && dynamic_resolver(routers@) is None,
        },
{
    assert(routers@.skip(0) =~= routers@);
    let mut i: usize = 0;
    while i < routers.len()
        invariant
            i <= routers.len(),
            static_lookup(routers@, path@) == static_lookup(routers@.skip(i as int), path@),
        decreases routers.len() - i,
    {
        assert(routers@.skip(i as int)[0] == routers@[i as int]);
        if let Router::Static(table) = &routers[i] {
            if let Some(routes) = table.get(path) {
                return Resolution::Static(routes);
            }
        }
        assert(routers@.skip(i as int).drop_first() =~= routers@.skip(i + 1));
        i += 1;
    }
    let mut i: usize = 0;
    while i < routers.len()
        invariant
            i <= routers.len(),
            static_lookup(routers@, path@) is None,
            pattern_lookup(routers@, path@) == pattern_lookup(routers@.skip(i as int), path@),
        decreases routers.len() - i,
    {
        assert(routers@.skip(i as int)[0] == routers@[i as int]);
        if let Router::Regex(routes) = &routers[i] {
            if let Some((groups, routes)) = check_regex_routes(path, routes) {
                return Resolution::Pattern(routes, groups);
            }
        }
        assert(routers@.skip(i as int).drop_first() =~= routers@.skip(i + 1));
        i += 1;
    }
    let mut i: usize = 0;
    while i < routers.len()
        invariant
            i <= routers.len(),
            static_lookup(routers@, path@) is None,
            pattern_lookup(routers@, path@) is None,
            dynamic_resolver(routers@) == dynamic_resolver(routers@.skip(i as int)),
        decreases routers.len() - i,
    {
        assert(routers@.skip(i as int)[0] == routers@[i as int]);
        if let Router::Dynamic(resolver) = &routers[i] {
            return Resolution::Dynamic(resolver);
        }
        assert(routers@.skip(i as int).drop_first() =~= routers@.skip(i + 1));
        i += 1;
    }
    Resolution::NotFound
}

/// A route whose pattern matches is chosen when no route before it matches,
/// however many stand before it.
pub proof fn lemma_first_match_is_chosen<H, M>(
    routes: Seq<RegexPath<H, M>>,
    path: Seq<char>,
    i: int,
)
    requires
        0 <= i < routes.len(),
        routes[i].matches(path),
        forall|j: int| 0 <= j < i ==> !(#[trigger] routes[j]).matches(path),
    ensures
        match_route(routes, path) == Some(routes[i]),
    decreases i,
{
    if i > 0 {
        let rest = routes.drop_first();
        assert(!routes[0].matches(path));
        assert forall|j: int| 0 <= j < i - 1 implies !(#[trigger] rest[j]).matches(path) by {
            assert(rest[j] == routes[j + 1]);
        }
        lemma_first_match_is_chosen(rest, path, i - 1);
    }
}

/// Of two routes whose patterns both match, the one that stands first in the
/// list decides: the list gives what it gives without the later route and
/// all that follows it.
pub proof fn lemma_earlier_match_wins<H, M>(
    routes: Seq<RegexPath<H, M>>,
    path: Seq<char>,
    i: int,
    j: int,
)
    requires
        0 <= i < j < routes.len(),
        routes[i].matches(path),
        routes[j].matches(path),
    ensures
        match_route(routes, path) is Some,
        match_route(routes, path) == match_route(routes.take(j), path),
    decreases i,
{
    assert(routes.take(j)[0] == routes[0]);
    if i > 0 && !routes[0].matches(path) {
        let rest = routes.drop_first();
        assert(rest[i - 1] == routes[i]);
        assert(rest[j - 1] == routes[j]);
        assert(routes.take(j).drop_first() =~= rest.take(j - 1));
        lemma_earlier_match_wins(rest, path, i - 1, j - 1);
    }
}

/// The routers' patterns are tried router by router: a router with a
/// matching pattern decides when no router before it has one.
pub proof fn lemma_first_router_is_chosen<H, M, D>(
    routers: Seq<Router<H, M, D>>,
    path: Seq<char>,
    r: int,
)
    requires
        0 <= r < routers.len(),
        match_route(patterns(routers[r]), path) is Some,
        forall|q: int| 0 <= q < r ==> match_route(patterns(#[trigger] routers[q]), path) is None,
    ensures
        pattern_lookup(routers, path) == match_route(patterns(routers[r]), path),
    decreases r,
{
    if r > 0 {
        let rest = routers.drop_first();
        assert(match_route(patterns(routers[0]), path) is None);
        assert forall|q: int| 0 <= q < r - 1 implies match_route(
            patterns(#[trigger] rest[q]),
            path,
        ) is None by {
            assert(rest[q] == routers[q + 1]);
        }
        lemma_first_router_is_chosen(rest, path, r - 1);
    }
}

/// A static table's answer does not depend on the patterns and resolvers
/// that are registered around it, nor does a pattern's on the tables and
/// resolvers.
pub proof fn lemma_kinds_do_not_mix<H, M, D>(
    routers: Seq<Router<H, M, D>>,
    path: Seq<char>,
    r: int,
    other: Router<H, M, D>,
)
    requires
        0 <= r <= routers.len(),
    ensures
        !(other is Static) ==> static_lookup(routers.insert(r, other), path) == static_lookup(
            routers,
            path,
        ),
        !(other is Regex) ==> pattern_lookup(routers.insert(r, other), path) == pattern_lookup(
            routers,
            path,
        ),
    decreases r,
{
    let more = routers.insert(r, other);
    if r == 0 {
        assert(more.drop_first() =~= routers);
    } else {
        assert(more[0] == routers[0]);
        assert(more.drop_first() =~= routers.drop_first().insert(r - 1, other));
        lemma_kinds_do_not_mix(routers.drop_first(), path, r - 1, other);
    }
}

/// The path parameters are the capture groups behind the whole match, one
/// for one and in their order.
pub proof fn lemma_params_in_order(groups: Seq<Option<Seq<char>>>, params: Seq<Seq<char>>)
    requires
        groups.len() > 0,
        params_of(groups) == Some(params),
    ensures
        params.len() == groups.len() - 1,
        forall|k: int| 0 <= k < params.len() ==> groups[k + 1] == Some(#[trigger] params[k]),
{
    let rest = groups.drop_first();
    assert forall|k: int| 0 <= k < params.len() implies groups[k + 1] == Some(
        #[trigger] params[k],
    ) by {
        assert(rest[k] == groups[k + 1]);
        assert(rest[k] is Some);
    }
}

} // verus!
