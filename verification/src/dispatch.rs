//! The decisions of one request: which stage runs next, and when the request
//! is answered. The caller runs the stages and reports what came of each.

use crate::config::{Fallback, MarlaConfig, Route};
use crate::pattern::captures_of;
use crate::provided::error_handlers::Provided;
use crate::request::Request;
use crate::routing::{
    dynamic_resolver, lemma_first_match_is_chosen, lemma_first_router_is_chosen, match_route,
    params_of, path_params, patterns, pattern_lookup, resolve, static_lookup, strings_view,
    MethodMap, Resolution,
};
use vstd::prelude::*;

verus! {

/// What came of the stage that the caller ran last. A stage that hands the
/// request on hands back what it was given to work on: the request and
/// whatever travels with it.
pub enum Event<'a, H, M, P> {
    /// The dynamic resolver answered: the routes of the path, or nothing.
    Resolved(Option<&'a MethodMap<H, M>>, P),
    /// A middleware handed the request on.
    Continued(P),
    /// A middleware or a handler produced the response.
    Responded,
    /// The stage failed.
    Faulted,
}

/// What the caller is to do next. A stage that works on the request is given
/// the request and whatever travels with it.
pub enum Action<'a, H, M, E, D, P> {
    /// Ask this resolver for the routes of the path, and report `Resolved`.
    Resolve(&'a D, P),
    /// Run this middleware, and report `Continued` or `Responded`.
    RunMiddleware(&'a M, P),
    /// Run this handler, and report `Responded`.
    RunHandler(&'a H, P),
    /// Run this handler, which takes nothing of the request, and report
    /// `Responded`.
    RunErrorHandler(&'a E),
    /// Answer with this provided response. The request is over.
    Respond(Provided),
    /// The response has been produced. The request is over.
    Finish,
}

impl<'a, H, M, E, D, P> Action<'a, H, M, E, D, P> {
    /// What the action hands to its stage.
    pub open spec fn payload(self) -> Option<P> {
        match self {
            Action::Resolve(_, payload) => Some(payload),
            Action::RunMiddleware(_, payload) => Some(payload),
            Action::RunHandler(_, payload) => Some(payload),
            _ => None,
        }
    }

    /// The action without what it hands to its stage.
    pub open spec fn decision(self) -> Action<'a, H, M, E, D, ()> {
        match self {
            Action::Resolve(resolver, _) => Action::Resolve(resolver, ()),
            Action::RunMiddleware(middleware, _) => Action::RunMiddleware(middleware, ()),
            Action::RunHandler(handler, _) => Action::RunHandler(handler, ()),
            Action::RunErrorHandler(handler) => Action::RunErrorHandler(handler),
            Action::Respond(provided) => Action::Respond(provided),
            Action::Finish => Action::Finish,
        }
    }
}

/// Where a request stands.
pub enum Phase<H, M> {
    /// The dynamic resolver is being asked.
    Resolving,
    /// Stage `at` is running: middleware `at` of `chain` while `at` is within
    /// the chain, the handler behind it.
    Running { chain: Seq<M>, handler: H, at: nat },
    /// The configuration's handler for faults is running.
    Recovering,
    /// The request is over.
    Finished,
}

/// The stage at position `at` of a chain with its handler, at work on
/// `payload`.
pub open spec fn stage_action<'a, H, M, E, D, P>(
    chain: Seq<M>,
    handler: H,
    at: nat,
    payload: P,
) -> Action<'a, H, M, E, D, P> {
    if at < chain.len() {
        Action::RunMiddleware(&chain[at as int], payload)
    } else {
        Action::RunHandler(&handler, payload)
    }
}

/// A route is entered: its chain is the route's own middleware where it has
/// some, else the configuration's, and the first stage of the chain runs.
pub open spec fn start<'a, H, M, E, D, P>(
    config: MarlaConfig<H, M, E, D>,
    route: Route<H, M>,
    payload: P,
) -> (Phase<H, M>, Action<'a, H, M, E, D, P>) {
    let chain = route.chain(config.middleware@);
    (
        Phase::Running { chain, handler: route.handler, at: 0 },
        stage_action(chain, route.handler, 0, payload),
    )
}

/// A fallback answers: the configuration's own handler, with no middleware
/// before it, or the provided response.
pub open spec fn fallback<'a, H, M, E, D, P>(own: Fallback<H>, provided: Provided, payload: P) -> (
    Phase<H, M>,
    Action<'a, H, M, E, D, P>,
) {
    match own {
        Fallback::Custom(handler) => (
            Phase::Running { chain: Seq::empty(), handler, at: 0 },
            Action::RunHandler(&handler, payload),
        ),
        Fallback::Provided => (Phase::Finished, Action::Respond(provided)),
    }
}

/// A fault is answered: by the configuration's handler for faults, or, where
/// there is none or it is the one that failed, by the provided response.
/// Nothing of the request is handed on.
pub open spec fn recover<'a, H, M, E, D, P>(
    config: MarlaConfig<H, M, E, D>,
    phase: Phase<H, M>,
) -> (Phase<H, M>, Action<'a, H, M, E, D, P>) {
    match config.internal_server_error_handler {
        Fallback::Custom(handler) => if phase is Recovering {
            (Phase::Finished, Action::Respond(Provided::InternalServerError))
        } else {
            (Phase::Recovering, Action::RunErrorHandler(&handler))
        },
        Fallback::Provided => (Phase::Finished, Action::Respond(Provided::InternalServerError)),
    }
}

/// The path is resolved to `routes`: the route of the method is entered, or
/// the method is not allowed.
pub open spec fn routed<'a, H, M, E, D, P>(
    config: MarlaConfig<H, M, E, D>,
    method: Seq<char>,
    routes: MethodMap<H, M>,
    payload: P,
) -> (Phase<H, M>, Action<'a, H, M, E, D, P>) {
    if routes@.contains_key(method) {
        start(config, routes@[method], payload)
    } else {
        fallback(config.method_not_allowed_handler, Provided::MethodNotAllowed, payload)
    }
}

/// The path parameters that a request for `method` and `path` is given: the
/// capture groups of the first pattern that matches the path, where no static
/// table knows the path, the pattern's routes offer the method and every
/// group took part in the match.
pub open spec fn granted_params<H, M, E, D>(
    config: MarlaConfig<H, M, E, D>,
    method: Seq<char>,
    path: Seq<char>,
) -> Option<Seq<Seq<char>>> {
    if static_lookup(config.routers@, path) is None {
        match pattern_lookup(config.routers@, path) {
            Some(pattern) => if pattern.routes@.contains_key(method) {
                params_of(captures_of(pattern.regex, path).unwrap())
            } else {
                None
            },
            None => None,
        }
    } else {
        None
    }
}

/// The first decision on a request for `method` and `path`, with `payload`
/// for the stage that runs first.
///
/// A static table that knows the path settles it. Else the first pattern
/// that matches the path settles it; a group of the match that took no part
/// in it is a fault, once the method is known to be offered. Else the dynamic
/// resolver is asked, and without one the path is not found.
pub open spec fn first_step<'a, H, M, E, D, P>(
    config: MarlaConfig<H, M, E, D>,
    method: Seq<char>,
    path: Seq<char>,
    payload: P,
) -> (Phase<H, M>, Action<'a, H, M, E, D, P>) {
    match static_lookup(config.routers@, path) {
        Some(routes) => routed(config, method, routes, payload),
        None => match pattern_lookup(config.routers@, path) {
            Some(pattern) => if pattern.routes@.contains_key(method) && granted_params(
                config,
                method,
                path,
            ) is None {
                recover(config, Phase::Resolving)
            } else {
                routed(config, method, pattern.routes, payload)
            },
            None => match dynamic_resolver(config.routers@) {
                Some(resolver) => (Phase::Resolving, Action::Resolve(&resolver, payload)),
                None => fallback(config.not_found_handler, Provided::NotFound, payload),
            },
        },
    }
}

/// The decision on an event.
///
/// A request that is over stays over. A response ends the request. A
/// middleware that hands the request on is followed by the next stage of its
/// chain, which is given what the middleware handed on. An event that the
/// phase does not expect is answered as a fault.
pub open spec fn next<'a, H, M, E, D, P>(
    config: MarlaConfig<H, M, E, D>,
    method: Seq<char>,
    phase: Phase<H, M>,
    event: Event<'a, H, M, P>,
) -> (Phase<H, M>, Action<'a, H, M, E, D, P>) {
    match phase {
        Phase::Finished => (Phase::Finished, Action::Finish),
        Phase::Resolving => match event {
            Event::Resolved(Some(routes), payload) => routed(config, method, *routes, payload),
            Event::Resolved(None, payload) => fallback(
                config.not_found_handler,
                Provided::NotFound,
                payload,
            ),
            _ => recover(config, phase),
        },
        Phase::Running { chain, handler, at } => match event {
            Event::Continued(payload) => if at < chain.len() {
                (
                    Phase::Running { chain, handler, at: at + 1 },
                    stage_action(chain, handler, at + 1, payload),
                )
            } else {
                recover(config, phase)
            },
            Event::Responded => (Phase::Finished, Action::Finish),
            _ => recover(config, phase),
        },
        Phase::Recovering => match event {
            Event::Responded => (Phase::Finished, Action::Finish),
            _ => recover(config, phase),
        },
    }
}

/// The actions that a run of events draws, one for each event.
pub open spec fn actions<'a, H, M, E, D, P>(
    config: MarlaConfig<H, M, E, D>,
    method: Seq<char>,
    phase: Phase<H, M>,
    events: Seq<Event<'a, H, M, P>>,
) -> Seq<Action<'a, H, M, E, D, P>>
    decreases events.len(),
{
    if events.len() == 0 {
        Seq::empty()
    } else {
        let (after, action) = next(config, method, phase, events[0]);
        seq![action] + actions(config, method, after, events.drop_first())
    }
}

/// `admitted` is `request` as it enters its stages: with the path parameters
/// that the match granted in place of its own, where it granted some, and
/// otherwise untouched.
pub open spec fn is_admitted<H, M, E, D, T>(
    config: MarlaConfig<H, M, E, D>,
    request: Request<T>,
    admitted: Request<T>,
) -> bool {
    &&& admitted.id == request.id
    &&& admitted.method == request.method
    &&& admitted.path == request.path
    &&& admitted.head == request.head
    &&& strings_view(admitted.path_params@) == match granted_params(
        config,
        request.method@,
        request.path@,
    ) {
        Some(params) => params,
        None => strings_view(request.path_params@),
    }
}

enum Stage<'a, H, M> {
    Resolving,
    Running { chain: Option<&'a Vec<M>>, handler: &'a H, at: usize },
    Recovering,
    Finished,
}

impl<'a, H, M> Stage<'a, H, M> {
    spec fn phase(self) -> Phase<H, M> {
        match self {
            Stage::Resolving => Phase::Resolving,
            Stage::Running { chain, handler, at } => Phase::Running {
                chain: match chain {
                    Some(chain) => chain@,
                    None => Seq::empty(),
                },
                handler: *handler,
                at: at as nat,
            },
            Stage::Recovering => Phase::Recovering,
            Stage::Finished => Phase::Finished,
        }
    }
}

/// One request on its way through the configuration.
pub struct Dispatch<'a, H, M, E, D> {
    config: &'a MarlaConfig<H, M, E, D>,
    method: String,
    stage: Stage<'a, H, M>,
}

impl<'a, H, M, E, D> Dispatch<'a, H, M, E, D> {
    /// The configuration that serves the request.
    pub closed spec fn config(&self) -> MarlaConfig<H, M, E, D> {
        *self.config
    }

    /// The request's method.
    pub closed spec fn method(&self) -> Seq<char> {
        self.method@
    }

    /// Where the request stands.
    pub closed spec fn phase(&self) -> Phase<H, M> {
        self.stage.phase()
    }

    fn start<P>(config: &'a MarlaConfig<H, M, E, D>, route: &'a Route<H, M>, payload: P) -> (out: (
        Stage<'a, H, M>,
        Action<'a, H, M, E, D, P>,
    ))
        ensures
            (out.0.phase(), out.1) == start::<H, M, E, D, P>(*config, *route, payload),
    {
        let chain: &'a Vec<M> = match &route.middleware {
            Some(own) => own,
            None => &config.middleware,
        };
        let action = if chain.len() > 0 {
            Action::RunMiddleware(&chain[0], payload)
        } else {
            Action::RunHandler(&route.handler, payload)
        };
        (Stage::Running { chain: Some(chain), handler: &route.handler, at: 0 }, action)
    }

    fn fallback<P>(own: &'a Fallback<H>, provided: Provided, payload: P) -> (out: (
        Stage<'a, H, M>,
        Action<'a, H, M, E, D, P>,
    ))
        ensures
            (out.0.phase(), out.1) == fallback::<H, M, E, D, P>(*own, provided, payload),
    {
        match own {
            Fallback::Custom(handler) => (
                Stage::Running { chain: None, handler, at: 0 },
                Action::RunHandler(handler, payload),
            ),
            Fallback::Provided => (Stage::Finished, Action::Respond(provided)),
        }
    }

    fn recover<P>(config: &'a MarlaConfig<H, M, E, D>, recovering: bool) -> (out: (
        Stage<'a, H, M>,
        Action<'a, H, M, E, D, P>,
    ))
        ensures
            forall|phase: Phase<H, M>|
                recovering == (phase is Recovering) ==> (out.0.phase(), out.1) == #[trigger] recover::<
                    H,
                    M,
                    E,
                    D,
                    P,
                >(*config, phase),
    {
        match &config.internal_server_error_handler {
            Fallback::Custom(handler) => if recovering {
                (Stage::Finished, Action::Respond(Provided::InternalServerError))
            } else {
                (Stage::Recovering, Action::RunErrorHandler(handler))
            },
            Fallback::Provided => (
                Stage::Finished,
                Action::Respond(Provided::InternalServerError),
            ),
        }
    }

    fn routed<P>(
        config: &'a MarlaConfig<H, M, E, D>,
        method: &str,
        routes: &'a MethodMap<H, M>,
        payload: P,
    ) -> (out: (Stage<'a, H, M>, Action<'a, H, M, E, D, P>))
        ensures
            (out.0.phase(), out.1) == routed::<H, M, E, D, P>(*config, method@, *routes, payload),
    {
        match routes.get(method) {
            Some(route) => Self::start(config, route, payload),
            None => Self::fallback(
                &config.method_not_allowed_handler,
                Provided::MethodNotAllowed,
                payload,
            ),
        }
    }

    /// Takes up `request` and what travels with it: resolves its path, looks
    /// up its method, and says what is to be done first. The stage that runs
    /// first is given the request, with the path parameters that the match
    /// granted it, and `rest` as it came.
    pub fn begin<T, X>(config: &'a MarlaConfig<H, M, E, D>, request: Request<T>, rest: X) -> (out: (
        Dispatch<'a, H, M, E, D>,
        Action<'a, H, M, E, D, (Request<T>, X)>,
    ))
        ensures
            out.0.config() == *config,
            out.0.method() == request.method@,
            (out.0.phase(), out.1.decision()) == first_step::<H, M, E, D, ()>(
                *config,
                request.method@,
                request.path@,
                (),
            ),
            out.1.payload() matches Some((admitted, carried)) ==> carried == rest && is_admitted(
                *config,
                request,
                admitted,
            ),
    {
        let method = request.method.clone();
        let resolution = resolve(&config.routers, request.path.as_str());
        match resolution {
            Resolution::Static(routes) => {
                let (stage, action) = Self::routed(config, method.as_str(), routes, (request, rest));
                (Dispatch { config, method, stage }, action)
            },
            Resolution::Pattern(routes, groups) => {
                if routes.get(method.as_str()).is_some() {
                    match path_params(&groups) {
                        Some(params) => {
                            let (stage, action) = Self::routed(
                                config,
                                method.as_str(),
                                routes,
                                (request.with_path_params(params), rest),
                            );
                            (Dispatch { config, method, stage }, action)
                        },
                        None => {
                            let (stage, action) = Self::recover(config, false);
                            assert((stage.phase(), action) == recover::<
                                H,
                                M,
                                E,
                                D,
                                (Request<T>, X),
                            >(*config, Phase::Resolving));
                            (Dispatch { config, method, stage }, action)
                        },
                    }
                } else {
                    let (stage, action) = Self::routed(
                        config,
                        method.as_str(),
                        routes,
                        (request, rest),
                    );
                    (Dispatch { config, method, stage }, action)
                }
            },
            Resolution::Dynamic(resolver) => (
                Dispatch { config, method, stage: Stage::Resolving },
                Action::Resolve(resolver, (request, rest)),
            ),
            Resolution::NotFound => {
                let (stage, action) = Self::fallback(
                    &config.not_found_handler,
                    Provided::NotFound,
                    (request, rest),
                );
                (Dispatch { config, method, stage }, action)
            },
        }
    }

    /// Whether the request is over.
    pub fn is_finished(&self) -> (finished: bool)
        ensures
            finished == (self.phase() is Finished),
    {
        match self.stage {
            Stage::Finished => true,
            _ => false,
        }
    }

    /// Takes what came of the last stage and says what is to be done next.
    pub fn step<P>(&mut self, event: Event<'a, H, M, P>) -> (action: Action<'a, H, M, E, D, P>)
        ensures
            final(self).config() == old(self).config(),
            final(self).method() == old(self).method(),
            (final(self).phase(), action) == next::<H, M, E, D, P>(
                old(self).config(),
                old(self).method(),
                old(self).phase(),
                event,
            ),
    {
        let config: &'a MarlaConfig<H, M, E, D> = self.config;
        let ghost before = self.stage.phase();
        let (stage, action) = match self.stage {
            Stage::Finished => (Stage::Finished, Action::Finish),
            Stage::Resolving => match event {
                Event::Resolved(Some(routes), payload) => Self::routed(
                    config,
                    self.method.as_str(),
                    routes,
                    payload,
                ),
                Event::Resolved(None, payload) => Self::fallback(
                    &config.not_found_handler,
                    Provided::NotFound,
                    payload,
                ),
                _ => {
                    let out = Self::recover(config, false);
                    assert((out.0.phase(), out.1) == recover::<H, M, E, D, P>(*config, before));
                    out
                },
            },
            Stage::Running { chain, handler, at } => match event {
                Event::Continued(payload) => match chain {
                    Some(list) => if at < list.len() {
                        let action = if at + 1 < list.len() {
                            Action::RunMiddleware(&list[at + 1], payload)
                        } else {
                            Action::RunHandler(handler, payload)
                        };
                        (Stage::Running { chain, handler, at: at + 1 }, action)
                    } else {
                        let out = Self::recover(config, false);
                        assert((out.0.phase(), out.1) == recover::<H, M, E, D, P>(*config, before));
                        out
                    },
                    None => {
                        let out = Self::recover(config, false);
                        assert((out.0.phase(), out.1) == recover::<H, M, E, D, P>(*config, before));
                        out
                    },
                },
                Event::Responded => (Stage::Finished, Action::Finish),
                _ => {
                    let out = Self::recover(config, false);
                    assert((out.0.phase(), out.1) == recover::<H, M, E, D, P>(*config, before));
                    out
                },
            },
            Stage::Recovering => match event {
                Event::Responded => (Stage::Finished, Action::Finish),
                _ => {
                    let out = Self::recover(config, true);
                    assert((out.0.phase(), out.1) == recover::<H, M, E, D, P>(*config, before));
                    out
                },
            },
        };
        self.stage = stage;
        action
    }
}

/// A path that a static table knows is settled by that table alone: two
/// configurations that agree on what their static tables offer for the path
/// decide alike, whatever patterns and resolvers they hold, and no resolver
/// is asked.
pub proof fn lemma_static_table_decides<'a, H, M, E, D, P>(
    config: MarlaConfig<H, M, E, D>,
    other: MarlaConfig<H, M, E, D>,
    method: Seq<char>,
    path: Seq<char>,
    payload: P,
)
    requires
        static_lookup(config.routers@, path) is Some,
        static_lookup(other.routers@, path) == static_lookup(config.routers@, path),
        other.middleware@ == config.middleware@,
        other.method_not_allowed_handler == config.method_not_allowed_handler,
    ensures
        first_step::<H, M, E, D, P>(config, method, path, payload) == routed::<H, M, E, D, P>(
            config,
            method,
            static_lookup(config.routers@, path).unwrap(),
            payload,
        ),
        first_step::<H, M, E, D, P>(other, method, path, payload) == first_step::<H, M, E, D, P>(
            config,
            method,
            path,
            payload,
        ),
        !(first_step::<H, M, E, D, P>(config, method, path, payload).1 is Resolve),
        granted_params(config, method, path) is None,
{
}

/// A request that a pattern route serves is given exactly the capture groups
/// of that pattern's match, without the whole match and in their order,
/// however many patterns that do not match stand before it.
pub proof fn lemma_params_are_captures<H, M, E, D>(
    config: MarlaConfig<H, M, E, D>,
    method: Seq<char>,
    path: Seq<char>,
    r: int,
    i: int,
)
    requires
        static_lookup(config.routers@, path) is None,
        0 <= r < config.routers@.len(),
        0 <= i < patterns(config.routers@[r]).len(),
        patterns(config.routers@[r])[i].matches(path),
        patterns(config.routers@[r])[i].routes@.contains_key(method),
        forall|j: int| 0 <= j < i ==> !(#[trigger] patterns(config.routers@[r])[j]).matches(path),
        forall|q: int|
            0 <= q < r ==> match_route(patterns(#[trigger] config.routers@[q]), path) is None,
    ensures
        granted_params(config, method, path) == params_of(
            captures_of(patterns(config.routers@[r])[i].regex, path).unwrap(),
        ),
{
    lemma_first_match_is_chosen(patterns(config.routers@[r]), path, i);
    lemma_first_router_is_chosen(config.routers@, path, r);
}

/// A path that a static table or a pattern knows, asked for with a method
/// that its routes do not offer, is answered as a method that is not allowed:
/// it is not answered as a path that was not found, and no resolver is asked.
pub proof fn lemma_unknown_method_is_not_allowed<'a, H, M, E, D, P>(
    config: MarlaConfig<H, M, E, D>,
    method: Seq<char>,
    path: Seq<char>,
    routes: MethodMap<H, M>,
    payload: P,
)
    requires
        static_lookup(config.routers@, path) == Some(routes) || (static_lookup(
            config.routers@,
            path,
        ) is None && pattern_lookup(config.routers@, path) is Some && pattern_lookup(
            config.routers@,
            path,
        ).unwrap().routes == routes),
        !routes@.contains_key(method),
    ensures
        first_step::<H, M, E, D, P>(config, method, path, payload) == fallback::<H, M, E, D, P>(
            config.method_not_allowed_handler,
            Provided::MethodNotAllowed,
            payload,
        ),
        !(first_step::<H, M, E, D, P>(config, method, path, payload).1 is Resolve),
        first_step::<H, M, E, D, P>(config, method, path, payload).1 != Action::<
            H,
            M,
            E,
            D,
            P,
        >::Respond(Provided::NotFound),
{
}

/// The dynamic resolver is asked at most once for a request: no event leads
/// to asking it, and none leads back to waiting for it.
pub proof fn lemma_resolver_is_asked_once<'a, H, M, E, D, P>(
    config: MarlaConfig<H, M, E, D>,
    method: Seq<char>,
    phase: Phase<H, M>,
    event: Event<'a, H, M, P>,
)
    ensures
        !(next::<H, M, E, D, P>(config, method, phase, event).0 is Resolving),
        !(next::<H, M, E, D, P>(config, method, phase, event).1 is Resolve),
{
}

/// What a middleware hands on is what the next stage of its chain is given,
/// and that stage is the one that stands behind the middleware.
pub proof fn lemma_chain_hands_on<'a, H, M, E, D, P>(
    config: MarlaConfig<H, M, E, D>,
    method: Seq<char>,
    chain: Seq<M>,
    handler: H,
    at: nat,
    payload: P,
)
    requires
        at < chain.len(),
    ensures
        ({
            let (after, action) = next::<H, M, E, D, P>(
                config,
                method,
                Phase::Running { chain, handler, at },
                Event::Continued(payload),
            );
            &&& after == Phase::Running { chain, handler, at: at + 1 }
            &&& action.payload() == Some(payload)
            &&& at + 1 < chain.len() ==> action == Action::<H, M, E, D, P>::RunMiddleware(
                &chain[at as int + 1],
                payload,
            )
            &&& at + 1 == chain.len() ==> action == Action::<H, M, E, D, P>::RunHandler(
                &handler,
                payload,
            )
        }),
{
}

/// Once a middleware or a handler has produced the response, nothing runs any
/// more: whatever is reported afterwards, the request is over.
pub proof fn lemma_response_ends_request<'a, H, M, E, D, P>(
    config: MarlaConfig<H, M, E, D>,
    method: Seq<char>,
    phase: Phase<H, M>,
    events: Seq<Event<'a, H, M, P>>,
)
    requires
        phase is Running || phase is Recovering || phase is Finished,
        events.len() > 0,
        events[0] is Responded,
    ensures
        actions::<H, M, E, D, P>(config, method, phase, events).len() == events.len(),
        forall|i: int|
            0 <= i < events.len() ==> #[trigger] actions::<H, M, E, D, P>(
                config,
                method,
                phase,
                events,
            )[i] == Action::<H, M, E, D, P>::Finish,
{
    lemma_finished_stays_finished::<H, M, E, D, P>(config, method, events.drop_first());
}

/// A request that is over draws no action but `Finish`.
pub proof fn lemma_finished_stays_finished<'a, H, M, E, D, P>(
    config: MarlaConfig<H, M, E, D>,
    method: Seq<char>,
    events: Seq<Event<'a, H, M, P>>,
)
    ensures
        actions::<H, M, E, D, P>(config, method, Phase::Finished, events).len() == events.len(),
        forall|i: int|
            0 <= i < events.len() ==> #[trigger] actions::<H, M, E, D, P>(
                config,
                method,
                Phase::Finished,
                events,
            )[i] == Action::<H, M, E, D, P>::Finish,
    decreases events.len(),
{
    if events.len() > 0 {
        lemma_finished_stays_finished::<H, M, E, D, P>(config, method, events.drop_first());
    }
}

/// An action that runs nothing of the routes: the handler for faults, the
/// provided response to a fault, or the end of the request.
pub open spec fn answers_fault<'a, H, M, E, D, P>(
    config: MarlaConfig<H, M, E, D>,
    action: Action<'a, H, M, E, D, P>,
) -> bool {
    ||| action == Action::<H, M, E, D, P>::Respond(Provided::InternalServerError)
    ||| action == Action::<H, M, E, D, P>::Finish
    ||| config.internal_server_error_handler matches Fallback::Custom(handler) && action
        == Action::<H, M, E, D, P>::RunErrorHandler(&handler)
}

/// A fault in the resolver, in a middleware or in a handler is answered with
/// the configuration's handler for faults or, where there is none, with the
/// provided response; a fault in that handler with the provided response.
/// After a fault no middleware and no handler of a route runs, whatever is
/// reported.
pub proof fn lemma_fault_is_answered<'a, H, M, E, D, P>(
    config: MarlaConfig<H, M, E, D>,
    method: Seq<char>,
    phase: Phase<H, M>,
    events: Seq<Event<'a, H, M, P>>,
)
    requires
        !(phase is Finished),
        events.len() > 0,
        events[0] is Faulted,
    ensures
        next::<H, M, E, D, P>(config, method, phase, events[0]) == recover::<H, M, E, D, P>(
            config,
            phase,
        ),
        !(actions::<H, M, E, D, P>(config, method, phase, events)[0] is Finish),
        actions::<H, M, E, D, P>(config, method, phase, events).len() == events.len(),
        forall|i: int|
            0 <= i < events.len() ==> answers_fault(
                config,
                #[trigger] actions::<H, M, E, D, P>(config, method, phase, events)[i],
            ),
{
    let (after, action) = next::<H, M, E, D, P>(config, method, phase, events[0]);
    lemma_recovery_runs_no_route::<H, M, E, D, P>(config, method, after, events.drop_first());
}

/// While the handler for faults runs, and when the request is over, no
/// middleware and no handler of a route runs.
pub proof fn lemma_recovery_runs_no_route<'a, H, M, E, D, P>(
    config: MarlaConfig<H, M, E, D>,
    method: Seq<char>,
    phase: Phase<H, M>,
    events: Seq<Event<'a, H, M, P>>,
)
    requires
        phase is Finished || (phase is Recovering
            && config.internal_server_error_handler is Custom),
    ensures
        actions::<H, M, E, D, P>(config, method, phase, events).len() == events.len(),
        forall|i: int|
            0 <= i < events.len() ==> answers_fault(
                config,
                #[trigger] actions::<H, M, E, D, P>(config, method, phase, events)[i],
            ),
    decreases events.len(),
{
    if events.len() > 0 {
        let (after, action) = next::<H, M, E, D, P>(config, method, phase, events[0]);
        lemma_recovery_runs_no_route::<H, M, E, D, P>(config, method, after, events.drop_first());
    }
}

} // verus!
