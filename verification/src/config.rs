//! The configuration: routers, middleware, listen address and fallbacks.

use crate::routing::Router;
use vstd::prelude::*;

verus! {

/// A handler bound to one method of one path, with the middleware that runs
/// before it when the route does not want the configuration's own.
pub struct Route<H, M> {
    pub handler: H,
    pub middleware: Option<Vec<M>>,
}

impl<H, M> Route<H, M> {
    /// A route that runs the configuration's middleware before `handler`.
    pub fn new(handler: H) -> (route: Route<H, M>)
        ensures
            route.handler == handler,
            route.middleware is None,
    {
        Route { handler, middleware: None }
    }

    /// The middleware that runs before this route's handler: the route's own
    /// list where it has one, else `global`.
    pub open spec fn chain(self, global: Seq<M>) -> Seq<M> {
        match self.middleware {
            Some(own) => own@,
            None => global,
        }
    }
}

/// The parts of a route, for callers that assemble one field by field.
pub struct RouteBuilder<H, M> {
    pub handler: H,
    pub middleware: Option<Vec<M>>,
}

/// The address to listen on, as plain numbers.
#[derive(Clone, Copy, Debug, PartialEq, Eq)]
pub enum ListenAddr {
    /// Four octets and a port.
    V4([u8; 4], u16),
    /// Eight segments and a port.
    V6([u16; 8], u16),
}

/// A fallback handler: the provided one, or the configuration's own.
pub enum Fallback<F> {
    /// The response that the core provides for the case.
    Provided,
    /// The handler that the configuration names for the case.
    Custom(F),
}

/// Everything a listener needs to serve requests. It is built once and read
/// by every request.
pub struct MarlaConfig<H, M, E, D> {
    pub routers: Vec<Router<H, M, D>>,
    pub middleware: Vec<M>,
    pub listen_addr: ListenAddr,
    pub not_found_handler: Fallback<H>,
    pub method_not_allowed_handler: Fallback<H>,
    pub internal_server_error_handler: Fallback<E>,
}

impl<H, M, E, D> MarlaConfig<H, M, E, D> {
    /// A builder with no router, no middleware and no handler set.
    pub fn builder(listen_addr: ListenAddr) -> (builder: MarlaConfigBuilder<H, M, E, D>)
        ensures
            builder.routers@.len() == 0,
            builder.middleware@.len() == 0,
            builder.listen_addr == listen_addr,
            builder.not_found_handler is None,
            builder.method_not_allowed_handler is None,
            builder.internal_server_error_handler is None,
    {
        MarlaConfigBuilder {
            routers: Vec::new(),
            middleware: Vec::new(),
            listen_addr,
            not_found_handler: None,
            method_not_allowed_handler: None,
            internal_server_error_handler: None,
        }
    }
}

/// A configuration under construction.
pub struct MarlaConfigBuilder<H, M, E, D> {
    pub routers: Vec<Router<H, M, D>>,
    pub middleware: Vec<M>,
    pub listen_addr: ListenAddr,
    pub not_found_handler: Option<H>,
    pub method_not_allowed_handler: Option<H>,
    pub internal_server_error_handler: Option<E>,
}

/// The fallback that a builder's slot stands for.
pub open spec fn fallback_of<F>(slot: Option<F>) -> Fallback<F> {
    match slot {
        Some(handler) => Fallback::Custom(handler),
        None => Fallback::Provided,
    }
}

impl<H, M, E, D> MarlaConfigBuilder<H, M, E, D> {
    /// Registers `router` behind the routers registered so far.
    pub fn add_router(self, router: Router<H, M, D>) -> (builder: MarlaConfigBuilder<H, M, E, D>)
        ensures
            builder.routers@ == self.routers@.push(router),
            builder.middleware == self.middleware,
            builder.listen_addr == self.listen_addr,
            builder.not_found_handler == self.not_found_handler,
            builder.method_not_allowed_handler == self.method_not_allowed_handler,
            builder.internal_server_error_handler == self.internal_server_error_handler,
    {
        let mut builder = self;
        builder.routers.push(router);
        builder
    }

    /// Registers `middleware` behind the middleware registered so far.
    pub fn add_middleware(self, middleware: M) -> (builder: MarlaConfigBuilder<H, M, E, D>)
        ensures
            builder.middleware@ == self.middleware@.push(middleware),
            builder.routers == self.routers,
            builder.listen_addr == self.listen_addr,
            builder.not_found_handler == self.not_found_handler,
            builder.method_not_allowed_handler == self.method_not_allowed_handler,
            builder.internal_server_error_handler == self.internal_server_error_handler,
    {
        let mut builder = self;
        builder.middleware.push(middleware);
        builder
    }

    /// Sets the handler for paths that no router resolves.
    pub fn set_not_found_handler(self, handler: H) -> (builder: MarlaConfigBuilder<H, M, E, D>)
        ensures
            builder.not_found_handler == Some(handler),
            builder.routers == self.routers,
            builder.middleware == self.middleware,
            builder.listen_addr == self.listen_addr,
            builder.method_not_allowed_handler == self.method_not_allowed_handler,
            builder.internal_server_error_handler == self.internal_server_error_handler,
    {
        let mut builder = self;
        builder.not_found_handler = Some(handler);
        builder
    }

    /// Sets the handler for methods that a resolved path does not offer.
    pub fn set_method_not_allowed_handler(self, handler: H) -> (builder: MarlaConfigBuilder<
        H,
        M,
        E,
        D,
    >)
        ensures
            builder.method_not_allowed_handler == Some(handler),
            builder.routers == self.routers,
            builder.middleware == self.middleware,
            builder.listen_addr == self.listen_addr,
            builder.not_found_handler == self.not_found_handler,
            builder.internal_server_error_handler == self.internal_server_error_handler,
    {
        let mut builder = self;
        builder.method_not_allowed_handler = Some(handler);
        builder
    }

    /// Sets the handler that answers after a fault.
    pub fn set_internal_server_error_handler(self, handler: E) -> (builder: MarlaConfigBuilder<
        H,
        M,
        E,
        D,
    >)
        ensures
            builder.internal_server_error_handler == Some(handler),
            builder.routers == self.routers,
            builder.middleware == self.middleware,
            builder.listen_addr == self.listen_addr,
            builder.not_found_handler == self.not_found_handler,
            builder.method_not_allowed_handler == self.method_not_allowed_handler,
    {
        let mut builder = self;
        builder.internal_server_error_handler = Some(handler);
        builder
    }

    /// The finished configuration: what was registered, in the order of
    /// registration, and for each handler left unset the provided one.
    pub fn build(self) -> (config: MarlaConfig<H, M, E, D>)
        ensures
            config.routers == self.routers,
            config.middleware == self.middleware,
            config.listen_addr == self.listen_addr,
            config.not_found_handler == fallback_of(self.not_found_handler),
            config.method_not_allowed_handler == fallback_of(self.method_not_allowed_handler),
            config.internal_server_error_handler == fallback_of(
                self.internal_server_error_handler,
            ),
    {
        MarlaConfig {
            routers: self.routers,
            middleware: self.middleware,
            listen_addr: self.listen_addr,
            not_found_handler: match self.not_found_handler {
                Some(handler) => Fallback::Custom(handler),
                None => Fallback::Provided,
            },
            method_not_allowed_handler: match self.method_not_allowed_handler {
                Some(handler) => Fallback::Custom(handler),
                None => Fallback::Provided,
            },
            internal_server_error_handler: match self.internal_server_error_handler {
                Some(handler) => Fallback::Custom(handler),
                None => Fallback::Provided,
            },
        }
    }
}

} // verus!
