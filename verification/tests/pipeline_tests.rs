use marla::config::{ListenAddr, MarlaConfig, MarlaConfigBuilder, Route};
use marla::dispatch::{Action, Dispatch, Event};
use marla::provided::error_handlers::Provided;
use marla::request::Request;
use marla::response::Response;
use marla::routing::{MethodMap, Router};
use marla::table::Table;

type Trace = Vec<&'static str>;
type Handler = fn(&Request<()>, &mut Trace) -> Result<Response, ()>;
type Middleware = fn(&mut Request<()>, &mut Trace) -> Result<Option<Response>, ()>;
type ErrorHandler = fn(&mut Trace) -> Result<Response, ()>;
type Resolver = fn(&str, &mut Trace) -> Result<Option<MethodMap<Handler, Middleware>>, ()>;
type Config = MarlaConfig<Handler, Middleware, ErrorHandler, Resolver>;
type Builder = MarlaConfigBuilder<Handler, Middleware, ErrorHandler, Resolver>;

type Payload = (Request<()>, u8);

fn serve_one(config: &Config, method: &str, path: &str, trace: &mut Trace) -> Response {
    let request = Request::new(method.to_string(), path.to_string(), ());
    let (mut dispatch, mut action) = Dispatch::begin(config, request, 0u8);
    let resolved;
    if let Action::Resolve(resolver, payload) = action {
        action = match resolver(path, trace) {
            Ok(answer) => {
                resolved = answer;
                dispatch.step(Event::Resolved(resolved.as_ref(), payload))
            }
            Err(()) => dispatch.step(Event::Faulted),
        };
    }
    let mut response = None;
    loop {
        let event = match action {
            Action::Resolve(_, _) => Event::Faulted,
            Action::RunMiddleware(middleware, (mut request, rest)) => {
                match middleware(&mut request, trace) {
                    Ok(Some(early)) => {
                        response = Some(early);
                        Event::Responded
                    }
                    Ok(None) => Event::Continued((request, rest + 1)),
                    Err(()) => Event::Faulted,
                }
            }
            Action::RunHandler(handler, (mut request, rest)) => {
                request.path_params.push(format!("{}", rest));
                match handler(&request, trace) {
                    Ok(done) => {
                        response = Some(done);
                        Event::Responded
                    }
                    Err(()) => Event::Faulted,
                }
            }
            Action::RunErrorHandler(handler) => match handler(trace) {
                Ok(done) => {
                    response = Some(done);
                    Event::Responded
                }
                Err(()) => Event::Faulted,
            },
            Action::Respond(provided) => {
                assert!(dispatch.is_finished());
                return provided.response();
            }
            Action::Finish => {
                assert!(dispatch.is_finished());
                return response.unwrap();
            }
        };
        action = dispatch.step(event);
    }
}

fn begin<'a>(
    config: &'a Config,
    path: &str,
) -> (
    Dispatch<'a, Handler, Middleware, ErrorHandler, Resolver>,
    Action<'a, Handler, Middleware, ErrorHandler, Resolver, Payload>,
) {
    Dispatch::begin(config, Request::new("GET".to_string(), path.to_string(), ()), 0u8)
}

fn terminal(_request: &Request<()>, trace: &mut Trace) -> Result<Response, ()> {
    trace.push("terminal");
    Ok(Response::new(200, "done\n"))
}

fn broken(_request: &Request<()>, trace: &mut Trace) -> Result<Response, ()> {
    trace.push("broken");
    Err(())
}

fn teapot(_request: &mut Request<()>, trace: &mut Trace) -> Result<Option<Response>, ()> {
    trace.push("teapot");
    Ok(Some(Response::new(418, "teapot\n")))
}

fn one(request: &mut Request<()>, trace: &mut Trace) -> Result<Option<Response>, ()> {
    trace.push("one");
    request.path_params.push("one".to_string());
    Ok(None)
}

fn two(request: &mut Request<()>, trace: &mut Trace) -> Result<Option<Response>, ()> {
    trace.push("two");
    request.path_params.push("two".to_string());
    Ok(None)
}

fn faulty(_request: &mut Request<()>, trace: &mut Trace) -> Result<Option<Response>, ()> {
    trace.push("faulty");
    Err(())
}

fn seen(request: &Request<()>, trace: &mut Trace) -> Result<Response, ()> {
    trace.push("seen");
    Ok(Response::new(200, &request.path_params.join(",")))
}

fn sorry(trace: &mut Trace) -> Result<Response, ()> {
    trace.push("sorry");
    Ok(Response::new(500, "sorry\n"))
}

fn hopeless(trace: &mut Trace) -> Result<Response, ()> {
    trace.push("hopeless");
    Err(())
}

fn failing_resolver(
    _path: &str,
    trace: &mut Trace,
) -> Result<Option<MethodMap<Handler, Middleware>>, ()> {
    trace.push("resolver");
    Err(())
}

fn builder() -> Builder {
    MarlaConfig::builder(ListenAddr::V4([127, 0, 0, 1], 3000))
}

fn table(entries: Vec<(&str, Route<Handler, Middleware>)>) -> Router<Handler, Middleware, Resolver> {
    let mut table = Table::new();
    for (path, route) in entries {
        let mut methods = Table::new();
        methods.insert("GET".to_string(), route);
        table.insert(path.to_string(), methods);
    }
    Router::Static(table)
}

#[test]
fn early_response_stops_the_chain() {
    let config = builder()
        .add_middleware(teapot)
        .add_middleware(one)
        .add_router(table(vec![("/tea", Route::new(terminal as Handler))]))
        .build();
    let mut trace = Trace::new();
    let response = serve_one(&config, "GET", "/tea", &mut trace);
    assert_eq!(response.status, 418);
    assert_eq!(response.body, "teapot\n");
    assert_eq!(trace, vec!["teapot"]);
}

#[test]
fn early_response_in_the_middle_stops_the_rest() {
    let config = builder()
        .add_middleware(one)
        .add_middleware(teapot)
        .add_middleware(two)
        .add_router(table(vec![("/tea", Route::new(terminal as Handler))]))
        .build();
    let mut trace = Trace::new();
    let response = serve_one(&config, "GET", "/tea", &mut trace);
    assert_eq!(response.status, 418);
    assert_eq!(trace, vec!["one", "teapot"]);
}

#[test]
fn middleware_runs_in_order_and_hands_the_request_on() {
    let config = builder()
        .add_middleware(one)
        .add_middleware(two)
        .add_router(table(vec![("/seen", Route::new(seen as Handler))]))
        .build();
    let mut trace = Trace::new();
    let response = serve_one(&config, "GET", "/seen", &mut trace);
    assert_eq!(response.status, 200);
    assert_eq!(response.body, "one,two,2");
    assert_eq!(trace, vec!["one", "two", "seen"]);
}

#[test]
fn route_middleware_replaces_the_global_chain() {
    let own = Route { handler: seen as Handler, middleware: Some(vec![two as Middleware]) };
    let bare = Route { handler: seen as Handler, middleware: Some(vec![]) };
    let config = builder()
        .add_middleware(one)
        .add_router(table(vec![
            ("/own", own),
            ("/bare", bare),
            ("/global", Route::new(seen as Handler)),
        ]))
        .build();
    let mut trace = Trace::new();
    assert_eq!(serve_one(&config, "GET", "/own", &mut trace).body, "two,1");
    assert_eq!(trace, vec!["two", "seen"]);
    let mut trace = Trace::new();
    assert_eq!(serve_one(&config, "GET", "/bare", &mut trace).body, "0");
    assert_eq!(trace, vec!["seen"]);
    let mut trace = Trace::new();
    assert_eq!(serve_one(&config, "GET", "/global", &mut trace).body, "one,1");
    assert_eq!(trace, vec!["one", "seen"]);
}

#[test]
fn fallbacks_bypass_middleware() {
    let config = builder()
        .add_middleware(teapot)
        .add_router(table(vec![("/tea", Route::new(terminal as Handler))]))
        .build();
    let mut trace = Trace::new();
    assert_eq!(serve_one(&config, "GET", "/coffee", &mut trace).status, 404);
    assert_eq!(serve_one(&config, "POST", "/tea", &mut trace).status, 405);
    assert!(trace.is_empty());
}

#[test]
fn fault_in_the_handler_is_an_internal_server_error() {
    let config = builder()
        .add_middleware(one)
        .add_router(table(vec![
            ("/broken", Route::new(broken as Handler)),
            ("/fine", Route::new(terminal as Handler)),
        ]))
        .build();
    let mut trace = Trace::new();
    let response = serve_one(&config, "GET", "/broken", &mut trace);
    assert_eq!(response.status, 500);
    assert_eq!(response.body, "internal server error\n");
    assert_eq!(trace, vec!["one", "broken"]);

    let mut trace = Trace::new();
    let response = serve_one(&config, "GET", "/fine", &mut trace);
    assert_eq!((response.status, response.body.as_str()), (200, "done\n"));
    assert_eq!(trace, vec!["one", "terminal"]);
}

#[test]
fn fault_in_a_middleware_is_an_internal_server_error() {
    let config = builder()
        .add_middleware(one)
        .add_middleware(faulty)
        .add_middleware(two)
        .add_router(table(vec![("/fine", Route::new(terminal as Handler))]))
        .build();
    let mut trace = Trace::new();
    let response = serve_one(&config, "GET", "/fine", &mut trace);
    assert_eq!(response.status, 500);
    assert_eq!(response.body, "internal server error\n");
    assert_eq!(trace, vec!["one", "faulty"]);
}

#[test]
fn requests_in_flight_do_not_touch_each_other() {
    let config = builder()
        .add_router(table(vec![
            ("/broken", Route::new(broken as Handler)),
            ("/fine", Route::new(terminal as Handler)),
        ]))
        .build();
    let (mut good_dispatch, good_action) = begin(&config, "/fine");
    let (mut bad_dispatch, bad_action) = begin(&config, "/broken");
    assert!(matches!(good_action, Action::RunHandler(_, _)));
    assert!(matches!(bad_action, Action::RunHandler(_, _)));
    assert!(matches!(
        bad_dispatch.step::<Payload>(Event::Faulted),
        Action::Respond(Provided::InternalServerError)
    ));
    assert!(bad_dispatch.is_finished());
    assert!(!good_dispatch.is_finished());
    assert!(matches!(good_dispatch.step::<Payload>(Event::Responded), Action::Finish));
    assert!(good_dispatch.is_finished());
}

#[test]
fn next_stage_is_given_what_the_last_handed_on() {
    let config = builder()
        .add_middleware(one)
        .add_middleware(two)
        .add_router(table(vec![("/fine", Route::new(terminal as Handler))]))
        .build();
    let (mut dispatch, action) = begin(&config, "/fine");
    let (request, rest) = match action {
        Action::RunMiddleware(_, payload) => payload,
        _ => panic!("the first middleware runs first"),
    };
    assert_eq!(rest, 0);
    let id = request.id;
    let handed = request.with_path_params(vec!["changed".to_string()]);
    let (request, rest) = match dispatch.step(Event::Continued((handed, 41u8))) {
        Action::RunMiddleware(_, payload) => payload,
        _ => panic!("the second middleware runs second"),
    };
    assert_eq!((request.id, rest), (id, 41));
    assert_eq!(request.path_params, vec!["changed".to_string()]);
    let (request, rest) = match dispatch.step(Event::Continued((request, 42u8))) {
        Action::RunHandler(_, payload) => payload,
        _ => panic!("the handler runs last"),
    };
    assert_eq!((request.id, rest), (id, 42));
    assert_eq!(request.path_params, vec!["changed".to_string()]);
    assert!(matches!(dispatch.step::<Payload>(Event::Responded), Action::Finish));
}

#[test]
fn own_handler_for_faults_answers_a_fault() {
    let config = builder()
        .set_internal_server_error_handler(sorry)
        .add_router(table(vec![("/broken", Route::new(broken as Handler))]))
        .build();
    let mut trace = Trace::new();
    let response = serve_one(&config, "GET", "/broken", &mut trace);
    assert_eq!((response.status, response.body.as_str()), (500, "sorry\n"));
    assert_eq!(trace, vec!["broken", "sorry"]);
}

#[test]
fn fault_in_the_handler_for_faults_gets_the_provided_response() {
    let config = builder()
        .set_internal_server_error_handler(hopeless)
        .add_router(table(vec![("/broken", Route::new(broken as Handler))]))
        .build();
    let mut trace = Trace::new();
    let response = serve_one(&config, "GET", "/broken", &mut trace);
    assert_eq!((response.status, response.body.as_str()), (500, "internal server error\n"));
    assert_eq!(trace, vec!["broken", "hopeless"]);
}

#[test]
fn fault_in_the_resolver_is_an_internal_server_error() {
    let config = builder().add_router(Router::Dynamic(failing_resolver as Resolver)).build();
    let mut trace = Trace::new();
    let response = serve_one(&config, "GET", "/anything", &mut trace);
    assert_eq!(response.status, 500);
    assert_eq!(trace, vec!["resolver"]);
}

#[test]
fn event_out_of_turn_is_answered_as_a_fault() {
    let config = builder()
        .add_router(Router::Dynamic(failing_resolver as Resolver))
        .add_router(table(vec![("/fine", Route::new(terminal as Handler))]))
        .build();

    let (mut dispatch, action) = begin(&config, "/fine");
    let payload = match action {
        Action::RunHandler(_, payload) => payload,
        _ => panic!("the handler runs first"),
    };
    assert!(matches!(
        dispatch.step(Event::Continued(payload)),
        Action::Respond(Provided::InternalServerError)
    ));

    let (mut dispatch, action) = begin(&config, "/fine");
    let payload = match action {
        Action::RunHandler(_, payload) => payload,
        _ => panic!("the handler runs first"),
    };
    assert!(matches!(
        dispatch.step(Event::Resolved(None, payload)),
        Action::Respond(Provided::InternalServerError)
    ));

    let (mut dispatch, action) = begin(&config, "/other");
    assert!(matches!(action, Action::Resolve(_, _)));
    assert!(!dispatch.is_finished());
    assert!(matches!(
        dispatch.step::<Payload>(Event::Responded),
        Action::Respond(Provided::InternalServerError)
    ));
    assert!(dispatch.is_finished());
}

#[test]
fn finished_request_stays_finished() {
    let config =
        builder().add_router(table(vec![("/fine", Route::new(terminal as Handler))])).build();
    let (mut dispatch, action) = begin(&config, "/fine");
    let payload = match action {
        Action::RunHandler(_, payload) => payload,
        _ => panic!("the handler runs first"),
    };
    assert!(matches!(dispatch.step::<Payload>(Event::Responded), Action::Finish));
    assert!(matches!(dispatch.step(Event::Continued(payload)), Action::Finish));
    assert!(matches!(dispatch.step::<Payload>(Event::Faulted), Action::Finish));
    assert!(matches!(dispatch.step::<Payload>(Event::Responded), Action::Finish));
    assert!(dispatch.is_finished());
}
