//! The decisions of one connection: which route a request takes, what has to
//! be done for it, and how the answer is finished.

use vstd::prelude::*;
use vstd::string::*;
use crate::handlers::{
    accepts_gzip, echo_response, get_echo_response, get_root_response, get_user_agent_response,
    root_response, trim_start, trim_start_matches, user_agent_response, wants_gzip,
};
use crate::method::Method;
use crate::request::{Request, RequestView};
use crate::response::Response;
use crate::response_builder::{fresh, BuilderView, ResponseBuilder};
use crate::status_code::StatusCode;
use crate::text::{chars_of, matches_at, occurs_at, str_eq};

verus! {

/// Where a request goes.
#[derive(Debug)]
pub enum Route {
    /// `GET /`.
    Root,
    /// `GET /user-agent`.
    UserAgent,
    /// `GET /echo/<text>`, with the text.
    Echo(String),
    /// `GET /files/<name>`, with the name.
    ReadFile(String),
    /// `POST /files/<name>`, with the name.
    WriteFile(String),
    /// Everything else.
    NotFound,
}

/// What a route holds.
pub enum RouteView {
    Root,
    UserAgent,
    Echo(Seq<char>),
    ReadFile(Seq<char>),
    WriteFile(Seq<char>),
    NotFound,
}

impl View for Route {
    type V = RouteView;

    open spec fn view(&self) -> RouteView {
        match self {
            Route::Root => RouteView::Root,
            Route::UserAgent => RouteView::UserAgent,
            Route::Echo(text) => RouteView::Echo(text@),
            Route::ReadFile(name) => RouteView::ReadFile(name@),
            Route::WriteFile(name) => RouteView::WriteFile(name@),
            Route::NotFound => RouteView::NotFound,
        }
    }
}

/// The route of a request with this method and this target.
pub open spec fn route_of(method: Method, uri: Seq<char>) -> RouteView {
    if method == Method::Get && uri == "/"@ {
        RouteView::Root
    } else if method == Method::Get && uri == "/user-agent"@ {
        RouteView::UserAgent
    } else if method == Method::Get && occurs_at(uri, "/echo/"@, 0) {
        RouteView::Echo(trim_start(uri, "/echo/"@))
    } else if method == Method::Get && occurs_at(uri, "/files/"@, 0) {
        RouteView::ReadFile(trim_start(uri, "/files/"@))
    } else if method == Method::Post && occurs_at(uri, "/files/"@, 0) {
        RouteView::WriteFile(trim_start(uri, "/files/"@))
    } else {
        RouteView::NotFound
    }
}

/// Whether `s` starts with `prefix`.
pub fn starts_with(s: &str, prefix: &str) -> (r: bool)
    ensures
        r == occurs_at(s@, prefix@, 0),
{
    let chars = chars_of(s);
    let pat = chars_of(prefix);
    matches_at(&chars, &pat, 0)
}

/// Finds the route of a request.
pub fn route(request: &Request) -> (r: Route)
    ensures
        r@ == route_of(request@.method, request@.uri),
{
    let uri = request.uri.as_str();
    let get = request.method == Method::Get;
    let post = request.method == Method::Post;
    if get && str_eq(uri, "/") {
        Route::Root
    } else if get && str_eq(uri, "/user-agent") {
        Route::UserAgent
    } else if get && starts_with(uri, "/echo/") {
        Route::Echo(trim_start_matches(uri, "/echo/").to_owned())
    } else if get && starts_with(uri, "/files/") {
        Route::ReadFile(trim_start_matches(uri, "/files/").to_owned())
    } else if post && starts_with(uri, "/files/") {
        Route::WriteFile(trim_start_matches(uri, "/files/").to_owned())
    } else {
        Route::NotFound
    }
}

/// What a connection does next for its request.
#[derive(Debug)]
pub enum Step {
    /// The answer is known.
    Respond(ResponseBuilder<StatusCode>),
    /// The file of this name has to be read; the answer follows from what
    /// reading it gives.
    ReadFile(String),
    /// The body of the request has to be written to the file of this name;
    /// the answer follows from how that ends.
    WriteFile(String),
}

/// What a step holds.
pub enum StepView {
    Respond(BuilderView<StatusCode>),
    ReadFile(Seq<char>),
    WriteFile(Seq<char>),
}

impl View for Step {
    type V = StepView;

    open spec fn view(&self) -> StepView {
        match self {
            Step::Respond(builder) => StepView::Respond(builder@),
            Step::ReadFile(name) => StepView::ReadFile(name@),
            Step::WriteFile(name) => StepView::WriteFile(name@),
        }
    }
}

/// The step that a request asks for.
pub open spec fn step_of(request: RequestView) -> StepView {
    match route_of(request.method, request.uri) {
        RouteView::Root => StepView::Respond(root_response()),
        RouteView::UserAgent => StepView::Respond(user_agent_response(request.headers)),
        RouteView::Echo(text) => StepView::Respond(echo_response(text)),
        RouteView::ReadFile(name) => StepView::ReadFile(name),
        RouteView::WriteFile(name) => StepView::WriteFile(name),
        RouteView::NotFound => StepView::Respond(fresh(StatusCode::NotFound)),
    }
}

/// Decides what to do for a request.
pub fn first_step(request: &Request) -> (r: Step)
    ensures
        r@ == step_of(request@),
{
    match route(request) {
        Route::Root => Step::Respond(get_root_response()),
        Route::UserAgent => Step::Respond(get_user_agent_response(request)),
        Route::Echo(text) => Step::Respond(get_echo_response(text.as_str())),
        Route::ReadFile(name) => Step::ReadFile(name),
        Route::WriteFile(name) => Step::WriteFile(name),
        Route::NotFound => Step::Respond(ResponseBuilder::not_found()),
    }
}

/// The place of a file: the directory, a slash, and the name.
pub fn file_path(files_dir: &str, file_name: &str) -> (r: String)
    ensures
        r@ == files_dir@ + "/"@ + file_name@,
{
    String::from_str(files_dir).concat("/").concat(file_name)
}

/// The answer as it is finished for a client: where the client accepts gzip,
/// with a `Content-Encoding: gzip` header.
pub open spec fn negotiated(
    request_headers: Seq<(Seq<char>, Seq<char>)>,
    builder: BuilderView<StatusCode>,
) -> BuilderView<StatusCode> {
    if wants_gzip(request_headers) {
        builder.with_headers(seq![("Content-Encoding"@, "gzip"@)])
    } else {
        builder
    }
}

/// Finishes the answer to a request: adds the gzip encoding where the client
/// accepts it, and builds the response. Where the encoder gives no stream for
/// the body, the builder comes back, with the encoding header.
pub fn finish_response(request: &Request, builder: ResponseBuilder<StatusCode>) -> (r: Result<
    Response,
    ResponseBuilder<StatusCode>,
>)
    ensures
        match r {
            Ok(response) => negotiated(request@.headers, builder@).encodable() && response@
                == negotiated(request@.headers, builder@).built(),
            Err(left) => !negotiated(request@.headers, builder@).encodable() && left@
                == negotiated(request@.headers, builder@),
        },
{
    if accepts_gzip(request) {
        builder.with(("Content-Encoding", "gzip")).try_build()
    } else {
        builder.try_build()
    }
}

} // verus!
