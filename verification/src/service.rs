//! The GraphQL service behind the HTTP endpoint: what it answers to which
//! request, as far as that is decided without running a query.

use crate::schema::Schema;
use crate::text::same_text;
use std::sync::Arc;
use std::sync::Mutex;
use vstd::prelude::*;

verus! {

/// `std::sync::Mutex`, the lock around the schema that the service shares
/// with the server. The library only hands it on.
#[verifier::external_type_specification]
#[verifier::external_body]
#[verifier::reject_recursive_types(T)]
pub struct ExMutex<T: ?Sized>(Mutex<T>);

/// A file of the GraphiQL page.
#[derive(Clone, Copy, Debug, PartialEq, Eq, Structural)]
pub enum Asset {
    Index,
    GraphiqlCss,
    GraphiqlJs,
}

/// What the service does with a request.
#[derive(Clone, Copy, Debug, PartialEq, Eq, Structural)]
pub enum Route {
    /// Serve a file of the GraphiQL page.
    File(Asset),
    /// Run the GraphQL query in the body.
    Query,
    /// Tell which HTTP features GraphQL requests may use.
    Options,
    /// Answer that there is nothing at this path.
    NotFound,
}

/// The route of a request, by its method and the path of its URI.
pub open spec fn route_of(method: Seq<char>, path: Seq<char>) -> Route {
    if method == "GET"@ && path == "/"@ {
        Route::File(Asset::Index)
    } else if method == "GET"@ && path == "/graphiql.css"@ {
        Route::File(Asset::GraphiqlCss)
    } else if method == "GET"@ && path == "/graphiql.min.js"@ {
        Route::File(Asset::GraphiqlJs)
    } else if method == "POST"@ && path == "/graphql"@ {
        Route::Query
    } else if method == "OPTIONS"@ && path == "/graphql"@ {
        Route::Options
    } else {
        Route::NotFound
    }
}

/// An answer that needs no query: status, headers and body.
#[derive(Clone, Debug, PartialEq, Eq)]
pub struct Response {
    pub status: u16,
    pub headers: Vec<(String, String)>,
    pub body: String,
}

/// What a [`Response`] stands for.
pub struct ResponseView {
    pub status: int,
    pub headers: Seq<(Seq<char>, Seq<char>)>,
    pub body: Seq<char>,
}

impl View for Response {
    type V = ResponseView;

    open spec fn view(&self) -> ResponseView {
        ResponseView {
            status: self.status as int,
            headers: self.headers@.map_values(|header: (String, String)| (header.0@, header.1@)),
            body: self.body@,
        }
    }
}

/// A service that serves GraphQL over a POST / endpoint.
///
/// It shares with the server the schema that it answers for, which the
/// server replaces as schemas come in; `Q` is what runs the queries.
#[derive(Debug)]
pub struct GraphQLService<Q> {
    pub schema: Arc<Mutex<Option<Schema>>>,
    pub query_runner: Arc<Q>,
}

impl<Q> GraphQLService<Q> {
    /// Creates a new GraphQL service.
    pub fn new(schema: Arc<Mutex<Option<Schema>>>, query_runner: Arc<Q>) -> (service: Self)
        ensures
            service.schema == schema,
            service.query_runner == query_runner,
    {
        GraphQLService { schema, query_runner }
    }

    /// Decides what to do with a request.
    pub fn route(&self, method: &str, path: &str) -> (route: Route)
        ensures
            route == route_of(method@, path@),
    {
        let get = same_text(method, "GET");
        if get && same_text(path, "/") {
            Route::File(Asset::Index)
        } else if get && same_text(path, "/graphiql.css") {
            Route::File(Asset::GraphiqlCss)
        } else if get && same_text(path, "/graphiql.min.js") {
            Route::File(Asset::GraphiqlJs)
        } else if same_text(method, "POST") && same_text(path, "/graphql") {
            Route::Query
        } else if same_text(method, "OPTIONS") && same_text(path, "/graphql") {
            Route::Options
        } else {
            Route::NotFound
        }
    }

    /// Serves the contents of a file of the GraphiQL page.
    pub fn serve_file(&self, contents: &str) -> (response: Response)
        ensures
            response@ == (ResponseView {
                status: 200,
                headers: Seq::empty(),
                body: contents@,
            }),
    {
        let response = Response { status: 200, headers: Vec::new(), body: contents.to_owned() };
        assert(response@.headers =~= Seq::empty());
        response
    }

    /// Answers an OPTIONS request: any origin may post queries, with a
    /// content type of its choice.
    pub fn handle_graphql_options(&self) -> (response: Response)
        ensures
            response@ == (ResponseView {
                status: 200,
                headers: seq![
                    ("Access-Control-Allow-Origin"@, "*"@),
                    ("Access-Control-Allow-Headers"@, "Content-Type"@),
                ],
                body: ""@,
            }),
    {
        let mut headers: Vec<(String, String)> = Vec::new();
        headers.push(("Access-Control-Allow-Origin".to_owned(), "*".to_owned()));
        headers.push(("Access-Control-Allow-Headers".to_owned(), "Content-Type".to_owned()));
        let response = Response { status: 200, headers, body: "".to_owned() };
        assert(response@.headers =~= seq![
            ("Access-Control-Allow-Origin"@, "*"@),
            ("Access-Control-Allow-Headers"@, "Content-Type"@),
        ]);
        response
    }

    /// Answers a request for which there is no route.
    pub fn handle_not_found(&self) -> (response: Response)
        ensures
            response@ == (ResponseView {
                status: 404,
                headers: Seq::empty(),
                body: "Not found"@,
            }),
    {
        let response = Response { status: 404, headers: Vec::new(), body: "Not found".to_owned() };
        assert(response@.headers =~= Seq::empty());
        response
    }
}

} // verus!
