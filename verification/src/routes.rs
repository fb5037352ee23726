//! Routes of the worker protocol.

use vstd::prelude::*;
use vstd::string::*;

verus! {

/// The full names of the routes that the HTTP listener does not treat like the
/// others.
#[derive(Debug)]
pub struct RouteTable {
    pub ensure_category: String,
    pub download_stt: String,
    pub model_download: String,
    pub shutdown: String,
}

/// The contents of a `RouteTable`.
pub struct RouteTableView {
    pub ensure_category: Seq<char>,
    pub download_stt: Seq<char>,
    pub model_download: Seq<char>,
    pub shutdown: Seq<char>,
}

impl RouteTableView {
    /// Whether the answer on `route` is a stream of frames.
    pub open spec fn streams(self, route: Seq<char>) -> bool {
        route == self.ensure_category || route == self.download_stt || route == self.model_download
    }
}

impl View for RouteTable {
    type V = RouteTableView;

    open spec fn view(&self) -> RouteTableView {
        RouteTableView {
            ensure_category: self.ensure_category@,
            download_stt: self.download_stt@,
            model_download: self.model_download@,
            shutdown: self.shutdown@,
        }
    }
}

/// The full name of the route with this path below `/v1/`.
pub open spec fn full_name(route: Seq<char>) -> Seq<char> {
    "/v1/"@ + route
}

/// The full name of the route with this path below `/v1/`.
pub fn full_route(route: &str) -> (res: String)
    ensures
        res@ == full_name(route@),
        res@ == "/v1/"@ + route@,
{
    let mut full = "/v1/".to_owned();
    full.append(route);
    full
}

/// Whether the answer on `route`, a full name, is a stream of frames.
pub fn is_stream_route(routes: &RouteTable, route: &str) -> (res: bool)
    ensures
        res == routes@.streams(route@),
        res <==> route@ == routes.ensure_category@ || route@ == routes.download_stt@ || route@
            == routes.model_download@,
{
    str::eq(route, routes.ensure_category.as_str()) || str::eq(
        route,
        routes.download_stt.as_str(),
    ) || str::eq(route, routes.model_download.as_str())
}

/// Different paths have different full names.
pub proof fn full_names_differ(route: Seq<char>, other: Seq<char>)
    requires
        full_name(route) == full_name(other),
    ensures
        route == other,
{
    let n = "/v1/"@.len() as int;
    assert(route =~= full_name(route).skip(n));
    assert(other =~= full_name(other).skip(n));
}

/// A full name is the path behind the four characters of `/v1/`.
pub proof fn full_name_is_the_path_below_v1(route: Seq<char>)
    ensures
        full_name(route).len() == 4 + route.len(),
        full_name(route).take(4) == seq!['/', 'v', '1', '/'],
        full_name(route).skip(4) == route,
{
    reveal_strlit("/v1/");
    assert(full_name(route).take(4) =~= seq!['/', 'v', '1', '/']);
    assert(full_name(route).skip(4) =~= route);
}

/// Exactly three routes stream: each of the three does, and a route that
/// streams is one of them.
pub proof fn three_routes_stream(table: RouteTableView, route: Seq<char>)
    ensures
        table.streams(table.ensure_category),
        table.streams(table.download_stt),
        table.streams(table.model_download),
        table.streams(route) ==> seq![
            table.ensure_category,
            table.download_stt,
            table.model_download,
        ].contains(route),
{
    let three = seq![table.ensure_category, table.download_stt, table.model_download];
    assert(three[0] == table.ensure_category);
    assert(three[1] == table.download_stt);
    assert(three[2] == table.model_download);
}

/// The view of a table holds each route under its own name.
pub proof fn table_view_is_faithful(table: RouteTable)
    ensures
        table@.ensure_category == table.ensure_category@,
        table@.download_stt == table.download_stt@,
        table@.model_download == table.model_download@,
        table@.shutdown == table.shutdown@,
{
}

} // verus!
