//! The interface description assembler: the routes of one API version,
//! grouped by path, each described, with the document's fixed metadata.

use vstd::prelude::*;
use vstd::string::*;
use crate::syntax::Project;
use crate::navigate::{Route, RouteMethod, RouteView, route_views};
use crate::describe::{
    DescribeError, DescribeErrorView, EndpointDescription, EndpointDescriptionView, describe_spec,
    route_to_openapi_operation,
};
use crate::text::{remove_all, remove_each, starts_with, slice};

verus! {

#[verifier::external_type_specification]
#[verifier::external_body]
#[verifier::reject_recursive_types(T)]
#[verifier::reject_recursive_types(S)]
pub struct ExIndexSet<T, S>(indexmap::IndexSet<T, S>);

/// The items of a set of paths, in insertion order.
pub uninterp spec fn path_order(s: indexmap::IndexSet<String>) -> Seq<Seq<char>>;

/// Relies on `indexmap::IndexSet::new`: a new set holds no item.
#[verifier::external_body]
fn new_path_set() -> (r: indexmap::IndexSet<String>)
    ensures
        path_order(r) == Seq::<Seq<char>>::empty(),
{
    indexmap::IndexSet::new()
}

/// Relies on `indexmap::IndexSet::insert_full`: where an equal item is in the
/// set, it returns that item's index and `false` and leaves the set as it
/// was; otherwise it appends the item and returns its index and `true`.
#[verifier::external_body]
fn insert_path(set: &mut indexmap::IndexSet<String>, path: String) -> (r: (usize, bool))
    ensures
        path_order(*old(set)).contains(path@) ==> !r.1 && r.0 < path_order(*old(set)).len()
            && path_order(*old(set))[r.0 as int] == path@ && path_order(*final(set))
            == path_order(*old(set)),
        !path_order(*old(set)).contains(path@) ==> r.1 && r.0 == path_order(*old(set)).len()
            && path_order(*final(set)) == path_order(*old(set)).push(path@),
{
    set.insert_full(path)
}

/// The endpoints registered at one path, one slot per verb.
pub struct PathEntry {
    pub path: String,
    pub get: Option<EndpointDescription>,
    pub post: Option<EndpointDescription>,
    pub put: Option<EndpointDescription>,
    pub delete: Option<EndpointDescription>,
}

/// A path entry, with its text as character sequences.
pub struct PathEntryView {
    pub path: Seq<char>,
    pub get: Option<EndpointDescriptionView>,
    pub post: Option<EndpointDescriptionView>,
    pub put: Option<EndpointDescriptionView>,
    pub delete: Option<EndpointDescriptionView>,
}

/// The view of what a slot holds.
pub open spec fn slot_view(o: Option<EndpointDescription>) -> Option<EndpointDescriptionView> {
    match o {
        Some(d) => Some(d@),
        None => None,
    }
}

impl View for PathEntry {
    type V = PathEntryView;

    open spec fn view(&self) -> PathEntryView {
        PathEntryView {
            path: self.path@,
            get: slot_view(self.get),
            post: slot_view(self.post),
            put: slot_view(self.put),
            delete: slot_view(self.delete),
        }
    }
}

/// The views of a sequence of path entries.
pub open spec fn entry_views(es: Seq<PathEntry>) -> Seq<PathEntryView> {
    es.map_values(|e: PathEntry| e@)
}

/// An entry for `path` with no endpoint.
pub open spec fn empty_entry(path: Seq<char>) -> PathEntryView {
    PathEntryView { path, get: None, post: None, put: None, delete: None }
}

/// `e` with the slot of `d`'s verb holding `d`.
pub open spec fn with_slot(e: PathEntryView, d: EndpointDescriptionView) -> PathEntryView {
    match d.method {
        RouteMethod::Get => PathEntryView { get: Some(d), ..e },
        RouteMethod::Post => PathEntryView { post: Some(d), ..e },
        RouteMethod::Put => PathEntryView { put: Some(d), ..e },
        RouteMethod::Delete => PathEntryView { delete: Some(d), ..e },
    }
}

/// The position of the first entry from `i` on whose path is `path`.
pub open spec fn path_position(es: Seq<PathEntryView>, path: Seq<char>, i: int) -> Option<int>
    decreases es.len() - i,
{
    if i < 0 || i >= es.len() {
        None
    } else if es[i].path == path {
        Some(i)
    } else {
        path_position(es, path, i + 1)
    }
}

/// `es` with `d` placed at its path: in the slot of its verb, replacing what
/// was there, in the path's entry, or in a new entry at the end.
pub open spec fn place(es: Seq<PathEntryView>, path: Seq<char>, d: EndpointDescriptionView) -> Seq<
    PathEntryView,
> {
    match path_position(es, path, 0) {
        Some(k) => es.update(k, with_slot(es[k], d)),
        None => es.push(with_slot(empty_entry(path), d)),
    }
}

/// Whether a route belongs to `version`: its path starts with the version
/// prefix followed by `/`.
pub open spec fn in_version(r: RouteView, version: Seq<char>) -> bool {
    (version + seq!['/']).is_prefix_of(r.path)
}

/// A route with every occurrence of the version prefix removed from its path.
pub open spec fn unversioned(r: RouteView, version: Seq<char>) -> RouteView {
    RouteView { path: remove_all(r.path, version), ..r }
}

/// The path entries of the routes `rs` that belong to `version`, in order
/// of first appearance of their paths, or the first failure to describe one.
pub open spec fn grouped(p: Project, rs: Seq<RouteView>, version: Seq<char>) -> Result<
    Seq<PathEntryView>,
    DescribeErrorView,
>
    decreases rs.len(),
{
    if rs.len() == 0 {
        Ok(seq![])
    } else {
        match grouped(p, rs.drop_last(), version) {
            Err(e) => Err(e),
            Ok(es) => if !in_version(rs.last(), version) {
                Ok(es)
            } else {
                let r = unversioned(rs.last(), version);
                match describe_spec(p, r) {
                    Err(e) => Err(e),
                    Ok(d) => Ok(place(es, r.path, d)),
                }
            },
        }
    }
}

/// One version's interface description.
pub struct InterfaceDocument {
    /// The version of the description format.
    pub openapi: String,
    pub title: String,
    /// The API's version, such as `1.0.0`.
    pub version: String,
    pub description: String,
    pub contact_name: String,
    pub contact_url: String,
    pub contact_email: String,
    /// The base URL of the one server, which embeds the version prefix.
    pub server_url: String,
    /// The name of the one security scheme: an API key in a header.
    pub security_scheme: String,
    /// The header that carries the API key.
    pub api_key_header: String,
    pub security_description: String,
    /// The entries of the paths, in order of first registration.
    pub paths: Vec<PathEntry>,
}

/// An interface document, with its text as character sequences.
pub struct InterfaceDocumentView {
    pub openapi: Seq<char>,
    pub title: Seq<char>,
    pub version: Seq<char>,
    pub description: Seq<char>,
    pub contact: (Seq<char>, Seq<char>, Seq<char>),
    pub server_url: Seq<char>,
    pub security: (Seq<char>, Seq<char>, Seq<char>),
    pub paths: Seq<PathEntryView>,
}

impl View for InterfaceDocument {
    type V = InterfaceDocumentView;

    open spec fn view(&self) -> InterfaceDocumentView {
        InterfaceDocumentView {
            openapi: self.openapi@,
            title: self.title@,
            version: self.version@,
            description: self.description@,
            contact: (self.contact_name@, self.contact_url@, self.contact_email@),
            server_url: self.server_url@,
            security: (self.security_scheme@, self.api_key_header@, self.security_description@),
            paths: entry_views(self.paths@),
        }
    }
}

/// The base URL of the API's server, before the version prefix.
pub const SERVER_BASE: &'static str = "https://api.firecrawl.dev";

/// The name of the API-key security scheme.
pub const API_KEY_SCHEME: &'static str = "APIKey";

/// Whether `r` is the outcome of assembling `routes` for `version`: the
/// grouped paths with the metadata, or the first failure to describe a route.
pub open spec fn assembles(
    p: Project,
    routes: Seq<RouteView>,
    version: Seq<char>,
    r: Result<InterfaceDocument, DescribeError>,
) -> bool {
    match grouped(p, routes, version) {
        Ok(es) => r matches Ok(doc) && entry_views(doc.paths@) == es && metadata_of(doc, version),
        Err(x) => r matches Err(e) && e@ == x,
    }
}

/// Whether `doc` holds the fixed metadata and, for `version`, the derived
/// version string and server URL.
pub open spec fn metadata_of(doc: InterfaceDocument, version: Seq<char>) -> bool {
    &&& doc.openapi@ == "3.0.0"@
    &&& doc.title@ == "Firecrawl API"@
    &&& doc.version@ == version.skip(2) + ".0.0"@
    &&& doc.description@
        == "API for interacting with Firecrawl services to perform web scraping and crawling tasks."@
    &&& doc.contact_name@ == "Firecrawl Support"@
    &&& doc.contact_url@ == "https://firecrawl.dev/support"@
    &&& doc.contact_email@ == "support@firecrawl.dev"@
    &&& doc.server_url@ == SERVER_BASE@ + version
    &&& doc.security_scheme@ == API_KEY_SCHEME@
    &&& doc.api_key_header@ == "Authorization"@
    &&& doc.security_description@
        == "The API key used for authentication. Use a bearer token prefixed with 'Bearer '."@
}

proof fn lemma_position_of_listed(es: Seq<PathEntryView>, items: Seq<Seq<char>>, j: int, i: int)
    requires
        es.len() == items.len(),
        forall|k: int| 0 <= k < es.len() ==> #[trigger] es[k].path == items[k],
        items.no_duplicates(),
        0 <= i <= j < items.len(),
    ensures
        path_position(es, items[j], i) == Some(j),
    decreases j - i,
{
    if i < j {
        assert(es[i].path != items[j]);
        lemma_position_of_listed(es, items, j, i + 1);
    }
}

proof fn lemma_position_of_unlisted(es: Seq<PathEntryView>, items: Seq<Seq<char>>, key: Seq<char>, i: int)
    requires
        es.len() == items.len(),
        forall|k: int| 0 <= k < es.len() ==> #[trigger] es[k].path == items[k],
        !items.contains(key),
        0 <= i,
    ensures
        path_position(es, key, i) is None,
    decreases es.len() - i,
{
    if i < es.len() {
        assert(es[i].path != key);
        lemma_position_of_unlisted(es, items, key, i + 1);
    }
}

proof fn lemma_grouped_err_stays(p: Project, rs: Seq<RouteView>, version: Seq<char>, n: int, m: int)
    requires
        0 <= n <= m <= rs.len(),
        grouped(p, rs.take(n), version) is Err,
    ensures
        grouped(p, rs.take(m), version) == grouped(p, rs.take(n), version),
    decreases m - n,
{
    if m > n {
        lemma_grouped_err_stays(p, rs, version, n, m - 1);
        assert(rs.take(m).drop_last() =~= rs.take(m - 1));
    }
}

fn clone_route(r: &Route) -> (c: Route)
    ensures
        c@ == r@,
{
    Route {
        method: r.method,
        path: r.path.clone(),
        handler_identifier: r.handler_identifier.clone(),
        handler_file_path: r.handler_file_path.clone(),
        has_auth: r.has_auth,
    }
}

fn set_slot(e: &mut PathEntry, d: EndpointDescription)
    ensures
        final(e)@ == with_slot(old(e)@, d@),
{
    match d.method {
        RouteMethod::Get => {
            e.get = Some(d);
        },
        RouteMethod::Post => {
            e.post = Some(d);
        },
        RouteMethod::Put => {
            e.put = Some(d);
        },
        RouteMethod::Delete => {
            e.delete = Some(d);
        },
    }
}

/// Groups the routes of `version` by path and describes each, keeping the
/// order in which paths first appear; a later route of the same path and verb
/// replaces an earlier one. Fails with the first route that cannot be
/// described.
pub fn group_routes(project: &Project, routes: &Vec<Route>, version: &String) -> (r: Result<
    Vec<PathEntry>,
    DescribeError,
>)
    ensures
        match grouped(*project, route_views(routes@), version@) {
            Ok(es) => r matches Ok(v) && entry_views(v@) == es,
            Err(x) => r matches Err(e) && e@ == x,
        },
{
    let mut set = new_path_set();
    let mut entries: Vec<PathEntry> = Vec::new();
    let mut prefix = version.clone();
    prefix.append("/");
    proof {
        reveal_strlit("/");
        assert(route_views(routes@).take(0) =~= Seq::<RouteView>::empty());
        assert(entry_views(entries@) =~= Seq::<PathEntryView>::empty());
    }
    let mut i: usize = 0;
    while i < routes.len()
        invariant
            i <= routes@.len(),
            prefix@ == version@ + seq!['/'],
            grouped(*project, route_views(routes@).take(i as int), version@) == Ok::<
                Seq<PathEntryView>,
                DescribeErrorView,
            >(entry_views(entries@)),
            path_order(set).len() == entries@.len(),
            path_order(set).no_duplicates(),
            forall|k: int|
                0 <= k < entries@.len() ==> #[trigger] entry_views(entries@)[k].path == path_order(
                    set,
                )[k],
        decreases routes@.len() - i,
    {
        let ghost rs = route_views(routes@).take(i as int + 1);
        proof {
            assert(rs.drop_last() =~= route_views(routes@).take(i as int));
            assert(rs.last() == routes@[i as int]@);
        }
        if starts_with(routes[i].path.as_str(), prefix.as_str()) {
            let mut route = clone_route(&routes[i]);
            route.path = remove_each(routes[i].path.as_str(), version.as_str());
            match route_to_openapi_operation(project, &route) {
                Err(e) => {
                    proof {
                        lemma_grouped_err_stays(
                            *project,
                            route_views(routes@),
                            version@,
                            i as int + 1,
                            routes@.len() as int,
                        );
                        assert(route_views(routes@).take(routes@.len() as int) =~= route_views(
                            routes@,
                        ));
                    }
                    return Err(e);
                },
                Ok(d) => {
                    let ghost es = entry_views(entries@);
                    let ghost items = path_order(set);
                    let (k, fresh) = insert_path(&mut set, route.path.clone());
                    if fresh {
                        proof {
                            lemma_position_of_unlisted(es, items, route.path@, 0);
                        }
                        entries.push(
                            PathEntry {
                                path: route.path.clone(),
                                get: None,
                                post: None,
                                put: None,
                                delete: None,
                            },
                        );
                    } else {
                        proof {
                            lemma_position_of_listed(es, items, k as int, 0);
                        }
                    }
                    set_slot(&mut entries[k], d);
                    proof {
                        assert(entry_views(entries@) =~= place(es, route.path@, d@));
                    }
                },
            }
        }
        i = i + 1;
    }
    proof {
        assert(route_views(routes@).take(routes@.len() as int) =~= route_views(routes@));
    }
    Ok(entries)
}

fn text(s: &str) -> (r: String)
    ensures
        r@ == s@,
{
    String::from_str(s)
}

/// The interface description of `version` (such as `/v1`): the fixed
/// metadata, a version string made of the prefix without its first two
/// characters followed by `.0.0`, a server URL that ends with the prefix, one
/// API-key security scheme, and the grouped paths of the routes whose path
/// starts with the prefix and `/`, with the prefix removed. Fails with the
/// first route that cannot be described.
pub fn make_file_from_version(project: &Project, routes: &Vec<Route>, version: &String) -> (r:
    Result<InterfaceDocument, DescribeError>)
    requires
        version@.len() >= 2,
    ensures
        assembles(*project, route_views(routes@), version@, r),
{
    let paths = match group_routes(project, routes, version) {
        Ok(es) => es,
        Err(e) => {
            return Err(e);
        },
    };
    let mut version_string = slice(version.as_str(), 2, version.unicode_len());
    version_string.append(".0.0");
    let mut server_url = text(SERVER_BASE);
    server_url.append(version.as_str());
    proof {
        assert(version@.subrange(2, version@.len() as int) =~= version@.skip(2));
    }
    Ok(
        InterfaceDocument {
            openapi: text("3.0.0"),
            title: text("Firecrawl API"),
            version: version_string,
            description: text(
                "API for interacting with Firecrawl services to perform web scraping and crawling tasks.",
            ),
            contact_name: text("Firecrawl Support"),
            contact_url: text("https://firecrawl.dev/support"),
            contact_email: text("support@firecrawl.dev"),
            server_url,
            security_scheme: text(API_KEY_SCHEME),
            api_key_header: text("Authorization"),
            security_description: text(
                "The API key used for authentication. Use a bearer token prefixed with 'Bearer '.",
            ),
            paths,
        },
    )
}

} // verus!
