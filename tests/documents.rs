use wizard::assemble::{group_routes, make_file_from_version, InterfaceDocument};
use wizard::describe::{extract_doc, route_to_openapi_operation, DescribeError};
use wizard::navigate::{Route, RouteMethod};
use wizard::syntax::{Comment, Decl, Project, SourceUnit, Stmt};
use wizard::text::{
    join_with_newlines, lines_of, remove_each, split_at_each, strip_all_of, trim_end_of,
    trim_frame_of,
};

fn s(x: &str) -> String {
    x.to_string()
}

const DOC: &str = "/**\n * Summary.\n * More detail.\n * @tags foo, bar\n * @operationId getX\n */";

fn handler_unit() -> SourceUnit {
    SourceUnit {
        path: s("/h.ts"),
        body: vec![
            Stmt::Export(Some(Decl::Function(Some(s("getX")), 100))),
            Stmt::Export(Some(Decl::Function(Some(s("postY")), 300))),
            Stmt::Export(Some(Decl::Function(Some(s("bare")), 5))),
        ],
        comments: vec![
            Comment { start: 0, end: 4, text: s("// unrelated") },
            Comment { start: 20, end: 90, text: s(DOC) },
            Comment {
                start: 200,
                end: 290,
                text: s("/**\n * Other.\n * @title Y title\n */"),
            },
        ],
    }
}

fn project() -> Project {
    Project { units: vec![handler_unit()] }
}

fn route(method: RouteMethod, path: &str, handler: &str, auth: bool) -> Route {
    Route {
        method,
        path: s(path),
        handler_identifier: s(handler),
        handler_file_path: s("/h.ts"),
        has_auth: auth,
    }
}

#[test]
fn comment_extraction() {
    let d = extract_doc(&s(DOC));
    assert_eq!(d.summary, Some(s("Summary.")));
    assert_eq!(d.description, "Summary.\nMore detail.");
    assert_eq!(d.tags, vec![s("foo"), s("bar")]);
    assert_eq!(d.operation_id, Some(s("getX")));
    assert_eq!(d.title, "");
}

#[test]
fn empty_comment_gives_empty_description() {
    let d = extract_doc(&s(""));
    assert_eq!(d.summary, None);
    assert_eq!(d.description, "");
    assert!(d.tags.is_empty());
    assert_eq!(d.operation_id, None);
}

#[test]
fn title_and_crlf_lines() {
    let d = extract_doc(&s("/**\r\n * Line one.  \r\n * @title   A title\t\r\n */\r\n"));
    assert_eq!(d.summary, Some(s("Line one.")));
    assert_eq!(d.title, "  A title");
}

#[test]
fn describes_with_nearest_preceding_comment() {
    let e = route_to_openapi_operation(&project(), &route(RouteMethod::Post, "/y", "postY", true))
        .ok()
        .unwrap();
    assert_eq!(e.summary, Some(s("Other.")));
    assert_eq!(e.title, "Y title");
    assert!(e.requires_auth);
    assert_eq!(e.method, RouteMethod::Post);
    let f = route_to_openapi_operation(&project(), &route(RouteMethod::Get, "/b", "bare", false))
        .ok()
        .unwrap();
    assert_eq!(f.summary, None);
    assert!(!f.requires_auth);
}

#[test]
fn describe_errors() {
    match route_to_openapi_operation(&project(), &route(RouteMethod::Get, "/x", "nope", false)) {
        Err(DescribeError::HandlerNotFound(f, n)) => {
            assert_eq!(f, "/h.ts");
            assert_eq!(n, "nope");
        }
        _ => panic!("expected a missing handler"),
    }
    let mut r = route(RouteMethod::Get, "/x", "getX", false);
    r.handler_file_path = s("/elsewhere.ts");
    match route_to_openapi_operation(&project(), &r) {
        Err(DescribeError::FileNotLoaded(f)) => assert_eq!(f, "/elsewhere.ts"),
        _ => panic!("expected a file that is not loaded"),
    }
}

fn doc_of(routes: &Vec<Route>, version: &str) -> InterfaceDocument {
    make_file_from_version(&project(), routes, &s(version)).ok().unwrap()
}

#[test]
fn version_prefix_is_stripped() {
    let routes = vec![route(RouteMethod::Get, "/v1/crawl/status", "getX", false)];
    let d = doc_of(&routes, "/v1");
    assert_eq!(d.paths.len(), 1);
    assert_eq!(d.paths[0].path, "/crawl/status");
    assert_eq!(d.paths[0].get.as_ref().unwrap().path, "/crawl/status");
    assert_eq!(d.version, "1.0.0");
    assert_eq!(d.server_url, "https://api.firecrawl.dev/v1");
    assert_eq!(d.security_scheme, "APIKey");
    assert_eq!(d.api_key_header, "Authorization");
    assert_eq!(d.title, "Firecrawl API");
    assert_eq!(d.openapi, "3.0.0");
}

#[test]
fn every_occurrence_of_the_version_is_removed() {
    let routes = vec![route(RouteMethod::Get, "/v1/a/v1/b", "getX", false)];
    assert_eq!(doc_of(&routes, "/v1").paths[0].path, "/a/b");
}

#[test]
fn other_versions_and_internal_routes_stay_out() {
    let routes = vec![
        route(RouteMethod::Get, "/v2/a", "getX", false),
        route(RouteMethod::Get, "/internal/x", "getX", false),
        route(RouteMethod::Get, "/v1", "getX", false),
        route(RouteMethod::Put, "/v1/k", "getX", false),
    ];
    let d = doc_of(&routes, "/v1");
    assert_eq!(d.paths.len(), 1);
    assert_eq!(d.paths[0].path, "/k");
    assert!(d.paths[0].put.is_some());
    assert!(d.paths[0].get.is_none());
    let d2 = doc_of(&routes, "/v2");
    assert_eq!(d2.paths.len(), 1);
    assert_eq!(d2.paths[0].path, "/a");
    assert_eq!(d2.version, "2.0.0");
}

#[test]
fn later_registration_wins_and_paths_keep_first_order() {
    let routes = vec![
        route(RouteMethod::Get, "/v1/x", "getX", false),
        route(RouteMethod::Post, "/v1/z", "getX", false),
        route(RouteMethod::Get, "/v1/x", "postY", true),
        route(RouteMethod::Post, "/v1/x", "getX", false),
    ];
    let d = doc_of(&routes, "/v1");
    assert_eq!(d.paths.len(), 2);
    assert_eq!(d.paths[0].path, "/x");
    assert_eq!(d.paths[1].path, "/z");
    let get = d.paths[0].get.as_ref().unwrap();
    assert_eq!(get.summary, Some(s("Other.")));
    assert!(get.requires_auth);
    assert!(d.paths[0].post.is_some());
}

#[test]
fn assembling_twice_gives_the_same_document() {
    let routes = vec![
        route(RouteMethod::Get, "/v1/x", "getX", true),
        route(RouteMethod::Delete, "/v1/y", "postY", false),
    ];
    let a = doc_of(&routes, "/v1");
    let b = doc_of(&routes, "/v1");
    assert_eq!(a.paths.len(), b.paths.len());
    for (x, y) in a.paths.iter().zip(b.paths.iter()) {
        assert_eq!(x.path, y.path);
        assert_eq!(x.get.as_ref().map(|e| e.description.clone()), y.get.as_ref().map(|e| e.description.clone()));
        assert_eq!(x.delete.as_ref().map(|e| e.tags.clone()), y.delete.as_ref().map(|e| e.tags.clone()));
    }
    assert_eq!(a.version, b.version);
    assert_eq!(a.server_url, b.server_url);
}

#[test]
fn assembly_fails_on_missing_handler() {
    let routes = vec![route(RouteMethod::Get, "/v1/x", "absent", false)];
    assert!(matches!(
        make_file_from_version(&project(), &routes, &s("/v1")),
        Err(DescribeError::HandlerNotFound(_, _))
    ));
    assert!(group_routes(&project(), &routes, &s("/v2")).ok().unwrap().is_empty());
}

#[test]
fn text_helpers() {
    assert_eq!(trim_end_of("ab \t\u{a0}\u{3000}"), "ab");
    assert_eq!(trim_end_of("a b"), "a b");
    assert_eq!(trim_frame_of(" //** x*"), "x*");
    assert_eq!(strip_all_of("@t @t @t x", "@t "), "x");
    assert_eq!(split_at_each("a, b,c, ", ", "), vec![s("a"), s("b,c"), s("")]);
    assert_eq!(split_at_each("", ", "), vec![s("")]);
    assert_eq!(remove_each("/v1/a/v1", "/v1"), "/a");
    assert_eq!(lines_of("a\r\nb\n\nc\n"), vec![s("a"), s("b"), s(""), s("c")]);
    assert!(lines_of("").is_empty());
    assert_eq!(join_with_newlines(&vec![s("a"), s("b")]), "a\nb");
}

