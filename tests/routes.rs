use wizard::navigate::{navigate_router_tree, Diagnostic, Navigation, RouteMethod};
use wizard::resolve::find_root_definition;
use wizard::syntax::{Comment, Decl, Expr, ImportBinding, Project, SourceUnit, Stmt};

fn s(x: &str) -> String {
    x.to_string()
}

fn ident(x: &str) -> Expr {
    Expr::Ident(s(x))
}

fn lit(x: &str) -> Expr {
    Expr::Str(s(x))
}

fn call(router: &str, method: &str, args: Vec<Expr>) -> Stmt {
    Stmt::Expression(Expr::Call(
        Box::new(Expr::Member(Box::new(ident(router)), s(method))),
        args,
    ))
}

fn const_decl(name: &str) -> Stmt {
    Stmt::Declare(Decl::Var(true, vec![Some(s(name))]))
}

fn export_fn(name: &str, start: usize) -> Stmt {
    Stmt::Export(Some(Decl::Function(Some(s(name)), start)))
}

fn import(target: &str, local: &str, imported: &str) -> Stmt {
    Stmt::Import(
        Some(s(target)),
        vec![ImportBinding::Named(s(local), s(imported))],
    )
}

fn unit(path: &str, body: Vec<Stmt>) -> SourceUnit {
    SourceUnit { path: s(path), body, comments: Vec::<Comment>::new() }
}

fn nav(p: &Project, root: &str, router: &str, prefix: &str) -> Navigation {
    navigate_router_tree(p, &s(root), &s(router), &s(prefix)).unwrap()
}

fn paths(n: &Navigation) -> Vec<String> {
    n.routes.iter().map(|r| r.path.clone()).collect()
}

#[test]
fn resolves_local_const() {
    let p = Project { units: vec![unit("/a.ts", vec![const_decl("router")])] };
    let d = find_root_definition(&p, &s("/a.ts"), &s("router")).unwrap();
    assert_eq!(d.path, "/a.ts");
    assert_eq!(d.name, "router");
}

#[test]
fn resolves_through_import_under_exported_name() {
    let p = Project {
        units: vec![
            unit("/a.ts", vec![import("/b.ts", "local", "handler")]),
            unit("/b.ts", vec![export_fn("handler", 10)]),
        ],
    };
    let d = find_root_definition(&p, &s("/a.ts"), &s("local")).unwrap();
    assert_eq!(d.path, "/b.ts");
    assert_eq!(d.name, "handler");
}

#[test]
fn resolution_ignores_let_and_unexported_functions() {
    let p = Project {
        units: vec![unit(
            "/a.ts",
            vec![
                Stmt::Declare(Decl::Var(false, vec![Some(s("x"))])),
                Stmt::Declare(Decl::Function(Some(s("x")), 0)),
            ],
        )],
    };
    assert!(find_root_definition(&p, &s("/a.ts"), &s("x")).is_none());
}

#[test]
fn resolves_exported_type_alias() {
    let p = Project {
        units: vec![unit("/a.ts", vec![Stmt::Export(Some(Decl::TypeAlias(s("T"))))])],
    };
    assert_eq!(find_root_definition(&p, &s("/a.ts"), &s("T")).unwrap().name, "T");
}

#[test]
fn cyclic_imports_resolve_to_nothing() {
    let p = Project {
        units: vec![
            unit("/a.ts", vec![import("/b.ts", "x", "x")]),
            unit("/b.ts", vec![import("/a.ts", "x", "x")]),
        ],
    };
    assert!(find_root_definition(&p, &s("/a.ts"), &s("x")).is_none());
}

fn handlers() -> SourceUnit {
    unit("/h.ts", vec![export_fn("h1", 0), export_fn("h2", 0), export_fn("h3", 0)])
}

#[test]
fn plain_router_yields_one_route_per_versioned_call() {
    let p = Project {
        units: vec![
            unit(
                "/r.ts",
                vec![
                    import("/h.ts", "h1", "h1"),
                    import("/h.ts", "h2", "h2"),
                    call("r", "get", vec![lit("/v1/a"), ident("h1")]),
                    call("r", "post", vec![lit("/v2/b"), ident("h2")]),
                    call("r", "put", vec![lit("/other"), ident("h1")]),
                    call("r", "delete", vec![lit("/v1/c"), ident("h2")]),
                ],
            ),
            handlers(),
        ],
    };
    let n = nav(&p, "/r.ts", "r", "");
    assert_eq!(n.routes.len(), 3);
    assert_eq!(paths(&n), vec!["/v1/a", "/v2/b", "/v1/c"]);
    assert_eq!(n.routes[1].method, RouteMethod::Post);
    assert_eq!(n.routes[2].method, RouteMethod::Delete);
    assert_eq!(n.routes[0].handler_file_path, "/h.ts");
    assert_eq!(n.routes[0].handler_identifier, "h1");
}

#[test]
fn nested_mount_prefixes_accumulate() {
    let p = Project {
        units: vec![
            unit(
                "/a.ts",
                vec![import("/b.ts", "b", "b"), call("app", "use", vec![lit("/b"), ident("b")])],
            ),
            unit(
                "/b.ts",
                vec![
                    Stmt::Export(Some(Decl::Var(true, vec![Some(s("b"))]))),
                    import("/c.ts", "c", "c"),
                    call("b", "use", vec![lit("/a"), ident("c")]),
                ],
            ),
            unit(
                "/c.ts",
                vec![
                    Stmt::Export(Some(Decl::Var(true, vec![Some(s("c"))]))),
                    import("/h.ts", "h1", "h1"),
                    call("c", "get", vec![lit("/x"), ident("h1")]),
                ],
            ),
            handlers(),
        ],
    };
    let n = nav(&p, "/a.ts", "app", "/v1");
    assert_eq!(paths(&n), vec!["/v1/b/a/x"]);
}

#[test]
fn mount_without_path_keeps_prefix_and_order() {
    let p = Project {
        units: vec![
            unit(
                "/a.ts",
                vec![
                    import("/h.ts", "h1", "h1"),
                    const_decl("sub"),
                    call("app", "get", vec![lit("/v1/first"), ident("h1")]),
                    call("app", "use", vec![ident("sub")]),
                    call("sub", "get", vec![lit("/v1/second"), ident("h1")]),
                    call("app", "get", vec![lit("/v1/third"), ident("h1")]),
                ],
            ),
            handlers(),
        ],
    };
    let n = nav(&p, "/a.ts", "app", "");
    assert_eq!(paths(&n), vec!["/v1/first", "/v1/second", "/v1/third"]);
}

#[test]
fn unversioned_routes_are_dropped() {
    let p = Project {
        units: vec![
            unit(
                "/r.ts",
                vec![
                    import("/h.ts", "h1", "h1"),
                    call("r", "get", vec![lit("/internal/x"), ident("h1")]),
                    call("r", "get", vec![lit("/v3/x"), ident("h1")]),
                    call("r", "get", vec![lit("/v2/x"), ident("h1")]),
                ],
            ),
            handlers(),
        ],
    };
    let n = nav(&p, "/r.ts", "r", "");
    assert_eq!(paths(&n), vec!["/v2/x"]);
    assert!(n.diagnostics.is_empty());
}

#[test]
fn auth_middleware_sets_flag() {
    let p = Project {
        units: vec![
            unit(
                "/r.ts",
                vec![
                    import("/h.ts", "handler", "h1"),
                    call("router", "get", vec![lit("/v1/x"), ident("authMiddleware"), ident("handler")]),
                    call(
                        "router",
                        "get",
                        vec![
                            lit("/v1/x"),
                            Expr::Call(Box::new(ident("authMiddleware")), vec![]),
                            ident("handler"),
                        ],
                    ),
                    call("router", "get", vec![lit("/v1/x"), ident("handler")]),
                ],
            ),
            handlers(),
        ],
    };
    let n = nav(&p, "/r.ts", "router", "");
    let flags: Vec<bool> = n.routes.iter().map(|r| r.has_auth).collect();
    assert_eq!(flags, vec![true, true, false]);
}

#[test]
fn unsupported_verb_is_reported_and_skipped() {
    let p = Project {
        units: vec![
            unit(
                "/r.ts",
                vec![
                    import("/h.ts", "h1", "h1"),
                    call("router", "patch", vec![lit("/v1/x"), ident("h1")]),
                    call("router", "get", vec![lit("/v1/y"), ident("h1")]),
                ],
            ),
            handlers(),
        ],
    };
    let n = nav(&p, "/r.ts", "router", "");
    assert_eq!(paths(&n), vec!["/v1/y"]);
    assert_eq!(n.diagnostics.len(), 1);
    match &n.diagnostics[0] {
        Diagnostic::UnsupportedMethod(m) => assert_eq!(m, "patch"),
        _ => panic!("expected an unsupported method"),
    }
}

#[test]
fn wrapped_handler_and_templates() {
    let p = Project {
        units: vec![
            unit(
                "/r.ts",
                vec![
                    import("/h.ts", "h2", "h2"),
                    call(
                        "r",
                        "get",
                        vec![
                            Expr::Template(vec![Some(s("/v1/t"))]),
                            Expr::Call(Box::new(ident("wrap")), vec![ident("h2")]),
                        ],
                    ),
                    call(
                        "r",
                        "get",
                        vec![Expr::Template(vec![Some(s("/v1/")), Some(s(""))]), ident("h2")],
                    ),
                    call("r", "get", vec![lit("/v1/n"), Expr::Other]),
                    call("r", "get", vec![lit("/v1/m"), ident("missing")]),
                ],
            ),
            handlers(),
        ],
    };
    let n = nav(&p, "/r.ts", "r", "");
    assert_eq!(paths(&n), vec!["/v1/t"]);
    assert_eq!(n.routes[0].handler_identifier, "h2");
    assert_eq!(n.diagnostics.len(), 3);
    assert!(matches!(n.diagnostics[0], Diagnostic::UnsupportedTemplate));
    match &n.diagnostics[1] {
        Diagnostic::NoHandler(m, path) => {
            assert_eq!(m, "get");
            assert_eq!(path, "/v1/n");
        }
        _ => panic!("expected a missing handler"),
    }
    match &n.diagnostics[2] {
        Diagnostic::NoHandlerDefinition(h) => assert_eq!(h, "missing"),
        _ => panic!("expected an unresolved handler"),
    }
}

#[test]
fn cyclic_mount_is_reported_once() {
    let p = Project {
        units: vec![
            unit(
                "/a.ts",
                vec![
                    import("/h.ts", "h1", "h1"),
                    const_decl("app"),
                    call("app", "use", vec![lit("/again"), ident("app")]),
                    call("app", "get", vec![lit("/v1/x"), ident("h1")]),
                ],
            ),
            handlers(),
        ],
    };
    let n = nav(&p, "/a.ts", "app", "");
    assert_eq!(paths(&n), vec!["/v1/x"]);
    assert_eq!(n.diagnostics.len(), 1);
    match &n.diagnostics[0] {
        Diagnostic::CyclicMount(name) => assert_eq!(name, "app"),
        _ => panic!("expected a cyclic mount"),
    }
}

#[test]
fn unresolved_router_and_missing_arguments() {
    let p = Project {
        units: vec![unit(
            "/a.ts",
            vec![
                call("app", "use", vec![ident("nowhere")]),
                call("app", "use", vec![lit("/p")]),
                call("app", "get", vec![]),
                call("other", "patch", vec![lit("/v1/x")]),
            ],
        )],
    };
    let n = nav(&p, "/a.ts", "app", "");
    assert!(n.routes.is_empty());
    assert_eq!(n.diagnostics.len(), 3);
    match &n.diagnostics[0] {
        Diagnostic::NoRootDefinition(name) => assert_eq!(name, "nowhere"),
        _ => panic!("expected an unresolved router"),
    }
    assert!(matches!(n.diagnostics[1], Diagnostic::MissingArgument(_)));
    assert!(matches!(n.diagnostics[2], Diagnostic::MissingArgument(_)));
}

#[test]
fn unknown_root_gives_none() {
    let p = Project { units: vec![] };
    assert!(navigate_router_tree(&p, &s("/a.ts"), &s("app"), &s("")).is_none());
}

#[test]
fn pending_imports_lists_each_missing_file_once() {
    let p = Project {
        units: vec![
            unit("/a.ts", vec![import("/b.ts", "x", "x"), import("/c.ts", "y", "y")]),
            unit("/b.ts", vec![import("/c.ts", "z", "z"), import("/a.ts", "w", "w")]),
        ],
    };
    assert_eq!(p.pending_imports(), vec![s("/c.ts")]);
}
