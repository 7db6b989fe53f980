//! The router tree navigator: from a router object declared in a file, every
//! route registered on it, with mounted sub-routers expanded in place.

use vstd::prelude::*;
use vstd::string::*;
use crate::syntax::{Expr, Project, Stmt, SourceUnit};
use crate::resolve::{resolve_spec, hop_limit, hop_limit_of, resolve_in};

verus! {

/// The HTTP verbs that route discovery recognizes.
#[derive(Clone, Copy, Debug, PartialEq, Eq, Structural)]
pub enum RouteMethod {
    Get,
    Post,
    Put,
    Delete,
}

/// One discovered endpoint.
pub struct Route {
    pub method: RouteMethod,
    /// The full path: the accumulated mount prefix followed by the path given
    /// at registration.
    pub path: String,
    /// The name of the handler's declaration, in the file that declares it.
    pub handler_identifier: String,
    /// The file that declares the handler.
    pub handler_file_path: String,
    /// Whether the registration passes the authentication middleware.
    pub has_auth: bool,
}

/// A route, with its text as character sequences.
pub struct RouteView {
    pub method: RouteMethod,
    pub path: Seq<char>,
    pub handler_identifier: Seq<char>,
    pub handler_file_path: Seq<char>,
    pub has_auth: bool,
}

impl View for Route {
    type V = RouteView;

    open spec fn view(&self) -> RouteView {
        RouteView {
            method: self.method,
            path: self.path@,
            handler_identifier: self.handler_identifier@,
            handler_file_path: self.handler_file_path@,
            has_auth: self.has_auth,
        }
    }
}

/// A construct that route discovery skipped, and why.
pub enum Diagnostic {
    /// A path given as a template literal with substitutions.
    UnsupportedTemplate,
    /// A mounted router whose identifier does not resolve.
    NoRootDefinition(String),
    /// A route of this method and full path whose last argument is no handler.
    NoHandler(String, String),
    /// A handler identifier that does not resolve.
    NoHandlerDefinition(String),
    /// A registration call with a method outside the recognized verbs.
    UnsupportedMethod(String),
    /// A call of this method that lacks the argument it needs.
    MissingArgument(String),
    /// A mount of a router that is already being expanded on the current
    /// chain of mounts.
    CyclicMount(String),
    /// A mount deeper than the number of statements in the project, which a
    /// chain without repeated routers never reaches.
    MountTooDeep(String),
}

/// A diagnostic, with its text as character sequences.
pub enum DiagnosticView {
    UnsupportedTemplate,
    NoRootDefinition(Seq<char>),
    NoHandler(Seq<char>, Seq<char>),
    NoHandlerDefinition(Seq<char>),
    UnsupportedMethod(Seq<char>),
    MissingArgument(Seq<char>),
    CyclicMount(Seq<char>),
    MountTooDeep(Seq<char>),
}

impl View for Diagnostic {
    type V = DiagnosticView;

    open spec fn view(&self) -> DiagnosticView {
        match self {
            Diagnostic::UnsupportedTemplate => DiagnosticView::UnsupportedTemplate,
            Diagnostic::NoRootDefinition(n) => DiagnosticView::NoRootDefinition(n@),
            Diagnostic::NoHandler(m, p) => DiagnosticView::NoHandler(m@, p@),
            Diagnostic::NoHandlerDefinition(n) => DiagnosticView::NoHandlerDefinition(n@),
            Diagnostic::UnsupportedMethod(m) => DiagnosticView::UnsupportedMethod(m@),
            Diagnostic::MissingArgument(m) => DiagnosticView::MissingArgument(m@),
            Diagnostic::CyclicMount(n) => DiagnosticView::CyclicMount(n@),
            Diagnostic::MountTooDeep(n) => DiagnosticView::MountTooDeep(n@),
        }
    }
}

/// Whether a path carries a version marker: it starts with `/v1` or `/v2`.
pub open spec fn has_version_marker(path: Seq<char>) -> bool {
    seq!['/', 'v', '1'].is_prefix_of(path) || seq!['/', 'v', '2'].is_prefix_of(path)
}

/// The pattern that selects versioned paths.
pub open spec fn version_pattern() -> Seq<char> {
    seq!['^', '/', 'v', '[', '1', '2', ']', '+']
}

/// Relies on `regex::Regex::new` and `regex::Regex::is_match`: `^/v[12]+` is
/// a valid pattern, and it matches a text exactly when the text starts with
/// `/v` followed by `1` or `2`.
#[verifier::external_body]
fn regex_is_match(pattern: &str, text: &str) -> (r: bool)
    requires
        pattern@ == version_pattern(),
    ensures
        r == has_version_marker(text@),
{
    regex::Regex::new(pattern).unwrap().is_match(text)
}

/// The method name and arguments of a statement of the shape
/// `router.<method>(<args>)`.
pub open spec fn router_call(s: Stmt, router: Seq<char>) -> Option<(Seq<char>, Seq<Expr>)> {
    match s {
        Stmt::Expression(Expr::Call(callee, args)) => match *callee {
            Expr::Member(obj, prop) => match *obj {
                Expr::Ident(n) => if n@ == router {
                    Some((prop@, args@))
                } else {
                    None
                },
                _ => None,
            },
            _ => None,
        },
        _ => None,
    }
}

/// What the first argument of a registration call gives as a path.
pub enum Literal {
    Path(Seq<char>),
    Unsupported,
    NotLiteral,
}

/// A string literal, or a template literal with a single quasi, gives its
/// value; any other template literal is unsupported.
pub open spec fn literal(e: Expr) -> Literal {
    match e {
        Expr::Str(s) => Literal::Path(s@),
        Expr::Template(qs) => if qs@.len() == 1 && qs@[0] is Some {
            Literal::Path(qs@[0]->0@)
        } else {
            Literal::Unsupported
        },
        _ => Literal::NotLiteral,
    }
}

/// The name of a callee: an identifier, or the property of a member access.
pub open spec fn callee_name(e: Expr) -> Option<Seq<char>> {
    match e {
        Expr::Ident(n) => Some(n@),
        Expr::Member(_, prop) => Some(prop@),
        _ => None,
    }
}

/// The handler identifier that the last argument of a route names: a bare
/// identifier, or the first argument of a call to `wrap` when that is one.
pub open spec fn handler_name(e: Expr) -> Option<Seq<char>> {
    match e {
        Expr::Ident(n) => Some(n@),
        Expr::Call(callee, cargs) => if callee_name(*callee) == Some("wrap"@) && cargs@.len() > 0 {
            match cargs@[0] {
                Expr::Ident(n) => Some(n@),
                _ => None,
            }
        } else {
            None
        },
        _ => None,
    }
}

/// Whether an argument is the authentication middleware: the bare identifier
/// `authMiddleware`, or a call whose callee is that identifier.
pub open spec fn is_auth(e: Expr) -> bool {
    match e {
        Expr::Ident(n) => n@ == "authMiddleware"@,
        Expr::Call(callee, _) => match *callee {
            Expr::Ident(n) => n@ == "authMiddleware"@,
            _ => false,
        },
        _ => false,
    }
}

/// Whether any argument is the authentication middleware.
pub open spec fn any_auth(args: Seq<Expr>) -> bool {
    exists|k: int| 0 <= k < args.len() && is_auth(#[trigger] args[k])
}

/// The verb that a method name denotes.
pub open spec fn verb(m: Seq<char>) -> Option<RouteMethod> {
    if m == "get"@ {
        Some(RouteMethod::Get)
    } else if m == "post"@ {
        Some(RouteMethod::Post)
    } else if m == "put"@ {
        Some(RouteMethod::Put)
    } else if m == "delete"@ {
        Some(RouteMethod::Delete)
    } else {
        None
    }
}

/// What one top-level statement contributes.
pub enum StepView {
    /// Nothing, with or without a diagnostic.
    Skip(Option<DiagnosticView>),
    /// One route.
    Emit(RouteView),
    /// The routes of router `name` of unit `unit`, under the mount prefix.
    Mount(int, Seq<char>, Seq<char>),
}

/// What statement `s` of unit `u` contributes to the routes of `router`
/// under `prefix`.
pub open spec fn classify(p: Project, u: int, router: Seq<char>, prefix: Seq<char>, s: Stmt)
    -> StepView
{
    match router_call(s, router) {
        None => StepView::Skip(None),
        Some((method, args)) => if args.len() == 0 {
            StepView::Skip(Some(DiagnosticView::MissingArgument(method)))
        } else if method == "use"@ {
            let lit = literal(args[0]);
            let mount = match lit {
                Literal::Path(x) => prefix + x,
                _ => prefix,
            };
            let at: int = if lit is Path { 1 } else { 0 };
            if at >= args.len() {
                StepView::Skip(Some(DiagnosticView::MissingArgument(method)))
            } else {
                match args[at] {
                    Expr::Ident(name) => match resolve_spec(p, u, name@) {
                        Some((v, n)) => StepView::Mount(v, n, mount),
                        None => StepView::Skip(Some(DiagnosticView::NoRootDefinition(name@))),
                    },
                    _ => StepView::Skip(
                        if lit is Unsupported {
                            Some(DiagnosticView::UnsupportedTemplate)
                        } else {
                            None
                        },
                    ),
                }
            }
        } else {
            match literal(args[0]) {
                Literal::Path(x) => match verb(method) {
                    None => StepView::Skip(Some(DiagnosticView::UnsupportedMethod(method))),
                    Some(m) => {
                        let full = prefix + x;
                        if !has_version_marker(full) {
                            StepView::Skip(None)
                        } else {
                            match handler_name(args.last()) {
                                None => StepView::Skip(
                                    Some(DiagnosticView::NoHandler(method, full)),
                                ),
                                Some(h) => match resolve_spec(p, u, h) {
                                    None => StepView::Skip(
                                        Some(DiagnosticView::NoHandlerDefinition(h)),
                                    ),
                                    Some((v, n)) => StepView::Emit(
                                        RouteView {
                                            method: m,
                                            path: full,
                                            handler_identifier: n,
                                            handler_file_path: p.units[v].path@,
                                            has_auth: any_auth(args),
                                        },
                                    ),
                                },
                            }
                        }
                    },
                },
                Literal::Unsupported => StepView::Skip(Some(DiagnosticView::UnsupportedTemplate)),
                Literal::NotLiteral => StepView::Skip(None),
            }
        }
    }
}

/// The routes and diagnostics of `router` in unit `u`, from statement `i`
/// on, under `prefix`. `active` holds the routers being expanded on the chain
/// of mounts that led here, and `fuel` bounds the depth of further mounts.
pub open spec fn nav_from(
    p: Project,
    u: int,
    router: Seq<char>,
    prefix: Seq<char>,
    active: Seq<(int, Seq<char>)>,
    fuel: nat,
    i: int,
) -> (Seq<RouteView>, Seq<DiagnosticView>)
    decreases fuel, p.units[u].body@.len() - i,
{
    if u < 0 || u >= p.units@.len() || i < 0 || i >= p.units[u].body@.len() {
        (seq![], seq![])
    } else {
        let rest = nav_from(p, u, router, prefix, active, fuel, i + 1);
        let chain = active.push((u, router));
        let here: (Seq<RouteView>, Seq<DiagnosticView>) = match classify(
            p,
            u,
            router,
            prefix,
            p.units[u].body@[i],
        ) {
            StepView::Skip(None) => (seq![], seq![]),
            StepView::Skip(Some(d)) => (seq![], seq![d]),
            StepView::Emit(r) => (seq![r], seq![]),
            StepView::Mount(v, n, m) => if chain.contains((v, n)) {
                (seq![], seq![DiagnosticView::CyclicMount(n)])
            } else if fuel == 0 {
                (seq![], seq![DiagnosticView::MountTooDeep(n)])
            } else {
                nav_from(p, v, n, m, chain, (fuel - 1) as nat, 0)
            },
        };
        (here.0 + rest.0, here.1 + rest.1)
    }
}

/// The number of top-level statements in a sequence of units.
pub open spec fn statements_in(units: Seq<SourceUnit>) -> int
    decreases units.len(),
{
    if units.len() == 0 {
        0
    } else {
        statements_in(units.drop_last()) + units.last().body@.len()
    }
}

/// The depth of mounts that navigation allows: one per top-level statement
/// of the project (capped at the largest `usize`). A chain of mounts with no
/// repeated router mounts each level from a different statement, so it never
/// goes deeper.
pub open spec fn mount_limit(p: Project) -> nat {
    let n = statements_in(p.units@);
    if n > usize::MAX {
        usize::MAX as nat
    } else {
        n as nat
    }
}

/// The routes and diagnostics of `router` in unit `u` under `prefix`.
pub open spec fn navigate_spec(p: Project, u: int, router: Seq<char>, prefix: Seq<char>) -> (
    Seq<RouteView>,
    Seq<DiagnosticView>,
) {
    nav_from(p, u, router, prefix, seq![], mount_limit(p), 0)
}

/// The views of a sequence of routes.
pub open spec fn route_views(rs: Seq<Route>) -> Seq<RouteView> {
    rs.map_values(|r: Route| r@)
}

/// The views of a sequence of diagnostics.
pub open spec fn diagnostic_views(ds: Seq<Diagnostic>) -> Seq<DiagnosticView> {
    ds.map_values(|d: Diagnostic| d@)
}

/// The views of a chain of active routers.
pub open spec fn chain_view(c: Seq<(usize, String)>) -> Seq<(int, Seq<char>)> {
    c.map_values(|e: (usize, String)| (e.0 as int, e.1@))
}

proof fn lemma_statements_nonneg(units: Seq<SourceUnit>)
    ensures
        statements_in(units) >= 0,
    decreases units.len(),
{
    if units.len() > 0 {
        lemma_statements_nonneg(units.drop_last());
    }
}

fn mount_limit_of(p: &Project) -> (r: usize)
    ensures
        r as nat == mount_limit(*p),
{
    let mut total: usize = 0;
    let mut i: usize = 0;
    while i < p.units.len()
        invariant
            i <= p.units@.len(),
            total as nat == (if statements_in(p.units@.take(i as int)) > usize::MAX {
                usize::MAX as int
            } else {
                statements_in(p.units@.take(i as int))
            }),
        decreases p.units@.len() - i,
    {
        proof {
            assert(p.units@.take(i as int + 1).drop_last() =~= p.units@.take(i as int));
            lemma_statements_nonneg(p.units@.take(i as int));
        }
        total = total.saturating_add(p.units[i].body.len());
        i = i + 1;
    }
    proof {
        assert(p.units@.take(p.units@.len() as int) =~= p.units@);
    }
    total
}

fn router_call_of<'a>(s: &'a Stmt, router: &String) -> (r: Option<(&'a String, &'a Vec<Expr>)>)
    ensures
        match r {
            Some((m, args)) => router_call(*s, router@) == Some((m@, args@)),
            None => router_call(*s, router@) is None,
        },
{
    match s {
        Stmt::Expression(Expr::Call(callee, args)) => match &**callee {
            Expr::Member(obj, prop) => match &**obj {
                Expr::Ident(n) => if *n == *router {
                    Some((prop, args))
                } else {
                    None
                },
                _ => None,
            },
            _ => None,
        },
        _ => None,
    }
}

/// The path that an argument gives: `None` when it is no literal, `Some(None)`
/// when it is an unsupported template literal.
fn literal_of(e: &Expr) -> (r: Option<Option<String>>)
    ensures
        match literal(*e) {
            Literal::Path(x) => r matches Some(Some(s)) && s@ == x,
            Literal::Unsupported => r == Some(None::<String>),
            Literal::NotLiteral => r is None,
        },
{
    match e {
        Expr::Str(s) => Some(Some(s.clone())),
        Expr::Template(qs) => if qs.len() == 1 {
            match &qs[0] {
                Some(q) => Some(Some(q.clone())),
                None => Some(None),
            }
        } else {
            Some(None)
        },
        _ => None,
    }
}

fn handler_name_of(e: &Expr) -> (r: Option<String>)
    ensures
        match handler_name(*e) {
            Some(h) => r matches Some(s) && s@ == h,
            None => r is None,
        },
{
    match e {
        Expr::Ident(n) => Some(n.clone()),
        Expr::Call(callee, cargs) => {
            let is_wrap = match &**callee {
                Expr::Ident(n) => crate::text::same_text(n.as_str(), "wrap"),
                Expr::Member(_, prop) => crate::text::same_text(prop.as_str(), "wrap"),
                _ => false,
            };
            if is_wrap && cargs.len() > 0 {
                match &cargs[0] {
                    Expr::Ident(n) => Some(n.clone()),
                    _ => None,
                }
            } else {
                None
            }
        },
        _ => None,
    }
}

fn is_auth_of(e: &Expr) -> (r: bool)
    ensures
        r == is_auth(*e),
{
    match e {
        Expr::Ident(n) => crate::text::same_text(n.as_str(), "authMiddleware"),
        Expr::Call(callee, _) => match &**callee {
            Expr::Ident(n) => crate::text::same_text(n.as_str(), "authMiddleware"),
            _ => false,
        },
        _ => false,
    }
}

fn any_auth_of(args: &Vec<Expr>) -> (r: bool)
    ensures
        r == any_auth(args@),
{
    let mut k: usize = 0;
    while k < args.len()
        invariant
            k <= args@.len(),
            forall|t: int| 0 <= t < k ==> !is_auth(#[trigger] args@[t]),
        decreases args@.len() - k,
    {
        if is_auth_of(&args[k]) {
            return true;
        }
        k = k + 1;
    }
    false
}

fn verb_of(m: &String) -> (r: Option<RouteMethod>)
    ensures
        r == verb(m@),
{
    if crate::text::same_text(m.as_str(), "get") {
        Some(RouteMethod::Get)
    } else if crate::text::same_text(m.as_str(), "post") {
        Some(RouteMethod::Post)
    } else if crate::text::same_text(m.as_str(), "put") {
        Some(RouteMethod::Put)
    } else if crate::text::same_text(m.as_str(), "delete") {
        Some(RouteMethod::Delete)
    } else {
        None
    }
}

/// What one statement contributes, as computed.
enum Step {
    Skip(Option<Diagnostic>),
    Emit(Route),
    Mount(usize, String, String),
}

spec fn step_view(s: Step) -> StepView {
    match s {
        Step::Skip(Some(d)) => StepView::Skip(Some(d@)),
        Step::Skip(None) => StepView::Skip(None),
        Step::Emit(r) => StepView::Emit(r@),
        Step::Mount(v, n, m) => StepView::Mount(v as int, n@, m@),
    }
}

fn concat(a: &String, b: &String) -> (r: String)
    ensures
        r@ == a@ + b@,
{
    let mut r = a.clone();
    r.append(b.as_str());
    r
}

fn classify_of(p: &Project, u: usize, router: &String, prefix: &String, s: &Stmt, hops: usize) -> (r:
    Step)
    requires
        u < p.units@.len(),
        hops == hop_limit(*p),
    ensures
        step_view(r) == classify(*p, u as int, router@, prefix@, *s),
        r matches Step::Mount(v, _, _) ==> v < p.units@.len(),
{
    let (method, args) = match router_call_of(s, router) {
        None => {
            return Step::Skip(None);
        },
        Some(c) => c,
    };
    if args.len() == 0 {
        return Step::Skip(Some(Diagnostic::MissingArgument(method.clone())));
    }
    let lit = literal_of(&args[0]);
    if crate::text::same_text(method.as_str(), "use") {
        let (mount, at) = match &lit {
            Some(Some(x)) => (concat(prefix, x), 1usize),
            _ => (prefix.clone(), 0usize),
        };
        if at >= args.len() {
            return Step::Skip(Some(Diagnostic::MissingArgument(method.clone())));
        }
        match &args[at] {
            Expr::Ident(name) => match resolve_in(p, u, name, hops) {
                Some((v, n)) => Step::Mount(v, n, mount),
                None => Step::Skip(Some(Diagnostic::NoRootDefinition(name.clone()))),
            },
            _ => Step::Skip(
                match lit {
                    Some(None) => Some(Diagnostic::UnsupportedTemplate),
                    _ => None,
                },
            ),
        }
    } else {
        match lit {
            Some(Some(x)) => match verb_of(method) {
                None => Step::Skip(Some(Diagnostic::UnsupportedMethod(method.clone()))),
                Some(m) => {
                    let full = concat(prefix, &x);
                    proof {
                        reveal_strlit("^/v[12]+");
                        assert("^/v[12]+"@ =~= version_pattern());
                    }
                    if !regex_is_match("^/v[12]+", full.as_str()) {
                        Step::Skip(None)
                    } else {
                        match handler_name_of(&args[args.len() - 1]) {
                            None => Step::Skip(Some(Diagnostic::NoHandler(method.clone(), full))),
                            Some(h) => match resolve_in(p, u, &h, hops) {
                                None => Step::Skip(Some(Diagnostic::NoHandlerDefinition(h))),
                                Some((v, n)) => Step::Emit(
                                    Route {
                                        method: m,
                                        path: full,
                                        handler_identifier: n,
                                        handler_file_path: p.units[v].path.clone(),
                                        has_auth: any_auth_of(args),
                                    },
                                ),
                            },
                        }
                    }
                },
            },
            Some(None) => Step::Skip(Some(Diagnostic::UnsupportedTemplate)),
            None => Step::Skip(None),
        }
    }
}

fn extend_chain(active: &Vec<(usize, String)>, u: usize, router: &String) -> (r: Vec<
    (usize, String),
>)
    ensures
        chain_view(r@) == chain_view(active@).push((u as int, router@)),
{
    let mut r: Vec<(usize, String)> = Vec::new();
    let mut k: usize = 0;
    while k < active.len()
        invariant
            k <= active@.len(),
            r@.len() == k,
            chain_view(r@) == chain_view(active@).take(k as int),
        decreases active@.len() - k,
    {
        let e = (active[k].0, active[k].1.clone());
        let ghost before = r@;
        r.push(e);
        proof {
            assert(r@ == before.push(e));
            assert(chain_view(r@)[k as int] == chain_view(active@)[k as int]);
            assert forall|t: int| 0 <= t < k implies chain_view(r@)[t] == chain_view(
                active@,
            ).take(k as int + 1)[t] by {
                assert(r@[t] == before[t]);
                assert(chain_view(before)[t] == chain_view(active@).take(k as int)[t]);
            }
            assert(chain_view(r@) =~= chain_view(active@).take(k as int + 1));
        }
        k = k + 1;
    }
    let ghost before = r@;
    r.push((u, router.clone()));
    proof {
        assert(chain_view(active@).take(active@.len() as int) =~= chain_view(active@));
        assert forall|t: int| 0 <= t < active@.len() implies chain_view(r@)[t] == chain_view(
            active@,
        )[t] by {
            assert(r@[t] == before[t]);
            assert(chain_view(before)[t] == chain_view(active@).take(active@.len() as int)[t]);
        }
        assert(chain_view(r@) =~= chain_view(active@).push((u as int, router@)));
    }
    r
}

fn chain_contains(chain: &Vec<(usize, String)>, v: usize, n: &String) -> (r: bool)
    ensures
        r == chain_view(chain@).contains((v as int, n@)),
{
    let mut k: usize = 0;
    while k < chain.len()
        invariant
            k <= chain@.len(),
            forall|t: int| 0 <= t < k ==> chain_view(chain@)[t] != (v as int, n@),
        decreases chain@.len() - k,
    {
        if chain[k].0 == v && chain[k].1 == *n {
            assert(chain_view(chain@)[k as int] == (v as int, n@));
            return true;
        }
        k = k + 1;
    }
    false
}

fn navigate_in(
    p: &Project,
    u: usize,
    router: &String,
    prefix: &String,
    active: &Vec<(usize, String)>,
    fuel: usize,
    hops: usize,
) -> (r: (Vec<Route>, Vec<Diagnostic>))
    requires
        u < p.units@.len(),
        hops == hop_limit(*p),
    ensures
        (route_views(r.0@), diagnostic_views(r.1@)) == nav_from(
            *p,
            u as int,
            router@,
            prefix@,
            chain_view(active@),
            fuel as nat,
            0,
        ),
    decreases fuel,
{
    let chain = extend_chain(active, u, router);
    let body = &p.units[u].body;
    let mut routes: Vec<Route> = Vec::new();
    let mut diags: Vec<Diagnostic> = Vec::new();
    let mut i: usize = 0;
    let ghost whole = nav_from(*p, u as int, router@, prefix@, chain_view(active@), fuel as nat, 0);
    while i < body.len()
        invariant
            u < p.units@.len(),
            hops == hop_limit(*p),
            body == &p.units@[u as int].body,
            i <= body@.len(),
            chain_view(chain@) == chain_view(active@).push((u as int, router@)),
            whole == nav_from(*p, u as int, router@, prefix@, chain_view(active@), fuel as nat, 0),
            whole.0 == route_views(routes@) + nav_from(
                *p,
                u as int,
                router@,
                prefix@,
                chain_view(active@),
                fuel as nat,
                i as int,
            ).0,
            whole.1 == diagnostic_views(diags@) + nav_from(
                *p,
                u as int,
                router@,
                prefix@,
                chain_view(active@),
                fuel as nat,
                i as int,
            ).1,
        decreases body@.len() - i,
    {
        let ghost rest = nav_from(*p, u as int, router@, prefix@, chain_view(active@), fuel as nat, i + 1);
        let ghost old_routes = routes@;
        let ghost old_diags = diags@;
        let step = classify_of(p, u, router, prefix, &body[i], hops);
        match step {
            Step::Skip(None) => {},
            Step::Skip(Some(d)) => {
                diags.push(d);
            },
            Step::Emit(r) => {
                routes.push(r);
            },
            Step::Mount(v, n, m) => {
                if chain_contains(&chain, v, &n) {
                    diags.push(Diagnostic::CyclicMount(n));
                } else if fuel == 0 {
                    diags.push(Diagnostic::MountTooDeep(n));
                } else {
                    let (mut rs, mut ds) = navigate_in(p, v, &n, &m, &chain, fuel - 1, hops);
                    routes.append(&mut rs);
                    diags.append(&mut ds);
                }
            },
        }
        proof {
            assert(route_views(routes@) + rest.0 =~= route_views(old_routes) + nav_from(
                *p,
                u as int,
                router@,
                prefix@,
                chain_view(active@),
                fuel as nat,
                i as int,
            ).0);
            assert(diagnostic_views(diags@) + rest.1 =~= diagnostic_views(old_diags) + nav_from(
                *p,
                u as int,
                router@,
                prefix@,
                chain_view(active@),
                fuel as nat,
                i as int,
            ).1);
        }
        i = i + 1;
    }
    proof {
        assert(route_views(routes@) =~= route_views(routes@) + Seq::<RouteView>::empty());
        assert(diagnostic_views(diags@) =~= diagnostic_views(diags@) + Seq::<DiagnosticView>::empty());
    }
    (routes, diags)
}

/// The routes and diagnostics that navigation gathered, in source order.
pub struct Navigation {
    pub routes: Vec<Route>,
    pub diagnostics: Vec<Diagnostic>,
}

/// Whether `r` is the outcome of navigating from `router` in the file at
/// `root` under `prefix`.
pub open spec fn navigates(
    p: Project,
    root: Seq<char>,
    router: Seq<char>,
    prefix: Seq<char>,
    r: Option<Navigation>,
) -> bool {
    match crate::syntax::unit_index(p, root) {
        None => r is None,
        Some(u) => r matches Some(n) && (route_views(n.routes@), diagnostic_views(n.diagnostics@))
            == navigate_spec(p, u, router, prefix),
    }
}

/// Every route registered on the router bound to `identifier` in the file at
/// `root`, under `prefix`, in source order, with each mounted sub-router's
/// routes expanded at its `use` call; and a diagnostic for each construct
/// skipped. `None` where `root` is not a unit of the project.
pub fn navigate_router_tree(project: &Project, root: &String, identifier: &String, prefix: &String)
    -> (r: Option<Navigation>)
    ensures
        navigates(*project, root@, identifier@, prefix@, r),
{
    match project.unit_index(root) {
        None => None,
        Some(u) => {
            let hops = hop_limit_of(project);
            let fuel = mount_limit_of(project);
            let active: Vec<(usize, String)> = Vec::new();
            proof {
                assert(chain_view(active@) =~= Seq::<(int, Seq<char>)>::empty());
            }
            let (routes, diagnostics) = navigate_in(project, u, identifier, prefix, &active, fuel, hops);
            Some(Navigation { routes, diagnostics })
        },
    }
}

} // verus!
