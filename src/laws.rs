//! Laws that relate the navigator's and the assembler's results across
//! inputs and calls.

use vstd::prelude::*;
use crate::syntax::Project;
use crate::navigate::{
    Literal, RouteMethod, RouteView, StepView, classify, handler_name, has_version_marker, literal,
    nav_from, navigate_spec, router_call, verb, Navigation, navigates, route_views,
    diagnostic_views,
};
use crate::resolve::resolve_spec;
use crate::describe::{DescribeError, EndpointDescriptionView, describe_spec};
use crate::assemble::{
    InterfaceDocument, PathEntryView, assembles, grouped, in_version, path_position, place,
    unversioned,
};

verus! {

/// Whether `s`, if it is a call on `router`, registers one verb with a
/// literal path and a handler that resolves.
pub open spec fn plain_verb_call(p: Project, u: int, router: Seq<char>, s: crate::syntax::Stmt) -> bool {
    router_call(s, router) matches Some((m, args)) ==> {
        &&& verb(m) is Some
        &&& args.len() > 0
        &&& literal(args[0]) is Path
        &&& handler_name(args.last()) matches Some(h) && resolve_spec(p, u, h) is Some
    }
}

/// The number of calls on `router` among the statements of unit `u` from `i`
/// on whose full path, under `prefix`, carries a version marker.
pub open spec fn versioned_calls(p: Project, u: int, router: Seq<char>, prefix: Seq<char>, i: int) -> nat
    decreases p.units[u].body@.len() - i,
{
    if u < 0 || u >= p.units@.len() || i < 0 || i >= p.units[u].body@.len() {
        0
    } else {
        let here: nat = match router_call(p.units[u].body@[i], router) {
            Some((m, args)) => if args.len() > 0 && (literal(args[0]) matches Literal::Path(x)
                && has_version_marker(prefix + x)) {
                1
            } else {
                0
            },
            None => 0,
        };
        here + versioned_calls(p, u, router, prefix, i + 1)
    }
}

proof fn lemma_plain_count(
    p: Project,
    u: int,
    router: Seq<char>,
    prefix: Seq<char>,
    active: Seq<(int, Seq<char>)>,
    fuel: nat,
    i: int,
)
    requires
        0 <= u < p.units@.len(),
        0 <= i,
        forall|k: int|
            0 <= k < p.units[u].body@.len() ==> plain_verb_call(
                p,
                u,
                router,
                #[trigger] p.units[u].body@[k],
            ),
    ensures
        nav_from(p, u, router, prefix, active, fuel, i).0.len() == versioned_calls(
            p,
            u,
            router,
            prefix,
            i,
        ),
    decreases p.units[u].body@.len() - i,
{
    if i < p.units[u].body@.len() {
        lemma_plain_count(p, u, router, prefix, active, fuel, i + 1);
        let s = p.units[u].body@[i];
        assert(plain_verb_call(p, u, router, s));
        if let Some((m, args)) = router_call(s, router) {
            reveal_strlit("use");
            reveal_strlit("get");
            reveal_strlit("post");
            reveal_strlit("put");
            reveal_strlit("delete");
            assert(m != "use"@) by {
                if m == "use"@ {
                    assert(m[0] == 'u');
                }
            }
            let c = classify(p, u, router, prefix, s);
            if let Literal::Path(x) = literal(args[0]) {
                if has_version_marker(prefix + x) {
                    assert(c is Emit);
                } else {
                    assert(c == StepView::Skip(None));
                }
            }
        }
    }
}

/// In a file whose calls on the router are all plain verb registrations (a
/// literal path, a handler that resolves, no `use`), the navigator yields one
/// route per call whose full path carries a version marker.
pub proof fn law_plain_router_count(p: Project, u: int, router: Seq<char>, prefix: Seq<char>)
    requires
        0 <= u < p.units@.len(),
        forall|k: int|
            0 <= k < p.units[u].body@.len() ==> plain_verb_call(
                p,
                u,
                router,
                #[trigger] p.units[u].body@[k],
            ),
    ensures
        navigate_spec(p, u, router, prefix).0.len() == versioned_calls(p, u, router, prefix, 0),
{
    lemma_plain_count(p, u, router, prefix, seq![], crate::navigate::mount_limit(p), 0);
}

proof fn lemma_routes_under_prefix(
    p: Project,
    u: int,
    router: Seq<char>,
    prefix: Seq<char>,
    active: Seq<(int, Seq<char>)>,
    fuel: nat,
    i: int,
)
    ensures
        forall|k: int|
            0 <= k < nav_from(p, u, router, prefix, active, fuel, i).0.len() ==> {
                let r = #[trigger] nav_from(p, u, router, prefix, active, fuel, i).0[k];
                prefix.is_prefix_of(r.path) && has_version_marker(r.path)
            },
    decreases fuel, p.units[u].body@.len() - i,
{
    if 0 <= u < p.units@.len() && 0 <= i < p.units[u].body@.len() {
        lemma_routes_under_prefix(p, u, router, prefix, active, fuel, i + 1);
        let chain = active.push((u, router));
        let whole = nav_from(p, u, router, prefix, active, fuel, i);
        let rest = nav_from(p, u, router, prefix, active, fuel, i + 1);
        match classify(p, u, router, prefix, p.units[u].body@[i]) {
            StepView::Mount(v, n, m) => {
                if !chain.contains((v, n)) && fuel > 0 {
                    let sub = nav_from(p, v, n, m, chain, (fuel - 1) as nat, 0);
                    lemma_routes_under_prefix(p, v, n, m, chain, (fuel - 1) as nat, 0);
                    assert(prefix.is_prefix_of(m)) by {
                        lemma_mount_extends(p, u, router, prefix, p.units[u].body@[i]);
                    }
                    assert forall|k: int| 0 <= k < whole.0.len() implies {
                        let r = #[trigger] whole.0[k];
                        prefix.is_prefix_of(r.path) && has_version_marker(r.path)
                    } by {
                        if k < sub.0.len() {
                            assert(whole.0[k] == sub.0[k]);
                            assert(m.is_prefix_of(sub.0[k].path));
                            assert(prefix =~= sub.0[k].path.subrange(0, prefix.len() as int));
                        } else {
                            assert(whole.0[k] == rest.0[k - sub.0.len()]);
                        }
                    }
                }
            },
            StepView::Emit(r) => {
                assert forall|k: int| 0 <= k < whole.0.len() implies {
                    let r = #[trigger] whole.0[k];
                    prefix.is_prefix_of(r.path) && has_version_marker(r.path)
                } by {
                    if k == 0 {
                        lemma_emit_under_prefix(p, u, router, prefix, p.units[u].body@[i]);
                    } else {
                        assert(whole.0[k] == rest.0[k - 1]);
                    }
                }
            },
            _ => {},
        }
    }
}

proof fn lemma_mount_extends(
    p: Project,
    u: int,
    router: Seq<char>,
    prefix: Seq<char>,
    s: crate::syntax::Stmt,
)
    ensures
        classify(p, u, router, prefix, s) matches StepView::Mount(_, _, m) ==> prefix.is_prefix_of(
            m,
        ),
{
    if let Some((method, args)) = router_call(s, router) {
        if args.len() > 0 {
            if let Literal::Path(x) = literal(args[0]) {
                assert(prefix =~= (prefix + x).subrange(0, prefix.len() as int));
            } else {
                assert(prefix =~= prefix.subrange(0, prefix.len() as int));
            }
        }
    }
}

proof fn lemma_emit_under_prefix(
    p: Project,
    u: int,
    router: Seq<char>,
    prefix: Seq<char>,
    s: crate::syntax::Stmt,
)
    ensures
        classify(p, u, router, prefix, s) matches StepView::Emit(r) ==> prefix.is_prefix_of(r.path)
            && has_version_marker(r.path),
{
    if let Some((method, args)) = router_call(s, router) {
        if args.len() > 0 {
            if let Literal::Path(x) = literal(args[0]) {
                assert(prefix =~= (prefix + x).subrange(0, prefix.len() as int));
            }
        }
    }
}

/// Every route that navigation under `prefix` yields has a full path that
/// starts with `prefix`, so prefixes of nested mounts accumulate outermost
/// first; and every one carries a version marker (`/v1` or `/v2`).
pub proof fn law_routes_under_prefix(p: Project, u: int, router: Seq<char>, prefix: Seq<char>)
    ensures
        forall|k: int|
            0 <= k < navigate_spec(p, u, router, prefix).0.len() ==> {
                let r = #[trigger] navigate_spec(p, u, router, prefix).0[k];
                prefix.is_prefix_of(r.path) && has_version_marker(r.path)
            },
{
    lemma_routes_under_prefix(p, u, router, prefix, seq![], crate::navigate::mount_limit(p), 0);
}

/// What the slot of verb `m` of an entry holds.
pub open spec fn slot(e: PathEntryView, m: RouteMethod) -> Option<EndpointDescriptionView> {
    match m {
        RouteMethod::Get => e.get,
        RouteMethod::Post => e.post,
        RouteMethod::Put => e.put,
        RouteMethod::Delete => e.delete,
    }
}

proof fn lemma_path_position_found(es: Seq<PathEntryView>, path: Seq<char>, i: int)
    ensures
        path_position(es, path, i) matches Some(k) ==> 0 <= k < es.len() && es[k].path == path,
    decreases es.len() - i,
{
    if 0 <= i < es.len() && es[i].path != path {
        lemma_path_position_found(es, path, i + 1);
    }
}

/// A route registered after others, at a path and verb that one of them may
/// already hold, is the one whose description the assembled entry for that
/// path holds in that verb's slot.
pub proof fn law_later_registration_wins(
    p: Project,
    rs: Seq<RouteView>,
    r: RouteView,
    version: Seq<char>,
)
    requires
        grouped(p, rs, version) is Ok,
        in_version(r, version),
        describe_spec(p, unversioned(r, version)) is Ok,
    ensures
        grouped(p, rs.push(r), version) is Ok,
        exists|k: int|
            0 <= k < grouped(p, rs.push(r), version)->Ok_0.len() && #[trigger] grouped(
                p,
                rs.push(r),
                version,
            )->Ok_0[k].path == unversioned(r, version).path && slot(
                grouped(p, rs.push(r), version)->Ok_0[k],
                r.method,
            ) == Some(describe_spec(p, unversioned(r, version))->Ok_0),
{
    assert(rs.push(r).drop_last() =~= rs);
    let es = grouped(p, rs, version)->Ok_0;
    let u = unversioned(r, version);
    let d = describe_spec(p, u)->Ok_0;
    let out = place(es, u.path, d);
    lemma_path_position_found(es, u.path, 0);
    assert(rs.push(r).last() == r);
    assert(grouped(p, rs.push(r), version) == Ok::<
        Seq<PathEntryView>,
        crate::describe::DescribeErrorView,
    >(out));
    assert(d.method == r.method);
    let k = match path_position(es, u.path, 0) {
        Some(k) => k,
        None => es.len() as int,
    };
    assert(0 <= k < out.len() && out[k].path == u.path && slot(out[k], r.method) == Some(d));
    let g = grouped(p, rs.push(r), version)->Ok_0;
    assert(g == out);
    assert(g[k].path == unversioned(r, version).path);
    assert(slot(g[k], r.method) == Some(describe_spec(p, unversioned(r, version))->Ok_0));
}

/// The view of an assembly's outcome.
pub open spec fn outcome_view(r: Result<InterfaceDocument, DescribeError>) -> Result<
    crate::assemble::InterfaceDocumentView,
    crate::describe::DescribeErrorView,
> {
    match r {
        Ok(doc) => Ok(doc@),
        Err(e) => Err(e@),
    }
}

/// Running the whole pipeline twice over the same units, from the same root
/// router, for the same version, gives the same routes, diagnostics and
/// document (or the same failure) both times.
pub proof fn law_pipeline_is_deterministic(
    p: Project,
    root: Seq<char>,
    router: Seq<char>,
    version: Seq<char>,
    n1: Navigation,
    n2: Navigation,
    r1: Result<InterfaceDocument, DescribeError>,
    r2: Result<InterfaceDocument, DescribeError>,
)
    requires
        navigates(p, root, router, seq![], Some(n1)),
        navigates(p, root, router, seq![], Some(n2)),
        assembles(p, route_views(n1.routes@), version, r1),
        assembles(p, route_views(n2.routes@), version, r2),
    ensures
        route_views(n1.routes@) == route_views(n2.routes@),
        diagnostic_views(n1.diagnostics@) == diagnostic_views(n2.diagnostics@),
        outcome_view(r1) == outcome_view(r2),
{
}

} // verus!
