//! Declaration resolution: from an identifier used in a file to the file and
//! top-level declaration that introduce it, following imports across files.

use vstd::prelude::*;
use crate::syntax::{Decl, ImportBinding, Project, SourceUnit, Stmt};

verus! {

/// Where an identifier is declared: the declaring file and the name the
/// declaration has there.
pub struct DeclarationRef {
    pub path: String,
    pub name: String,
}

/// Whether some declarator of `names` binds exactly `id`.
pub open spec fn binds_name(names: Seq<Option<String>>, id: Seq<char>) -> bool {
    exists|k: int| 0 <= k < names.len() && (#[trigger] names[k] matches Some(n) && n@ == id)
}

/// Whether a declaration that stands at the top level of a file declares
/// `id` in a form that resolution accepts, given whether it is exported.
pub open spec fn declares(d: Decl, exported: bool, id: Seq<char>) -> bool {
    match d {
        Decl::Var(is_const, names) => is_const && binds_name(names@, id),
        Decl::Function(Some(n), _) => exported && n@ == id,
        Decl::TypeAlias(n) => exported && n@ == id,
        _ => false,
    }
}

/// Whether statement `s` itself declares `id`.
pub open spec fn stmt_declares(s: Stmt, id: Seq<char>) -> bool {
    match s {
        Stmt::Declare(d) => declares(d, false, id),
        Stmt::Export(Some(d)) => declares(d, true, id),
        _ => false,
    }
}

/// The number of import specifiers of a statement.
pub open spec fn binding_count(s: Stmt) -> int {
    match s {
        Stmt::Import(_, bs) => bs@.len() as int,
        _ => 0,
    }
}

/// Resolution of `id` in unit `u`, from statement `i` and, within an import
/// statement, from its specifier `j`: the first statement that yields a
/// declaration wins. An import specifier whose local name is `id` is followed
/// into the file it names, under the exported name, with one hop less of
/// `hops`; when following it yields nothing the search goes on.
pub open spec fn resolve_from(p: Project, u: int, id: Seq<char>, hops: nat, i: int, j: int)
    -> Option<(int, Seq<char>)>
    decreases hops, p.units[u].body@.len() - i, binding_count(p.units[u].body@[i]) - j,
{
    let body = p.units[u].body@;
    if u < 0 || u >= p.units@.len() || i < 0 || i >= body.len() || j < 0 {
        None
    } else if stmt_declares(body[i], id) {
        Some((u, id))
    } else if let Stmt::Import(target, bs) = body[i] {
        if j >= bs@.len() {
            resolve_from(p, u, id, hops, i + 1, 0)
        } else {
            let followed = match bs@[j] {
                ImportBinding::Named(local, imported) => if local@ == id && hops > 0 {
                    match target {
                        Some(t) => match crate::syntax::unit_index(p, t@) {
                            Some(v) => resolve_from(p, v, imported@, (hops - 1) as nat, 0, 0),
                            None => None,
                        },
                        None => None,
                    }
                } else {
                    None
                },
                ImportBinding::Other => None,
            };
            if followed is Some {
                followed
            } else {
                resolve_from(p, u, id, hops, i, j + 1)
            }
        }
    } else {
        resolve_from(p, u, id, hops, i + 1, 0)
    }
}

/// The number of import specifiers in a sequence of statements.
pub open spec fn bindings_in(body: Seq<Stmt>) -> int
    decreases body.len(),
{
    if body.len() == 0 {
        0
    } else {
        bindings_in(body.drop_last()) + binding_count(body.last())
    }
}

/// The number of import specifiers in a sequence of units.
pub open spec fn bindings_in_units(units: Seq<SourceUnit>) -> int
    decreases units.len(),
{
    if units.len() == 0 {
        0
    } else {
        bindings_in_units(units.drop_last()) + bindings_in(units.last().body@)
    }
}

/// The hops that resolution may take in `p`: one per import specifier of the
/// project (capped at the largest `usize`). A resolution that follows more
/// imports than that has followed one specifier twice, and so would never end.
pub open spec fn hop_limit(p: Project) -> nat {
    let n = bindings_in_units(p.units@);
    if n > usize::MAX {
        usize::MAX as nat
    } else {
        n as nat
    }
}

/// Resolution of `id` as seen from unit `u` of `p`: the unit and the name of
/// the declaration found, or `None`.
pub open spec fn resolve_spec(p: Project, u: int, id: Seq<char>) -> Option<(int, Seq<char>)> {
    resolve_from(p, u, id, hop_limit(p), 0, 0)
}

proof fn lemma_bindings_nonneg(body: Seq<Stmt>)
    ensures
        bindings_in(body) >= 0,
    decreases body.len(),
{
    if body.len() > 0 {
        lemma_bindings_nonneg(body.drop_last());
    }
}

/// Computes the hop limit of `p`.
pub fn hop_limit_of(p: &Project) -> (r: usize)
    ensures
        r as nat == hop_limit(*p),
{
    let mut total: usize = 0;
    let mut i: usize = 0;
    while i < p.units.len()
        invariant
            i <= p.units@.len(),
            total as nat == (if bindings_in_units(p.units@.take(i as int)) > usize::MAX {
                usize::MAX as int
            } else {
                bindings_in_units(p.units@.take(i as int))
            }),
        decreases p.units@.len() - i,
    {
        let body = &p.units[i].body;
        let mut k: usize = 0;
        let ghost before = bindings_in_units(p.units@.take(i as int));
        proof {
            assert(bindings_in_units(p.units@.take(i as int)) >= 0) by {
                lemma_units_nonneg(p.units@.take(i as int));
            }
        }
        while k < body.len()
            invariant
                k <= body@.len(),
                body == &p.units@[i as int].body,
                before == bindings_in_units(p.units@.take(i as int)),
                before >= 0,
                total as nat == (if before + bindings_in(body@.take(k as int)) > usize::MAX {
                    usize::MAX as int
                } else {
                    before + bindings_in(body@.take(k as int))
                }),
            decreases body@.len() - k,
        {
            proof {
                assert(body@.take(k as int + 1).drop_last() =~= body@.take(k as int));
                lemma_bindings_nonneg(body@.take(k as int));
            }
            let n: usize = match &body[k] {
                Stmt::Import(_, bs) => bs.len(),
                _ => 0,
            };
            total = total.saturating_add(n);
            k = k + 1;
        }
        proof {
            assert(body@.take(body@.len() as int) =~= body@);
            assert(p.units@.take(i as int + 1).drop_last() =~= p.units@.take(i as int));
        }
        i = i + 1;
    }
    proof {
        assert(p.units@.take(p.units@.len() as int) =~= p.units@);
    }
    total
}

proof fn lemma_units_nonneg(units: Seq<SourceUnit>)
    ensures
        bindings_in_units(units) >= 0,
    decreases units.len(),
{
    if units.len() > 0 {
        lemma_units_nonneg(units.drop_last());
        lemma_bindings_nonneg(units.last().body@);
    }
}

fn binds_name_exec(names: &Vec<Option<String>>, id: &String) -> (r: bool)
    ensures
        r == binds_name(names@, id@),
{
    let mut k: usize = 0;
    while k < names.len()
        invariant
            k <= names@.len(),
            forall|m: int| 0 <= m < k ==> !(#[trigger] names@[m] matches Some(n) && n@ == id@),
        decreases names@.len() - k,
    {
        match &names[k] {
            Some(n) => {
                if *n == *id {
                    return true;
                }
            },
            None => {},
        }
        k = k + 1;
    }
    false
}

fn declares_exec(d: &Decl, exported: bool, id: &String) -> (r: bool)
    ensures
        r == declares(*d, exported, id@),
{
    match d {
        Decl::Var(is_const, names) => *is_const && binds_name_exec(names, id),
        Decl::Function(Some(n), _) => exported && *n == *id,
        Decl::TypeAlias(n) => exported && *n == *id,
        _ => false,
    }
}

fn stmt_declares_exec(s: &Stmt, id: &String) -> (r: bool)
    ensures
        r == stmt_declares(*s, id@),
{
    match s {
        Stmt::Declare(d) => declares_exec(d, false, id),
        Stmt::Export(Some(d)) => declares_exec(d, true, id),
        _ => false,
    }
}

/// Resolves `id` as seen from unit `u`, with at most `hops` imports followed.
pub(crate) fn resolve_in(p: &Project, u: usize, id: &String, hops: usize) -> (r: Option<(usize, String)>)
    requires
        u < p.units@.len(),
    ensures
        match r {
            Some((v, n)) => resolve_from(*p, u as int, id@, hops as nat, 0, 0) == Some(
                (v as int, n@),
            ) && v < p.units@.len(),
            None => resolve_from(*p, u as int, id@, hops as nat, 0, 0) is None,
        },
    decreases hops,
{
    let body = &p.units[u].body;
    let mut i: usize = 0;
    while i < body.len()
        invariant
            u < p.units@.len(),
            body == &p.units@[u as int].body,
            i <= body@.len(),
            resolve_from(*p, u as int, id@, hops as nat, 0, 0) == resolve_from(
                *p,
                u as int,
                id@,
                hops as nat,
                i as int,
                0,
            ),
        decreases body@.len() - i,
    {
        if stmt_declares_exec(&body[i], id) {
            return Some((u, id.clone()));
        }
        match &body[i] {
            Stmt::Import(target, bs) => {
                let mut j: usize = 0;
                while j < bs.len()
                    invariant
                        u < p.units@.len(),
                        i < body@.len(),
                        body == &p.units@[u as int].body,
                        body@[i as int] == Stmt::Import(*target, *bs),
                        !stmt_declares(body@[i as int], id@),
                        j <= bs@.len(),
                        resolve_from(*p, u as int, id@, hops as nat, 0, 0) == resolve_from(
                            *p,
                            u as int,
                            id@,
                            hops as nat,
                            i as int,
                            j as int,
                        ),
                    decreases bs@.len() - j,
                {
                    match &bs[j] {
                        ImportBinding::Named(local, imported) => {
                            if *local == *id && hops > 0 {
                                match target {
                                    Some(t) => match p.unit_index(t) {
                                        Some(v) => {
                                            proof {
                                                crate::syntax::lemma_unit_index_from_bounds(
                                                    p.units@,
                                                    t@,
                                                    0,
                                                );
                                            }
                                            let found = resolve_in(p, v, imported, hops - 1);
                                            if found.is_some() {
                                                return found;
                                            }
                                        },
                                        None => {},
                                    },
                                    None => {},
                                }
                            }
                        },
                        ImportBinding::Other => {},
                    }
                    j = j + 1;
                }
            },
            _ => {},
        }
        i = i + 1;
    }
    None
}

/// Finds the file and top-level declaration that introduce `identifier` as
/// seen from the file at `path`: a `const` binding, an exported `const`,
/// function or type alias, or a named import, which is followed into the file
/// it names under the name exported there. `None` where no statement of the
/// file yields a declaration, or where `path` is not a unit of the project.
pub fn find_root_definition(project: &Project, path: &String, identifier: &String) -> (r: Option<
    DeclarationRef,
>)
    ensures
        match crate::syntax::unit_index(*project, path@) {
            None => r is None,
            Some(u) => match resolve_spec(*project, u, identifier@) {
                None => r is None,
                Some((v, n)) => r matches Some(d) && d.name@ == n && 0 <= v
                    < project.units@.len() && d.path@ == project.units@[v].path@,
            },
        },
{
    match project.unit_index(path) {
        None => None,
        Some(u) => {
            let hops = hop_limit_of(project);
            match resolve_in(project, u, identifier, hops) {
                None => None,
                Some((v, name)) => Some(DeclarationRef { path: project.units[v].path.clone(), name }),
            }
        },
    }
}

} // verus!
