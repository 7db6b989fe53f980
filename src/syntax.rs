//! The part of a parsed source file that route discovery reads: top-level
//! statements, the expressions inside router calls, and comments with spans.

use vstd::prelude::*;
use crate::text::views;

verus! {

/// An expression, reduced to the forms that route discovery tells apart.
pub enum Expr {
    /// A bare identifier reference.
    Ident(String),
    /// A string literal, by its value.
    Str(String),
    /// A template literal, by the cooked value of each of its quasis.
    Template(Vec<Option<String>>),
    /// A call: the callee and the positional arguments.
    Call(Box<Expr>, Vec<Expr>),
    /// A static member access: the object and the property name.
    Member(Box<Expr>, String),
    /// Any other expression.
    Other,
}

/// A declaration.
pub enum Decl {
    /// A variable declaration: whether it is `const`, and the name bound by
    /// each declarator when that binding is a plain identifier.
    Var(bool, Vec<Option<String>>),
    /// A function declaration: its name, and the offset where it starts.
    Function(Option<String>, usize),
    /// A type alias declaration, by its name.
    TypeAlias(String),
    /// Any other declaration.
    Other,
}

/// One specifier of an import declaration.
pub enum ImportBinding {
    /// `import { imported as local }`: the local name, then the exported one.
    Named(String, String),
    /// A default or namespace import.
    Other,
}

/// A statement at the top level of a module.
pub enum Stmt {
    /// A declaration that is not exported.
    Declare(Decl),
    /// `export <declaration>`, or an export list (no declaration).
    Export(Option<Decl>),
    /// An import: the absolute path its module specifier resolves to (none
    /// when the module resolver failed), and its specifiers.
    Import(Option<String>, Vec<ImportBinding>),
    /// An expression statement.
    Expression(Expr),
    /// Any other statement.
    Other,
}

/// A comment, by the span it covers and the source text of that span.
pub struct Comment {
    pub start: usize,
    pub end: usize,
    pub text: String,
}

/// One parsed file: its absolute path, its top-level statements in source
/// order, and its comments in source order.
pub struct SourceUnit {
    pub path: String,
    pub body: Vec<Stmt>,
    pub comments: Vec<Comment>,
}

/// Every parsed file that analysis may visit.
pub struct Project {
    pub units: Vec<SourceUnit>,
}

/// The index of the first unit whose path is `path`, searching from `i`.
pub open spec fn unit_index_from(units: Seq<SourceUnit>, path: Seq<char>, i: int) -> Option<int>
    decreases units.len() - i,
{
    if i < 0 || i >= units.len() {
        None
    } else if units[i].path@ == path {
        Some(i)
    } else {
        unit_index_from(units, path, i + 1)
    }
}

/// The index of the first unit of `p` whose path is `path`.
pub open spec fn unit_index(p: Project, path: Seq<char>) -> Option<int> {
    unit_index_from(p.units@, path, 0)
}

/// A unit found by path lies in range and has that path.
pub proof fn lemma_unit_index_from_bounds(units: Seq<SourceUnit>, path: Seq<char>, i: int)
    ensures
        unit_index_from(units, path, i) matches Some(k) ==> 0 <= i <= k < units.len()
            && units[k].path@ == path,
    decreases units.len() - i,
{
    if 0 <= i < units.len() && units[i].path@ != path {
        lemma_unit_index_from_bounds(units, path, i + 1);
    }
}

impl Project {
    /// Finds the unit parsed from `path`.
    pub fn unit_index(&self, path: &String) -> (r: Option<usize>)
        ensures
            r matches Some(k) ==> unit_index(*self, path@) == Some(k as int) && k
                < self.units@.len() && self.units@[k as int].path@ == path@,
            r is None ==> unit_index(*self, path@) is None,
    {
        let mut i: usize = 0;
        while i < self.units.len()
            invariant
                i <= self.units@.len(),
                unit_index(*self, path@) == unit_index_from(self.units@, path@, i as int),
            decreases self.units@.len() - i,
        {
            if self.units[i].path == *path {
                return Some(i);
            }
            i = i + 1;
        }
        None
    }
}

/// Whether statement `i` of unit `u` imports from the file at `t`.
pub open spec fn imports_from(p: Project, u: int, i: int, t: Seq<char>) -> bool {
    0 <= u < p.units@.len() && 0 <= i < p.units@[u].body@.len() && (
    p.units@[u].body@[i] matches Stmt::Import(Some(x), _) && x@ == t)
}

/// Whether some unit imports from the file at `t`, which is not yet a unit.
pub open spec fn pending(p: Project, t: Seq<char>) -> bool {
    &&& exists|u: int, i: int| #[trigger] imports_from(p, u, i, t)
    &&& unit_index(p, t) is None
}

fn contains_text(v: &Vec<String>, t: &String) -> (r: bool)
    ensures
        r == views(v@).contains(t@),
{
    let mut k: usize = 0;
    while k < v.len()
        invariant
            k <= v@.len(),
            forall|j: int| 0 <= j < k ==> views(v@)[j] != t@,
        decreases v@.len() - k,
    {
        if v[k] == *t {
            assert(views(v@)[k as int] == t@);
            return true;
        }
        k = k + 1;
    }
    false
}

impl Project {
    /// The files that units import from and that are not units yet, each
    /// once: what must be parsed before analysis can follow every import.
    pub fn pending_imports(&self) -> (r: Vec<String>)
        ensures
            views(r@).no_duplicates(),
            forall|k: int| 0 <= k < r@.len() ==> pending(*self, #[trigger] views(r@)[k]),
            forall|t: Seq<char>| pending(*self, t) ==> views(r@).contains(t),
    {
        let mut out: Vec<String> = Vec::new();
        let mut u: usize = 0;
        while u < self.units.len()
            invariant
                u <= self.units@.len(),
                views(out@).no_duplicates(),
                forall|k: int| 0 <= k < out@.len() ==> pending(*self, #[trigger] views(out@)[k]),
                forall|t: Seq<char>, uu: int, ii: int|
                    #[trigger] imports_from(*self, uu, ii, t) && uu < u && unit_index(*self, t) is None
                        ==> views(out@).contains(t),
            decreases self.units@.len() - u,
        {
            let body = &self.units[u].body;
            let mut i: usize = 0;
            while i < body.len()
                invariant
                    u < self.units@.len(),
                    body == &self.units@[u as int].body,
                    i <= body@.len(),
                    views(out@).no_duplicates(),
                    forall|k: int| 0 <= k < out@.len() ==> pending(*self, #[trigger] views(out@)[k]),
                    forall|t: Seq<char>, uu: int, ii: int|
                        #[trigger] imports_from(*self, uu, ii, t) && (uu < u || (uu == u && ii < i))
                            && unit_index(*self, t) is None ==> views(out@).contains(t),
                decreases body@.len() - i,
            {
                match &body[i] {
                    Stmt::Import(Some(t), _) => {
                        if self.unit_index(t).is_none() && !contains_text(&out, t) {
                            let ghost before = out@;
                            let c = t.clone();
                            out.push(c);
                            proof {
                                crate::text::lemma_views_push(before, c);
                                assert(views(out@) == views(before).push(t@));
                                assert(imports_from(*self, u as int, i as int, t@));
                                assert(views(out@)[before.len() as int] == t@);
                                assert forall|s: Seq<char>| views(before).contains(s) implies views(
                                    out@,
                                ).contains(s) by {
                                    let j = choose|j: int| 0 <= j < views(before).len() && views(before)[j] == s;
                                    assert(views(out@)[j] == s);
                                }
                            }
                        } else {
                            proof {
                                assert(imports_from(*self, u as int, i as int, t@));
                            }
                        }
                    },
                    _ => {},
                }
                i = i + 1;
            }
            u = u + 1;
        }
        out
    }
}

} // verus!
