//! The documentation synthesizer: from a discovered route to the description
//! of its endpoint, read from the block comment above the handler.

use vstd::prelude::*;
use crate::syntax::{Comment, Decl, Project, Stmt};
use crate::navigate::{Route, RouteMethod, RouteView};
use crate::text::{
    join_lines, join_with_newlines, lines, lines_of, split, split_at_each, starts_with, strip_all,
    strip_all_of, trim_end, trim_end_of, trim_frame, trim_frame_of, views,
};

verus! {

/// The structured content of a handler's doc comment.
pub struct DocBlock {
    /// The first line of the narrative, if there is one.
    pub summary: Option<String>,
    /// The narrative lines, joined with newlines.
    pub description: String,
    /// The text of the `@title` line, or empty.
    pub title: String,
    /// The comma-separated items of the `@tags` line.
    pub tags: Vec<String>,
    /// The text of the `@operationId` line.
    pub operation_id: Option<String>,
}

/// The body lines of a comment's text: each line without its leading framing
/// characters and trailing white space, the first and the last line dropped.
pub open spec fn body_lines(text: Seq<char>) -> Seq<Seq<char>> {
    let ls = lines(text).map_values(|l: Seq<char>| trim_end(trim_frame(l)));
    if ls.len() >= 2 {
        ls.subrange(1, ls.len() - 1)
    } else {
        seq![]
    }
}

/// The position of the first line that starts with `@`, from `i` on, or the
/// number of lines.
pub open spec fn first_tag_line(ls: Seq<Seq<char>>, i: int) -> int
    decreases ls.len() - i,
{
    if i < 0 || i >= ls.len() {
        ls.len() as int
    } else if "@"@.is_prefix_of(ls[i]) {
        i
    } else {
        first_tag_line(ls, i + 1)
    }
}

/// The narrative lines: those before the first line that starts with `@`.
pub open spec fn public_lines(ls: Seq<Seq<char>>) -> Seq<Seq<char>> {
    ls.take(first_tag_line(ls, 0))
}

/// The text after `tag` on the first line from `i` on that starts with it.
pub open spec fn tag_value_from(ls: Seq<Seq<char>>, tag: Seq<char>, i: int) -> Option<Seq<char>>
    decreases ls.len() - i,
{
    if i < 0 || i >= ls.len() {
        None
    } else if tag.is_prefix_of(ls[i]) {
        Some(trim_end(strip_all(ls[i], tag)))
    } else {
        tag_value_from(ls, tag, i + 1)
    }
}

/// The text after `tag` on the first line that starts with it.
pub open spec fn tag_value(ls: Seq<Seq<char>>, tag: Seq<char>) -> Option<Seq<char>> {
    tag_value_from(ls, tag, 0)
}

/// A doc block, with its text as character sequences.
pub struct DocBlockView {
    pub summary: Option<Seq<char>>,
    pub description: Seq<char>,
    pub title: Seq<char>,
    pub tags: Seq<Seq<char>>,
    pub operation_id: Option<Seq<char>>,
}

impl View for DocBlock {
    type V = DocBlockView;

    open spec fn view(&self) -> DocBlockView {
        DocBlockView {
            summary: match self.summary {
                Some(s) => Some(s@),
                None => None,
            },
            description: self.description@,
            title: self.title@,
            tags: views(self.tags@),
            operation_id: match self.operation_id {
                Some(s) => Some(s@),
                None => None,
            },
        }
    }
}

/// The structured content of a comment's text.
pub open spec fn doc_block(text: Seq<char>) -> DocBlockView {
    let ls = body_lines(text);
    let public = public_lines(ls);
    DocBlockView {
        summary: if public.len() > 0 {
            Some(public[0])
        } else {
            None
        },
        description: join_lines(public),
        title: match tag_value(ls, "@title "@) {
            Some(t) => t,
            None => seq![],
        },
        tags: match tag_value(ls, "@tags "@) {
            Some(t) => split(t, ", "@),
            None => seq![],
        },
        operation_id: tag_value(ls, "@operationId "@),
    }
}

/// The body lines of a comment's text.
pub fn body_lines_of(text: &str) -> (r: Vec<String>)
    ensures
        views(r@) == body_lines(text@),
{
    let raw = lines_of(text);
    let ghost cleaned = lines(text@).map_values(|l: Seq<char>| trim_end(trim_frame(l)));
    let mut out: Vec<String> = Vec::new();
    let n = raw.len();
    if n < 2 {
        return out;
    }
    let mut i: usize = 1;
    while i < n - 1
        invariant
            n == raw@.len(),
            n >= 2,
            views(raw@) == lines(text@),
            cleaned == lines(text@).map_values(|l: Seq<char>| trim_end(trim_frame(l))),
            1 <= i <= n - 1,
            views(out@) == cleaned.subrange(1, i as int),
        decreases n - 1 - i,
    {
        let framed = trim_frame_of(raw[i].as_str());
        let line = trim_end_of(framed.as_str());
        proof {
            assert(raw@[i as int]@ == views(raw@)[i as int]);
            assert(line@ == cleaned[i as int]);
        }
        let ghost before = out@;
        out.push(line);
        proof {
            crate::text::lemma_views_push(before, line);
            assert(views(out@) =~= cleaned.subrange(1, i as int + 1));
        }
        i = i + 1;
    }
    out
}

fn first_tag_line_of(ls: &Vec<String>) -> (r: usize)
    ensures
        r as int == first_tag_line(views(ls@), 0),
        r <= ls@.len(),
{
    let mut i: usize = 0;
    while i < ls.len()
        invariant
            i <= ls@.len(),
            first_tag_line(views(ls@), 0) == first_tag_line(views(ls@), i as int),
        decreases ls@.len() - i,
    {
        if starts_with(ls[i].as_str(), "@") {
            return i;
        }
        i = i + 1;
    }
    i
}

fn tag_value_of(ls: &Vec<String>, tag: &str) -> (r: Option<String>)
    ensures
        match tag_value(views(ls@), tag@) {
            Some(v) => r matches Some(s) && s@ == v,
            None => r is None,
        },
{
    let mut i: usize = 0;
    while i < ls.len()
        invariant
            i <= ls@.len(),
            tag_value(views(ls@), tag@) == tag_value_from(views(ls@), tag@, i as int),
        decreases ls@.len() - i,
    {
        if starts_with(ls[i].as_str(), tag) {
            let stripped = strip_all_of(ls[i].as_str(), tag);
            return Some(trim_end_of(stripped.as_str()));
        }
        i = i + 1;
    }
    None
}

/// The structured content of a doc comment's text: the first and last lines
/// (the comment's framing) are dropped; the lines before the first one that
/// starts with `@` make the narrative, whose first line is the summary; the
/// lines `@title <text>`, `@tags <a>, <b>` and `@operationId <id>` give the
/// title, the tags and the operation identifier.
pub fn extract_doc(text: &String) -> (r: DocBlock)
    ensures
        r@ == doc_block(text@),
{
    let ls = body_lines_of(text.as_str());
    let k = first_tag_line_of(&ls);
    let mut public: Vec<String> = Vec::new();
    let mut j: usize = 0;
    while j < k
        invariant
            k <= ls@.len(),
            j <= k,
            views(public@) == views(ls@).take(j as int),
        decreases k - j,
    {
        let ghost before = public@;
        let line = ls[j].clone();
        public.push(line);
        proof {
            crate::text::lemma_views_push(before, line);
            assert(line@ == views(ls@)[j as int]);
            assert(views(public@) =~= views(ls@).take(j as int + 1));
        }
        j = j + 1;
    }
    proof {
        assert(views(public@) == public_lines(views(ls@)));
    }
    let summary = if public.len() > 0 {
        Some(public[0].clone())
    } else {
        None
    };
    let description = join_with_newlines(&public);
    let title = match tag_value_of(&ls, "@title ") {
        Some(t) => t,
        None => String::new(),
    };
    let tags = match tag_value_of(&ls, "@tags ") {
        Some(t) => split_at_each(t.as_str(), ", "),
        None => {
            let none: Vec<String> = Vec::new();
            proof {
                assert(views(none@) =~= Seq::<Seq<char>>::empty());
            }
            none
        },
    };
    let operation_id = tag_value_of(&ls, "@operationId ");
    let r = DocBlock { summary, description, title, tags, operation_id };
    proof {
        if public@.len() > 0 {
            assert(views(public@)[0] == public@[0]@);
        }
        assert(r@.tags =~= doc_block(text@).tags);
    }
    r
}

/// The description of one endpoint.
pub struct EndpointDescription {
    pub method: RouteMethod,
    pub path: String,
    pub operation_id: Option<String>,
    pub summary: Option<String>,
    /// The narrative text.
    pub description: String,
    /// The title for documentation rendering.
    pub title: String,
    pub tags: Vec<String>,
    /// Whether the endpoint requires the API-key scheme.
    pub requires_auth: bool,
}

/// An endpoint description, with its text as character sequences.
pub struct EndpointDescriptionView {
    pub method: RouteMethod,
    pub path: Seq<char>,
    pub doc: DocBlockView,
    pub requires_auth: bool,
}

impl View for EndpointDescription {
    type V = EndpointDescriptionView;

    open spec fn view(&self) -> EndpointDescriptionView {
        EndpointDescriptionView {
            method: self.method,
            path: self.path@,
            doc: DocBlockView {
                summary: match self.summary {
                    Some(s) => Some(s@),
                    None => None,
                },
                description: self.description@,
                title: self.title@,
                tags: views(self.tags@),
                operation_id: match self.operation_id {
                    Some(s) => Some(s@),
                    None => None,
                },
            },
            requires_auth: self.requires_auth,
        }
    }
}

/// Why a route could not be described; each of these ends the whole run.
pub enum DescribeError {
    /// The handler's file is not among the parsed units.
    FileNotLoaded(String),
    /// The handler's file has no exported function of the handler's name.
    HandlerNotFound(String, String),
}

/// A describe error, with its text as character sequences.
pub enum DescribeErrorView {
    FileNotLoaded(Seq<char>),
    HandlerNotFound(Seq<char>, Seq<char>),
}

impl View for DescribeError {
    type V = DescribeErrorView;

    open spec fn view(&self) -> DescribeErrorView {
        match self {
            DescribeError::FileNotLoaded(f) => DescribeErrorView::FileNotLoaded(f@),
            DescribeError::HandlerNotFound(f, n) => DescribeErrorView::HandlerNotFound(f@, n@),
        }
    }
}

/// The start of the first exported function named `name`, from statement `i`
/// on.
pub open spec fn function_start_from(body: Seq<Stmt>, name: Seq<char>, i: int) -> Option<int>
    decreases body.len() - i,
{
    if i < 0 || i >= body.len() {
        None
    } else {
        match body[i] {
            Stmt::Export(Some(Decl::Function(Some(n), start))) => if n@ == name {
                Some(start as int)
            } else {
                function_start_from(body, name, i + 1)
            },
            _ => function_start_from(body, name, i + 1),
        }
    }
}

/// The last of the first `n` comments that ends before `start`.
pub open spec fn comment_before(cs: Seq<Comment>, start: int, n: int) -> Option<int>
    decreases n,
{
    if n <= 0 || n > cs.len() {
        None
    } else if cs[n - 1].end < start {
        Some(n - 1)
    } else {
        comment_before(cs, start, n - 1)
    }
}

/// The description of route `r`, read from the units of `p`.
pub open spec fn describe_spec(p: Project, r: RouteView) -> Result<
    EndpointDescriptionView,
    DescribeErrorView,
> {
    match crate::syntax::unit_index(p, r.handler_file_path) {
        None => Err(DescribeErrorView::FileNotLoaded(r.handler_file_path)),
        Some(u) => match function_start_from(p.units[u].body@, r.handler_identifier, 0) {
            None => Err(DescribeErrorView::HandlerNotFound(r.handler_file_path, r.handler_identifier)),
            Some(start) => {
                let cs = p.units[u].comments@;
                let text = match comment_before(cs, start, cs.len() as int) {
                    Some(c) => cs[c].text@,
                    None => seq![],
                };
                Ok(
                    EndpointDescriptionView {
                        method: r.method,
                        path: r.path,
                        doc: doc_block(text),
                        requires_auth: r.has_auth,
                    },
                )
            },
        },
    }
}

fn function_start_of(body: &Vec<Stmt>, name: &String) -> (r: Option<usize>)
    ensures
        match r {
            Some(k) => function_start_from(body@, name@, 0) == Some(k as int),
            None => function_start_from(body@, name@, 0) is None,
        },
{
    let mut i: usize = 0;
    while i < body.len()
        invariant
            i <= body@.len(),
            function_start_from(body@, name@, 0) == function_start_from(body@, name@, i as int),
        decreases body@.len() - i,
    {
        match &body[i] {
            Stmt::Export(Some(Decl::Function(Some(n), start))) => {
                if *n == *name {
                    return Some(*start);
                }
            },
            _ => {},
        }
        i = i + 1;
    }
    None
}

fn comment_before_of(cs: &Vec<Comment>, start: usize) -> (r: Option<usize>)
    ensures
        match r {
            Some(k) => comment_before(cs@, start as int, cs@.len() as int) == Some(k as int) && k
                < cs@.len(),
            None => comment_before(cs@, start as int, cs@.len() as int) is None,
        },
{
    let mut found: Option<usize> = None;
    let mut i: usize = 0;
    while i < cs.len()
        invariant
            i <= cs@.len(),
            match found {
                Some(k) => comment_before(cs@, start as int, i as int) == Some(k as int) && k < i,
                None => comment_before(cs@, start as int, i as int) is None,
            },
        decreases cs@.len() - i,
    {
        if cs[i].end < start {
            found = Some(i);
        }
        i = i + 1;
    }
    found
}

/// Describes the endpoint of `route` from the block comment that most
/// closely precedes the handler's exported function declaration. Fails where
/// the handler's file is not a unit of the project, or declares no exported
/// function of the handler's name.
pub fn route_to_openapi_operation(project: &Project, route: &Route) -> (r: Result<
    EndpointDescription,
    DescribeError,
>)
    ensures
        match describe_spec(*project, route@) {
            Ok(d) => r matches Ok(e) && e@ == d,
            Err(x) => r matches Err(e) && e@ == x,
        },
{
    let u = match project.unit_index(&route.handler_file_path) {
        None => {
            return Err(DescribeError::FileNotLoaded(route.handler_file_path.clone()));
        },
        Some(u) => u,
    };
    let start = match function_start_of(&project.units[u].body, &route.handler_identifier) {
        None => {
            return Err(
                DescribeError::HandlerNotFound(
                    route.handler_file_path.clone(),
                    route.handler_identifier.clone(),
                ),
            );
        },
        Some(s) => s,
    };
    let cs = &project.units[u].comments;
    let text = match comment_before_of(cs, start) {
        Some(c) => cs[c].text.clone(),
        None => String::new(),
    };
    let doc = extract_doc(&text);
    Ok(
        EndpointDescription {
            method: route.method,
            path: route.path.clone(),
            operation_id: doc.operation_id,
            summary: doc.summary,
            description: doc.description,
            title: doc.title,
            tags: doc.tags,
            requires_auth: route.has_auth,
        },
    )
}

} // verus!
