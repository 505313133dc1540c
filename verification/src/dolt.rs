//! The backend that keeps beads in a Dolt database.
//!
//! Beads are read with three SQL queries and written with the `bd` command.

use vstd::hash_map::StringHashMap;
use vstd::prelude::*;

use crate::beads::{Bead, BeadView, Comment, CommentView, Dependency, DependencyView};
use crate::error::{outcome, BeadsError, BeadsErrorView};
use crate::relations::{
    bead_index, has_id, indexes, resolve_relationships, resolved, Duplicates,
};
use crate::text::{signed_decimal, signed_decimal_text};

verus! {

// ---------------------------------------------------------------------------
// Rows
// ---------------------------------------------------------------------------

/// A row of the `issues` table. A column that is absent, NULL or of another
/// type is none.
#[derive(Debug, Clone, PartialEq, Eq)]
pub struct IssueRow {
    pub id: Option<String>,
    pub title: Option<String>,
    pub description: Option<String>,
    pub status: Option<String>,
    pub priority: Option<i32>,
    pub issue_type: Option<String>,
    pub owner: Option<String>,
    pub created_at: Option<String>,
    pub created_by: Option<String>,
    pub updated_at: Option<String>,
    pub closed_at: Option<String>,
    pub close_reason: Option<String>,
    pub design: Option<String>,
}

/// A row of the `comments` table. A column that is absent, NULL or of another
/// type is none.
#[derive(Debug, Clone, PartialEq, Eq)]
pub struct CommentRow {
    pub id: Option<i64>,
    pub issue_id: Option<String>,
    pub author: Option<String>,
    pub text: Option<String>,
    pub created_at: Option<String>,
}

/// A row of the `dependencies` table. A column that is absent, NULL or of
/// another type is none.
#[derive(Debug, Clone, PartialEq, Eq)]
pub struct DependencyRow {
    pub issue_id: Option<String>,
    pub depends_on_id: Option<String>,
    pub dep_type: Option<String>,
}

/// The error for a row that lacks something: what, and of which bead or
/// comment.
pub open spec fn lacks(what: Seq<char>, id: Seq<char>) -> BeadsErrorView {
    BeadsErrorView::Parse(what + id + "'"@)
}

/// The bead that a row of the `issues` table describes, without comments or
/// relationships. It must have an identifier, a title and a status.
pub open spec fn bead_of(row: IssueRow) -> Result<BeadView, BeadsErrorView> {
    if row.id is None {
        Err(BeadsErrorView::Parse("missing id column in issues"@))
    } else if row.title is None {
        Err(lacks("missing title for bead '"@, row.id->0@))
    } else if row.status is None {
        Err(lacks("missing status for bead '"@, row.id->0@))
    } else {
        Ok(
            BeadView {
                id: row.id->0@,
                title: row.title->0@,
                description: row.description.deep_view(),
                status: row.status->0@,
                priority: row.priority,
                issue_type: row.issue_type.deep_view(),
                owner: row.owner.deep_view(),
                created_at: row.created_at.deep_view(),
                created_by: row.created_by.deep_view(),
                updated_at: row.updated_at.deep_view(),
                closed_at: row.closed_at.deep_view(),
                close_reason: row.close_reason.deep_view(),
                comments: None,
                parent_id: None,
                children: None,
                design_doc: row.design.deep_view(),
                deps: None,
                relates_to: None,
                dependencies: None,
            },
        )
    }
}

fn lacking(what: &str, id: &str) -> (error: BeadsError)
    ensures
        error.deep_view() == lacks(what@, id@),
{
    BeadsError::Parse(what.to_owned().concat(id).concat("'"))
}

/// Maps a row of the `issues` table to a bead.
pub fn row_to_bead(row: IssueRow) -> (result: Result<Bead, BeadsError>)
    ensures
        outcome(result) == bead_of(row),
        result is Ok <==> row.id is Some && row.title is Some && row.status is Some,
        result matches Ok(bead) ==> {
            &&& Some(bead.id) == row.id
            &&& Some(bead.title) == row.title
            &&& bead.description == row.description
            &&& Some(bead.status) == row.status
            &&& bead.priority == row.priority
            &&& bead.issue_type == row.issue_type
            &&& bead.owner == row.owner
            &&& bead.created_at == row.created_at
            &&& bead.created_by == row.created_by
            &&& bead.updated_at == row.updated_at
            &&& bead.closed_at == row.closed_at
            &&& bead.close_reason == row.close_reason
            &&& bead.design_doc == row.design
            &&& bead.comments is None && bead.parent_id is None && bead.children is None
            &&& bead.deps is None && bead.relates_to is None && bead.dependencies is None
        },
{
    let id: String = match row.id {
        Some(id) => id,
        None => {
            return Err(BeadsError::Parse("missing id column in issues".to_owned()));
        },
    };
    let title: String = match row.title {
        Some(title) => title,
        None => {
            return Err(lacking("missing title for bead '", id.as_str()));
        },
    };
    let status: String = match row.status {
        Some(status) => status,
        None => {
            return Err(lacking("missing status for bead '", id.as_str()));
        },
    };
    Ok(
        Bead {
            id,
            title,
            description: row.description,
            status,
            priority: row.priority,
            issue_type: row.issue_type,
            owner: row.owner,
            created_at: row.created_at,
            created_by: row.created_by,
            updated_at: row.updated_at,
            closed_at: row.closed_at,
            close_reason: row.close_reason,
            comments: None,
            parent_id: None,
            children: None,
            design_doc: row.design,
            deps: None,
            relates_to: None,
            dependencies: None,
        },
    )
}

/// The comment that a row of the `comments` table describes. It must have
/// every column.
pub open spec fn comment_of(row: CommentRow) -> Result<CommentView, BeadsErrorView> {
    if row.id is None {
        Err(BeadsErrorView::Parse("missing id column in comments"@))
    } else if row.issue_id is None {
        Err(BeadsErrorView::Parse("missing issue_id column in comments"@))
    } else if row.author is None {
        Err(lacks("missing author for comment id '"@, signed_decimal(row.id->0 as int)))
    } else if row.text is None {
        Err(lacks("missing text for comment id '"@, signed_decimal(row.id->0 as int)))
    } else if row.created_at is None {
        Err(lacks("missing created_at for comment id '"@, signed_decimal(row.id->0 as int)))
    } else {
        Ok(
            CommentView {
                id: row.id->0 as int,
                issue_id: row.issue_id->0@,
                author: row.author->0@,
                text: row.text->0@,
                created_at: row.created_at->0@,
            },
        )
    }
}

/// Maps a row of the `comments` table to a comment.
pub fn row_to_comment(row: CommentRow) -> (result: Result<Comment, BeadsError>)
    ensures
        outcome(result) == comment_of(row),
        result is Ok <==> row.id is Some && row.issue_id is Some && row.author is Some
            && row.text is Some && row.created_at is Some,
        result matches Ok(comment) ==> {
            &&& Some(comment.id) == row.id
            &&& Some(comment.issue_id) == row.issue_id
            &&& Some(comment.author) == row.author
            &&& Some(comment.text) == row.text
            &&& Some(comment.created_at) == row.created_at
        },
{
    let id: i64 = match row.id {
        Some(id) => id,
        None => {
            return Err(BeadsError::Parse("missing id column in comments".to_owned()));
        },
    };
    let issue_id: String = match row.issue_id {
        Some(issue_id) => issue_id,
        None => {
            return Err(BeadsError::Parse("missing issue_id column in comments".to_owned()));
        },
    };
    let author: String = match row.author {
        Some(author) => author,
        None => {
            return Err(
                lacking("missing author for comment id '", signed_decimal_text(id).as_str()),
            );
        },
    };
    let text: String = match row.text {
        Some(text) => text,
        None => {
            return Err(
                lacking("missing text for comment id '", signed_decimal_text(id).as_str()),
            );
        },
    };
    let created_at: String = match row.created_at {
        Some(created_at) => created_at,
        None => {
            return Err(
                lacking("missing created_at for comment id '", signed_decimal_text(id).as_str()),
            );
        },
    };
    Ok(Comment { id, issue_id, author, text, created_at })
}

/// A stored edge together with the bead that it starts from.
pub struct EdgeView {
    pub issue_id: Seq<char>,
    pub dependency: DependencyView,
}

/// The edge that a row of the `dependencies` table describes. It must have
/// every column.
pub open spec fn edge_of(row: DependencyRow) -> Result<EdgeView, BeadsErrorView> {
    if row.issue_id is None {
        Err(BeadsErrorView::Parse("missing issue_id in dependencies"@))
    } else if row.depends_on_id is None {
        Err(BeadsErrorView::Parse("missing depends_on_id in dependencies"@))
    } else if row.dep_type is None {
        Err(BeadsErrorView::Parse("missing type in dependencies"@))
    } else {
        Ok(
            EdgeView {
                issue_id: row.issue_id->0@,
                dependency: DependencyView {
                    depends_on_id: row.depends_on_id->0@,
                    dep_type: row.dep_type->0@,
                },
            },
        )
    }
}

/// A stored edge together with the bead that it starts from.
#[derive(Debug, Clone, PartialEq, Eq)]
pub struct Edge {
    pub issue_id: String,
    pub dependency: Dependency,
}

impl DeepView for Edge {
    type V = EdgeView;

    open spec fn deep_view(&self) -> EdgeView {
        EdgeView { issue_id: self.issue_id@, dependency: self.dependency.deep_view() }
    }
}

/// Maps a row of the `dependencies` table to an edge.
pub fn row_to_edge(row: DependencyRow) -> (result: Result<Edge, BeadsError>)
    ensures
        outcome(result) == edge_of(row),
        result is Ok <==> row.issue_id is Some && row.depends_on_id is Some && row.dep_type is Some,
        result matches Ok(edge) ==> {
            &&& Some(edge.issue_id) == row.issue_id
            &&& Some(edge.dependency.depends_on_id) == row.depends_on_id
            &&& Some(edge.dependency.dep_type) == row.dep_type
        },
{
    let issue_id: String = match row.issue_id {
        Some(issue_id) => issue_id,
        None => {
            return Err(BeadsError::Parse("missing issue_id in dependencies".to_owned()));
        },
    };
    let depends_on_id: String = match row.depends_on_id {
        Some(depends_on_id) => depends_on_id,
        None => {
            return Err(BeadsError::Parse("missing depends_on_id in dependencies".to_owned()));
        },
    };
    let dep_type: String = match row.dep_type {
        Some(dep_type) => dep_type,
        None => {
            return Err(BeadsError::Parse("missing type in dependencies".to_owned()));
        },
    };
    Ok(Edge { issue_id, dependency: Dependency { depends_on_id, dep_type } })
}

// ---------------------------------------------------------------------------
// Assembling
// ---------------------------------------------------------------------------

/// The beads that the rows of the `issues` table describe, in order, or the
/// error of the first row that describes none.
pub open spec fn beads_of(rows: Seq<IssueRow>) -> Result<Seq<BeadView>, BeadsErrorView>
    decreases rows.len(),
{
    if rows.len() == 0 {
        Ok(Seq::empty())
    } else {
        match beads_of(rows.drop_last()) {
            Ok(beads) => match bead_of(rows.last()) {
                Ok(bead) => Ok(beads.push(bead)),
                Err(error) => Err(error),
            },
            Err(error) => Err(error),
        }
    }
}

/// Maps the rows of the `issues` table to beads.
pub fn rows_to_beads(rows: Vec<IssueRow>) -> (result: Result<Vec<Bead>, BeadsError>)
    ensures
        outcome(result) == beads_of(rows@),
{
    let mut beads: Vec<Bead> = Vec::new();
    let ghost all = rows@;
    assert(beads.deep_view() =~= Seq::<BeadView>::empty());
    for row in it: rows
        invariant
            it.seq() == all,
            all == rows@,
            beads_of(all.take(it.index() as int)) == Ok::<Seq<BeadView>, BeadsErrorView>(
                beads.deep_view(),
            ),
    {
        let ghost k = it.index() as int;
        assert(all.take(k + 1).drop_last() == all.take(k));
        assert(all.take(k + 1).last() == row);
        match row_to_bead(row) {
            Ok(bead) => {
                let ghost before = beads.deep_view();
                beads.push(bead);
                assert(beads.deep_view() =~= before.push(bead.deep_view()));
            },
            Err(error) => {
                proof {
                    lemma_beads_of_stops(all, k + 1);
                }
                return Err(error);
            },
        }
    }
    assert(all.take(all.len() as int) == all);
    Ok(beads)
}

proof fn lemma_beads_of_stops(rows: Seq<IssueRow>, k: int)
    requires
        0 <= k <= rows.len(),
        beads_of(rows.take(k)) is Err,
    ensures
        beads_of(rows) == beads_of(rows.take(k)),
    decreases rows.len(),
{
    if k < rows.len() {
        assert(rows.drop_last().take(k) == rows.take(k));
        lemma_beads_of_stops(rows.drop_last(), k);
    } else {
        assert(rows.take(k) == rows);
    }
}

/// Whether the bead at `i` is the one that a row of another table with the
/// bead identifier `id` belongs to. Where several beads share an identifier,
/// that is the last of them.
pub open spec fn owns(beads: Seq<BeadView>, i: int, id: Seq<char>) -> bool {
    beads[i].id == id && Duplicates::Last.holds(beads, i)
}

/// The beads with `comment` on the one that it belongs to.
pub open spec fn attach_comment(beads: Seq<BeadView>, comment: CommentView) -> Seq<BeadView> {
    Seq::new(
        beads.len(),
        |i: int|
            if owns(beads, i, comment.issue_id) {
                beads[i].with_comment(comment)
            } else {
                beads[i]
            },
    )
}

/// The beads with the comments that the rows of the `comments` table describe,
/// or the error of the first row that describes none.
pub open spec fn with_comment_rows(beads: Seq<BeadView>, rows: Seq<CommentRow>) -> Result<
    Seq<BeadView>,
    BeadsErrorView,
>
    decreases rows.len(),
{
    if rows.len() == 0 {
        Ok(beads)
    } else {
        match with_comment_rows(beads, rows.drop_last()) {
            Ok(earlier) => match comment_of(rows.last()) {
                Ok(comment) => Ok(attach_comment(earlier, comment)),
                Err(error) => Err(error),
            },
            Err(error) => Err(error),
        }
    }
}

/// The beads with `edge` on the one that it starts from.
pub open spec fn attach_edge(beads: Seq<BeadView>, edge: EdgeView) -> Seq<BeadView> {
    Seq::new(
        beads.len(),
        |i: int|
            if owns(beads, i, edge.issue_id) {
                beads[i].with_dependency(edge.dependency)
            } else {
                beads[i]
            },
    )
}

/// The beads with the edges that the rows of the `dependencies` table
/// describe, or the error of the first row that describes none.
pub open spec fn with_dependency_rows(beads: Seq<BeadView>, rows: Seq<DependencyRow>) -> Result<
    Seq<BeadView>,
    BeadsErrorView,
>
    decreases rows.len(),
{
    if rows.len() == 0 {
        Ok(beads)
    } else {
        match with_dependency_rows(beads, rows.drop_last()) {
            Ok(earlier) => match edge_of(rows.last()) {
                Ok(edge) => Ok(attach_edge(earlier, edge)),
                Err(error) => Err(error),
            },
            Err(error) => Err(error),
        }
    }
}

/// Whether both are about the same beads, in the same order.
pub open spec fn same_ids(a: Seq<BeadView>, b: Seq<BeadView>) -> bool {
    &&& a.len() == b.len()
    &&& forall|i: int| 0 <= i < a.len() ==> #[trigger] a[i].id == b[i].id
}

proof fn lemma_index_kept(index: Map<Seq<char>, usize>, a: Seq<BeadView>, b: Seq<BeadView>)
    requires
        same_ids(a, b),
        indexes(index, a, Duplicates::Last),
    ensures
        indexes(index, b, Duplicates::Last),
{
    assert forall|id: Seq<char>| has_id(a, id) == has_id(b, id) by {
        if has_id(a, id) {
            let i = choose|i: int| 0 <= i < a.len() && #[trigger] a[i].id == id;
            assert(b[i].id == id);
        }
        if has_id(b, id) {
            let i = choose|i: int| 0 <= i < b.len() && #[trigger] b[i].id == id;
            assert(a[i].id == id);
        }
    }
    assert forall|id: Seq<char>|
        #![trigger index[id]]
        index.contains_key(id) implies index[id] < b.len() && b[index[id] as int].id == id
        && Duplicates::Last.holds(b, index[id] as int) by {
        let at = index[id] as int;
        assert(a[at].id == id);
        assert forall|j: int| at < j < b.len() implies #[trigger] b[j].id != b[at].id by {
            assert(a[j].id != a[at].id);
        }
    }
}

proof fn lemma_owner(index: Map<Seq<char>, usize>, beads: Seq<BeadView>, id: Seq<char>, i: int)
    requires
        indexes(index, beads, Duplicates::Last),
        0 <= i < beads.len(),
    ensures
        owns(beads, i, id) <==> index.contains_key(id) && index[id] == i,
{
    if owns(beads, i, id) {
        assert(has_id(beads, id));
        let at = index[id] as int;
        assert(beads[at].id == id);
        if at < i {
            assert(beads[i].id != beads[at].id);
        }
        if i < at {
            assert(beads[at].id != beads[i].id);
        }
    }
}

/// Puts the comments that the rows of the `comments` table describe on the
/// beads. Comments on beads that are not there are left out.
pub fn attach_comments(beads: Vec<Bead>, rows: Vec<CommentRow>) -> (result: Result<
    Vec<Bead>,
    BeadsError,
>)
    ensures
        outcome(result) == with_comment_rows(beads.deep_view(), rows@),
{
    let ghost start = beads.deep_view();
    let mut out: Vec<Bead> = beads;
    let index: StringHashMap<usize> = bead_index(&out, Duplicates::Last);
    let ghost all = rows@;
    for row in it: rows
        invariant
            it.seq() == all,
            all == rows@,
            start == beads.deep_view(),
            indexes(index@, out.deep_view(), Duplicates::Last),
            with_comment_rows(start, all.take(it.index() as int)) == Ok::<
                Seq<BeadView>,
                BeadsErrorView,
            >(out.deep_view()),
    {
        let ghost k = it.index() as int;
        let ghost before = out.deep_view();
        assert(all.take(k + 1).drop_last() == all.take(k));
        assert(all.take(k + 1).last() == row);
        match row_to_comment(row) {
            Ok(comment) => {
                let ghost view = comment.deep_view();
                proof {
                    assert forall|i: int| 0 <= i < before.len() implies owns(
                        before,
                        i,
                        view.issue_id,
                    ) == (index@.contains_key(view.issue_id) && index@[view.issue_id] == i) by {
                        lemma_owner(index@, before, view.issue_id, i);
                    }
                }
                match index.get(comment.issue_id.as_str()) {
                    Some(place) => {
                        let place: usize = *place;
                        out[place].push_comment(comment);
                    },
                    None => {},
                }
                assert(out.deep_view() =~= attach_comment(before, view));
                proof {
                    lemma_index_kept(index@, before, out.deep_view());
                }
            },
            Err(error) => {
                proof {
                    lemma_comment_rows_stop(start, all, k + 1);
                }
                return Err(error);
            },
        }
    }
    assert(all.take(all.len() as int) == all);
    Ok(out)
}

proof fn lemma_comment_rows_stop(beads: Seq<BeadView>, rows: Seq<CommentRow>, k: int)
    requires
        0 <= k <= rows.len(),
        with_comment_rows(beads, rows.take(k)) is Err,
    ensures
        with_comment_rows(beads, rows) == with_comment_rows(beads, rows.take(k)),
    decreases rows.len(),
{
    if k < rows.len() {
        assert(rows.drop_last().take(k) == rows.take(k));
        lemma_comment_rows_stop(beads, rows.drop_last(), k);
    } else {
        assert(rows.take(k) == rows);
    }
}

/// Puts the edges that the rows of the `dependencies` table describe on the
/// beads. Edges from beads that are not there are left out.
pub fn attach_dependencies(beads: Vec<Bead>, rows: Vec<DependencyRow>) -> (result: Result<
    Vec<Bead>,
    BeadsError,
>)
    ensures
        outcome(result) == with_dependency_rows(beads.deep_view(), rows@),
{
    let ghost start = beads.deep_view();
    let mut out: Vec<Bead> = beads;
    let index: StringHashMap<usize> = bead_index(&out, Duplicates::Last);
    let ghost all = rows@;
    for row in it: rows
        invariant
            it.seq() == all,
            all == rows@,
            start == beads.deep_view(),
            indexes(index@, out.deep_view(), Duplicates::Last),
            with_dependency_rows(start, all.take(it.index() as int)) == Ok::<
                Seq<BeadView>,
                BeadsErrorView,
            >(out.deep_view()),
    {
        let ghost k = it.index() as int;
        let ghost before = out.deep_view();
        assert(all.take(k + 1).drop_last() == all.take(k));
        assert(all.take(k + 1).last() == row);
        match row_to_edge(row) {
            Ok(edge) => {
                let ghost view = edge.deep_view();
                proof {
                    assert forall|i: int| 0 <= i < before.len() implies owns(
                        before,
                        i,
                        view.issue_id,
                    ) == (index@.contains_key(view.issue_id) && index@[view.issue_id] == i) by {
                        lemma_owner(index@, before, view.issue_id, i);
                    }
                }
                match index.get(edge.issue_id.as_str()) {
                    Some(place) => {
                        let place: usize = *place;
                        out[place].push_dependency(edge.dependency);
                    },
                    None => {},
                }
                assert(out.deep_view() =~= attach_edge(before, view));
                proof {
                    lemma_index_kept(index@, before, out.deep_view());
                }
            },
            Err(error) => {
                proof {
                    lemma_dependency_rows_stop(start, all, k + 1);
                }
                return Err(error);
            },
        }
    }
    assert(all.take(all.len() as int) == all);
    Ok(out)
}

proof fn lemma_dependency_rows_stop(beads: Seq<BeadView>, rows: Seq<DependencyRow>, k: int)
    requires
        0 <= k <= rows.len(),
        with_dependency_rows(beads, rows.take(k)) is Err,
    ensures
        with_dependency_rows(beads, rows) == with_dependency_rows(beads, rows.take(k)),
    decreases rows.len(),
{
    if k < rows.len() {
        assert(rows.drop_last().take(k) == rows.take(k));
        lemma_dependency_rows_stop(beads, rows.drop_last(), k);
    } else {
        assert(rows.take(k) == rows);
    }
}

// ---------------------------------------------------------------------------
// Reading
// ---------------------------------------------------------------------------

/// Selects the issues of a project.
pub const ISSUES_QUERY: &'static str = "SELECT id, title, description, status, priority, issue_type, owner, created_at, created_by, updated_at, closed_at, close_reason, design FROM issues WHERE status != 'tombstone' ORDER BY priority, created_at";

/// Selects the comments of a project.
pub const COMMENTS_QUERY: &'static str = "SELECT id, issue_id, author, text, created_at FROM comments ORDER BY issue_id, created_at";

/// Selects the dependencies of a project.
pub const DEPENDENCIES_QUERY: &'static str = "SELECT issue_id, depends_on_id, type FROM dependencies";

/// What came of asking the database of a project for its beads.
#[derive(Debug, PartialEq, Eq)]
pub enum DoltReading {
    /// The database server cannot be used.
    NoServer(BeadsError),
    /// The server gave no connection; the text is that of the underlying error.
    NoConnection(String),
    /// The replies to [`ISSUES_QUERY`], [`COMMENTS_QUERY`] and
    /// [`DEPENDENCIES_QUERY`]: rows, or the text of the underlying error.
    Replies {
        issues: Result<Vec<IssueRow>, String>,
        comments: Result<Vec<CommentRow>, String>,
        dependencies: Result<Vec<DependencyRow>, String>,
    },
}

/// The beads of the reply to [`ISSUES_QUERY`].
pub open spec fn issues_reply(reply: Result<Vec<IssueRow>, String>) -> Result<
    Seq<BeadView>,
    BeadsErrorView,
> {
    match reply {
        Ok(rows) => beads_of(rows@),
        Err(text) => Err(BeadsErrorView::Database("issues query failed: "@ + text@)),
    }
}

/// The beads with the comments of the reply to [`COMMENTS_QUERY`].
pub open spec fn comments_reply(
    beads: Seq<BeadView>,
    reply: Result<Vec<CommentRow>, String>,
) -> Result<Seq<BeadView>, BeadsErrorView> {
    match reply {
        Ok(rows) => with_comment_rows(beads, rows@),
        Err(text) => Err(BeadsErrorView::Database("comments query failed: "@ + text@)),
    }
}

/// The beads with the edges of the reply to [`DEPENDENCIES_QUERY`].
pub open spec fn dependencies_reply(
    beads: Seq<BeadView>,
    reply: Result<Vec<DependencyRow>, String>,
) -> Result<Seq<BeadView>, BeadsErrorView> {
    match reply {
        Ok(rows) => with_dependency_rows(beads, rows@),
        Err(text) => Err(BeadsErrorView::Database("dependencies query failed: "@ + text@)),
    }
}

/// The beads that the database holds, with comments and edges, or the error of
/// the first step that went wrong.
pub open spec fn held(reading: DoltReading) -> Result<Seq<BeadView>, BeadsErrorView> {
    match reading {
        DoltReading::NoServer(error) => Err(error.deep_view()),
        DoltReading::NoConnection(text) => Err(
            BeadsErrorView::Database("failed to get connection from pool: "@ + text@),
        ),
        DoltReading::Replies { issues, comments, dependencies } => match issues_reply(issues) {
            Ok(beads) => match comments_reply(beads, comments) {
                Ok(commented) => dependencies_reply(commented, dependencies),
                Err(error) => Err(error),
            },
            Err(error) => Err(error),
        },
    }
}

/// The beads of the project, with all their relationships filled in. Where
/// several beads share an identifier, an inferred parent is written to the
/// last of them.
pub open spec fn read(reading: DoltReading) -> Result<Seq<BeadView>, BeadsErrorView> {
    match held(reading) {
        Ok(beads) => Ok(resolved(beads, Duplicates::Last)),
        Err(error) => Err(error),
    }
}

fn database_error(what: &str, text: &str) -> (error: BeadsError)
    ensures
        error.deep_view() == BeadsErrorView::Database(what@ + text@),
{
    BeadsError::Database(what.to_owned().concat(text))
}

/// Backend that reads beads from a Dolt database and leaves writing to the
/// `bd` command.
#[derive(Debug, Clone, Copy, PartialEq, Eq)]
pub struct DoltBackend;

impl DoltBackend {
    /// All beads of the database, with comments, edges and relationships.
    pub fn read_beads(&self, reading: DoltReading) -> (result: Result<Vec<Bead>, BeadsError>)
        ensures
            outcome(result) == read(reading),
    {
        let (issues, comments, dependencies) = match reading {
            DoltReading::NoServer(error) => {
                return Err(error);
            },
            DoltReading::NoConnection(text) => {
                return Err(
                    database_error("failed to get connection from pool: ", text.as_str()),
                );
            },
            DoltReading::Replies { issues, comments, dependencies } => (
                issues,
                comments,
                dependencies,
            ),
        };
        let beads = match issues {
            Ok(rows) => rows_to_beads(rows),
            Err(text) => Err(database_error("issues query failed: ", text.as_str())),
        };
        let beads: Vec<Bead> = match beads {
            Ok(beads) => beads,
            Err(error) => {
                return Err(error);
            },
        };
        let beads = match comments {
            Ok(rows) => attach_comments(beads, rows),
            Err(text) => Err(database_error("comments query failed: ", text.as_str())),
        };
        let beads: Vec<Bead> = match beads {
            Ok(beads) => beads,
            Err(error) => {
                return Err(error);
            },
        };
        let beads = match dependencies {
            Ok(rows) => attach_dependencies(beads, rows),
            Err(text) => Err(database_error("dependencies query failed: ", text.as_str())),
        };
        match beads {
            Ok(mut beads) => {
                resolve_relationships(&mut beads, Duplicates::Last);
                Ok(beads)
            },
            Err(error) => Err(error),
        }
    }
}

// ---------------------------------------------------------------------------
// Comments
// ---------------------------------------------------------------------------

/// The text that `String::from_utf8_lossy` makes of `bytes`.
pub uninterp spec fn lossy_utf8(bytes: Seq<u8>) -> Seq<char>;

/// `String::from_utf8_lossy`: bytes that are valid UTF-8 give the text that
/// they encode. What stands in for invalid bytes is left to the name
/// [`lossy_utf8`].
#[verifier::external_body]
fn lossy_text(bytes: &Vec<u8>) -> (text: String)
    ensures
        text@ == lossy_utf8(bytes@),
        vstd::utf8::valid_utf8(bytes@) ==> text@ == vstd::utf8::decode_utf8(bytes@),
{
    String::from_utf8_lossy(bytes).into_owned()
}

/// The arguments of the `bd` command that adds a comment to a bead.
pub open spec fn comment_arguments(
    bead_id: Seq<char>,
    text: Seq<char>,
    author: Seq<char>,
) -> Seq<Seq<char>> {
    seq!["comments"@, "add"@, bead_id, "--text"@, text, "--author"@, author]
}

/// What came of running the `bd` command.
#[derive(Debug, Clone, PartialEq, Eq)]
pub enum CommandOutcome {
    /// The command could not be run; the text is that of the underlying error.
    NotRun(String),
    /// The command failed, and wrote this to its standard error.
    Failed(Vec<u8>),
    /// The command succeeded.
    Succeeded,
}

/// The error of a `bd` command that wrote `stderr` and failed.
pub open spec fn command_failed(stderr: Seq<char>) -> BeadsErrorView {
    BeadsErrorView::CommandFailed("`bd comments add` failed: "@ + stderr)
}

/// The error of a `bd` command, if it did not succeed.
pub open spec fn command_error(command: CommandOutcome) -> Option<BeadsErrorView> {
    match command {
        CommandOutcome::NotRun(text) => Some(
            BeadsErrorView::CommandFailed("failed to spawn `bd comments add`: "@ + text@),
        ),
        CommandOutcome::Failed(stderr) => Some(command_failed(lossy_utf8(stderr@))),
        CommandOutcome::Succeeded => None,
    }
}

/// The error of a `bd` command that wrote `stderr` and failed.
pub fn failed_command(stderr: &str) -> (error: BeadsError)
    ensures
        error.deep_view() == command_failed(stderr@),
{
    BeadsError::CommandFailed("`bd comments add` failed: ".to_owned().concat(stderr))
}

/// Whether the `bd` command succeeded.
pub fn check_command(command: &CommandOutcome) -> (result: Result<(), BeadsError>)
    ensures
        match command_error(*command) {
            Some(error) => result is Err && result->Err_0.deep_view() == error,
            None => result is Ok,
        },
        match *command {
            CommandOutcome::Failed(stderr) => vstd::utf8::valid_utf8(stderr@)
                ==> result->Err_0.deep_view() == command_failed(vstd::utf8::decode_utf8(stderr@)),
            _ => true,
        },
{
    match command {
        CommandOutcome::NotRun(text) => Err(
            BeadsError::CommandFailed(
                "failed to spawn `bd comments add`: ".to_owned().concat(text.as_str()),
            ),
        ),
        CommandOutcome::Failed(stderr) => Err(failed_command(lossy_text(stderr).as_str())),
        CommandOutcome::Succeeded => Ok(()),
    }
}

/// Whether the bead at `i` is the first with the identifier `id`.
pub open spec fn first_with_id(beads: Seq<BeadView>, id: Seq<char>, i: int) -> bool {
    &&& 0 <= i < beads.len()
    &&& beads[i].id == id
    &&& Duplicates::First.holds(beads, i)
}

/// The error for a bead that is not there after a comment was added to it.
pub open spec fn gone_after_comment(id: Seq<char>) -> BeadsErrorView {
    BeadsErrorView::NotFound("bead '"@ + id + "' not found after comment add"@)
}

/// Whether `result` is the first of the beads with the identifier `id`, or
/// tells that there is none.
pub open spec fn found_or_gone(
    beads: Seq<BeadView>,
    id: Seq<char>,
    result: Result<BeadView, BeadsErrorView>,
) -> bool {
    match result {
        Ok(bead) => exists|i: int| #[trigger] first_with_id(beads, id, i) && bead == beads[i],
        Err(error) => !has_id(beads, id) && error == gone_after_comment(id),
    }
}

/// Takes the first bead with the identifier `bead_id` out of the beads that
/// were read after a comment was added to it.
pub fn find_commented(beads: Vec<Bead>, bead_id: &str) -> (result: Result<Bead, BeadsError>)
    ensures
        found_or_gone(beads.deep_view(), bead_id@, outcome(result)),
        result is Ok <==> exists|i: int|
            0 <= i < beads@.len() && (#[trigger] beads@[i]).id@ == bead_id@,
        result matches Ok(bead) ==> bead.id@ == bead_id@ && beads@.contains(bead),
{
    let ghost all = beads.deep_view();
    let wanted: String = bead_id.to_owned();
    for bead in it: beads
        invariant
            it.seq() == beads@,
            all == beads.deep_view(),
            wanted@ == bead_id@,
            forall|j: int| 0 <= j < it.index() ==> #[trigger] all[j].id != bead_id@,
    {
        assert(all[it.index() as int] == bead.deep_view());
        if bead.id == wanted {
            assert(first_with_id(all, bead_id@, it.index() as int));
            assert(beads@[it.index() as int] == bead);
            return Ok(bead);
        }
    }
    assert forall|i: int| 0 <= i < beads@.len() implies (#[trigger] beads@[i]).id@ != bead_id@ by {
        assert(all[i].id != bead_id@);
    }
    Err(
        BeadsError::NotFound(
            "bead '".to_owned().concat(bead_id).concat("' not found after comment add"),
        ),
    )
}

impl DoltBackend {
    /// The arguments of the `bd` command that adds a comment to a bead.
    pub fn comment_command(&self, bead_id: &str, text: &str, author: &str) -> (arguments: Vec<
        String,
    >)
        ensures
            arguments.deep_view() == comment_arguments(bead_id@, text@, author@),
            arguments@.len() == 7,
            arguments@[0]@ == "comments"@,
            arguments@[1]@ == "add"@,
            arguments@[2]@ == bead_id@,
            arguments@[3]@ == "--text"@,
            arguments@[4]@ == text@,
            arguments@[5]@ == "--author"@,
            arguments@[6]@ == author@,
    {
        let mut arguments: Vec<String> = Vec::new();
        arguments.push("comments".to_owned());
        arguments.push("add".to_owned());
        arguments.push(bead_id.to_owned());
        arguments.push("--text".to_owned());
        arguments.push(text.to_owned());
        arguments.push("--author".to_owned());
        arguments.push(author.to_owned());
        assert(arguments.deep_view() =~= comment_arguments(bead_id@, text@, author@));
        arguments
    }

    /// The bead that was commented on, from what the `bd` command did and from
    /// what the database held after it.
    pub fn add_comment(
        &self,
        bead_id: &str,
        command: CommandOutcome,
        reading: DoltReading,
    ) -> (result: Result<Bead, BeadsError>)
        ensures
            match (command_error(command), read(reading)) {
                (Some(error), _) => outcome(result) == Err::<BeadView, BeadsErrorView>(error),
                (None, Err(error)) => outcome(result) == Err::<BeadView, BeadsErrorView>(error),
                (None, Ok(beads)) => found_or_gone(beads, bead_id@, outcome(result)),
            },
            match command {
                CommandOutcome::Failed(stderr) => vstd::utf8::valid_utf8(stderr@) ==> outcome(result)
                    == Err::<BeadView, BeadsErrorView>(
                    command_failed(vstd::utf8::decode_utf8(stderr@)),
                ),
                _ => true,
            },
    {
        match check_command(&command) {
            Ok(_) => {},
            Err(error) => {
                return Err(error);
            },
        }
        match self.read_beads(reading) {
            Ok(beads) => find_commented(beads, bead_id),
            Err(error) => Err(error),
        }
    }
}

} // verus!
