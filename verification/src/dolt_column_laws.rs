//! What a reading of a Dolt database shows, told by the columns of the rows
//! alone.

use vstd::prelude::*;

use crate::beads::{BeadView, CommentView, DependencyView};
use crate::dolt::{
    bead_of, beads_of, comment_arguments, comment_of, command_error, edge_of, first_with_id,
    found_or_gone, held, read, with_comment_rows, with_dependency_rows, CommandOutcome,
    CommentRow, DependencyRow, DoltReading, IssueRow, COMMENTS_QUERY, DEPENDENCIES_QUERY,
    ISSUES_QUERY,
};
use crate::dolt_laws::{beads_show_their_rows, comments_on, edges_from, whole, whole_rows_are_read};
use crate::error::BeadsErrorView;
use crate::relation_laws::resolving_keeps_the_rest;
use crate::relations::{has_id, resolved, Duplicates};
use crate::selection::{filter_selects, selects, selects_alike};
use crate::text::signed_decimal;

verus! {

// ---------------------------------------------------------------------------
// Rows
// ---------------------------------------------------------------------------

/// A row with an identifier, a title and a status describes a bead, each field
/// of which is the column of that name, whatever the other columns hold. The
/// first of the three that is missing is told otherwise.
pub proof fn issue_rows_show_their_columns(row: IssueRow)
    ensures
        bead_of(row) is Ok <==> row.id is Some && row.title is Some && row.status is Some,
        bead_of(row) matches Ok(bead) ==> {
            &&& bead.id == row.id->0@
            &&& bead.title == row.title->0@
            &&& bead.description == row.description.deep_view()
            &&& bead.status == row.status->0@
            &&& bead.priority == row.priority
            &&& bead.issue_type == row.issue_type.deep_view()
            &&& bead.owner == row.owner.deep_view()
            &&& bead.created_at == row.created_at.deep_view()
            &&& bead.created_by == row.created_by.deep_view()
            &&& bead.updated_at == row.updated_at.deep_view()
            &&& bead.closed_at == row.closed_at.deep_view()
            &&& bead.close_reason == row.close_reason.deep_view()
            &&& bead.design_doc == row.design.deep_view()
            &&& bead.comments is None && bead.parent_id is None && bead.children is None
            &&& bead.deps is None && bead.relates_to is None && bead.dependencies is None
        },
        row.id is None ==> bead_of(row) == Err::<BeadView, BeadsErrorView>(
            BeadsErrorView::Parse("missing id column in issues"@),
        ),
        row.id is Some && row.title is None ==> bead_of(row) == Err::<BeadView, BeadsErrorView>(
            BeadsErrorView::Parse("missing title for bead '"@ + row.id->0@ + "'"@),
        ),
        row.id is Some && row.title is Some && row.status is None ==> bead_of(row) == Err::<
            BeadView,
            BeadsErrorView,
        >(BeadsErrorView::Parse("missing status for bead '"@ + row.id->0@ + "'"@)),
{
}

/// A row with every column describes a comment with those columns. The first
/// that is missing is told otherwise.
pub proof fn comment_rows_show_their_columns(row: CommentRow)
    ensures
        comment_of(row) is Ok <==> row.id is Some && row.issue_id is Some && row.author is Some
            && row.text is Some && row.created_at is Some,
        comment_of(row) matches Ok(comment) ==> {
            &&& comment.id == row.id->0
            &&& comment.issue_id == row.issue_id->0@
            &&& comment.author == row.author->0@
            &&& comment.text == row.text->0@
            &&& comment.created_at == row.created_at->0@
        },
        row.id is None ==> comment_of(row) == Err::<CommentView, BeadsErrorView>(
            BeadsErrorView::Parse("missing id column in comments"@),
        ),
        row.id is Some && row.issue_id is None ==> comment_of(row) == Err::<
            CommentView,
            BeadsErrorView,
        >(BeadsErrorView::Parse("missing issue_id column in comments"@)),
        row.id is Some && row.issue_id is Some && row.author is None ==> comment_of(row) == Err::<
            CommentView,
            BeadsErrorView,
        >(
            BeadsErrorView::Parse(
                "missing author for comment id '"@ + signed_decimal(row.id->0 as int) + "'"@,
            ),
        ),
        row.id is Some && row.issue_id is Some && row.author is Some && row.text is None
            ==> comment_of(row) == Err::<CommentView, BeadsErrorView>(
            BeadsErrorView::Parse(
                "missing text for comment id '"@ + signed_decimal(row.id->0 as int) + "'"@,
            ),
        ),
        row.id is Some && row.issue_id is Some && row.author is Some && row.text is Some
            && row.created_at is None ==> comment_of(row) == Err::<CommentView, BeadsErrorView>(
            BeadsErrorView::Parse(
                "missing created_at for comment id '"@ + signed_decimal(row.id->0 as int) + "'"@,
            ),
        ),
{
}

/// A row with every column describes an edge with those columns. The first that
/// is missing is told otherwise.
pub proof fn dependency_rows_show_their_columns(row: DependencyRow)
    ensures
        edge_of(row) is Ok <==> row.issue_id is Some && row.depends_on_id is Some
            && row.dep_type is Some,
        edge_of(row) matches Ok(edge) ==> {
            &&& edge.issue_id == row.issue_id->0@
            &&& edge.dependency.depends_on_id == row.depends_on_id->0@
            &&& edge.dependency.dep_type == row.dep_type->0@
        },
        edge_of(row) matches Err(error) ==> error == BeadsErrorView::Parse(
            if row.issue_id is None {
                "missing issue_id in dependencies"@
            } else if row.depends_on_id is None {
                "missing depends_on_id in dependencies"@
            } else {
                "missing type in dependencies"@
            },
        ),
{
}

/// Reading rows fails with the error of the first row that describes no bead.
pub proof fn first_bad_issue_row_is_told(rows: Seq<IssueRow>, k: int)
    requires
        0 <= k < rows.len(),
        bead_of(rows[k]) is Err,
        forall|i: int| 0 <= i < k ==> bead_of(#[trigger] rows[i]) is Ok,
    ensures
        beads_of(rows) == Err::<Seq<BeadView>, BeadsErrorView>(bead_of(rows[k])->Err_0),
    decreases rows.len(),
{
    let shorter = rows.drop_last();
    if k < shorter.len() {
        assert forall|i: int| 0 <= i < k implies bead_of(#[trigger] shorter[i]) is Ok by {
            assert(shorter[i] == rows[i]);
        }
        first_bad_issue_row_is_told(shorter, k);
    } else {
        lemma_issue_rows_ok(shorter, rows);
    }
}

proof fn lemma_issue_rows_ok(rows: Seq<IssueRow>, all: Seq<IssueRow>)
    requires
        rows.len() <= all.len(),
        forall|i: int| 0 <= i < rows.len() ==> #[trigger] rows[i] == all[i],
        forall|i: int| 0 <= i < rows.len() ==> bead_of(#[trigger] all[i]) is Ok,
    ensures
        beads_of(rows) is Ok,
    decreases rows.len(),
{
    if rows.len() > 0 {
        let shorter = rows.drop_last();
        assert forall|i: int| 0 <= i < shorter.len() implies #[trigger] shorter[i] == all[i] by {
            assert(shorter[i] == rows[i]);
        }
        lemma_issue_rows_ok(shorter, all);
        assert(rows[rows.len() - 1] == all[rows.len() - 1]);
    }
}

/// Attaching comments fails with the error of the first row that describes no
/// comment.
pub proof fn first_bad_comment_row_is_told(
    beads: Seq<BeadView>,
    rows: Seq<CommentRow>,
    k: int,
)
    requires
        0 <= k < rows.len(),
        comment_of(rows[k]) is Err,
        forall|i: int| 0 <= i < k ==> comment_of(#[trigger] rows[i]) is Ok,
    ensures
        with_comment_rows(beads, rows) == Err::<Seq<BeadView>, BeadsErrorView>(
            comment_of(rows[k])->Err_0,
        ),
    decreases rows.len(),
{
    let shorter = rows.drop_last();
    if k < shorter.len() {
        assert forall|i: int| 0 <= i < k implies comment_of(#[trigger] shorter[i]) is Ok by {
            assert(shorter[i] == rows[i]);
        }
        first_bad_comment_row_is_told(beads, shorter, k);
    } else {
        lemma_comment_rows_ok(beads, shorter, rows);
    }
}

proof fn lemma_comment_rows_ok(beads: Seq<BeadView>, rows: Seq<CommentRow>, all: Seq<CommentRow>)
    requires
        rows.len() <= all.len(),
        forall|i: int| 0 <= i < rows.len() ==> #[trigger] rows[i] == all[i],
        forall|i: int| 0 <= i < rows.len() ==> comment_of(#[trigger] all[i]) is Ok,
    ensures
        with_comment_rows(beads, rows) is Ok,
    decreases rows.len(),
{
    if rows.len() > 0 {
        let shorter = rows.drop_last();
        assert forall|i: int| 0 <= i < shorter.len() implies #[trigger] shorter[i] == all[i] by {
            assert(shorter[i] == rows[i]);
        }
        lemma_comment_rows_ok(beads, shorter, all);
        assert(rows[rows.len() - 1] == all[rows.len() - 1]);
    }
}

/// Attaching edges fails with the error of the first row that describes no
/// edge.
pub proof fn first_bad_dependency_row_is_told(
    beads: Seq<BeadView>,
    rows: Seq<DependencyRow>,
    k: int,
)
    requires
        0 <= k < rows.len(),
        edge_of(rows[k]) is Err,
        forall|i: int| 0 <= i < k ==> edge_of(#[trigger] rows[i]) is Ok,
    ensures
        with_dependency_rows(beads, rows) == Err::<Seq<BeadView>, BeadsErrorView>(
            edge_of(rows[k])->Err_0,
        ),
    decreases rows.len(),
{
    let shorter = rows.drop_last();
    if k < shorter.len() {
        assert forall|i: int| 0 <= i < k implies edge_of(#[trigger] shorter[i]) is Ok by {
            assert(shorter[i] == rows[i]);
        }
        first_bad_dependency_row_is_told(beads, shorter, k);
    } else {
        lemma_dependency_rows_ok(beads, shorter, rows);
    }
}

proof fn lemma_dependency_rows_ok(
    beads: Seq<BeadView>,
    rows: Seq<DependencyRow>,
    all: Seq<DependencyRow>,
)
    requires
        rows.len() <= all.len(),
        forall|i: int| 0 <= i < rows.len() ==> #[trigger] rows[i] == all[i],
        forall|i: int| 0 <= i < rows.len() ==> edge_of(#[trigger] all[i]) is Ok,
    ensures
        with_dependency_rows(beads, rows) is Ok,
    decreases rows.len(),
{
    if rows.len() > 0 {
        let shorter = rows.drop_last();
        assert forall|i: int| 0 <= i < shorter.len() implies #[trigger] shorter[i] == all[i] by {
            assert(shorter[i] == rows[i]);
        }
        lemma_dependency_rows_ok(beads, shorter, all);
        assert(rows[rows.len() - 1] == all[rows.len() - 1]);
    }
}

// ---------------------------------------------------------------------------
// Readings
// ---------------------------------------------------------------------------

/// Whether `places` are exactly the places of the rows whose column `issue_id`
/// is `id`, in order.
pub open spec fn are_comments_for(rows: Seq<CommentRow>, id: Seq<char>, places: Seq<int>) -> bool {
    selects(rows, |r: CommentRow| r.issue_id is Some && r.issue_id->0@ == id, places)
}

/// Whether `places` are exactly the places of the rows whose column `issue_id`
/// is `id`, in order.
pub open spec fn are_edges_for(rows: Seq<DependencyRow>, id: Seq<char>, places: Seq<int>) -> bool {
    selects(rows, |r: DependencyRow| r.issue_id is Some && r.issue_id->0@ == id, places)
}

/// The comments with the columns of the rows at `places`; none where there is
/// no such row.
pub open spec fn shown_comments(rows: Seq<CommentRow>, places: Seq<int>) -> Option<
    Seq<CommentView>,
> {
    if places.len() == 0 {
        None
    } else {
        Some(
            Seq::new(
                places.len(),
                |n: int|
                    CommentView {
                        id: rows[places[n]].id->0 as int,
                        issue_id: rows[places[n]].issue_id->0@,
                        author: rows[places[n]].author->0@,
                        text: rows[places[n]].text->0@,
                        created_at: rows[places[n]].created_at->0@,
                    },
            ),
        )
    }
}

/// The edges with the columns of the rows at `places`; none where there is no
/// such row.
pub open spec fn shown_edges(rows: Seq<DependencyRow>, places: Seq<int>) -> Option<
    Seq<DependencyView>,
> {
    if places.len() == 0 {
        None
    } else {
        Some(
            Seq::new(
                places.len(),
                |n: int|
                    DependencyView {
                        depends_on_id: rows[places[n]].depends_on_id->0@,
                        dep_type: rows[places[n]].dep_type->0@,
                    },
            ),
        )
    }
}

proof fn lemma_comments_on(rows: Seq<CommentRow>, id: Seq<char>) -> (places: Seq<int>)
    requires
        forall|i: int| 0 <= i < rows.len() ==> comment_of(#[trigger] rows[i]) is Ok,
    ensures
        are_comments_for(rows, id, places),
        comments_on(rows, id).len() == places.len(),
        places.len() > 0 ==> shown_comments(rows, places) == Some(comments_on(rows, id)),
{
    let described = |r: CommentRow| comment_of(r)->Ok_0.issue_id == id;
    let stored = |r: CommentRow| r.issue_id is Some && r.issue_id->0@ == id;
    let places = filter_selects(rows, described);
    selects_alike(rows, described, stored, places);
    assert(comments_on(rows, id).len() == places.len());
    if places.len() > 0 {
        assert(shown_comments(rows, places)->0 =~= comments_on(rows, id));
    }
    places
}

proof fn lemma_edges_from(rows: Seq<DependencyRow>, id: Seq<char>) -> (places: Seq<int>)
    requires
        forall|i: int| 0 <= i < rows.len() ==> edge_of(#[trigger] rows[i]) is Ok,
    ensures
        are_edges_for(rows, id, places),
        edges_from(rows, id).len() == places.len(),
        places.len() > 0 ==> shown_edges(rows, places) == Some(edges_from(rows, id)),
{
    let described = |r: DependencyRow| edge_of(r)->Ok_0.issue_id == id;
    let stored = |r: DependencyRow| r.issue_id is Some && r.issue_id->0@ == id;
    let places = filter_selects(rows, described);
    selects_alike(rows, described, stored, places);
    assert(edges_from(rows, id).len() == places.len());
    if places.len() > 0 {
        assert(shown_edges(rows, places)->0 =~= edges_from(rows, id));
    }
    places
}

/// Whether no later row has the identifier of the row at `i`.
pub open spec fn is_last_with_id(rows: Seq<IssueRow>, i: int) -> bool {
    forall|j: int| i < j < rows.len() ==> (#[trigger] rows[j]).id->0@ != rows[i].id->0@
}

/// A reading that succeeds gives one bead for each row of the `issues` table,
/// in order. Each shows every column of its row, all the comments and edges
/// that the other tables hold for it, and no others. Where rows share an
/// identifier, the last of them has those comments and edges.
pub proof fn readings_show_every_column(
    issues: Vec<IssueRow>,
    comments: Vec<CommentRow>,
    dependencies: Vec<DependencyRow>,
    beads: Seq<BeadView>,
    i: int,
)
    requires
        read(
            DoltReading::Replies {
                issues: Ok(issues),
                comments: Ok(comments),
                dependencies: Ok(dependencies),
            },
        ) == Ok::<Seq<BeadView>, BeadsErrorView>(beads),
        0 <= i < beads.len(),
    ensures
        beads.len() == issues@.len(),
        issues@[i].id is Some && issues@[i].title is Some && issues@[i].status is Some,
        beads[i].id == issues@[i].id->0@,
        beads[i].title == issues@[i].title->0@,
        beads[i].description == issues@[i].description.deep_view(),
        beads[i].status == issues@[i].status->0@,
        beads[i].priority == issues@[i].priority,
        beads[i].issue_type == issues@[i].issue_type.deep_view(),
        beads[i].owner == issues@[i].owner.deep_view(),
        beads[i].created_at == issues@[i].created_at.deep_view(),
        beads[i].created_by == issues@[i].created_by.deep_view(),
        beads[i].updated_at == issues@[i].updated_at.deep_view(),
        beads[i].closed_at == issues@[i].closed_at.deep_view(),
        beads[i].close_reason == issues@[i].close_reason.deep_view(),
        beads[i].design_doc == issues@[i].design.deep_view(),
        beads[i].deps is None,
        !is_last_with_id(issues@, i) ==> beads[i].comments is None && beads[i].dependencies is None,
        is_last_with_id(issues@, i) ==> exists|places: Seq<int>| #[trigger]
            are_comments_for(comments@, beads[i].id, places) && beads[i].comments == shown_comments(
                comments@,
                places,
            ),
        is_last_with_id(issues@, i) ==> exists|places: Seq<int>| #[trigger]
            are_edges_for(dependencies@, beads[i].id, places) && beads[i].dependencies
                == shown_edges(dependencies@, places),
{
    let reading = DoltReading::Replies {
        issues: Ok(issues),
        comments: Ok(comments),
        dependencies: Ok(dependencies),
    };
    let bare = held(reading)->Ok_0;
    whole_rows_are_read(reading);
    assert(whole(issues@, comments@, dependencies@));
    beads_show_their_rows(issues, comments, dependencies, bare);
    resolving_keeps_the_rest(bare, Duplicates::Last);
    assert(beads == resolved(bare, Duplicates::Last));
    assert forall|j: int| 0 <= j < bare.len() implies (#[trigger] bare[j]).id
        == issues@[j].id->0@ by {
        issue_rows_show_their_columns(issues@[j]);
    }
    issue_rows_show_their_columns(issues@[i]);
    assert(bare[i].id == beads[i].id);
    let places = lemma_comments_on(comments@, bare[i].id);
    let edge_places = lemma_edges_from(dependencies@, bare[i].id);
    assert(is_last_with_id(issues@, i) == Duplicates::Last.holds(bare, i)) by {
        if is_last_with_id(issues@, i) {
            assert forall|j: int| i < j < bare.len() implies (#[trigger] bare[j]).id
                != bare[i].id by {
                assert(issues@[j].id->0@ != issues@[i].id->0@);
            }
        }
        if Duplicates::Last.holds(bare, i) {
            assert forall|j: int| i < j < issues@.len() implies (#[trigger] issues@[j]).id->0@
                != issues@[i].id->0@ by {
                assert(bare[j].id != bare[i].id);
            }
        }
    }
    assert(are_comments_for(comments@, beads[i].id, places));
    assert(are_edges_for(dependencies@, beads[i].id, edge_places));
}

/// A reading fails with the error of the first step that failed, in the words
/// of that step; and the relationships of one that succeeds are filled in.
pub proof fn failed_steps_are_told(
    reading: DoltReading,
    error: crate::error::BeadsError,
    text: String,
)
    ensures
        read(DoltReading::NoServer(error)) == Err::<Seq<BeadView>, BeadsErrorView>(
            error.deep_view(),
        ),
        read(DoltReading::NoConnection(text)) == Err::<Seq<BeadView>, BeadsErrorView>(
            BeadsErrorView::Database("failed to get connection from pool: "@ + text@),
        ),
        read(reading) is Ok <==> held(reading) is Ok,
        held(reading) matches Ok(beads) ==> read(reading) == Ok::<Seq<BeadView>, BeadsErrorView>(
            resolved(beads, Duplicates::Last),
        ),
        held(reading) matches Err(e) ==> read(reading) == Err::<Seq<BeadView>, BeadsErrorView>(e),
        reading matches DoltReading::Replies { issues, comments, dependencies } ==> {
            &&& issues matches Err(e) ==> held(reading) == Err::<Seq<BeadView>, BeadsErrorView>(
                BeadsErrorView::Database("issues query failed: "@ + e@),
            )
            &&& issues matches Ok(rows) ==> {
                &&& beads_of(rows@) matches Err(e) ==> held(reading) == Err::<
                    Seq<BeadView>,
                    BeadsErrorView,
                >(e)
                &&& beads_of(rows@) matches Ok(bare) ==> {
                    &&& comments matches Err(e) ==> held(reading) == Err::<
                        Seq<BeadView>,
                        BeadsErrorView,
                    >(BeadsErrorView::Database("comments query failed: "@ + e@))
                    &&& comments matches Ok(crows) ==> {
                        &&& with_comment_rows(bare, crows@) matches Err(e) ==> held(reading)
                            == Err::<Seq<BeadView>, BeadsErrorView>(e)
                        &&& with_comment_rows(bare, crows@) matches Ok(with) ==> {
                            &&& dependencies matches Err(e) ==> held(reading) == Err::<
                                Seq<BeadView>,
                                BeadsErrorView,
                            >(BeadsErrorView::Database("dependencies query failed: "@ + e@))
                            &&& dependencies matches Ok(drows) ==> held(reading)
                                == with_dependency_rows(with, drows@)
                        }
                    }
                }
            }
        },
{
}

/// The queries name every column that is read, leave out tombstones, and give
/// the rows in order.
pub proof fn queries_name_every_column()
    ensures
        ISSUES_QUERY@
            == "SELECT id, title, description, status, priority, issue_type, owner, created_at, created_by, updated_at, closed_at, close_reason, design FROM issues WHERE status != 'tombstone' ORDER BY priority, created_at"@,
        COMMENTS_QUERY@
            == "SELECT id, issue_id, author, text, created_at FROM comments ORDER BY issue_id, created_at"@,
        DEPENDENCIES_QUERY@ == "SELECT issue_id, depends_on_id, type FROM dependencies"@,
{
}

// ---------------------------------------------------------------------------
// Comments
// ---------------------------------------------------------------------------

/// The command that adds a comment is given the bead, the text and the author
/// in full, each behind the word that announces it.
pub proof fn comment_arguments_are_given_in_full(
    bead_id: Seq<char>,
    text: Seq<char>,
    author: Seq<char>,
)
    ensures
        comment_arguments(bead_id, text, author).len() == 7,
        comment_arguments(bead_id, text, author)[0] == "comments"@,
        comment_arguments(bead_id, text, author)[1] == "add"@,
        comment_arguments(bead_id, text, author)[2] == bead_id,
        comment_arguments(bead_id, text, author)[3] == "--text"@,
        comment_arguments(bead_id, text, author)[4] == text,
        comment_arguments(bead_id, text, author)[5] == "--author"@,
        comment_arguments(bead_id, text, author)[6] == author,
{
}

/// Different comments give different commands.
pub proof fn different_comments_give_different_commands(
    bead_id: Seq<char>,
    text: Seq<char>,
    author: Seq<char>,
    other_id: Seq<char>,
    other_text: Seq<char>,
    other_author: Seq<char>,
)
    requires
        comment_arguments(bead_id, text, author) == comment_arguments(
            other_id,
            other_text,
            other_author,
        ),
    ensures
        bead_id == other_id && text == other_text && author == other_author,
{
    comment_arguments_are_given_in_full(bead_id, text, author);
    comment_arguments_are_given_in_full(other_id, other_text, other_author);
}

/// A command that did not succeed is told, in full and in these words; one that
/// succeeded is not.
pub proof fn failed_commands_are_told(command: CommandOutcome)
    ensures
        command_error(command) is None <==> command is Succeeded,
        command matches CommandOutcome::NotRun(text) ==> command_error(command) == Some(
            BeadsErrorView::CommandFailed("failed to spawn `bd comments add`: "@ + text@),
        ),
        command matches CommandOutcome::Failed(stderr) ==> command_error(command) == Some(
            BeadsErrorView::CommandFailed(
                "`bd comments add` failed: "@ + crate::dolt::lossy_utf8(stderr@),
            ),
        ),
{
}

/// Of the beads that are read after a comment, the first with its identifier
/// is given; only where there is none, that is told.
pub proof fn commented_beads_are_found(
    beads: Seq<BeadView>,
    id: Seq<char>,
    result: Result<BeadView, BeadsErrorView>,
)
    requires
        found_or_gone(beads, id, result),
    ensures
        result is Ok <==> exists|i: int| 0 <= i < beads.len() && (#[trigger] beads[i]).id == id,
        result matches Ok(bead) ==> exists|i: int|
            0 <= i < beads.len() && (#[trigger] beads[i]) == bead && bead.id == id && forall|j: int|
                0 <= j < i ==> (#[trigger] beads[j]).id != id,
        result matches Err(error) ==> error == BeadsErrorView::NotFound(
            "bead '"@ + id + "' not found after comment add"@,
        ),
{
    if result is Ok {
        let bead = result->Ok_0;
        let i = choose|i: int| #[trigger] first_with_id(beads, id, i) && bead == beads[i];
        assert(beads[i] == bead);
        assert(beads[i].id == id);
        assert forall|j: int| 0 <= j < i implies (#[trigger] beads[j]).id != id by {
            assert(beads[j].id != beads[i].id);
        }
    } else {
        assert(!has_id(beads, id));
    }
}

/// An edge shows the bead that it starts from and what is stored of it.
pub proof fn edges_show_every_field(edge: crate::dolt::Edge)
    ensures
        edge.deep_view().issue_id == edge.issue_id@,
        edge.deep_view().dependency == edge.dependency.deep_view(),
{
}

} // verus!
