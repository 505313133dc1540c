//! What holds of every reading of a Dolt database.

use vstd::prelude::*;

use crate::beads::{BeadView, CommentView, DependencyView};
use crate::dolt::{
    attach_comment, attach_edge, bead_of, beads_of, comment_of, comments_reply,
    dependencies_reply, edge_of, held, issues_reply, owns, same_ids, with_comment_rows,
    with_dependency_rows, CommentRow, DependencyRow, DoltReading, IssueRow,
};
use crate::error::BeadsErrorView;
use crate::relations::Duplicates;

verus! {

proof fn lemma_beads_of(rows: Seq<IssueRow>)
    ensures
        beads_of(rows) is Ok <==> forall|i: int|
            0 <= i < rows.len() ==> bead_of(#[trigger] rows[i]) is Ok,
        beads_of(rows) is Ok ==> {
            let beads = beads_of(rows)->Ok_0;
            &&& beads.len() == rows.len()
            &&& forall|i: int|
                0 <= i < rows.len() ==> #[trigger] beads[i] == bead_of(rows[i])->Ok_0
        },
    decreases rows.len(),
{
    if rows.len() > 0 {
        let shorter = rows.drop_last();
        lemma_beads_of(shorter);
        assert forall|i: int| 0 <= i < shorter.len() implies #[trigger] shorter[i] == rows[i] by {}
        if forall|i: int| 0 <= i < rows.len() ==> bead_of(#[trigger] rows[i]) is Ok {
            assert forall|i: int| 0 <= i < shorter.len() implies bead_of(
                #[trigger] shorter[i],
            ) is Ok by {
                assert(bead_of(rows[i]) is Ok);
            }
            assert(bead_of(rows[rows.len() - 1]) is Ok);
        }
        if beads_of(rows) is Ok {
            assert forall|i: int| 0 <= i < rows.len() implies bead_of(#[trigger] rows[i]) is Ok by {
                if i < shorter.len() {
                    assert(bead_of(shorter[i]) is Ok);
                }
            }
        }
    }
}

/// The comments that the rows describe for the bead with the identifier `id`,
/// in order.
pub open spec fn comments_on(rows: Seq<CommentRow>, id: Seq<char>) -> Seq<CommentView> {
    rows.filter(|r: CommentRow| comment_of(r)->Ok_0.issue_id == id).map_values(
        |r: CommentRow| comment_of(r)->Ok_0,
    )
}

proof fn lemma_same_owner(a: Seq<BeadView>, b: Seq<BeadView>, i: int, id: Seq<char>)
    requires
        same_ids(a, b),
        0 <= i < a.len(),
    ensures
        owns(a, i, id) == owns(b, i, id),
{
    if owns(a, i, id) {
        assert forall|j: int| i < j < b.len() implies #[trigger] b[j].id != b[i].id by {
            assert(a[j].id != a[i].id);
        }
    }
    if owns(b, i, id) {
        assert forall|j: int| i < j < a.len() implies #[trigger] a[j].id != a[i].id by {
            assert(b[j].id != b[i].id);
        }
    }
}

proof fn lemma_comment_rows_whole(beads: Seq<BeadView>, rows: Seq<CommentRow>)
    ensures
        with_comment_rows(beads, rows) is Ok <==> forall|i: int|
            0 <= i < rows.len() ==> comment_of(#[trigger] rows[i]) is Ok,
    decreases rows.len(),
{
    if rows.len() > 0 {
        let shorter = rows.drop_last();
        lemma_comment_rows_whole(beads, shorter);
        assert forall|i: int| 0 <= i < shorter.len() implies #[trigger] shorter[i] == rows[i] by {}
        if forall|i: int| 0 <= i < rows.len() ==> comment_of(#[trigger] rows[i]) is Ok {
            assert forall|i: int| 0 <= i < shorter.len() implies comment_of(
                #[trigger] shorter[i],
            ) is Ok by {
                assert(comment_of(rows[i]) is Ok);
            }
            assert(comment_of(rows[rows.len() - 1]) is Ok);
        }
        if with_comment_rows(beads, rows) is Ok {
            assert forall|i: int| 0 <= i < rows.len() implies comment_of(
                #[trigger] rows[i],
            ) is Ok by {
                if i < shorter.len() {
                    assert(comment_of(shorter[i]) is Ok);
                }
            }
        }
    }
}

/// Each comment lands on the bead that it belongs to, after the comments that
/// the bead had and in the order of the rows. Nothing else of any bead
/// changes.
pub proof fn comments_land_on_their_beads(
    beads: Seq<BeadView>,
    rows: Seq<CommentRow>,
    after: Seq<BeadView>,
)
    requires
        with_comment_rows(beads, rows) == Ok::<Seq<BeadView>, BeadsErrorView>(after),
    ensures
        after.len() == beads.len(),
        forall|i: int|
            0 <= i < beads.len() ==> #[trigger] after[i] == if Duplicates::Last.holds(beads, i)
                && comments_on(rows, beads[i].id).len() > 0 {
                BeadView {
                    comments: Some(beads[i].comment_list() + comments_on(rows, beads[i].id)),
                    ..beads[i]
                }
            } else {
                beads[i]
            },
    decreases rows.len(),
{
    reveal(Seq::filter);
    if rows.len() > 0 {
        let shorter = rows.drop_last();
        let row = rows.last();
        let before = with_comment_rows(beads, shorter)->Ok_0;
        let comment = comment_of(row)->Ok_0;
        comments_land_on_their_beads(beads, shorter, before);
        assert(same_ids(beads, before));
        assert(after == attach_comment(before, comment));
        assert forall|i: int| 0 <= i < beads.len() implies #[trigger] after[i]
            == if Duplicates::Last.holds(beads, i) && comments_on(rows, beads[i].id).len() > 0 {
            BeadView {
                comments: Some(beads[i].comment_list() + comments_on(rows, beads[i].id)),
                ..beads[i]
            }
        } else {
            beads[i]
        } by {
            lemma_same_owner(beads, before, i, comment.issue_id);
            let earlier = comments_on(shorter, beads[i].id);
            if comment.issue_id == beads[i].id {
                assert(comments_on(rows, beads[i].id) =~= earlier.push(comment));
                assert(beads[i].comment_list() + earlier.push(comment) =~= (
                beads[i].comment_list() + earlier).push(comment));
                if earlier.len() == 0 {
                    assert(beads[i].comment_list() + earlier =~= beads[i].comment_list());
                }
            } else {
                assert(comments_on(rows, beads[i].id) =~= earlier);
            }
        }
    }
}

/// The edges that the rows describe for the bead with the identifier `id`, in
/// order.
pub open spec fn edges_from(rows: Seq<DependencyRow>, id: Seq<char>) -> Seq<DependencyView> {
    rows.filter(|r: DependencyRow| edge_of(r)->Ok_0.issue_id == id).map_values(
        |r: DependencyRow| edge_of(r)->Ok_0.dependency,
    )
}

proof fn lemma_dependency_rows_whole(beads: Seq<BeadView>, rows: Seq<DependencyRow>)
    ensures
        with_dependency_rows(beads, rows) is Ok <==> forall|i: int|
            0 <= i < rows.len() ==> edge_of(#[trigger] rows[i]) is Ok,
    decreases rows.len(),
{
    if rows.len() > 0 {
        let shorter = rows.drop_last();
        lemma_dependency_rows_whole(beads, shorter);
        assert forall|i: int| 0 <= i < shorter.len() implies #[trigger] shorter[i] == rows[i] by {}
        if forall|i: int| 0 <= i < rows.len() ==> edge_of(#[trigger] rows[i]) is Ok {
            assert forall|i: int| 0 <= i < shorter.len() implies edge_of(
                #[trigger] shorter[i],
            ) is Ok by {
                assert(edge_of(rows[i]) is Ok);
            }
            assert(edge_of(rows[rows.len() - 1]) is Ok);
        }
        if with_dependency_rows(beads, rows) is Ok {
            assert forall|i: int| 0 <= i < rows.len() implies edge_of(#[trigger] rows[i]) is Ok by {
                if i < shorter.len() {
                    assert(edge_of(shorter[i]) is Ok);
                }
            }
        }
    }
}

/// Each edge lands on the bead that it starts from, after the edges that the
/// bead had and in the order of the rows. Nothing else of any bead changes.
pub proof fn edges_land_on_their_beads(
    beads: Seq<BeadView>,
    rows: Seq<DependencyRow>,
    after: Seq<BeadView>,
)
    requires
        with_dependency_rows(beads, rows) == Ok::<Seq<BeadView>, BeadsErrorView>(
            after,
        ),
    ensures
        after.len() == beads.len(),
        forall|i: int|
            0 <= i < beads.len() ==> #[trigger] after[i] == if Duplicates::Last.holds(beads, i)
                && edges_from(rows, beads[i].id).len() > 0 {
                BeadView {
                    dependencies: Some(
                        beads[i].dependency_list() + edges_from(rows, beads[i].id),
                    ),
                    ..beads[i]
                }
            } else {
                beads[i]
            },
    decreases rows.len(),
{
    reveal(Seq::filter);
    if rows.len() > 0 {
        let shorter = rows.drop_last();
        let row = rows.last();
        let before = with_dependency_rows(beads, shorter)->Ok_0;
        let edge = edge_of(row)->Ok_0;
        edges_land_on_their_beads(beads, shorter, before);
        assert(same_ids(beads, before));
        assert(after == attach_edge(before, edge));
        assert forall|i: int| 0 <= i < beads.len() implies #[trigger] after[i]
            == if Duplicates::Last.holds(beads, i) && edges_from(rows, beads[i].id).len() > 0 {
            BeadView {
                dependencies: Some(beads[i].dependency_list() + edges_from(rows, beads[i].id)),
                ..beads[i]
            }
        } else {
            beads[i]
        } by {
            lemma_same_owner(beads, before, i, edge.issue_id);
            let earlier = edges_from(shorter, beads[i].id);
            if edge.issue_id == beads[i].id {
                assert(edges_from(rows, beads[i].id) =~= earlier.push(edge.dependency));
                assert(beads[i].dependency_list() + earlier.push(edge.dependency) =~= (
                beads[i].dependency_list() + earlier).push(edge.dependency));
                if earlier.len() == 0 {
                    assert(beads[i].dependency_list() + earlier =~= beads[i].dependency_list());
                }
            } else {
                assert(edges_from(rows, beads[i].id) =~= earlier);
            }
        }
    }
}

/// Whether every row of the three replies describes something.
pub open spec fn whole(
    issues: Seq<IssueRow>,
    comments: Seq<CommentRow>,
    dependencies: Seq<DependencyRow>,
) -> bool {
    &&& forall|i: int| 0 <= i < issues.len() ==> bead_of(#[trigger] issues[i]) is Ok
    &&& forall|i: int| 0 <= i < comments.len() ==> comment_of(#[trigger] comments[i]) is Ok
    &&& forall|i: int| 0 <= i < dependencies.len() ==> edge_of(#[trigger] dependencies[i]) is Ok
}

/// A reading gives beads exactly when the three queries succeed and every row
/// of their replies describes something.
pub proof fn whole_rows_are_read(reading: DoltReading)
    ensures
        held(reading) is Ok <==> {
            &&& reading is Replies
            &&& reading->issues is Ok && reading->comments is Ok && reading->dependencies is Ok
            &&& whole(
                reading->issues->Ok_0@,
                reading->comments->Ok_0@,
                reading->dependencies->Ok_0@,
            )
        },
{
    match reading {
        DoltReading::Replies { issues, comments, dependencies } => {
            if issues is Ok {
                lemma_beads_of(issues->Ok_0@);
                let beads = beads_of(issues->Ok_0@)->Ok_0;
                if comments is Ok {
                    lemma_comment_rows_whole(beads, comments->Ok_0@);
                    let commented = with_comment_rows(beads, comments->Ok_0@)->Ok_0;
                    if dependencies is Ok {
                        lemma_dependency_rows_whole(commented, dependencies->Ok_0@);
                    }
                }
            }
        },
        _ => {},
    }
}

/// A reading that succeeds gives one bead for each row of the `issues` table,
/// in order, with the columns of that row and with all the comments and edges
/// that the other tables hold for it. Where several rows share an identifier,
/// the last of them has those comments and edges.
pub proof fn beads_show_their_rows(
    issues: Vec<IssueRow>,
    comments: Vec<CommentRow>,
    dependencies: Vec<DependencyRow>,
    beads: Seq<BeadView>,
)
    requires
        held(
            DoltReading::Replies {
                issues: Ok(issues),
                comments: Ok(comments),
                dependencies: Ok(dependencies),
            },
        ) == Ok::<Seq<BeadView>, BeadsErrorView>(beads),
    ensures
        beads.len() == issues@.len(),
        forall|i: int|
            #![trigger beads[i]]
            0 <= i < beads.len() ==> {
                let bead = bead_of(issues@[i])->Ok_0;
                let own_comments = comments_on(comments@, bead.id);
                let own_edges = edges_from(dependencies@, bead.id);
                &&& bead_of(issues@[i]) is Ok
                &&& beads[i] == BeadView {
                    comments: if Duplicates::Last.holds(beads, i) && own_comments.len() > 0 {
                        Some(own_comments)
                    } else {
                        None
                    },
                    dependencies: if Duplicates::Last.holds(beads, i) && own_edges.len() > 0 {
                        Some(own_edges)
                    } else {
                        None
                    },
                    ..bead
                }
            },
{
    lemma_beads_of(issues@);
    let bare = beads_of(issues@)->Ok_0;
    assert(issues_reply(Ok(issues)) == beads_of(issues@));
    assert(comments_reply(bare, Ok(comments)) == with_comment_rows(bare, comments@));
    let commented = with_comment_rows(bare, comments@)->Ok_0;
    assert(dependencies_reply(commented, Ok(dependencies)) == with_dependency_rows(
        commented,
        dependencies@,
    ));
    comments_land_on_their_beads(bare, comments@, commented);
    edges_land_on_their_beads(commented, dependencies@, beads);
    assert(same_ids(bare, commented));
    assert(same_ids(commented, beads));
    assert(same_ids(bare, beads));
    assert forall|i: int|
        #![trigger beads[i]]
        0 <= i < beads.len() implies {
        let bead = bead_of(issues@[i])->Ok_0;
        let own_comments = comments_on(comments@, bead.id);
        let own_edges = edges_from(dependencies@, bead.id);
        &&& bead_of(issues@[i]) is Ok
        &&& beads[i] == BeadView {
            comments: if Duplicates::Last.holds(beads, i) && own_comments.len() > 0 {
                Some(own_comments)
            } else {
                None
            },
            dependencies: if Duplicates::Last.holds(beads, i) && own_edges.len() > 0 {
                Some(own_edges)
            } else {
                None
            },
            ..bead
        }
    } by {
        assert(bare[i] == bead_of(issues@[i])->Ok_0);
        lemma_same_owner(bare, beads, i, bare[i].id);
        lemma_same_owner(commented, beads, i, bare[i].id);
        assert(commented[i].id == bare[i].id);
        assert(beads[i].id == bare[i].id);
        assert(Seq::<CommentView>::empty() + comments_on(comments@, bare[i].id) =~= comments_on(
            comments@,
            bare[i].id,
        ));
        assert(Seq::<DependencyView>::empty() + edges_from(dependencies@, bare[i].id)
            =~= edges_from(dependencies@, bare[i].id));
    }
}

} // verus!
