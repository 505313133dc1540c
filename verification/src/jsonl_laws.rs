//! What holds of every issue file.

use vstd::prelude::*;

use crate::beads::{Bead, BeadView, CommentView};
use crate::error::BeadsErrorView;
use crate::jsonl::{
    all_comments, commented, commented_now, file_text, filled_lines, is_clock_reading,
    is_one_line, is_utc_timestamp, leaves_room, max_id, no_such_bead, split_lines, stored,
    well_formed, written_lines_read_back, IssueFile, IssueFileView, IssueLine, IssueLineView,
};
use crate::relation_laws::resolving_keeps_the_rest;
use crate::relations::{resolved, Duplicates};
use crate::selection::{filter_selects, selects};
use crate::text::trim;

verus! {

// ---------------------------------------------------------------------------
// Lines
// ---------------------------------------------------------------------------

/// What the lines hold, without their numbers.
pub open spec fn texts(lines: Seq<IssueLineView>) -> Seq<Seq<char>> {
    lines.map_values(|l: IssueLineView| l.text)
}

/// A line of white space does not matter: without it the other lines hold the
/// same.
pub proof fn blank_lines_do_not_matter(
    before: Seq<Seq<char>>,
    blank: Seq<char>,
    after: Seq<Seq<char>>,
)
    requires
        trim(blank).len() == 0,
    ensures
        texts(filled_lines(before.push(blank) + after)) == texts(filled_lines(before + after)),
    decreases after.len(),
{
    let with = before.push(blank) + after;
    let without = before + after;
    if after.len() == 0 {
        assert(with =~= before.push(blank));
        assert(without =~= before);
        assert(with.drop_last() =~= before);
    } else {
        blank_lines_do_not_matter(before, blank, after.drop_last());
        assert(with.drop_last() =~= before.push(blank) + after.drop_last());
        assert(without.drop_last() =~= before + after.drop_last());
        let text = trim(after.last());
        if text.len() > 0 {
            let a = filled_lines(with.drop_last());
            let b = filled_lines(without.drop_last());
            let last_a = IssueLineView { number: with.len(), text };
            let last_b = IssueLineView { number: without.len(), text };
            assert(texts(a.push(last_a)) =~= texts(a).push(text));
            assert(texts(b.push(last_b)) =~= texts(b).push(text));
        }
    }
}

/// A malformed line does not matter: without it the same beads are stored.
pub proof fn malformed_lines_do_not_matter(
    before: Seq<Option<BeadView>>,
    after: Seq<Option<BeadView>>,
)
    ensures
        well_formed(before.push(None) + after) == well_formed(before + after),
    decreases after.len(),
{
    reveal(Seq::filter);
    let with = before.push(None) + after;
    let without = before + after;
    if after.len() == 0 {
        assert(with =~= before.push(None));
        assert(without =~= before);
        assert(with.drop_last() =~= before);
    } else {
        malformed_lines_do_not_matter(before, after.drop_last());
        assert(with.drop_last() =~= before.push(None) + after.drop_last());
        assert(without.drop_last() =~= before + after.drop_last());
        lemma_well_formed_last(with);
        lemma_well_formed_last(without);
    }
}

proof fn lemma_well_formed_last(lines: Seq<Option<BeadView>>)
    requires
        lines.len() > 0,
    ensures
        well_formed(lines) == match lines.last() {
            Some(bead) => well_formed(lines.drop_last()).push(bead),
            None => well_formed(lines.drop_last()),
        },
{
    reveal(Seq::filter);
    assert(well_formed(lines) =~= match lines.last() {
        Some(bead) => well_formed(lines.drop_last()).push(bead),
        None => well_formed(lines.drop_last()),
    });
}

/// Where every line is well-formed, every bead is stored.
pub proof fn well_formed_lines_are_all_stored(beads: Seq<BeadView>)
    ensures
        well_formed(beads.map_values(|b: BeadView| Some(b))) == beads,
    decreases beads.len(),
{
    reveal(Seq::filter);
    let lines = beads.map_values(|b: BeadView| Some(b));
    if beads.len() > 0 {
        well_formed_lines_are_all_stored(beads.drop_last());
        assert(lines.drop_last() =~= beads.drop_last().map_values(|b: BeadView| Some(b)));
        lemma_well_formed_last(lines);
        assert(beads.drop_last().push(beads.last()) =~= beads);
    } else {
        assert(well_formed(lines) =~= beads);
    }
}

// ---------------------------------------------------------------------------
// Writing and reading
// ---------------------------------------------------------------------------

/// Whether each of the beads can be told with `decode` from the text that
/// `encode` turns it into, and that text fits on one line.
pub open spec fn encodable(
    beads: Seq<BeadView>,
    encode: spec_fn(BeadView) -> Seq<char>,
    decode: spec_fn(Seq<char>) -> Option<BeadView>,
) -> bool {
    forall|i: int|
        0 <= i < beads.len() ==> is_one_line(encode(#[trigger] beads[i])) && decode(
            encode(beads[i]),
        ) == Some(beads[i])
}

/// The beads that the issue file `contents` stores.
pub open spec fn decoded(
    contents: Seq<char>,
    decode: spec_fn(Seq<char>) -> Option<BeadView>,
) -> Seq<BeadView> {
    well_formed(
        filled_lines(split_lines(contents)).map_values(|l: IssueLineView| decode(l.text)),
    )
}

/// Beads that are written to an issue file, each encoded on a line of its own,
/// are read back as they were, in the same order.
pub proof fn written_beads_read_back(
    beads: Seq<BeadView>,
    encode: spec_fn(BeadView) -> Seq<char>,
    decode: spec_fn(Seq<char>) -> Option<BeadView>,
)
    requires
        encodable(beads, encode, decode),
    ensures
        decoded(file_text(beads.map_values(encode)), decode) == beads,
{
    let encoded = beads.map_values(encode);
    assert forall|i: int| 0 <= i < encoded.len() implies is_one_line(#[trigger] encoded[i]) by {
        assert(encoded[i] == encode(beads[i]));
    }
    written_lines_read_back(encoded);
    let lines = filled_lines(split_lines(file_text(encoded)));
    let values = lines.map_values(|l: IssueLineView| decode(l.text));
    assert(values =~= beads.map_values(|b: BeadView| Some(b))) by {
        assert forall|i: int| 0 <= i < beads.len() implies values[i] == Some(beads[i]) by {
            assert(lines[i].text == encode(beads[i]));
        }
    }
    well_formed_lines_are_all_stored(beads);
}

// ---------------------------------------------------------------------------
// Comments
// ---------------------------------------------------------------------------

proof fn lemma_max_id(comments: Seq<CommentView>)
    ensures
        max_id(comments) >= 0,
        forall|i: int| 0 <= i < comments.len() ==> (#[trigger] comments[i]).id <= max_id(comments),
        max_id(comments) == 0 || exists|i: int|
            0 <= i < comments.len() && (#[trigger] comments[i]).id == max_id(comments),
    decreases comments.len(),
{
    if comments.len() > 0 {
        let shorter = comments.drop_last();
        lemma_max_id(shorter);
        assert forall|i: int| 0 <= i < comments.len() implies (#[trigger] comments[i]).id <= max_id(
            comments,
        ) by {
            if i < shorter.len() {
                assert(shorter[i].id <= max_id(shorter));
            }
        }
        if comments.last().id > max_id(shorter) {
            assert(comments[comments.len() - 1].id == max_id(comments));
        } else if max_id(shorter) != 0 {
            let i = choose|i: int|
                0 <= i < shorter.len() && (#[trigger] shorter[i]).id == max_id(shorter);
            assert(comments[i].id == max_id(comments));
        }
    }
}

proof fn lemma_all_comments(beads: Seq<BeadView>, i: int, k: int)
    requires
        0 <= i < beads.len(),
        0 <= k < beads[i].comment_list().len(),
    ensures
        all_comments(beads).contains(beads[i].comment_list()[k]),
    decreases beads.len(),
{
    let shorter = beads.drop_last();
    let comment = beads[i].comment_list()[k];
    if i < shorter.len() {
        lemma_all_comments(shorter, i, k);
        let at = choose|at: int|
            0 <= at < all_comments(shorter).len() && all_comments(shorter)[at] == comment;
        assert(all_comments(beads)[at] == comment);
    } else {
        assert(all_comments(beads)[all_comments(shorter).len() + k] == comment);
    }
}

/// The identifier of a new comment is above that of every comment on any of
/// the beads, so it is like none of them.
pub proof fn new_comments_have_new_identifiers(
    before: Seq<BeadView>,
    after: Seq<BeadView>,
    place: int,
    id: Seq<char>,
    text: Seq<char>,
    author: Seq<char>,
    created_at: Seq<char>,
)
    requires
        commented(before, after, place, id, text, author, created_at),
    ensures
        forall|i: int, k: int|
            0 <= i < before.len() && 0 <= k < before[i].comment_list().len() ==> (
            #[trigger] before[i].comment_list()[k]).id < after[place].comment_list().last().id,
        after[place].comment_list().last().id >= 1,
{
    lemma_max_id(all_comments(before));
    assert forall|i: int, k: int|
        0 <= i < before.len() && 0 <= k < before[i].comment_list().len() implies (
    #[trigger] before[i].comment_list()[k]).id < after[place].comment_list().last().id by {
        lemma_all_comments(before, i, k);
        let at = choose|at: int|
            0 <= at < all_comments(before).len() && all_comments(before)[at]
                == before[i].comment_list()[k];
        assert(all_comments(before)[at].id <= max_id(all_comments(before)));
    }
}

/// A new comment changes nothing but the comments of the bead that it is on,
/// and comes after those that the bead had.
pub proof fn comments_leave_the_rest_alone(
    before: Seq<BeadView>,
    after: Seq<BeadView>,
    place: int,
    id: Seq<char>,
    text: Seq<char>,
    author: Seq<char>,
    created_at: Seq<char>,
)
    requires
        commented(before, after, place, id, text, author, created_at),
    ensures
        after.len() == before.len(),
        forall|i: int| 0 <= i < before.len() && i != place ==> #[trigger] after[i] == before[i],
        after[place] == (BeadView { comments: after[place].comments, ..before[place] }),
        after[place].comment_list().drop_last() == before[place].comment_list(),
        after[place].comment_list().last().text == text,
        after[place].comment_list().last().author == author,
        after[place].comment_list().last().issue_id == id,
{
    let comment = after[place].comment_list().last();
    assert(before[place].comment_list().push(comment).drop_last()
        =~= before[place].comment_list());
}

/// A comment is persistent: once the beads with it are written to the issue
/// file, reading that file shows it as the last comment of the bead.
pub proof fn comments_are_read_back(
    before: Seq<BeadView>,
    after: Seq<BeadView>,
    place: int,
    id: Seq<char>,
    text: Seq<char>,
    author: Seq<char>,
    created_at: Seq<char>,
    encode: spec_fn(BeadView) -> Seq<char>,
    decode: spec_fn(Seq<char>) -> Option<BeadView>,
)
    requires
        commented(before, after, place, id, text, author, created_at),
        encodable(after, encode, decode),
    ensures
        ({
            let read = resolved(
                decoded(file_text(after.map_values(encode)), decode),
                Duplicates::First,
            );
            &&& read.len() == before.len()
            &&& read[place].id == id
            &&& read[place].comment_list() == before[place].comment_list().push(
                CommentView {
                    id: max_id(all_comments(before)) + 1,
                    issue_id: id,
                    author,
                    text,
                    created_at,
                },
            )
        }),
{
    written_beads_read_back(after, encode, decode);
    resolving_keeps_the_rest(after, Duplicates::First);
}

// ---------------------------------------------------------------------------
// What lines, files and comments are
// ---------------------------------------------------------------------------

/// The pieces, with a line feed between each two.
pub open spec fn joined(pieces: Seq<Seq<char>>) -> Seq<char>
    decreases pieces.len(),
{
    if pieces.len() == 0 {
        Seq::empty()
    } else if pieces.len() == 1 {
        pieces[0]
    } else {
        joined(pieces.drop_last()).push('\n') + pieces.last()
    }
}

/// Splitting at line feeds loses nothing: no piece holds a line feed, and the
/// pieces with a line feed between each two are the text.
pub proof fn lines_are_split_at_line_feeds(s: Seq<char>)
    ensures
        split_lines(s).len() > 0,
        forall|i: int| 0 <= i < split_lines(s).len() ==> !(#[trigger] split_lines(s)[i]).contains(
            '\n',
        ),
        joined(split_lines(s)) == s,
    decreases s.len(),
{
    if s.len() == 0 {
        assert(split_lines(s) =~= seq![Seq::<char>::empty()]);
        assert(joined(split_lines(s)) =~= s);
    } else {
        let head = s.drop_last();
        let rest = split_lines(head);
        lines_are_split_at_line_feeds(head);
        let pieces = split_lines(s);
        if s.last() == '\n' {
            assert(pieces.drop_last() =~= rest);
            assert(joined(pieces) =~= s);
            assert forall|i: int| 0 <= i < pieces.len() implies !(#[trigger] pieces[i]).contains(
                '\n',
            ) by {
                if i < rest.len() {
                    assert(pieces[i] == rest[i]);
                }
            }
        } else {
            let grown = rest.last().push(s.last());
            assert(pieces =~= rest.drop_last().push(grown));
            assert(pieces.drop_last() =~= rest.drop_last());
            if rest.len() == 1 {
                assert(joined(pieces) =~= s);
            } else {
                assert(joined(pieces) =~= joined(rest).push(s.last()));
                assert(joined(pieces) =~= s);
            }
            assert forall|i: int| 0 <= i < pieces.len() implies !(#[trigger] pieces[i]).contains(
                '\n',
            ) by {
                if i < rest.len() - 1 {
                    assert(pieces[i] == rest[i]);
                } else {
                    assert(!rest[rest.len() - 1].contains('\n'));
                    if grown.contains('\n') {
                        let k = choose|k: int| 0 <= k < grown.len() && grown[k] == '\n';
                        if k < rest.last().len() {
                            assert(rest.last()[k] == '\n');
                        }
                    }
                }
            }
        }
    }
}

/// Every line with more than white space is kept, trimmed and with its number,
/// in order; the others are left out.
pub proof fn filled_lines_are_kept(lines: Seq<Seq<char>>) -> (places: Seq<int>)
    ensures
        selects(lines, |l: Seq<char>| trim(l).len() > 0, places),
        filled_lines(lines) == Seq::new(
            places.len(),
            |n: int| IssueLineView { number: (places[n] + 1) as nat, text: trim(lines[places[n]]) },
        ),
    decreases lines.len(),
{
    let wanted = |l: Seq<char>| trim(l).len() > 0;
    if lines.len() == 0 {
        let places = Seq::<int>::empty();
        assert(filled_lines(lines) =~= Seq::new(
            places.len(),
            |n: int| IssueLineView { number: (places[n] + 1) as nat, text: trim(lines[places[n]]) },
        ));
        places
    } else {
        let rest = lines.drop_last();
        let at = lines.len() - 1;
        let earlier = filled_lines_are_kept(rest);
        let places = if wanted(lines.last()) {
            earlier.push(at)
        } else {
            earlier
        };
        assert forall|k: int| 0 <= k < lines.len() && wanted(#[trigger] lines[k]) implies
            places.contains(k) by {
            if k < at {
                assert(wanted(rest[k]));
                let n = choose|n: int| 0 <= n < earlier.len() && earlier[n] == k;
                assert(places[n] == k);
            } else {
                assert(places[places.len() - 1] == k);
            }
        }
        assert(filled_lines(lines) =~= Seq::new(
            places.len(),
            |n: int| IssueLineView { number: (places[n] + 1) as nat, text: trim(lines[places[n]]) },
        ));
        places
    }
}

/// An issue file is its encoded beads one after the other, each in full and
/// followed by a line feed.
pub proof fn files_hold_every_bead(a: Seq<Seq<char>>, b: Seq<Seq<char>>, encoded: Seq<char>)
    ensures
        file_text(Seq::empty()) == Seq::<char>::empty(),
        file_text(seq![encoded]) == encoded.push('\n'),
        file_text(a + b) == file_text(a) + file_text(b),
    decreases b.len(),
{
    reveal_with_fuel(file_text, 3);
    assert(seq![encoded].drop_last() =~= Seq::<Seq<char>>::empty());
    assert(file_text(seq![encoded]) =~= encoded.push('\n'));
    if b.len() == 0 {
        assert(a + b =~= a);
        assert(file_text(a) + file_text(b) =~= file_text(a));
    } else {
        files_hold_every_bead(a, b.drop_last(), encoded);
        assert((a + b).drop_last() =~= a + b.drop_last());
        assert(file_text(a + b) =~= file_text(a) + file_text(b));
    }
}

/// Every well-formed line is stored, in order, and no other.
pub proof fn stored_beads_are_the_well_formed_ones(lines: Seq<Option<BeadView>>) -> (places: Seq<int>)
    ensures
        selects(lines, |l: Option<BeadView>| l is Some, places),
        well_formed(lines) == Seq::new(places.len(), |n: int| lines[places[n]]->0),
{
    let places = filter_selects(lines, |l: Option<BeadView>| l is Some);
    assert(well_formed(lines) =~= Seq::new(places.len(), |n: int| lines[places[n]]->0));
    places
}

/// A missing file is not found, an unreadable one is an I/O error with the text
/// of its cause, and any other stores what its lines hold.
pub proof fn files_are_told_apart(text: Seq<char>, lines: Seq<Option<BeadView>>)
    ensures
        stored(IssueFileView::Missing) == Err::<Seq<BeadView>, BeadsErrorView>(
            BeadsErrorView::NotFound("No .beads/issues.jsonl found at the specified path"@),
        ),
        stored(IssueFileView::Unreadable(text)) == Err::<Seq<BeadView>, BeadsErrorView>(
            BeadsErrorView::Io(text),
        ),
        stored(IssueFileView::Lines(lines)) == Ok::<Seq<BeadView>, BeadsErrorView>(
            well_formed(lines),
        ),
{
}

/// The comments stored with the bead.
pub open spec fn comments_of(bead: BeadView) -> Seq<CommentView> {
    match bead.comments {
        Some(comments) => comments,
        None => Seq::empty(),
    }
}

proof fn lemma_only_comments(beads: Seq<BeadView>, at: int) -> (place: (int, int))
    requires
        0 <= at < all_comments(beads).len(),
    ensures
        0 <= place.0 < beads.len(),
        0 <= place.1 < comments_of(beads[place.0]).len(),
        comments_of(beads[place.0])[place.1] == all_comments(beads)[at],
    decreases beads.len(),
{
    let shorter = beads.drop_last();
    let earlier = all_comments(shorter);
    if at < earlier.len() {
        let place = lemma_only_comments(shorter, at);
        assert(shorter[place.0] == beads[place.0]);
        place
    } else {
        (beads.len() - 1, at - earlier.len())
    }
}

/// A new comment is the last on its bead, with the text, the author, the time
/// and the bead that were given. Its identifier is one above the largest of all
/// comments, or 1 where none is positive. The bead is the last with its
/// identifier, and nothing else of any bead changes.
pub proof fn new_comments_hold_what_was_given(
    before: Seq<BeadView>,
    after: Seq<BeadView>,
    place: int,
    id: Seq<char>,
    text: Seq<char>,
    author: Seq<char>,
    created_at: Seq<char>,
)
    requires
        commented(before, after, place, id, text, author, created_at),
    ensures
        0 <= place < before.len(),
        after.len() == before.len(),
        before[place].id == id,
        forall|j: int| place < j < before.len() ==> (#[trigger] before[j]).id != id,
        forall|j: int| 0 <= j < before.len() && j != place ==> #[trigger] after[j] == before[j],
        after[place] == (BeadView { comments: after[place].comments, ..before[place] }),
        after[place].comments is Some,
        comments_of(after[place]).len() == comments_of(before[place]).len() + 1,
        forall|k: int|
            0 <= k < comments_of(before[place]).len() ==> #[trigger] comments_of(after[place])[k]
                == comments_of(before[place])[k],
        ({
            let new = comments_of(after[place])[comments_of(before[place]).len() as int];
            &&& new.text == text
            &&& new.author == author
            &&& new.issue_id == id
            &&& new.created_at == created_at
            &&& new.id >= 1
            &&& forall|j: int, k: int|
                0 <= j < before.len() && 0 <= k < comments_of(before[j]).len() ==> (
                #[trigger] comments_of(before[j])[k]).id < new.id
            &&& new.id == 1 || exists|j: int, k: int|
                0 <= j < before.len() && 0 <= k < comments_of(before[j]).len() && (
                #[trigger] comments_of(before[j])[k]).id + 1 == new.id
        }),
{
    comments_leave_the_rest_alone(before, after, place, id, text, author, created_at);
    new_comments_have_new_identifiers(before, after, place, id, text, author, created_at);
    lemma_max_id(all_comments(before));
    assert forall|j: int| place < j < before.len() implies (#[trigger] before[j]).id != id by {
        assert(before[j].id != before[place].id);
    }
    let new = comments_of(after[place])[comments_of(before[place]).len() as int];
    assert forall|j: int, k: int|
        0 <= j < before.len() && 0 <= k < comments_of(before[j]).len() implies (
    #[trigger] comments_of(before[j])[k]).id < new.id by {
        assert(before[j].comment_list()[k].id < after[place].comment_list().last().id);
    }
    if new.id != 1 {
        let comments = all_comments(before);
        let at = choose|at: int|
            0 <= at < comments.len() && (#[trigger] comments[at]).id == max_id(comments);
        let at_place = lemma_only_comments(before, at);
        assert(comments_of(before[at_place.0])[at_place.1].id + 1 == new.id);
    }
}

/// A comment on a bead that is not there is refused in these words.
pub proof fn refused_comments_name_the_bead(id: Seq<char>)
    ensures
        no_such_bead(id) == BeadsErrorView::NotFound("Bead with id '"@ + id + "' not found"@),
{
}

/// There is room for a comment wherever no comment has the largest identifier
/// that there can be.
pub proof fn comments_find_room(beads: Seq<BeadView>, id: Seq<char>)
    requires
        forall|j: int, k: int|
            0 <= j < beads.len() && 0 <= k < comments_of(beads[j]).len() ==> (
            #[trigger] comments_of(beads[j])[k]).id < i64::MAX,
    ensures
        leaves_room(beads, id),
{
    let comments = all_comments(beads);
    lemma_max_id(comments);
    if max_id(comments) != 0 {
        let at = choose|at: int|
            0 <= at < comments.len() && (#[trigger] comments[at]).id == max_id(comments);
        let place = lemma_only_comments(beads, at);
        assert(comments_of(beads[place.0])[place.1].id < i64::MAX);
    }
}

/// A comment that is added now is stamped with what the clock returned, a UTC
/// time.
pub proof fn comments_are_stamped_by_the_clock(
    before: Seq<BeadView>,
    after: Seq<BeadView>,
    place: int,
    id: Seq<char>,
    text: Seq<char>,
    author: Seq<char>,
)
    requires
        commented_now(before, after, place, id, text, author),
    ensures
        comments_of(after[place]).len() == comments_of(before[place]).len() + 1,
        is_clock_reading(comments_of(after[place]).last().created_at),
        is_utc_timestamp(comments_of(after[place]).last().created_at),
{
    let created_at = choose|created_at: Seq<char>|
        is_clock_reading(created_at) && is_utc_timestamp(created_at) && #[trigger] commented(
            before,
            after,
            place,
            id,
            text,
            author,
            created_at,
        );
    new_comments_hold_what_was_given(before, after, place, id, text, author, created_at);
}

/// A line shows its number and its text, and a file what was found.
pub proof fn files_show_everything(
    line: IssueLine,
    text: String,
    lines: Vec<Option<Bead>>,
)
    ensures
        line.deep_view().number == line.number,
        line.deep_view().text == line.text@,
        IssueFile::Missing.deep_view() == IssueFileView::Missing,
        IssueFile::Unreadable(text).deep_view() == IssueFileView::Unreadable(text@),
        IssueFile::Lines(lines).deep_view() == IssueFileView::Lines(lines.deep_view()),
{
}

} // verus!
