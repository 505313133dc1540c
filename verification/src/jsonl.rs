//! The backend that keeps beads as JSON objects, one to a line.

use vstd::prelude::*;

use crate::beads::{Bead, BeadView, Comment, CommentView};
use crate::error::{outcome, BeadsError, BeadsErrorView};
use crate::relations::{has_id, resolve_relationships, resolved, Duplicates};
use crate::text::{chars_of, is_white_space_char, trim, trim_end, trim_start, trimmed};

verus! {

// ---------------------------------------------------------------------------
// Lines
// ---------------------------------------------------------------------------

/// A line of an issue file that holds more than white space.
#[derive(Debug, Clone, PartialEq, Eq)]
pub struct IssueLine {
    /// The place of the line in the file, counted from 1.
    pub number: usize,
    /// The line without leading and trailing white space.
    pub text: String,
}

/// An [`IssueLine`] as a value.
pub struct IssueLineView {
    pub number: nat,
    pub text: Seq<char>,
}

impl DeepView for IssueLine {
    type V = IssueLineView;

    open spec fn deep_view(&self) -> IssueLineView {
        IssueLineView { number: self.number as nat, text: self.text@ }
    }
}

/// The pieces of `s` between its line feeds.
pub open spec fn split_lines(s: Seq<char>) -> Seq<Seq<char>>
    decreases s.len(),
{
    if s.len() == 0 {
        seq![Seq::empty()]
    } else {
        let rest = split_lines(s.drop_last());
        if s.last() == '\n' {
            rest.push(Seq::empty())
        } else {
            rest.drop_last().push(rest.last().push(s.last()))
        }
    }
}

/// The lines that hold more than white space, trimmed and numbered from 1.
pub open spec fn filled_lines(lines: Seq<Seq<char>>) -> Seq<IssueLineView>
    decreases lines.len(),
{
    if lines.len() == 0 {
        Seq::empty()
    } else {
        let rest = filled_lines(lines.drop_last());
        let text = trim(lines.last());
        if text.len() == 0 {
            rest
        } else {
            rest.push(IssueLineView { number: lines.len(), text })
        }
    }
}

proof fn lemma_split_nonempty(s: Seq<char>)
    ensures
        split_lines(s).len() > 0,
    decreases s.len(),
{
    if s.len() > 0 {
        lemma_split_nonempty(s.drop_last());
    }
}

proof fn lemma_trim_empty(s: Seq<char>)
    requires
        s.len() == 0,
    ensures
        trim(s).len() == 0,
{
}

/// The lines of an issue file that hold more than white space.
pub fn issue_lines(contents: &str) -> (lines: Vec<IssueLine>)
    ensures
        lines.deep_view() == filled_lines(split_lines(contents@)),
{
    let chars = chars_of(contents);
    let mut lines: Vec<IssueLine> = Vec::new();
    let ghost mut done: Seq<Seq<char>> = Seq::empty();
    let mut newlines: usize = 0;
    let mut start: usize = 0;
    let mut i: usize = 0;
    assert(chars@.take(0) == Seq::<char>::empty());
    assert(split_lines(chars@.take(0)) == seq![Seq::<char>::empty()]);
    assert(done.push(chars@.subrange(0, 0)) == seq![Seq::<char>::empty()]);
    while i < chars.len()
        invariant
            newlines <= start <= i <= chars@.len(),
            done.len() == newlines,
            split_lines(chars@.take(i as int)) == done.push(
                chars@.subrange(start as int, i as int),
            ),
            lines.deep_view() == filled_lines(done),
        decreases chars@.len() - i,
    {
        let ghost line = chars@.subrange(start as int, i as int);
        assert(chars@.take(i + 1).drop_last() == chars@.take(i as int));
        assert(done.push(line).drop_last() == done);
        if chars[i] == '\n' {
            let text = trimmed(&chars, start, i);
            let ghost before = lines.deep_view();
            if !text.as_str().is_empty() {
                proof {
                    if start == i {
                        lemma_trim_empty(line);
                    }
                }
                lines.push(IssueLine { number: newlines + 1, text });
                assert(lines.deep_view() == before.push(
                    IssueLineView { number: (newlines + 1) as nat, text: text@ },
                ));
            }
            proof {
                done = done.push(line);
                assert(chars@.subrange(i + 1, i + 1) == Seq::<char>::empty());
            }
            newlines = newlines + 1;
            start = i + 1;
        } else {
            assert(line.push(chars@[i as int]) == chars@.subrange(start as int, i + 1));
        }
        i = i + 1;
    }
    let ghost line = chars@.subrange(start as int, i as int);
    assert(chars@.take(i as int) == chars@);
    assert(done.push(line).drop_last() == done);
    let text = trimmed(&chars, start, i);
    if !text.as_str().is_empty() {
        proof {
            if start == i {
                lemma_trim_empty(line);
            }
        }
        let ghost before = lines.deep_view();
        lines.push(IssueLine { number: newlines + 1, text });
        assert(lines.deep_view() == before.push(
            IssueLineView { number: (newlines + 1) as nat, text: text@ },
        ));
    }
    lines
}

/// The issue file with the given encoded beads.
pub open spec fn file_text(encoded: Seq<Seq<char>>) -> Seq<char>
    decreases encoded.len(),
{
    if encoded.len() == 0 {
        Seq::empty()
    } else {
        file_text(encoded.drop_last()) + encoded.last().push('\n')
    }
}

/// The issue file with the given encoded beads, each on a line of its own.
pub fn issue_file(encoded: &Vec<String>) -> (text: String)
    ensures
        text@ == file_text(encoded.deep_view()),
{
    let ghost all = encoded.deep_view();
    let mut text = String::new();
    assert(text@ =~= Seq::<char>::empty());
    let mut i: usize = 0;
    while i < encoded.len()
        invariant
            i <= encoded@.len(),
            all == encoded.deep_view(),
            text@ == file_text(all.take(i as int)),
        decreases encoded@.len() - i,
    {
        assert(all.take(i + 1).drop_last() == all.take(i as int));
        assert(all.take(i + 1).last() == encoded@[i as int]@);
        let ghost before = text@;
        text.append(encoded[i].as_str());
        text.push('\n');
        assert(text@ =~= before + encoded@[i as int]@.push('\n'));
        i = i + 1;
    }
    assert(all.take(all.len() as int) == all);
    text
}

/// Whether `encoded` can stand on a line of its own: it has no line feed,
/// neither begins nor ends with white space, and is not empty.
pub open spec fn is_one_line(encoded: Seq<char>) -> bool {
    &&& encoded.len() > 0
    &&& !encoded.contains('\n')
    &&& !is_white_space_char(encoded.first())
    &&& !is_white_space_char(encoded.last())
}

proof fn lemma_split_append(s: Seq<char>, line: Seq<char>)
    requires
        !line.contains('\n'),
    ensures
        split_lines(s + line) == split_lines(s).drop_last().push(split_lines(s).last() + line),
    decreases line.len(),
{
    lemma_split_nonempty(s);
    let before = split_lines(s);
    if line.len() == 0 {
        assert(s + line == s);
        assert(before.last() + line == before.last());
        assert(before.drop_last().push(before.last()) == before);
    } else {
        assert forall|c: char| line.drop_last().contains(c) implies line.contains(c) by {
            let k = choose|k: int| 0 <= k < line.len() - 1 && line.drop_last()[k] == c;
            assert(line[k] == c);
        }
        lemma_split_append(s, line.drop_last());
        assert((s + line).drop_last() == s + line.drop_last());
        assert((s + line).last() == line.last());
        assert(line.contains(line[line.len() - 1]));
        assert((before.last() + line.drop_last()).push(line.last()) == before.last() + line);
        let rest = split_lines(s + line.drop_last());
        assert(rest.drop_last() == before.drop_last());
    }
}

proof fn lemma_split_file_text(encoded: Seq<Seq<char>>)
    requires
        forall|i: int| 0 <= i < encoded.len() ==> is_one_line(#[trigger] encoded[i]),
    ensures
        split_lines(file_text(encoded)) == encoded.push(Seq::empty()),
    decreases encoded.len(),
{
    if encoded.len() == 0 {
        assert(split_lines(file_text(encoded)) =~= encoded.push(Seq::empty()));
    } else {
        let shorter = encoded.drop_last();
        let head = file_text(shorter);
        let line = encoded.last();
        assert forall|i: int| 0 <= i < shorter.len() implies is_one_line(#[trigger] shorter[i]) by {
            assert(shorter[i] == encoded[i]);
        }
        lemma_split_file_text(shorter);
        assert(is_one_line(encoded[encoded.len() - 1]));
        lemma_split_append(head, line);
        assert(split_lines(head + line) == shorter.push(line)) by {
            assert(shorter.push(Seq::empty()).drop_last() == shorter);
            assert(Seq::<char>::empty() + line == line);
        }
        let all = file_text(encoded);
        assert(all == head + line.push('\n'));
        assert(all.drop_last() == head + line);
        assert(all.last() == '\n');
        assert(shorter.push(line) == encoded);
    }
}

proof fn lemma_filled_one_lines(encoded: Seq<Seq<char>>)
    requires
        forall|i: int| 0 <= i < encoded.len() ==> is_one_line(#[trigger] encoded[i]),
    ensures
        filled_lines(encoded) == Seq::new(
            encoded.len(),
            |i: int| IssueLineView { number: (i + 1) as nat, text: encoded[i] },
        ),
    decreases encoded.len(),
{
    if encoded.len() > 0 {
        let shorter = encoded.drop_last();
        assert forall|i: int| 0 <= i < shorter.len() implies is_one_line(#[trigger] shorter[i]) by {
            assert(shorter[i] == encoded[i]);
        }
        lemma_filled_one_lines(shorter);
        let line = encoded[encoded.len() - 1];
        assert(is_one_line(line));
        assert(trim_start(line) == line);
        assert(trim_end(line) == line);
    }
    assert(filled_lines(encoded) =~= Seq::new(
        encoded.len(),
        |i: int| IssueLineView { number: (i + 1) as nat, text: encoded[i] },
    ));
}

/// Reading an issue file gives back what was written to it: the lines of a
/// file made of encoded beads are those encoded beads, in order.
pub proof fn written_lines_read_back(encoded: Seq<Seq<char>>)
    requires
        forall|i: int| 0 <= i < encoded.len() ==> is_one_line(#[trigger] encoded[i]),
    ensures
        filled_lines(split_lines(file_text(encoded))) == Seq::new(
            encoded.len(),
            |i: int| IssueLineView { number: (i + 1) as nat, text: encoded[i] },
        ),
{
    lemma_split_file_text(encoded);
    lemma_filled_one_lines(encoded);
    assert(encoded.push(Seq::empty()).drop_last() == encoded);
    lemma_trim_empty(Seq::empty());
}

// ---------------------------------------------------------------------------
// Reading
// ---------------------------------------------------------------------------

/// What was found where a project keeps its issue file.
#[derive(Debug, Clone, PartialEq, Eq)]
pub enum IssueFile {
    /// There is no such file.
    Missing,
    /// The file could not be read; the text is that of the underlying error.
    Unreadable(String),
    /// The bead that each line of [`issue_lines`] encodes; none where the line
    /// is malformed.
    Lines(Vec<Option<Bead>>),
}

/// An [`IssueFile`] as a value.
pub enum IssueFileView {
    Missing,
    Unreadable(Seq<char>),
    Lines(Seq<Option<BeadView>>),
}

impl DeepView for IssueFile {
    type V = IssueFileView;

    open spec fn deep_view(&self) -> IssueFileView {
        match self {
            IssueFile::Missing => IssueFileView::Missing,
            IssueFile::Unreadable(text) => IssueFileView::Unreadable(text@),
            IssueFile::Lines(lines) => IssueFileView::Lines(lines.deep_view()),
        }
    }
}

/// The beads of the well-formed lines, in order.
pub open spec fn well_formed(lines: Seq<Option<BeadView>>) -> Seq<BeadView> {
    lines.filter(|l: Option<BeadView>| l is Some).map_values(|l: Option<BeadView>| l->0)
}

/// The beads stored in an issue file.
pub open spec fn stored(file: IssueFileView) -> Result<Seq<BeadView>, BeadsErrorView> {
    match file {
        IssueFileView::Missing => Err(
            BeadsErrorView::NotFound("No .beads/issues.jsonl found at the specified path"@),
        ),
        IssueFileView::Unreadable(text) => Err(BeadsErrorView::Io(text)),
        IssueFileView::Lines(lines) => Ok(well_formed(lines)),
    }
}

/// The beads stored in an issue file; malformed lines are left out.
pub fn stored_beads(file: IssueFile) -> (result: Result<Vec<Bead>, BeadsError>)
    ensures
        outcome(result) == stored(file.deep_view()),
{
    match file {
        IssueFile::Missing => Err(
            BeadsError::NotFound(
                "No .beads/issues.jsonl found at the specified path".to_owned(),
            ),
        ),
        IssueFile::Unreadable(text) => Err(BeadsError::Io(text)),
        IssueFile::Lines(lines) => {
            let ghost all = lines.deep_view();
            let ghost pred = |l: Option<BeadView>| l is Some;
            let ghost value = |l: Option<BeadView>| l->0;
            let mut beads: Vec<Bead> = Vec::new();
            proof {
                reveal(Seq::filter);
            }
            for line in it: lines
                invariant
                    it.seq() == lines@,
                    all == lines.deep_view(),
                    pred == (|l: Option<BeadView>| l is Some),
                    value == (|l: Option<BeadView>| l->0),
                    beads.deep_view() == all.take(it.index() as int).filter(pred).map_values(value),
            {
                let ghost before = beads.deep_view();
                let ghost k = it.index() as int;
                proof {
                    reveal(Seq::filter);
                    assert(all.take(k + 1).drop_last() == all.take(k));
                    assert(all.take(k + 1).last() == line.deep_view());
                }
                match line {
                    Some(bead) => {
                        beads.push(bead);
                        assert(beads.deep_view() == before.push(bead.deep_view()));
                    },
                    None => {},
                }
            }
            assert(all.take(all.len() as int) == all);
            Ok(beads)
        },
    }
}

/// Backend that reads and writes beads as JSON objects, one to a line of
/// `.beads/issues.jsonl`.
#[derive(Debug, Clone, Copy, PartialEq, Eq)]
pub struct JsonlBackend;

impl JsonlBackend {
    /// All beads of an issue file, with their relationships filled in.
    ///
    /// Malformed lines are left out. Where several beads share an identifier,
    /// an inferred parent is written to the first of them.
    pub fn read_beads(&self, file: IssueFile) -> (result: Result<Vec<Bead>, BeadsError>)
        ensures
            outcome(result) == match stored(file.deep_view()) {
                Ok(beads) => Ok(resolved(beads, Duplicates::First)),
                Err(error) => Err(error),
            },
    {
        match stored_beads(file) {
            Ok(mut beads) => {
                resolve_relationships(&mut beads, Duplicates::First);
                Ok(beads)
            },
            Err(error) => Err(error),
        }
    }
}

// ---------------------------------------------------------------------------
// Comments
// ---------------------------------------------------------------------------

/// The largest identifier of the comments, or 0 when there is none above it.
pub open spec fn max_id(comments: Seq<CommentView>) -> int
    decreases comments.len(),
{
    if comments.len() == 0 {
        0
    } else if comments.last().id > max_id(comments.drop_last()) {
        comments.last().id
    } else {
        max_id(comments.drop_last())
    }
}

/// Every comment of the beads, in order.
pub open spec fn all_comments(beads: Seq<BeadView>) -> Seq<CommentView>
    decreases beads.len(),
{
    if beads.len() == 0 {
        Seq::empty()
    } else {
        all_comments(beads.drop_last()) + beads.last().comment_list()
    }
}

/// The largest comment identifier among the beads, or 0 when there is none
/// above it.
pub fn max_comment_id(beads: &Vec<Bead>) -> (max: i64)
    ensures
        max == max_id(all_comments(beads.deep_view())),
{
    let ghost all = beads.deep_view();
    let mut max: i64 = 0;
    let mut i: usize = 0;
    while i < beads.len()
        invariant
            i <= beads@.len(),
            all == beads.deep_view(),
            max == max_id(all_comments(all.take(i as int))),
        decreases beads@.len() - i,
    {
        assert(all.take(i + 1).drop_last() == all.take(i as int));
        assert(all.take(i + 1).last() == all[i as int]);
        let ghost earlier = all_comments(all.take(i as int));
        let ghost own = all[i as int].comment_list();
        match &beads[i].comments {
            Some(comments) => {
                let mut k: usize = 0;
                assert(earlier + own.take(0) == earlier);
                while k < comments.len()
                    invariant
                        k <= comments@.len(),
                        own == comments.deep_view(),
                        max == max_id(earlier + own.take(k as int)),
                    decreases comments@.len() - k,
                {
                    assert((earlier + own.take(k + 1)).drop_last() == earlier + own.take(k as int));
                    assert((earlier + own.take(k + 1)).last() == comments@[k as int].deep_view());
                    if comments[k].id > max {
                        max = comments[k].id;
                    }
                    k = k + 1;
                }
                assert(own.take(k as int) == own);
            },
            None => {
                assert(earlier + own == earlier);
            },
        }
        i = i + 1;
    }
    assert(all.take(all.len() as int) == all);
    max
}

/// Whether `after` is `before` with the comment `text` by `author`, written at
/// `created_at`, on the last bead with the identifier `id`, which stands at
/// `place`. The comment gets the next free identifier.
pub open spec fn commented(
    before: Seq<BeadView>,
    after: Seq<BeadView>,
    place: int,
    id: Seq<char>,
    text: Seq<char>,
    author: Seq<char>,
    created_at: Seq<char>,
) -> bool {
    &&& 0 <= place < before.len()
    &&& before[place].id == id
    &&& Duplicates::Last.holds(before, place)
    &&& after == before.update(
        place,
        before[place].with_comment(
            CommentView {
                id: max_id(all_comments(before)) + 1,
                issue_id: id,
                author,
                text,
                created_at,
            },
        ),
    )
}

/// Whether there is an identifier left for a comment on the bead with the
/// identifier `id`.
pub open spec fn leaves_room(beads: Seq<BeadView>, id: Seq<char>) -> bool {
    has_id(beads, id) ==> max_id(all_comments(beads)) < i64::MAX
}

/// The error for a comment on a bead that is not stored.
pub open spec fn no_such_bead(id: Seq<char>) -> BeadsErrorView {
    BeadsErrorView::NotFound("Bead with id '"@ + id + "' not found"@)
}

/// Whether `text[from..to]` are decimal digits.
pub open spec fn are_digits(text: Seq<char>, from: int, to: int) -> bool {
    forall|i: int| from <= i < to ==> '0' <= #[trigger] text[i] <= '9'
}

/// The number that the digits `text[from..to]` write.
pub open spec fn number(text: Seq<char>, from: int, to: int) -> int
    decreases to - from,
{
    if to <= from {
        0
    } else {
        10 * number(text, from, to - 1) + (text[to - 1] as int - '0' as int)
    }
}

/// Whether `text[at..at + 2]` are two digits that write a number from `low` to
/// `high`.
pub open spec fn is_pair(text: Seq<char>, at: int, low: int, high: int) -> bool {
    are_digits(text, at, at + 2) && low <= number(text, at, at + 2) <= high
}

/// How many days the month has.
pub open spec fn days_in(year: int, month: int) -> int {
    if month == 2 {
        if year % 4 == 0 && (year % 100 != 0 || year % 400 == 0) {
            29
        } else {
            28
        }
    } else if month == 4 || month == 6 || month == 9 || month == 11 {
        30
    } else {
        31
    }
}

/// Whether `text[at..]` begins with `-MM-DDTHH:MM:SS`: a month, a day of that
/// month in `year`, and a time of day.
pub open spec fn has_day_and_time(text: Seq<char>, at: int, year: int) -> bool {
    &&& text[at] == '-'
    &&& is_pair(text, at + 1, 1, 12)
    &&& text[at + 3] == '-'
    &&& is_pair(text, at + 4, 1, days_in(year, number(text, at + 1, at + 3)))
    &&& text[at + 6] == 'T'
    &&& is_pair(text, at + 7, 0, 23)
    &&& text[at + 9] == ':'
    &&& is_pair(text, at + 10, 0, 59)
    &&& text[at + 12] == ':'
    &&& is_pair(text, at + 13, 0, 59)
}

/// Whether `text` is empty or the fraction of a second: a full stop and the
/// digits of milliseconds, microseconds or nanoseconds.
pub open spec fn is_fraction(text: Seq<char>) -> bool {
    text.len() == 0 || {
        &&& text.len() == 4 || text.len() == 7 || text.len() == 10
        &&& text[0] == '.'
        &&& are_digits(text, 1, text.len() as int)
    }
}

/// Whether `text` begins with a year from 1970 on, in `width` characters: four
/// digits up to the year 9999, a plus sign and more digits after that.
pub open spec fn has_year(text: Seq<char>, width: int) -> bool {
    ||| width == 4 && are_digits(text, 0, 4) && number(text, 0, 4) >= 1970
    ||| width >= 6 && text[0] == '+' && are_digits(text, 1, width) && text[1] != '0'
}

/// The year that `text` begins with, in `width` characters.
pub open spec fn year_of(text: Seq<char>, width: int) -> int {
    if width == 4 {
        number(text, 0, 4)
    } else {
        number(text, 1, width)
    }
}

/// Whether `text` is a UTC date and time whose year takes `width` characters.
pub open spec fn is_utc_timestamp_with(text: Seq<char>, width: int) -> bool {
    &&& text.len() >= width + 21
    &&& has_year(text, width)
    &&& has_day_and_time(text, width, year_of(text, width))
    &&& is_fraction(text.subrange(width + 15, text.len() - 6))
    &&& text.skip(text.len() - 6) == "+00:00"@
}

/// Whether `text` is a UTC date and time from the year 1970 on:
/// `YYYY-MM-DDTHH:MM:SS` with a day of the calendar and a time of day, then a
/// fraction of a second if there is any, then the offset `+00:00`. A year above
/// 9999 has a plus sign and more digits.
pub open spec fn is_utc_timestamp(text: Seq<char>) -> bool {
    exists|width: int| #[trigger] is_utc_timestamp_with(text, width)
}

/// `chrono::Utc::now` followed by `chrono::DateTime::to_rfc3339`: the current
/// time in RFC 3339 form. That is a day of the calendar and a time of day, the
/// fraction of the second in as many digits as it takes, and, the time being
/// UTC, the offset `+00:00`. Which time it is, is left unsaid: it depends on
/// the clock, which must not stand before the year 1970.
#[verifier::external_body]
fn now_rfc3339() -> (text: String)
    ensures
        is_utc_timestamp(text@),
{
    chrono::Utc::now().to_rfc3339()
}

/// Whether `text` is what the clock returned when it was read.
pub closed spec fn is_clock_reading(text: Seq<char>) -> bool {
    exists|reading: String| #[trigger]
        call_ensures(now_rfc3339, (), reading) && reading@ == text
}

/// Nothing but what [`now_rfc3339`] returned is a reading of the clock.
proof fn clock_readings_come_from_the_clock(text: Seq<char>)
    requires
        is_clock_reading(text),
    ensures
        exists|reading: String| #[trigger]
            call_ensures(now_rfc3339, (), reading) && reading@ == text,
{
}

/// What `clock` returns when it is read.
fn reading_of<F: Fn() -> String>(clock: F) -> (reading: String)
    requires
        call_requires(clock, ()),
    ensures
        call_ensures(clock, (), reading),
{
    clock()
}

/// Whether `after` is `before` with the comment `text` by `author` on the last
/// bead with the identifier `id`, which stands at `place`, written at some UTC
/// time.
pub open spec fn commented_now(
    before: Seq<BeadView>,
    after: Seq<BeadView>,
    place: int,
    id: Seq<char>,
    text: Seq<char>,
    author: Seq<char>,
) -> bool {
    exists|created_at: Seq<char>|
        is_clock_reading(created_at) && is_utc_timestamp(created_at) && #[trigger] commented(
            before,
            after,
            place,
            id,
            text,
            author,
            created_at,
        )
}

/// Adds a comment written at `created_at` to the last bead with the identifier
/// `bead_id`, and returns its place.
///
/// The comment's identifier is one above the largest among all beads, which
/// must leave room for it.
pub fn add_comment_at(
    beads: &mut Vec<Bead>,
    bead_id: &str,
    text: &str,
    author: &str,
    created_at: String,
) -> (result: Result<usize, BeadsError>)
    requires
        leaves_room(old(beads).deep_view(), bead_id@),
    ensures
        match result {
            Ok(place) => commented(
                old(beads).deep_view(),
                final(beads).deep_view(),
                place as int,
                bead_id@,
                text@,
                author@,
                created_at@,
            ),
            Err(error) => {
                &&& !has_id(old(beads).deep_view(), bead_id@)
                &&& error.deep_view() == no_such_bead(bead_id@)
                &&& final(beads).deep_view() == old(beads).deep_view()
            },
        },
{
    let ghost before = beads.deep_view();
    let wanted: String = bead_id.to_owned();
    let mut i: usize = beads.len();
    while i > 0
        invariant
            i <= beads@.len(),
            before == beads.deep_view(),
            before == old(beads).deep_view(),
            wanted@ == bead_id@,
            leaves_room(before, bead_id@),
            forall|j: int| i <= j < before.len() ==> #[trigger] before[j].id != bead_id@,
        decreases i,
    {
        let place: usize = i - 1;
        assert(before[place as int].id == beads@[place as int].id@);
        if beads[place].id == wanted {
            assert(has_id(before, bead_id@));
            let comment = Comment {
                id: max_comment_id(beads) + 1,
                issue_id: bead_id.to_owned(),
                author: author.to_owned(),
                text: text.to_owned(),
                created_at,
            };
            beads[place].push_comment(comment);
            assert(beads.deep_view() =~= before.update(
                place as int,
                before[place as int].with_comment(comment.deep_view()),
            ));
            return Ok(place);
        }
        i = place;
    }
    let message: String = "Bead with id '".to_owned().concat(bead_id).concat("' not found");
    Err(BeadsError::NotFound(message))
}

impl JsonlBackend {
    /// Adds a comment, written now, to the last bead of an issue file with the
    /// identifier `bead_id`. Returns the beads to store in the file, and the
    /// place of the one with the comment.
    ///
    /// The comment's identifier is one above the largest in the file, which
    /// must leave room for it.
    pub fn add_comment(
        &self,
        file: IssueFile,
        bead_id: &str,
        text: &str,
        author: &str,
    ) -> (result: Result<(Vec<Bead>, usize), BeadsError>)
        requires
            match stored(file.deep_view()) {
                Ok(beads) => leaves_room(beads, bead_id@),
                Err(_) => true,
            },
        ensures
            match (stored(file.deep_view()), result) {
                (Ok(before), Ok((beads, place))) => commented_now(
                    before,
                    beads.deep_view(),
                    place as int,
                    bead_id@,
                    text@,
                    author@,
                ),
                (Ok(before), Err(error)) => !has_id(before, bead_id@) && error.deep_view()
                    == no_such_bead(bead_id@),
                (Err(error), _) => result is Err && result->Err_0.deep_view() == error,
            },
    {
        match stored_beads(file) {
            Ok(mut beads) => {
                let created_at = reading_of(now_rfc3339);
                let ghost before = beads.deep_view();
                match add_comment_at(&mut beads, bead_id, text, author, created_at) {
                    Ok(place) => {
                        assert(commented(
                            before,
                            beads.deep_view(),
                            place as int,
                            bead_id@,
                            text@,
                            author@,
                            created_at@,
                        ));
                        Ok((beads, place))
                    },
                    Err(error) => Err(error),
                }
            },
            Err(error) => Err(error),
        }
    }
}

} // verus!
