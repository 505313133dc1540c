//! What callers get back, told by what they handed in.

use vstd::prelude::*;

use crate::beads::{Bead, Comment};
use crate::detect::{choose_backend, detect_backend, yaml_bool, BackendType};
use crate::dolt::{
    check_command, held, read, row_to_bead, row_to_comment, row_to_edge, CommandOutcome,
    CommentRow, DependencyRow, DoltBackend, DoltReading, Edge, IssueRow,
};
use crate::dolt_column_laws::{
    commented_beads_are_found, failed_commands_are_told, failed_steps_are_told,
    readings_show_every_column,
};
use crate::dolt_laws::{beads_show_their_rows, whole, whole_rows_are_read};
use crate::dolt_server::{
    build_connection, locate_db_dir, pool_bounds, server_command, wait_for_ready, DbDir, DirEntry,
    DoltConnection, WaitStep,
};
use crate::dolt_watcher::{query_hash, HashReply, TableHashes};
use crate::error::{outcome, BeadsError, BeadsErrorView};
use crate::jsonl::{
    commented, is_clock_reading, is_one_line, is_utc_timestamp, issue_file, issue_lines,
    stored_beads, well_formed, written_lines_read_back, IssueFile, IssueLine, JsonlBackend,
};
use crate::jsonl_laws::{
    comments_are_stamped_by_the_clock, comments_of, files_are_told_apart,
    new_comments_hold_what_was_given,
};
use crate::jsonl_watcher::{choose_watch_target, WatchTarget};
use crate::relation_laws::resolving_keeps_the_rest;
use crate::relations::{has_id, resolved, Duplicates};
use crate::text::decimal;

verus! {

// ---------------------------------------------------------------------------
// JSONL
// ---------------------------------------------------------------------------

/// Reading an issue file gives the beads of its well-formed lines, in order,
/// with their relationships filled in; it fails only where the file is missing
/// or cannot be read, and then says so.
pub proof fn reading_gives_the_stored_beads(
    backend: &JsonlBackend,
    file: IssueFile,
    result: Result<Vec<Bead>, BeadsError>,
)
    requires
        call_ensures(JsonlBackend::read_beads, (backend, file), result),
    ensures
        result is Ok <==> file is Lines,
        file is Missing ==> result->Err_0.deep_view() == BeadsErrorView::NotFound(
            "No .beads/issues.jsonl found at the specified path"@,
        ),
        file matches IssueFile::Unreadable(text) ==> result->Err_0.deep_view()
            == BeadsErrorView::Io(text@),
        file matches IssueFile::Lines(lines) ==> result->Ok_0.deep_view() == resolved(
            well_formed(lines.deep_view()),
            Duplicates::First,
        ),
{
    match file {
        IssueFile::Lines(lines) => {
            files_are_told_apart(Seq::empty(), lines.deep_view());
        },
        IssueFile::Unreadable(text) => {
            files_are_told_apart(text@, Seq::empty());
        },
        IssueFile::Missing => {},
    }
}

/// The beads stored in a file are those of its well-formed lines.
pub proof fn stored_beads_are_given(
    lines: Vec<Option<Bead>>,
    result: Result<Vec<Bead>, BeadsError>,
)
    requires
        call_ensures(stored_beads, (IssueFile::Lines(lines),), result),
    ensures
        result is Ok,
        result->Ok_0.deep_view() == well_formed(lines.deep_view()),
{
    files_are_told_apart(Seq::empty(), lines.deep_view());
}

/// What is handed to an issue file comes back from it: the lines of a file that
/// was made of encoded beads are those, in order and in full.
pub proof fn written_files_read_back(
    encoded: Vec<String>,
    text: String,
    contents: &str,
    lines: Vec<IssueLine>,
)
    requires
        call_ensures(issue_file, (&encoded,), text),
        contents@ == text@,
        call_ensures(issue_lines, (contents,), lines),
        forall|i: int| 0 <= i < encoded@.len() ==> is_one_line((#[trigger] encoded@[i])@),
    ensures
        lines@.len() == encoded@.len(),
        forall|i: int|
            0 <= i < lines@.len() ==> (#[trigger] lines@[i]).text@ == encoded@[i]@
                && lines@[i].number == i + 1,
{
    let all = encoded.deep_view();
    assert forall|i: int| 0 <= i < all.len() implies is_one_line(#[trigger] all[i]) by {
        assert(all[i] == encoded@[i]@);
    }
    written_lines_read_back(all);
    assert(lines.deep_view().len() == all.len());
    assert forall|i: int| 0 <= i < lines@.len() implies (#[trigger] lines@[i]).text@
        == encoded@[i]@ && lines@[i].number == i + 1 by {
        assert(lines.deep_view()[i] == lines@[i].deep_view());
        assert(all[i] == encoded@[i]@);
    }
}

/// A comment that is added to an issue file holds what was given, is stamped
/// with what the clock returned, and stands last on the last bead with the
/// identifier; every other bead stays as it was stored. It is refused exactly
/// where no such bead is stored.
pub proof fn adding_a_comment_adds_what_was_given(
    backend: &JsonlBackend,
    file: IssueFile,
    bead_id: &str,
    text: &str,
    author: &str,
    result: Result<(Vec<Bead>, usize), BeadsError>,
)
    requires
        call_ensures(JsonlBackend::add_comment, (backend, file, bead_id, text, author), result),
        file is Lines,
    ensures
        ({
            let before = well_formed(file->Lines_0.deep_view());
            &&& result is Ok <==> has_id(before, bead_id@)
            &&& result matches Err(error) ==> error.deep_view() == BeadsErrorView::NotFound(
                "Bead with id '"@ + bead_id@ + "' not found"@,
            )
            &&& result matches Ok((beads, place)) ==> {
                let after = beads.deep_view();
                let list = comments_of(after[place as int]);
                &&& after.len() == before.len()
                &&& place < after.len() && before[place as int].id == bead_id@
                &&& forall|j: int| place < j < before.len() ==> (#[trigger] before[j]).id != bead_id@
                &&& forall|j: int|
                    0 <= j < before.len() && j != place ==> #[trigger] after[j] == before[j]
                &&& list.len() == comments_of(before[place as int]).len() + 1
                &&& list.last().text == text@
                &&& list.last().author == author@
                &&& list.last().issue_id == bead_id@
                &&& is_clock_reading(list.last().created_at)
                &&& is_utc_timestamp(list.last().created_at)
            }
        }),
{
    let lines = file->Lines_0;
    let before = well_formed(lines.deep_view());
    files_are_told_apart(Seq::empty(), lines.deep_view());
    if result is Ok {
        let beads = result->Ok_0.0;
        let place = result->Ok_0.1;
        let after = beads.deep_view();
        comments_are_stamped_by_the_clock(
            before,
            after,
            place as int,
            bead_id@,
            text@,
            author@,
        );
        let created_at = choose|created_at: Seq<char>|
            is_clock_reading(created_at) && is_utc_timestamp(created_at) && #[trigger] commented(
                before,
                after,
                place as int,
                bead_id@,
                text@,
                author@,
                created_at,
            );
        new_comments_hold_what_was_given(
            before,
            after,
            place as int,
            bead_id@,
            text@,
            author@,
            created_at,
        );
        assert(before[place as int].id == bead_id@);
    }
}

/// What is watched is the directory where it exists, otherwise the one above
/// where that does.
pub proof fn the_nearest_directory_is_watched(
    directory: bool,
    parent: Option<bool>,
    target: WatchTarget,
)
    requires
        call_ensures(choose_watch_target, (directory, parent), target),
    ensures
        target == WatchTarget::Directory <==> directory,
        target == WatchTarget::Parent <==> !directory && parent == Some(true),
{
}

// ---------------------------------------------------------------------------
// Dolt
// ---------------------------------------------------------------------------

/// The command that adds a comment is handed the identifier, the text and the
/// author in full.
pub proof fn commands_are_handed_everything(
    backend: &DoltBackend,
    bead_id: &str,
    text: &str,
    author: &str,
    arguments: Vec<String>,
)
    requires
        call_ensures(DoltBackend::comment_command, (backend, bead_id, text, author), arguments),
    ensures
        arguments@.len() == 7,
        arguments@[0]@ == "comments"@,
        arguments@[1]@ == "add"@,
        arguments@[2]@ == bead_id@,
        arguments@[3]@ == "--text"@,
        arguments@[4]@ == text@,
        arguments@[5]@ == "--author"@,
        arguments@[6]@ == author@,
{
}

/// Two rows that agree in a column give beads that agree in the field of that
/// name, whatever the other columns hold.
pub proof fn columns_do_not_depend_on_each_other(
    row: IssueRow,
    bead: Bead,
    other_row: IssueRow,
    other: Bead,
)
    requires
        call_ensures(row_to_bead, (row,), Ok(bead)),
        call_ensures(row_to_bead, (other_row,), Ok(other)),
    ensures
        row.description == other_row.description <==> bead.description == other.description,
        row.priority == other_row.priority <==> bead.priority == other.priority,
        row.issue_type == other_row.issue_type <==> bead.issue_type == other.issue_type,
        row.owner == other_row.owner <==> bead.owner == other.owner,
        row.created_at == other_row.created_at <==> bead.created_at == other.created_at,
        row.created_by == other_row.created_by <==> bead.created_by == other.created_by,
        row.updated_at == other_row.updated_at <==> bead.updated_at == other.updated_at,
        row.closed_at == other_row.closed_at <==> bead.closed_at == other.closed_at,
        row.close_reason == other_row.close_reason <==> bead.close_reason == other.close_reason,
        row.design == other_row.design <==> bead.design_doc == other.design_doc,
        bead.description == row.description,
        Some(bead.id) == row.id,
        Some(bead.title) == row.title,
        Some(bead.status) == row.status,
{
}

/// A comment and an edge hold the columns of their rows.
pub proof fn rows_are_carried_over(
    comment_row: CommentRow,
    comment: Comment,
    dependency_row: DependencyRow,
    edge: Edge,
)
    requires
        call_ensures(row_to_comment, (comment_row,), Ok(comment)),
        call_ensures(row_to_edge, (dependency_row,), Ok(edge)),
    ensures
        Some(comment.id) == comment_row.id,
        Some(comment.issue_id) == comment_row.issue_id,
        Some(comment.author) == comment_row.author,
        Some(comment.text) == comment_row.text,
        Some(comment.created_at) == comment_row.created_at,
        Some(edge.issue_id) == dependency_row.issue_id,
        Some(edge.dependency.depends_on_id) == dependency_row.depends_on_id,
        Some(edge.dependency.dep_type) == dependency_row.dep_type,
{
}

/// Reading a database gives one bead for each row of the issues, in order and
/// with its columns, exactly where every query succeeded and every row
/// describes something.
pub proof fn reading_gives_every_row(
    backend: &DoltBackend,
    issues: Vec<IssueRow>,
    comments: Vec<CommentRow>,
    dependencies: Vec<DependencyRow>,
    result: Result<Vec<Bead>, BeadsError>,
)
    requires
        call_ensures(
            DoltBackend::read_beads,
            (
                backend,
                DoltReading::Replies {
                    issues: Ok(issues),
                    comments: Ok(comments),
                    dependencies: Ok(dependencies),
                },
            ),
            result,
        ),
    ensures
        result is Ok <==> whole(issues@, comments@, dependencies@),
        result matches Ok(beads) ==> beads@.len() == issues@.len() && forall|i: int|
            0 <= i < beads@.len() ==> {
                &&& (#[trigger] beads@[i]).id@ == issues@[i].id->0@
                &&& beads@[i].title@ == issues@[i].title->0@
                &&& beads@[i].status@ == issues@[i].status->0@
                &&& beads@[i].description.deep_view() == issues@[i].description.deep_view()
                &&& beads@[i].priority == issues@[i].priority
                &&& beads@[i].issue_type.deep_view() == issues@[i].issue_type.deep_view()
                &&& beads@[i].owner.deep_view() == issues@[i].owner.deep_view()
                &&& beads@[i].created_at.deep_view() == issues@[i].created_at.deep_view()
                &&& beads@[i].created_by.deep_view() == issues@[i].created_by.deep_view()
                &&& beads@[i].updated_at.deep_view() == issues@[i].updated_at.deep_view()
                &&& beads@[i].closed_at.deep_view() == issues@[i].closed_at.deep_view()
                &&& beads@[i].close_reason.deep_view() == issues@[i].close_reason.deep_view()
                &&& beads@[i].design_doc.deep_view() == issues@[i].design.deep_view()
            },
{
    let reading = DoltReading::Replies {
        issues: Ok(issues),
        comments: Ok(comments),
        dependencies: Ok(dependencies),
    };
    whole_rows_are_read(reading);
    failed_steps_are_told(reading, BeadsError::NotFound(arbitrary()), arbitrary());
    if result is Ok {
        let views = result->Ok_0.deep_view();
        assert forall|i: int| 0 <= i < views.len() implies views.len() == issues@.len() && {
            &&& (#[trigger] result->Ok_0@[i]).id@ == issues@[i].id->0@
            &&& result->Ok_0@[i].title@ == issues@[i].title->0@
            &&& result->Ok_0@[i].status@ == issues@[i].status->0@
            &&& result->Ok_0@[i].description.deep_view() == issues@[i].description.deep_view()
            &&& result->Ok_0@[i].priority == issues@[i].priority
            &&& result->Ok_0@[i].issue_type.deep_view() == issues@[i].issue_type.deep_view()
            &&& result->Ok_0@[i].owner.deep_view() == issues@[i].owner.deep_view()
            &&& result->Ok_0@[i].created_at.deep_view() == issues@[i].created_at.deep_view()
            &&& result->Ok_0@[i].created_by.deep_view() == issues@[i].created_by.deep_view()
            &&& result->Ok_0@[i].updated_at.deep_view() == issues@[i].updated_at.deep_view()
            &&& result->Ok_0@[i].closed_at.deep_view() == issues@[i].closed_at.deep_view()
            &&& result->Ok_0@[i].close_reason.deep_view() == issues@[i].close_reason.deep_view()
            &&& result->Ok_0@[i].design_doc.deep_view() == issues@[i].design.deep_view()
        } by {
            readings_show_every_column(issues, comments, dependencies, views, i);
            assert(views[i] == result->Ok_0@[i].deep_view());
        }
        beads_show_their_rows(
            issues,
            comments,
            dependencies,
            held(reading)->Ok_0,
        );
        resolving_keeps_the_rest(held(reading)->Ok_0, Duplicates::Last);
    }
}

/// A command is accepted exactly when it succeeded.
pub proof fn only_success_is_accepted(
    command: CommandOutcome,
    checked: Result<(), BeadsError>,
)
    requires
        call_ensures(check_command, (&command,), checked),
    ensures
        checked is Ok <==> command is Succeeded,
        command matches CommandOutcome::NotRun(text) ==> checked->Err_0.deep_view()
            == BeadsErrorView::CommandFailed("failed to spawn `bd comments add`: "@ + text@),
        command matches CommandOutcome::Failed(stderr) ==> vstd::utf8::valid_utf8(stderr@)
            ==> checked->Err_0.deep_view() == BeadsErrorView::CommandFailed(
            "`bd comments add` failed: "@ + vstd::utf8::decode_utf8(stderr@),
        ),
{
    failed_commands_are_told(command);
}

/// After a comment, the first bead with its identifier is given, as it is read
/// then; nothing is given where the command did not succeed.
pub proof fn commenting_gives_the_bead(
    backend: &DoltBackend,
    bead_id: &str,
    command: CommandOutcome,
    reading: DoltReading,
    result: Result<Bead, BeadsError>,
)
    requires
        call_ensures(DoltBackend::add_comment, (backend, bead_id, command, reading), result),
    ensures
        !(command is Succeeded) ==> result is Err && result->Err_0 is CommandFailed,
        command is Succeeded ==> (result is Ok <==> read(reading) is Ok && has_id(
            read(reading)->Ok_0,
            bead_id@,
        )),
        result matches Ok(bead) ==> bead.id@ == bead_id@ && read(
            reading,
        )->Ok_0.contains(bead.deep_view()),
{
    failed_commands_are_told(command);
    if command is Succeeded && read(reading) is Ok {
        let beads = read(reading)->Ok_0;
        commented_beads_are_found(beads, bead_id@, outcome(result));
    }
}

/// A project uses Dolt exactly where it has a Dolt directory and its
/// configuration does not say that there is no database.
pub proof fn dolt_is_used_where_it_is_found(
    config: Option<&str>,
    no_db: Option<bool>,
    dolt_dir: bool,
    backend: BackendType,
    chosen: BackendType,
)
    requires
        call_ensures(detect_backend, (config, dolt_dir), backend),
        call_ensures(choose_backend, (no_db, dolt_dir), chosen),
    ensures
        backend == BackendType::Dolt <==> dolt_dir && !(config is Some && yaml_bool(
            config->0@,
            "no-db"@,
        ) == Some(true)),
        chosen == BackendType::Dolt <==> dolt_dir && no_db != Some(true),
{
}

/// The database of a project is the first directory, whatever else is there.
pub proof fn the_first_directory_is_the_database(
    dolt_root: &str,
    listing: Result<Vec<DirEntry>, String>,
    result: Result<DbDir, BeadsError>,
)
    requires
        call_ensures(locate_db_dir, (dolt_root, &listing), result),
    ensures
        result is Ok <==> listing is Ok && exists|i: int|
            0 <= i < listing->Ok_0@.len() && (#[trigger] listing->Ok_0@[i]).is_dir,
        result matches Ok(db) ==> db.entry < listing->Ok_0@.len()
            && listing->Ok_0@[db.entry as int].is_dir && forall|j: int|
            0 <= j < db.entry ==> !(#[trigger] listing->Ok_0@[j]).is_dir,
        result matches Err(error) ==> error is CommandFailed,
{
}

/// A connection leads where it was asked to, and a server listens where it is
/// told to.
pub proof fn connections_lead_where_asked(
    host: &str,
    port: u16,
    db_name: &str,
    result: Result<DoltConnection, BeadsError>,
    arguments: Vec<String>,
    min: usize,
    max: usize,
    bounds: Result<(usize, usize), BeadsError>,
)
    requires
        call_ensures(build_connection, (host, port, db_name), result),
        call_ensures(server_command, (port,), arguments),
        call_ensures(pool_bounds, (min, max), bounds),
    ensures
        result is Ok,
        result->Ok_0.host@ == host@,
        result->Ok_0.port == port,
        result->Ok_0.database@ == db_name@,
        result->Ok_0.min_connections == 1 && result->Ok_0.max_connections == 5,
        arguments@.len() == 5,
        arguments@[2]@ == "127.0.0.1"@,
        arguments@[4]@ == decimal(port as nat),
        bounds is Ok <==> min <= max,
        bounds matches Ok(b) ==> b == (min, max),
        bounds matches Err(error) ==> error.deep_view() == BeadsErrorView::CommandFailed(
            "invalid pool constraints"@,
        ),
{
}

/// A server is ready when it answers in time, given up when time is over, and
/// waited for otherwise.
pub proof fn servers_are_ready_given_up_or_waited_for(
    host: &str,
    port: u16,
    timeout_ms: u64,
    delay_ms: u64,
    open: bool,
    elapsed_ms: u128,
    step: WaitStep,
)
    requires
        call_ensures(wait_for_ready, (host, port, timeout_ms, delay_ms, open, elapsed_ms), step),
    ensures
        step is Ready <==> open && elapsed_ms <= timeout_ms,
        step is Retry <==> !open && elapsed_ms < timeout_ms,
        step matches WaitStep::Retry { delay_ms: wait, next_ms: next } ==> wait <= delay_ms
            && elapsed_ms + wait <= timeout_ms && next <= 3200 && (delay_ms <= 1600 ==> next == 2
            * delay_ms),
{
}

/// The hashes of a reply are those of its row.
pub proof fn hashes_are_those_of_the_row(reply: HashReply, hashes: Option<TableHashes>)
    requires
        call_ensures(query_hash, (reply,), hashes),
    ensures
        hashes is Some <==> reply is Row && reply->Row_0 is Some && reply->Row_0->0.issues is Some,
        hashes matches Some(h) ==> Some(h.issues) == reply->Row_0->0.issues && h.comments
            == reply->Row_0->0.comments && h.dependencies == reply->Row_0->0.dependencies,
{
}

} // verus!
