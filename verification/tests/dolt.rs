//! Reading beads from a Dolt database, and commenting on them.

use beads_backend::beads::{Bead, Comment, Dependency};
use beads_backend::dolt::{
    attach_comments, attach_dependencies, check_command, failed_command, find_commented,
    row_to_bead, row_to_comment, row_to_edge, rows_to_beads, CommandOutcome, CommentRow,
    DependencyRow, DoltBackend, DoltReading, Edge, IssueRow, COMMENTS_QUERY, DEPENDENCIES_QUERY,
    ISSUES_QUERY,
};
use beads_backend::dolt_manager::DoltServerManager;
use beads_backend::error::BeadsError;

fn text(s: &str) -> Option<String> {
    Some(s.to_string())
}

fn issue(id: &str) -> IssueRow {
    IssueRow {
        id: text(id),
        title: text("Title"),
        description: None,
        status: text("open"),
        priority: None,
        issue_type: None,
        owner: None,
        created_at: None,
        created_by: None,
        updated_at: None,
        closed_at: None,
        close_reason: None,
        design: None,
    }
}

fn comment(id: i64, issue_id: &str, words: &str) -> CommentRow {
    CommentRow {
        id: Some(id),
        issue_id: text(issue_id),
        author: text("ann"),
        text: text(words),
        created_at: text("2026-01-01T00:00:00Z"),
    }
}

fn edge(issue_id: &str, depends_on_id: &str, dep_type: &str) -> DependencyRow {
    DependencyRow {
        issue_id: text(issue_id),
        depends_on_id: text(depends_on_id),
        dep_type: text(dep_type),
    }
}

fn replies(
    issues: Vec<IssueRow>,
    comments: Vec<CommentRow>,
    dependencies: Vec<DependencyRow>,
) -> DoltReading {
    DoltReading::Replies {
        issues: Ok(issues),
        comments: Ok(comments),
        dependencies: Ok(dependencies),
    }
}

fn words(bead: &Bead) -> Vec<&str> {
    match &bead.comments {
        Some(comments) => comments.iter().map(|c| c.text.as_str()).collect(),
        None => vec![],
    }
}

fn parse_error<T: std::fmt::Debug>(result: Result<T, BeadsError>) -> String {
    match result {
        Err(BeadsError::Parse(text)) => text,
        other => panic!("expected a parse error, got {other:?}"),
    }
}

#[test]
fn test_dolt_backend_new_does_not_panic() {
    let _manager: DoltServerManager<u32> = DoltServerManager::new();
    let _backend = DoltBackend;
}

#[test]
fn issue_rows_become_beads() {
    let row = IssueRow {
        id: text("b-1"),
        title: text("T"),
        description: text("D"),
        status: text("closed"),
        priority: Some(2),
        issue_type: text("epic"),
        owner: text("o"),
        created_at: text("c1"),
        created_by: text("c2"),
        updated_at: text("u"),
        closed_at: text("c3"),
        close_reason: text("done"),
        design: text("plan"),
    };
    assert_eq!(
        row_to_bead(row),
        Ok(Bead {
            id: "b-1".to_string(),
            title: "T".to_string(),
            description: text("D"),
            status: "closed".to_string(),
            priority: Some(2),
            issue_type: text("epic"),
            owner: text("o"),
            created_at: text("c1"),
            created_by: text("c2"),
            updated_at: text("u"),
            closed_at: text("c3"),
            close_reason: text("done"),
            comments: None,
            parent_id: None,
            children: None,
            design_doc: text("plan"),
            deps: None,
            relates_to: None,
            dependencies: None,
        })
    );
}

#[test]
fn issue_rows_need_id_title_and_status() {
    let row = IssueRow { id: None, title: None, status: None, ..issue("x") };
    assert_eq!(parse_error(row_to_bead(row)), "missing id column in issues");
    let row = IssueRow { title: None, status: None, ..issue("x") };
    assert_eq!(parse_error(row_to_bead(row)), "missing title for bead 'x'");
    let row = IssueRow { status: None, ..issue("x") };
    assert_eq!(parse_error(row_to_bead(row)), "missing status for bead 'x'");
}

#[test]
fn comment_rows_become_comments() {
    assert_eq!(
        row_to_comment(comment(-3, "x", "hello")),
        Ok(Comment {
            id: -3,
            issue_id: "x".to_string(),
            author: "ann".to_string(),
            text: "hello".to_string(),
            created_at: "2026-01-01T00:00:00Z".to_string(),
        })
    );
}

#[test]
fn comment_rows_need_every_column() {
    let row = CommentRow { id: None, issue_id: None, ..comment(7, "x", "t") };
    assert_eq!(parse_error(row_to_comment(row)), "missing id column in comments");
    let row = CommentRow { issue_id: None, author: None, ..comment(7, "x", "t") };
    assert_eq!(parse_error(row_to_comment(row)), "missing issue_id column in comments");
    let row = CommentRow { author: None, text: None, ..comment(7, "x", "t") };
    assert_eq!(parse_error(row_to_comment(row)), "missing author for comment id '7'");
    let row = CommentRow { text: None, created_at: None, ..comment(-12, "x", "t") };
    assert_eq!(parse_error(row_to_comment(row)), "missing text for comment id '-12'");
    let row = CommentRow { created_at: None, ..comment(7, "x", "t") };
    assert_eq!(parse_error(row_to_comment(row)), "missing created_at for comment id '7'");
}

#[test]
fn dependency_rows_need_every_column() {
    assert_eq!(
        row_to_edge(edge("a", "b", "blocks")),
        Ok(Edge {
            issue_id: "a".to_string(),
            dependency: Dependency {
                depends_on_id: "b".to_string(),
                dep_type: "blocks".to_string(),
            },
        })
    );
    let row = DependencyRow { issue_id: None, depends_on_id: None, dep_type: None };
    assert_eq!(parse_error(row_to_edge(row)), "missing issue_id in dependencies");
    let row = DependencyRow { depends_on_id: None, dep_type: None, ..edge("a", "b", "c") };
    assert_eq!(parse_error(row_to_edge(row)), "missing depends_on_id in dependencies");
    let row = DependencyRow { dep_type: None, ..edge("a", "b", "c") };
    assert_eq!(parse_error(row_to_edge(row)), "missing type in dependencies");
}

#[test]
fn the_first_bad_row_decides() {
    let rows = vec![
        issue("a"),
        IssueRow { status: None, ..issue("b") },
        IssueRow { title: None, ..issue("c") },
    ];
    assert_eq!(parse_error(rows_to_beads(rows)), "missing status for bead 'b'");
    assert_eq!(rows_to_beads(vec![]), Ok(vec![]));
}

#[test]
fn comments_land_on_their_beads_in_order() {
    let beads = rows_to_beads(vec![issue("a"), issue("b"), issue("c")]).unwrap();
    let rows = vec![
        comment(1, "b", "first"),
        comment(2, "a", "other"),
        comment(3, "gone", "lost"),
        comment(4, "b", "second"),
    ];
    let beads = attach_comments(beads, rows).unwrap();
    assert_eq!(words(&beads[0]), ["other"]);
    assert_eq!(words(&beads[1]), ["first", "second"]);
    assert_eq!(beads[2].comments, None);
}

#[test]
fn comments_on_a_shared_identifier_land_on_the_last_bead() {
    let beads = rows_to_beads(vec![issue("a"), issue("a")]).unwrap();
    let beads = attach_comments(beads, vec![comment(1, "a", "here")]).unwrap();
    assert_eq!(beads[0].comments, None);
    assert_eq!(words(&beads[1]), ["here"]);
}

#[test]
fn a_malformed_comment_fails_even_where_its_bead_is_not_there() {
    let beads = rows_to_beads(vec![issue("a")]).unwrap();
    let rows = vec![CommentRow { author: None, ..comment(5, "gone", "t") }];
    assert_eq!(parse_error(attach_comments(beads, rows)), "missing author for comment id '5'");
}

#[test]
fn edges_land_on_the_beads_that_they_start_from() {
    let beads = rows_to_beads(vec![issue("a"), issue("b")]).unwrap();
    let rows = vec![
        edge("b", "a", "blocks"),
        edge("gone", "a", "blocks"),
        edge("b", "c", "relates-to"),
    ];
    let beads = attach_dependencies(beads, rows).unwrap();
    assert_eq!(beads[0].dependencies, None);
    let edges = beads[1].dependencies.as_ref().unwrap();
    assert_eq!(edges.len(), 2);
    assert_eq!(edges[0].depends_on_id, "a");
    assert_eq!(edges[1].dep_type, "relates-to");
}

#[test]
fn reading_fills_in_comments_and_relationships() {
    let reading = replies(
        vec![issue("epic"), issue("epic.1"), issue("solo"), issue("late")],
        vec![comment(1, "solo", "hi")],
        vec![
            edge("late", "epic", "parent-child"),
            edge("solo", "epic", "relates-to"),
            edge("solo", "late", "relates-to"),
        ],
    );
    let beads = DoltBackend.read_beads(reading).unwrap();
    assert_eq!(beads.len(), 4);
    assert_eq!(beads[0].children, Some(vec!["late".to_string(), "epic.1".to_string()]));
    assert_eq!(beads[1].parent_id, text("epic"));
    assert_eq!(beads[3].parent_id, text("epic"));
    assert_eq!(beads[2].parent_id, None);
    assert_eq!(beads[2].relates_to, Some(vec!["epic".to_string(), "late".to_string()]));
    assert_eq!(words(&beads[2]), ["hi"]);
    assert_eq!(beads[2].dependencies.as_ref().unwrap().len(), 2);
}

#[test]
fn an_inferred_parent_goes_to_the_last_of_several_beads() {
    let reading = replies(vec![issue("p"), issue("p.1"), issue("p.1")], vec![], vec![]);
    let beads = DoltBackend.read_beads(reading).unwrap();
    assert_eq!(beads[1].parent_id, None);
    assert_eq!(beads[2].parent_id, text("p"));
    assert_eq!(beads[0].children, Some(vec!["p.1".to_string(), "p.1".to_string()]));
}

#[test]
fn reading_fails_with_the_error_of_the_first_step_that_failed() {
    let failed = BeadsError::CommandFailed("no server".to_string());
    assert_eq!(DoltBackend.read_beads(DoltReading::NoServer(failed.clone())), Err(failed));
    assert_eq!(
        DoltBackend.read_beads(DoltReading::NoConnection("busy".to_string())),
        Err(BeadsError::Database("failed to get connection from pool: busy".to_string()))
    );
    let reading = DoltReading::Replies {
        issues: Err("e1".to_string()),
        comments: Err("e2".to_string()),
        dependencies: Err("e3".to_string()),
    };
    assert_eq!(
        DoltBackend.read_beads(reading),
        Err(BeadsError::Database("issues query failed: e1".to_string()))
    );
    let reading = DoltReading::Replies {
        issues: Ok(vec![IssueRow { id: None, ..issue("a") }]),
        comments: Err("e2".to_string()),
        dependencies: Err("e3".to_string()),
    };
    assert_eq!(
        DoltBackend.read_beads(reading),
        Err(BeadsError::Parse("missing id column in issues".to_string()))
    );
    let reading = DoltReading::Replies {
        issues: Ok(vec![issue("a")]),
        comments: Err("e2".to_string()),
        dependencies: Err("e3".to_string()),
    };
    assert_eq!(
        DoltBackend.read_beads(reading),
        Err(BeadsError::Database("comments query failed: e2".to_string()))
    );
    let reading = DoltReading::Replies {
        issues: Ok(vec![issue("a")]),
        comments: Ok(vec![]),
        dependencies: Err("e3".to_string()),
    };
    assert_eq!(
        DoltBackend.read_beads(reading),
        Err(BeadsError::Database("dependencies query failed: e3".to_string()))
    );
}

#[test]
fn queries_name_the_columns_that_are_read() {
    assert!(ISSUES_QUERY.contains("design FROM issues WHERE status != 'tombstone'"));
    assert!(ISSUES_QUERY.ends_with("ORDER BY priority, created_at"));
    assert_eq!(
        COMMENTS_QUERY,
        "SELECT id, issue_id, author, text, created_at FROM comments \
         ORDER BY issue_id, created_at"
    );
    assert_eq!(DEPENDENCIES_QUERY, "SELECT issue_id, depends_on_id, type FROM dependencies");
}

#[test]
fn comment_command_has_these_arguments() {
    assert_eq!(
        DoltBackend.comment_command("b-1", "Great work!", "alice"),
        ["comments", "add", "b-1", "--text", "Great work!", "--author", "alice"]
    );
}

#[test]
fn failed_commands_are_told() {
    assert_eq!(check_command(&CommandOutcome::Succeeded), Ok(()));
    assert_eq!(
        check_command(&CommandOutcome::NotRun("no bd".to_string())),
        Err(BeadsError::CommandFailed("failed to spawn `bd comments add`: no bd".to_string()))
    );
    assert_eq!(
        check_command(&CommandOutcome::Failed(b"bad id\n".to_vec())),
        Err(BeadsError::CommandFailed("`bd comments add` failed: bad id\n".to_string()))
    );
    assert_eq!(
        failed_command("x"),
        BeadsError::CommandFailed("`bd comments add` failed: x".to_string())
    );
}

#[test]
fn invalid_bytes_of_a_failed_command_are_replaced() {
    assert_eq!(
        check_command(&CommandOutcome::Failed(vec![b'a', 0xff, b'b'])),
        Err(BeadsError::CommandFailed("`bd comments add` failed: a\u{fffd}b".to_string()))
    );
    assert_eq!(
        check_command(&CommandOutcome::Failed("d\u{e9}j\u{e0}".as_bytes().to_vec())),
        Err(BeadsError::CommandFailed("`bd comments add` failed: d\u{e9}j\u{e0}".to_string()))
    );
}

#[test]
fn the_commented_bead_is_the_first_with_its_identifier() {
    let mut second = issue("a");
    second.title = text("Second");
    let beads = rows_to_beads(vec![issue("b"), issue("a"), second]).unwrap();
    assert_eq!(find_commented(beads, "a").unwrap().title, "Title");
    assert_eq!(
        find_commented(vec![], "a"),
        Err(BeadsError::NotFound("bead 'a' not found after comment add".to_string()))
    );
}

#[test]
fn commenting_gives_the_bead_as_it_is_read_afterwards() {
    let reading = replies(vec![issue("a"), issue("b")], vec![comment(1, "b", "new")], vec![]);
    let bead = DoltBackend.add_comment("b", CommandOutcome::Succeeded, reading).unwrap();
    assert_eq!(bead.id, "b");
    assert_eq!(words(&bead), ["new"]);

    let reading = replies(vec![issue("a")], vec![], vec![]);
    assert_eq!(
        DoltBackend.add_comment("b", CommandOutcome::Succeeded, reading),
        Err(BeadsError::NotFound("bead 'b' not found after comment add".to_string()))
    );

    let reading = DoltReading::NoConnection("busy".to_string());
    assert_eq!(
        DoltBackend.add_comment("b", CommandOutcome::Succeeded, reading),
        Err(BeadsError::Database("failed to get connection from pool: busy".to_string()))
    );

    let reading = replies(vec![issue("b")], vec![], vec![]);
    assert_eq!(
        DoltBackend.add_comment("b", CommandOutcome::Failed(b"x".to_vec()), reading),
        Err(BeadsError::CommandFailed("`bd comments add` failed: x".to_string()))
    );
}
