//! Reading, commenting on and writing issue files.

use beads_backend::beads::{Bead, Comment, Dependency};
use beads_backend::error::BeadsError;
use beads_backend::jsonl::{
    add_comment_at, issue_file, issue_lines, max_comment_id, stored_beads, IssueFile, JsonlBackend,
};
use serde_json::Value;

fn text_at(value: &Value, key: &str) -> Option<String> {
    value.get(key)?.as_str().map(|s| s.to_string())
}

fn decode_comment(value: &Value) -> Option<Comment> {
    Some(Comment {
        id: value.get("id")?.as_i64()?,
        issue_id: text_at(value, "issue_id")?,
        author: text_at(value, "author")?,
        text: text_at(value, "text")?,
        created_at: text_at(value, "created_at")?,
    })
}

fn decode_dependency(value: &Value) -> Option<Dependency> {
    Some(Dependency {
        depends_on_id: text_at(value, "depends_on_id")?,
        dep_type: text_at(value, "type")?,
    })
}

fn list<T>(value: &Value, key: &str, decode: fn(&Value) -> Option<T>) -> Option<Vec<T>> {
    value.get(key)?.as_array()?.iter().map(decode).collect()
}

fn decode(line: &str) -> Option<Bead> {
    let value: Value = serde_json::from_str(line).ok()?;
    Some(Bead {
        id: text_at(&value, "id")?,
        title: text_at(&value, "title")?,
        description: text_at(&value, "description"),
        status: text_at(&value, "status")?,
        priority: None,
        issue_type: text_at(&value, "issue_type"),
        owner: None,
        created_at: None,
        created_by: None,
        updated_at: None,
        closed_at: None,
        close_reason: None,
        comments: list(&value, "comments", decode_comment),
        parent_id: None,
        children: None,
        design_doc: None,
        deps: None,
        relates_to: None,
        dependencies: list(&value, "dependencies", decode_dependency),
    })
}

fn object(pairs: Vec<(&str, Value)>) -> Value {
    Value::Object(pairs.into_iter().map(|(k, v)| (k.to_string(), v)).collect())
}

fn encode(bead: &Bead) -> String {
    let mut pairs = vec![
        ("id", Value::from(bead.id.clone())),
        ("title", Value::from(bead.title.clone())),
        ("status", Value::from(bead.status.clone())),
    ];
    if let Some(comments) = &bead.comments {
        let values = comments.iter().map(|c| {
            object(vec![
                ("id", Value::from(c.id)),
                ("issue_id", Value::from(c.issue_id.clone())),
                ("author", Value::from(c.author.clone())),
                ("text", Value::from(c.text.clone())),
                ("created_at", Value::from(c.created_at.clone())),
            ])
        });
        pairs.push(("comments", values.collect()));
    }
    object(pairs).to_string()
}

fn file(contents: &str) -> IssueFile {
    IssueFile::Lines(issue_lines(contents).iter().map(|l| decode(&l.text)).collect())
}

fn lines(lines: &[&str]) -> IssueFile {
    file(&(lines.join("\n") + "\n"))
}

fn bead(id: &str) -> Bead {
    decode(&format!("{{\"id\":\"{id}\",\"title\":\"T\",\"status\":\"open\"}}")).unwrap()
}

fn find<'a>(beads: &'a [Bead], id: &str) -> &'a Bead {
    beads.iter().find(|b| b.id == id).unwrap()
}

// ---- read_beads ------------------------------------------------------------

#[test]
fn test_read_beads_returns_not_found_when_no_file() {
    let result = JsonlBackend.read_beads(IssueFile::Missing);
    assert!(matches!(result, Err(BeadsError::NotFound(_))));
    assert_eq!(
        result.unwrap_err().message(),
        "Not found: No .beads/issues.jsonl found at the specified path"
    );
}

#[test]
fn unreadable_files_are_told() {
    let result = JsonlBackend.read_beads(IssueFile::Unreadable("denied".to_string()));
    assert_eq!(result, Err(BeadsError::Io("denied".to_string())));
    let result = JsonlBackend.add_comment(
        IssueFile::Unreadable("denied".to_string()),
        "a",
        "t",
        "u",
    );
    assert_eq!(result, Err(BeadsError::Io("denied".to_string())));
}

#[test]
fn test_read_beads_parses_simple_bead() {
    let beads = JsonlBackend
        .read_beads(lines(&[r#"{"id":"abc","title":"Test","status":"open"}"#]))
        .unwrap();
    assert_eq!(beads.len(), 1);
    assert_eq!(beads[0].id, "abc");
    assert_eq!(beads[0].title, "Test");
    assert_eq!(beads[0].status, "open");
}

#[test]
fn test_read_beads_skips_empty_lines() {
    let beads = JsonlBackend
        .read_beads(file("\n{\"id\":\"x\",\"title\":\"X\",\"status\":\"open\"}\n\n"))
        .unwrap();
    assert_eq!(beads.len(), 1);
}

#[test]
fn test_read_beads_infers_parent_from_id_dot_pattern() {
    let beads = JsonlBackend
        .read_beads(lines(&[
            r#"{"id":"epic1","title":"Epic","status":"open","issue_type":"epic"}"#,
            r#"{"id":"epic1.1","title":"Child","status":"open"}"#,
        ]))
        .unwrap();
    assert_eq!(find(&beads, "epic1.1").parent_id.as_deref(), Some("epic1"));
}

#[test]
fn test_read_beads_sets_children_on_parent() {
    let beads = JsonlBackend
        .read_beads(lines(&[
            r#"{"id":"parent","title":"Parent","status":"open"}"#,
            r#"{"id":"parent.1","title":"Child","status":"open"}"#,
        ]))
        .unwrap();
    let children = find(&beads, "parent").children.as_ref().unwrap();
    assert_eq!(children, &["parent.1"]);
}

#[test]
fn test_read_beads_extracts_relates_to() {
    let beads = JsonlBackend
        .read_beads(lines(&[
            r#"{"id":"a","title":"A","status":"open","dependencies":[{"depends_on_id":"b","type":"relates-to"}]}"#,
        ]))
        .unwrap();
    let relates = find(&beads, "a").relates_to.as_ref().unwrap();
    assert_eq!(relates, &["b"]);
}

#[test]
fn test_read_beads_gracefully_skips_malformed_lines() {
    let beads = JsonlBackend
        .read_beads(file(
            "{\"id\":\"good\",\"title\":\"Good\",\"status\":\"open\"}\nnot-valid-json\n",
        ))
        .unwrap();
    assert_eq!(beads.len(), 1);
    assert_eq!(beads[0].id, "good");
}

#[test]
fn test_read_beads_empty_file_returns_empty_vec() {
    let beads = JsonlBackend.read_beads(file("")).unwrap();
    assert!(beads.is_empty());
}

#[test]
fn named_parents_win_over_inferred_ones() {
    let beads = JsonlBackend
        .read_beads(lines(&[
            r#"{"id":"p","title":"P","status":"open"}"#,
            r#"{"id":"q","title":"Q","status":"open"}"#,
            r#"{"id":"p.1","title":"C","status":"open","dependencies":[{"depends_on_id":"x","type":"parent-child"},{"depends_on_id":"q","type":"parent-child"}]}"#,
            r#"{"id":"p.2","title":"D","status":"open"}"#,
            r#"{"id":"z.1","title":"E","status":"open"}"#,
        ]))
        .unwrap();
    assert_eq!(find(&beads, "p.1").parent_id.as_deref(), Some("q"));
    assert_eq!(find(&beads, "p.2").parent_id.as_deref(), Some("p"));
    assert_eq!(find(&beads, "z.1").parent_id, None);
    assert_eq!(find(&beads, "p").children.as_ref().unwrap(), &["p.2"]);
    assert_eq!(find(&beads, "q").children.as_ref().unwrap(), &["p.1"]);
    assert_eq!(find(&beads, "p.2").children, None);
    assert_eq!(find(&beads, "p.1").relates_to, None);
}

#[test]
fn an_inferred_parent_goes_to_the_first_of_several_beads() {
    let file = IssueFile::Lines(vec![Some(bead("p")), Some(bead("p.1")), Some(bead("p.1"))]);
    let beads = JsonlBackend.read_beads(file).unwrap();
    assert_eq!(beads[1].parent_id.as_deref(), Some("p"));
    assert_eq!(beads[2].parent_id, None);
    assert_eq!(beads[0].children.as_ref().unwrap(), &["p.1", "p.1"]);
}

// ---- add_comment -----------------------------------------------------------

#[test]
fn test_add_comment_returns_not_found_when_no_file() {
    let result = JsonlBackend.add_comment(IssueFile::Missing, "abc", "hello", "user@example.com");
    assert!(matches!(result, Err(BeadsError::NotFound(_))));
}

#[test]
fn test_add_comment_returns_not_found_for_missing_bead() {
    let file = lines(&[r#"{"id":"exists","title":"Exists","status":"open"}"#]);
    let result = JsonlBackend.add_comment(file, "does-not-exist", "text", "author");
    assert!(matches!(result, Err(BeadsError::NotFound(_))));
    assert_eq!(
        result.unwrap_err().message(),
        "Not found: Bead with id 'does-not-exist' not found"
    );
}

#[test]
fn test_add_comment_appends_comment_to_bead() {
    let file = lines(&[r#"{"id":"bead1","title":"Bead","status":"open"}"#]);
    let (mut beads, place) = JsonlBackend
        .add_comment(file, "bead1", "Great work!", "alice@example.com")
        .unwrap();
    let updated = beads.swap_remove(place);

    let comments = updated.comments.as_ref().unwrap();
    assert_eq!(comments.len(), 1);
    assert_eq!(comments[0].text, "Great work!");
    assert_eq!(comments[0].author, "alice@example.com");
    assert_eq!(comments[0].issue_id, "bead1");
}

#[test]
fn test_add_comment_increments_global_max_comment_id() {
    let file = lines(&[
        r#"{"id":"a","title":"A","status":"open","comments":[{"id":5,"issue_id":"a","author":"u","text":"t","created_at":"2026-01-01T00:00:00Z"}]}"#,
        r#"{"id":"b","title":"B","status":"open"}"#,
    ]);
    let (beads, place) = JsonlBackend.add_comment(file, "b", "new comment", "user").unwrap();
    let comments = beads[place].comments.as_ref().unwrap();
    assert_eq!(comments[0].id, 6);
}

#[test]
fn test_add_comment_persists_to_file() {
    let file_before = lines(&[r#"{"id":"bead1","title":"Bead","status":"open"}"#]);
    let (beads, _) =
        JsonlBackend.add_comment(file_before, "bead1", "persisted", "user").unwrap();
    let contents = issue_file(&beads.iter().map(encode).collect());

    let beads = JsonlBackend.read_beads(file(&contents)).unwrap();
    let comments = find(&beads, "bead1").comments.as_ref().unwrap();
    assert_eq!(comments.len(), 1);
    assert_eq!(comments[0].text, "persisted");
}

#[test]
fn comments_are_stamped_with_the_time_in_utc() {
    let (beads, place) =
        JsonlBackend.add_comment(IssueFile::Lines(vec![Some(bead("a"))]), "a", "t", "u").unwrap();
    let created_at = &beads[place].comments.as_ref().unwrap()[0].created_at;
    assert!(created_at.ends_with("+00:00"), "{created_at}");
    assert!(created_at.len() >= 25, "{created_at}");
    for (at, expected) in "dddd-dd-ddTdd:dd:dd".chars().enumerate() {
        let found = created_at.chars().nth(at).unwrap();
        if expected == 'd' {
            assert!(found.is_ascii_digit(), "{created_at}");
        } else {
            assert_eq!(found, expected, "{created_at}");
        }
    }
    let parsed = chrono::DateTime::parse_from_rfc3339(created_at).unwrap();
    assert!(parsed.timestamp() > 0, "{created_at}");
}

#[test]
fn comments_go_to_the_last_of_several_beads() {
    let mut beads = vec![bead("a"), bead("b"), bead("a")];
    let before = beads.clone();
    let place = add_comment_at(&mut beads, "a", "t", "u", "now".to_string()).unwrap();
    assert_eq!(place, 2);
    assert_eq!(beads[0], before[0]);
    assert_eq!(beads[1], before[1]);
    assert_eq!(
        beads[2].comments,
        Some(vec![Comment {
            id: 1,
            issue_id: "a".to_string(),
            author: "u".to_string(),
            text: "t".to_string(),
            created_at: "now".to_string(),
        }])
    );

    let before = beads.clone();
    assert_eq!(
        add_comment_at(&mut beads, "c", "t", "u", "now".to_string()),
        Err(BeadsError::NotFound("Bead with id 'c' not found".to_string()))
    );
    assert_eq!(beads, before);

    assert_eq!(add_comment_at(&mut beads, "b", "t", "u", "now".to_string()), Ok(1));
    assert_eq!(max_comment_id(&beads), 2);
}

#[test]
fn the_largest_comment_identifier_is_never_negative() {
    let mut one = bead("a");
    assert_eq!(max_comment_id(&vec![one.clone()]), 0);
    one.push_comment(Comment {
        id: -4,
        issue_id: "a".to_string(),
        author: "u".to_string(),
        text: "t".to_string(),
        created_at: "c".to_string(),
    });
    assert_eq!(max_comment_id(&vec![one]), 0);
}

// ---- lines -----------------------------------------------------------------

#[test]
fn lines_are_those_of_std_trimmed_and_numbered() {
    for contents in [
        "",
        "\n",
        "a",
        "a\n",
        "a\r\nb\r\n",
        "\n\n a \n\t\nb\n",
        "  x  \n y",
        "a\n\u{a0}\nb\u{2003}\n\r\n",
        "\u{e9}\n\u{feff}z",
    ] {
        let expected: Vec<(usize, String)> = contents
            .lines()
            .enumerate()
            .map(|(i, l)| (i + 1, l.trim().to_string()))
            .filter(|(_, l)| !l.is_empty())
            .collect();
        let found: Vec<(usize, String)> =
            issue_lines(contents).into_iter().map(|l| (l.number, l.text)).collect();
        assert_eq!(found, expected, "{contents:?}");
    }
}

#[test]
fn written_lines_are_read_back() {
    let encoded = vec!["{\"a\":1}".to_string(), "{}".to_string(), "x y".to_string()];
    let contents = issue_file(&encoded);
    assert_eq!(contents, "{\"a\":1}\n{}\nx y\n");
    let read: Vec<String> = issue_lines(&contents).into_iter().map(|l| l.text).collect();
    assert_eq!(read, encoded);
    assert_eq!(issue_file(&vec![]), "");
}

#[test]
fn stored_beads_have_no_relationships_filled_in() {
    let beads = stored_beads(IssueFile::Lines(vec![
        Some(bead("p")),
        None,
        Some(bead("p.1")),
        None,
    ]))
    .unwrap();
    assert_eq!(beads, [bead("p"), bead("p.1")]);
}

// ---- errors ----------------------------------------------------------------

#[test]
fn errors_describe_themselves() {
    let text = "why".to_string();
    assert_eq!(BeadsError::Io(text.clone()).message(), "I/O error: why");
    assert_eq!(BeadsError::Parse(text.clone()).message(), "Parse error: why");
    assert_eq!(BeadsError::Database(text.clone()).message(), "Database error: why");
    assert_eq!(BeadsError::NotFound(text.clone()).message(), "Not found: why");
    assert_eq!(BeadsError::CommandFailed(text).message(), "Command failed: why");
}
