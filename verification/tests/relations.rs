//! Relationships between beads.

use beads_backend::beads::{copy_strings, Bead, Dependency};
use beads_backend::relations::{bead_index, resolve_relationships, Duplicates};

fn bead(id: &str, edges: &[(&str, &str)]) -> Bead {
    let mut bead = Bead {
        id: id.to_string(),
        title: format!("Title of {id}"),
        description: None,
        status: "open".to_string(),
        priority: Some(1),
        issue_type: None,
        owner: None,
        created_at: None,
        created_by: None,
        updated_at: None,
        closed_at: None,
        close_reason: None,
        comments: None,
        parent_id: None,
        children: None,
        design_doc: None,
        deps: Some(vec!["blocker".to_string()]),
        relates_to: None,
        dependencies: None,
    };
    for (dep_type, depends_on_id) in edges {
        bead.push_dependency(Dependency {
            depends_on_id: depends_on_id.to_string(),
            dep_type: dep_type.to_string(),
        });
    }
    bead
}

fn resolved(beads: &[Bead], duplicates: Duplicates) -> Vec<Bead> {
    let mut beads = beads.to_vec();
    resolve_relationships(&mut beads, duplicates);
    beads
}

fn strings(items: &[&str]) -> Option<Vec<String>> {
    Some(items.iter().map(|s| s.to_string()).collect())
}

#[test]
fn only_relationships_change() {
    let beads = vec![
        bead("p", &[]),
        bead("p.1", &[("relates-to", "p"), ("blocks", "z")]),
    ];
    let after = resolved(&beads, Duplicates::First);
    for (before, after) in beads.iter().zip(&after) {
        let rest = Bead {
            parent_id: None,
            children: None,
            relates_to: None,
            ..after.clone()
        };
        assert_eq!(&rest, before);
    }
    assert_eq!(after[1].relates_to, strings(&["p"]));
    assert_eq!(after[0].relates_to, None);
}

#[test]
fn children_come_by_edges_then_by_identifier() {
    let beads = vec![
        bead("p.1", &[]),
        bead("p", &[]),
        bead("x", &[("parent-child", "p"), ("parent-child", "p")]),
        bead("p.1.2", &[]),
        bead("p.2", &[("parent-child", "x")]),
    ];
    for duplicates in [Duplicates::First, Duplicates::Last] {
        let after = resolved(&beads, duplicates);
        assert_eq!(after[1].children, strings(&["x", "x", "p.1"]));
        assert_eq!(after[0].children, strings(&["p.1.2"]));
        assert_eq!(after[2].children, strings(&["p.2"]));
        assert_eq!(after[3].children, None);
        assert_eq!(after[3].parent_id.as_deref(), Some("p.1"));
        assert_eq!(after[4].parent_id.as_deref(), Some("x"));
        assert_eq!(after[2].parent_id.as_deref(), Some("p"));
    }
}

#[test]
fn stored_relationships_stay_where_nothing_replaces_them() {
    let mut kept = bead("q.1", &[]);
    kept.parent_id = Some("elsewhere".to_string());
    kept.children = strings(&["old"]);
    kept.relates_to = strings(&["older"]);
    let after = resolved(&[bead("q", &[]), kept.clone()], Duplicates::First);
    assert_eq!(after[1], kept);
    assert_eq!(after[0].children, None);
}

#[test]
fn a_parent_may_be_named_that_is_not_there() {
    let after = resolved(&[bead("a", &[("parent-child", "gone")])], Duplicates::Last);
    assert_eq!(after[0].parent_id.as_deref(), Some("gone"));
}

#[test]
fn duplicates_decide_only_where_identifiers_are_shared() {
    let unique = vec![bead("p", &[]), bead("p.1", &[]), bead("p.2", &[("parent-child", "p")])];
    assert_eq!(resolved(&unique, Duplicates::First), resolved(&unique, Duplicates::Last));

    // The bead that stands for the identifier gets the parent that was
    // inferred for the other one, in place of the one that it names.
    let shared = vec![bead("p", &[]), bead("p.1", &[("parent-child", "x")]), bead("p.1", &[])];
    let first = resolved(&shared, Duplicates::First);
    assert_eq!(first[1].parent_id.as_deref(), Some("p"));
    assert_eq!(first[2].parent_id, None);
    let last = resolved(&shared, Duplicates::Last);
    assert_eq!(last[1].parent_id.as_deref(), Some("x"));
    assert_eq!(last[2].parent_id.as_deref(), Some("p"));
    assert_eq!(first[0].children, strings(&["p.1"]));
}

#[test]
fn the_index_holds_the_bead_that_stands_for_each_identifier() {
    let beads = vec![bead("a", &[]), bead("b", &[]), bead("a", &[])];
    let first = bead_index(&beads, Duplicates::First);
    let last = bead_index(&beads, Duplicates::Last);
    assert_eq!(first.get("a"), Some(&0));
    assert_eq!(last.get("a"), Some(&2));
    assert_eq!(first.get("b"), Some(&1));
    assert_eq!(last.get("b"), Some(&1));
    assert_eq!(first.get("c"), None);
}

#[test]
fn strings_are_copied() {
    let items = vec!["a".to_string(), "".to_string()];
    assert_eq!(copy_strings(&items), items);
}
