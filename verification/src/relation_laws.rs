//! What holds of the relationships between beads, whatever the beads are.

use vstd::prelude::*;

use crate::beads::BeadView;
use crate::relations::{
    all_links, bead_links, children_of, explicit, explicit_links, has_id, inferred_for,
    inferred_links, inferred_parent, lemma_children_push, resolved, targets,
    with_inferred_parent, Duplicates, Link,
};
use crate::text::dotted_prefix;

verus! {

/// Whether no two beads share an identifier.
pub open spec fn unique_ids(beads: Seq<BeadView>) -> bool {
    forall|i: int, j: int|
        0 <= i < beads.len() && 0 <= j < beads.len() && #[trigger] beads[i].id
            == #[trigger] beads[j].id ==> i == j
}

/// Whether the bead at `j` belongs to `parent`: it says so with a
/// `parent-child` edge, or its identifier implies it.
pub open spec fn belongs_to(beads: Seq<BeadView>, j: int, parent: Seq<char>) -> bool {
    ||| targets(beads[j], "parent-child"@).contains(parent)
    ||| inferred_parent(explicit(beads), explicit(beads)[j]) == Some(parent)
}

/// Filling in the relationships keeps the beads, their order, and everything
/// of a bead but its parent, its children and its related beads.
pub proof fn resolving_keeps_the_rest(beads: Seq<BeadView>, duplicates: Duplicates)
    ensures
        resolved(beads, duplicates).len() == beads.len(),
        forall|i: int|
            0 <= i < beads.len() ==> #[trigger] resolved(beads, duplicates)[i] == (BeadView {
                parent_id: resolved(beads, duplicates)[i].parent_id,
                children: resolved(beads, duplicates)[i].children,
                relates_to: resolved(beads, duplicates)[i].relates_to,
                ..beads[i]
            }),
{
}

/// The related beads of a bead are the targets of its `relates-to` edges.
pub proof fn related_are_relates_to_targets(
    beads: Seq<BeadView>,
    duplicates: Duplicates,
    i: int,
)
    requires
        0 <= i < beads.len(),
    ensures
        resolved(beads, duplicates)[i].relates_to == if targets(beads[i], "relates-to"@).len() > 0 {
            Some(targets(beads[i], "relates-to"@))
        } else {
            beads[i].relates_to
        },
{
}

proof fn lemma_children_contains(links: Seq<Link>, parent: Seq<char>, child: Seq<char>)
    ensures
        children_of(links, parent).contains(child) <==> links.contains(Link { parent, child }),
    decreases links.len(),
{
    let link = Link { parent, child };
    if links.len() == 0 {
        reveal(Seq::filter);
    } else {
        let rest = links.drop_last();
        let last = links.last();
        assert(links == rest.push(last));
        lemma_children_push(rest, last, parent);
        lemma_children_contains(rest, parent, child);
        lemma_contains_push(children_of(rest, parent), last.child, child);
        lemma_contains_push(rest, last, link);
    }
}

proof fn lemma_contains_push<A>(s: Seq<A>, last: A, item: A)
    ensures
        s.push(last).contains(item) <==> s.contains(item) || last == item,
{
    if s.contains(item) {
        let k = choose|k: int| 0 <= k < s.len() && s[k] == item;
        assert(s.push(last)[k] == item);
    }
    assert(s.push(last)[s.len() as int] == last);
    if s.push(last).contains(item) {
        let k = choose|k: int| 0 <= k < s.push(last).len() && s.push(last)[k] == item;
        if k < s.len() {
            assert(s[k] == item);
        }
    }
}

proof fn lemma_contains_add<A>(a: Seq<A>, b: Seq<A>, item: A)
    ensures
        (a + b).contains(item) <==> a.contains(item) || b.contains(item),
{
    if a.contains(item) {
        let k = choose|k: int| 0 <= k < a.len() && a[k] == item;
        assert((a + b)[k] == item);
    }
    if b.contains(item) {
        let k = choose|k: int| 0 <= k < b.len() && b[k] == item;
        assert((a + b)[a.len() + k] == item);
    }
    if (a + b).contains(item) {
        let k = choose|k: int| 0 <= k < (a + b).len() && (a + b)[k] == item;
        if k < a.len() {
            assert(a[k] == item);
        } else {
            assert(b[k - a.len()] == item);
        }
    }
}

proof fn lemma_bead_links_contains(bead: BeadView, link: Link)
    ensures
        bead_links(bead).contains(link) <==> link.child == bead.id && targets(
            bead,
            "parent-child"@,
        ).contains(link.parent),
{
    let parents = targets(bead, "parent-child"@);
    if bead_links(bead).contains(link) {
        let k = choose|k: int| 0 <= k < bead_links(bead).len() && bead_links(bead)[k] == link;
        assert(parents[k] == link.parent);
    }
    if link.child == bead.id && parents.contains(link.parent) {
        let k = choose|k: int| 0 <= k < parents.len() && parents[k] == link.parent;
        assert(bead_links(bead)[k] == link);
    }
}

/// Whether one of the beads says with an edge that it is the child of `link`.
spec fn names(beads: Seq<BeadView>, link: Link) -> bool {
    exists|j: int|
        0 <= j < beads.len() && #[trigger] beads[j].id == link.child && targets(
            beads[j],
            "parent-child"@,
        ).contains(link.parent)
}

proof fn lemma_explicit_contains(beads: Seq<BeadView>, link: Link)
    ensures
        explicit_links(beads).contains(link) <==> names(beads, link),
    decreases beads.len(),
{
    if beads.len() > 0 {
        let rest = beads.drop_last();
        let last = beads.last();
        lemma_explicit_contains(rest, link);
        lemma_bead_links_contains(last, link);
        lemma_contains_add(explicit_links(rest), bead_links(last), link);
        if names(rest, link) {
            let j = choose|j: int|
                0 <= j < rest.len() && #[trigger] rest[j].id == link.child && targets(
                    rest[j],
                    "parent-child"@,
                ).contains(link.parent);
            assert(beads[j] == rest[j]);
        }
        if names(beads, link) {
            let j = choose|j: int|
                0 <= j < beads.len() && #[trigger] beads[j].id == link.child && targets(
                    beads[j],
                    "parent-child"@,
                ).contains(link.parent);
            if j < rest.len() {
                assert(beads[j] == rest[j]);
            }
        }
        assert(beads[beads.len() - 1] == last);
    }
}

/// Whether the identifier of one of `part` implies `link`.
spec fn implies_link(beads: Seq<BeadView>, part: Seq<BeadView>, link: Link) -> bool {
    exists|j: int|
        0 <= j < part.len() && #[trigger] part[j].id == link.child && inferred_parent(
            beads,
            part[j],
        ) == Some(link.parent)
}

proof fn lemma_inferred_contains(beads: Seq<BeadView>, part: Seq<BeadView>, link: Link)
    ensures
        inferred_links(beads, part).contains(link) <==> implies_link(beads, part, link),
    decreases part.len(),
{
    if part.len() > 0 {
        let rest = part.drop_last();
        let last = part.last();
        lemma_inferred_contains(beads, rest, link);
        match inferred_parent(beads, last) {
            Some(parent) => {
                lemma_contains_push(
                    inferred_links(beads, rest),
                    Link { parent, child: last.id },
                    link,
                );
            },
            None => {},
        }
        if implies_link(beads, rest, link) {
            let j = choose|j: int|
                0 <= j < rest.len() && #[trigger] rest[j].id == link.child && inferred_parent(
                    beads,
                    rest[j],
                ) == Some(link.parent);
            assert(part[j] == rest[j]);
        }
        if implies_link(beads, part, link) {
            let j = choose|j: int|
                0 <= j < part.len() && #[trigger] part[j].id == link.child && inferred_parent(
                    beads,
                    part[j],
                ) == Some(link.parent);
            if j < rest.len() {
                assert(part[j] == rest[j]);
            }
        }
        assert(part[part.len() - 1] == last);
    }
}

proof fn lemma_all_links_contains(beads: Seq<BeadView>, link: Link)
    ensures
        all_links(beads).contains(link) <==> exists|j: int|
            0 <= j < beads.len() && #[trigger] beads[j].id == link.child && belongs_to(
                beads,
                j,
                link.parent,
            ),
{
    let named = explicit(beads);
    lemma_explicit_contains(beads, link);
    lemma_inferred_contains(named, named, link);
    lemma_contains_add(explicit_links(beads), inferred_links(named, named), link);
    assert forall|j: int| 0 <= j < beads.len() implies #[trigger] named[j].id == beads[j].id by {}
    if names(beads, link) {
        let j = choose|j: int|
            0 <= j < beads.len() && #[trigger] beads[j].id == link.child && targets(
                beads[j],
                "parent-child"@,
            ).contains(link.parent);
        assert(belongs_to(beads, j, link.parent));
    }
    if implies_link(named, named, link) {
        let j = choose|j: int|
            0 <= j < named.len() && #[trigger] named[j].id == link.child && inferred_parent(
                named,
                named[j],
            ) == Some(link.parent);
        assert(beads[j].id == link.child && belongs_to(beads, j, link.parent));
    }
    if exists|j: int|
        0 <= j < beads.len() && #[trigger] beads[j].id == link.child && belongs_to(
            beads,
            j,
            link.parent,
        ) {
        let j = choose|j: int|
            0 <= j < beads.len() && #[trigger] beads[j].id == link.child && belongs_to(
                beads,
                j,
                link.parent,
            );
        assert(named[j].id == link.child);
    }
}

/// A bead that others belong to lists exactly those; one that none belongs to
/// keeps the list that it had.
pub proof fn children_are_those_that_belong(
    beads: Seq<BeadView>,
    duplicates: Duplicates,
    i: int,
    child: Seq<char>,
)
    requires
        0 <= i < beads.len(),
    ensures
        ({
            let children = resolved(beads, duplicates)[i].children;
            if exists|j: int|
                0 <= j < beads.len() && #[trigger] belongs_to(beads, j, beads[i].id) {
                &&& children is Some
                &&& children->0.contains(child) <==> exists|j: int|
                    0 <= j < beads.len() && beads[j].id == child && #[trigger] belongs_to(
                        beads,
                        j,
                        beads[i].id,
                    )
            } else {
                children == beads[i].children
            }
        }),
{
    let parent = beads[i].id;
    let links = all_links(beads);
    lemma_children_contains(links, parent, child);
    lemma_all_links_contains(beads, Link { parent, child });
    assert(explicit(beads)[i].id == parent);
    if children_of(links, parent).len() > 0 {
        let first = children_of(links, parent)[0];
        assert(children_of(links, parent).contains(first));
        lemma_children_contains(links, parent, first);
        lemma_all_links_contains(beads, Link { parent, child: first });
        let j = choose|j: int|
            0 <= j < beads.len() && #[trigger] beads[j].id == first && belongs_to(beads, j, parent);
        assert(belongs_to(beads, j, parent));
    }
    if exists|j: int| 0 <= j < beads.len() && #[trigger] belongs_to(beads, j, parent) {
        let j = choose|j: int| 0 <= j < beads.len() && #[trigger] belongs_to(beads, j, parent);
        lemma_children_contains(links, parent, beads[j].id);
        lemma_all_links_contains(beads, Link { parent, child: beads[j].id });
    }
}

proof fn lemma_holder_exists(beads: Seq<BeadView>, duplicates: Duplicates, i: int) -> (k: int)
    requires
        0 <= i < beads.len(),
    ensures
        0 <= k < beads.len(),
        beads[k].id == beads[i].id,
        duplicates.holds(beads, k),
    decreases
            match duplicates {
                Duplicates::First => i,
                Duplicates::Last => beads.len() - i,
            },
{
    if duplicates.holds(beads, i) {
        i
    } else {
        match duplicates {
            Duplicates::First => {
                let j = choose|j: int| 0 <= j < i && #[trigger] beads[j].id == beads[i].id;
                lemma_holder_exists(beads, duplicates, j)
            },
            Duplicates::Last => {
                let j = choose|j: int|
                    i < j < beads.len() && #[trigger] beads[j].id == beads[i].id;
                lemma_holder_exists(beads, duplicates, j)
            },
        }
    }
}

/// A bead without a parent whose identifier extends that of another bead by a
/// full stop and more belongs to that bead: a bead with its identifier gets
/// that parent, and every bead with the parent's identifier lists it.
pub proof fn dotted_identifiers_imply_parents(
    beads: Seq<BeadView>,
    duplicates: Duplicates,
    i: int,
    parent: Seq<char>,
)
    requires
        0 <= i < beads.len(),
        beads[i].parent_id is None,
        targets(beads[i], "parent-child"@).len() == 0,
        dotted_prefix(beads[i].id) == Some(parent),
        has_id(beads, parent),
    ensures
        exists|k: int|
            0 <= k < beads.len() && beads[k].id == beads[i].id && (#[trigger] resolved(
                beads,
                duplicates,
            )[k]).parent_id == Some(parent),
        forall|m: int|
            0 <= m < beads.len() && beads[m].id == parent ==> (#[trigger] resolved(
                beads,
                duplicates,
            )[m]).children is Some && resolved(beads, duplicates)[m].children->0.contains(
                beads[i].id,
            ),
{
    let named = explicit(beads);
    assert(named[i] == beads[i]);
    let m = choose|m: int| 0 <= m < beads.len() && #[trigger] beads[m].id == parent;
    assert(named[m].id == parent);
    assert(inferred_parent(named, named[i]) == Some(parent));
    let k = lemma_holder_exists(named, duplicates, i);
    assert(inferred_for(named, named[k].id));
    assert(with_inferred_parent(named, k, duplicates).parent_id == Some(parent));
    assert(resolved(beads, duplicates)[k].parent_id == Some(parent));
    assert(belongs_to(beads, i, parent));
    assert forall|m: int| 0 <= m < beads.len() && beads[m].id == parent implies (
    #[trigger] resolved(beads, duplicates)[m]).children is Some && resolved(
        beads,
        duplicates,
    )[m].children->0.contains(beads[i].id) by {
        children_are_those_that_belong(beads, duplicates, m, beads[i].id);
    }
}

/// Whether the bead at `i` gets the parent that the identifier of another bead
/// implies, because both have that identifier and it stands for it.
pub open spec fn takes_anothers_parent(
    beads: Seq<BeadView>,
    duplicates: Duplicates,
    i: int,
) -> bool {
    duplicates.holds(explicit(beads), i) && inferred_for(explicit(beads), beads[i].id)
}

/// A bead that names a parent with an edge has that parent, whatever its
/// identifier implies; where it names several, it has the last. Only where
/// identifiers are shared can it get another.
pub proof fn named_parents_win(beads: Seq<BeadView>, duplicates: Duplicates, i: int)
    requires
        0 <= i < beads.len(),
        targets(beads[i], "parent-child"@).len() > 0,
    ensures
        resolved(beads, duplicates)[i].parent_id == if takes_anothers_parent(
            beads,
            duplicates,
            i,
        ) {
            dotted_prefix(beads[i].id)
        } else {
            Some(targets(beads[i], "parent-child"@).last())
        },
        takes_anothers_parent(beads, duplicates, i) ==> exists|j: int|
            0 <= j < beads.len() && j != i && #[trigger] beads[j].id == beads[i].id,
{
    let named = explicit(beads);
    assert forall|j: int| 0 <= j < beads.len() implies #[trigger] named[j].id == beads[j].id by {}
    if inferred_for(named, named[i].id) {
        let j = choose|j: int|
            0 <= j < named.len() && #[trigger] named[j].id == named[i].id && inferred_parent(
                named,
                named[j],
            ) is Some;
        assert(beads[j].id == beads[i].id);
    }
}

/// The backends agree wherever identifiers are unique. Where they are shared,
/// the backends agree exactly when each bead that only one of them lets stand
/// for an identifier already has the parent that is inferred for it.
pub proof fn backends_resolve_alike(beads: Seq<BeadView>)
    ensures
        unique_ids(beads) ==> resolved(beads, Duplicates::First) == resolved(
            beads,
            Duplicates::Last,
        ),
        resolved(beads, Duplicates::First) == resolved(beads, Duplicates::Last) <==> forall|i: int|
            0 <= i < beads.len() && inferred_for(explicit(beads), beads[i].id)
                && #[trigger] Duplicates::First.holds(explicit(beads), i)
                != Duplicates::Last.holds(explicit(beads), i) ==> explicit(beads)[i].parent_id
                == dotted_prefix(beads[i].id),
{
    let named = explicit(beads);
    let first = resolved(beads, Duplicates::First);
    let last = resolved(beads, Duplicates::Last);
    assert forall|j: int| 0 <= j < beads.len() implies #[trigger] named[j].id == beads[j].id by {}
    assert forall|i: int| 0 <= i < beads.len() implies (#[trigger] first[i] == last[i]
        <==> with_inferred_parent(named, i, Duplicates::First) == with_inferred_parent(
        named,
        i,
        Duplicates::Last,
    )) by {
        assert(first[i].parent_id == with_inferred_parent(named, i, Duplicates::First).parent_id);
        assert(last[i].parent_id == with_inferred_parent(named, i, Duplicates::Last).parent_id);
    }
    if unique_ids(beads) {
        assert forall|i: int| 0 <= i < beads.len() implies #[trigger] Duplicates::First.holds(
            named,
            i,
        ) && Duplicates::Last.holds(named, i) by {
            assert forall|j: int| 0 <= j < i implies #[trigger] named[j].id != named[i].id by {
                assert(beads[j].id != beads[i].id);
            }
            assert forall|j: int|
                i < j < named.len() implies #[trigger] named[j].id != named[i].id by {
                assert(beads[j].id != beads[i].id);
            }
        }
    }
    if forall|i: int|
        0 <= i < beads.len() && inferred_for(named, beads[i].id)
            && #[trigger] Duplicates::First.holds(named, i) != Duplicates::Last.holds(named, i)
            ==> named[i].parent_id == dotted_prefix(beads[i].id) {
        assert forall|i: int| 0 <= i < beads.len() implies first[i] == last[i] by {
            if inferred_for(named, beads[i].id) && !Duplicates::First.holds(named, i) {
                assert(Duplicates::Last.holds(named, i) ==> named[i].parent_id == dotted_prefix(
                    beads[i].id,
                ));
            }
        }
        assert(first =~= last);
    }
    if first == last {
        assert forall|i: int|
            0 <= i < beads.len() && inferred_for(named, beads[i].id)
                && #[trigger] Duplicates::First.holds(named, i) != Duplicates::Last.holds(
                named,
                i,
            ) implies named[i].parent_id == dotted_prefix(beads[i].id) by {
            assert(first[i] == last[i]);
        }
    }
}

/// A bead is found by its identifier exactly where one of the beads has it.
pub proof fn beads_are_found_by_identifier(beads: Seq<BeadView>, id: Seq<char>)
    ensures
        has_id(beads, id) <==> exists|i: int| 0 <= i < beads.len() && (#[trigger] beads[i]).id == id,
{
    if exists|i: int| 0 <= i < beads.len() && (#[trigger] beads[i]).id == id {
        let i = choose|i: int| 0 <= i < beads.len() && (#[trigger] beads[i]).id == id;
        assert(beads[i].id == id);
    }
}

} // verus!
