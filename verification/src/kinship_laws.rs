//! What the relationships of beads are, told by their stored edges and their
//! identifiers alone.

use vstd::prelude::*;

use crate::beads::{BeadView, DependencyView};
use crate::relations::{
    all_links, bead_links, children_of, explicit, explicit_links, has_id, inferred_for,
    inferred_links, inferred_parent, lemma_children_push, resolved, targets, with_explicit_parent,
    with_inferred_parent, Duplicates, Link,
};
use crate::selection::{filter_selects, selects};
use crate::text::{dotted_prefix, last_dot, last_dot_is_last};
use crate::text_laws::dotted_prefixes_reach_to_the_last_full_stop;

verus! {

/// The stored edges of the bead.
pub open spec fn edges_of(bead: BeadView) -> Seq<DependencyView> {
    match bead.dependencies {
        Some(edges) => edges,
        None => Seq::empty(),
    }
}

/// Whether `places` are exactly the places of the edges with the type `kind`,
/// in order.
pub open spec fn are_edges_of_type(
    edges: Seq<DependencyView>,
    kind: Seq<char>,
    places: Seq<int>,
) -> bool {
    selects(edges, |d: DependencyView| d.dep_type == kind, places)
}

// ---------------------------------------------------------------------------
// Related beads
// ---------------------------------------------------------------------------

/// A bead shows as related exactly the targets of its `relates-to` edges: each
/// of them, in the order of the edges, and no others. A bead without such an
/// edge keeps the list that it had.
pub proof fn every_relates_to_edge_is_shown(
    beads: Seq<BeadView>,
    duplicates: Duplicates,
    i: int,
)
    requires
        0 <= i < beads.len(),
    ensures
        ({
            let edges = edges_of(beads[i]);
            let related = resolved(beads, duplicates)[i].relates_to;
            &&& forall|k: int|
                0 <= k < edges.len() && (#[trigger] edges[k]).dep_type == "relates-to"@
                    ==> related is Some && related->0.contains(edges[k].depends_on_id)
            &&& (exists|k: int|
                0 <= k < edges.len() && (#[trigger] edges[k]).dep_type == "relates-to"@)
                ==> exists|places: Seq<int>| #[trigger]
                are_edges_of_type(edges, "relates-to"@, places)
                    && related == Some(
                    Seq::new(places.len(), |n: int| edges[places[n]].depends_on_id),
                )
            &&& (forall|k: int|
                0 <= k < edges.len() ==> (#[trigger] edges[k]).dep_type != "relates-to"@)
                ==> related == beads[i].relates_to
        }),
{
    let edges = edges_of(beads[i]);
    let wanted = |d: DependencyView| d.dep_type == "relates-to"@;
    let related = resolved(beads, duplicates)[i].relates_to;
    let places = filter_selects(edges, wanted);
    let shown = Seq::new(places.len(), |n: int| edges[places[n]].depends_on_id);
    assert(targets(beads[i], "relates-to"@) =~= shown);
    assert(are_edges_of_type(edges, "relates-to"@, places));
    if places.len() > 0 {
        assert(wanted(edges[places[0]]));
    }
    assert forall|k: int|
        0 <= k < edges.len() && (#[trigger] edges[k]).dep_type == "relates-to"@ implies related
        is Some && related->0.contains(edges[k].depends_on_id) by {
        assert(wanted(edges[k]));
        let n = choose|n: int| 0 <= n < places.len() && places[n] == k;
        assert(shown[n] == edges[k].depends_on_id);
    }
}

// ---------------------------------------------------------------------------
// Parents
// ---------------------------------------------------------------------------

/// Whether the last `parent-child` edge of the bead has the target `parent`.
pub open spec fn names_parent(bead: BeadView, parent: Seq<char>) -> bool {
    exists|k: int| #[trigger] is_last_parent_edge(edges_of(bead), k) && edges_of(bead)[k].depends_on_id
        == parent
}

/// Whether the edge at `k` is the last `parent-child` edge.
pub open spec fn is_last_parent_edge(edges: Seq<DependencyView>, k: int) -> bool {
    &&& 0 <= k < edges.len()
    &&& edges[k].dep_type == "parent-child"@
    &&& forall|m: int| k < m < edges.len() ==> (#[trigger] edges[m]).dep_type != "parent-child"@
}

/// Whether the bead has no `parent-child` edge.
pub open spec fn names_no_parent(bead: BeadView) -> bool {
    forall|k: int|
        0 <= k < edges_of(bead).len() ==> (#[trigger] edges_of(bead)[k]).dep_type
            != "parent-child"@
}

/// Whether the bead neither names a parent nor has one stored.
pub open spec fn is_orphan(bead: BeadView) -> bool {
    names_no_parent(bead) && bead.parent_id is None
}

/// Whether `id` is `parent`, a full stop, and more without a full stop.
pub open spec fn extends_id(id: Seq<char>, parent: Seq<char>) -> bool {
    &&& parent.len() < id.len()
    &&& parent == id.take(parent.len() as int)
    &&& id[parent.len() as int] == '.'
    &&& forall|m: int| parent.len() < m < id.len() ==> id[m] != '.'
}

/// Whether the bead at `i` is the first or the last with its identifier, as
/// `duplicates` says.
pub open spec fn stands(beads: Seq<BeadView>, duplicates: Duplicates, i: int) -> bool {
    match duplicates {
        Duplicates::First => forall|j: int| 0 <= j < i ==> (#[trigger] beads[j]).id != beads[i].id,
        Duplicates::Last => forall|j: int|
            i < j < beads.len() ==> (#[trigger] beads[j]).id != beads[i].id,
    }
}

/// Whether the bead at `i` gets the parent `parent` by its identifier: that
/// extends the identifier of a bead, an orphan has it, and the bead at `i`
/// stands for it.
pub open spec fn gets_parent(
    beads: Seq<BeadView>,
    duplicates: Duplicates,
    i: int,
    parent: Seq<char>,
) -> bool {
    &&& stands(beads, duplicates, i)
    &&& extends_id(beads[i].id, parent)
    &&& exists|m: int| 0 <= m < beads.len() && (#[trigger] beads[m]).id == parent
    &&& exists|j: int|
        0 <= j < beads.len() && (#[trigger] beads[j]).id == beads[i].id && is_orphan(beads[j])
}

proof fn lemma_targets_last(bead: BeadView)
    ensures
        targets(bead, "parent-child"@).len() == 0 <==> names_no_parent(bead),
        targets(bead, "parent-child"@).len() > 0 ==> names_parent(
            bead,
            targets(bead, "parent-child"@).last(),
        ),
{
    let edges = edges_of(bead);
    let wanted = |d: DependencyView| d.dep_type == "parent-child"@;
    let places = filter_selects(edges, wanted);
    let parents = targets(bead, "parent-child"@);
    assert(parents =~= Seq::new(places.len(), |n: int| edges[places[n]].depends_on_id));
    if places.len() > 0 {
        let n = places.len() - 1;
        let k = places[n];
        assert(wanted(edges[k]));
        assert forall|m: int| k < m < edges.len() implies (#[trigger] edges[m]).dep_type
            != "parent-child"@ by {
            if wanted(edges[m]) {
                let p = choose|p: int| 0 <= p < places.len() && places[p] == m;
                if p < n {
                    assert(places[p] < places[n]);
                }
            }
        }
        assert(is_last_parent_edge(edges, k));
        assert(!names_no_parent(bead));
    } else {
        assert forall|k: int| 0 <= k < edges.len() implies (#[trigger] edges[k]).dep_type
            != "parent-child"@ by {
            if wanted(edges[k]) {
                assert(places.contains(k));
            }
        }
    }
}

proof fn lemma_names_one(bead: BeadView, a: Seq<char>, b: Seq<char>)
    requires
        names_parent(bead, a),
        names_parent(bead, b),
    ensures
        a == b,
{
    let edges = edges_of(bead);
    let k = choose|k: int| #[trigger] is_last_parent_edge(edges, k) && edges[k].depends_on_id == a;
    let m = choose|m: int| #[trigger] is_last_parent_edge(edges, m) && edges[m].depends_on_id == b;
    if k < m {
        assert(edges[m].dep_type != "parent-child"@);
    }
    if m < k {
        assert(edges[k].dep_type != "parent-child"@);
    }
}

proof fn lemma_extends(id: Seq<char>, parent: Seq<char>)
    ensures
        dotted_prefix(id) == Some(parent) <==> extends_id(id, parent),
{
    last_dot_is_last(id);
    if extends_id(id, parent) {
        dotted_prefixes_reach_to_the_last_full_stop(id, parent.len() as int);
    }
    if dotted_prefix(id) == Some(parent) {
        assert(parent.len() == last_dot(id));
    }
}

proof fn lemma_inferred(beads: Seq<BeadView>, j: int, parent: Seq<char>)
    requires
        0 <= j < beads.len(),
    ensures
        inferred_parent(explicit(beads), explicit(beads)[j]) == Some(parent) <==> is_orphan(
            beads[j],
        ) && extends_id(beads[j].id, parent) && exists|m: int|
            0 <= m < beads.len() && (#[trigger] beads[m]).id == parent,
{
    let named = explicit(beads);
    assert(named[j] == with_explicit_parent(beads[j]));
    lemma_targets_last(beads[j]);
    lemma_extends(beads[j].id, parent);
    if has_id(named, parent) {
        let m = choose|m: int| 0 <= m < named.len() && #[trigger] named[m].id == parent;
        assert(beads[m].id == parent);
    }
    if exists|m: int| 0 <= m < beads.len() && (#[trigger] beads[m]).id == parent {
        let m = choose|m: int| 0 <= m < beads.len() && (#[trigger] beads[m]).id == parent;
        assert(named[m].id == parent);
    }
}

proof fn lemma_stands(beads: Seq<BeadView>, duplicates: Duplicates, i: int)
    requires
        0 <= i < beads.len(),
    ensures
        duplicates.holds(explicit(beads), i) == stands(beads, duplicates, i),
{
    let named = explicit(beads);
    assert forall|j: int| 0 <= j < beads.len() implies #[trigger] named[j].id == beads[j].id by {}
    match duplicates {
        Duplicates::First => {
            if duplicates.holds(named, i) {
                assert forall|j: int| 0 <= j < i implies (#[trigger] beads[j]).id
                    != beads[i].id by {
                    assert(named[j].id != named[i].id);
                }
            }
            if stands(beads, duplicates, i) {
                assert forall|j: int| 0 <= j < i implies (#[trigger] named[j]).id
                    != named[i].id by {
                    assert(beads[j].id != beads[i].id);
                }
            }
        },
        Duplicates::Last => {
            if duplicates.holds(named, i) {
                assert forall|j: int| i < j < beads.len() implies (#[trigger] beads[j]).id
                    != beads[i].id by {
                    assert(named[j].id != named[i].id);
                }
            }
            if stands(beads, duplicates, i) {
                assert forall|j: int| i < j < named.len() implies (#[trigger] named[j]).id
                    != named[i].id by {
                    assert(beads[j].id != beads[i].id);
                }
            }
        },
    }
}

/// Every bead has the parent that it gets by its identifier; otherwise the one
/// that its last `parent-child` edge names; otherwise the one that was stored
/// with it.
pub proof fn parents_are_implied_named_or_stored(
    beads: Seq<BeadView>,
    duplicates: Duplicates,
    i: int,
)
    requires
        0 <= i < beads.len(),
    ensures
        ({
            let parent_id = resolved(beads, duplicates)[i].parent_id;
            &&& forall|p: Seq<char>| #[trigger]
                gets_parent(beads, duplicates, i, p) ==> parent_id == Some(p)
            &&& (forall|p: Seq<char>| !#[trigger] gets_parent(beads, duplicates, i, p)) ==> {
                &&& forall|p: Seq<char>| #[trigger]
                    names_parent(beads[i], p) ==> parent_id == Some(p)
                &&& names_no_parent(beads[i]) ==> parent_id == beads[i].parent_id
            }
        }),
{
    let named = explicit(beads);
    let parent_id = resolved(beads, duplicates)[i].parent_id;
    assert(parent_id == with_inferred_parent(named, i, duplicates).parent_id);
    assert(named[i] == with_explicit_parent(beads[i]));
    lemma_stands(beads, duplicates, i);
    lemma_targets_last(beads[i]);
    assert forall|p: Seq<char>| #[trigger] gets_parent(beads, duplicates, i, p) implies parent_id
        == Some(p) by {
        let j = choose|j: int|
            0 <= j < beads.len() && (#[trigger] beads[j]).id == beads[i].id && is_orphan(beads[j]);
        lemma_inferred(beads, j, p);
        assert(named[j].id == named[i].id);
        assert(inferred_for(named, named[i].id));
        lemma_extends(beads[i].id, p);
    }
    if forall|p: Seq<char>| !#[trigger] gets_parent(beads, duplicates, i, p) {
        if duplicates.holds(named, i) && inferred_for(named, named[i].id) {
            let j = choose|j: int|
                0 <= j < named.len() && #[trigger] named[j].id == named[i].id && inferred_parent(
                    named,
                    named[j],
                ) is Some;
            let p = inferred_parent(named, named[j])->0;
            lemma_inferred(beads, j, p);
            assert(beads[j].id == beads[i].id);
            assert(gets_parent(beads, duplicates, i, p));
        }
        assert forall|p: Seq<char>| #[trigger] names_parent(beads[i], p) implies parent_id
            == Some(p) by {
            let k = choose|k: int|
                #[trigger] is_last_parent_edge(edges_of(beads[i]), k)
                    && edges_of(beads[i])[k].depends_on_id == p;
            assert(!names_no_parent(beads[i]));
            lemma_names_one(beads[i], p, targets(beads[i], "parent-child"@).last());
        }
    }
}

// ---------------------------------------------------------------------------
// Children
// ---------------------------------------------------------------------------

/// The edge at `edge` of the bead at `bead`.
pub struct Place {
    pub bead: int,
    pub edge: int,
}

/// Whether the edge at `place` is a `parent-child` edge with the target
/// `parent`.
pub open spec fn is_child_edge(beads: Seq<BeadView>, parent: Seq<char>, place: Place) -> bool {
    &&& 0 <= place.bead < beads.len()
    &&& 0 <= place.edge < edges_of(beads[place.bead]).len()
    &&& edges_of(beads[place.bead])[place.edge].dep_type == "parent-child"@
    &&& edges_of(beads[place.bead])[place.edge].depends_on_id == parent
}

/// Whether `a` comes before `b`.
pub open spec fn comes_before(a: Place, b: Place) -> bool {
    a.bead < b.bead || (a.bead == b.bead && a.edge < b.edge)
}

/// Whether `places` are exactly the `parent-child` edges with the target
/// `parent`, in order.
pub open spec fn are_child_edges(
    beads: Seq<BeadView>,
    parent: Seq<char>,
    places: Seq<Place>,
) -> bool {
    &&& forall|m: int, n: int|
        0 <= m < n < places.len() ==> comes_before(#[trigger] places[m], #[trigger] places[n])
    &&& forall|n: int|
        0 <= n < places.len() ==> is_child_edge(beads, parent, #[trigger] places[n])
    &&& forall|place: Place| #[trigger]
        is_child_edge(beads, parent, place) ==> places.contains(place)
}

/// Whether `heirs` are exactly the places of the orphans whose identifiers
/// extend `parent`, in order.
pub open spec fn are_heirs(beads: Seq<BeadView>, parent: Seq<char>, heirs: Seq<int>) -> bool {
    selects(beads, |b: BeadView| is_orphan(b) && extends_id(b.id, parent), heirs)
}

proof fn lemma_children_add(a: Seq<Link>, b: Seq<Link>, parent: Seq<char>)
    ensures
        children_of(a + b, parent) == children_of(a, parent) + children_of(b, parent),
    decreases b.len(),
{
    if b.len() == 0 {
        reveal(Seq::filter);
        assert(a + b =~= a);
        assert(children_of(a, parent) + children_of(b, parent) =~= children_of(a, parent));
    } else {
        let rest = b.drop_last();
        lemma_children_add(a, rest, parent);
        assert(a + b =~= (a + rest).push(b.last()));
        assert(b =~= rest.push(b.last()));
        lemma_children_push(a + rest, b.last(), parent);
        lemma_children_push(rest, b.last(), parent);
        assert(children_of(a + b, parent) =~= children_of(a, parent) + children_of(b, parent));
    }
}

proof fn lemma_links_of_one(id: Seq<char>, parents: Seq<Seq<char>>, parent: Seq<char>)
    ensures
        children_of(
            parents.map_values(|p: Seq<char>| Link { parent: p, child: id }),
            parent,
        ) == Seq::new(
            parents.filter(|p: Seq<char>| p == parent).len(),
            |n: int| id,
        ),
    decreases parents.len(),
{
    reveal(Seq::filter);
    let links = parents.map_values(|p: Seq<char>| Link { parent: p, child: id });
    let wanted = |p: Seq<char>| p == parent;
    if parents.len() == 0 {
        assert(children_of(links, parent) =~= Seq::new(parents.filter(wanted).len(), |n: int| id));
    } else {
        let rest = parents.drop_last();
        lemma_links_of_one(id, rest, parent);
        let rest_links = rest.map_values(|p: Seq<char>| Link { parent: p, child: id });
        assert(links =~= rest_links.push(Link { parent: parents.last(), child: id }));
        lemma_children_push(rest_links, Link { parent: parents.last(), child: id }, parent);
        assert(children_of(links, parent) =~= Seq::new(parents.filter(wanted).len(), |n: int| id));
    }
}

/// The edges of one bead that make it a child of `parent`.
proof fn lemma_edges_of_one(bead: BeadView, parent: Seq<char>) -> (ks: Seq<int>)
    ensures
        selects(
            edges_of(bead),
            |d: DependencyView| d.dep_type == "parent-child"@ && d.depends_on_id == parent,
            ks,
        ),
        children_of(bead_links(bead), parent) == Seq::new(ks.len(), |n: int| bead.id),
{
    let edges = edges_of(bead);
    let wanted = |d: DependencyView| d.dep_type == "parent-child"@;
    let places = filter_selects(edges, wanted);
    let parents = targets(bead, "parent-child"@);
    assert(parents =~= Seq::new(places.len(), |n: int| edges[places[n]].depends_on_id));
    let same = |p: Seq<char>| p == parent;
    let hits = filter_selects(parents, same);
    let ks = Seq::new(hits.len(), |n: int| places[hits[n]]);
    let both = |d: DependencyView| d.dep_type == "parent-child"@ && d.depends_on_id == parent;
    assert forall|m: int, n: int| 0 <= m < n < ks.len() implies #[trigger] ks[m]
        < #[trigger] ks[n] by {
        assert(hits[m] < hits[n]);
        assert(places[hits[m]] < places[hits[n]]);
    }
    assert forall|n: int| 0 <= n < ks.len() implies 0 <= #[trigger] ks[n] < edges.len() && both(
        edges[ks[n]],
    ) by {
        assert(same(parents[hits[n]]));
        assert(wanted(edges[places[hits[n]]]));
    }
    assert forall|k: int| 0 <= k < edges.len() && both(#[trigger] edges[k]) implies ks.contains(
        k,
    ) by {
        assert(wanted(edges[k]));
        let m = choose|m: int| 0 <= m < places.len() && places[m] == k;
        assert(same(parents[m]));
        let n = choose|n: int| 0 <= n < hits.len() && hits[n] == m;
        assert(ks[n] == k);
    }
    lemma_links_of_one(bead.id, parents, parent);
    assert(bead_links(bead) =~= parents.map_values(
        |p: Seq<char>| Link { parent: p, child: bead.id },
    ));
    assert(children_of(bead_links(bead), parent) =~= Seq::new(ks.len(), |n: int| bead.id));
    ks
}

proof fn lemma_explicit_children(beads: Seq<BeadView>, parent: Seq<char>) -> (places: Seq<Place>)
    ensures
        are_child_edges(beads, parent, places),
        children_of(explicit_links(beads), parent) == Seq::new(
            places.len(),
            |n: int| beads[places[n].bead].id,
        ),
    decreases beads.len(),
{
    if beads.len() == 0 {
        reveal(Seq::filter);
        let places = Seq::<Place>::empty();
        assert(children_of(explicit_links(beads), parent) =~= Seq::new(
            places.len(),
            |n: int| beads[places[n].bead].id,
        ));
        places
    } else {
        let rest = beads.drop_last();
        let last = beads.last();
        let at = beads.len() - 1;
        let earlier = lemma_explicit_children(rest, parent);
        let ks = lemma_edges_of_one(last, parent);
        let own = Seq::new(ks.len(), |n: int| Place { bead: at, edge: ks[n] });
        let places = earlier + own;
        assert forall|n: int| 0 <= n < places.len() implies is_child_edge(
            beads,
            parent,
            #[trigger] places[n],
        ) by {
            if n < earlier.len() {
                assert(is_child_edge(rest, parent, earlier[n]));
                assert(rest[earlier[n].bead] == beads[earlier[n].bead]);
            } else {
                let k = ks[n - earlier.len()];
                assert(places[n] == Place { bead: at, edge: k });
            }
        }
        assert forall|m: int, n: int| 0 <= m < n < places.len() implies comes_before(
            #[trigger] places[m],
            #[trigger] places[n],
        ) by {
            if n < earlier.len() {
                assert(comes_before(earlier[m], earlier[n]));
            } else if m < earlier.len() {
                assert(is_child_edge(rest, parent, earlier[m]));
            } else {
                assert(ks[m - earlier.len()] < ks[n - earlier.len()]);
            }
        }
        assert forall|place: Place| #[trigger] is_child_edge(
            beads,
            parent,
            place,
        ) implies places.contains(place) by {
            if place.bead < at {
                assert(rest[place.bead] == beads[place.bead]);
                assert(is_child_edge(rest, parent, place));
                let n = choose|n: int| 0 <= n < earlier.len() && earlier[n] == place;
                assert(places[n] == place);
            } else {
                let edge = edges_of(last)[place.edge];
                assert(edge.dep_type == "parent-child"@);
                let n = choose|n: int| 0 <= n < ks.len() && ks[n] == place.edge;
                assert(places[earlier.len() + n] == place);
            }
        }
        lemma_children_add(explicit_links(rest), bead_links(last), parent);
        assert(children_of(explicit_links(beads), parent) =~= Seq::new(
            places.len(),
            |n: int| beads[places[n].bead].id,
        )) by {
            assert forall|n: int| 0 <= n < earlier.len() implies rest[(
            #[trigger] earlier[n]).bead] == beads[earlier[n].bead] by {
                assert(is_child_edge(rest, parent, earlier[n]));
            }
        }
        places
    }
}

proof fn lemma_inferred_children(
    beads: Seq<BeadView>,
    part: Seq<BeadView>,
    parent: Seq<char>,
) -> (heirs: Seq<int>)
    ensures
        selects(part, |b: BeadView| inferred_parent(beads, b) == Some(parent), heirs),
        children_of(inferred_links(beads, part), parent) == Seq::new(
            heirs.len(),
            |n: int| part[heirs[n]].id,
        ),
    decreases part.len(),
{
    let wanted = |b: BeadView| inferred_parent(beads, b) == Some(parent);
    if part.len() == 0 {
        reveal(Seq::filter);
        let heirs = Seq::<int>::empty();
        assert(children_of(inferred_links(beads, part), parent) =~= Seq::new(
            heirs.len(),
            |n: int| part[heirs[n]].id,
        ));
        heirs
    } else {
        let rest = part.drop_last();
        let last = part.last();
        let at = part.len() - 1;
        let earlier = lemma_inferred_children(beads, rest, parent);
        let heirs = if wanted(last) {
            earlier.push(at)
        } else {
            earlier
        };
        match inferred_parent(beads, last) {
            Some(p) => {
                lemma_children_push(
                    inferred_links(beads, rest),
                    Link { parent: p, child: last.id },
                    parent,
                );
            },
            None => {},
        }
        assert forall|k: int| 0 <= k < part.len() && wanted(#[trigger] part[k]) implies
            heirs.contains(k) by {
            if k < at {
                assert(wanted(rest[k]));
                let n = choose|n: int| 0 <= n < earlier.len() && earlier[n] == k;
                assert(heirs[n] == k);
            } else {
                assert(heirs[heirs.len() - 1] == k);
            }
        }
        assert(children_of(inferred_links(beads, part), parent) =~= Seq::new(
            heirs.len(),
            |n: int| part[heirs[n]].id,
        ));
        heirs
    }
}

/// A bead lists as children first the beads whose `parent-child` edges name
/// it, once for each such edge and in their order, then the orphans whose
/// identifiers extend its own, in their order. Without any it keeps the list
/// that it had.
pub proof fn children_are_all_and_in_order(
    beads: Seq<BeadView>,
    duplicates: Duplicates,
    i: int,
)
    requires
        0 <= i < beads.len(),
    ensures
        exists|places: Seq<Place>, heirs: Seq<int>|
            #![trigger are_child_edges(beads, beads[i].id, places), are_heirs(beads, beads[i].id, heirs)]
            {
                &&& are_child_edges(beads, beads[i].id, places)
                &&& are_heirs(beads, beads[i].id, heirs)
                &&& resolved(beads, duplicates)[i].children == if places.len() + heirs.len() == 0 {
                    beads[i].children
                } else {
                    Some(
                        Seq::new(places.len(), |n: int| beads[places[n].bead].id) + Seq::new(
                            heirs.len(),
                            |n: int| beads[heirs[n]].id,
                        ),
                    )
                }
            },
{
    let named = explicit(beads);
    let parent = beads[i].id;
    let places = lemma_explicit_children(beads, parent);
    let heirs = lemma_inferred_children(named, named, parent);
    lemma_children_add(explicit_links(beads), inferred_links(named, named), parent);
    let orphaned = |b: BeadView| is_orphan(b) && extends_id(b.id, parent);
    assert forall|k: int| 0 <= k < beads.len() implies orphaned(#[trigger] beads[k]) == (
    inferred_parent(named, named[k]) == Some(parent)) by {
        lemma_inferred(beads, k, parent);
        assert(beads[i].id == parent);
    }
    assert(are_heirs(beads, parent, heirs)) by {
        assert forall|n: int| 0 <= n < heirs.len() implies 0 <= #[trigger] heirs[n] < beads.len()
            && orphaned(beads[heirs[n]]) by {
            assert(inferred_parent(named, named[heirs[n]]) == Some(parent));
        }
        assert forall|k: int| 0 <= k < beads.len() && orphaned(#[trigger] beads[k]) implies
            heirs.contains(k) by {
            assert(inferred_parent(named, named[k]) == Some(parent));
        }
    }
    let first = Seq::new(places.len(), |n: int| beads[places[n].bead].id);
    let second = Seq::new(heirs.len(), |n: int| beads[heirs[n]].id);
    assert(Seq::new(heirs.len(), |n: int| named[heirs[n]].id) =~= second) by {
        assert forall|n: int| 0 <= n < heirs.len() implies named[#[trigger] heirs[n]].id
            == beads[heirs[n]].id by {}
    }
    assert(children_of(all_links(beads), parent) == first + second);
    assert(named[i].id == parent);
    assert(are_child_edges(beads, beads[i].id, places));
}

} // verus!
