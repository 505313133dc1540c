//! Parent, child and related-to relationships between beads.

use vstd::hash_map::StringHashMap;
use vstd::prelude::*;

use crate::beads::{copy_strings, Bead, BeadView, Dependency, DependencyView};
use crate::text::{dotted_prefix, dotted_prefix_text};

verus! {

/// The targets of the edges of `bead` that have the type `kind`, in order.
pub open spec fn targets(bead: BeadView, kind: Seq<char>) -> Seq<Seq<char>> {
    bead.dependency_list().filter(|d: DependencyView| d.dep_type == kind).map_values(
        |d: DependencyView| d.depends_on_id,
    )
}

/// One "belongs to" relationship.
pub struct Link {
    pub parent: Seq<char>,
    pub child: Seq<char>,
}

/// The children that `links` give to `parent`, in order.
pub open spec fn children_of(links: Seq<Link>, parent: Seq<char>) -> Seq<Seq<char>> {
    links.filter(|l: Link| l.parent == parent).map_values(|l: Link| l.child)
}

pub proof fn lemma_children_push(links: Seq<Link>, link: Link, parent: Seq<char>)
    ensures
        children_of(links.push(link), parent) == if link.parent == parent {
            children_of(links, parent).push(link.child)
        } else {
            children_of(links, parent)
        },
{
    reveal(Seq::filter);
    assert(links.push(link).drop_last() == links);
}

/// The children of each parent, in the order in which they were recorded.
struct ChildTable {
    slots: StringHashMap<usize>,
    groups: Vec<Vec<String>>,
    links: Ghost<Seq<Link>>,
}

impl ChildTable {
    spec fn wf(&self) -> bool {
        &&& forall|p: Seq<char>|
            #![trigger self.slots@.contains_key(p)]
            self.slots@.contains_key(p) <==> children_of(self.links@, p).len() > 0
        &&& forall|p: Seq<char>|
            #![trigger self.slots@[p]]
            self.slots@.contains_key(p) ==> self.slots@[p] < self.groups@.len()
                && self.groups@[self.slots@[p] as int].deep_view() == children_of(self.links@, p)
        &&& forall|p: Seq<char>, q: Seq<char>|
            #![trigger self.slots@[p], self.slots@[q]]
            self.slots@.contains_key(p) && self.slots@.contains_key(q) && p != q
                ==> self.slots@[p] != self.slots@[q]
    }

    fn new() -> (table: Self)
        ensures
            table.wf(),
            table.links@ == Seq::<Link>::empty(),
    {
        let table = ChildTable {
            slots: StringHashMap::new(),
            groups: Vec::new(),
            links: Ghost(Seq::empty()),
        };
        proof {
            reveal(Seq::filter);
        }
        table
    }

    /// Records that `child` belongs to `parent`.
    fn record(&mut self, parent: &String, child: &String)
        requires
            old(self).wf(),
        ensures
            final(self).wf(),
            final(self).links@ == old(self).links@.push(Link { parent: parent@, child: child@ }),
    {
        let ghost before = *self;
        let ghost link = Link { parent: parent@, child: child@ };
        match self.slots.get(parent.as_str()) {
            Some(slot) => {
                let slot: usize = *slot;
                self.groups[slot].push(child.clone());
            },
            None => {
                let slot: usize = self.groups.len();
                let mut group: Vec<String> = Vec::new();
                group.push(child.clone());
                self.groups.push(group);
                self.slots.insert(parent.clone(), slot);
            },
        }
        self.links = Ghost(before.links@.push(link));
        proof {
            assert forall|p: Seq<char>| true implies #[trigger] children_of(self.links@, p) == if p
                == parent@ {
                children_of(before.links@, p).push(child@)
            } else {
                children_of(before.links@, p)
            } by {
                lemma_children_push(before.links@, link, p);
            }
            assert forall|p: Seq<char>|
                #![trigger self.slots@[p]]
                self.slots@.contains_key(p) implies self.slots@[p] < self.groups@.len()
                && self.groups@[self.slots@[p] as int].deep_view() == children_of(
                self.links@,
                p,
            ) by {
                assert(p != parent@ ==> before.slots@.contains_key(p));
                assert(self.groups@[self.slots@[p] as int].deep_view() =~= children_of(
                    self.links@,
                    p,
                ));
            }
        }
    }

    /// The children of `parent`, when it has any.
    fn get(&self, parent: &String) -> (out: Option<&Vec<String>>)
        requires
            self.wf(),
        ensures
            match out {
                Some(children) => children.deep_view() == children_of(self.links@, parent@)
                    && children@.len() > 0,
                None => children_of(self.links@, parent@).len() == 0,
            },
    {
        match self.slots.get(parent.as_str()) {
            Some(slot) => {
                let slot: usize = *slot;
                assert(self.groups@[slot as int].deep_view().len() > 0);
                Some(&self.groups[slot])
            },
            None => None,
        }
    }
}

// ---------------------------------------------------------------------------
// What the relationships are
// ---------------------------------------------------------------------------

/// The bead with the parent that its edges name: the target of the last
/// `parent-child` edge. Without such an edge the bead keeps its parent.
pub open spec fn with_explicit_parent(bead: BeadView) -> BeadView {
    let parents = targets(bead, "parent-child"@);
    if parents.len() > 0 {
        BeadView { parent_id: Some(parents.last()), ..bead }
    } else {
        bead
    }
}

/// One link for each `parent-child` edge of `bead`, in order.
pub open spec fn bead_links(bead: BeadView) -> Seq<Link> {
    targets(bead, "parent-child"@).map_values(
        |parent: Seq<char>| Link { parent, child: bead.id },
    )
}

/// One link for each `parent-child` edge, in the order of the beads.
pub open spec fn explicit_links(beads: Seq<BeadView>) -> Seq<Link>
    decreases beads.len(),
{
    if beads.len() == 0 {
        Seq::empty()
    } else {
        explicit_links(beads.drop_last()) + bead_links(beads.last())
    }
}

/// Whether one of the beads has the identifier `id`.
pub open spec fn has_id(beads: Seq<BeadView>, id: Seq<char>) -> bool {
    exists|i: int| 0 <= i < beads.len() && #[trigger] beads[i].id == id
}

/// The parent that the identifier of `bead` implies: a bead without a parent
/// belongs to the bead named by what stands before the last full stop of its
/// identifier, when there is such a bead.
pub open spec fn inferred_parent(beads: Seq<BeadView>, bead: BeadView) -> Option<Seq<char>> {
    match (bead.parent_id, dotted_prefix(bead.id)) {
        (None, Some(parent)) => if has_id(beads, parent) {
            Some(parent)
        } else {
            None
        },
        _ => None,
    }
}

/// One link for each bead of `part` with an inferred parent among `beads`, in
/// the order of the beads.
pub open spec fn inferred_links(beads: Seq<BeadView>, part: Seq<BeadView>) -> Seq<Link>
    decreases part.len(),
{
    if part.len() == 0 {
        Seq::empty()
    } else {
        let rest = inferred_links(beads, part.drop_last());
        match inferred_parent(beads, part.last()) {
            Some(parent) => rest.push(Link { parent, child: part.last().id }),
            None => rest,
        }
    }
}

/// Which of several beads with the same identifier stands for it.
#[derive(Debug, Clone, Copy, PartialEq, Eq)]
pub enum Duplicates {
    /// The one that comes first.
    First,
    /// The one that comes last.
    Last,
}

impl Duplicates {
    /// Whether the bead at `i` stands for its identifier.
    pub open spec fn holds(self, beads: Seq<BeadView>, i: int) -> bool {
        match self {
            Duplicates::First => forall|j: int| 0 <= j < i ==> #[trigger] beads[j].id != beads[i].id,
            Duplicates::Last => forall|j: int|
                i < j < beads.len() ==> #[trigger] beads[j].id != beads[i].id,
        }
    }
}

/// Whether some bead with the identifier `id` has an inferred parent.
pub open spec fn inferred_for(beads: Seq<BeadView>, id: Seq<char>) -> bool {
    exists|j: int|
        0 <= j < beads.len() && #[trigger] beads[j].id == id && inferred_parent(
            beads,
            beads[j],
        ) is Some
}

/// The bead at `i` with its inferred parent. Where several beads share an
/// identifier, the one that stands for it gets the parent inferred for any of
/// them.
pub open spec fn with_inferred_parent(
    beads: Seq<BeadView>,
    i: int,
    duplicates: Duplicates,
) -> BeadView {
    if duplicates.holds(beads, i) && inferred_for(beads, beads[i].id) {
        BeadView { parent_id: dotted_prefix(beads[i].id), ..beads[i] }
    } else {
        beads[i]
    }
}

/// The bead with the children that `links` give it; without any it keeps its
/// own list.
pub open spec fn with_children(bead: BeadView, links: Seq<Link>) -> BeadView {
    if children_of(links, bead.id).len() > 0 {
        BeadView { children: Some(children_of(links, bead.id)), ..bead }
    } else {
        bead
    }
}

/// The bead with the targets of its `relates-to` edges; without any it keeps
/// its own list.
pub open spec fn with_related(bead: BeadView) -> BeadView {
    if targets(bead, "relates-to"@).len() > 0 {
        BeadView { relates_to: Some(targets(bead, "relates-to"@)), ..bead }
    } else {
        bead
    }
}

/// The beads with the parents that their edges name.
pub open spec fn explicit(beads: Seq<BeadView>) -> Seq<BeadView> {
    beads.map_values(|b: BeadView| with_explicit_parent(b))
}

/// Every link between the beads: those that edges name, then the inferred ones.
pub open spec fn all_links(beads: Seq<BeadView>) -> Seq<Link> {
    explicit_links(beads) + inferred_links(explicit(beads), explicit(beads))
}

/// The beads with all their relationships filled in.
pub open spec fn resolved(beads: Seq<BeadView>, duplicates: Duplicates) -> Seq<BeadView> {
    Seq::new(
        beads.len(),
        |i: int|
            with_related(
                with_children(
                    with_inferred_parent(explicit(beads), i, duplicates),
                    all_links(beads),
                ),
            ),
    )
}

// ---------------------------------------------------------------------------
// Filling them in
// ---------------------------------------------------------------------------

/// The targets of the edges of `bead` that have the type `kind`, in order.
fn targets_of(bead: &Bead, kind: &str) -> (out: Vec<String>)
    ensures
        out.deep_view() == targets(bead.deep_view(), kind@),
{
    let mut out: Vec<String> = Vec::new();
    let wanted: String = kind.to_owned();
    let ghost pred = |d: DependencyView| d.dep_type == kind@;
    let ghost target = |d: DependencyView| d.depends_on_id;
    proof {
        reveal(Seq::filter);
    }
    match &bead.dependencies {
        Some(dependencies) => {
            let ghost all = dependencies.deep_view();
            let mut i: usize = 0;
            while i < dependencies.len()
                invariant
                    i <= dependencies@.len(),
                    all == dependencies.deep_view(),
                    wanted@ == kind@,
                    pred == (|d: DependencyView| d.dep_type == kind@),
                    target == (|d: DependencyView| d.depends_on_id),
                    out.deep_view() == all.take(i as int).filter(pred).map_values(target),
                decreases dependencies@.len() - i,
            {
                let dependency: &Dependency = &dependencies[i];
                let ghost before = out.deep_view();
                proof {
                    reveal(Seq::filter);
                    assert(all.take(i + 1).drop_last() == all.take(i as int));
                    assert(all.take(i + 1).last() == dependency.deep_view());
                }
                if dependency.dep_type == wanted {
                    out.push(dependency.depends_on_id.clone());
                    assert(out.deep_view() == before.push(dependency.depends_on_id@));
                }
                i = i + 1;
            }
            assert(all.take(all.len() as int) == all);
        },
        None => {},
    }
    assert(out.deep_view() =~= targets(bead.deep_view(), kind@));
    out
}

/// Sets the parent that the edges of each bead name, and records the links.
fn link_explicit(beads: &mut Vec<Bead>, table: &mut ChildTable)
    requires
        old(table).wf(),
        old(table).links@ == Seq::<Link>::empty(),
    ensures
        final(table).wf(),
        final(beads).deep_view() == explicit(old(beads).deep_view()),
        final(table).links@ == explicit_links(old(beads).deep_view()),
{
    let ghost start = beads.deep_view();
    let count: usize = beads.len();
    let mut i: usize = 0;
    while i < count
        invariant
            i <= count == beads@.len() == start.len(),
            table.wf(),
            table.links@ == explicit_links(start.take(i as int)),
            forall|k: int| 0 <= k < i ==> #[trigger] beads@[k].deep_view() == with_explicit_parent(start[k]),
            forall|k: int| i <= k < count ==> #[trigger] beads@[k].deep_view() == start[k],
        decreases count - i,
    {
        let ghost bead = start[i as int];
        let parents = targets_of(&beads[i], "parent-child");
        let id: String = beads[i].id.clone();
        let ghost earlier = table.links@;
        let ghost added = bead_links(bead);
        let mut k: usize = 0;
        while k < parents.len()
            invariant
                k <= parents@.len(),
                parents.deep_view() == targets(bead, "parent-child"@),
                id@ == bead.id,
                added == bead_links(bead),
                table.wf(),
                table.links@ == earlier + added.take(k as int),
            decreases parents@.len() - k,
        {
            table.record(&parents[k], &id);
            assert(added[k as int] == Link { parent: parents.deep_view()[k as int], child: bead.id });
            assert(added.take(k + 1) == added.take(k as int).push(added[k as int]));
            k = k + 1;
        }
        assert(added.take(k as int) == added);
        if parents.len() > 0 {
            let parent: String = parents[parents.len() - 1].clone();
            assert(parent@ == parents.deep_view().last());
            beads[i].parent_id = Some(parent);
        }
        assert(start.take(i + 1).drop_last() == start.take(i as int));
        i = i + 1;
    }
    assert(start.take(count as int) == start);
    assert(beads.deep_view() =~= explicit(start));
}

/// What [`bead_index`] holds: each identifier with the place of the bead that
/// stands for it.
pub open spec fn indexes(
    index: Map<Seq<char>, usize>,
    beads: Seq<BeadView>,
    duplicates: Duplicates,
) -> bool {
    &&& forall|id: Seq<char>| #[trigger] index.contains_key(id) <==> has_id(beads, id)
    &&& forall|id: Seq<char>|
        #![trigger index[id]]
        index.contains_key(id) ==> index[id] < beads.len() && beads[index[id] as int].id == id
            && duplicates.holds(beads, index[id] as int)
}

/// The place of the bead that stands for each identifier.
pub fn bead_index(beads: &Vec<Bead>, duplicates: Duplicates) -> (index: StringHashMap<usize>)
    ensures
        indexes(index@, beads.deep_view(), duplicates),
        forall|i: int| 0 <= i < beads@.len() ==> index@.contains_key((#[trigger] beads@[i]).id@),
        forall|id: Seq<char>|
            #![trigger index@[id]]
            index@.contains_key(id) ==> index@[id] < beads@.len() && beads@[index@[id] as int].id@
                == id && forall|j: int|
                0 <= j < beads@.len() && (match duplicates {
                    Duplicates::First => j < index@[id],
                    Duplicates::Last => j > index@[id],
                }) ==> (#[trigger] beads@[j]).id@ != id,
{
    let ghost all = beads.deep_view();
    let mut index: StringHashMap<usize> = StringHashMap::new();
    let mut i: usize = 0;
    while i < beads.len()
        invariant
            i <= beads@.len(),
            all == beads.deep_view(),
            indexes(index@, all.take(i as int), duplicates),
        decreases beads@.len() - i,
    {
        let ghost before = index@;
        let ghost part = all.take(i as int);
        let ghost next = all.take(i + 1);
        let keep = match duplicates {
            Duplicates::First => index.contains_key(beads[i].id.as_str()),
            Duplicates::Last => false,
        };
        if !keep {
            index.insert(beads[i].id.clone(), i);
        }
        proof {
            assert(next[i as int].id == beads@[i as int].id@);
            assert forall|k: int| 0 <= k < i implies next[k] == #[trigger] part[k] by {}
            assert forall|id: Seq<char>| #[trigger] index@.contains_key(id) <==> has_id(next, id) by {
                if has_id(part, id) {
                    let k = choose|k: int| 0 <= k < part.len() && #[trigger] part[k].id == id;
                    assert(next[k].id == id);
                }
                if has_id(next, id) {
                    let k = choose|k: int| 0 <= k < next.len() && #[trigger] next[k].id == id;
                    if k < i {
                        assert(part[k].id == id);
                    }
                }
            }
            assert forall|id: Seq<char>|
                #![trigger index@[id]]
                index@.contains_key(id) implies index@[id] < next.len() && next[index@[id] as int].id
                == id && duplicates.holds(next, index@[id] as int) by {
                if keep || id != beads@[i as int].id@ {
                    assert(index@[id] == before[id]);
                    let at = before[id] as int;
                    assert(before.contains_key(id));
                    assert(part[at].id == id);
                    match duplicates {
                        Duplicates::First => {
                            assert forall|j: int| 0 <= j < at implies #[trigger] next[j].id
                                != next[at].id by {
                                assert(part[j].id != part[at].id);
                            }
                        },
                        Duplicates::Last => {
                            assert forall|j: int| at < j < next.len() implies #[trigger] next[j].id
                                != next[at].id by {
                                if j < i {
                                    assert(part[j].id != part[at].id);
                                }
                            }
                        },
                    }
                } else {
                    match duplicates {
                        Duplicates::First => {
                            assert(!has_id(part, id));
                            assert forall|j: int| 0 <= j < i implies #[trigger] next[j].id
                                != next[i as int].id by {
                                assert(part[j].id != id);
                            }
                        },
                        Duplicates::Last => {},
                    }
                }
            }
        }
        i = i + 1;
    }
    assert(all.take(all.len() as int) == all);
    proof {
        assert forall|i: int| 0 <= i < beads@.len() implies index@.contains_key(
            (#[trigger] beads@[i]).id@,
        ) by {
            assert(all[i].id == beads@[i].id@);
            assert(has_id(all, beads@[i].id@));
        }
        assert forall|id: Seq<char>|
            #![trigger index@[id]]
            index@.contains_key(id) implies index@[id] < beads@.len() && beads@[index@[id] as int].id@
            == id && forall|j: int|
            0 <= j < beads@.len() && (match duplicates {
                Duplicates::First => j < index@[id],
                Duplicates::Last => j > index@[id],
            }) ==> (#[trigger] beads@[j]).id@ != id by {
            assert forall|j: int|
                0 <= j < beads@.len() && (match duplicates {
                    Duplicates::First => j < index@[id],
                    Duplicates::Last => j > index@[id],
                }) implies (#[trigger] beads@[j]).id@ != id by {
                assert(all[j].id == beads@[j].id@);
                assert(all[j].id != all[index@[id] as int].id);
            }
        }
    }
    index
}

/// The bead that stands for an identifier is the only one that does.
proof fn lemma_one_holder(beads: Seq<BeadView>, duplicates: Duplicates, i: int, j: int)
    requires
        0 <= i < beads.len(),
        0 <= j < beads.len(),
        beads[i].id == beads[j].id,
        duplicates.holds(beads, i),
        duplicates.holds(beads, j),
    ensures
        i == j,
{
}

/// Sets the inferred parents and records their links.
fn link_inferred(beads: &mut Vec<Bead>, table: &mut ChildTable, duplicates: Duplicates)
    requires
        old(table).wf(),
    ensures
        final(table).wf(),
        final(beads).deep_view() == Seq::new(
            old(beads)@.len(),
            |i: int| with_inferred_parent(old(beads).deep_view(), i, duplicates),
        ),
        final(table).links@ == old(table).links@ + inferred_links(
            old(beads).deep_view(),
            old(beads).deep_view(),
        ),
{
    let ghost all = beads.deep_view();
    let ghost earlier = table.links@;
    let count: usize = beads.len();
    let index = bead_index(beads, duplicates);
    let mut marks: Vec<bool> = Vec::new();
    let mut i: usize = 0;
    while i < count
        invariant
            i <= count,
            marks@ == Seq::new(i as nat, |k: int| false),
        decreases count - i,
    {
        marks.push(false);
        i = i + 1;
    }

    // Find the beads with an inferred parent.
    let mut i: usize = 0;
    while i < count
        invariant
            i <= count == beads@.len() == marks@.len(),
            all == beads.deep_view(),
            indexes(index@, all, duplicates),
            table.wf(),
            table.links@ == earlier + inferred_links(all, all.take(i as int)),
            forall|k: int|
                0 <= k < count ==> (#[trigger] marks@[k] <==> duplicates.holds(all, k) && exists|j: int|
                    0 <= j < i && #[trigger] all[j].id == all[k].id && inferred_parent(
                        all,
                        all[j],
                    ) is Some),
        decreases count - i,
    {
        let bead: &Bead = &beads[i];
        let ghost old_marks = marks@;
        assert(all[i as int] == bead.deep_view());
        assert(all.take(i + 1).drop_last() == all.take(i as int));
        assert(all.take(i + 1).last() == all[i as int]);
        if bead.parent_id.is_none() {
            match dotted_prefix_text(bead.id.as_str()) {
                Some(parent) => {
                    if index.contains_key(parent.as_str()) {
                        assert(inferred_parent(all, all[i as int]) == Some(parent@));
                        assert(has_id(all, bead.id@));
                        match index.get(bead.id.as_str()) {
                            Some(place) => {
                                let place: usize = *place;
                                marks.set(place, true);
                                proof {
                                    assert forall|k: int| 0 <= k < count implies (#[trigger] marks@[k]
                                        <==> duplicates.holds(all, k) && exists|j: int|
                                        0 <= j < i + 1 && #[trigger] all[j].id == all[k].id
                                            && inferred_parent(all, all[j]) is Some) by {
                                        if k == place {
                                            assert(all[i as int].id == all[k].id);
                                        } else if duplicates.holds(all, k) && all[i as int].id
                                            == all[k].id {
                                            lemma_one_holder(all, duplicates, k, place as int);
                                        }
                                        assert(marks@[k] == (old_marks[k] || k == place));
                                    }
                                }
                            },
                            None => {},
                        }
                        table.record(&parent, &bead.id);
                        assert(table.links@ == earlier + inferred_links(all, all.take(i + 1)));
                    }
                },
                None => {},
            }
        }
        i = i + 1;
    }
    assert(all.take(count as int) == all);

    // Write the parents.
    let mut i: usize = 0;
    while i < count
        invariant
            i <= count == beads@.len() == marks@.len() == all.len(),
            forall|k: int|
                0 <= k < count ==> (#[trigger] marks@[k] <==> duplicates.holds(all, k)
                    && inferred_for(all, all[k].id)),
            forall|k: int|
                0 <= k < i ==> #[trigger] beads@[k].deep_view() == with_inferred_parent(
                    all,
                    k,
                    duplicates,
                ),
            forall|k: int| i <= k < count ==> #[trigger] beads@[k].deep_view() == all[k],
        decreases count - i,
    {
        assert(beads@[i as int].deep_view() == all[i as int]);
        if marks[i] {
            let parent = dotted_prefix_text(beads[i].id.as_str());
            beads[i].parent_id = parent;
        }
        i = i + 1;
    }
    assert(beads.deep_view() =~= Seq::new(
        count as nat,
        |i: int| with_inferred_parent(all, i, duplicates),
    ));
}

/// Fills in the children and the related beads.
fn attach_lists(beads: &mut Vec<Bead>, table: &ChildTable)
    requires
        table.wf(),
    ensures
        final(beads).deep_view() == old(beads).deep_view().map_values(
            |b: BeadView| with_related(with_children(b, table.links@)),
        ),
{
    let ghost all = beads.deep_view();
    let count: usize = beads.len();
    let mut i: usize = 0;
    while i < count
        invariant
            i <= count == beads@.len() == all.len(),
            table.wf(),
            forall|k: int|
                0 <= k < i ==> #[trigger] beads@[k].deep_view() == with_related(
                    with_children(all[k], table.links@),
                ),
            forall|k: int| i <= k < count ==> #[trigger] beads@[k].deep_view() == all[k],
        decreases count - i,
    {
        assert(beads@[i as int].deep_view() == all[i as int]);
        match table.get(&beads[i].id) {
            Some(children) => {
                let children = copy_strings(children);
                beads[i].children = Some(children);
            },
            None => {},
        }
        let related = targets_of(&beads[i], "relates-to");
        if related.len() > 0 {
            beads[i].relates_to = Some(related);
        }
        i = i + 1;
    }
    assert(beads.deep_view() =~= all.map_values(
        |b: BeadView| with_related(with_children(b, table.links@)),
    ));
}

/// Fills in the relationships of the beads: the parent that each names with a
/// `parent-child` edge, the parent that its identifier implies, the children
/// of each, and the beads that each relates to.
pub fn resolve_relationships(beads: &mut Vec<Bead>, duplicates: Duplicates)
    ensures
        final(beads).deep_view() == resolved(old(beads).deep_view(), duplicates),
{
    let ghost start = beads.deep_view();
    let mut table = ChildTable::new();
    link_explicit(beads, &mut table);
    link_inferred(beads, &mut table, duplicates);
    attach_lists(beads, &table);
    assert(beads.deep_view() =~= resolved(start, duplicates));
}

} // verus!
