//! The data that a beads board holds.

use vstd::prelude::*;

verus! {

/// A comment on a bead.
#[derive(Debug, Clone, PartialEq, Eq)]
pub struct Comment {
    pub id: i64,
    pub issue_id: String,
    pub author: String,
    pub text: String,
    pub created_at: String,
}

/// A [`Comment`] as a value.
pub struct CommentView {
    pub id: int,
    pub issue_id: Seq<char>,
    pub author: Seq<char>,
    pub text: Seq<char>,
    pub created_at: Seq<char>,
}

impl DeepView for Comment {
    type V = CommentView;

    open spec fn deep_view(&self) -> CommentView {
        CommentView {
            id: self.id as int,
            issue_id: self.issue_id@,
            author: self.author@,
            text: self.text@,
            created_at: self.created_at@,
        }
    }
}

/// A typed edge from the bead that holds it to another bead.
#[derive(Debug, Clone, PartialEq, Eq)]
pub struct Dependency {
    pub depends_on_id: String,
    pub dep_type: String,
}

/// A [`Dependency`] as a value.
pub struct DependencyView {
    pub depends_on_id: Seq<char>,
    pub dep_type: Seq<char>,
}

impl DeepView for Dependency {
    type V = DependencyView;

    open spec fn deep_view(&self) -> DependencyView {
        DependencyView { depends_on_id: self.depends_on_id@, dep_type: self.dep_type@ }
    }
}

/// An issue on the board.
#[derive(Debug, Clone, PartialEq, Eq)]
pub struct Bead {
    pub id: String,
    pub title: String,
    pub description: Option<String>,
    pub status: String,
    pub priority: Option<i32>,
    pub issue_type: Option<String>,
    pub owner: Option<String>,
    pub created_at: Option<String>,
    pub created_by: Option<String>,
    pub updated_at: Option<String>,
    pub closed_at: Option<String>,
    pub close_reason: Option<String>,
    pub comments: Option<Vec<Comment>>,
    /// The bead that this one belongs to.
    pub parent_id: Option<String>,
    /// The beads that belong to this one.
    pub children: Option<Vec<String>>,
    pub design_doc: Option<String>,
    /// The beads that block this one.
    pub deps: Option<Vec<String>>,
    /// The beads that this one is related to.
    pub relates_to: Option<Vec<String>>,
    /// The typed edges as they are stored.
    pub dependencies: Option<Vec<Dependency>>,
}

/// A [`Bead`] as a value.
pub struct BeadView {
    pub id: Seq<char>,
    pub title: Seq<char>,
    pub description: Option<Seq<char>>,
    pub status: Seq<char>,
    pub priority: Option<i32>,
    pub issue_type: Option<Seq<char>>,
    pub owner: Option<Seq<char>>,
    pub created_at: Option<Seq<char>>,
    pub created_by: Option<Seq<char>>,
    pub updated_at: Option<Seq<char>>,
    pub closed_at: Option<Seq<char>>,
    pub close_reason: Option<Seq<char>>,
    pub comments: Option<Seq<CommentView>>,
    pub parent_id: Option<Seq<char>>,
    pub children: Option<Seq<Seq<char>>>,
    pub design_doc: Option<Seq<char>>,
    pub deps: Option<Seq<Seq<char>>>,
    pub relates_to: Option<Seq<Seq<char>>>,
    pub dependencies: Option<Seq<DependencyView>>,
}

impl DeepView for Bead {
    type V = BeadView;

    open spec fn deep_view(&self) -> BeadView {
        BeadView {
            id: self.id@,
            title: self.title@,
            description: self.description.deep_view(),
            status: self.status@,
            priority: self.priority,
            issue_type: self.issue_type.deep_view(),
            owner: self.owner.deep_view(),
            created_at: self.created_at.deep_view(),
            created_by: self.created_by.deep_view(),
            updated_at: self.updated_at.deep_view(),
            closed_at: self.closed_at.deep_view(),
            close_reason: self.close_reason.deep_view(),
            comments: self.comments.deep_view(),
            parent_id: self.parent_id.deep_view(),
            children: self.children.deep_view(),
            design_doc: self.design_doc.deep_view(),
            deps: self.deps.deep_view(),
            relates_to: self.relates_to.deep_view(),
            dependencies: self.dependencies.deep_view(),
        }
    }
}

impl Bead {
    /// Appends `comment` to the comments of the bead.
    pub fn push_comment(&mut self, comment: Comment)
        ensures
            final(self).deep_view() == old(self).deep_view().with_comment(comment.deep_view()),
            *final(self) == (Bead { comments: final(self).comments, ..*old(self) }),
            final(self).comments is Some,
            final(self).comments->0@ == match old(self).comments {
                Some(comments) => comments@.push(comment),
                None => seq![comment],
            },
    {
        match self.comments.take() {
            Some(mut comments) => {
                let ghost before = comments.deep_view();
                comments.push(comment);
                assert(comments.deep_view() == before.push(comment.deep_view()));
                self.comments = Some(comments);
            },
            None => {
                let mut comments: Vec<Comment> = Vec::new();
                comments.push(comment);
                assert(comments.deep_view() == seq![comment.deep_view()]);
                self.comments = Some(comments);
            },
        }
    }

    /// Appends `dependency` to the stored edges of the bead.
    pub fn push_dependency(&mut self, dependency: Dependency)
        ensures
            final(self).deep_view() == old(self).deep_view().with_dependency(
                dependency.deep_view(),
            ),
            *final(self) == (Bead { dependencies: final(self).dependencies, ..*old(self) }),
            final(self).dependencies is Some,
            final(self).dependencies->0@ == match old(self).dependencies {
                Some(dependencies) => dependencies@.push(dependency),
                None => seq![dependency],
            },
    {
        match self.dependencies.take() {
            Some(mut dependencies) => {
                let ghost before = dependencies.deep_view();
                dependencies.push(dependency);
                assert(dependencies.deep_view() == before.push(dependency.deep_view()));
                self.dependencies = Some(dependencies);
            },
            None => {
                let mut dependencies: Vec<Dependency> = Vec::new();
                dependencies.push(dependency);
                assert(dependencies.deep_view() == seq![dependency.deep_view()]);
                self.dependencies = Some(dependencies);
            },
        }
    }
}

impl BeadView {
    /// The comments of the bead; none when the bead has no comment list.
    pub open spec fn comment_list(self) -> Seq<CommentView> {
        match self.comments {
            Some(comments) => comments,
            None => Seq::empty(),
        }
    }

    /// The stored edges of the bead; none when the bead has no edge list.
    pub open spec fn dependency_list(self) -> Seq<DependencyView> {
        match self.dependencies {
            Some(dependencies) => dependencies,
            None => Seq::empty(),
        }
    }

    /// The bead with one more comment at the end.
    pub open spec fn with_comment(self, comment: CommentView) -> BeadView {
        BeadView { comments: Some(self.comment_list().push(comment)), ..self }
    }

    /// The bead with one more stored edge at the end.
    pub open spec fn with_dependency(self, dependency: DependencyView) -> BeadView {
        BeadView { dependencies: Some(self.dependency_list().push(dependency)), ..self }
    }
}

/// A copy of the strings.
pub fn copy_strings(items: &Vec<String>) -> (out: Vec<String>)
    ensures
        out@ == items@,
{
    let mut out: Vec<String> = Vec::new();
    let mut i: usize = 0;
    while i < items.len()
        invariant
            i <= items@.len(),
            out@ == items@.take(i as int),
        decreases items@.len() - i,
    {
        out.push(items[i].clone());
        i = i + 1;
    }
    out
}

/// A comment, an edge and a bead show every field, so that two which show the
/// same are the same.
pub proof fn beads_show_every_field(comment: Comment, dependency: Dependency, bead: Bead)
    ensures
        comment.deep_view() == (CommentView {
            id: comment.id as int,
            issue_id: comment.issue_id@,
            author: comment.author@,
            text: comment.text@,
            created_at: comment.created_at@,
        }),
        dependency.deep_view() == (DependencyView {
            depends_on_id: dependency.depends_on_id@,
            dep_type: dependency.dep_type@,
        }),
        bead.deep_view().id == bead.id@,
        bead.deep_view().title == bead.title@,
        bead.deep_view().description == bead.description.deep_view(),
        bead.deep_view().status == bead.status@,
        bead.deep_view().priority == bead.priority,
        bead.deep_view().issue_type == bead.issue_type.deep_view(),
        bead.deep_view().owner == bead.owner.deep_view(),
        bead.deep_view().created_at == bead.created_at.deep_view(),
        bead.deep_view().created_by == bead.created_by.deep_view(),
        bead.deep_view().updated_at == bead.updated_at.deep_view(),
        bead.deep_view().closed_at == bead.closed_at.deep_view(),
        bead.deep_view().close_reason == bead.close_reason.deep_view(),
        bead.deep_view().comments == bead.comments.deep_view(),
        bead.deep_view().parent_id == bead.parent_id.deep_view(),
        bead.deep_view().children == bead.children.deep_view(),
        bead.deep_view().design_doc == bead.design_doc.deep_view(),
        bead.deep_view().deps == bead.deps.deep_view(),
        bead.deep_view().relates_to == bead.relates_to.deep_view(),
        bead.deep_view().dependencies == bead.dependencies.deep_view(),
{
}

} // verus!
