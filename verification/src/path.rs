//! File system paths as sequences of names.

use vstd::prelude::*;
use vstd::string::*;

verus! {

/// A file system path: its components, each as the bytes of its name. Two
/// paths are the same when they have the same components.
#[derive(Debug, PartialEq, Eq)]
pub struct PathParts {
    pub components: Vec<Vec<u8>>,
}

impl DeepView for PathParts {
    type V = Seq<Seq<u8>>;

    open spec fn deep_view(&self) -> Seq<Seq<u8>> {
        self.components.deep_view()
    }
}

fn same_bytes(a: &Vec<u8>, b: &[u8]) -> (result: bool)
    ensures
        result == (a@ == b@),
{
    if a.len() != b.len() {
        return false;
    }
    let mut i: usize = 0;
    while i < a.len()
        invariant
            i <= a@.len() == b@.len(),
            forall|k: int| 0 <= k < i ==> a@[k] == b@[k],
        decreases a@.len() - i,
    {
        if a[i] != b[i] {
            return false;
        }
        i = i + 1;
    }
    assert(a@ =~= b@);
    true
}

proof fn lemma_components(path: PathParts)
    ensures
        path.deep_view().len() == path.components@.len(),
        forall|i: int|
            0 <= i < path.components@.len() ==> path.deep_view()[i] == (
            #[trigger] path.components@[i])@,
{
    assert forall|i: int| 0 <= i < path.components@.len() implies path.deep_view()[i] == (
    #[trigger] path.components@[i])@ by {
        assert(path.components@[i].deep_view() =~= path.components@[i]@);
    }
}

impl PathParts {
    /// Whether both are the same path.
    pub fn is(&self, other: &PathParts) -> (result: bool)
        ensures
            result == (self.deep_view() == other.deep_view()),
            result <==> self.components@.len() == other.components@.len() && forall|i: int|
                0 <= i < self.components@.len() ==> (#[trigger] self.components@[i])@
                    == other.components@[i]@,
    {
        proof {
            lemma_components(*self);
            lemma_components(*other);
        }
        let count: usize = self.components.len();
        if count != other.components.len() {
            assert(self.deep_view().len() != other.deep_view().len());
            return false;
        }
        let mut i: usize = 0;
        while i < count
            invariant
                i <= count == self.components@.len() == other.components@.len(),
                forall|k: int| 0 <= k < i ==> self.deep_view()[k] == other.deep_view()[k],
            decreases count - i,
        {
            assert(self.deep_view()[i as int] =~= self.components@[i as int]@);
            assert(other.deep_view()[i as int] =~= other.components@[i as int]@);
            if !same_bytes(&self.components[i], other.components[i].as_slice()) {
                return false;
            }
            i = i + 1;
        }
        assert(self.deep_view() =~= other.deep_view());
        true
    }

    /// Whether the last component of the path has the name `name`.
    pub fn ends_with(&self, name: &str) -> (result: bool)
        ensures
            result == ends_with_name(self.deep_view(), name@),
            result <==> self.components@.len() > 0 && self.components@[self.components@.len() - 1]@
                == vstd::utf8::encode_utf8(name@),
    {
        let count: usize = self.components.len();
        if count == 0 {
            return false;
        }
        assert(self.deep_view().last() == self.components@[count - 1]@);
        same_bytes(&self.components[count - 1], name.as_bytes())
    }
}

impl Clone for PathParts {
    fn clone(&self) -> (copy: Self)
        ensures
            copy.deep_view() == self.deep_view(),
    {
        let mut components: Vec<Vec<u8>> = Vec::new();
        let mut i: usize = 0;
        while i < self.components.len()
            invariant
                i <= self.components@.len(),
                components.deep_view() == self.deep_view().take(i as int),
            decreases self.components@.len() - i,
        {
            let part: &Vec<u8> = &self.components[i];
            let mut bytes: Vec<u8> = Vec::new();
            let mut k: usize = 0;
            while k < part.len()
                invariant
                    k <= part@.len(),
                    bytes@ == part@.take(k as int),
                decreases part@.len() - k,
            {
                bytes.push(part[k]);
                k = k + 1;
            }
            let ghost before = components.deep_view();
            components.push(bytes);
            assert(bytes.deep_view() == part@);
            assert(components.deep_view() == before.push(part@));
            assert(self.deep_view()[i as int] == part.deep_view());
            assert(part.deep_view() == part@);
            i = i + 1;
        }
        assert(self.deep_view().take(i as int) == self.deep_view());
        PathParts { components }
    }
}

/// Whether the last component of the path has the name `name`.
pub open spec fn ends_with_name(path: Seq<Seq<u8>>, name: Seq<char>) -> bool {
    path.len() > 0 && path.last() == vstd::utf8::encode_utf8(name)
}

/// A path shows its components, each with all its bytes, in order.
pub proof fn paths_show_every_component(path: PathParts)
    ensures
        path.deep_view().len() == path.components@.len(),
        forall|i: int|
            0 <= i < path.components@.len() ==> path.deep_view()[i] == (
            #[trigger] path.components@[i])@,
{
    lemma_components(path);
}

} // verus!
