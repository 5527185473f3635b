//! A fixed-arity row of type-erased child components.

use vstd::prelude::*;
use crate::component::{comp_children_model, lemma_comp_children_model, AnyComponent, CompModel};

verus! {

/// An ordered row of exactly `N` type-erased components, the child
/// storage of layout containers. The count is part of the type; the
/// invariant below keeps the runtime length equal to it.
pub struct Children<const N: usize> {
    pub(crate) items: Vec<AnyComponent>,
}

impl<const N: usize> Children<N> {
    /// There are always exactly `N` children.
    #[verifier::type_invariant]
    pub open(crate) spec fn counted(self) -> bool {
        self.items@.len() == N
    }
}

impl<const N: usize> View for Children<N> {
    type V = Seq<CompModel>;

    open(crate) spec fn view(&self) -> Seq<CompModel> {
        comp_children_model(self.items@)
    }
}

impl<const N: usize> Children<N> {
    /// Wraps a row of components; refused unless exactly `N` are given.
    pub fn of(items: Vec<AnyComponent>) -> (r: Option<Children<N>>)
        ensures
            r is Some <==> items@.len() == N,
            r is Some ==> r->0@ == comp_children_model(items@),
    {
        if items.len() == N {
            Some(Children { items })
        } else {
            None
        }
    }

    /// There are always `N` children.
    pub fn count(&self) -> (n: usize)
        ensures
            n == N,
            self@.len() == N,
    {
        proof {
            use_type_invariant(self);
            lemma_comp_children_model(self.items@);
        }
        self.items.len()
    }

    /// The child at `i`.
    pub fn get(&self, i: usize) -> (c: &AnyComponent)
        requires
            i < N,
        ensures
            c.model() == self@[i as int],
            self@.len() == N,
    {
        proof {
            use_type_invariant(self);
            lemma_comp_children_model(self.items@);
        }
        &self.items[i]
    }
}

impl<const N: usize> Default for Children<N> {
    /// A row of `N` empty children.
    fn default() -> (c: Children<N>)
        ensures
            c@.len() == N,
            forall|i: int| 0 <= i < N ==> c@[i] == CompModel::Null,
    {
        let mut items: Vec<AnyComponent> = Vec::new();
        let mut i: usize = 0;
        while i < N
            invariant
                0 <= i <= N,
                items@.len() == i,
                forall|j: int| 0 <= j < i ==> items@[j] == AnyComponent::Null,
            decreases N - i,
        {
            items.push(AnyComponent::Null);
            i = i + 1;
        }
        proof {
            lemma_comp_children_model(items@);
        }
        Children { items }
    }
}

} // verus!
