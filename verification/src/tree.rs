//! An ordered binary tree built from nested enums.

use vstd::multiset::Multiset;
use vstd::prelude::*;

verus! {

broadcast use vstd::multiset::group_multiset_axioms, vstd::multiset::group_multiset_properties;

/// A binary tree: empty, or a heap-allocated node with two subtrees.
pub enum BinaryTree<T> {
    Empty,
    NonEmpty(Box<TreeNode<T>>),
}

/// One element together with its subtrees.
pub struct TreeNode<T> {
    pub element: T,
    pub left: BinaryTree<T>,
    pub right: BinaryTree<T>,
}

impl<T> BinaryTree<T> {
    /// All elements of the tree, with multiplicity.
    pub open spec fn elems(self) -> Multiset<T>
        decreases self,
    {
        match self {
            BinaryTree::Empty => Multiset::empty(),
            BinaryTree::NonEmpty(node) => node.left.elems().insert(node.element).add(
                node.right.elems(),
            ),
        }
    }
}

impl BinaryTree<i64> {
    /// The search-tree shape: everything left of a node is at most its
    /// element, everything right of it strictly greater, recursively.
    pub open spec fn is_search_tree(self) -> bool
        decreases self,
    {
        match self {
            BinaryTree::Empty => true,
            BinaryTree::NonEmpty(node) => {
                &&& node.left.is_search_tree()
                &&& node.right.is_search_tree()
                &&& forall|x: i64| node.left.elems().contains(x) ==> x <= node.element
                &&& forall|x: i64| node.right.elems().contains(x) ==> x > node.element
            },
        }
    }

    /// Insert `value`, keeping the search-tree shape; duplicates go left.
    pub fn add(&mut self, value: i64)
        requires
            old(self).is_search_tree(),
        ensures
            final(self).is_search_tree(),
            final(self).elems() == old(self).elems().insert(value),
        decreases *old(self),
    {
        let mut taken = BinaryTree::Empty;
        core::mem::swap(self, &mut taken);
        match taken {
            BinaryTree::Empty => {
                *self = BinaryTree::NonEmpty(
                    Box::new(
                        TreeNode { element: value, left: BinaryTree::Empty, right: BinaryTree::Empty },
                    ),
                );
                proof {
                    let empty_tree = BinaryTree::<i64>::Empty;
                    assert(empty_tree.is_search_tree());
                    assert(empty_tree.elems() =~= Multiset::<i64>::empty());
                    assert(self.elems() =~= old(self).elems().insert(value));
                    assert(self.is_search_tree());
                }
            },
            BinaryTree::NonEmpty(mut node) => {
                let ghost node0 = *node;
                if value <= node.element {
                    node.left.add(value);
                    proof {
                        assert forall|x: i64| node.left.elems().contains(x) implies x
                            <= node.element by {
                            if x != value {
                                assert(node0.left.elems().contains(x));
                            }
                        }
                    }
                } else {
                    node.right.add(value);
                    proof {
                        assert forall|x: i64| node.right.elems().contains(x) implies x
                            > node.element by {
                            if x != value {
                                assert(node0.right.elems().contains(x));
                            }
                        }
                    }
                }
                *self = BinaryTree::NonEmpty(node);
                proof {
                    assert(self.elems() =~= old(self).elems().insert(value));
                    assert(self.is_search_tree());
                }
            },
        }
    }
}

} // verus!
