//! A persistent singly linked list: lists share their tails.

use vstd::prelude::*;
use std::rc::Rc;

verus! {

/// One element of a list and the link to the rest.
pub struct Node<T> {
    elem: T,
    next: Option<Rc<Node<T>>>,
}

/// An immutable list. Its view is the sequence of its elements, the head
/// first.
pub struct List<T> {
    head: Option<Rc<Node<T>>>,
}

/// A walk over the elements of a list, the head first. Its view is the
/// sequence of the elements still to come.
pub struct Iter<'a, T> {
    next: Option<&'a Node<T>>,
}

/// The elements from the node behind `link` on.
pub closed spec fn elems_from<T>(link: Option<Rc<Node<T>>>) -> Seq<T>
    decreases link,
{
    match link {
        Some(node) => seq![node.elem] + elems_from(node.next),
        None => Seq::empty(),
    }
}

/// `Rc::clone`: another pointer to the same node.
#[verifier::external_body]
fn share<T>(node: &Rc<Node<T>>) -> (shared: Rc<Node<T>>)
    ensures
        shared == *node,
{
    Rc::clone(node)
}

impl<T> Node<T> {
    /// The elements from this node on.
    pub closed spec fn elems(&self) -> Seq<T> {
        seq![self.elem] + elems_from(self.next)
    }
}

impl<T> View for List<T> {
    type V = Seq<T>;

    closed spec fn view(&self) -> Seq<T> {
        elems_from(self.head)
    }
}

impl<'a, T> View for Iter<'a, T> {
    type V = Seq<T>;

    closed spec fn view(&self) -> Seq<T> {
        match self.next {
            Some(node) => node.elems(),
            None => Seq::empty(),
        }
    }
}

impl<T> List<T> {
    /// The empty list.
    pub fn new() -> (list: Self)
        ensures
            list@ == Seq::<T>::empty(),
    {
        Self { head: None }
    }

    /// The list with `elem` before the elements of this one, which it
    /// shares.
    pub fn prepend(&self, elem: T) -> (list: Self)
        ensures
            list@ == seq![elem] + self@,
    {
        let next = match &self.head {
            Some(node) => Some(share(node)),
            None => None,
        };
        Self { head: Some(Rc::new(Node { elem, next })) }
    }

    /// The list without its first element; of the empty list, the empty
    /// list.
    pub fn tail(&self) -> (list: Self)
        ensures
            list@ == if self@.len() == 0 {
                self@
            } else {
                self@.drop_first()
            },
    {
        let head = match &self.head {
            Some(node) => match &node.next {
                Some(next) => Some(share(next)),
                None => None,
            },
            None => None,
        };
        Self { head }
    }

    /// The first element, if there is one.
    pub fn head(&self) -> (first: Option<&T>)
        ensures
            match first {
                Some(elem) => self@.len() > 0 && *elem == self@[0],
                None => self@.len() == 0,
            },
    {
        match &self.head {
            Some(node) => Some(&node.elem),
            None => None,
        }
    }

    /// A walk over all elements of the list.
    pub fn iter(&self) -> (walk: Iter<'_, T>)
        ensures
            walk@ == self@,
    {
        match &self.head {
            Some(node) => Iter { next: Some(&**node) },
            None => Iter { next: None },
        }
    }
}

impl<'a, T> Iter<'a, T> {
    /// The next element, if any is left, and moves on behind it.
    pub fn next(&mut self) -> (elem: Option<&'a T>)
        ensures
            match elem {
                Some(first) => old(self)@.len() > 0 && *first == old(self)@[0] && final(self)@
                    == old(self)@.drop_first(),
                None => old(self)@.len() == 0 && final(self)@ == old(self)@,
            },
    {
        match self.next {
            Some(node) => {
                self.next = match &node.next {
                    Some(rest) => Some(&**rest),
                    None => None,
                };
                Some(&node.elem)
            },
            None => None,
        }
    }
}

} // verus!
