//! A list whose elements may be of different types, built by appending.

use vstd::prelude::*;

verus! {

/// A list to which an element of type `T` can be appended at its end.
pub trait Append<T>: Sized {
    /// The type of the list with the element.
    type Output;

    /// The list with `elem` at its end.
    spec fn appended(self, elem: T) -> Self::Output;

    /// Appends `elem` at the end of the list.
    fn append(self, elem: T) -> (list: Self::Output)
        ensures
            list == self.appended(elem),
    ;
}

/// The empty list.
#[derive(Debug, PartialEq)]
pub struct Leaf;

impl<V> Visitable<V> for Leaf {
    fn visit(self, _visitor: V) {
    }
}

impl<T> Append<T> for Leaf {
    type Output = Node<T, Leaf>;

    open spec fn appended(self, elem: T) -> Node<T, Leaf> {
        Node { elem, next: Leaf }
    }

    fn append(self, elem: T) -> (list: Self::Output) {
        Node { elem, next: Leaf }
    }
}

/// A list of a first element and the list of those that follow.
#[derive(Debug, PartialEq)]
pub struct Node<T, N> {
    pub elem: T,
    pub next: N,
}

impl<T, N, I> Append<I> for Node<T, N> where N: Append<I> {
    type Output = Node<T, <N as Append<I>>::Output>;

    open spec fn appended(self, elem: I) -> Node<T, <N as Append<I>>::Output> {
        Node { elem: self.elem, next: self.next.appended(elem) }
    }

    fn append(self, elem: I) -> (list: Self::Output) {
        Node { elem: self.elem, next: self.next.append(elem) }
    }
}

impl<T, N, V> Visitable<V> for Node<T, N> where N: Visitable<V>, V: Visitor<T> {
    fn visit(self, visitor: V) {
        let mut visitor = visitor;
        visitor.visit(self.elem);
        self.next.visit(visitor);
    }
}

/// A list whose elements a visitor of type `V` can visit, first to last.
pub trait Visitable<V> {
    /// Hands each element to `visitor`, first to last.
    fn visit(self, visitor: V);
}

/// What is done with each element of type `T` of a list.
pub trait Visitor<T> {
    /// Takes the element `elem`.
    fn visit(&mut self, elem: T);
}

} // verus!
