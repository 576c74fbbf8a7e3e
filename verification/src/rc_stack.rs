use std::rc::Rc;
use vstd::prelude::*;

verus! {

struct Node<T> {
    elem: T,
    next: Option<Rc<Node<T>>>,
}

/// A persistent singly-linked stack. Lists built from one another share
/// their common tail instead of copying it.
pub struct List<T> {
    head: Option<Rc<Node<T>>>,
}

/// A borrowing iterator over the elements of a [`List`], from the top down.
pub struct Iter<'a, T> {
    next: Option<&'a Node<T>>,
}

/// The elements reachable from a link, from the nearest node on.
spec fn link_view<T>(link: Option<Rc<Node<T>>>) -> Seq<T>
    decreases link,
{
    match link {
        None => Seq::empty(),
        Some(node) => seq![node.elem] + link_view(node.next),
    }
}

/// The elements reachable from a borrowed node, that node first.
spec fn node_ref_view<T>(next: Option<&Node<T>>) -> Seq<T> {
    match next {
        None => Seq::empty(),
        Some(node) => seq![node.elem] + link_view(node.next),
    }
}

impl<T> View for List<T> {
    type V = Seq<T>;

    /// The stack's elements, the top (most recently prepended) first.
    closed spec fn view(&self) -> Seq<T> {
        link_view(self.head)
    }
}

impl<'a, T> View for Iter<'a, T> {
    type V = Seq<T>;

    /// The elements the iterator has yet to hand out, in order.
    closed spec fn view(&self) -> Seq<T> {
        node_ref_view(self.next)
    }
}

/// `Rc::clone`: a second handle to the same allocation, so it stands for
/// the same value.
#[verifier::external_body]
fn share<T>(rc: &Rc<T>) -> (r: Rc<T>)
    ensures
        r == *rc,
{
    Rc::clone(rc)
}

/// `Rc::try_unwrap`: the value itself when `rc` is its only handle, and
/// `rc` back otherwise. It neither panics nor opens an invariant. Which of
/// the two comes out depends on the other handles alive, which is not
/// modelled here, so it is left unsaid.
#[verifier::external_body]
fn take_if_unique<T>(rc: Rc<T>) -> (r: Result<T, Rc<T>>)
    ensures
        match r {
            Ok(t) => t == rc,
            Err(e) => e == rc,
        },
    opens_invariants none
    no_unwind
{
    Rc::try_unwrap(rc)
}

fn share_link<T>(link: &Option<Rc<Node<T>>>) -> (r: Option<Rc<Node<T>>>)
    ensures
        r == *link,
{
    match link {
        None => None,
        Some(rc) => Some(share(rc)),
    }
}

/// What a call of `Iter::next` hands out when `rest` is left: the first
/// element, or nothing once every element has been handed out.
pub open spec fn next_item<T>(rest: Seq<T>) -> Option<T> {
    if rest.len() == 0 {
        None
    } else {
        Some(rest[0])
    }
}

/// What is left after a call of `Iter::next` when `rest` was left.
pub open spec fn next_rest<T>(rest: Seq<T>) -> Seq<T> {
    if rest.len() == 0 {
        rest
    } else {
        rest.drop_first()
    }
}

/// What is left after `k` calls of `Iter::next`, starting from `rest`.
pub open spec fn rest_after<T>(rest: Seq<T>, k: nat) -> Seq<T>
    decreases k,
{
    if k == 0 {
        rest
    } else {
        next_rest(rest_after(rest, (k - 1) as nat))
    }
}

/// Iterating over a stack of `n` elements hands out its elements in order
/// on the first `n` calls of `Iter::next`, and nothing on every later call.
pub proof fn lemma_iteration_in_order<T>(elems: Seq<T>, k: nat)
    ensures
        k < elems.len() ==> next_item(rest_after(elems, k)) == Some(elems[k as int]),
        k >= elems.len() ==> next_item(rest_after(elems, k)) == None::<T>,
        rest_after(elems, k) == (if k <= elems.len() {
            elems.skip(k as int)
        } else {
            Seq::<T>::empty()
        }),
    decreases k,
{
    if k == 0 {
        assert(elems.skip(0) =~= elems);
    } else {
        lemma_iteration_in_order(elems, (k - 1) as nat);
        let prev = rest_after(elems, (k - 1) as nat);
        if k <= elems.len() {
            assert(prev.drop_first() =~= elems.skip(k as int));
        } else if k - 1 == elems.len() {
            assert(prev =~= Seq::<T>::empty());
        }
    }
}

/// Taking the tail of a stack that was just prepended to gives back that
/// stack, and the head of the prepended stack is the element prepended.
pub proof fn lemma_tail_undoes_prepend<T>(stack: Seq<T>, elem: T)
    ensures
        (seq![elem] + stack).len() != 0,
        (seq![elem] + stack).drop_first() == stack,
        (seq![elem] + stack)[0] == elem,
{
    assert((seq![elem] + stack).drop_first() =~= stack);
}

impl<T> List<T> {
    /// The empty stack.
    pub fn new() -> (r: List<T>)
        ensures
            r@ == Seq::<T>::empty(),
    {
        List { head: None }
    }

    /// A new stack with `elem` on top of the elements of `self`; `self`
    /// itself is left as it was and shares its nodes with the result.
    pub fn prepend(&self, elem: T) -> (r: List<T>)
        ensures
            r@ == seq![elem] + self@,
    {
        List { head: Some(Rc::new(Node { elem: elem, next: share_link(&self.head) })) }
    }

    /// The stack without its top element; the empty stack stays empty.
    pub fn tail(&self) -> (r: List<T>)
        ensures
            r@ == (if self@.len() == 0 { Seq::<T>::empty() } else { self@.drop_first() }),
    {
        match &self.head {
            None => List { head: None },
            Some(node) => {
                proof {
                    assert(self@.drop_first() =~= link_view(node.next));
                }
                List { head: share_link(&node.next) }
            },
        }
    }

    /// The top element, or `None` for the empty stack.
    pub fn head(&self) -> (r: Option<&T>)
        ensures
            r is None <==> self@.len() == 0,
            r matches Some(e) ==> *e == self@[0],
    {
        match &self.head {
            None => None,
            Some(node) => Some(&node.elem),
        }
    }

    /// An iterator over the elements, from the top down.
    pub fn iter<'a>(&'a self) -> (r: Iter<'a, T>)
        ensures
            r@ == self@,
    {
        match &self.head {
            None => Iter { next: None },
            Some(node) => Iter { next: Some(&**node) },
        }
    }
}

impl<'a, T> Iter<'a, T> {
    /// Hands out the next element and advances past it, or returns `None`
    /// once every element has been handed out.
    pub fn next(&mut self) -> (r: Option<&'a T>)
        ensures
            r is None <==> next_item(old(self)@) is None,
            r matches Some(e) ==> next_item(old(self)@) == Some(*e),
            final(self)@ == next_rest(old(self)@),
    {
        match self.next {
            None => None,
            Some(node) => {
                proof {
                    assert(old(self)@.drop_first() =~= link_view(node.next));
                }
                self.next = match &node.next {
                    None => None,
                    Some(rc) => Some(&**rc),
                };
                Some(&node.elem)
            },
        }
    }
}

/// Frees the nodes that no other list shares one at a time, so that a long
/// stack is released without deep recursion; the walk stops at the first
/// node that another list still holds.
impl<T> Drop for List<T> {
    fn drop(&mut self)
        ensures
            final(self)@ == Seq::<T>::empty(),
        opens_invariants none
        no_unwind
    {
        let mut cur_link: Option<Rc<Node<T>>> = None;
        std::mem::swap(&mut cur_link, &mut self.head);
        let mut done = false;
        while !done
            decreases link_view(cur_link).len(), if done { 0int } else { 1int },
        {
            match cur_link {
                None => {
                    done = true;
                    cur_link = None;
                },
                Some(node) => {
                    match take_if_unique(node) {
                        Ok(mut inner) => {
                            let mut next: Option<Rc<Node<T>>> = None;
                            std::mem::swap(&mut next, &mut inner.next);
                            cur_link = next;
                        },
                        Err(_) => {
                            cur_link = None;
                            done = true;
                        },
                    }
                },
            }
        }
    }
}

} // verus!
