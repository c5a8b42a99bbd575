//! The stack proper: a chain of singly linked nodes reached from a head link,
//! with a length counter kept beside it.
//!
//! The view of a stack is the sequence of its values from the top down, so
//! `self@[0]` is the value a `pop` or `peek` observes first.

use vstd::prelude::*;

verus! {

/// One heap cell of the chain: a value and the link to the node below it.
#[derive(Debug)]
struct Node<V> {
    val: V,
    next: Link<V>,
}

type Link<V> = Option<Box<Node<V>>>;

/// The values held by a chain, top first.
spec fn link_view<V>(link: Link<V>) -> Seq<V>
    decreases link,
{
    match link {
        None => Seq::empty(),
        Some(node) => seq![node.val] + link_view(node.next),
    }
}

/// A last-in-first-out stack of values.
#[derive(Debug)]
pub struct Stack<V> {
    head: Link<V>,
    len: usize,
}

impl<V> Stack<V> {
    /// The visible sequence of values, top of the stack first.
    pub closed spec fn view(self) -> Seq<V> {
        link_view(self.head)
    }

    #[verifier::type_invariant]
    spec fn wf(self) -> bool {
        self.len == self@.len()
    }

    /// An empty stack.
    pub fn new() -> (s: Self)
        ensures
            s@ == Seq::<V>::empty(),
    {
        Stack { head: None, len: 0 }
    }

    /// The number of values currently on the stack.
    pub fn len(&self) -> (n: usize)
        ensures
            n == self@.len(),
    {
        proof {
            use_type_invariant(self);
        }
        self.len
    }

    /// Places `val` on top of the stack.
    pub fn push(&mut self, val: V)
        requires
            old(self)@.len() < usize::MAX,
        ensures
            final(self)@ == seq![val] + old(self)@,
    {
        proof {
            use_type_invariant(&*self);
        }
        let mut taken: Stack<V> = Stack { head: None, len: 0 };
        std::mem::swap(&mut taken, self);
        let Stack { head, len } = taken;
        *self = Stack { head: Some(Box::new(Node { val, next: head })), len: len + 1 };
    }

    /// Removes the top value, or returns `None` exactly when the stack is empty.
    pub fn pop(&mut self) -> (r: Option<Entry<V>>)
        ensures
            match r {
                Some(entry) => old(self)@.len() > 0 && entry@ == old(self)@[0] && final(self)@
                    == old(self)@.drop_first(),
                None => old(self)@.len() == 0 && final(self)@ == old(self)@,
            },
    {
        proof {
            use_type_invariant(&*self);
        }
        let mut taken: Stack<V> = Stack { head: None, len: 0 };
        std::mem::swap(&mut taken, self);
        let Stack { head, len } = taken;
        match head {
            None => None,
            Some(boxed_node) => {
                let node = *boxed_node;
                *self = Stack { head: node.next, len: len - 1 };
                Some(Entry { val: node.val })
            },
        }
    }

    /// Splices every value of `other` onto the front of `self`, keeping
    /// `other`'s internal order, and leaves `other` empty and reusable.
    /// Taking `other` by exclusive borrow is part of the design: the splice
    /// walks the detached chain unprotected, which is sound only while
    /// nothing else can touch `other`.
    pub fn extend(&mut self, other: &mut Stack<V>)
        requires
            old(self)@.len() + old(other)@.len() <= usize::MAX,
        ensures
            final(self)@ == old(other)@ + old(self)@,
            final(other)@ == Seq::<V>::empty(),
    {
        proof {
            use_type_invariant(&*self);
            use_type_invariant(&*other);
        }
        let mut dst: Stack<V> = Stack { head: None, len: 0 };
        std::mem::swap(&mut dst, self);
        let mut src: Stack<V> = Stack { head: None, len: 0 };
        std::mem::swap(&mut src, other);
        let Stack { head: dst_head, len: dst_len } = dst;
        let Stack { head: src_head, len: src_len } = src;
        let spliced = link_append(src_head, dst_head);
        *self = Stack { head: spliced, len: src_len + dst_len };
    }

    /// Reads the top value without removing it; `None` exactly when empty.
    pub fn peek(&self) -> (r: Option<&V>)
        ensures
            match r {
                Some(v) => self@.len() > 0 && *v == self@[0],
                None => self@.len() == 0,
            },
    {
        match &self.head {
            None => None,
            Some(node) => Some(&node.val),
        }
    }
}

/// Walks `chain` to its last node and links `rest` behind it, returning the
/// combined chain.
fn link_append<V>(chain: Link<V>, rest: Link<V>) -> (r: Link<V>)
    ensures
        link_view(r) == link_view(chain) + link_view(rest),
    decreases chain,
{
    match chain {
        None => {
            proof {
                assert(link_view(rest) =~= Seq::<V>::empty() + link_view(rest));
            }
            rest
        },
        Some(boxed_node) => {
            let node = *boxed_node;
            let next = link_append(node.next, rest);
            let r = Some(Box::new(Node { val: node.val, next }));
            proof {
                assert(link_view(r) =~= link_view(chain) + link_view(rest));
            }
            r
        },
    }
}

impl<V> Stack<V> {
    /// Reads the value `i` positions below the top, or `None` when the stack
    /// holds no more than `i` values. Calling this for each index in turn
    /// observes the whole visible sequence without consuming it.
    pub fn get(&self, i: usize) -> (r: Option<&V>)
        ensures
            match r {
                Some(v) => i < self@.len() && *v == self@[i as int],
                None => i >= self@.len(),
            },
    {
        link_get(&self.head, i)
    }

    /// Builds a stack by pushing the values of `items` in order, so the last
    /// value of `items` ends on top.
    pub fn from_iter(items: Vec<V>) -> (s: Stack<V>)
        ensures
            s@ == items@.reverse(),
    {
        let ghost all = items@;
        let mut items = items;
        let mut s = Stack::new();
        let n = items.len();
        proof {
            assert(all.len() == n);
        }
        while items.len() > 0
            invariant
                all.len() <= usize::MAX,
                items@.len() <= all.len(),
                items@ == all.skip(all.len() - items@.len()),
                s@ == all.take(all.len() - items@.len()).reverse(),
            decreases items@.len(),
        {
            let ghost k: int = all.len() - items@.len();
            let val = items.remove(0);
            proof {
                assert(all.skip(k)[0] == all[k]);
                assert(all.skip(k).drop_first() =~= all.skip(k + 1));
                assert(all.take(k + 1).reverse() =~= seq![all[k]] + all.take(k).reverse());
            }
            s.push(val);
        }
        proof {
            assert(all.take(all.len() as int) =~= all);
        }
        s
    }

    /// Walks the stack without consuming it, yielding a borrow of each value
    /// from the top down.
    pub fn iter(&self) -> (it: Iter<'_, V>)
        ensures
            it@ == self@,
    {
        Iter { cur: &self.head }
    }

    /// Consumes the stack, yielding its values from the top down.
    pub fn into_iter(self) -> (it: IntoIter<V>)
        ensures
            it@ == self@,
    {
        IntoIter { stack: self }
    }
}

/// Non-consuming iteration over a stack: a cursor over the chain, observing
/// the values in place.
#[derive(Debug)]
pub struct Iter<'a, V> {
    cur: &'a Link<V>,
}

impl<'a, V> Iter<'a, V> {
    /// The values not yet visited, in the order they will be visited.
    pub closed spec fn view(self) -> Seq<V> {
        link_view(*self.cur)
    }

    /// Yields a borrow of the next value, or `None` exactly when the walk is
    /// done.
    pub fn next(&mut self) -> (r: Option<&'a V>)
        ensures
            match r {
                Some(v) => old(self)@.len() > 0 && *v == old(self)@[0] && final(self)@ == old(
                    self,
                )@.drop_first(),
                None => old(self)@.len() == 0 && final(self)@ == old(self)@,
            },
    {
        match self.cur {
            None => None,
            Some(node) => {
                self.cur = &node.next;
                Some(&node.val)
            },
        }
    }
}

/// Reads the value `i` links down `chain`.
fn link_get<V>(link: &Link<V>, i: usize) -> (r: Option<&V>)
    ensures
        match r {
            Some(v) => i < link_view(*link).len() && *v == link_view(*link)[i as int],
            None => i >= link_view(*link).len(),
        },
    decreases link,
{
    match link {
        None => None,
        Some(node) => {
            if i == 0 {
                Some(&node.val)
            } else {
                link_get(&node.next, i - 1)
            }
        },
    }
}

/// Consuming iteration over a stack: each step removes the current top and
/// hands its value out, destroying the node it sat in.
#[derive(Debug)]
pub struct IntoIter<V> {
    stack: Stack<V>,
}

impl<V> IntoIter<V> {
    /// The values not yet yielded, in the order they will come out.
    pub closed spec fn view(self) -> Seq<V> {
        self.stack@
    }

    /// Yields the next value, or `None` exactly when every value has been
    /// yielded. Each position of the original sequence is yielded once.
    pub fn next(&mut self) -> (r: Option<V>)
        ensures
            match r {
                Some(v) => old(self)@.len() > 0 && v == old(self)@[0] && final(self)@ == old(
                    self,
                )@.drop_first(),
                None => old(self)@.len() == 0 && final(self)@ == old(self)@,
            },
    {
        match self.stack.pop() {
            Some(entry) => Some(entry.into_value()),
            None => None,
        }
    }
}

/// The visible sequence after pushing the values of `vs`, in order, onto a
/// stack whose visible sequence is `s`.
pub open spec fn after_pushes<V>(s: Seq<V>, vs: Seq<V>) -> Seq<V>
    decreases vs.len(),
{
    if vs.len() == 0 {
        s
    } else {
        after_pushes(seq![vs[0]] + s, vs.drop_first())
    }
}

/// Last in, first out: pushing the values of `vs`, in order, onto an empty
/// stack leaves the visible sequence `vs.reverse()`. Each `pop` returns the
/// front of the visible sequence and removes it, so the following pops
/// return the pushed values in exactly the reverse of the push order, and
/// after `vs.len()` pops the visible sequence — and with it `len()` — is
/// down to nothing.
pub proof fn lemma_push_pop_lifo<V>(vs: Seq<V>)
    ensures
        after_pushes(Seq::<V>::empty(), vs) == vs.reverse(),
        after_pushes(Seq::<V>::empty(), vs).skip(vs.len() as int) == Seq::<V>::empty(),
{
    lemma_after_pushes(Seq::<V>::empty(), vs);
    assert(vs.reverse() + Seq::<V>::empty() =~= vs.reverse());
    assert(vs.reverse().skip(vs.len() as int) =~= Seq::<V>::empty());
}

/// Pushing `vs` onto any stack stacks `vs` reversed on top of what was
/// there.
proof fn lemma_after_pushes<V>(s: Seq<V>, vs: Seq<V>)
    ensures
        after_pushes(s, vs) == vs.reverse() + s,
    decreases vs.len(),
{
    if vs.len() == 0 {
        assert(vs.reverse() + s =~= s);
    } else {
        lemma_after_pushes(seq![vs[0]] + s, vs.drop_first());
        assert(vs.drop_first().reverse() + (seq![vs[0]] + s) =~= vs.reverse() + s);
    }
}

/// The value removed by a `pop`, handed to the caller as an owned cell.
#[derive(Debug)]
pub struct Entry<V> {
    val: V,
}

impl<V> Entry<V> {
    /// The value this entry carries.
    pub closed spec fn view(self) -> V {
        self.val
    }

    /// Borrows the carried value.
    pub fn value(&self) -> (v: &V)
        ensures
            *v == self@,
    {
        &self.val
    }

    /// Surrenders the carried value.
    pub fn into_value(self) -> (v: V)
        ensures
            v == self@,
    {
        self.val
    }
}

} // verus!
