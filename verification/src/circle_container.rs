//! An endless, restartable sequence over a fixed finite list.

use std::collections::VecDeque;
use vstd::prelude::*;

verus! {

/// A queue that hands out its head and puts it back at the tail, so that
/// pulling never exhausts a non-empty container.
#[derive(Debug)]
pub struct CircleContainer<T: Copy> {
    underlying_deque: VecDeque<T>,
}

/// The contents after one pull: the head has moved to the tail.
pub open spec fn rotate_once<T>(s: Seq<T>) -> Seq<T> {
    if s.len() == 0 {
        s
    } else {
        s.subrange(1, s.len() as int).push(s[0])
    }
}

/// The contents after `n` pulls.
pub open spec fn rotate<T>(s: Seq<T>, n: nat) -> Seq<T>
    decreases n,
{
    if n == 0 {
        s
    } else {
        rotate_once(rotate(s, (n - 1) as nat))
    }
}

/// What the pull numbered `n` (counting from zero) returns from a container
/// that started out as `s`.
pub open spec fn pulled<T>(s: Seq<T>, n: nat) -> Option<T> {
    let r = rotate(s, n);
    if r.len() == 0 {
        None
    } else {
        Some(r[0])
    }
}

impl<T: Copy> View for CircleContainer<T> {
    type V = Seq<T>;

    /// The elements in the order in which the next pulls return them.
    closed spec fn view(&self) -> Seq<T> {
        self.underlying_deque@
    }
}

impl<T: Copy> CircleContainer<T> {
    /// Wraps `vec`; the first pull returns its first element.
    pub fn new(vec: Vec<T>) -> (c: CircleContainer<T>)
        ensures
            c@ == vec@,
    {
        let mut deque: VecDeque<T> = VecDeque::new();
        let mut i: usize = 0;
        while i < vec.len()
            invariant
                i <= vec.len(),
                deque@ == vec@.subrange(0, i as int),
            decreases vec.len() - i,
        {
            deque.push_back(vec[i]);
            i += 1;
        }
        assert(vec@.subrange(0, vec.len() as int) == vec@);
        CircleContainer { underlying_deque: deque }
    }

    /// Number of elements in the cycle.
    pub fn len(&self) -> (n: usize)
        ensures
            n == self@.len(),
    {
        self.underlying_deque.len()
    }

    /// Returns the head and moves it to the tail; `None` only when empty.
    pub fn next(&mut self) -> (r: Option<T>)
        ensures
            r == pulled(old(self)@, 0),
            final(self)@ == rotate_once(old(self)@),
    {
        match self.underlying_deque.pop_front() {
            None => None,
            Some(cur_elem) => {
                self.underlying_deque.push_back(cur_elem);
                Some(cur_elem)
            },
        }
    }
}

/// After `n` pulls a non-empty container holds its elements shifted by `n`
/// places, wrapping round.
pub proof fn lemma_rotate_shifts<T>(s: Seq<T>, n: nat)
    requires
        s.len() > 0,
    ensures
        rotate(s, n).len() == s.len(),
        forall|i: int|
            0 <= i < s.len() ==> #[trigger] rotate(s, n)[i] == s[(i + n) % (s.len() as int)],
    decreases n,
{
    let len = s.len() as int;
    if n == 0 {
        assert forall|i: int| 0 <= i < len implies #[trigger] rotate(s, n)[i] == s[(i + n) % len] by {
            vstd::arithmetic::div_mod::lemma_small_mod(i as nat, len as nat);
        }
    } else {
        let m = (n - 1) as nat;
        lemma_rotate_shifts(s, m);
        let p = rotate(s, m);
        assert forall|i: int| 0 <= i < len implies #[trigger] rotate(s, n)[i] == s[(i + n) % len] by {
            if i < len - 1 {
                assert(rotate(s, n)[i] == p[i + 1]);
            } else {
                assert(rotate(s, n)[i] == p[0]);
                vstd::arithmetic::div_mod::lemma_mod_add_multiples_vanish(m as int, len);
            }
        }
    }
}

/// The pull numbered `n` returns the element at `n` modulo the length.
pub proof fn lemma_pulled_is_indexed<T>(s: Seq<T>, n: nat)
    requires
        s.len() > 0,
    ensures
        pulled(s, n) == Some(s[(n as int) % (s.len() as int)]),
{
    lemma_rotate_shifts(s, n);
}

/// Pulling a non-empty container never ends and repeats with the period of
/// its length: the pull numbered `len + k` returns what the pull numbered
/// `k` returned.
pub proof fn lemma_pulls_repeat<T>(s: Seq<T>, k: nat)
    requires
        s.len() > 0,
    ensures
        pulled(s, k) is Some,
        pulled(s, s.len() + k) == pulled(s, k),
        rotate(s, s.len() + k) == rotate(s, k),
{
    let len = s.len() as int;
    lemma_rotate_shifts(s, k);
    lemma_rotate_shifts(s, s.len() + k);
    assert forall|i: int| 0 <= i < len implies rotate(s, s.len() + k)[i] == rotate(s, k)[i] by {
        vstd::arithmetic::div_mod::lemma_mod_add_multiples_vanish(i + k, len);
    }
    assert(rotate(s, s.len() + k) =~= rotate(s, k));
}

} // verus!
