//! A last-in-first-out stack of values behind a shared handle. The handle
//! may be duplicated; every duplicate reaches the same underlying sequence
//! through the same exclusive lock, so operations from concurrent callers
//! are totally ordered by lock acquisition. The lock does not poison: a
//! verified reader–writer lock guards the sequence.

use vstd::prelude::*;
use vstd::rwlock::RwLock;
use vstd::seq_lib::lemma_multiset_commutative;
use std::sync::Arc;

verus! {

/// What one push does to the guarded sequence: the value goes on top.
pub open spec fn spec_push<T>(s: Seq<T>, v: T) -> Seq<T> {
    s.push(v)
}

/// What one pop does: the top comes off and is handed back, or an empty
/// stack reports `None` and stays empty — it never blocks for a value.
pub open spec fn spec_pop<T>(s: Seq<T>) -> (Seq<T>, Option<T>) {
    if s.len() == 0 {
        (s, None)
    } else {
        (s.drop_last(), Some(s.last()))
    }
}

/// The sequence after the values `vs` are pushed one at a time, in order.
pub open spec fn push_all<T>(s: Seq<T>, vs: Seq<T>) -> Seq<T>
    decreases vs.len(),
{
    if vs.len() == 0 {
        s
    } else {
        push_all(spec_push(s, vs[0]), vs.drop_first())
    }
}

/// The values handed back by `n` pops in a row.
pub open spec fn pop_values<T>(s: Seq<T>, n: nat) -> Seq<Option<T>>
    decreases n,
{
    if n == 0 {
        Seq::empty()
    } else {
        seq![spec_pop(s).1] + pop_values(spec_pop(s).0, (n - 1) as nat)
    }
}

/// Pushing values one at a time appends them in order.
pub proof fn lemma_push_all_appends<T>(s: Seq<T>, vs: Seq<T>)
    ensures
        push_all(s, vs) == s + vs,
    decreases vs.len(),
{
    if vs.len() == 0 {
        assert(push_all(s, vs) =~= s + vs);
    } else {
        lemma_push_all_appends(spec_push(s, vs[0]), vs.drop_first());
        assert(spec_push(s, vs[0]) + vs.drop_first() =~= s + vs);
    }
}

/// LIFO order: after the values `vs` are pushed in order, popping as many
/// times as values were pushed yields them back-to-front, each one
/// present — and a pop on an empty stack yields `None` rather than
/// blocking, since `spec_pop` is total.
pub proof fn lemma_lifo<T>(s: Seq<T>, vs: Seq<T>)
    ensures
        pop_values(push_all(s, vs), vs.len()) == Seq::new(
            vs.len(),
            |i: int| Some(vs[vs.len() - 1 - i]),
        ),
    decreases vs.len(),
{
    lemma_push_all_appends(s, vs);
    let n = vs.len() as int;
    let expected = Seq::new(vs.len(), |i: int| Some(vs[n - 1 - i]));
    if n == 0 {
        assert(pop_values(push_all(s, vs), vs.len()) =~= expected);
    } else {
        let full = s + vs;
        assert(full.last() == vs.last());
        assert(full.drop_last() =~= s + vs.drop_last());
        lemma_lifo(s, vs.drop_last());
        lemma_push_all_appends(s, vs.drop_last());
        let tail = pop_values(s + vs.drop_last(), (n - 1) as nat);
        assert(pop_values(full, vs.len()) == seq![Some(vs.last())] + tail);
        assert forall|i: int| 0 <= i < n implies (seq![Some(vs.last())] + tail)[i]
            == expected[i] by {
            if i > 0 {
                assert(tail[i - 1] == Some(vs.drop_last()[n - 1 - i]));
                assert(vs.drop_last()[n - 1 - i] == vs[n - 1 - i]);
            }
        }
        assert(pop_values(full, vs.len()) =~= expected);
    }
}

/// No update is lost or duplicated: however a run of pushes is ordered,
/// each one appends exactly one element, so a stack that receives the
/// values `vs` grows by their number and afterwards holds exactly the old
/// elements together with every pushed value, counted with multiplicity.
pub proof fn lemma_pushes_lose_nothing<T>(s: Seq<T>, vs: Seq<T>)
    ensures
        push_all(s, vs).len() == s.len() + vs.len(),
        push_all(s, vs).to_multiset() == s.to_multiset().add(vs.to_multiset()),
{
    lemma_push_all_appends(s, vs);
    lemma_multiset_commutative(s, vs);
}

/// A last-in-first-out stack reachable from any duplicate of its handle,
/// every operation serialized by one exclusive lock.
#[verifier::reject_recursive_types(T)]
pub struct GlobalStack<T> {
    inner: Arc<RwLock<Vec<T>, spec_fn(Vec<T>) -> bool>>,
}

/// Relies on `Arc::clone`: the returned handle points to the same
/// allocation as the given one, so it equals it.
#[verifier::external_body]
fn arc_clone<T>(a: &Arc<T>) -> (r: Arc<T>)
    ensures
        r == *a,
{
    Arc::clone(a)
}

impl<T> GlobalStack<T> {
    #[verifier::type_invariant]
    spec fn wf(&self) -> bool {
        forall|v: Vec<T>| (*self.inner).inv(v)
    }

    /// Create an empty stack with a fresh lock and a fresh handle.
    pub fn new() -> (r: Self) {
        let lock = RwLock::<Vec<T>, spec_fn(Vec<T>) -> bool>::new(
            Vec::new(),
            Ghost(|v: Vec<T>| true),
        );
        GlobalStack { inner: Arc::new(lock) }
    }

    /// Put a value on top of the shared sequence. Acquires the lock for
    /// the whole operation, performs one `spec_push` step on the guarded
    /// sequence, and always succeeds; the value is visible to every
    /// holder of a duplicate handle once the call returns.
    pub fn push(&self, value: T) {
        proof {
            use_type_invariant(self);
        }
        let (mut vec, handle) = self.inner.acquire_write();
        let ghost prev = vec@;
        vec.push(value);
        assert(vec@ == spec_push(prev, value));
        handle.release_write(vec);
    }

    /// Take the top value off the shared sequence, or report `None` when
    /// it is empty, without blocking for a value. Acquires the lock for
    /// the whole operation and performs one `spec_pop` step on the
    /// guarded sequence; which value is on top depends on every holder of
    /// a duplicate handle, so no handle-local contract can pin it.
    pub fn pop(&self) -> (r: Option<T>) {
        proof {
            use_type_invariant(self);
        }
        let (mut vec, handle) = self.inner.acquire_write();
        let ghost prev = vec@;
        let r = vec.pop();
        assert(vec@ =~= spec_pop(prev).0);
        assert(r == spec_pop(prev).1);
        handle.release_write(vec);
        r
    }

    /// Hand back a copy of the top value without removing it, or `None`
    /// when the stack is empty. Readers share the lock.
    pub fn peek(&self) -> (r: Option<T>) where T: Clone {
        proof {
            use_type_invariant(self);
        }
        let read_handle = self.inner.acquire_read();
        let vec = read_handle.borrow();
        let r = if vec.len() > 0 {
            Some(vec[vec.len() - 1].clone())
        } else {
            None
        };
        read_handle.release_read();
        r
    }
}

impl<T> Clone for GlobalStack<T> {
    /// Duplicating the handle shares the same lock and the same
    /// underlying sequence — the duplicate equals the original — and
    /// copies no data.
    fn clone(&self) -> (r: Self)
        ensures
            r == *self,
    {
        proof {
            use_type_invariant(self);
        }
        GlobalStack { inner: arc_clone(&self.inner) }
    }
}

} // verus!
