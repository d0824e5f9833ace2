//! A key/value repository of user records over an abstract storage
//! capability, bound either at compile time (a generic parameter) or at
//! construction time (an owning pointer chosen by the caller). Both
//! bindings meet the same contracts, so they cannot be told apart by any
//! sequence of calls.

use vstd::prelude::*;
use std::collections::HashMap;

verus! {

broadcast use vstd::std_specs::hash::group_hash_axioms;

/// The error `add` returns when a record with the same id is already
/// stored: the repository never overwrites silently.
#[derive(Debug)]
pub struct CanNotAddUser;

/// A stored record: a unique numeric id, an email address, and an
/// activation flag.
#[derive(Debug, PartialEq)]
pub struct User {
    pub id: u64,
    pub email: String,
    pub activated: bool,
}

impl Clone for User {
    fn clone(&self) -> (r: Self)
        ensures
            r == *self,
    {
        User { id: self.id, email: self.email.clone(), activated: self.activated }
    }
}

impl Default for User {
    fn default() -> (r: Self)
        ensures
            r.id == 0,
            r.email@ == Seq::<char>::empty(),
            !r.activated,
    {
        User { id: 0, email: String::new(), activated: false }
    }
}

/// The storage capability: a mapping from keys to values, keys unique,
/// with insert-or-replace, lookup, and removal. `contents` is the
/// abstract map a concrete store holds.
pub trait Storage<K, V>: Sized {
    spec fn contents(&self) -> Map<K, V>;

    /// Insert the value under the key, replacing any previous value.
    fn set(&mut self, key: K, val: V)
        ensures
            final(self).contents() == old(self).contents().insert(key, val),
    ;

    /// Look the key up without mutating anything.
    fn get(&self, key: &K) -> (r: Option<&V>)
        ensures
            match r {
                Some(v) => self.contents().contains_key(*key) && *v == self.contents()[*key],
                None => !self.contents().contains_key(*key),
            },
    ;

    /// Delete the value under the key and hand back the prior value, if
    /// one was present.
    fn remove(&mut self, key: &K) -> (r: Option<V>)
        ensures
            final(self).contents() == old(self).contents().remove(*key),
            match r {
                Some(v) => old(self).contents().contains_key(*key) && v == old(self).contents()[*key],
                None => !old(self).contents().contains_key(*key),
            },
    ;
}

/// An in-memory store keyed by 64-bit integers, backed by a hash map.
pub struct DB<V> {
    pub storage: HashMap<u64, V>,
}

impl<V> Default for DB<V> {
    fn default() -> (r: Self)
        ensures
            r.contents() == Map::<u64, V>::empty(),
    {
        DB { storage: HashMap::new() }
    }
}

impl<V> Storage<u64, V> for DB<V> {
    open spec fn contents(&self) -> Map<u64, V> {
        self.storage@
    }

    fn set(&mut self, key: u64, val: V) {
        self.storage.insert(key, val);
    }

    fn get(&self, key: &u64) -> (r: Option<&V>) {
        self.storage.get(key)
    }

    fn remove(&mut self, key: &u64) -> (r: Option<V>) {
        self.storage.remove(key)
    }
}

/// The user-repository capability over a store of records keyed by their
/// id. `users` is the abstract map of stored records. Beyond raw storage
/// it promises one invariant: `add` refuses a taken id, while `update`
/// overwrites unconditionally.
pub trait UserRepository: Sized {
    spec fn users(&self) -> Map<u64, User>;

    /// Store a new record; fails when its id is already taken, and then
    /// leaves the repository unchanged.
    fn add(&mut self, user: User) -> (r: Result<(), CanNotAddUser>)
        ensures
            r is Ok <==> !old(self).users().contains_key(user.id),
            r is Ok ==> final(self).users() == old(self).users().insert(user.id, user),
            r is Err ==> final(self).users() == old(self).users(),
    ;

    /// Look a record up by id.
    fn get(&self, key: u64) -> (r: Option<&User>)
        ensures
            match r {
                Some(u) => self.users().contains_key(key) && *u == self.users()[key],
                None => !self.users().contains_key(key),
            },
    ;

    /// Store a record unconditionally, overwriting every field of any
    /// record with the same id. Always succeeds.
    fn update(&mut self, user: User)
        ensures
            final(self).users() == old(self).users().insert(user.id, user),
    ;

    /// Delete a record by id and hand back the prior record, if one was
    /// present.
    fn remove(&mut self, key: u64) -> (r: Option<User>)
        ensures
            final(self).users() == old(self).users().remove(key),
            match r {
                Some(u) => old(self).users().contains_key(key) && u == old(self).users()[key],
                None => !old(self).users().contains_key(key),
            },
    ;
}

/// A repository bound to its concrete store at compile time: calls
/// resolve with no runtime indirection.
pub struct UserRepositoryStatic<S: Storage<u64, User>> {
    pub storage: S,
}

impl<S: Storage<u64, User>> UserRepositoryStatic<S> {
    /// Bind the repository to the given store.
    pub fn new(storage: S) -> (r: Self)
        ensures
            r.users() == storage.contents(),
    {
        Self { storage }
    }
}

impl<S: Storage<u64, User>> UserRepository for UserRepositoryStatic<S> {
    open spec fn users(&self) -> Map<u64, User> {
        self.storage.contents()
    }

    fn add(&mut self, user: User) -> (r: Result<(), CanNotAddUser>) {
        if self.storage.get(&user.id).is_some() {
            return Err(CanNotAddUser);
        }
        self.storage.set(user.id, user);
        Ok(())
    }

    fn get(&self, key: u64) -> (r: Option<&User>) {
        self.storage.get(&key)
    }

    fn update(&mut self, user: User) {
        self.storage.set(user.id, user);
    }

    fn remove(&mut self, key: u64) -> (r: Option<User>) {
        self.storage.remove(&key)
    }
}

/// A repository holding its store behind an owning pointer supplied at
/// construction time, so the caller picks the concrete store when the
/// repository is built. The verifier does not take trait objects, so the
/// indirection a runtime binding would use is expressed as a boxed store
/// with the capability as a bound; it meets the same contracts as the
/// static binding, and the laws below show the two cannot be told apart.
pub struct UserRepositoryDynamic<S: Storage<u64, User>> {
    pub storage: Box<S>,
}

impl<S: Storage<u64, User>> UserRepositoryDynamic<S> {
    /// Bind the repository to the given boxed store.
    pub fn new(storage: Box<S>) -> (r: Self)
        ensures
            r.users() == storage.contents(),
    {
        Self { storage }
    }
}

impl<S: Storage<u64, User>> UserRepository for UserRepositoryDynamic<S> {
    open spec fn users(&self) -> Map<u64, User> {
        self.storage.contents()
    }

    fn add(&mut self, user: User) -> (r: Result<(), CanNotAddUser>) {
        if self.storage.get(&user.id).is_some() {
            return Err(CanNotAddUser);
        }
        self.storage.set(user.id, user);
        Ok(())
    }

    fn get(&self, key: u64) -> (r: Option<&User>) {
        self.storage.get(&key)
    }

    fn update(&mut self, user: User) {
        self.storage.set(user.id, user);
    }

    fn remove(&mut self, key: u64) -> (r: Option<User>) {
        self.storage.remove(&key)
    }
}

/// One repository operation, as a caller issues it.
pub enum RepoOp {
    Add(User),
    Get(u64),
    Update(User),
    Remove(u64),
}

/// What a caller observes from one operation: the verdict of an `add`, a
/// looked-up record, an update acknowledgement, or a removed record.
#[derive(Debug, PartialEq)]
pub enum RepoOutcome {
    Added(bool),
    Got(Option<User>),
    Updated,
    Removed(Option<User>),
}

/// The repository contracts, restated as a relation between the records
/// held before an operation, the records held after it, and the outcome
/// the caller observes. Each clause mirrors the corresponding `ensures`
/// of [`UserRepository`].
pub open spec fn op_allowed(
    m: Map<u64, User>,
    op: RepoOp,
    m2: Map<u64, User>,
    out: RepoOutcome,
) -> bool {
    match op {
        RepoOp::Add(user) => match out {
            RepoOutcome::Added(ok) => {
                &&& (ok <==> !m.contains_key(user.id))
                &&& (ok ==> m2 == m.insert(user.id, user))
                &&& (!ok ==> m2 == m)
            },
            _ => false,
        },
        RepoOp::Get(key) => match out {
            RepoOutcome::Got(r) => {
                &&& m2 == m
                &&& match r {
                    Some(u) => m.contains_key(key) && u == m[key],
                    None => !m.contains_key(key),
                }
            },
            _ => false,
        },
        RepoOp::Update(user) => out is Updated && m2 == m.insert(user.id, user),
        RepoOp::Remove(key) => match out {
            RepoOutcome::Removed(r) => {
                &&& m2 == m.remove(key)
                &&& match r {
                    Some(u) => m.contains_key(key) && u == m[key],
                    None => !m.contains_key(key),
                }
            },
            _ => false,
        },
    }
}

/// A whole run: `outs` are outcomes that an implementation meeting the
/// repository contracts could produce for the calls `ops`, issued in
/// order against a repository that starts out holding `m`.
pub open spec fn run_allowed(m: Map<u64, User>, ops: Seq<RepoOp>, outs: Seq<RepoOutcome>) -> bool
    decreases ops.len(),
{
    if ops.len() == 0 {
        outs.len() == 0
    } else {
        &&& outs.len() == ops.len()
        &&& exists|mid: Map<u64, User>|
            #[trigger] op_allowed(m, ops[0], mid, outs[0])
                && run_allowed(mid, ops.drop_first(), outs.drop_first())
    }
}

/// What one operation leaves behind, as the contracts fix it: an `add`
/// with a taken id changes nothing, every other operation has the effect
/// of the matching map operation.
pub open spec fn step_state(m: Map<u64, User>, op: RepoOp) -> Map<u64, User> {
    match op {
        RepoOp::Add(user) => if m.contains_key(user.id) {
            m
        } else {
            m.insert(user.id, user)
        },
        RepoOp::Get(key) => m,
        RepoOp::Update(user) => m.insert(user.id, user),
        RepoOp::Remove(key) => m.remove(key),
    }
}

/// The records held after the operations run in order from `m`.
pub open spec fn state_after(m: Map<u64, User>, ops: Seq<RepoOp>) -> Map<u64, User>
    decreases ops.len(),
{
    if ops.len() == 0 {
        m
    } else {
        state_after(step_state(m, ops[0]), ops.drop_first())
    }
}

/// An allowed step leaves exactly the state the contracts fix.
proof fn lemma_step_state_pins(m: Map<u64, User>, op: RepoOp, m2: Map<u64, User>, out: RepoOutcome)
    requires
        op_allowed(m, op, m2, out),
    ensures
        m2 == step_state(m, op),
{
}

/// An allowed run extends by one allowed step taken from its final state.
proof fn lemma_run_allowed_snoc(
    m: Map<u64, User>,
    ops: Seq<RepoOp>,
    outs: Seq<RepoOutcome>,
    op: RepoOp,
    m2: Map<u64, User>,
    out: RepoOutcome,
)
    requires
        run_allowed(m, ops, outs),
        op_allowed(state_after(m, ops), op, m2, out),
    ensures
        run_allowed(m, ops.push(op), outs.push(out)),
        state_after(m, ops.push(op)) == m2,
    decreases ops.len(),
{
    lemma_step_state_pins(state_after(m, ops), op, m2, out);
    if ops.len() == 0 {
        assert(ops.push(op).drop_first() =~= Seq::<RepoOp>::empty());
        assert(outs.push(out).drop_first() =~= Seq::<RepoOutcome>::empty());
        assert(ops.push(op)[0] == op);
        assert(op_allowed(m, ops.push(op)[0], m2, outs.push(out)[0]));
        assert(run_allowed(m2, ops.push(op).drop_first(), outs.push(out).drop_first()));
        assert(state_after(m, ops.push(op)) == state_after(
            step_state(m, op),
            ops.push(op).drop_first(),
        ));
    } else {
        let mid = choose|mid: Map<u64, User>|
            #[trigger] op_allowed(m, ops[0], mid, outs[0])
                && run_allowed(mid, ops.drop_first(), outs.drop_first());
        lemma_step_state_pins(m, ops[0], mid, outs[0]);
        assert(state_after(m, ops) == state_after(mid, ops.drop_first()));
        lemma_run_allowed_snoc(mid, ops.drop_first(), outs.drop_first(), op, m2, out);
        assert(ops.push(op).drop_first() =~= ops.drop_first().push(op));
        assert(outs.push(out).drop_first() =~= outs.drop_first().push(out));
        assert(ops.push(op)[0] == ops[0]);
        assert(op_allowed(m, ops.push(op)[0], mid, outs.push(out)[0]));
        assert(state_after(m, ops.push(op)) == state_after(
            step_state(m, ops[0]),
            ops.push(op).drop_first(),
        ));
    }
}

/// Issue the operations in order against the repository and collect what
/// each one returns. Whatever the implementation — statically or
/// dynamically bound — the trace is one the operation model allows, so by
/// [`lemma_dispatch_strategies_agree`] two repositories that hold the
/// same records return identical traces for the same operations.
pub fn run_ops<R: UserRepository>(rep: &mut R, ops: &Vec<RepoOp>) -> (outs: Vec<RepoOutcome>)
    ensures
        run_allowed(old(rep).users(), ops@, outs@),
        final(rep).users() == state_after(old(rep).users(), ops@),
{
    let ghost m0 = rep.users();
    let mut outs: Vec<RepoOutcome> = Vec::new();
    let n: usize = ops.len();
    let mut i: usize = 0;
    proof {
        assert(ops@.take(0) =~= Seq::<RepoOp>::empty());
    }
    while i < n
        invariant
            i <= n,
            n == ops@.len(),
            outs@.len() == i,
            run_allowed(m0, ops@.take(i as int), outs@),
            rep.users() == state_after(m0, ops@.take(i as int)),
        decreases n - i,
    {
        let ghost s = rep.users();
        let op = &ops[i];
        let out: RepoOutcome = match op {
            RepoOp::Add(user) => RepoOutcome::Added(rep.add(user.clone()).is_ok()),
            RepoOp::Get(key) => RepoOutcome::Got(rep.get(*key).cloned()),
            RepoOp::Update(user) => {
                rep.update(user.clone());
                RepoOutcome::Updated
            },
            RepoOp::Remove(key) => RepoOutcome::Removed(rep.remove(*key)),
        };
        proof {
            assert(op_allowed(s, ops@[i as int], rep.users(), out));
            lemma_run_allowed_snoc(m0, ops@.take(i as int), outs@, ops@[i as int], rep.users(), out);
            assert(ops@.take(i as int).push(ops@[i as int]) =~= ops@.take(i as int + 1));
        }
        outs.push(out);
        i = i + 1;
    }
    proof {
        assert(ops@.take(n as int) =~= ops@);
    }
    outs
}

/// The contracts leave an implementation no observable choice: for one
/// operation from one starting state, any two allowed outcomes agree, and
/// so do the states they leave behind.
pub proof fn lemma_op_deterministic(
    m: Map<u64, User>,
    op: RepoOp,
    ma: Map<u64, User>,
    oa: RepoOutcome,
    mb: Map<u64, User>,
    ob: RepoOutcome,
)
    requires
        op_allowed(m, op, ma, oa),
        op_allowed(m, op, mb, ob),
    ensures
        ma == mb,
        oa == ob,
{
}

/// Binding strategies cannot be told apart: two repositories that meet
/// the contracts and hold the same records produce identical outcome
/// sequences for the same sequence of `add`/`get`/`update`/`remove`
/// calls, whether each binds its store statically or dynamically.
pub proof fn lemma_dispatch_strategies_agree(
    m: Map<u64, User>,
    ops: Seq<RepoOp>,
    outs1: Seq<RepoOutcome>,
    outs2: Seq<RepoOutcome>,
)
    requires
        run_allowed(m, ops, outs1),
        run_allowed(m, ops, outs2),
    ensures
        outs1 == outs2,
    decreases ops.len(),
{
    if ops.len() == 0 {
        assert(outs1 =~= outs2);
    } else {
        let mid1 = choose|mid: Map<u64, User>|
            #[trigger] op_allowed(m, ops[0], mid, outs1[0])
                && run_allowed(mid, ops.drop_first(), outs1.drop_first());
        let mid2 = choose|mid: Map<u64, User>|
            #[trigger] op_allowed(m, ops[0], mid, outs2[0])
                && run_allowed(mid, ops.drop_first(), outs2.drop_first());
        lemma_op_deterministic(m, ops[0], mid1, outs1[0], mid2, outs2[0]);
        lemma_dispatch_strategies_agree(
            mid1,
            ops.drop_first(),
            outs1.drop_first(),
            outs2.drop_first(),
        );
        assert forall|i: int| 0 <= i < outs1.len() implies outs1[i] == outs2[i] by {
            if i > 0 {
                assert(outs1[i] == outs1.drop_first()[i - 1]);
                assert(outs2[i] == outs2.drop_first()[i - 1]);
            }
        }
        assert(outs1 =~= outs2);
    }
}

} // verus!
