//! A thin command-dispatch layer over the user repository: a record
//! invokes repository operations through a uniform `handle_command`
//! indirection, so the same handler code works against either
//! storage-binding strategy.

use vstd::prelude::*;
use crate::repository::{CanNotAddUser, User, UserRepository};

verus! {

/// A marker for the commands a handler dispatches on.
pub trait Command {}

/// Handles one kind of command against a context. `handle_spec` states
/// what handling does to the context and what comes back; each
/// implementation fixes it, and `handle_command` is held to it.
pub trait CommandHandler<C: Command, Ctx>: Sized {
    type Outcome;

    spec fn handle_spec(&self, old_ctx: Ctx, new_ctx: Ctx, outcome: Self::Outcome) -> bool;

    fn handle_command(&self, cmd: &C, ctx: &mut Ctx) -> (r: Self::Outcome)
        ensures
            self.handle_spec(*old(ctx), *final(ctx), r),
    ;
}

/// The command to store the record as a new entry.
pub struct Add;

/// The command to look the record's id up.
pub struct Get;

/// The command to overwrite whatever is stored under the record's id.
pub struct Update;

/// The command to delete whatever is stored under the record's id.
pub struct Remove;

impl Command for Add {}

impl Command for Get {}

impl Command for Update {}

impl Command for Remove {}

impl<R: UserRepository> CommandHandler<Add, R> for User {
    type Outcome = Result<(), CanNotAddUser>;

    open spec fn handle_spec(&self, old_ctx: R, new_ctx: R, outcome: Self::Outcome) -> bool {
        &&& (outcome is Ok <==> !old_ctx.users().contains_key(self.id))
        &&& (outcome is Ok ==> new_ctx.users() == old_ctx.users().insert(self.id, *self))
        &&& (outcome is Err ==> new_ctx.users() == old_ctx.users())
    }

    fn handle_command(&self, cmd: &Add, ctx: &mut R) -> (r: Self::Outcome) {
        ctx.add(self.clone())
    }
}

impl<R: UserRepository> CommandHandler<Get, R> for User {
    type Outcome = Option<User>;

    open spec fn handle_spec(&self, old_ctx: R, new_ctx: R, outcome: Self::Outcome) -> bool {
        &&& new_ctx == old_ctx
        &&& match outcome {
            Some(u) => old_ctx.users().contains_key(self.id) && u == old_ctx.users()[self.id],
            None => !old_ctx.users().contains_key(self.id),
        }
    }

    fn handle_command(&self, cmd: &Get, ctx: &mut R) -> (r: Self::Outcome) {
        ctx.get(self.id).cloned()
    }
}

impl<R: UserRepository> CommandHandler<Update, R> for User {
    type Outcome = ();

    open spec fn handle_spec(&self, old_ctx: R, new_ctx: R, outcome: Self::Outcome) -> bool {
        new_ctx.users() == old_ctx.users().insert(self.id, *self)
    }

    fn handle_command(&self, cmd: &Update, ctx: &mut R) -> (r: Self::Outcome) {
        ctx.update(self.clone())
    }
}

impl<R: UserRepository> CommandHandler<Remove, R> for User {
    type Outcome = Option<User>;

    open spec fn handle_spec(&self, old_ctx: R, new_ctx: R, outcome: Self::Outcome) -> bool {
        &&& new_ctx.users() == old_ctx.users().remove(self.id)
        &&& match outcome {
            Some(u) => old_ctx.users().contains_key(self.id) && u == old_ctx.users()[self.id],
            None => !old_ctx.users().contains_key(self.id),
        }
    }

    fn handle_command(&self, cmd: &Remove, ctx: &mut R) -> (r: Self::Outcome) {
        ctx.remove(self.id)
    }
}

} // verus!
