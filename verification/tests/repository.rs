use concepts::repository::{
    RepoOp, User, UserRepository, UserRepositoryDynamic, UserRepositoryStatic, DB,
};
use concepts::repository::run_ops;

#[test]
fn static_repository() {
    let mut rep = UserRepositoryStatic { storage: DB::default() };

    let mut user = User { id: 1, email: "user@gmail.com".into(), activated: true };
    assert!(rep.add(user.clone()).is_ok());

    assert_eq!(1, rep.storage.storage.len());
    assert_eq!(Some(&user), rep.get(1));

    user.activated = false;
    rep.update(user.clone());

    assert_eq!(Some(&user), rep.get(1));

    assert_eq!(Some(user), rep.remove(1));
    assert_eq!(0, rep.storage.storage.len());

    assert_eq!(None, rep.get(100));
    assert_eq!(None, rep.remove(100));
}

#[test]
fn dynamic_repository() {
    let mut rep = UserRepositoryDynamic { storage: Box::new(DB::default()) };

    let mut user = User { id: 1, email: "user@gmail.com".into(), activated: true };
    assert!(rep.add(user.clone()).is_ok());

    assert_eq!(Some(&user), rep.get(1));

    user.activated = false;
    rep.update(user.clone());

    assert_eq!(Some(&user), rep.get(1));
    assert_eq!(Some(user), rep.remove(1));

    assert_eq!(None, rep.get(100));
    assert_eq!(None, rep.remove(100));
}

#[test]
fn add_rejects_duplicate_id() {
    let mut rep = UserRepositoryStatic::new(DB::default());

    let user = User { id: 1, email: "first@example.com".into(), activated: true };
    assert!(rep.add(user.clone()).is_ok());

    let other = User { id: 1, email: "second@example.com".into(), activated: false };
    assert!(rep.add(other).is_err());

    assert_eq!(Some(&user), rep.get(1));
    assert_eq!(Some(user), rep.remove(1));
    assert_eq!(None, rep.get(1));
}

#[test]
fn update_overwrites_all_fields() {
    let mut rep = UserRepositoryStatic::new(DB::default());

    let user = User { id: 1, email: "user@gmail.com".into(), activated: true };
    assert!(rep.add(user.clone()).is_ok());

    let replacement = User { id: 1, email: "other@gmail.com".into(), activated: false };
    rep.update(replacement.clone());

    let stored = rep.get(1).expect("record must be present after update");
    assert_eq!(&replacement, stored);
    assert!(!stored.activated);
    assert_eq!("other@gmail.com", stored.email);
}

#[test]
fn update_inserts_when_absent() {
    let mut rep = UserRepositoryStatic::new(DB::default());

    let user = User { id: 7, email: "seven@example.com".into(), activated: true };
    rep.update(user.clone());

    assert_eq!(Some(&user), rep.get(7));
}

#[test]
fn dispatch_strategies_identical_trace() {
    let mut stat = UserRepositoryStatic::new(DB::default());
    let mut dynm = UserRepositoryDynamic::new(Box::new(DB::default()));

    let first = User { id: 1, email: "a@b.c".into(), activated: true };
    let clash = User { id: 1, email: "x@y.z".into(), activated: false };
    let second = User { id: 2, email: "d@e.f".into(), activated: false };
    let changed = User { id: 1, email: "a@b.c".into(), activated: false };

    assert_eq!(
        stat.add(first.clone()).is_ok(),
        dynm.add(first.clone()).is_ok(),
    );
    assert_eq!(
        stat.add(clash.clone()).is_ok(),
        dynm.add(clash.clone()).is_ok(),
    );
    assert_eq!(
        stat.add(second.clone()).is_ok(),
        dynm.add(second.clone()).is_ok(),
    );
    assert_eq!(stat.get(1), dynm.get(1));
    stat.update(changed.clone());
    dynm.update(changed.clone());
    assert_eq!(stat.get(1), dynm.get(1));
    assert_eq!(stat.remove(2), dynm.remove(2));
    assert_eq!(stat.remove(2), dynm.remove(2));
    assert_eq!(stat.get(2), dynm.get(2));
    assert_eq!(stat.remove(1), dynm.remove(1));
    assert_eq!(stat.get(1), dynm.get(1));
}

fn record(id: u64, email: &str, activated: bool) -> User {
    User { id, email: email.into(), activated }
}

fn trace_ops() -> Vec<RepoOp> {
    vec![
        RepoOp::Get(1),
        RepoOp::Add(record(1, "a@b.c", true)),
        RepoOp::Add(record(1, "x@y.z", false)),
        RepoOp::Get(1),
        RepoOp::Update(record(1, "a@b.c", false)),
        RepoOp::Get(1),
        RepoOp::Remove(2),
        RepoOp::Remove(1),
        RepoOp::Get(1),
    ]
}

#[test]
fn same_operations_same_trace() {
    let mut stat = UserRepositoryStatic::new(DB::default());
    let mut dynm = UserRepositoryDynamic::new(Box::new(DB::default()));

    let trace_static = run_ops(&mut stat, &trace_ops());
    let trace_dynamic = run_ops(&mut dynm, &trace_ops());
    assert_eq!(trace_static, trace_dynamic);
}

#[test]
fn default_user_is_blank() {
    let user = User::default();
    assert_eq!(0, user.id);
    assert_eq!("", user.email);
    assert!(!user.activated);
}
