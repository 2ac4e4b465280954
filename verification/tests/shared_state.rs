use lifetra::shared_state::{held_state, lock_state, new_shared, put_held, take_held, LockFailure};

#[test]
fn held_lock_reports_busy_instead_of_blocking() {
    let shared = new_shared(5u32);
    let locked = lock_state(&shared).expect("free lock");
    assert!(matches!(lock_state(&shared), Err(LockFailure::Busy)));
    drop(locked);

    let mut locked = lock_state(&shared).expect("released lock");
    assert_eq!(*held_state(&locked), 5);
    put_held(&mut locked, 7);
    drop(locked);
    let mut locked = lock_state(&shared).expect("released lock");
    assert_eq!(take_held(&mut locked, 0), 7);
    assert_eq!(*held_state(&locked), 0);
}
