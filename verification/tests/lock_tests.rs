use cycler::{AtomicRwLock, AtomicValue};

fn single_thread_test<A: AtomicValue + PartialEq + std::fmt::Debug>(
    mut lock: AtomicRwLock<String, A>,
) {
    let zero = A::one().minus_one();
    let one = A::one();
    let two = A::one().plus_one();
    assert_eq!(one, lock.load());
    let write_guard = lock.try_write().expect("Could not lock when writer available");
    *lock.write_mut(&write_guard) = "Test1".to_string();
    assert_eq!(zero, lock.load());
    assert!(lock.try_write().is_none());
    assert!(lock.try_read().is_none());
    assert!(lock.try_write().is_none());
    assert!(lock.try_read().is_none());
    lock.release_write(write_guard);
    assert_eq!(one, lock.load());
    let read_guard = lock.try_read().expect("Could not lock when reader available");
    assert_eq!(two, lock.load());
    assert!(lock.try_write().is_none());
    let second = lock.try_read();
    assert!(second.is_some());
    lock.release_read(second.unwrap());
    assert!(lock.try_write().is_none());
    let third = lock.try_read();
    assert!(third.is_some());
    lock.release_read(third.unwrap());
    assert_eq!(*lock.read_ref(&read_guard), "Test1");
    lock.release_read(read_guard);
    assert_eq!(one, lock.load());
    let write_guard = lock.try_write().expect("Could not lock when writer was available again");
    *lock.write_mut(&write_guard) = "Test2".to_string();
    assert!(lock.try_write().is_none());
    assert!(lock.try_read().is_none());
    assert!(lock.try_write().is_none());
    assert!(lock.try_read().is_none());
    let read_guard = write_guard.downgrade(&mut lock);
    assert_eq!(two, lock.load());
    assert!(lock.try_write().is_none());
    let second = lock.try_read();
    assert!(second.is_some());
    lock.release_read(second.unwrap());
    assert!(lock.try_write().is_none());
    let third = lock.try_read();
    assert!(third.is_some());
    lock.release_read(third.unwrap());
    assert_eq!(*lock.read_ref(&read_guard), "Test2");
    lock.release_read(read_guard);
    assert_eq!(one, lock.load());
}

#[test]
fn test_u8() {
    single_thread_test(AtomicRwLock::new_u8("".to_string()));
}

#[test]
fn test_u16() {
    single_thread_test(AtomicRwLock::new_u16("".to_string()));
}

#[test]
fn test_u32() {
    single_thread_test(AtomicRwLock::new_u32("".to_string()));
}

#[test]
fn test_u64() {
    single_thread_test(AtomicRwLock::new_u64("".to_string()));
}

#[test]
fn test_usize() {
    single_thread_test(AtomicRwLock::new_usize("".to_string()));
}

#[test]
fn lock_new_and_into_inner() {
    let lock: AtomicRwLock<String, u8> = AtomicRwLock::new("kept".to_string());
    assert_eq!(1, lock.load());
    assert_eq!(lock.into_inner(), "kept");
}

#[test]
fn lock_get_mut_keeps_counter() {
    let mut lock: AtomicRwLock<u64, u8> = AtomicRwLock::new(7);
    *lock.get_mut() = 9;
    assert_eq!(1, lock.load());
    assert_eq!(lock.into_inner(), 9);
}

#[test]
fn lock_static_variants_share_discipline() {
    let mut lock: AtomicRwLock<u32, u8> = AtomicRwLock::new(1);
    let g = lock.try_read_static().expect("free lock is readable");
    assert_eq!(2, lock.load());
    assert!(lock.try_write_static().is_none());
    lock.release_read(g);
    let w = lock.try_write_static().expect("free lock is writable");
    assert_eq!(0, lock.load());
    assert!(lock.try_read_static().is_none());
    lock.release_write(w);
    assert_eq!(1, lock.load());
}

#[test]
fn writer_into_inner_keeps_lock_held() {
    let mut lock: AtomicRwLock<u32, u8> = AtomicRwLock::new(3);
    let w = lock.try_write().expect("free lock is writable");
    w.into_inner();
    assert_eq!(0, lock.load());
    assert!(lock.try_read().is_none());
    assert!(lock.try_write().is_none());
}
