use embedder::error::EmbedError;
use embedder::pool::{SessionPool, GPU_SESSIONS, LIGHT_SESSIONS};

#[test]
fn new_pool_is_idle() {
    let pool = SessionPool::new(3);
    assert_eq!(pool.capacity(), 3);
    assert_eq!(pool.available(), 3);
    assert_eq!(pool.active(), 0);
}

#[test]
fn pool_sizes_follow_the_backend() {
    assert_eq!(GPU_SESSIONS, 3);
    assert_eq!(LIGHT_SESSIONS, 25);
    assert_eq!(SessionPool::for_backend(true).capacity(), 3);
    assert_eq!(SessionPool::for_backend(true).available(), 3);
    assert_eq!(SessionPool::for_backend(false).capacity(), 25);
    assert_eq!(SessionPool::for_backend(false).available(), 25);
}

#[test]
fn admission_stops_at_capacity() {
    let mut pool = SessionPool::new(2);
    assert!(pool.try_admit());
    assert!(pool.try_admit());
    assert!(!pool.try_admit());
    assert_eq!(pool.available(), 0);
    assert_eq!(pool.capacity(), 2);
}

#[test]
fn claim_hands_out_the_first_free_session() {
    let mut pool = SessionPool::new(3);
    assert!(pool.try_admit());
    assert!(pool.try_admit());
    assert!(pool.try_admit());
    assert_eq!(pool.claim(), Ok(0));
    assert_eq!(pool.claim(), Ok(1));
    assert!(pool.release(0));
    assert!(pool.try_admit());
    assert_eq!(pool.claim(), Ok(0));
    assert_eq!(pool.claim(), Ok(2));
    assert_eq!(pool.active(), 3);
}

#[test]
fn claim_without_permit_is_a_fault() {
    let mut pool = SessionPool::new(2);
    assert_eq!(pool.claim(), Err(EmbedError::PoolExhausted));
    assert_eq!(pool.active(), 0);
    assert_eq!(pool.available(), 2);
    assert!(pool.try_admit());
    assert_eq!(pool.claim(), Ok(0));
    assert_eq!(pool.claim(), Err(EmbedError::PoolExhausted));
    assert_eq!(pool.active(), 1);
    assert_eq!(pool.available(), 1);
}

#[test]
fn release_frees_session_and_permit() {
    let mut pool = SessionPool::new(1);
    assert!(pool.try_admit());
    assert_eq!(pool.claim(), Ok(0));
    assert!(!pool.try_admit());
    assert!(pool.release(0));
    assert_eq!(pool.active(), 0);
    assert_eq!(pool.available(), 1);
    assert!(pool.try_admit());
    assert_eq!(pool.claim(), Ok(0));
}

#[test]
fn release_of_an_idle_or_unknown_slot_changes_nothing() {
    let mut pool = SessionPool::new(2);
    assert!(!pool.release(0));
    assert!(!pool.release(2));
    assert!(!pool.release(usize::MAX));
    assert_eq!(pool.available(), 2);
    assert!(pool.try_admit());
    assert_eq!(pool.claim(), Ok(0));
    assert!(!pool.release(1));
    assert_eq!(pool.active(), 1);
    assert_eq!(pool.available(), 1);
}

#[test]
fn cancel_returns_an_unused_permit_only() {
    let mut pool = SessionPool::new(2);
    assert!(!pool.cancel());
    assert!(pool.try_admit());
    assert!(pool.cancel());
    assert_eq!(pool.available(), 2);
    assert!(pool.try_admit());
    assert_eq!(pool.claim(), Ok(0));
    assert!(!pool.cancel());
    assert_eq!(pool.available(), 1);
    assert_eq!(pool.active(), 1);
}

#[test]
fn empty_pool_admits_nobody() {
    let mut pool = SessionPool::new(0);
    assert!(!pool.try_admit());
    assert_eq!(pool.claim(), Err(EmbedError::PoolExhausted));
    assert!(!pool.release(0));
    assert!(!pool.cancel());
}

#[test]
fn more_callers_than_sessions_all_complete() {
    let n = 3usize;
    let k = 4usize;
    let mut pool = SessionPool::new(n);
    let mut waiting = n + k;
    let mut running: Vec<usize> = Vec::new();
    let mut done = 0usize;
    let mut max_running = 0usize;
    while done < n + k {
        while waiting > 0 && pool.try_admit() {
            let slot = pool.claim().unwrap();
            assert!(!running.contains(&slot));
            running.push(slot);
            waiting -= 1;
        }
        assert!(pool.active() <= n);
        assert_eq!(pool.active(), running.len());
        assert_eq!(pool.active() + pool.available(), n);
        max_running = max_running.max(running.len());
        let slot = running.remove(0);
        assert!(pool.release(slot));
        done += 1;
    }
    assert_eq!(max_running, n);
    assert_eq!(pool.active(), 0);
    assert_eq!(pool.available(), n);
}
