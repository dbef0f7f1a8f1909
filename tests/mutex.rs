use sharing::lock::{LockOutcome, Mutex};

#[test]
fn lock_then_set() {
    let mut m = Mutex::new(5);
    assert_eq!(m.lock(1), LockOutcome::Acquired);
    assert_eq!(m.set(1, 6), 5);
    assert_eq!(m.unlock(1, false), None);
    assert_eq!(m.holder(), None);
    assert_eq!(m.into_inner(), 6);
}

#[test]
fn waiters_are_handed_the_lock_in_arrival_order() {
    let mut m = Mutex::new(0);
    assert_eq!(m.lock(1), LockOutcome::Acquired);
    assert_eq!(m.lock(2), LockOutcome::Wait);
    assert_eq!(m.lock(3), LockOutcome::Wait);
    assert_eq!(m.waiting(), 2);
    assert_eq!(m.unlock(1, false), Some(2));
    assert_eq!(m.holder(), Some(2));
    assert_eq!(m.unlock(2, false), Some(3));
    assert_eq!(m.unlock(3, false), None);
    assert_eq!(m.waiting(), 0);
}

#[test]
fn abnormal_release_poisons() {
    let mut m = Mutex::new(1);
    assert_eq!(m.lock(1), LockOutcome::Acquired);
    assert_eq!(m.unlock(1, true), None);
    assert!(m.is_poisoned());
    assert_eq!(m.lock(2), LockOutcome::Poisoned);
    assert_eq!(*m.get(2), 1);
    m.clear_poison(2);
    assert_eq!(m.unlock(2, false), None);
    assert_eq!(m.lock(3), LockOutcome::Acquired);
}

#[test]
fn interleaved_increments_are_not_lost() {
    let n: u64 = 8;
    let rounds: u64 = 1000;
    let mut m = Mutex::new(0u64);
    // Each thread: lock, read, write read+1, unlock; the schedule rotates threads.
    let mut left = vec![rounds; n as usize];
    let mut holding = vec![false; n as usize];
    let mut waiting = vec![false; n as usize];
    let mut read: Vec<Option<u64>> = vec![None; n as usize];
    let mut step: u64 = 0;
    while left.iter().any(|&r| r > 0) {
        let t = (step * 3 + step / n) % n;
        let i = t as usize;
        if holding[i] {
            match read[i] {
                None => read[i] = Some(*m.get(t)),
                Some(x) => {
                    m.set(t, x + 1);
                    read[i] = None;
                    holding[i] = false;
                    left[i] -= 1;
                    if let Some(next) = m.unlock(t, false) {
                        holding[next as usize] = true;
                        waiting[next as usize] = false;
                    }
                }
            }
        } else if !waiting[i] && left[i] > 0 {
            match m.lock(t) {
                LockOutcome::Acquired => holding[i] = true,
                LockOutcome::Wait => waiting[i] = true,
                LockOutcome::Poisoned => panic!("nobody ended abnormally"),
            }
        }
        step += 1;
    }
    assert_eq!(m.into_inner(), n * rounds);
}
