use sharing::borrow::{BorrowError, BorrowState, MutableCell};

#[test]
fn shared_borrows_stack_and_unwind() {
    let mut cell = MutableCell::new(String::from("Pedro"), 1);
    let a = cell.try_borrow().unwrap();
    let b = cell.try_borrow().unwrap();
    assert_eq!(cell.state(), BorrowState::Shared(2));
    assert_eq!(cell.read(&a), "Pedro");
    cell.release(a);
    assert_eq!(cell.state(), BorrowState::Shared(1));
    cell.release(b);
    assert_eq!(cell.state(), BorrowState::Unborrowed);
}

#[test]
fn exclusive_refused_while_shared() {
    let mut cell = MutableCell::new(5, 2);
    let a = cell.try_borrow().unwrap();
    assert!(matches!(cell.try_borrow_mut(), Err(BorrowError::AlreadyBorrowed)));
    assert_eq!(cell.state(), BorrowState::Shared(1));
    cell.release(a);
    assert!(cell.try_borrow_mut().is_ok());
}

#[test]
fn second_exclusive_refused() {
    let mut cell = MutableCell::new(String::from("Pedro"), 3);
    let one = cell.try_borrow_mut().unwrap();
    assert!(matches!(cell.try_borrow_mut(), Err(BorrowError::AlreadyBorrowed)));
    assert!(matches!(cell.try_borrow(), Err(BorrowError::AlreadyExclusivelyBorrowed)));
    assert_eq!(cell.state(), BorrowState::Exclusive);
    let old = cell.write(&one, String::from("PedroA"));
    assert_eq!(old, "Pedro");
    cell.release_mut(one);
    assert_eq!(cell.state(), BorrowState::Unborrowed);
    assert_eq!(cell.into_inner(), "PedroA");
}

#[test]
fn write_through_exclusive_borrow_adds() {
    let mut value = MutableCell::new(5, 4);
    let g = value.try_borrow_mut().unwrap();
    let v = value.write(&g, 0);
    value.write(&g, v + 10);
    value.release_mut(g);
    let r = value.try_borrow().unwrap();
    assert_eq!(*value.read(&r), 15);
    value.release(r);
}

#[test]
fn no_exclusive_alongside_other_guards() {
    // An interleaving of requests: every grant is checked against the guards held.
    let mut cell = MutableCell::new(0u8, 5);
    let mut readers = Vec::new();
    let mut writer = None;
    let script = [0, 0, 1, 2, 2, 1, 3, 0, 1, 3, 1, 0];
    for step in script {
        match step {
            0 => match cell.try_borrow() {
                Ok(g) => readers.push(g),
                Err(e) => {
                    assert_eq!(e, BorrowError::AlreadyExclusivelyBorrowed);
                    assert!(writer.is_some());
                }
            },
            1 => match cell.try_borrow_mut() {
                Ok(g) => {
                    assert!(readers.is_empty() && writer.is_none());
                    writer = Some(g);
                }
                Err(e) => {
                    assert_eq!(e, BorrowError::AlreadyBorrowed);
                    assert!(!readers.is_empty() || writer.is_some());
                }
            },
            2 => {
                if let Some(g) = readers.pop() {
                    cell.release(g);
                }
            }
            _ => {
                if let Some(g) = writer.take() {
                    cell.release_mut(g);
                }
            }
        }
        assert!(writer.is_none() || readers.is_empty());
    }
}

#[test]
fn plain_borrows_follow_the_same_states() {
    let mut cell = MutableCell::new(vec![1, 2], 6);
    let r1 = cell.borrow();
    let r2 = cell.borrow();
    assert_eq!(cell.state(), BorrowState::Shared(2));
    assert_eq!(cell.read(&r2).len(), 2);
    cell.release(r1);
    cell.release(r2);
    let w = cell.borrow_mut();
    assert_eq!(cell.state(), BorrowState::Exclusive);
    cell.write(&w, vec![3]);
    cell.release_mut(w);
    assert_eq!(cell.into_inner(), vec![3]);
}
