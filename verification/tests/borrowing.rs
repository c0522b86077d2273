use checked_cell::Cell;
use checked_cell::RefCell;

#[test]
fn cell_it_works() {
    assert_eq!(2 + 2, 4);
}

#[test]
fn lib_it_works() {
    assert_eq!(2 + 2, 4);
}

#[test]
fn cell_new_then_get() {
    let c = Cell::new(41);
    assert_eq!(c.get(), 41);
}

#[test]
fn cell_set_then_get() {
    let mut c = Cell::new(1);
    c.set(7);
    assert_eq!(c.get(), 7);
    c.set(9);
    assert_eq!(c.get(), 9);
}

#[test]
fn cell_set_then_get_bool() {
    let mut c = Cell::new(false);
    c.set(true);
    assert!(c.get());
}

#[test]
fn borrow_observes_initial_value() {
    let mut c = RefCell::new(3);
    let g = c.borrow().unwrap();
    assert_eq!(*c.read(&g), 3);
    c.release(g);
}

#[test]
fn borrow_mut_fails_while_shared() {
    let mut c = RefCell::new(0);
    let g = c.borrow().unwrap();
    assert!(c.borrow_mut().is_none());
    c.release(g);
}

#[test]
fn borrow_fails_while_exclusive() {
    let mut c = RefCell::new(0);
    let m = c.borrow_mut().unwrap();
    assert!(c.borrow().is_none());
    c.release_mut(m);
}

#[test]
fn borrow_mut_fails_while_exclusive() {
    let mut c = RefCell::new(0);
    let m = c.borrow_mut().unwrap();
    assert!(c.borrow_mut().is_none());
    c.release_mut(m);
}

#[test]
fn shared_round_trip_three() {
    // Three shared acquires in sequence, then three releases, bring the
    // cell back to a state where an exclusive acquire succeeds.
    let mut c = RefCell::new(8);
    let g1 = c.borrow().unwrap();
    let g2 = c.borrow().unwrap();
    let g3 = c.borrow().unwrap();
    assert!(c.borrow_mut().is_none());
    c.release(g1);
    assert!(c.borrow_mut().is_none());
    c.release(g2);
    assert!(c.borrow_mut().is_none());
    c.release(g3);
    let m = c.borrow_mut().unwrap();
    c.release_mut(m);
}

#[test]
fn write_through_exclusive_guard() {
    let mut c = RefCell::new(1);
    let m = c.borrow_mut().unwrap();
    *c.get_mut(&m) = 2;
    assert_eq!(*c.read_mut(&m), 2);
    c.release_mut(m);
    let g = c.borrow().unwrap();
    assert_eq!(*c.read(&g), 2);
    c.release(g);
}

#[test]
fn shared_then_write_scenario() {
    let mut c = RefCell::new(5);
    let b1 = c.borrow().unwrap();
    assert_eq!(*c.read(&b1), 5);
    let b2 = c.borrow().unwrap();
    assert_eq!(*c.read(&b2), 5);
    assert!(c.borrow_mut().is_none());
    c.release(b1);
    c.release(b2);
    let m = c.borrow_mut().unwrap();
    *c.get_mut(&m) = 10;
    c.release_mut(m);
    let b3 = c.borrow().unwrap();
    assert_eq!(*c.read(&b3), 10);
    c.release(b3);
}
