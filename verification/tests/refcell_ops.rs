use minivec::refcell::RefCell;

#[test]
fn new_cell_reads_its_value() {
    let c: RefCell<i32> = RefCell::new(41);
    assert_eq!(*c.get(), 41);
}

#[test]
fn shared_borrows_stack_and_release() {
    let mut c: RefCell<i32> = RefCell::new(7);
    let r1 = c.borrow().expect("first shared borrow");
    let r2 = c.borrow().expect("second shared borrow");
    assert_eq!(*c.get(), 7);
    assert!(c.borrow_mut().is_none());
    c.release(r1);
    assert!(c.borrow_mut().is_none());
    c.release(r2);
    assert!(c.borrow_mut().is_some());
}

#[test]
fn borrow_mut_moves_value_and_back() {
    let mut c: RefCell<String> = RefCell::new(String::from("before"));
    let mut m = c.borrow_mut().expect("exclusive borrow of a free cell");
    assert_eq!(m.get().as_str(), "before");
    m.set(String::from("after"));
    c.release_mut(m);
    assert_eq!(c.get().as_str(), "after");
}

#[test]
fn borrow_refused_while_writing() {
    let mut c: RefCell<u8> = RefCell::new(1);
    let m = c.borrow_mut().expect("exclusive borrow of a free cell");
    assert!(c.borrow().is_none());
    assert!(c.borrow_mut().is_none());
    c.release_mut(m);
    assert!(c.borrow().is_some());
}
