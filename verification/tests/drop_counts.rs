use minivec::vec::Vec;
use std::cell::Cell;
use std::rc::Rc;

struct Counted {
    drops: Rc<Cell<usize>>,
}

impl Drop for Counted {
    fn drop(&mut self) {
        self.drops.set(self.drops.get() + 1);
    }
}

fn counted(c: &Rc<Cell<usize>>) -> Counted {
    Counted { drops: Rc::clone(c) }
}

#[derive(PartialEq, Debug)]
struct Token;

#[test]
fn abandoned_drain_drops_every_live_element() {
    let drops: Rc<Cell<usize>> = Rc::new(Cell::new(0));
    let mut v: Vec<Counted> = Vec::new();
    for _ in 0..5 {
        v.push(counted(&drops));
    }
    {
        let mut d = v.drain();
        let first = d.next();
        assert!(first.is_some());
        drop(first);
        assert_eq!(drops.get(), 1);
    }
    assert_eq!(drops.get(), 5);
    drop(v);
    assert_eq!(drops.get(), 5);
}

#[test]
fn abandoned_into_iter_drops_every_live_element() {
    let drops: Rc<Cell<usize>> = Rc::new(Cell::new(0));
    let mut v: Vec<Counted> = Vec::new();
    for _ in 0..6 {
        v.push(counted(&drops));
    }
    let mut it = v.into_iter();
    drop(it.next());
    drop(it.next_back());
    assert_eq!(drops.get(), 2);
    drop(it);
    assert_eq!(drops.get(), 6);
}

#[test]
fn consumed_elements_drop_exactly_once() {
    let drops: Rc<Cell<usize>> = Rc::new(Cell::new(0));
    let mut v: Vec<Counted> = Vec::new();
    for _ in 0..4 {
        v.push(counted(&drops));
    }
    let mut d = v.drain();
    while let Some(x) = d.next() {
        drop(x);
    }
    drop(d);
    assert_eq!(drops.get(), 4);
    drop(v);
    assert_eq!(drops.get(), 4);
}

#[test]
fn dropping_the_array_drops_each_live_element_once() {
    let drops: Rc<Cell<usize>> = Rc::new(Cell::new(0));
    let mut v: Vec<Counted> = Vec::new();
    for _ in 0..3 {
        v.push(counted(&drops));
    }
    drop(v.pop());
    assert_eq!(drops.get(), 1);
    drop(v);
    assert_eq!(drops.get(), 3);
}

#[test]
fn zero_size_elements_count_only() {
    let mut v: Vec<Token> = Vec::new();
    assert_eq!(v.cap(), usize::MAX);
    for _ in 0..1000 {
        v.push(Token);
    }
    assert_eq!(v.len(), 1000);
    assert_eq!(v.cap(), usize::MAX);
    let mut d = v.drain();
    let mut yielded: usize = 0;
    while let Some(t) = d.next() {
        assert_eq!(t, Token);
        yielded += 1;
    }
    assert_eq!(yielded, 1000);
    assert_eq!(v.len(), 0);
    assert_eq!(v.cap(), usize::MAX);
}
