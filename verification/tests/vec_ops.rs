use minivec::vec::Vec;

#[test]
fn push_order_matches_view() {
    let mut v: Vec<u64> = Vec::new();
    for i in 0..10u64 {
        v.push(i * 3);
    }
    assert_eq!(v.len(), 10);
    for i in 0..10usize {
        assert_eq!(*v.get(i), (i as u64) * 3);
    }
}

#[test]
fn pop_on_empty_is_none() {
    let mut v: Vec<u64> = Vec::new();
    assert!(v.pop().is_none());
    assert_eq!(v.len(), 0);
}

#[test]
fn push_then_pop_round_trip() {
    let mut v: Vec<i32> = Vec::new();
    v.push(4);
    v.push(8);
    let before_len = v.len();
    v.push(15);
    let got = v.pop();
    assert_eq!(got, Some(15));
    assert_eq!(v.len(), before_len);
    assert_eq!(*v.get(0), 4);
    assert_eq!(*v.get(1), 8);
}

#[test]
fn insert_then_remove_round_trip() {
    let mut v: Vec<i32> = Vec::new();
    v.push(10);
    v.push(20);
    v.push(30);
    v.insert(1, 99);
    assert_eq!(v.len(), 4);
    assert_eq!(*v.get(1), 99);
    let got = v.remove(1);
    assert_eq!(got, 99);
    assert_eq!(v.len(), 3);
    assert_eq!(*v.get(0), 10);
    assert_eq!(*v.get(1), 20);
    assert_eq!(*v.get(2), 30);
}

#[test]
fn insert_at_ends() {
    let mut v: Vec<i32> = Vec::new();
    v.insert(0, 2);
    v.insert(0, 1);
    v.insert(2, 3);
    assert_eq!(v.len(), 3);
    assert_eq!(*v.get(0), 1);
    assert_eq!(*v.get(1), 2);
    assert_eq!(*v.get(2), 3);
}

#[test]
fn remove_keeps_order() {
    let mut v: Vec<i32> = Vec::new();
    for i in 0..6 {
        v.push(i);
    }
    let got = v.remove(2);
    assert_eq!(got, 2);
    assert_eq!(v.len(), 5);
    assert_eq!(*v.get(0), 0);
    assert_eq!(*v.get(1), 1);
    assert_eq!(*v.get(2), 3);
    assert_eq!(*v.get(3), 4);
    assert_eq!(*v.get(4), 5);
}

#[test]
fn growth_preserves_contents() {
    let mut v: Vec<usize> = Vec::new();
    assert_eq!(v.cap(), 0);
    let mut caps: [usize; 5] = [0; 5];
    for i in 0..5usize {
        v.push(i + 100);
        caps[i] = v.cap();
        for j in 0..=i {
            assert_eq!(*v.get(j), j + 100);
        }
    }
    assert_eq!(caps, [1, 2, 4, 4, 8]);
}

#[test]
fn standard_scenario() {
    let mut v: Vec<i32> = Vec::new();
    v.push(1);
    v.push(2);
    v.push(3);
    assert_eq!(v.len(), 3);
    assert_eq!(*v.get(0), 1);
    assert_eq!(*v.get(1), 2);
    assert_eq!(*v.get(2), 3);
    let got = v.remove(1);
    assert_eq!(got, 2);
    assert_eq!(v.len(), 2);
    assert_eq!(*v.get(0), 1);
    assert_eq!(*v.get(1), 3);
    v.insert(1, 9);
    assert_eq!(v.len(), 3);
    assert_eq!(*v.get(0), 1);
    assert_eq!(*v.get(1), 9);
    assert_eq!(*v.get(2), 3);
    let mut d = v.drain();
    assert_eq!(d.next(), Some(1));
    assert_eq!(d.next(), Some(9));
    assert_eq!(d.next(), Some(3));
    assert!(d.next().is_none());
    v.push(7);
    assert_eq!(v.len(), 1);
    assert_eq!(*v.get(0), 7);
}

#[test]
fn default_is_empty() {
    let v: Vec<u8> = Vec::default();
    assert_eq!(v.len(), 0);
    assert_eq!(v.cap(), 0);
}
