use heretek::buffer::LimitedBuffer;

#[test]
fn forgets_the_oldest() {
    let mut b = LimitedBuffer::new(3);
    assert!(b.is_empty());
    for i in 1..=5 {
        b.push(i);
    }
    assert_eq!(b.as_slice(), &[3, 4, 5]);
    assert_eq!(b.len(), 3);
    assert!(!b.is_empty());
    assert_eq!(b.offset, 0);
    assert_eq!(b.capacity, 3);
}

#[test]
fn keeps_all_below_capacity() {
    let mut b = LimitedBuffer::new(3);
    b.push("a");
    b.push("b");
    assert_eq!(b.as_slice(), &["a", "b"]);
    b.push("c");
    assert_eq!(b.as_slice(), &["a", "b", "c"]);
}

#[test]
fn no_capacity_is_no_limit() {
    let mut b = LimitedBuffer::new(0);
    for i in 0..10 {
        b.push(i);
    }
    assert_eq!(b.len(), 10);
    assert_eq!(b.as_slice()[0], 0);
}
