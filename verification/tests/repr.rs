use demon_core::repr::{Discriminant, Repr};

#[test]
fn discriminant() {
    assert_eq!(Discriminant::new(true, 1).0, 0b10000001);
    assert_eq!(Discriminant::new(false, 1).0, 0b00000001);

    assert_eq!(Discriminant::new(true, 23).0, 0b10010111);
    assert_eq!(Discriminant::new(false, 23).0, 0b00010111);
}

#[test]
fn discriminant_len() {
    assert_eq!(Discriminant::new(true, 2).len(), 2);
    assert_eq!(Discriminant::new(false, 2).len(), 2);
    assert_eq!(Discriminant::new(true, 36).len(), 36);
    assert_eq!(Discriminant::new(false, 36).len(), 36);
}

#[test]
fn discriminant_set_len() {
    let mut disc = Discriminant::new(true, 13);
    disc.set_len(0);
    assert_eq!(disc.len(), 0);

    let mut disc = Discriminant::new(false, 13);
    disc.set_len(0);
    assert_eq!(disc.len(), 0);

    let mut disc = Discriminant::new(true, 0);
    disc.set_len(20);
    assert_eq!(disc.len(), 20);

    let mut disc = Discriminant::new(false, 0);
    disc.set_len(20);
    assert_eq!(disc.len(), 20);
}

#[test]
fn discriminant_variant() {
    assert_eq!(Discriminant::new(true, 2).variant(), true);
    assert_eq!(Discriminant::new(false, 2).variant(), false);
    assert_eq!(Discriminant::new(true, 36).variant(), true);
    assert_eq!(Discriminant::new(false, 36).variant(), false);
}

#[test]
fn repr_inline_ops() {
    let mut r = Repr::<u8>::new_inline(&[1, 2, 3]);
    assert_eq!(r.len(), 3);
    assert_eq!(r.capacity(), 23);
    assert!(r.is_inline());
    r.push(4);
    assert_eq!(r.as_slice(), &[1, 2, 3, 4]);
    r.set_len(2);
    assert_eq!(r.as_slice(), &[1, 2]);
    assert_eq!(r.capacity(), 23);

    let mut i = Repr::<u8>::new_inline(&[1, 3]);
    i.insert(1, 2);
    assert_eq!(i.as_slice(), &[1, 2, 3]);
    assert_eq!(i.remove(0), 1);
    assert_eq!(i.as_slice(), &[2, 3]);
    assert_eq!(i.remove(1), 3);
    assert_eq!(i.as_slice(), &[2]);
}

#[test]
fn repr_heap_ops() {
    let mut h = Repr::<u32>::new_heap();
    assert_eq!(h.capacity(), 0);
    assert!(!h.is_inline());
    h.heap_push(9);
    assert_eq!(h.capacity(), 1);
    assert_eq!(h.get(0), Some(&9));
    assert_eq!(h.get(1), None);
    assert_eq!(h.pop(), Some(9));
    assert_eq!(h.pop(), None);

    let f = Repr::<u8>::from_heap(&[7, 8]);
    assert!(!f.is_inline());
    assert_eq!(f.capacity(), 2);
    assert_eq!(f.into_vec(), vec![7, 8]);
}

#[test]
fn repr_views_and_duplicate() {
    let mut b = Repr::<u8>::new_inline(&[65, 66]);
    b.bytes_mut()[0] = 67;
    assert_eq!(b.bytes(), &[67, 66]);

    let d = b.duplicate();
    b.push(68);
    assert_eq!(d.as_slice(), &[67, 66]);
    assert_eq!(b.as_slice(), &[67, 66, 68]);

    let mut e = Repr::<u8>::new_inline(&[]);
    e.extend_from_slice(&[5, 6, 7]);
    assert_eq!(e.as_slice(), &[5, 6, 7]);
    *e.get_mut(0).unwrap() = 9;
    assert_eq!(e.as_slice(), &[9, 6, 7]);
    assert_eq!(e.get_mut(5), None);
    e.as_slice_mut()[1] = 1;
    assert_eq!(e.as_slice(), &[9, 1, 7]);
}
