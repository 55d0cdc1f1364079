use demon_core::{Str, Vector};

// The logical contents match a reference growable-array model, step by step.
#[test]
fn model_match() {
    let mut vec = Vector::<u64>::new();
    let mut model: Vec<u64> = Vec::new();

    for i in 0..40u64 {
        vec.push(i);
        model.push(i);
        assert_eq!(vec.as_slice(), model.as_slice());
    }
    for i in 0..10u64 {
        vec.insert(3, 1000 + i);
        model.insert(3, 1000 + i);
        assert_eq!(vec.as_slice(), model.as_slice());
    }
    for _ in 0..15 {
        assert_eq!(vec.remove(2), model.remove(2));
        assert_eq!(vec.as_slice(), model.as_slice());
    }
    loop {
        let a = vec.pop();
        let b = model.pop();
        assert_eq!(a, b);
        assert_eq!(vec.as_slice(), model.as_slice());
        if a.is_none() {
            break;
        }
    }
}

// Promotion happens exactly when the required byte size first exceeds the
// inline budget, and never reverts.
#[test]
fn promotion_exact_and_one_directional() {
    let mut vec = Vector::<u32>::new();
    // 5 elements of 4 bytes = 20 bytes fit the 23-byte budget; 6 do not
    for i in 0..5u32 {
        vec.push(i);
        assert_eq!(vec.is_inline(), true);
    }
    vec.push(5);
    assert_eq!(vec.is_inline(), false);

    // shrinking all the way back down never reverts to inline
    while vec.pop().is_some() {
        assert_eq!(vec.is_inline(), false);
    }
    assert_eq!(vec.len(), 0);
    assert_eq!(vec.is_inline(), false);
}

// Capacity is non-decreasing across any sequence of operations.
#[test]
fn capacity_monotonic() {
    let mut vec = Vector::<u8>::new();
    let mut last = vec.capacity();
    for i in 0..200u8 {
        vec.push(i);
        assert!(vec.capacity() >= last);
        last = vec.capacity();
    }
    for _ in 0..100 {
        vec.pop();
        assert!(vec.capacity() >= last);
        last = vec.capacity();
    }
    vec.insert(0, 7);
    assert!(vec.capacity() >= last);
    last = vec.capacity();
    vec.remove(0);
    assert!(vec.capacity() >= last);
    last = vec.capacity();
    let _ = vec.drain();
    assert!(vec.capacity() >= last);
}

// Pushing 23 one-byte characters keeps a text value inline; the 24th
// promotes it to the heap while the first 24 bytes remain exactly as pushed.
#[test]
fn text_inline_to_heap() {
    let mut s = Str::new();
    let chars = "abcdefghijklmnopqrstuvw";
    for c in chars.chars() {
        s.push(c);
    }
    assert_eq!(s.is_inline(), true);
    assert_eq!(s.capacity(), 23);

    s.push('x');
    assert_eq!(s.is_inline(), false);
    assert_eq!(s.as_bytes(), "abcdefghijklmnopqrstuvwx".as_bytes());
}

// A drained container can be destroyed without harm, however much of the
// drain was consumed.
#[test]
fn drain_abandoned() {
    // drain fully unconsumed
    let mut vec = Vector::<u32>::new();
    vec.extend_from_slice(&[0, 1]);
    let d = vec.drain();
    drop(d);
    assert_eq!(vec.len(), 0);
    drop(vec);

    // drain consumed halfway, then abandoned
    let mut vec = Vector::<String>::new();
    vec.push(String::from("zero"));
    vec.push(String::from("one"));
    let mut d = vec.drain();
    assert_eq!(d.next(), Some(String::from("zero")));
    drop(d);
    assert_eq!(vec.len(), 0);
    vec.push(String::from("again"));
    assert_eq!(vec.pop(), Some(String::from("again")));
}

// A container of a zero-sized element type never grows: its reported
// capacity is the unbounded sentinel throughout.
#[test]
fn zst_unbounded_sentinel() {
    let mut vec = Vector::<()>::new_heap();
    assert_eq!(vec.capacity(), usize::MAX);
    for _ in 0..1000 {
        vec.push(());
        assert_eq!(vec.capacity(), usize::MAX);
    }
    for _ in 0..500 {
        assert_eq!(vec.pop(), Some(()));
        assert_eq!(vec.capacity(), usize::MAX);
    }
    assert_eq!(vec.len(), 500);
}

// An inline container of a zero-sized element type promotes once the
// seven-bit length field is exhausted; promotion installs the unbounded
// sentinel and still allocates nothing.
#[test]
fn zst_inline_length_limit() {
    let mut vec = Vector::<()>::new();
    for _ in 0..127 {
        vec.push(());
    }
    assert_eq!(vec.is_inline(), true);
    assert_eq!(vec.capacity(), 23);

    vec.push(());
    assert_eq!(vec.is_inline(), false);
    assert_eq!(vec.capacity(), usize::MAX);
    assert_eq!(vec.len(), 128);
}

// Insert at the current length appends.
#[test]
fn insert_appends_at_len() {
    let mut vec = Vector::<i32>::new();
    vec.extend_from_slice(&[5, 6]);
    vec.insert(2, 7);
    assert_eq!(vec.as_slice(), &[5, 6, 7]);
}

// Iteration yields the elements in index order, restartable, and in reverse.
#[test]
fn iter_restartable_and_reverse() {
    let mut vec = Vector::<u32>::new();
    vec.extend_from_slice(&[10, 20, 30]);

    let mut it = vec.iter();
    assert_eq!(it.len(), 3);
    assert_eq!(it.next(), Some(&10));
    assert_eq!(it.next_back(), Some(&30));
    assert_eq!(it.next(), Some(&20));
    assert_eq!(it.next(), None);
    assert_eq!(it.next_back(), None);

    // a fresh traversal starts over
    let mut again = vec.iter();
    assert_eq!(again.next(), Some(&10));

    // the container is untouched by borrowing iteration
    assert_eq!(vec.as_slice(), &[10, 20, 30]);
}

// An abandoned consuming iteration drops the remaining elements exactly once.
#[test]
fn into_iter_abandoned() {
    let mut vec = Vector::<String>::new();
    vec.push(String::from("zero"));
    vec.push(String::from("one"));
    vec.push(String::from("two"));
    let mut it = vec.into_iter();
    assert_eq!(it.len(), 3);
    assert_eq!(it.next(), Some(String::from("zero")));
    assert_eq!(it.len(), 2);
    drop(it);
}

// Mutable traversal writes elements in place without changing the length.
#[test]
fn iter_mut_writes_in_place() {
    let mut vec = Vector::<u32>::new();
    vec.extend_from_slice(&[1, 2, 3]);
    for x in vec.iter_mut() {
        *x += 10;
    }
    assert_eq!(vec.as_slice(), &[11, 12, 13]);
    assert_eq!(vec.len(), 3);

    vec.as_slice_mut()[0] = 0;
    assert_eq!(vec.as_slice(), &[0, 12, 13]);
}

// The bulk append and single push agree with the reference model for a
// heap-started container as well.
#[test]
fn heap_extend_then_mutate() {
    let mut vec = Vector::<u16>::new_heap();
    assert_eq!(vec.capacity(), 0);
    vec.extend_from_slice(&[1, 2, 3]);
    assert_eq!(vec.capacity(), 3);
    vec.push(4);
    assert_eq!(vec.capacity(), 6);
    assert_eq!(vec.as_slice(), &[1, 2, 3, 4]);
}
