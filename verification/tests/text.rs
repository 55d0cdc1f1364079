use demon_core::Str;

#[test]
fn new() {
    let s = Str::new();

    assert_eq!(s.as_str(), "");
    assert_eq!(s.len(), 0);
}

#[test]
fn push_str() {
    let mut s = Str::from("test");
    s.push_str(" string");

    assert_eq!(s.as_str(), "test string");
    assert_eq!(s.len(), 11);
}

#[test]
fn push_char() {
    let mut s = Str::from("tes");
    s.push('t');

    assert_eq!(s.as_str(), "test");
    assert_eq!(s.len(), 4);
}

#[test]
fn pop_char() {
    let mut s = Str::from("test");
    assert_eq!(s.pop(), Some('t'));
    assert_eq!(s.pop(), Some('s'));
    assert_eq!(s.pop(), Some('e'));
    assert_eq!(s.pop(), Some('t'));
}

#[test]
fn clear() {
    let mut s = Str::from("raspberry");
    let cap = s.capacity();
    s.clear();
    assert_eq!(s.as_str(), "");
    assert_eq!(s.len(), 0);
    assert_eq!(s.capacity(), cap);
}

#[test]
fn len_inline() {
    let primitive = "test string";

    assert_eq!(Str::from(primitive).len(), primitive.len());
    assert_eq!(Str::from("").len(), 0)
}

#[test]
fn capacity_inline() {
    let primitive = "test string";

    assert_eq!(Str::from(primitive).capacity(), 23);
    assert_eq!(Str::from("").capacity(), 23);
}

#[test]
fn read_inline() {
    assert_eq!(Str::from("test string").as_str(), "test string");
}

#[test]
fn bytes_inline() {
    assert_eq!(
        Str::from(std::str::from_utf8(&[240, 159, 146, 150]).unwrap()).as_bytes(),
        &[240, 159, 146, 150]
    );
}

#[test]
fn bytes_mut_inline() {
    let mut str = Str::from(std::str::from_utf8(&[240, 159, 146, 150]).unwrap());
    str.as_bytes_mut()[3] = 151;

    assert_eq!(str.as_bytes(), &[240, 159, 146, 151]);
    assert_eq!(str.len(), 4);

    assert_eq!(str.capacity(), 23);
}

#[test]
fn str_clone() {
    let mut s = Str::from("aaa");
    let c = s.clone();
    _ = s.pop();

    assert_eq!(s.as_str(), "aa");
    assert_eq!(c.as_str(), "aaa");
}

#[test]
fn display() {
    let s = Str::from("Test String");
    assert_eq!(&format!("{}", s.as_str()), "Test String");
    assert_eq!(format!("{}", s.as_str()), format!("{}", "Test String"));
}

#[test]
fn push_multibyte() {
    let mut s = Str::from("a");
    s.push('é');
    s.push('€');
    s.push('💖');

    assert_eq!(s.as_str(), "aé€💖");
    assert_eq!(s.len(), 1 + 2 + 3 + 4);
    assert_eq!(
        s.as_bytes(),
        &[97, 195, 169, 226, 130, 172, 240, 159, 146, 150]
    );
}

#[test]
fn pop_multibyte_trailing() {
    // popping removes exactly one byte; the trailing character here is
    // multi-byte, so the returned character is the raw last byte
    let mut s = Str::from(std::str::from_utf8(&[240, 159, 146, 150]).unwrap());
    assert_eq!(s.pop(), Some(150u8 as char));
    assert_eq!(s.len(), 3);
    assert_eq!(s.as_bytes(), &[240, 159, 146]);
}

#[test]
fn utf8_round_trip() {
    for input in ["", "a", "ASCII only", "mixé", "ταινία", "💖💖💖💖💖💖💖💖"] {
        let s = Str::from(input);
        assert_eq!(s.as_bytes(), input.as_bytes());
        assert_eq!(s.as_str(), input);
    }
}

#[test]
fn text_promotion_threshold() {
    let mut s = Str::new();
    for _ in 0..23 {
        s.push('x');
    }
    assert_eq!(s.is_inline(), true);
    assert_eq!(s.capacity(), 23);
    assert_eq!(s.len(), 23);

    s.push('y');
    assert_eq!(s.is_inline(), false);
    assert_eq!(s.len(), 24);
    assert_eq!(s.as_str(), "xxxxxxxxxxxxxxxxxxxxxxxy");
}
