use ppc::lerp::{PartialArrayReader, PartialArrayWriter};

#[test]
fn reader_hands_out_elements_in_order() {
    let mut r = PartialArrayReader::new([String::from("a"), String::from("b"), String::from("c")]);
    assert_eq!(r.values_left(), 3);
    assert_eq!(r.take_one(), "a");
    assert_eq!(r.take_one(), "b");
    assert_eq!(r.values_left(), 1);
    assert_eq!(r.take_one(), "c");
    assert_eq!(r.values_left(), 0);
}

#[test]
fn writer_collects_elements_in_order() {
    let mut w: PartialArrayWriter<String, 2> = PartialArrayWriter::new();
    assert_eq!(w.initialized(), 0);
    w.push(String::from("x"));
    w.push(String::from("y"));
    assert_eq!(w.initialized(), 2);
    assert_eq!(w.unwrap(), [String::from("x"), String::from("y")]);
}

#[test]
fn reading_and_writing_copies_an_array() {
    let mut r = PartialArrayReader::new([1, 2, 3, 4]);
    let mut w: PartialArrayWriter<i32, 4> = PartialArrayWriter::new();
    for _ in 0..4 {
        w.push(r.take_one() * 10);
    }
    assert_eq!(w.unwrap(), [10, 20, 30, 40]);
}
