use std::cell::RefCell;

use custom_print::ConcatWriter;

fn take(chunks: &RefCell<Vec<String>>) -> Vec<String> {
    chunks.borrow_mut().drain(..).collect()
}

#[test]
fn test_extern_fn() {
    let chunks: RefCell<Vec<String>> = RefCell::new(Vec::new());
    let mut w = ConcatWriter::from_closure(|value: &[u8]| chunks.borrow_mut().push(String::from_utf8(value.to_vec()).unwrap()));

    w.write_fmt(&["first"]).unwrap();
    assert_eq!(take(&chunks), &["first"]);
    w.write_fmt(&["first ", "second", "\nthird\n"]).unwrap();
    assert_eq!(take(&chunks), &["first second\nthird\n"]);

    w.write_fmt(&["\n"]).unwrap();
    assert_eq!(take(&chunks), &["\n"]);
    w.write_fmt(&["first\n"]).unwrap();
    assert_eq!(take(&chunks), &["first\n"]);
    w.write_fmt(&["first ", "second", "\nthird\n\n"]).unwrap();
    assert_eq!(take(&chunks), &["first second\nthird\n\n"]);
}
