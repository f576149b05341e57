use std::cell::RefCell;

use custom_print::ConcatWriter;

fn take(chunks: &RefCell<Vec<String>>) -> Vec<String> {
    chunks.borrow_mut().drain(..).collect()
}

#[test]
fn test_shadowing_with_macros_in_submodule() {
    let chunks: RefCell<Vec<String>> = RefCell::new(Vec::new());
    let mut w = ConcatWriter::from_closure(|value: &str| chunks.borrow_mut().push(value.to_string()));

    w.write_fmt(&["first"]).unwrap();
    assert_eq!(take(&chunks), &["first"]);
    w.write_fmt(&["first ", "second", "\nthird\n"]).unwrap();
    assert_eq!(take(&chunks), &["first second\nthird\n"]);

    w.write_fmt(&["\n"]).unwrap();
    assert_eq!(take(&chunks), &["\n"]);
    w.write_fmt(&["first\n"]).unwrap();
    assert_eq!(take(&chunks), &["first\n"]);
    w.write_fmt(&["first ", "second", "\nthird\n\n"]).unwrap();
    assert_eq!(take(&chunks), &["first second\nthird\n\n"]);
}
