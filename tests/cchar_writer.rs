use std::cell::RefCell;

use custom_print::{FmtWriter, WriteCStrFn};

fn take(chunks: &RefCell<Vec<String>>) -> Vec<String> {
    chunks.borrow_mut().drain(..).collect()
}

fn c_string_text(c_str: &[u8]) -> String {
    assert_eq!(c_str.last(), Some(&0u8));
    String::from_utf8(c_str[..c_str.len() - 1].to_vec()).unwrap()
}

#[test]
fn test_cchar_writer() {
    let chunks: RefCell<Vec<String>> = RefCell::new(Vec::new());
    let mut w = FmtWriter::new(WriteCStrFn::new(|c_str: &[u8]| {
        chunks.borrow_mut().push(c_string_text(c_str))
    }));

    w.write_fmt(&["\n"]).unwrap();
    assert_eq!(take(&chunks), &["\n"]);
    w.write_fmt(&["first\n"]).unwrap();
    assert_eq!(take(&chunks), &["first\n"]);
    w.write_fmt(&["first ", "second", "\nthird\n\n"]).unwrap();
    assert_eq!(take(&chunks), &["first ", "second", "\nthird\n\n"]);
}
