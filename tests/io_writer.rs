use std::cell::RefCell;

use custom_print::IoWriter;

const FILE: &str = "tests/io_writer.rs";
const LINE: &str = "61";

fn take(chunks: &RefCell<Vec<String>>) -> Vec<String> {
    chunks.borrow_mut().drain(..).collect()
}

#[test]
fn test_io_writer() {
    let chunks: RefCell<Vec<String>> = RefCell::new(Vec::new());
    let mut w = IoWriter::from_closure(|value: &[u8]| {
        chunks.borrow_mut().push(String::from_utf8(value.to_vec()).unwrap())
    });

    w.write_fmt(&["first"]).unwrap();
    assert_eq!(take(&chunks), &["first"]);
    w.write_fmt(&["first ", "second", "\nthird\n"]).unwrap();
    assert_eq!(take(&chunks), &["first ", "second", "\nthird\n"]);

    w.write_fmt(&["\n"]).unwrap();
    assert_eq!(take(&chunks), &["\n"]);
    w.write_fmt(&["first\n"]).unwrap();
    assert_eq!(take(&chunks), &["first\n"]);
    w.write_fmt(&["first ", "second", "\nthird\n\n"]).unwrap();
    assert_eq!(take(&chunks), &["first ", "second", "\nthird\n\n"]);

    let second_var = "second";
    w.write_fmt(&["[", FILE, ":", LINE, "] ", "\"first\"", " = ", "\"", "first", "\"", "\n"]).unwrap();
    w.write_fmt(&["[", FILE, ":", LINE, "] ", "second_var", " = ", "\"", second_var, "\"", "\n"])
        .unwrap();
    assert_eq!(
        take(&chunks),
        &[
            "[", FILE, ":", LINE, "] ", "\"first\"", " = ", "\"", "first", "\"", "\n", "[", FILE,
            ":", LINE, "] ", "second_var", " = ", "\"", "second", "\"", "\n",
        ]
    );

    w.write_fmt(&[
        "[", FILE, ":", LINE, "] ", "(\"first\", second_var)", " = ", "(\n", "    ", "\"", "first",
        "\"", ",\n", "    ", "\"", "second", "\"", ",\n", ")", "\n",
    ])
    .unwrap();
    assert_eq!(
        take(&chunks),
        &[
            "[", FILE, ":", LINE, "] ", "(\"first\", second_var)", " = ", "(\n", "    ", "\"",
            "first", "\"", ",\n", "    ", "\"", "second", "\"", ",\n", ")", "\n"
        ]
    );
}
