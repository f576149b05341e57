use std::cell::RefCell;

use custom_print::ConcatWriter;

const FILE: &str = "tests/concat_writer.rs";
const LINE: &str = "52";

fn take(chunks: &RefCell<Vec<String>>) -> Vec<String> {
    chunks.borrow_mut().drain(..).collect()
}

#[test]
fn concat_writer_test_string_writer() {
    let chunks: RefCell<Vec<String>> = RefCell::new(Vec::new());
    let mut w = ConcatWriter::from_closure(|value: &str| chunks.borrow_mut().push(value.to_string()));

    let () = w.write_fmt(&["first"]).unwrap();
    assert_eq!(take(&chunks), &["first"]);
    let () = w.write_fmt(&["first ", "second", "\nthird\n"]).unwrap();
    assert_eq!(take(&chunks), &["first second\nthird\n"]);

    let () = w.write_fmt(&["\n"]).unwrap();
    assert_eq!(take(&chunks), &["\n"]);
    let () = w.write_fmt(&["first\n"]).unwrap();
    assert_eq!(take(&chunks), &["first\n"]);
    let () = w.write_fmt(&["first ", "second", "\nthird\n\n"]).unwrap();
    assert_eq!(take(&chunks), &["first second\nthird\n\n"]);

    let second_var = "second";
    w.write_fmt(&["[", FILE, ":", LINE, "] ", "\"first\"", " = ", "\"", "first", "\"", "\n"]).unwrap();
    w.write_fmt(&["[", FILE, ":", LINE, "] ", "second_var", " = ", "\"", second_var, "\"", "\n"])
        .unwrap();
    assert_eq!(
        take(&chunks),
        &[
            format!("[{}:{}] \"first\" = \"first\"\n", FILE, LINE),
            format!("[{}:{}] second_var = \"second\"\n", FILE, LINE),
        ]
    );

    w.write_fmt(&[
        "[", FILE, ":", LINE, "] ", "(\"first\", second_var)", " = ", "", "(\n", "    ", "\"",
        "first", "\"", ",\n", "    ", "\"", "second", "\"", ",\n", ")", "\n",
    ])
    .unwrap();
    assert_eq!(
        take(&chunks),
        &[format!(
            "[{}:{}] (\"first\", second_var) = (\n    \"first\",\n    \"second\",\n)\n",
            FILE, LINE
        )]
    );
}
