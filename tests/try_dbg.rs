use std::cell::RefCell;

use custom_print::ConcatTryWriter;

const FILE: &str = "tests/try_dbg.rs";

fn take(chunks: &RefCell<Vec<String>>) -> Vec<String> {
    chunks.borrow_mut().drain(..).collect()
}

#[test]
fn try_dbg_test_string_writer() {
    let chunks: RefCell<Vec<String>> = RefCell::new(Vec::new());
    let mut w =
        ConcatTryWriter::from_closure(|value: &str| chunks.borrow_mut().push(value.to_string()));
    let second_var = "second";

    let output = w.write_fmt(&["[", FILE, ":", "34", "]\n"]).map(|_| ());
    assert_eq!(output, Ok(()));
    assert_eq!(take(&chunks), &[format!("[{}:{}]\n", FILE, 34)]);

    let output = w
        .write_fmt(&["[", FILE, ":", "38", "] ", "\"first\"", " = ", "\"first\"", "\n"])
        .map(|_| "first");
    assert_eq!(output, Ok("first"));
    assert_eq!(take(&chunks), &[format!("[{}:{}] \"first\" = \"first\"\n", FILE, 38)]);

    let output = w
        .write_fmt(&["[", FILE, ":", "44", "] ", "second_var", " = ", "\"", second_var, "\"", "\n"])
        .map(|_| second_var);
    assert_eq!(output, Ok("second"));
    assert_eq!(take(&chunks), &[format!("[{}:{}] second_var = \"second\"\n", FILE, 44)]);

    let first = w
        .write_fmt(&["[", FILE, ":", "50", "] ", "\"first\"", " = ", "\"first\"", "\n"])
        .map(|_| "first");
    let second = w
        .write_fmt(&["[", FILE, ":", "50", "] ", "second_var", " = ", "\"", second_var, "\"", "\n"])
        .map(|_| second_var);
    let output = first.and_then(|a| second.map(|b| (a, b)));
    assert_eq!(output, Ok(("first", "second")));
    assert_eq!(
        take(&chunks),
        &[
            format!("[{}:{}] \"first\" = \"first\"\n", FILE, 50),
            format!("[{}:{}] second_var = \"second\"\n", FILE, 50),
        ]
    );

    let output = w
        .write_fmt(&[
            "[", FILE, ":", "62", "] ", "(\"first\", second_var)", " = ", "(\n    \"first\",\n",
            "    \"second\",\n)", "\n",
        ])
        .map(|_| ("first", second_var));
    assert_eq!(output, Ok(("first", "second")));
    assert_eq!(
        take(&chunks),
        &[format!(
            "[{}:{}] (\"first\", second_var) = (\n    \"first\",\n    \"second\",\n)\n",
            FILE, 62
        )]
    );
}
