use std::cell::Cell;
use std::fmt;

use custom_print::FmtTryWriter;

#[test]
fn fmt_try_writer_test_string_writer() {
    let should_write_succeed = Cell::new(false);
    let mut w = FmtTryWriter::from_closure(|_: &str| -> fmt::Result {
        if should_write_succeed.get() {
            Ok(())
        } else {
            Err(fmt::Error)
        }
    });

    should_write_succeed.set(true);
    let result = w.write_fmt(&["first"]);
    assert_eq!(result, Ok(()));
    let result = w.write_fmt(&["second\n"]);
    assert_eq!(result, Ok(()));
    let result = w
        .write_fmt(&["[", "tests/fmt_try_writer.rs", ":", "24", "] ", "\"third\"", " = ", "\"", "third", "\"", "\n"])
        .map(|()| "third");
    assert_eq!(result, Ok("third"));

    should_write_succeed.set(false);
    let result = w.write_fmt(&["first"]);
    assert_eq!(result, Err(fmt::Error));
    let result = w.write_fmt(&["second\n"]);
    assert_eq!(result, Err(fmt::Error));
    let result = w
        .write_fmt(&["[", "tests/fmt_try_writer.rs", ":", "33", "] ", "\"third\"", " = ", "\"", "third", "\"", "\n"])
        .map(|()| "third");
    assert_eq!(result, Err(fmt::Error));
}
