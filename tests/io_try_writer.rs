use std::cell::Cell;
use std::io;

use custom_print::IoTryWriter;

#[test]
fn io_try_writer_test_string_writer() {
    let should_write_succeed = Cell::new(false);
    let mut w = IoTryWriter::from_closure(|value: &[u8]| -> io::Result<usize> {
        if should_write_succeed.get() {
            Ok(value.len())
        } else {
            Err(io::Error::new(io::ErrorKind::Other, "oh no!"))
        }
    });

    should_write_succeed.set(true);
    let result = w.write_fmt(&["first"]);
    assert_eq!(result.ok(), Some(()));
    let result = w.write_fmt(&["second\n"]);
    assert_eq!(result.ok(), Some(()));
    let result = w
        .write_fmt(&["[", "tests/io_try_writer.rs", ":", "24", "] ", "\"third\"", " = ", "\"", "third", "\"", "\n"])
        .map(|()| "third");
    assert_eq!(result.ok(), Some("third"));

    should_write_succeed.set(false);
    let result = w.write_fmt(&["first"]);
    assert!(result.is_err());
    let result = w.write_fmt(&["second\n"]);
    assert!(result.is_err());
    let result = w
        .write_fmt(&["[", "tests/io_try_writer.rs", ":", "33", "] ", "\"third\"", " = ", "\"", "third", "\"", "\n"])
        .map(|()| "third");
    assert!(result.is_err());
}
