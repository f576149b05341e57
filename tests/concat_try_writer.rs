use std::cell::Cell;

use custom_print::ConcatTryWriter;

#[derive(Clone, Debug, Eq, PartialEq)]
enum WriteError {
    CustomWriteError,
}

#[test]
fn concat_try_writer_test_string_writer() {
    let should_write_succeed = Cell::new(false);
    let mut w = ConcatTryWriter::from_closure(|_: &str| {
        if should_write_succeed.get() {
            Ok(())
        } else {
            Err(WriteError::CustomWriteError)
        }
    });

    should_write_succeed.set(true);
    let result = w.write_fmt(&["first"]);
    assert_eq!(result, Ok(()));
    let result = w.write_fmt(&["second\n"]);
    assert_eq!(result, Ok(()));
    let result = w.write_fmt(&["[", "tests/concat_try_writer.rs", ":", "31", "] ", "\"third\"", " = ", "\"third\"", "\n"]).map(|()| "third");
    assert_eq!(result, Ok("third"));

    should_write_succeed.set(false);
    let result = w.write_fmt(&["first"]);
    assert_eq!(result, Err(WriteError::CustomWriteError));
    let result = w.write_fmt(&["second\n"]);
    assert_eq!(result, Err(WriteError::CustomWriteError));
    let result = w.write_fmt(&["[", "tests/concat_try_writer.rs", ":", "38", "] ", "\"third\"", " = ", "\"third\"", "\n"]).map(|()| "third");
    assert_eq!(result, Err(WriteError::CustomWriteError));
}
