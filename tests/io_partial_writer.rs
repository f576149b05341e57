use std::cell::{Cell, RefCell};

use custom_print::IoWriter;

fn take(chunks: &RefCell<Vec<String>>) -> Vec<String> {
    chunks.borrow_mut().drain(..).collect()
}

#[test]
fn test_io_partial_writer() {
    let chunks: RefCell<Vec<String>> = RefCell::new(Vec::new());
    let max_chunk_len = Cell::new(0usize);
    let mut w = IoWriter::from_closure(|value: &[u8]| -> usize {
        chunks.borrow_mut().push(String::from_utf8(value.to_vec()).unwrap());
        value.len().min(max_chunk_len.get())
    });

    max_chunk_len.set(4);
    w.write_fmt(&["first"]).unwrap();
    assert_eq!(take(&chunks), &["first", "t"]);

    max_chunk_len.set(2);
    w.write_fmt(&["first ", "second", "\nthird\n"]).unwrap();
    let chunks_written = take(&chunks);
    if chunks_written[0] == "first " {
        assert_eq!(
            chunks_written,
            ["first ", "rst ", "t ", "second", "cond", "nd", "\nthird\n", "hird\n", "rd\n", "\n"]
        );
    } else {
        assert_eq!(
            chunks_written,
            [
                "first second\nthird\n",
                "rst second\nthird\n",
                "t second\nthird\n",
                "second\nthird\n",
                "cond\nthird\n",
                "nd\nthird\n",
                "\nthird\n",
                "hird\n",
                "rd\n",
                "\n"
            ]
        );
    }

    w.write_fmt(&["\n"]).unwrap();
    assert_eq!(take(&chunks), &["\n"]);
}
