use std::cell::{Cell, RefCell};
use std::fmt;
use std::io;

use custom_print::{
    concat_fragments, find_nul, to_c_bytes, write_all, ConcatTryWriter, ConcatWriter,
    ExpectConcatWriteResult, ExpectFmtWriteResult, ExpectIoFlushResult, ExpectIoWriteResult,
    Flush, FlushFn, FmtTryWriter, FmtWriter, IntoConcatWriteResult, IntoFmtWriteResult,
    IntoIoFlushResult, IntoIoWriteResult, IoTryWriter, IoWriter, NulError, Progress, TryWriteCStrFn,
    WriteBytes, WriteBytesFn, WriteCStrFn, WriteStr, WriteStrFn, WriteStringFn,
};

fn take(chunks: &RefCell<Vec<String>>) -> Vec<String> {
    chunks.borrow_mut().drain(..).collect()
}

#[test]
fn concat_results_follow_the_table() {
    assert_eq!(().into_concat_write_result(), Ok(()));
    assert_eq!(Ok::<u8, &str>(7).into_concat_write_result(), Ok(7));
    assert_eq!(Err::<u8, &str>("no").into_concat_write_result(), Err("no"));
    assert_eq!(().expect_concat_write_result(), Ok(()));
    assert_eq!(Ok::<u8, &str>(7).expect_concat_write_result(), Ok(7));
}

#[test]
fn fmt_results_follow_the_table() {
    assert_eq!(().into_fmt_write_result(), Ok(()));
    assert_eq!(Ok::<(), u8>(()).into_fmt_write_result(), Ok(()));
    assert_eq!(Err::<(), u8>(3).into_fmt_write_result(), Err(fmt::Error));
    assert_eq!(().expect_fmt_write_result(), Ok(()));
    assert_eq!(Ok::<(), u8>(()).expect_fmt_write_result(), Ok(()));
}

#[test]
fn io_results_follow_the_table() {
    let buf = b"abcde";
    assert_eq!(().into_io_write_result(buf).unwrap(), 5);
    assert_eq!(3usize.into_io_write_result(buf).unwrap(), 3);
    assert_eq!(Ok::<(), io::Error>(()).into_io_write_result(buf).unwrap(), 5);
    assert_eq!(Ok::<usize, io::Error>(2).into_io_write_result(buf).unwrap(), 2);
    let err = Err::<usize, io::Error>(io::Error::new(io::ErrorKind::Other, "oh no!"))
        .into_io_write_result(buf)
        .unwrap_err();
    assert_eq!(err.kind(), io::ErrorKind::Other);
    assert_eq!(err.to_string(), "oh no!");
    assert_eq!(Ok::<(), NulError>(()).into_io_write_result(buf).unwrap(), 5);
    assert_eq!(Ok::<usize, NulError>(1).into_io_write_result(buf).unwrap(), 1);
    let err = Err::<(), NulError>(NulError::new(2, b"ab\0")).into_io_write_result(buf).unwrap_err();
    assert_eq!(err.kind(), io::ErrorKind::InvalidData);
    assert_eq!(err.to_string(), "nul byte found in provided data at position: 2");
    assert_eq!(().expect_io_write_result(buf).unwrap(), 5);
    assert_eq!(4usize.expect_io_write_result(buf).unwrap(), 4);
    assert_eq!(Ok::<(), u8>(()).expect_io_write_result(buf).unwrap(), 5);
    assert_eq!(Ok::<usize, u8>(1).expect_io_write_result(buf).unwrap(), 1);
    assert!(().into_io_flush_result().is_ok());
    assert!(Err::<(), io::Error>(io::Error::new(io::ErrorKind::Other, "x")).into_io_flush_result().is_err());
    assert!(().expect_io_flush_result().is_ok());
    assert!(Ok::<(), u8>(()).expect_io_flush_result().is_ok());
}

#[test]
fn concat_writer_calls_once_with_the_whole_text() {
    let chunks: RefCell<Vec<String>> = RefCell::new(Vec::new());
    let mut w = ConcatWriter::from_closure(|value: &str| chunks.borrow_mut().push(value.to_string()));
    w.write_fmt(&["a", "b", "c"]).unwrap();
    assert_eq!(take(&chunks), &["abc"]);
    w.write_fmt(&[]).unwrap();
    assert_eq!(take(&chunks), &[""]);
}

#[test]
fn concat_writer_hands_an_owned_string() {
    let chunks: RefCell<Vec<String>> = RefCell::new(Vec::new());
    let mut w = ConcatTryWriter::new(WriteStringFn::new(|value: String| -> Result<usize, ()> {
        let n = value.len();
        chunks.borrow_mut().push(value);
        Ok(n)
    }));
    assert_eq!(w.write_fmt(&["é", "b"]), Ok(3));
    assert_eq!(take(&chunks), &["éb"]);
}

#[test]
fn fmt_writer_calls_once_per_fragment() {
    let chunks: RefCell<Vec<String>> = RefCell::new(Vec::new());
    let mut w = FmtWriter::from_closure(|value: &str| chunks.borrow_mut().push(value.to_string()));
    w.write_fmt(&["a", "", "bc", "a"]).unwrap();
    assert_eq!(take(&chunks), &["a", "", "bc", "a"]);
    w.write_fmt(&[]).unwrap();
    assert!(take(&chunks).is_empty());
}

#[test]
fn fmt_try_writer_stops_at_the_first_failure() {
    let chunks: RefCell<Vec<String>> = RefCell::new(Vec::new());
    let mut w = FmtTryWriter::from_closure(|value: &str| -> Result<(), &str> {
        chunks.borrow_mut().push(value.to_string());
        if value == "bad" {
            Err("bad")
        } else {
            Ok(())
        }
    });
    assert_eq!(w.write_fmt(&["a", "bad", "c"]), Err(fmt::Error));
    assert_eq!(take(&chunks), &["a", "bad"]);
    assert_eq!(w.write_fmt(&["a", "c"]), Ok(()));
    assert_eq!(take(&chunks), &["a", "c"]);
}

#[test]
fn io_writer_with_capped_primitive_makes_ceil_calls() {
    let chunks: RefCell<Vec<String>> = RefCell::new(Vec::new());
    let mut w = IoWriter::from_closure(|value: &[u8]| -> usize {
        chunks.borrow_mut().push(String::from_utf8(value.to_vec()).unwrap());
        value.len().min(3)
    });
    w.write_fmt(&["abcdefgh"]).unwrap();
    let calls = take(&chunks);
    assert_eq!(calls, &["abcdefgh", "defgh", "gh"]);
    let consumed: String = calls
        .iter()
        .enumerate()
        .map(|(j, c)| {
            let next = calls.get(j + 1).map_or(0, |n| n.len());
            c[..c.len() - next].to_string()
        })
        .collect();
    assert_eq!(consumed, "abcdefgh");
}

#[test]
fn write_all_reports_progress_on_failure() {
    let calls = Cell::new(0usize);
    let mut w = IoTryWriter::from_closure(|value: &[u8]| -> io::Result<usize> {
        calls.set(calls.get() + 1);
        if calls.get() == 1 {
            Ok(value.len().min(2))
        } else {
            Err(io::Error::new(io::ErrorKind::Other, "broken"))
        }
    });
    let err = write_all(&mut w, b"abcd").unwrap_err();
    assert_eq!(err.written, 2);
    assert_eq!(err.error.kind(), io::ErrorKind::Other);
    assert!(!err.interrupted);
    assert_eq!(calls.get(), 2);
    assert!(write_all(&mut w, b"").is_ok());
    assert_eq!(calls.get(), 2);
}

#[test]
fn interrupted_write_is_retried_on_the_same_bytes() {
    let chunks: RefCell<Vec<String>> = RefCell::new(Vec::new());
    let calls = Cell::new(0usize);
    let mut w = IoTryWriter::from_closure(|value: &[u8]| -> io::Result<usize> {
        chunks.borrow_mut().push(String::from_utf8(value.to_vec()).unwrap());
        calls.set(calls.get() + 1);
        if calls.get() == 1 || calls.get() == 4 {
            Err(io::ErrorKind::Interrupted.into())
        } else {
            Ok(value.len().min(3))
        }
    });
    let fragments = ["ab", "cdefg"];
    let mut result = w.write_fmt(&fragments);
    let mut stops = Vec::new();
    while let Err(stop) = result {
        assert!(stop.interrupted);
        stops.push(stop.at);
        result = w.resume_fmt(&fragments, stop.at);
    }
    assert!(result.is_ok());
    assert_eq!(stops, [Progress { fragment: 0, offset: 0 }, Progress { fragment: 1, offset: 3 }]);
    assert_eq!(take(&chunks), &["ab", "ab", "cdefg", "fg", "fg"]);
}

#[test]
fn stalled_primitive_fails_after_one_call() {
    let calls = Cell::new(0usize);
    let mut w = IoWriter::from_closure(|_: &[u8]| -> usize {
        calls.set(calls.get() + 1);
        0
    });
    let err = w.write_fmt(&["abc"]).unwrap_err();
    assert_eq!(err.kind(), io::ErrorKind::WriteZero);
    assert_eq!(calls.get(), 1);
}

#[test]
fn io_try_writer_passes_the_error_on() {
    let mut w = IoTryWriter::from_closure(|_: &[u8]| -> io::Result<()> {
        Err(io::Error::new(io::ErrorKind::PermissionDenied, "denied"))
    });
    let stop = w.write_fmt(&["x", "abc", "y"]).unwrap_err();
    assert_eq!(stop.error.kind(), io::ErrorKind::PermissionDenied);
    assert_eq!(stop.error.to_string(), "denied");
    assert!(!stop.interrupted);
    assert_eq!(stop.at, Progress { fragment: 0, offset: 0 });
}

#[test]
fn c_string_error_names_the_first_nul() {
    for k in 0..4usize {
        let mut buf = b"abcd".to_vec();
        buf[k] = 0;
        buf.push(0);
        let mut w = TryWriteCStrFn::new(|_: &[u8]| ());
        let err = w.write_bytes(&buf).unwrap_err();
        assert_eq!(err.nul_position(), k);
        assert_eq!(err.message(), format!("nul byte found in provided data at position: {}", k));
        assert_eq!(err.into_vec(), buf);
    }
    let mut w = TryWriteCStrFn::new(|_: &[u8]| 1u8);
    assert_eq!(w.write_bytes(b"abc").ok(), Some(1));
    assert_eq!(NulError::new(1234, b"").message(), "nul byte found in provided data at position: 1234");
}

#[test]
fn c_string_wrapper_appends_one_nul() {
    let got: RefCell<Vec<Vec<u8>>> = RefCell::new(Vec::new());
    let mut w = WriteCStrFn::new(|c_str: &[u8]| got.borrow_mut().push(c_str.to_vec()));
    w.write_str("hi");
    w.write_bytes(b"");
    assert_eq!(*got.borrow(), vec![b"hi\0".to_vec(), b"\0".to_vec()]);
    assert_eq!(to_c_bytes(b"ab"), b"ab\0".to_vec());
    assert_eq!(find_nul(b"ab\0c\0"), Some(2));
    assert_eq!(find_nul(b"abc"), None);
    assert_eq!(find_nul(b""), None);
}

#[test]
fn fragments_concatenate_in_order() {
    assert_eq!(concat_fragments(&["first ", "second", "\nthird\n"]), "first second\nthird\n");
    assert_eq!(concat_fragments(&[]), "");
}

#[test]
fn wrappers_hand_the_buffer_through() {
    let mut bytes = WriteBytesFn::new(|b: &[u8]| b.len());
    assert_eq!(bytes.write_bytes(b"abc"), 3);
    assert_eq!(bytes.write_str("é"), 2);
    let mut text = WriteStrFn::new(|s: &str| s.chars().count());
    assert_eq!(text.write_str("é!"), 2);
    let mut flush = FlushFn::new(|| 5u8);
    assert_eq!(flush.flush(), 5);
    let mut nothing = ();
    nothing.flush();
}

#[test]
fn io_writer_flushes_through_its_flush_function() {
    let flushed = Cell::new(0u32);
    let mut w = IoWriter::new(
        WriteBytesFn::new(|_: &[u8]| ()),
        FlushFn::new(|| flushed.set(flushed.get() + 1)),
    );
    assert!(w.flush().is_ok());
    assert!(w.flush().is_ok());
    assert_eq!(flushed.get(), 2);
    let mut t = IoTryWriter::new(
        WriteBytesFn::new(|_: &[u8]| ()),
        FlushFn::new(|| -> io::Result<()> { Err(io::Error::new(io::ErrorKind::Other, "f")) }),
    );
    assert!(t.flush().is_err());
}

#[test]
fn io_try_writer_with_capped_primitive_counts_per_fragment() {
    let chunks: RefCell<Vec<String>> = RefCell::new(Vec::new());
    let mut w = IoTryWriter::from_closure(|value: &[u8]| -> io::Result<usize> {
        chunks.borrow_mut().push(String::from_utf8(value.to_vec()).unwrap());
        Ok(value.len().min(3))
    });
    assert!(w.write_fmt(&["abcdefgh", "xy", ""]).is_ok());
    assert_eq!(take(&chunks), &["abcdefgh", "defgh", "gh", "xy"]);
}

#[test]
fn stalled_try_writer_stops_with_write_zero() {
    let calls = Cell::new(0usize);
    let mut w = IoTryWriter::from_closure(|_: &[u8]| -> io::Result<usize> {
        calls.set(calls.get() + 1);
        Ok(0)
    });
    let stop = w.write_fmt(&["abc", "d"]).unwrap_err();
    assert_eq!(stop.error.kind(), io::ErrorKind::WriteZero);
    assert!(!stop.interrupted);
    assert_eq!(stop.at, Progress { fragment: 0, offset: 0 });
    assert_eq!(calls.get(), 1);
}
