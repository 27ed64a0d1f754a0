use beatrice_http::buffer_view::ReadDelimitedError;
use beatrice_http::chunked_input::ChunkedInput;
use beatrice_http::escape_ascii;
use beatrice_http::fixed_buffer::{FixedBuf, BUFFER_LEN};

#[test]
fn test_constructors() {
    let mut buf = FixedBuf::new();
    buf.append("abc");
    assert_eq!("abc", escape_ascii(buf.readable()));
    let mem = buf.internal_mem();
    buf = FixedBuf::new_with_mem(mem);
    assert_eq!("", escape_ascii(buf.readable()));
    buf.wrote(3);
    assert_eq!("abc", escape_ascii(buf.read_all()));
    assert_eq!("", escape_ascii(buf.readable()));
}

#[test]
fn empty() {
    let mut buf = FixedBuf::new();
    assert_eq!("", escape_ascii(buf.readable()));
    assert_eq!("", escape_ascii(buf.read_all()));
    buf.shift();
    assert_eq!("", escape_ascii(buf.readable()));
    assert_eq!("", escape_ascii(buf.read_all()));
}

#[test]
fn test_append() {
    let mut buf = FixedBuf::new();
    buf.append("abc");
    assert_eq!("abc", escape_ascii(buf.readable()));
    buf.append("def");
    assert_eq!("abcdef", escape_ascii(buf.readable()));
    buf.append(&"g".repeat(BUFFER_LEN - 6));
}

#[test]
fn test_try_append() {
    let mut buf = FixedBuf::new();
    buf.try_append("a").unwrap();
    buf.append("b");
    assert_eq!("ab", escape_ascii(buf.readable()));
    let many_cs = "c".repeat(BUFFER_LEN - 3);
    buf.try_append(&many_cs).unwrap();
    buf.try_append("d").unwrap();
    assert_eq!(
        "ab".to_string() + &many_cs + "d",
        escape_ascii(buf.readable())
    );
    assert_eq!(None, buf.try_append("e"));
}

#[test]
fn test_writable_and_wrote() {
    let mut buf = FixedBuf::new();
    assert_eq!(BUFFER_LEN, buf.writable().unwrap().len());
    buf.writable().unwrap()[0] = 'a' as u8;
    buf.wrote(1);
    assert_eq!("a", escape_ascii(buf.readable()));
    let many_bs = "b".repeat(BUFFER_LEN - 1);
    assert_eq!(many_bs.len(), buf.writable().unwrap().len());
    buf.writable().unwrap().copy_from_slice(many_bs.as_bytes());
    buf.wrote(many_bs.len());
    assert_eq!(
        "a".to_string() + &many_bs,
        escape_ascii(buf.readable())
    );
    assert_eq!(None, buf.writable());
}

#[test]
fn test_readable_and_read() {
    let mut buf = FixedBuf::new();
    assert_eq!("", escape_ascii(buf.readable()));
    buf.append("abc");
    assert_eq!("abc", escape_ascii(buf.readable()));
    buf.consume(1);
    assert_eq!("bc", escape_ascii(buf.readable()));
    buf.consume(2);
    assert_eq!("", escape_ascii(buf.readable()));
    buf.append("d");
    assert_eq!("d", escape_ascii(buf.readable()));
    buf.consume(1);
    assert_eq!("", escape_ascii(buf.readable()));
}

#[test]
fn test_read_all() {
    let mut buf = FixedBuf::new();
    assert_eq!("", escape_ascii(buf.read_all()));
    buf.append("abc");
    assert_eq!("abc", escape_ascii(buf.read_all()));
    buf.append("def");
    assert_eq!("def", escape_ascii(buf.read_all()));
    assert_eq!("", escape_ascii(buf.read_all()));
}

#[test]
fn test_std_io_write() {
    let mut buf = FixedBuf::new();
    std::io::Write::write(&mut buf, b"abc").unwrap();
    assert_eq!("abc", escape_ascii(buf.readable()));
    std::io::Write::write(&mut buf, b"def").unwrap();
    assert_eq!("abcdef", escape_ascii(buf.readable()));
    buf.consume(1);
    std::io::Write::write(&mut buf, b"g").unwrap();
    assert_eq!("bcdefg", escape_ascii(buf.readable()));
    std::io::Write::write(&mut buf, "h".repeat(BUFFER_LEN - 8).as_bytes()).unwrap();
    std::io::Write::write(&mut buf, b"i").unwrap();
    assert_eq!(
        std::io::ErrorKind::InvalidData,
        std::io::Write::write(&mut buf, b"def").unwrap_err().kind()
    );
}

#[test]
fn test_std_io_read() {
    let mut buf = FixedBuf::new();
    let mut data: [u8; BUFFER_LEN] = ['.' as u8; BUFFER_LEN];
    assert_eq!(0, std::io::Read::read(&mut buf, &mut data).unwrap());
    assert_eq!("..........", escape_ascii(&data[..10]));
    buf.append("abc");
    assert_eq!(3, std::io::Read::read(&mut buf, &mut data).unwrap());
    assert_eq!("abc.......", escape_ascii(&data[..10]));
    assert_eq!(0, std::io::Read::read(&mut buf, &mut data).unwrap());
    let many_bs = "b".repeat(BUFFER_LEN);
    buf.append(&many_bs);
    assert_eq!(
        BUFFER_LEN,
        std::io::Read::read(&mut buf, &mut data).unwrap()
    );
    assert_eq!(many_bs, escape_ascii(&data[..]));
    assert_eq!(0, std::io::Read::read(&mut buf, &mut data).unwrap());
}

/// Reads up to `delim` from an input that hands out `chunks` and then ends.
fn read_delimited_from(
    buf: &mut FixedBuf,
    chunks: &[&[u8]],
    delim: &[u8],
) -> Result<Vec<u8>, ReadDelimitedError> {
    let mut input = ChunkedInput::new(chunks);
    buf.read_delimited_from(&mut input, delim)
        .map(|head| head.to_vec())
}

#[test]
fn test_read_delimited_empty() {
    let mut buf = FixedBuf::new();
    assert_eq!(
        ReadDelimitedError::EofNoData,
        read_delimited_from(&mut buf, &[], b"b").unwrap_err()
    );
    assert_eq!(
        std::io::ErrorKind::NotFound,
        ReadDelimitedError::EofNoData.to_io_error().kind()
    );
}

#[test]
fn test_read_delimited_not_found_eof() {
    let mut buf = FixedBuf::new();
    assert_eq!(
        std::io::ErrorKind::UnexpectedEof,
        read_delimited_from(&mut buf, &[b"abc"], b"d")
            .unwrap_err()
            .to_io_error()
            .kind()
    );
    // The bytes that were read are kept.
    assert_eq!("abc", escape_ascii(buf.read_all()));
}

#[test]
fn test_read_delimited_not_found_buffer_almost_full() {
    let mut buf = FixedBuf::new();
    let many_bs = "b".repeat(BUFFER_LEN - 1);
    assert_eq!(
        std::io::ErrorKind::UnexpectedEof,
        read_delimited_from(&mut buf, &[many_bs.as_bytes()], b"d")
            .unwrap_err()
            .to_io_error()
            .kind()
    );
}

#[test]
fn test_read_delimited_not_found_buffer_full() {
    let mut buf = FixedBuf::new();
    let many_bs = "b".repeat(BUFFER_LEN);
    assert_eq!(
        std::io::ErrorKind::InvalidData,
        read_delimited_from(&mut buf, &[many_bs.as_bytes()], b"d")
            .unwrap_err()
            .to_io_error()
            .kind()
    );
}

#[test]
fn test_read_delimited_found() {
    let mut buf = FixedBuf::new();
    assert_eq!(
        "ab",
        escape_ascii(&read_delimited_from(&mut buf, &[b"abc"], b"c").unwrap())
    );
}

#[test]
fn test_read_delimited_found_with_leftover() {
    let mut buf = FixedBuf::new();
    assert_eq!(
        "ab",
        escape_ascii(&read_delimited_from(&mut buf, &[b"abcdef"], b"c").unwrap())
    );
    assert_eq!("def", escape_ascii(buf.read_all()));
}

#[test]
fn test_read_delimited_already_in_buffer() {
    let mut buf = FixedBuf::new();
    buf.append("abc");
    assert_eq!(
        "ab",
        escape_ascii(buf.read_delimited(b"c").unwrap().unwrap())
    );

    buf.append("aaxbbx");
    assert_eq!(
        "aa",
        escape_ascii(buf.read_delimited(b"x").unwrap().unwrap())
    );
    assert_eq!(
        "bb",
        escape_ascii(buf.read_delimited(b"x").unwrap().unwrap())
    );
}

#[test]
fn read_delimited_across_chunks() {
    let mut buf = FixedBuf::new();
    let chunks: [&[u8]; 4] = [b"GET / HT", b"TP/1.1\r", b"\n\r", b"\nbody"];
    assert_eq!(
        "GET / HTTP/1.1",
        escape_ascii(&read_delimited_from(&mut buf, &chunks, b"\r\n\r\n").unwrap())
    );
    assert_eq!("body", escape_ascii(buf.readable()));
}

#[test]
fn read_delimited_asks_for_input_after_shifting() {
    let mut buf = FixedBuf::new();
    buf.append("xxabc");
    buf.consume(2);
    assert_eq!(None, buf.read_delimited(b"z").unwrap());
    // The unread bytes were moved to the front.
    assert_eq!("abc", escape_ascii(buf.readable()));
    assert_eq!(BUFFER_LEN - 3, buf.writable().unwrap().len());
}

#[test]
fn read_delimited_input_at_eof_tells_whether_bytes_were_read() {
    let mut buf = FixedBuf::new();
    assert_eq!(Err(ReadDelimitedError::EofNoData), buf.read_delimited_input(0));
    assert_eq!(
        std::io::ErrorKind::NotFound,
        ReadDelimitedError::EofNoData.to_io_error().kind()
    );
    buf.append("abc");
    assert_eq!(
        Err(ReadDelimitedError::EofBeforeDelim),
        buf.read_delimited_input(0)
    );
    assert_eq!(
        std::io::ErrorKind::UnexpectedEof,
        ReadDelimitedError::EofBeforeDelim.to_io_error().kind()
    );
    buf.consume(1);
    assert_eq!(
        Err(ReadDelimitedError::EofBeforeDelim),
        buf.read_delimited_input(0)
    );
    assert_eq!("bc", escape_ascii(buf.readable()));
    // Once everything was read, the end of the input is a clean one again.
    buf.consume(2);
    assert_eq!(Err(ReadDelimitedError::EofNoData), buf.read_delimited_input(0));
}

#[test]
fn input_ends_after_a_delimited_read() {
    let mut buf = FixedBuf::new();
    let chunks: [&[u8]; 1] = [b"one\ntw"];
    let mut input = ChunkedInput::new(&chunks);
    assert_eq!(
        "one",
        escape_ascii(buf.read_delimited_from(&mut input, b"\n").unwrap())
    );
    assert_eq!(
        Err(ReadDelimitedError::EofBeforeDelim),
        buf.read_delimited_from(&mut input, b"\n")
    );
    assert_eq!("tw", escape_ascii(buf.read_all()));
    assert_eq!(
        Err(ReadDelimitedError::EofNoData),
        buf.read_delimited_from(&mut input, b"\n")
    );
}

#[test]
fn steps_driven_by_hand() {
    let mut buf = FixedBuf::new();
    assert_eq!(None, buf.read_delimited(b";").unwrap());
    buf.writable().unwrap()[..3].copy_from_slice(b"ab;");
    assert_eq!(Ok(()), buf.read_delimited_input(3));
    assert_eq!("ab", escape_ascii(buf.read_delimited(b";").unwrap().unwrap()));
    assert_eq!(None, buf.read_delimited(b";").unwrap());
    assert_eq!(Err(ReadDelimitedError::EofNoData), buf.read_delimited_input(0));
}

#[test]
fn chunked_input_hands_out_what_fits() {
    let chunks: [&[u8]; 4] = [b"abcde", b"f", b"", b"never"];
    let mut input = ChunkedInput::new(&chunks);
    let mut dest = [b'.'; 3];
    assert_eq!(3, input.read(&mut dest));
    assert_eq!(b"abc", &dest);
    assert_eq!(0, input.read(&mut dest[..0]));
    assert_eq!(2, input.read(&mut dest));
    assert_eq!(b"dec", &dest);
    assert_eq!(1, input.read(&mut dest));
    assert_eq!(b"fec", &dest);
    // An empty chunk is the end of the input.
    assert_eq!(0, input.read(&mut dest));
    assert_eq!(0, input.read(&mut dest));
    assert_eq!(0, ChunkedInput::new(&[]).read(&mut dest));
}

#[test]
fn delimiter_round_trip_with_a_long_rest() {
    // The rest is longer than the buffer; what did not fit stays in the input.
    let mut data = b"head\r\n\r\n".to_vec();
    data.extend(std::iter::repeat(b'r').take(2 * BUFFER_LEN));
    let chunks: [&[u8]; 3] = [&data[..3], &data[3..10], &data[10..]];
    let mut input = ChunkedInput::new(&chunks);
    let mut buf = FixedBuf::new();
    assert_eq!(
        "head",
        escape_ascii(buf.read_delimited_from(&mut input, b"\r\n\r\n").unwrap())
    );
    let mut rest = buf.read_all().to_vec();
    let mut dest = [0u8; 1000];
    loop {
        let n = input.read(&mut dest);
        if n == 0 {
            break;
        }
        rest.extend_from_slice(&dest[..n]);
    }
    assert_eq!(&data[8..], &rest[..]);
}

#[test]
fn read_delimited_input_commits_bytes() {
    let mut buf = FixedBuf::new();
    buf.writable().unwrap()[..2].copy_from_slice(b"hi");
    assert_eq!(Ok(()), buf.read_delimited_input(2));
    assert_eq!("hi", escape_ascii(buf.readable()));
}

#[test]
fn cursors_stay_ordered() {
    let mut buf = FixedBuf::new();
    buf.wrote(10);
    assert_eq!(10, buf.readable().len());
    buf.consume(4);
    assert_eq!(6, buf.readable().len());
    buf.wrote(BUFFER_LEN - 10);
    assert_eq!(BUFFER_LEN - 4, buf.readable().len());
    assert_eq!(None, buf.writable());
    buf.consume(BUFFER_LEN - 4);
    assert_eq!(0, buf.readable().len());
    // Fully drained: the whole memory is writable again without a shift.
    assert_eq!(BUFFER_LEN, buf.writable().unwrap().len());
}

#[test]
fn shift_twice_is_shift_once() {
    let mut buf = FixedBuf::new();
    buf.append("0123456789");
    buf.consume(3);
    buf.shift();
    assert_eq!("3456789", escape_ascii(buf.readable()));
    assert_eq!(BUFFER_LEN - 7, buf.writable().unwrap().len());
    let once = FixedBuf::new_with_mem(buf.internal_mem()).internal_mem();
    let mut buf = FixedBuf::new_with_mem(once);
    buf.wrote(7);
    buf.shift();
    assert_eq!("3456789", escape_ascii(buf.readable()));
    assert_eq!(BUFFER_LEN - 7, buf.writable().unwrap().len());
    assert_eq!(once[..], buf.internal_mem()[..]);
}

#[test]
fn shift_recovers_space_at_the_front() {
    let mut buf = FixedBuf::new();
    buf.append(&"a".repeat(BUFFER_LEN));
    buf.consume(BUFFER_LEN - 2);
    assert_eq!(None, buf.writable());
    assert_eq!(None, buf.try_append(""));
    buf.shift();
    assert_eq!("aa", escape_ascii(buf.readable()));
    assert_eq!(BUFFER_LEN - 2, buf.writable().unwrap().len());
}

#[test]
fn delimiter_round_trip() {
    let mut buf = FixedBuf::new();
    buf.append("first line\r\nrest of it");
    assert_eq!(
        "first line",
        escape_ascii(buf.read_delimited(b"\r\n").unwrap().unwrap())
    );
    assert_eq!("rest of it", escape_ascii(buf.readable()));
}

#[test]
fn delimiter_is_found_where_it_first_occurs() {
    // "a" does not hold "aa", but "a" + "aa" holds it at the very front.
    let mut buf = FixedBuf::new();
    buf.append("aaa");
    assert_eq!("", escape_ascii(buf.read_delimited(b"aa").unwrap().unwrap()));
    assert_eq!("a", escape_ascii(buf.readable()));
}

#[test]
fn write_to_full_buffer_fails_even_with_no_bytes() {
    let mut buf = FixedBuf::new();
    buf.append(&"a".repeat(BUFFER_LEN));
    assert_eq!(
        std::io::ErrorKind::InvalidData,
        std::io::Write::write(&mut buf, b"").unwrap_err().kind()
    );
    assert!(std::io::Write::flush(&mut buf).is_ok());
}
