use beatrice_http::escape_ascii;
use beatrice_http::split_iterate::{split_iterate, SplitIterator};

fn i2s(i: &mut SplitIterator) -> String {
    let mut i_vec: Vec<String> = Vec::new();
    while let Some(b) = i.next() {
        i_vec.push(escape_ascii(b));
    }
    i_vec.join(",")
}

#[test]
fn data_empty() {
    assert_eq!("", i2s(&mut split_iterate(b"", b"s")));
    assert_eq!("", i2s(&mut split_iterate(b"", b"sep1")));
}

#[test]
fn sep_not_found() {
    assert_eq!("data1", i2s(&mut split_iterate(b"data1", b"s")));
    assert_eq!("data1", i2s(&mut split_iterate(b"data1", b"sep1")));
    assert_eq!("data1", i2s(&mut split_iterate(b"data1", b"data2")));
    assert_eq!("data1", i2s(&mut split_iterate(b"data1", b"0data")));
    assert_eq!("data1", i2s(&mut split_iterate(b"data1", b"0data1")));
    assert_eq!("data1", i2s(&mut split_iterate(b"data1", b"0d")));
    assert_eq!("data1", i2s(&mut split_iterate(b"data1", b"12")));
}

#[test]
fn sep_found_once() {
    assert_eq!(",bc", i2s(&mut split_iterate(b"abc", b"a")));
    assert_eq!("a,c", i2s(&mut split_iterate(b"abc", b"b")));
    assert_eq!("ab", i2s(&mut split_iterate(b"abc", b"c")));
    assert_eq!(",c", i2s(&mut split_iterate(b"abc", b"ab")));
    assert_eq!("a", i2s(&mut split_iterate(b"abc", b"bc")));
    assert_eq!("", i2s(&mut split_iterate(b"abc", b"abc")));
    assert_eq!("a,bc", i2s(&mut split_iterate(b"abbbc", b"bb")));
}

#[test]
fn sep_found_multiple_times() {
    assert_eq!(",,bb", i2s(&mut split_iterate(b"aabb", b"a")));
    assert_eq!("aa,", i2s(&mut split_iterate(b"aabb", b"b")));
    assert_eq!(",b,b", i2s(&mut split_iterate(b"ababa", b"a")));
    assert_eq!("a,a,a", i2s(&mut split_iterate(b"ababa", b"b")));
    assert_eq!("a,,bc", i2s(&mut split_iterate(b"abbbbbc", b"bb")));
}

#[test]
fn next_called_again() {
    let mut s = split_iterate(b"abc", b"b");
    assert_eq!("a".as_bytes(), s.next().unwrap());
    assert_eq!("c".as_bytes(), s.next().unwrap());
    assert_eq!(None, s.next());
    assert_eq!(None, s.next());
    assert_eq!(None, s.next());
}

#[test]
fn lines_of_a_head() {
    let mut s = split_iterate(b"a\r\nb\r\nc", b"\r\n");
    let pieces: Vec<&[u8]> = s.collect();
    assert_eq!(vec![&b"a"[..], &b"b"[..], &b"c"[..]], pieces);
    assert_eq!(None, s.next());
}

#[test]
fn nothing_to_split() {
    let mut s = split_iterate(b"", b"\r\n");
    assert_eq!(0, s.collect().len());
}

#[test]
fn collect_after_next() {
    let mut s = split_iterate(b"k: v\r\n\r\nx", b"\r\n");
    assert_eq!(&b"k: v"[..], s.next().unwrap());
    assert_eq!(vec![&b""[..], &b"x"[..]], s.collect());
}
