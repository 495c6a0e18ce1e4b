use rust_proxy::not_found::{decimal_text, next_write, not_found_answer, write_not_found_file, WriteStep, PARTS};

#[test]
fn numbers_are_written_in_decimal() {
    assert_eq!(decimal_text(0), b"0".to_vec());
    assert_eq!(decimal_text(7), b"7".to_vec());
    assert_eq!(decimal_text(10), b"10".to_vec());
    assert_eq!(decimal_text(8192), b"8192".to_vec());
    assert_eq!(decimal_text(usize::MAX), usize::MAX.to_string().into_bytes());
}

#[test]
fn the_answer_has_its_parts_in_order() {
    let parts = not_found_answer("Thu, 01 Jan 1970 00:00:00 GMT", b"gone");
    assert_eq!(parts.len(), PARTS);
    assert_eq!(parts[0], b"HTTP/1.1 200 OK\r\n".to_vec());
    assert_eq!(parts[1], b"Date: Thu, 01 Jan 1970 00:00:00 GMT\r\n".to_vec());
    assert_eq!(parts[2], b"Server: rust-proxy/0.1.0\r\n".to_vec());
    assert_eq!(parts[3], b"Content-Length: ".to_vec());
    assert_eq!(parts[4], b"4".to_vec());
    assert_eq!(parts[5], b"\r\n".to_vec());
    assert_eq!(parts[6], b"Content-Type: text/html\r\n".to_vec());
    assert_eq!(parts[7], b"Connection: Closed\r\n\r\n".to_vec());
    assert_eq!(parts[8], b"gone".to_vec());
}

#[test]
fn the_length_is_that_of_the_page() {
    for len in [0usize, 1, 9, 10, 99, 100, 12345] {
        let page = vec![b'a'; len];
        let parts = write_not_found_file(0, &page).unwrap();
        let head = String::from_utf8(parts[..8].concat()).unwrap();
        assert!(head.starts_with("HTTP/1.1 200 OK\r\n"));
        assert!(head.contains(&format!("\r\nContent-Length: {}\r\n", len)));
        assert_eq!(parts[8], page);
    }
}

#[test]
fn the_date_is_that_of_the_second() {
    let parts = write_not_found_file(0, b"").unwrap();
    assert_eq!(parts[1], b"Date: Thu, 01 Jan 1970 00:00:00 GMT\r\n".to_vec());
    let parts = write_not_found_file(1714810353, b"").unwrap();
    assert_eq!(parts[1], b"Date: Sat, 04 May 2024 08:12:33 GMT\r\n".to_vec());
    let parts = write_not_found_file(-1, b"").unwrap();
    assert_eq!(parts[1], b"Date: Wed, 31 Dec 1969 23:59:59 GMT\r\n".to_vec());
    let parts = write_not_found_file(253402300799, b"").unwrap();
    assert_eq!(parts[1], b"Date: Fri, 31 Dec 9999 23:59:59 GMT\r\n".to_vec());
    assert!(write_not_found_file(i64::MAX, b"").is_none());
    assert!(write_not_found_file(i64::MIN, b"").is_none());
}

#[test]
fn parts_are_written_once_and_the_first_failure_ends_it() {
    for done in 0..PARTS {
        assert_eq!(next_write(PARTS, done, false), WriteStep::Write(done));
        assert_eq!(next_write(PARTS, done, true), WriteStep::Stop);
    }
    assert_eq!(next_write(PARTS, PARTS, false), WriteStep::Flush);
    assert_eq!(next_write(PARTS, PARTS, true), WriteStep::Stop);
    assert_eq!(next_write(PARTS, PARTS + 1, false), WriteStep::Stop);
    assert_eq!(next_write(0, 0, false), WriteStep::Flush);
}
