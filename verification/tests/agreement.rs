use rust_proxy::handlers::{sniff, Sniffed};
use rust_proxy::lang::source::SourceRef;

/// A small generator of numbers, the same on every run.
struct Numbers(u64);

impl Numbers {
    fn next(&mut self, below: usize) -> usize {
        self.0 = self.0.wrapping_mul(6364136223846793005).wrapping_add(1442695040888963407);
        ((self.0 >> 33) as usize) % below
    }
}

/// The scan of a request, written down in the plainest way: one loop over the bytes.
fn plain_scan(buf: &[u8], certbot: bool) -> Sniffed {
    let mut ptr: usize = 0;
    let mut carriage_return: bool = false;
    for (i, b) in buf.iter().enumerate() {
        if !carriage_return && *b == b'\r' {
            carriage_return = true;
            continue;
        } else if carriage_return && *b == b'\n' {
            let line: &[u8] = &buf[ptr..i - 1];
            if line.len() >= 6 && &line[..6] == b"Host: " {
                let mut hostname: &[u8] = &line[6..];
                if let Some(pos) = hostname.iter().position(|b| *b == b':') {
                    hostname = &hostname[..pos];
                }
                return Sniffed::Host { start: ptr + 6, end: ptr + 6 + hostname.len() };
            }
            if certbot && line.len() >= 4 && &line[..4] == b"GET " {
                let mut path: &[u8] = &line[4..];
                let needle: &[u8] = b"/PTTH ";
                let mut needle_i: usize = 0;
                for (i, b) in path.iter().enumerate().rev() {
                    if *b == needle[needle_i] {
                        needle_i += 1;
                        if needle_i == needle.len() {
                            path = &path[..i];
                            break;
                        }
                    } else {
                        needle_i = 0;
                    }
                }
                let prefix: &[u8] = b"/.well-known/acme-challenge/";
                if path.len() >= prefix.len() && &path[..prefix.len()] == prefix {
                    return Sniffed::Challenge { start: ptr + 4, end: ptr + 4 + path.len() };
                }
            }
            ptr = i + 1;
        }
        carriage_return = false;
    }
    Sniffed::Nothing
}

#[test]
fn the_scan_agrees_with_the_plain_loop() {
    let pieces: [&[u8]; 14] = [
        b"Host: ",
        b"GET ",
        b"/.well-known/acme-challenge/",
        b" HTTP/",
        b"\r",
        b"\n",
        b"\r\n",
        b":",
        b"a.example.com",
        b"/",
        b"P",
        b" ",
        b"Host:",
        b"1.1",
    ];
    let mut numbers = Numbers(7);
    for _ in 0..5000 {
        let mut request: Vec<u8> = Vec::new();
        for _ in 0..numbers.next(9) {
            request.extend_from_slice(pieces[numbers.next(pieces.len())]);
        }
        for certbot in [false, true] {
            assert_eq!(sniff(&request, certbot), plain_scan(&request, certbot), "{:?}", String::from_utf8_lossy(&request));
        }
    }
}

/// The place of a piece in its text, found by one walk over the characters of the text.
/// Nothing is found where the walk does not come by the first and the last byte of the piece.
fn plain_place(source: &str, offset: usize, size: usize) -> Option<(String, usize, (usize, usize), (usize, usize))> {
    let mut text: Option<&str> = None;
    let mut line_i: usize = 1;
    let mut col_i: usize = 1;
    let mut line_start: usize = 0;
    let mut source_start: Option<usize> = None;
    let mut start: Option<(usize, usize)> = None;
    let mut end: Option<(usize, usize)> = None;
    let mut iter = source.char_indices().peekable();
    while let Some((i, c)) = iter.next() {
        if i == offset {
            start = Some((line_i, col_i));
        }
        if i == offset + size - 1 {
            end = Some((line_i, col_i));
        }
        if c == '\n' || iter.peek().is_none() {
            if offset <= i && offset + size - 1 >= line_start {
                if source_start.is_none() {
                    source_start = Some(line_start);
                }
                if !source.is_char_boundary(i + 1) {
                    return None;
                }
                text = Some(&source[source_start.unwrap()..i + 1]);
            }
            line_i += 1;
            col_i = 1;
            line_start = i + 1;
            if i >= offset + size {
                break;
            }
        } else {
            col_i += 1;
        }
    }
    Some((String::from(text?), offset - source_start?, start?, end?))
}

#[test]
fn the_place_of_a_piece_agrees_with_the_plain_walk() {
    for source in ["one\ntwo\n\nfour", "a", "\n", "\n\n", "ab\r\ncd\n", "x\u{e9}y\nz\u{e9}\nlast line", "tab\there\n"] {
        for offset in 0..source.len() {
            for size in 1..=source.len() - offset {
                if !source.is_char_boundary(offset) || !source.is_char_boundary(offset + size - 1) {
                    continue;
                }
                let Some((text, at, start, end)) = plain_place(source, offset, size) else { continue };
                let found = SourceRef::new_with_raw_offset("<test>", source, offset, size).to_source_text();
                assert_eq!(found.source(), text, "{:?} {} {}", source, offset, size);
                assert_eq!(found.offset(), at, "{:?} {} {}", source, offset, size);
                assert_eq!(found.size(), size);
                assert_eq!(found.start(), start, "{:?} {} {}", source, offset, size);
                assert_eq!(found.end(), end, "{:?} {} {}", source, offset, size);
            }
        }
    }
}
