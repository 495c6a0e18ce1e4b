use rust_proxy::lang::source::{CompareResult, Needed, SourceRef, SourceText};

const TEXT: &str = "first line\nsecond \u{e9} line\r\nthird";

#[test]
fn a_reference_to_a_whole_text() {
    let whole = SourceRef::new("<test>", TEXT);
    assert_eq!(whole.name(), "<test>");
    assert_eq!(whole.source(), TEXT);
    assert_eq!(whole.offset(), 0);
    assert_eq!(whole.size(), TEXT.len());
    assert_eq!(whole.input_len(), TEXT.len());
    assert!(!whole.is_empty());
    assert_eq!(whole.as_str(), TEXT);
    assert!(SourceRef::new("<test>", "").is_empty());
}

#[test]
fn pieces_are_taken_and_joined() {
    let whole = SourceRef::new("<test>", TEXT);
    let first = whole.take(5);
    assert_eq!(first.as_str(), "first");
    let (rest, front) = whole.take_split(6);
    assert_eq!(front.as_str(), "first ");
    assert_eq!(rest.as_str(), &TEXT[6..]);
    assert_eq!(rest.offset(), 6);
    let tail = whole.slice(11);
    assert_eq!(tail.as_str(), &TEXT[11..]);
    let line = tail.take(6);
    assert_eq!(line.as_str(), "second");
    assert_eq!(first.add(&line).as_str(), "first line\nsecond");
    let mut grown = first;
    grown.add_assign(line);
    assert_eq!(grown.as_str(), "first line\nsecond");
    let mut larger = first;
    larger.enlarge(5);
    assert_eq!(larger.as_str(), "first line");
    assert_eq!(tail.offset_from(&first), 11);
    assert_eq!(first.offset_from(&tail), 11);
    assert_eq!(SourceRef::new_with_raw_offset("<test>", TEXT, 6, 4).as_str(), "line");
}

#[test]
fn references_are_equal_by_name_and_range() {
    let a = SourceRef::new_with_raw_offset("<test>", TEXT, 6, 4);
    assert_eq!(a, SourceRef::new_with_raw_offset("<test>", "other text", 6, 4));
    assert_ne!(a, SourceRef::new_with_raw_offset("<other>", TEXT, 6, 4));
    assert_ne!(a, SourceRef::new_with_raw_offset("<test>", TEXT, 5, 4));
    assert_ne!(a, SourceRef::new_with_raw_offset("<test>", TEXT, 6, 5));
}

#[test]
fn a_piece_is_compared_with_a_text() {
    let piece = SourceRef::new_with_raw_offset("<test>", TEXT, 6, 4);
    assert_eq!(piece.compare("li"), CompareResult::Match);
    assert_eq!(piece.compare("line"), CompareResult::Match);
    assert_eq!(piece.compare("lines"), CompareResult::Incomplete);
    assert_eq!(piece.compare("Line"), CompareResult::Error);
    assert_eq!(piece.compare(""), CompareResult::Match);
    assert_eq!(piece.compare_no_case("LINE"), CompareResult::Match);
    assert_eq!(piece.compare_no_case("LiN"), CompareResult::Match);
    assert_eq!(piece.compare_no_case("lime"), CompareResult::Error);
    assert_eq!(piece.compare_no_case("LINES"), CompareResult::Incomplete);
    let accent = SourceRef::new("<test>", "\u{c9}t\u{e9}");
    assert_eq!(accent.compare_no_case("\u{e9}T"), CompareResult::Match);
}

#[test]
fn a_piece_that_lies_outside_its_text_is_split_and_compared_all_the_same() {
    let outside = SourceRef::new_with_raw_offset("<test>", "abc", 2, 5);
    assert_eq!(outside.compare("cd"), CompareResult::Error);
    assert_eq!(outside.compare("c"), CompareResult::Match);
    assert_eq!(outside.compare("cdefgh"), CompareResult::Incomplete);
    let (rest, front) = outside.take_split(2);
    assert_eq!((front.offset(), front.size()), (2, 2));
    assert_eq!((rest.offset(), rest.size()), (4, 3));
    let tail = outside.slice(4);
    assert_eq!((tail.offset(), tail.size()), (6, 1));
}

#[test]
fn the_cut_of_an_input_is_at_its_front() {
    let whole = SourceRef::new("<test>", TEXT);
    assert_eq!(whole.slice_index(1), Ok(0));
    assert_eq!(whole.slice_index(3), Ok(0));
    assert_eq!(SourceRef::new("<test>", "").slice_index(2), Err(Needed::Size(2)));
}

fn located(offset: usize, size: usize) -> SourceText {
    SourceRef::new_with_raw_offset("<test>", TEXT, offset, size).to_source_text()
}

#[test]
fn a_piece_is_found_in_its_lines() {
    let text = located(6, 4);
    assert_eq!(text.name(), "<test>");
    assert_eq!(text.source(), "first line\n");
    assert_eq!(text.offset(), 6);
    assert_eq!(text.size(), 4);
    assert_eq!(text.start(), (1, 7));
    assert_eq!(text.end(), (1, 10));
    assert_eq!(text.as_str(), "line");

    let text = located(11, 6);
    assert_eq!(text.source(), "second \u{e9} line\r\n");
    assert_eq!(text.offset(), 0);
    assert_eq!(text.start(), (2, 1));
    assert_eq!(text.end(), (2, 6));
    assert_eq!(text.as_str(), "second");

    // Columns count characters, offsets bytes.
    let text = located(21, 4);
    assert_eq!(text.as_str(), "line");
    assert_eq!(text.offset(), 10);
    assert_eq!(text.start(), (2, 10));
    assert_eq!(text.end(), (2, 13));

    let text = located(27, 5);
    assert_eq!(text.source(), "third");
    assert_eq!(text.as_str(), "third");
    assert_eq!(text.start(), (3, 1));
    assert_eq!(text.end(), (3, 5));
}

#[test]
fn a_piece_over_several_lines_holds_them_all() {
    let text = located(6, 11);
    assert_eq!(text.source(), "first line\nsecond \u{e9} line\r\n");
    assert_eq!(text.as_str(), "line\nsecond");
    assert_eq!(text.start(), (1, 7));
    assert_eq!(text.end(), (2, 6));
    let lines = text.lines();
    assert_eq!(lines, vec![(1, "first line"), (2, "second \u{e9} line")]);

    // A piece that ends with a line end ends on that line.
    let text = located(6, 5);
    assert_eq!(text.source(), "first line\n");
    assert_eq!(text.end(), (1, 11));

    let all = located(0, TEXT.len());
    assert_eq!(all.source(), TEXT);
    assert_eq!(all.lines(), vec![(1, "first line"), (2, "second \u{e9} line"), (3, "third")]);
    assert_eq!(all.start(), (1, 1));
    assert_eq!(all.end(), (3, 5));
}

#[test]
fn an_empty_piece_has_no_place() {
    let text = located(4, 0);
    assert_eq!(text.source(), "");
    assert_eq!(text.offset(), 4);
    assert_eq!(text.size(), 0);
    assert_eq!(text.start(), (usize::MAX, usize::MAX));
    assert_eq!(text.end(), (usize::MAX, usize::MAX));
    assert_eq!(text.lines(), vec![]);
}

#[test]
fn lines_end_before_their_line_end() {
    let lines_of = |source: &'static str| {
        let text = SourceText {
            source: String::from(source),
            offset: 0,
            size: 0,
            name: String::from("<test>"),
            start: (7, 1),
            end: (7, 1),
        };
        text.lines().into_iter().map(|(number, line)| (number, String::from(line))).collect::<Vec<_>>()
    };
    let expect = |source: &'static str| {
        source.lines().enumerate().map(|(i, line)| (7 + i, String::from(line))).collect::<Vec<_>>()
    };
    for source in ["", "a", "a\n", "a\n\n", "\n", "a\r\nb", "a\rb\r", "a\r\n\r\n", "\r\n", "a\n\rb\n", "\u{e9}\r\n\u{e9}"] {
        assert_eq!(lines_of(source), expect(source), "{:?}", source);
    }
}

#[test]
fn the_characters_of_a_piece_are_marked() {
    let text = located(6, 4);
    assert!(!text.is_in_range(1, 5));
    assert!(text.is_in_range(1, 6));
    assert!(text.is_in_range(1, 9));
    assert!(!text.is_in_range(1, 10));
    assert!(!text.is_in_range(2, 6));
    let text = located(6, 11);
    assert!(text.is_in_range(1, 6));
    assert!(text.is_in_range(1, 100));
    assert!(!text.is_in_range(1, 5));
    assert!(text.is_in_range(2, 0));
    assert!(text.is_in_range(2, 5));
    assert!(!text.is_in_range(2, 6));
    assert!(!text.is_in_range(3, 0));
    let all = located(0, TEXT.len());
    assert!(all.is_in_range(2, 1000));
}

#[test]
fn texts_are_equal_by_lines_and_range() {
    assert!(located(6, 4) == located(6, 4));
    assert!(located(6, 4) != located(6, 3));
    assert!(located(6, 4) != located(5, 4));
    assert!(located(11, 6) != located(0, 6));
    let other = SourceRef::new_with_raw_offset("<other>", TEXT, 6, 4).to_source_text();
    assert!(located(6, 4) == other);
}

#[test]
fn a_text_is_cloned_as_it_is() {
    let text = located(6, 4);
    let copy = text.clone();
    assert!(copy == text);
    assert_eq!(copy.source(), text.source());
    assert_eq!(copy.start(), text.start());
    assert_eq!(copy.end(), text.end());
    assert_eq!(copy.as_str(), "line");
}

#[test]
fn a_reference_is_shown_on_one_line() {
    let piece = SourceRef::new_with_raw_offset("<test>", TEXT, 6, 11);
    assert_eq!(piece.debug_text(), "SourceRef<'<test>', \"line\\nsecond\">");
    let piece = SourceRef::new_with_raw_offset("<test>", "a\tb\r\n", 0, 5);
    assert_eq!(piece.debug_text(), "SourceRef<'<test>', \"a\\tb\\r\\n\">");
    let piece = SourceRef::new_with_raw_offset("<test>", "abc", 2, 5);
    assert_eq!(piece.debug_text(), "SourceRef<'<test>', !OUT_OF_BOUNDS (2 > 3 || 7 >= 3)!>");
    let piece = SourceRef::new_with_raw_offset("<test>", "abc", 3, 0);
    assert_eq!(piece.debug_text(), "SourceRef<'<test>', !OUT_OF_BOUNDS (3 > 3 || 3 >= 3)!>");
    assert_eq!(rust_proxy::lang::source::one_line("\u{e9}\n"), "\u{e9}\\n");
}
