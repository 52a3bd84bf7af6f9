use wryneck::excerpt::{
    boundary_from, error_line, find_end, locate, push_line_number, push_times, scan_line_end,
    slice, trim_end,
};

#[test]
fn find_end_returns_the_next_character_boundary() {
    assert_eq!(find_end("abc", 0), 1);
    assert_eq!(find_end("abc", 2), 3);
    let egg = "a\u{1F95A}b";
    assert_eq!(find_end(egg, 0), 1);
    assert_eq!(find_end(egg, 1), 5);
    assert_eq!(find_end(egg, 2), 5);
    assert_eq!(find_end(egg, 4), 5);
    assert_eq!(find_end(egg, 5), 6);
    assert_eq!(find_end("\u{e9}", 0), 2);
}

#[test]
fn boundary_from_moves_on_to_where_a_character_begins() {
    let egg = "a\u{1F95A}b";
    assert_eq!(boundary_from(egg, 0), 0);
    assert_eq!(boundary_from(egg, 1), 1);
    assert_eq!(boundary_from(egg, 2), 5);
    assert_eq!(boundary_from(egg, 4), 5);
    assert_eq!(boundary_from(egg, 5), 5);
    assert_eq!(boundary_from(egg, 6), 6);
    assert_eq!(boundary_from("", 0), 0);
}

#[test]
fn span_that_starts_inside_a_character_is_highlighted_from_the_next_one() {
    let egg = "a\u{1F95A}b";
    for start in 2..=4 {
        assert_eq!(
            error_line(egg, start..6),
            "1: a\u{1F95A}\u{1b}[31mb\u{1b}[0m\n--------^\n"
        );
        assert_eq!(
            error_line(egg, start..start + 1),
            "1: a\u{1F95A}\u{1b}[31m\u{1b}[0mb\n--------^\n"
        );
        assert_eq!(
            error_line(egg, start..start),
            "1: a\u{1F95A}\u{1b}[31m\u{1b}[0mb\n--------^\n"
        );
    }
    let accents = "x\n\u{e9}\u{e9}";
    assert_eq!(
        error_line(accents, 3..5),
        "1: x\n2: \u{e9}\u{1b}[31m\u{e9}\u{1b}[0m\n-----^\n"
    );
    assert_eq!(error_line("\u{e9}", 1..2), "1: \u{e9}\u{1b}[31m\u{1b}[0m\n-----^\n");
}

#[test]
fn slice_takes_the_bytes_between_two_boundaries() {
    let egg = "a\u{1F95A}b";
    assert_eq!(slice(egg, 0, 6), egg);
    assert_eq!(slice(egg, 1, 5), "\u{1F95A}");
    assert_eq!(slice(egg, 5, 6), "b");
    assert_eq!(slice(egg, 5, 5), "");
    assert_eq!(slice(egg, 0, 0), "");
}

#[test]
fn locate_counts_lines_and_finds_their_starts() {
    let text = b"ab\ncd\n\nef";
    let place = locate(text, 0);
    assert_eq!((place.line, place.first), (0, 0));
    let place = locate(text, 2);
    assert_eq!((place.line, place.first), (0, 0));
    let place = locate(text, 3);
    assert_eq!((place.line, place.first, place.prior), (1, 3, 0));
    let place = locate(text, 5);
    assert_eq!((place.line, place.first, place.prior), (1, 3, 0));
    let place = locate(text, 6);
    assert_eq!((place.line, place.first, place.prior), (2, 6, 3));
    let place = locate(text, 9);
    assert_eq!((place.line, place.first, place.prior), (3, 7, 6));
}

#[test]
fn scan_line_end_stops_at_the_line_end_or_the_end_of_the_text() {
    let text = b"ab\ncd";
    assert_eq!(scan_line_end(text, 0), 2);
    assert_eq!(scan_line_end(text, 2), 2);
    assert_eq!(scan_line_end(text, 3), 5);
    assert_eq!(scan_line_end(text, 5), 5);
    assert_eq!(scan_line_end(b"", 0), 0);
}

#[test]
fn trim_end_leaves_out_a_carriage_return_before_a_line_end() {
    let text = b"ab\r\ncd\r";
    assert_eq!(trim_end(text, 0, 3), 2);
    assert_eq!(trim_end(text, 3, 3), 3);
    assert_eq!(trim_end(text, 4, 7), 7);
    assert_eq!(trim_end(b"ab\ncd", 0, 2), 2);
}

#[test]
fn push_times_repeats_the_character() {
    let mut out = String::from(">");
    push_times(&mut out, "-", 3);
    assert_eq!(out, ">---");
    push_times(&mut out, " ", 0);
    assert_eq!(out, ">---");
}

#[test]
fn line_numbers_are_set_to_the_right() {
    let mut out = String::new();
    push_line_number(&mut out, 9, 2);
    assert_eq!(out, " 9: ");
    let mut out = String::new();
    push_line_number(&mut out, 10, 2);
    assert_eq!(out, "10: ");
    let mut out = String::new();
    push_line_number(&mut out, 7, 4);
    assert_eq!(out, "   7: ");
}

#[test]
fn excerpt_of_the_first_line_shows_no_line_before() {
    assert_eq!(error_line("abc def", 4..7), "1: abc \u{1b}[31mdef\u{1b}[0m\n-------^\n");
}

#[test]
fn excerpt_shows_the_line_before_the_offending_line() {
    let input = "let x = 5;\nlet y = ;\n";
    assert_eq!(
        error_line(input, 19..20),
        "1: let x = 5;\n2: let y = \u{1b}[31m;\u{1b}[0m\n-----------^\n"
    );
}

#[test]
fn excerpt_of_a_later_line_shows_only_one_line_before() {
    let input = "one\ntwo\nthree\nfour";
    assert_eq!(
        error_line(input, 8..13),
        "2: two\n3: \u{1b}[31mthree\u{1b}[0m\n---^\n"
    );
}

#[test]
fn excerpt_pads_the_shorter_line_number() {
    let input = "a\nb\nc\nd\ne\nf\ng\nh\ni\njk";
    assert_eq!(error_line(input, 19..20), " 9: i\n10: j\u{1b}[31mk\u{1b}[0m\n-----^\n");
}

#[test]
fn highlight_never_splits_a_character() {
    let input = "a\u{1F95A}b";
    for end in 2..=5 {
        assert_eq!(
            error_line(input, 1..end),
            "1: a\u{1b}[31m\u{1F95A}\u{1b}[0mb\n----^\n"
        );
    }
    assert_eq!(error_line(input, 1..1), "1: a\u{1b}[31m\u{1b}[0m\u{1F95A}b\n----^\n");
    assert_eq!(error_line(input, 5..6), "1: a\u{1F95A}\u{1b}[31mb\u{1b}[0m\n--------^\n");
    let accents = "\u{e9}\u{e9}";
    assert_eq!(error_line(accents, 0..1), "1: \u{1b}[31m\u{e9}\u{1b}[0m\u{e9}\n---^\n");
    assert_eq!(error_line(accents, 2..3), "1: \u{e9}\u{1b}[31m\u{e9}\u{1b}[0m\n-----^\n");
}

#[test]
fn span_that_runs_over_the_line_is_not_closed_on_it() {
    assert_eq!(error_line("ab\ncd", 1..4), "1: a\u{1b}[31mb\n----^\n");
}

#[test]
fn span_that_ends_at_the_line_end_is_closed_on_the_line() {
    assert_eq!(error_line("ab\ncd", 1..2), "1: a\u{1b}[31mb\u{1b}[0m\n----^\n");
}

#[test]
fn carriage_returns_before_line_ends_are_left_out() {
    assert_eq!(
        error_line("ab\r\ncd\r\n", 4..5),
        "1: ab\n2: \u{1b}[31mc\u{1b}[0md\n---^\n"
    );
    assert_eq!(error_line("ab\r", 0..1), "1: \u{1b}[31ma\u{1b}[0mb\r\n---^\n");
    assert_eq!(error_line("ab\r\ncd", 1..3), "1: a\u{1b}[31mb\r\u{1b}[0m\n----^\n");
}

#[test]
fn empty_span_at_the_end_of_the_text_is_shown_on_a_line_of_its_own() {
    assert_eq!(error_line("abc\n", 4..4), "1: abc\n2: \u{1b}[31m\u{1b}[0m\n---^\n");
    assert_eq!(error_line("", 0..0), "1: \u{1b}[31m\u{1b}[0m\n---^\n");
    assert_eq!(error_line("abc", 3..3), "1: abc\u{1b}[31m\u{1b}[0m\n------^\n");
}

#[test]
fn empty_line_before_is_shown_empty() {
    assert_eq!(error_line("a\n\nb", 3..4), "2: \n3: \u{1b}[31mb\u{1b}[0m\n---^\n");
}
