use minilisp::ast::{sexpr_eq, Atom, SExpr};
use minilisp::error::ParseErrKind;
use minilisp::reader::Reader;
use minilisp::render::render_sexpr;

fn text(s: &str) -> Vec<char> {
    s.chars().collect()
}

fn parse_all(src: &str) -> Vec<SExpr> {
    Reader::new(src).parse_sexprs().expect("should parse")
}

fn parse_err(src: &str) -> minilisp::error::Error {
    Reader::new(src).parse_sexprs().expect_err("should fail to parse")
}

fn round_trips(src: &str) {
    let forms = parse_all(src);
    for f in &forms {
        let rendered: String = render_sexpr(f).into_iter().collect();
        let reparsed = parse_all(&rendered);
        assert_eq!(reparsed.len(), 1, "rendered: {rendered}");
        assert!(
            sexpr_eq(f, &reparsed[0]),
            "round trip changed the tree; rendered: {rendered}"
        );
    }
}

#[test]
fn parses_number_atom() {
    let forms = parse_all("42");
    match &forms[0] {
        SExpr::Atom(Atom::Num(n)) => {
            assert_eq!(n.bits, 42.0f64.to_bits());
            assert_eq!(n.text, text("42"));
        },
        other => panic!("got {other:?}"),
    }
}

#[test]
fn parses_decimal_number() {
    let forms = parse_all("3.5");
    match &forms[0] {
        SExpr::Atom(Atom::Num(n)) => assert_eq!(n.bits, 3.5f64.to_bits()),
        other => panic!("got {other:?}"),
    }
}

#[test]
fn parses_string_with_escapes() {
    let forms = parse_all("\"a\\nb\\0c\"");
    match &forms[0] {
        SExpr::Atom(Atom::Str(s)) => assert_eq!(s, &vec!['a', '\n', 'b', '\u{0}', 'c']),
        other => panic!("got {other:?}"),
    }
}

#[test]
fn carriage_return_escape_decodes_to_nul() {
    let forms = parse_all("\"a\\rb\"");
    match &forms[0] {
        SExpr::Atom(Atom::Str(s)) => assert_eq!(s, &vec!['a', '\u{0}', 'b']),
        other => panic!("got {other:?}"),
    }
}

#[test]
fn escaped_quote_does_not_end_string() {
    let forms = parse_all("\"a\\\"b\"");
    match &forms[0] {
        SExpr::Atom(Atom::Str(s)) => assert_eq!(s, &vec!['a', '\\', '"', 'b']),
        other => panic!("got {other:?}"),
    }
}

#[test]
fn parens_inside_strings_are_plain_text() {
    let forms = parse_all("(car (cons \")\" \"(\"))");
    assert_eq!(forms.len(), 1);
}

#[test]
fn empty_list_is_nil() {
    let forms = parse_all("()");
    assert!(matches!(&forms[0], SExpr::Atom(Atom::Nil)));
}

#[test]
fn list_builds_quote_wrapped_chain() {
    let forms = parse_all("(a b)");
    match &forms[0] {
        SExpr::Cons(Atom::Quote(h), Atom::Quote(t)) => {
            assert!(matches!(&**h, SExpr::Atom(Atom::Ident(_))));
            assert!(matches!(&**t, SExpr::Cons(_, _)));
        },
        other => panic!("got {other:?}"),
    }
}

#[test]
fn comments_read_as_whitespace() {
    let forms = parse_all("; leading comment\n(a ; inner\n b) ; trailing");
    assert_eq!(forms.len(), 1);
}

#[test]
fn several_top_level_forms() {
    assert_eq!(parse_all("a (b) 3 \"s\" 'q").len(), 5);
}

#[test]
fn error_number_with_trailing_dot() {
    let e = parse_err("12.");
    assert!(matches!(e.kind, ParseErrKind::NumberFormat(_)));
}

#[test]
fn error_unexpected_char() {
    let e = parse_err("@");
    assert!(matches!(e.kind, ParseErrKind::UnexpectedChar('@')));
    assert_eq!(e.idx, 0);
}

#[test]
fn error_quote_at_end_of_input() {
    let e = parse_err("'");
    assert!(matches!(e.kind, ParseErrKind::UnexpectedEnd));
}

#[test]
fn error_unterminated_string() {
    let e = parse_err("\"ab");
    assert!(matches!(e.kind, ParseErrKind::UnexpectedEnd));
}

#[test]
fn error_position_line_and_column() {
    let src = "(\n@";
    let e = parse_err(src);
    let chars: Vec<char> = src.chars().collect();
    let (line, col) = e.position(&chars);
    assert_eq!((line, col), (2, 1));
}

#[test]
fn round_trip_atoms() {
    round_trips("abc");
    round_trips("42");
    round_trips("1.5");
    round_trips("\"hello\"");
    round_trips("'sym");
    round_trips("()");
}

#[test]
fn round_trip_lists() {
    round_trips("(a b c)");
    round_trips("(a (b (c d)) e)");
    round_trips("(+ 1 (- 2.5 3))");
}

#[test]
fn round_trip_strings_with_escapes() {
    round_trips("\"a\\nb\"");
    round_trips("\"a\\\"b\"");
    round_trips("(f \"x y\" 'q)");
}

#[test]
fn round_trip_quotes() {
    round_trips("''x");
    round_trips("'(a 'b (c))");
}

#[test]
fn stray_closing_paren_acts_as_end_of_input() {
    let forms = parse_all("abc) def");
    assert_eq!(forms.len(), 1);
}
