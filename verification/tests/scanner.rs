use minilisp::ast::{Atom, Function, FunDef, LibFn, ValueKind};
use minilisp::reader::ParenChars;

fn chars(s: &str) -> Vec<char> {
    s.chars().collect()
}

#[test]
fn peek_hides_closing_paren_at_depth_zero() {
    let sc = ParenChars::new(chars(")abc"));
    assert_eq!(sc.peek(), None);
    let sc2 = ParenChars::with_level(chars(")abc"), 1);
    assert_eq!(sc2.peek(), Some(')'));
}

#[test]
fn next_tracks_paren_depth() {
    let mut sc = ParenChars::new(chars("(a)b"));
    assert_eq!(sc.next(), Some('('));
    assert_eq!(sc.level, 1);
    assert_eq!(sc.next(), Some('a'));
    assert_eq!(sc.next(), Some(')'));
    assert_eq!(sc.level, 0);
    assert_eq!(sc.peek(), Some('b'));
}

#[test]
fn next_ignores_parens_inside_strings() {
    let mut sc = ParenChars::new(chars("\"()\"x"));
    assert_eq!(sc.next(), Some('"'));
    assert_eq!(sc.next(), Some('('));
    assert_eq!(sc.level, 0);
    assert_eq!(sc.next(), Some(')'));
    assert_eq!(sc.level, 0);
    assert_eq!(sc.next(), Some('"'));
    assert_eq!(sc.next(), Some('x'));
}

#[test]
fn escaped_quote_keeps_string_open() {
    let mut sc = ParenChars::new(chars("\"\\\")\"y"));
    assert_eq!(sc.next(), Some('"'));
    assert_eq!(sc.next(), Some('\\'));
    assert_eq!(sc.next(), Some('"'));
    // Still inside the string: the paren does not count.
    assert_eq!(sc.next(), Some(')'));
    assert_eq!(sc.level, 0);
    assert_eq!(sc.next(), Some('"'));
    assert_eq!(sc.peek(), Some('y'));
}

#[test]
fn as_str_returns_the_rest() {
    let mut sc = ParenChars::new(chars("abc"));
    sc.next();
    assert_eq!(sc.as_str(), chars("bc"));
}

#[test]
fn merge_adopts_position_and_depth() {
    let mut parent = ParenChars::with_level(chars("ab"), 1);
    let mut child = ParenChars::new(chars("ab"));
    child.next();
    child.next();
    parent.merge(child);
    assert_eq!(parent.idx, 2);
    assert_eq!(parent.level, 1);
}

#[test]
fn atom_accessors() {
    let q = Atom::Quote(Box::new(minilisp::ast::SExpr::Atom(Atom::Nil)));
    assert!(q.as_quote().is_some());
    assert!(q.as_ident().is_none());
    assert!(matches!(q.get_type(), ValueKind::Quote));
    let id = Atom::Ident(chars("abc"));
    assert_eq!(id.as_ident(), Some(&chars("abc")));
    assert!(matches!(id.try_into_ident(), Ok(v) if v == chars("abc")));
    assert!(matches!(Atom::Nil.try_into_ident(), Err(Atom::Nil)));
}

#[test]
fn function_arity_by_kind() {
    let lib = Function { id: 0, def: FunDef::Lib { name: chars("if"), which: LibFn::If } };
    assert_eq!(lib.arity(), 3);
    let user = Function {
        id: 1,
        def: FunDef::UserDefined {
            arg_names: vec![chars("a"), chars("b")],
            body: minilisp::ast::SExpr::Atom(Atom::Nil),
        },
    };
    assert_eq!(user.arity(), 2);
}
