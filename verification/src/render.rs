//! Rendering a tree back to source text.  Parsed trees render to text
//! that re-parses to a structurally equal tree.

use vstd::prelude::*;
use crate::ast::{Atom, AtomV, SExpr, SExprV, Text, atom_size, sexpr_size, atom_view, sexpr_view,
    clone_text};

verus! {

/// The text an atom renders as.  String contents are emitted verbatim
/// between double quotes (parsed contents keep their escapes decoded,
/// which re-parsing preserves); numbers render as their carried text.
pub open spec fn spec_render_atom(a: AtomV) -> Seq<char>
    decreases atom_size(a), 0int,
{
    match a {
        AtomV::Str(s) => seq!['"'] + s + seq!['"'],
        AtomV::Num(n) => n.text,
        AtomV::Quote(e) => seq!['\''] + spec_render_sexpr(*e),
        AtomV::Ident(s) => s,
        AtomV::Function(_) => seq!['<', 'f', 'u', 'n', 'c', 't', 'i', 'o', 'n', '>'],
        AtomV::Nil => seq!['(', ')'],
    }
}

pub open spec fn spec_render_sexpr(e: SExprV) -> Seq<char>
    decreases sexpr_size(e), 1int,
{
    match e {
        SExprV::Atom(a) => spec_render_atom(a),
        SExprV::Cons(h, t) => seq!['('] + spec_render_items(*h, *t) + seq![')'],
    }
}

/// One list item: the quote a parsed list wraps each element in is the
/// list syntax itself, so it renders without a quote mark.
pub open spec fn spec_render_item(h: AtomV) -> Seq<char>
    decreases atom_size(h), 1int,
{
    match h {
        AtomV::Quote(p) => spec_render_sexpr(*p),
        _ => spec_render_atom(h),
    }
}

/// The items of a list, space separated; a tail that is not a
/// quote-wrapped chain renders after a dot.
pub open spec fn spec_render_items(h: AtomV, t: AtomV) -> Seq<char>
    decreases atom_size(h) + atom_size(t), 0int,
{
    let tail_text = match t {
        AtomV::Quote(rest) => match *rest {
            SExprV::Atom(AtomV::Nil) => Seq::<char>::empty(),
            SExprV::Cons(h2, t2) => seq![' '] + spec_render_items(*h2, *t2),
            _ => seq![' ', '.', ' '] + spec_render_atom(t),
        },
        _ => seq![' ', '.', ' '] + spec_render_atom(t),
    };
    spec_render_item(h) + tail_text
}

/// Append `s` to `buf`.
fn push_all(buf: &mut Text, s: &Text)
    ensures
        final(buf)@ == old(buf)@ + s@,
{
    let n = s.len();
    let mut i: usize = 0;
    while i < n
        invariant
            n == s.len(),
            i <= n,
            buf@ == old(buf)@ + s@.take(i as int),
        decreases n - i,
    {
        buf.push(s[i]);
        proof {
            assert(old(buf)@ + s@.take(i + 1 as int) =~= (old(buf)@ + s@.take(i as int)).push(
                s@[i as int],
            ));
        }
        i += 1;
    }
    proof {
        assert(old(buf)@ + s@.take(n as int) =~= old(buf)@ + s@);
    }
}

/// Render an atom into `buf`.
pub fn render_atom_into(a: &Atom, buf: &mut Text)
    ensures
        final(buf)@ == old(buf)@ + spec_render_atom(a@),
    decreases atom_size(a@), 0int,
{
    match a {
        Atom::Str(s) => {
            buf.push('"');
            push_all(buf, s);
            buf.push('"');
            proof {
                assert(buf@ =~= old(buf)@ + spec_render_atom(a@));
            }
        },
        Atom::Num(n) => {
            push_all(buf, &n.text);
        },
        Atom::Quote(e) => {
            buf.push('\'');
            render_sexpr_into(e, buf);
            proof {
                assert(buf@ =~= old(buf)@ + spec_render_atom(a@));
            }
        },
        Atom::Ident(s) => {
            push_all(buf, s);
        },
        Atom::Function(_) => {
            buf.push('<');
            buf.push('f');
            buf.push('u');
            buf.push('n');
            buf.push('c');
            buf.push('t');
            buf.push('i');
            buf.push('o');
            buf.push('n');
            buf.push('>');
            proof {
                assert(buf@ =~= old(buf)@ + spec_render_atom(a@));
            }
        },
        Atom::Nil => {
            buf.push('(');
            buf.push(')');
            proof {
                assert(buf@ =~= old(buf)@ + spec_render_atom(a@));
            }
        },
    }
}

/// Render an expression into `buf`.
pub fn render_sexpr_into(e: &SExpr, buf: &mut Text)
    ensures
        final(buf)@ == old(buf)@ + spec_render_sexpr(e@),
    decreases sexpr_size(e@), 1int,
{
    match e {
        SExpr::Atom(a) => render_atom_into(a, buf),
        SExpr::Cons(h, t) => {
            buf.push('(');
            render_items_into(h, t, buf);
            buf.push(')');
            proof {
                assert(buf@ =~= old(buf)@ + spec_render_sexpr(e@));
            }
        },
    }
}

/// Render one list item into `buf`.
fn render_item_into(h: &Atom, buf: &mut Text)
    ensures
        final(buf)@ == old(buf)@ + spec_render_item(h@),
    decreases atom_size(h@), 1int,
{
    match h {
        Atom::Quote(p) => render_sexpr_into(p, buf),
        _ => render_atom_into(h, buf),
    }
}

/// Render the items of a list into `buf`.
fn render_items_into(h: &Atom, t: &Atom, buf: &mut Text)
    ensures
        final(buf)@ == old(buf)@ + spec_render_items(h@, t@),
    decreases atom_size(h@) + atom_size(t@), 0int,
{
    render_item_into(h, buf);
    let ghost g0 = buf@;
    proof {
        assert(g0 == old(buf)@ + spec_render_item(h@));
    }
    let mut dotted = false;
    match t {
        Atom::Quote(rest) => match &**rest {
            SExpr::Atom(Atom::Nil) => {
                proof {
                    reveal_with_fuel(crate::ast::sexpr_view, 2);
                    reveal_with_fuel(crate::ast::atom_view, 2);
                    assert(t@ == AtomV::Quote(Box::new(SExprV::Atom(AtomV::Nil))));
                    assert(buf@ =~= old(buf)@ + spec_render_items(h@, t@));
                }
                return ;
            },
            SExpr::Cons(h2, t2) => {
                buf.push(' ');
                let ghost g1 = buf@;
                render_items_into(h2, t2, buf);
                proof {
                    assert(g1 == g0.push(' '));
                    assert(buf@ == g1 + spec_render_items(h2@, t2@));
                    assert(spec_render_items(h@, t@) == spec_render_item(h@) + (seq![' ']
                        + spec_render_items(h2@, t2@)));
                    assert(buf@ =~= old(buf)@ + spec_render_items(h@, t@));
                }
                return ;
            },
            _ => {
                dotted = true;
            },
        },
        _ => {
            dotted = true;
        },
    }
    if dotted {
        buf.push(' ');
        buf.push('.');
        buf.push(' ');
        render_atom_into(t, buf);
        proof {
            reveal_with_fuel(crate::ast::sexpr_view, 2);
            reveal_with_fuel(crate::ast::atom_view, 2);
            assert(spec_render_items(h@, t@) == spec_render_item(h@) + (seq![' ', '.', ' ']
                + spec_render_atom(t@)));
            assert(buf@ =~= old(buf)@ + spec_render_items(h@, t@));
        }
    }
}

/// The rendered text of an atom.
pub fn render_atom(a: &Atom) -> (r: Text)
    ensures
        r@ == spec_render_atom(a@),
{
    let mut buf: Text = Vec::new();
    render_atom_into(a, &mut buf);
    proof {
        assert(Seq::<char>::empty() + spec_render_atom(a@) =~= spec_render_atom(a@));
        assert(buf@ =~= Seq::<char>::empty() + spec_render_atom(a@));
    }
    buf
}

/// The rendered text of an expression.
pub fn render_sexpr(e: &SExpr) -> (r: Text)
    ensures
        r@ == spec_render_sexpr(e@),
{
    let mut buf: Text = Vec::new();
    render_sexpr_into(e, &mut buf);
    proof {
        assert(buf@ =~= Seq::<char>::empty() + spec_render_sexpr(e@));
        assert(Seq::<char>::empty() + spec_render_sexpr(e@) =~= spec_render_sexpr(e@));
    }
    buf
}

} // verus!
