//! The round-trip law: rendering a parsed tree to text and re-parsing
//! yields a structurally equal tree.

use vstd::prelude::*;
use crate::ast::{AtomV, SExprV, atom_size, sexpr_size};
use crate::num::{dbl_of_text, is_simple_decimal, is_digit_char, all_digits};
use crate::reader::{ScanV, scan_peek, scan_advance, spec_skip_ws, spec_skip_blank,
    spec_skip_comment, spec_skip_digits, spec_skip_ident, spec_string_end, spec_decode,
    spec_parse_atom, spec_parse_sexpr, spec_parse_items, spec_parse_program, list_of, PAtomOut,
    PSExprOut, PItemsOut, is_ws_char, is_ident_start, is_ident_char};
use crate::render::{spec_render_atom, spec_render_sexpr, spec_render_item, spec_render_items};

verus! {

/// String contents as the scanner accepts them: a backslash always
/// carries a following character, and a double quote stands only as
/// that carried character.
pub open spec fn str_scannable(s: Seq<char>) -> bool
    decreases s.len(),
{
    if s.len() == 0 {
        true
    } else if s[0] == '"' {
        false
    } else if s[0] == '\\' {
        s.len() >= 2 && str_scannable(s.skip(2))
    } else {
        str_scannable(s.skip(1))
    }
}

/// An atom a parse can produce, in a shape whose rendering re-parses.
pub open spec fn wf_atom(a: AtomV) -> bool
    decreases atom_size(a), 0int,
{
    match a {
        AtomV::Str(s) => str_scannable(s) && spec_decode(s) == s,
        AtomV::Num(n) => is_simple_decimal(n.text) && n.bits == dbl_of_text(n.text),
        AtomV::Quote(e) => wf_sexpr(*e),
        AtomV::Ident(s) => s.len() >= 1 && is_ident_start(s[0]) && (forall|i: int|
            0 <= i < s.len() ==> is_ident_char(s[i])),
        AtomV::Function(_) => false,
        AtomV::Nil => true,
    }
}

/// An expression a parse can produce: an atom, or a syntactic list,
/// every element and tail wrapped in a quote, ending in nil.
pub open spec fn wf_sexpr(e: SExprV) -> bool
    decreases sexpr_size(e), 1int,
{
    match e {
        SExprV::Atom(a) => wf_atom(a),
        SExprV::Cons(_, _) => wf_list(e),
    }
}

/// A quote-wrapped element chain ending in nil, with at least one
/// element when it is a cons.
pub open spec fn wf_list(e: SExprV) -> bool
    decreases sexpr_size(e), 0int,
{
    match e {
        SExprV::Atom(AtomV::Nil) => true,
        SExprV::Cons(h, t) => match (*h, *t) {
            (AtomV::Quote(p), AtomV::Quote(r)) => wf_sexpr(*p) && wf_list(*r),
            _ => false,
        },
        _ => false,
    }
}

/// The elements of a well-formed list chain.
pub open spec fn items_seq(e: SExprV) -> Seq<SExprV>
    decreases sexpr_size(e),
{
    match e {
        SExprV::Cons(h, t) => match (*h, *t) {
            (AtomV::Quote(p), AtomV::Quote(r)) => Seq::empty().push(*p) + items_seq(*r),
            _ => Seq::empty(),
        },
        _ => Seq::empty(),
    }
}

/// Folding the elements of a well-formed chain rebuilds the chain.
pub proof fn lemma_list_of_items(e: SExprV)
    requires
        wf_list(e),
    ensures
        e matches SExprV::Cons(_, _) ==> list_of(items_seq(e)) == e,
        e matches SExprV::Atom(_) ==> list_of(items_seq(e)) == SExprV::Atom(AtomV::Nil),
    decreases sexpr_size(e),
{
    reveal_with_fuel(list_of, 3);
    reveal_with_fuel(wf_list, 3);
    match e {
        SExprV::Cons(h, t) => match (*h, *t) {
            (AtomV::Quote(p), AtomV::Quote(r)) => {
                lemma_list_of_items(*r);
                let rest = items_seq(*r);
                let items = Seq::empty().push(*p) + rest;
                assert(items[0] == *p);
                assert(items.skip(1) =~= rest);
                if *r matches SExprV::Cons(_, _) {
                    assert(list_of(rest) == *r);
                } else {
                    assert(rest =~= Seq::<SExprV>::empty());
                    assert(list_of(rest) == SExprV::Atom(AtomV::Nil));
                    assert(*r == SExprV::Atom(AtomV::Nil));
                }
                assert(items_seq(e) == items);
                assert(list_of(items) == (SExprV::Cons(
                    Box::new(AtomV::Quote(Box::new(items[0]))),
                    Box::new(AtomV::Quote(Box::new(list_of(items.skip(1))))),
                )));
                assert(list_of(items) == e);
            },
            _ => {},
        },
        _ => {
            assert(items_seq(e) =~= Seq::<SExprV>::empty());
        },
    }
}

} // verus!

verus! {

/// A character that ends a token: whitespace or a closing paren.
pub open spec fn is_sep(c: char) -> bool {
    is_ws_char(c) || c == ')'
}

/// The scanner state `k` characters further, with nothing else moved.
pub open spec fn scan_at(s: ScanV, k: int) -> ScanV {
    ScanV { idx: s.idx + k, ..s }
}

/// Outside strings and escapes, a digit run is consumed exactly.
pub proof fn lemma_skip_digits_run(s: ScanV, k: int)
    requires
        0 <= s.idx,
        0 <= k,
        s.idx + k <= s.src.len(),
        !s.in_str,
        !s.in_escape,
        forall|j: int| s.idx <= j < s.idx + k ==> is_digit_char(s.src[j]),
        s.idx + k == s.src.len() || !is_digit_char(s.src[s.idx + k]),
    ensures
        spec_skip_digits(s) == scan_at(s, k),
    decreases k,
{
    if k == 0 {
        match scan_peek(s) {
            Some(c) => {
                assert(!is_digit_char(c));
            },
            None => {},
        }
        assert(scan_at(s, 0) =~= s);
    } else {
        assert(is_digit_char(s.src[s.idx]));
        let s1 = scan_advance(s);
        assert(s1 =~= scan_at(s, 1));
        lemma_skip_digits_run(s1, k - 1);
        assert(scan_at(s1, k - 1) =~= scan_at(s, k));
    }
}

/// Outside strings and escapes, an identifier run is consumed exactly.
pub proof fn lemma_skip_ident_run(s: ScanV, k: int)
    requires
        0 <= s.idx,
        0 <= k,
        s.idx + k <= s.src.len(),
        !s.in_str,
        !s.in_escape,
        forall|j: int| s.idx <= j < s.idx + k ==> is_ident_char(s.src[j]),
        s.idx + k == s.src.len() || !is_ident_char(s.src[s.idx + k]),
    ensures
        spec_skip_ident(s) == scan_at(s, k),
    decreases k,
{
    if k == 0 {
        match scan_peek(s) {
            Some(c) => {
                assert(!is_ident_char(c));
            },
            None => {},
        }
        assert(scan_at(s, 0) =~= s);
    } else {
        assert(is_ident_char(s.src[s.idx]));
        let s1 = scan_advance(s);
        assert(s1 =~= scan_at(s, 1));
        lemma_skip_ident_run(s1, k - 1);
        assert(scan_at(s1, k - 1) =~= scan_at(s, k));
    }
}

/// Inside a string, scannable contents are consumed exactly, up to
/// the closing quote, and the scanner's depth does not move.
pub proof fn lemma_string_scan(s: ScanV, n: int)
    requires
        0 <= s.idx,
        0 <= n,
        s.idx + n < s.src.len(),
        s.in_str,
        !s.in_escape,
        str_scannable(s.src.subrange(s.idx, s.idx + n)),
        s.src[s.idx + n] == '"',
    ensures
        spec_string_end(s) == scan_at(s, n),
    decreases n,
{
    let c = s.src.subrange(s.idx, s.idx + n);
    if n == 0 {
        assert(scan_peek(s) == Some('"'));
        assert(scan_at(s, 0) =~= s);
    } else {
        assert(c[0] == s.src[s.idx]);
        assert(c[0] != '"');
        if c[0] == '\\' {
            assert(c.len() >= 2);
            let s1 = scan_advance(s);
            assert(s1 == (ScanV { idx: s.idx + 1, in_escape: true, ..s }));
            assert(s1.idx < s1.src.len());
            let s2 = scan_advance(s1);
            assert(s2 =~= scan_at(s, 2));
            assert(c.skip(2) =~= s.src.subrange(s.idx + 2, s.idx + n));
            lemma_string_scan(s2, n - 2);
            assert(scan_at(s2, n - 2) =~= scan_at(s, n));
        } else {
            let s1 = scan_advance(s);
            assert(s1 =~= scan_at(s, 1));
            assert(c.skip(1) =~= s.src.subrange(s.idx + 1, s.idx + n));
            lemma_string_scan(s1, n - 1);
            assert(scan_at(s1, n - 1) =~= scan_at(s, n));
        }
    }
}

} // verus!

verus! {

/// Outside strings and escapes, a whitespace run is consumed exactly.
pub proof fn lemma_skip_ws_run(s: ScanV, k: int)
    requires
        0 <= s.idx,
        0 <= k,
        s.idx + k <= s.src.len(),
        !s.in_str,
        !s.in_escape,
        forall|j: int| s.idx <= j < s.idx + k ==> s.src[j] == ' ',
        s.idx + k == s.src.len() || !is_ws_char(s.src[s.idx + k]),
    ensures
        spec_skip_ws(s) == scan_at(s, k),
    decreases k,
{
    if k == 0 {
        match scan_peek(s) {
            Some(c) => {
                assert(!is_ws_char(c));
            },
            None => {},
        }
        assert(scan_at(s, 0) =~= s);
    } else {
        let s1 = scan_advance(s);
        assert(s1 =~= scan_at(s, 1));
        lemma_skip_ws_run(s1, k - 1);
        assert(scan_at(s1, k - 1) =~= scan_at(s, k));
    }
}

/// A run of spaces followed by something that is neither whitespace
/// nor a comment is all that skipping blanks consumes.
pub proof fn lemma_skip_blank_run(s: ScanV, k: int)
    requires
        0 <= s.idx,
        0 <= k,
        s.idx + k <= s.src.len(),
        !s.in_str,
        !s.in_escape,
        forall|j: int| s.idx <= j < s.idx + k ==> s.src[j] == ' ',
        s.idx + k == s.src.len() || (!is_ws_char(s.src[s.idx + k]) && s.src[s.idx + k] != ';'),
    ensures
        spec_skip_blank(s) == scan_at(s, k),
{
    lemma_skip_ws_run(s, k);
    let s1 = scan_at(s, k);
    match scan_peek(s1) {
        Some(c) => {
            assert(c != ';');
        },
        None => {},
    }
}

/// The first character a well-formed expression renders as: an open
/// paren, a quote mark, a string quote, a digit, or an identifier
/// start -- never whitespace, a comment, or a closing paren.
pub proof fn lemma_render_first_char(t: SExprV)
    requires
        wf_sexpr(t),
    ensures
        spec_render_sexpr(t).len() >= 1,
        ({
            let c = spec_render_sexpr(t)[0];
            c == '(' || c == '"' || c == '\'' || is_digit_char(c) || is_ident_start(c)
        }),
{
    match t {
        SExprV::Atom(a) => match a {
            AtomV::Str(c) => {
                assert(spec_render_atom(a)[0] == '"');
            },
            AtomV::Num(n) => {
                assert(is_simple_decimal(n.text));
                if all_digits(n.text) {
                    assert(is_digit_char(n.text[0]));
                } else {
                    let k = choose|k: int|
                        0 < k < n.text.len() && n.text[k] == '.' && all_digits(n.text.take(k))
                            && all_digits(n.text.skip(k + 1));
                    assert(n.text.take(k)[0] == n.text[0]);
                    assert(is_digit_char(n.text[0]));
                }
                assert(spec_render_atom(a)[0] == n.text[0]);
            },
            AtomV::Quote(_) => {
                assert(spec_render_atom(a)[0] == '\'');
            },
            AtomV::Ident(c) => {
                assert(spec_render_atom(a)[0] == c[0]);
            },
            AtomV::Function(_) => {},
            AtomV::Nil => {
                assert(spec_render_atom(a)[0] == '(');
            },
        },
        SExprV::Cons(_, _) => {
            assert(spec_render_sexpr(t)[0] == '(');
        },
    }
}

} // verus!

verus! {

/// The text the items of a well-formed chain render as.
pub open spec fn items_text(e: SExprV) -> Seq<char> {
    match e {
        SExprV::Cons(h, t) => spec_render_items(*h, *t),
        _ => Seq::empty(),
    }
}

/// Re-parsing the rendered text of a well-formed expression yields
/// exactly that expression, consuming exactly that text.
pub proof fn lemma_reparse_sexpr(t: SExprV, s: ScanV)
    requires
        wf_sexpr(t),
        0 <= s.idx,
        0 <= s.level,
        s.level + sexpr_size(t) + 1 <= usize::MAX,
        !s.in_str,
        !s.in_escape,
        s.idx + spec_render_sexpr(t).len() <= s.src.len(),
        s.src.subrange(s.idx, s.idx + spec_render_sexpr(t).len()) == spec_render_sexpr(t),
        s.idx + spec_render_sexpr(t).len() == s.src.len() || is_sep(
            s.src[s.idx + spec_render_sexpr(t).len()],
        ),
    ensures
        spec_parse_sexpr(s) == (PSExprOut {
            r: Ok(t),
            s: scan_at(s, spec_render_sexpr(t).len() as int),
        }),
    decreases sexpr_size(t), 1int,
{
    let r = spec_render_sexpr(t);
    let len = r.len() as int;
    lemma_render_first_char(t);
    assert(s.src[s.idx] == r[0]);
    assert(scan_peek(s) == Some(r[0]));
    match t {
        SExprV::Atom(a) => match a {
            AtomV::Nil => {
                assert(r == seq!['(', ')']);
                let s1 = scan_advance(s);
                assert(s1 == (ScanV { idx: s.idx + 1, level: s.level + 1, ..s }));
                assert(s.src[s.idx + 1] == r[1]);
                assert(r[1] == ')');
                assert(items_text(SExprV::Atom(AtomV::Nil)) =~= Seq::<char>::empty());
                assert(s.src.subrange(s1.idx, s1.idx) =~= Seq::<char>::empty());
                lemma_reparse_items(SExprV::Atom(AtomV::Nil), s1, 0);
                reveal_with_fuel(list_of, 2);
                assert(list_of(items_seq(SExprV::Atom(AtomV::Nil))) == t);
                assert(spec_parse_sexpr(s).s =~= scan_at(s, 2));
            },
            AtomV::Ident(c) => {
                assert(r == c);
                assert(forall|j: int| s.idx <= j < s.idx + len ==> s.src[j] == c[j - s.idx]);
                assert(forall|j: int|
                    s.idx <= j < s.idx + len ==> is_ident_char(#[trigger] s.src[j]));
                lemma_skip_ident_run(s, len);
                let s1 = spec_skip_ident(s);
                assert(s.src.subrange(s.idx, s1.idx) =~= c);
                assert(!is_digit_char(r[0]));
                assert(r[0] != '"' && r[0] != '\'' && !is_ws_char(r[0]));
                assert(spec_parse_atom(s) == (PAtomOut { r: Ok(a), s: scan_at(s, len) }));
            },
            AtomV::Num(n) => {
                assert(r == n.text);
                if all_digits(n.text) {
                    assert(forall|j: int|
                        s.idx <= j < s.idx + len ==> s.src[j] == n.text[j - s.idx]);
                    assert(forall|j: int|
                        s.idx <= j < s.idx + len ==> is_digit_char(#[trigger] s.src[j]));
                    lemma_skip_digits_run(s, len);
                    let s1 = spec_skip_digits(s);
                    assert(scan_peek(s1) != Some('.'));
                    assert(s.src.subrange(s.idx, s1.idx) =~= n.text);
                    assert(spec_parse_atom(s) == (PAtomOut { r: Ok(a), s: scan_at(s, len) }));
                } else {
                    let k = choose|k: int|
                        0 < k < n.text.len() && n.text[k] == '.' && all_digits(n.text.take(k))
                            && all_digits(n.text.skip(k + 1));
                    assert(forall|j: int| s.idx <= j < s.idx + k ==> is_digit_char(
                        #[trigger] s.src[j],
                    )) by {
                        assert(forall|j: int| s.idx <= j < s.idx + k ==> s.src[j] == n.text.take(
                            k,
                        )[j - s.idx]);
                    }
                    assert(s.src[s.idx + k] == '.');
                    lemma_skip_digits_run(s, k);
                    let s1 = spec_skip_digits(s);
                    assert(scan_peek(s1) == Some('.'));
                    let s2 = scan_advance(s1);
                    assert(s2 =~= scan_at(s, k + 1));
                    assert(forall|j: int| s2.idx <= j < s.idx + len ==> is_digit_char(
                        #[trigger] s.src[j],
                    )) by {
                        assert(forall|j: int| s2.idx <= j < s.idx + len ==> s.src[j]
                            == n.text.skip(k + 1)[j - s2.idx]);
                    }
                    assert(n.text.skip(k + 1).len() > 0);
                    lemma_skip_digits_run(s2, len - k - 1);
                    let s3 = spec_skip_digits(s2);
                    assert(s3.idx == s.idx + len);
                    assert(s3.idx != s2.idx);
                    assert(s.src.subrange(s.idx, s3.idx) =~= n.text);
                    assert(is_digit_char(r[0]));
                    assert(spec_parse_atom(s) == (PAtomOut { r: Ok(a), s: scan_at(s, len) }));
                }
            },
            AtomV::Str(c) => {
                let n = c.len() as int;
                assert(r =~= seq!['"'] + c + seq!['"']);
                assert(r[0] == '"');
                let s1 = scan_advance(s);
                assert(s1 == (ScanV { idx: s.idx + 1, in_str: true, ..s }));
                assert(forall|j: int| 0 <= j < n ==> r[1 + j] == c[j]);
                assert(s.src.subrange(s1.idx, s1.idx + n) =~= c);
                assert(s.src[s1.idx + n] == r[n + 1]);
                assert(r[n + 1] == '"');
                lemma_string_scan(s1, n);
                let e = spec_string_end(s1);
                assert(e.idx == s.idx + 1 + n);
                assert(scan_peek(e) == Some('"'));
                assert(s.src.subrange(s1.idx, e.idx) =~= c);
                assert(spec_decode(s.src.subrange(s1.idx, e.idx)) == c);
                let e2 = scan_advance(e);
                assert(e2 =~= scan_at(s, len));
                assert(spec_parse_atom(s) == (PAtomOut { r: Ok(a), s: scan_at(s, len) }));
            },
            AtomV::Quote(p) => {
                assert(r =~= seq!['\''] + spec_render_sexpr(*p));
                assert(r[0] == '\'');
                let s1 = scan_advance(s);
                assert(s1 =~= scan_at(s, 1));
                let lp = spec_render_sexpr(*p).len() as int;
                assert(forall|j: int| 0 <= j < lp ==> r[1 + j] == spec_render_sexpr(*p)[j]);
                assert(s.src.subrange(s1.idx, s1.idx + lp) =~= spec_render_sexpr(*p));
                lemma_reparse_sexpr(*p, s1);
                assert(spec_parse_atom(s) == (PAtomOut { r: Ok(a), s: scan_at(s, len) }));
            },
            AtomV::Function(_) => {},
        },
        SExprV::Cons(h, tl) => {
            assert(r =~= seq!['('] + spec_render_items(*h, *tl) + seq![')']);
            assert(r[0] == '(');
            let s1 = scan_advance(s);
            assert(s1 == (ScanV { idx: s.idx + 1, level: s.level + 1, ..s }));
            let li = spec_render_items(*h, *tl).len() as int;
            assert(forall|j: int| 0 <= j < li ==> r[1 + j] == spec_render_items(*h, *tl)[j]);
            assert(s.src.subrange(s1.idx, s1.idx + li) =~= spec_render_items(*h, *tl));
            assert(s.src[s1.idx + li] == r[li + 1]);
            assert(r[li + 1] == ')');
            assert(items_text(t) == spec_render_items(*h, *tl));
            lemma_reparse_items(t, s1, 0);
            lemma_list_of_items(t);
            assert(spec_parse_sexpr(s).s =~= scan_at(s, len));
        },
    }
}

/// Re-parsing rendered list items, after an optional run of padding
/// spaces and up to the closing paren, yields exactly those items.
pub proof fn lemma_reparse_items(e: SExprV, s: ScanV, pad: int)
    requires
        wf_list(e),
        0 <= s.idx,
        1 <= s.level,
        s.level + sexpr_size(e) <= usize::MAX,
        0 <= pad,
        !s.in_str,
        !s.in_escape,
        s.idx + pad + items_text(e).len() + 1 <= s.src.len(),
        forall|j: int| s.idx <= j < s.idx + pad ==> s.src[j] == ' ',
        s.src.subrange(s.idx + pad, s.idx + pad + items_text(e).len()) == items_text(e),
        s.src[s.idx + pad + items_text(e).len()] == ')',
    ensures
        spec_parse_items(s) == (PItemsOut {
            r: Ok(items_seq(e)),
            s: ScanV { idx: s.idx + pad + items_text(e).len() + 1, level: s.level - 1, ..s },
        }),
    decreases sexpr_size(e), 0int,
{
    reveal_with_fuel(wf_list, 2);
    match e {
        SExprV::Atom(_) => {
            assert(items_text(e) =~= Seq::<char>::empty());
            assert(s.src[s.idx + pad] == ')');
            lemma_skip_blank_run(s, pad);
            let s1 = scan_at(s, pad);
            assert(scan_peek(s1) == Some(')'));
            let s2 = scan_advance(s1);
            assert(s2 == (ScanV { idx: s1.idx + 1, level: s.level - 1, ..s }));
            assert(items_seq(e) =~= Seq::<SExprV>::empty());
            assert(spec_parse_items(s).s =~= (ScanV {
                idx: s.idx + pad + 1,
                level: s.level - 1,
                ..s
            }));
        },
        SExprV::Cons(h, tl) => match (*h, *tl) {
            (AtomV::Quote(p), AtomV::Quote(rr)) => {
                let it = items_text(e);
                let rp = spec_render_sexpr(*p);
                let lp = rp.len() as int;
                lemma_render_first_char(*p);
                assert(spec_render_item(*h) == rp);
                assert(forall|j: int| 0 <= j < it.len() ==> s.src[s.idx + pad + j] == it[j]);
                assert(forall|j: int| 0 <= j < lp ==> it[j] == rp[j]);
                lemma_skip_blank_run(s, pad);
                let s1 = scan_at(s, pad);
                assert(s.src.subrange(s1.idx, s1.idx + lp) =~= rp);
                if *rr matches SExprV::Atom(_) {
                    assert(it =~= rp);
                    assert(s.src[s1.idx + lp] == ')');
                    lemma_reparse_sexpr(*p, s1);
                    let eout = spec_parse_sexpr(s1);
                    assert(eout.s.idx == s1.idx + lp);
                    assert(items_text(*rr) =~= Seq::<char>::empty());
                    assert(s.src.subrange(eout.s.idx, eout.s.idx) =~= Seq::<char>::empty());
                    assert(s.src[eout.s.idx] == ')');
                    lemma_reparse_items(*rr, eout.s, 0);
                    assert(items_seq(*rr) =~= Seq::<SExprV>::empty());
                    assert(Seq::empty().push(*p) + items_seq(*rr) =~= items_seq(e));
                    assert(spec_parse_items(s).s =~= (ScanV {
                        idx: s.idx + pad + it.len() + 1,
                        level: s.level - 1,
                        ..s
                    }));
                } else {
                    let rt = items_text(*rr);
                    assert(it =~= rp + seq![' '] + rt);
                    assert(it[lp] == ' ');
                    assert(s.src[s1.idx + lp] == it[lp]);
                    assert(s.src[s1.idx + lp] == ' ');
                    assert(is_sep(' '));
                    lemma_reparse_sexpr(*p, s1);
                    let eout = spec_parse_sexpr(s1);
                    assert(eout.s.idx == s1.idx + lp);
                    assert(forall|j: int| 0 <= j < rt.len() ==> s.src[eout.s.idx + 1 + j] == rt[
                        j
                    ]) by {
                        assert(forall|j: int| 0 <= j < rt.len() ==> it[lp + 1 + j] == rt[j]);
                    }
                    assert(s.src.subrange(eout.s.idx + 1, eout.s.idx + 1 + rt.len()) =~= rt);
                    assert(s.src[eout.s.idx + 1 + rt.len()] == ')');
                    lemma_reparse_items(*rr, eout.s, 1);
                    assert(Seq::empty().push(*p) + items_seq(*rr) =~= items_seq(e));
                    assert(spec_parse_items(s).s =~= (ScanV {
                        idx: s.idx + pad + it.len() + 1,
                        level: s.level - 1,
                        ..s
                    }));
                }
            },
            _ => {},
        },
    }
}

} // verus!

verus! {

/// Round trip: rendering a well-formed tree -- the shape the reader
/// produces -- and re-parsing the text yields exactly that tree, as
/// the single top-level form of the rendered source.
pub proof fn lemma_round_trip(t: SExprV)
    requires
        wf_sexpr(t),
        sexpr_size(t) + 1 <= usize::MAX,
    ensures
        ({
            let s0 = ScanV {
                src: spec_render_sexpr(t),
                idx: 0,
                level: 0,
                in_str: false,
                in_escape: false,
            };
            spec_parse_program(s0).r == Ok::<Seq<SExprV>, crate::error::PErrV>(seq![t])
        }),
{
    let src = spec_render_sexpr(t);
    let len = src.len() as int;
    let s0 = ScanV { src, idx: 0, level: 0, in_str: false, in_escape: false };
    lemma_render_first_char(t);
    assert(scan_peek(s0) == Some(src[0]));
    lemma_skip_blank_run(s0, 0);
    assert(spec_skip_blank(s0) == scan_at(s0, 0));
    assert(scan_at(s0, 0) =~= s0);
    assert(s0.src.subrange(0, len) =~= src);
    lemma_reparse_sexpr(t, s0);
    let s1 = scan_at(s0, len);
    assert(scan_peek(s1) is None);
    lemma_skip_blank_run(s1, 0);
    assert(scan_at(s1, 0) =~= s1);
    assert(spec_parse_program(s1).r == Ok::<Seq<SExprV>, crate::error::PErrV>(Seq::<SExprV>::empty()));
    assert(Seq::empty().push(t) + Seq::<SExprV>::empty() =~= seq![t]);
}

} // verus!

verus! {

/// Decoding scannable raw contents yields contents that are again
/// scannable and that decoding leaves untouched; the first decoded
/// character is the first raw character or one of the two decoded
/// escapes.
pub proof fn lemma_decode_wf(raw: Seq<char>)
    requires
        str_scannable(raw),
    ensures
        str_scannable(spec_decode(raw)),
        spec_decode(spec_decode(raw)) == spec_decode(raw),
        spec_decode(raw).len() > 0 ==> (spec_decode(raw)[0] == raw[0] || spec_decode(raw)[0]
            == '\n' || spec_decode(raw)[0] == '\u{0}'),
    decreases raw.len(),
{
    reveal_with_fuel(spec_decode, 3);
    reveal_with_fuel(str_scannable, 3);
    if raw.len() == 0 {
    } else if raw[0] != '\\' {
        let d = spec_decode(raw.skip(1));
        lemma_decode_wf(raw.skip(1));
        let out = seq![raw[0]] + d;
        assert(spec_decode(raw) == out);
        assert(out.skip(1) =~= d);
        assert(str_scannable(out));
        assert(spec_decode(out) =~= seq![out[0]] + spec_decode(out.skip(1)));
        assert(spec_decode(out) =~= out);
    } else if raw[1] == 'n' || raw[1] == 'r' || raw[1] == '0' {
        let esc = if raw[1] == 'n' {
            '\n'
        } else {
            '\u{0}'
        };
        let d = spec_decode(raw.skip(2));
        lemma_decode_wf(raw.skip(2));
        let out = seq![esc] + d;
        assert(spec_decode(raw) == out);
        assert(out.skip(1) =~= d);
        assert(str_scannable(out));
        assert(spec_decode(out) =~= seq![out[0]] + spec_decode(out.skip(1)));
        assert(spec_decode(out) =~= out);
    } else {
        let x = raw[1];
        let tail = raw.skip(2);
        assert(raw.skip(1) =~= seq![x] + tail);
        assert(raw.skip(1).skip(1) =~= tail);
        if x == '\\' && tail.len() >= 1 && (tail[0] == 'n' || tail[0] == 'r' || tail[0]
            == '0') {
            let esc = if tail[0] == 'n' {
                '\n'
            } else {
                '\u{0}'
            };
            assert(raw.skip(1)[0] == x && raw.skip(1)[1] == tail[0]);
            assert(raw.skip(1).skip(2) =~= tail.skip(1));
            assert(spec_decode(raw.skip(1)) == seq![esc] + spec_decode(tail.skip(1)));
            lemma_decode_wf(tail.skip(1));
            let d2 = spec_decode(tail.skip(1));
            let out = seq!['\\'] + (seq![esc] + d2);
            assert(spec_decode(raw) == out);
            assert(out[0] == '\\' && out[1] == esc);
            assert(out.skip(2) =~= d2);
            assert(str_scannable(out));
            assert(out.skip(1) =~= seq![esc] + d2);
            assert((seq![esc] + d2).skip(1) =~= d2);
            assert(spec_decode(seq![esc] + d2) =~= seq![esc] + spec_decode(d2));
            assert(spec_decode(out) =~= seq![out[0]] + spec_decode(out.skip(1)));
            assert(spec_decode(out) =~= out);
        } else {
            lemma_decode_wf(tail);
            let d = spec_decode(tail);
            assert(spec_decode(raw.skip(1)) == seq![x] + d);
            let out = seq!['\\'] + (seq![x] + d);
            assert(spec_decode(raw) == out);
            assert(out[0] == '\\' && out[1] == x);
            assert(out.skip(2) =~= d);
            assert(str_scannable(out));
            assert(out.skip(1) =~= seq![x] + d);
            assert((seq![x] + d).skip(1) =~= d);
            if x == '\\' && d.len() >= 1 {
                assert(d[0] == tail[0] || d[0] == '\n' || d[0] == '\u{0}');
                assert(d[0] != 'n' && d[0] != 'r' && d[0] != '0');
            }
            assert(spec_decode(seq![x] + d) =~= seq![x] + spec_decode(d));
            assert(spec_decode(out) =~= seq![out[0]] + spec_decode(out.skip(1)));
            assert(spec_decode(out) =~= out);
        }
    }
}

} // verus!

verus! {

/// The span a string scan consumes is scannable whenever the scan
/// found its closing quote.
pub proof fn lemma_string_end_scannable(s: ScanV)
    requires
        0 <= s.idx <= s.src.len(),
    ensures
        ({
            let e = spec_string_end(s);
            &&& e.src == s.src
            &&& s.idx <= e.idx <= s.src.len()
            &&& (scan_peek(e) is Some ==> str_scannable(s.src.subrange(s.idx, e.idx)))
        }),
    decreases s.src.len() - s.idx,
{
    reveal_with_fuel(str_scannable, 3);
    let e = spec_string_end(s);
    match scan_peek(s) {
        None => {
            assert(s.src.subrange(s.idx, s.idx) =~= Seq::<char>::empty());
        },
        Some(c) => {
            if c == '"' {
                assert(s.src.subrange(s.idx, s.idx) =~= Seq::<char>::empty());
            } else if c == '\\' {
                let s1 = scan_advance(s);
                if s1.idx >= s1.src.len() {
                } else {
                    let s2 = scan_advance(s1);
                    lemma_string_end_scannable(s2);
                    if scan_peek(e) is Some {
                        let span = s.src.subrange(s.idx, e.idx);
                        assert(span[0] == '\\');
                        assert(span.len() >= 2);
                        assert(span.skip(2) =~= s.src.subrange(s2.idx, e.idx));
                    }
                }
            } else {
                let s1 = scan_advance(s);
                lemma_string_end_scannable(s1);
                if scan_peek(e) is Some {
                    let span = s.src.subrange(s.idx, e.idx);
                    assert(span[0] == c);
                    assert(span.skip(1) =~= s.src.subrange(s1.idx, e.idx));
                }
            }
        },
    }
}

/// What an identifier scan consumes: identifier characters, at least
/// one when one stands at the start.
pub proof fn lemma_skip_ident_chars(s: ScanV)
    requires
        0 <= s.idx <= s.src.len(),
    ensures
        ({
            let e = spec_skip_ident(s);
            &&& e.src == s.src
            &&& s.idx <= e.idx <= s.src.len()
            &&& forall|j: int| s.idx <= j < e.idx ==> is_ident_char(s.src[j])
            &&& ((scan_peek(s) matches Some(c) && is_ident_char(c)) ==> e.idx > s.idx)
        }),
    decreases s.src.len() - s.idx,
{
    match scan_peek(s) {
        Some(c) => {
            if is_ident_char(c) {
                lemma_skip_ident_chars(scan_advance(s));
            }
        },
        None => {},
    }
}

/// What a digit scan consumes: digits, at least one when one stands
/// at the start.
pub proof fn lemma_skip_digits_chars(s: ScanV)
    requires
        0 <= s.idx <= s.src.len(),
    ensures
        ({
            let e = spec_skip_digits(s);
            &&& e.src == s.src
            &&& s.idx <= e.idx <= s.src.len()
            &&& forall|j: int| s.idx <= j < e.idx ==> is_digit_char(s.src[j])
            &&& ((scan_peek(s) matches Some(c) && is_digit_char(c)) ==> e.idx > s.idx)
        }),
    decreases s.src.len() - s.idx,
{
    match scan_peek(s) {
        Some(c) => {
            if is_digit_char(c) {
                lemma_skip_digits_chars(scan_advance(s));
            }
        },
        None => {},
    }
}

/// A chain folded from well-formed elements is a well-formed list.
pub proof fn lemma_wf_list_of(items: Seq<SExprV>)
    requires
        forall|i: int| 0 <= i < items.len() ==> wf_sexpr(#[trigger] items[i]),
    ensures
        wf_list(list_of(items)),
        wf_sexpr(list_of(items)),
    decreases items.len(),
{
    reveal_with_fuel(wf_list, 2);
    if items.len() == 0 {
    } else {
        lemma_wf_list_of(items.skip(1));
    }
}

} // verus!

verus! {

/// Every atom the reader produces is well formed.
pub proof fn lemma_parse_atom_wf(s: ScanV)
    requires
        0 <= s.idx,
    ensures
        spec_parse_atom(s).r matches Ok(a) ==> wf_atom(a),
    decreases s.src.len() - s.idx, 0int,
{
    match scan_peek(s) {
        None => {},
        Some(c) => {
            if c == '"' {
                let s1 = scan_advance(s);
                lemma_string_end_scannable(s1);
                let e = spec_string_end(s1);
                match scan_peek(e) {
                    Some(_) => {
                        lemma_decode_wf(s.src.subrange(s1.idx, e.idx));
                    },
                    None => {},
                }
            } else if c == '\'' {
                lemma_parse_sexpr_wf(scan_advance(s));
            } else if is_digit_char(c) {
                lemma_skip_digits_chars(s);
                let s1 = spec_skip_digits(s);
                if scan_peek(s1) == Some('.') {
                    let s2 = scan_advance(s1);
                    lemma_skip_digits_chars(s2);
                    let s3 = spec_skip_digits(s2);
                    if s3.idx == s2.idx {
                    } else {
                        let tok = s.src.subrange(s.idx, s3.idx);
                        let k = s1.idx - s.idx;
                        assert(tok[k] == '.');
                        assert(tok.take(k) =~= s.src.subrange(s.idx, s1.idx));
                        assert(tok.skip(k + 1) =~= s.src.subrange(s2.idx, s3.idx));
                        assert(all_digits(tok.take(k)));
                        assert(all_digits(tok.skip(k + 1)));
                        assert(0 < k < tok.len());
                        assert(is_simple_decimal(tok));
                    }
                } else {
                    let tok = s.src.subrange(s.idx, s1.idx);
                    assert(all_digits(tok));
                }
            } else if is_ws_char(c) {
            } else if is_ident_start(c) {
                lemma_skip_ident_chars(s);
                let s1 = spec_skip_ident(s);
                let tok = s.src.subrange(s.idx, s1.idx);
                assert(tok.len() >= 1);
                assert(tok[0] == c);
                assert(forall|i: int| 0 <= i < tok.len() ==> is_ident_char(tok[i]));
            } else {
            }
        },
    }
}

/// Every expression the reader produces is well formed.
pub proof fn lemma_parse_sexpr_wf(s: ScanV)
    requires
        0 <= s.idx,
    ensures
        spec_parse_sexpr(s).r matches Ok(t) ==> wf_sexpr(t),
    decreases s.src.len() - s.idx, 1int,
{
    match scan_peek(s) {
        None => {},
        Some(c) => {
            if c == '(' {
                lemma_parse_items_wf(scan_advance(s));
                let out = spec_parse_items(scan_advance(s));
                match out.r {
                    Ok(items) => {
                        lemma_wf_list_of(items);
                    },
                    Err(_) => {},
                }
            } else if c == ';' {
                let s1 = spec_skip_comment(s);
                let s2 = spec_skip_ws(s1);
                if s2.src == s.src && s.idx < s2.idx <= s2.src.len() {
                    lemma_parse_sexpr_wf(s2);
                }
            } else {
                lemma_parse_atom_wf(s);
            }
        },
    }
}

/// Every item list the reader produces holds well-formed expressions.
pub proof fn lemma_parse_items_wf(s: ScanV)
    requires
        0 <= s.idx,
    ensures
        ({
            spec_parse_items(s).r matches Ok(items) ==> forall|i: int|
                0 <= i < items.len() ==> wf_sexpr(#[trigger] items[i])
        }),
    decreases s.src.len() - s.idx, 2int,
{
    let s1 = spec_skip_blank(s);
    if !(s1.src == s.src && s.idx <= s1.idx) {
    } else {
        match scan_peek(s1) {
            None => {},
            Some(c) => {
                if c == ')' {
                } else {
                    lemma_parse_sexpr_wf(s1);
                    let eout = spec_parse_sexpr(s1);
                    match eout.r {
                        Err(_) => {},
                        Ok(el) => {
                            if eout.s.src == s.src && s1.idx < eout.s.idx && eout.s.idx
                                <= eout.s.src.len() {
                                lemma_parse_items_wf(eout.s);
                                let rest = spec_parse_items(eout.s);
                                match rest.r {
                                    Err(_) => {},
                                    Ok(items) => {
                                        assert(forall|i: int|
                                            0 <= i < items.len() + 1 ==> wf_sexpr(
                                                #[trigger] (Seq::empty().push(el) + items)[i],
                                            ));
                                    },
                                }
                            }
                        },
                    }
                }
            },
        }
    }
}

/// Every top-level form the reader produces is well formed.
pub proof fn lemma_parse_program_wf(s: ScanV)
    requires
        0 <= s.idx,
    ensures
        ({
            spec_parse_program(s).r matches Ok(forms) ==> forall|i: int|
                0 <= i < forms.len() ==> wf_sexpr(#[trigger] forms[i])
        }),
    decreases s.src.len() - s.idx, 3int,
{
    let s1 = spec_skip_blank(s);
    if !(s1.src == s.src && s.idx <= s1.idx) {
    } else {
        match scan_peek(s1) {
            None => {},
            Some(_) => {
                lemma_parse_sexpr_wf(s1);
                let eout = spec_parse_sexpr(s1);
                match eout.r {
                    Err(_) => {},
                    Ok(el) => {
                        if eout.s.src == s.src && s1.idx < eout.s.idx && eout.s.idx
                            <= eout.s.src.len() {
                            lemma_parse_program_wf(eout.s);
                            let rest = spec_parse_program(eout.s);
                            match rest.r {
                                Err(_) => {},
                                Ok(forms) => {
                                    assert(forall|i: int|
                                        0 <= i < forms.len() + 1 ==> wf_sexpr(
                                            #[trigger] (Seq::empty().push(el) + forms)[i],
                                        ));
                                },
                            }
                        }
                    },
                }
            },
        }
    }
}

/// The round-trip law, end to end: a tree parsed from source renders
/// to text that re-parses to exactly that tree.
pub proof fn lemma_parsed_tree_round_trips(s: ScanV, i: int)
    requires
        0 <= s.idx,
        spec_parse_program(s).r matches Ok(forms) && 0 <= i < forms.len(),
        sexpr_size(spec_parse_program(s).r->Ok_0[i]) + 1 <= usize::MAX,
    ensures
        ({
            let t = spec_parse_program(s).r->Ok_0[i];
            let s0 = ScanV {
                src: spec_render_sexpr(t),
                idx: 0,
                level: 0,
                in_str: false,
                in_escape: false,
            };
            spec_parse_program(s0).r == Ok::<Seq<SExprV>, crate::error::PErrV>(seq![t])
        }),
{
    lemma_parse_program_wf(s);
    lemma_round_trip(spec_parse_program(s).r->Ok_0[i]);
}

} // verus!
