//! The scanner and the reader: characters to symbolic-expression trees.
//!
//! The scanner tracks nested-parenthesis depth and suppresses it
//! inside string literals; a closing parenthesis that would drop below
//! the stream's starting depth reads as end of input, which lets the
//! reader parse nested lists without lookahead.

use vstd::prelude::*;
use vstd::string::StrSliceExecFns;
use crate::ast::{Atom, AtomV, SExpr, SExprV, Text};
use crate::error::{Error, ParseErrKind};
use crate::num::{dbl_of_text, num_of_text, is_simple_decimal, is_digit_char};

verus! {

// ---------------------------------------------------------------------
// Character classes of the grammar.
// ---------------------------------------------------------------------

pub open spec fn is_ws_char(c: char) -> bool {
    c == ' ' || c == '\t' || c == '\n' || c == '\r'
}

pub open spec fn is_symbol_char(c: char) -> bool {
    c == '_' || c == '+' || c == '-' || c == '/' || c == '*' || c == '=' || c == '?'
}

pub open spec fn is_alpha_char(c: char) -> bool {
    ('a' <= c && c <= 'z') || ('A' <= c && c <= 'Z')
}

pub open spec fn is_ident_start(c: char) -> bool {
    is_alpha_char(c) || is_symbol_char(c)
}

pub open spec fn is_ident_char(c: char) -> bool {
    is_alpha_char(c) || is_digit_char(c) || is_symbol_char(c)
}

pub fn ws_char(c: char) -> (r: bool)
    ensures
        r == is_ws_char(c),
{
    c == ' ' || c == '\t' || c == '\n' || c == '\r'
}

pub fn symbol_char(c: char) -> (r: bool)
    ensures
        r == is_symbol_char(c),
{
    c == '_' || c == '+' || c == '-' || c == '/' || c == '*' || c == '=' || c == '?'
}

pub fn alpha_char(c: char) -> (r: bool)
    ensures
        r == is_alpha_char(c),
{
    ('a' <= c && c <= 'z') || ('A' <= c && c <= 'Z')
}

pub fn digit_char(c: char) -> (r: bool)
    ensures
        r == is_digit_char(c),
{
    '0' <= c && c <= '9'
}

// ---------------------------------------------------------------------
// The scanner state and its specification-level transitions.
// ---------------------------------------------------------------------

/// A paren/string/quote-aware character stream over the source text.
pub struct ParenChars {
    pub src: Vec<char>,
    pub idx: usize,
    pub level: usize,
    pub in_str: bool,
    pub in_escape: bool,
}

/// The scanner state as the specification sees it.
#[verifier::ext_equal]
pub struct ScanV {
    pub src: Seq<char>,
    pub idx: int,
    pub level: int,
    pub in_str: bool,
    pub in_escape: bool,
}

impl View for ParenChars {
    type V = ScanV;

    open spec fn view(&self) -> ScanV {
        ScanV {
            src: self.src@,
            idx: self.idx as int,
            level: self.level as int,
            in_str: self.in_str,
            in_escape: self.in_escape,
        }
    }
}

/// The next character, or none at end of input or at an unescaped
/// closing parenthesis that would drop below the starting depth.
pub open spec fn scan_peek(s: ScanV) -> Option<char> {
    if s.idx < 0 || s.idx >= s.src.len() {
        None
    } else if s.src[s.idx] == ')' && s.level == 0 && !s.in_str {
        None
    } else {
        Some(s.src[s.idx])
    }
}

/// The scanner state after consuming one character.
pub open spec fn scan_advance(s: ScanV) -> ScanV {
    if s.idx < 0 || s.idx >= s.src.len() {
        s
    } else {
        let prev = s.src[s.idx];
        let was_escape = s.in_escape;
        let in_str1 = if prev == '"' && !was_escape {
            !s.in_str
        } else {
            s.in_str
        };
        let in_escape1 = !was_escape && prev == '\\';
        let level1 = if in_str1 {
            s.level
        } else if prev == ')' {
            if s.level > 0 {
                s.level - 1
            } else {
                s.level
            }
        } else if prev == '(' {
            if s.level < usize::MAX {
                s.level + 1
            } else {
                s.level
            }
        } else {
            s.level
        };
        ScanV { idx: s.idx + 1, level: level1, in_str: in_str1, in_escape: in_escape1, ..s }
    }
}

impl ParenChars {
    /// A scanner over `src`, at starting depth zero.
    pub fn new(src: Vec<char>) -> (r: ParenChars)
        ensures
            r@ == (ScanV { src: src@, idx: 0, level: 0, in_str: false, in_escape: false }),
    {
        ParenChars::with_level(src, 0)
    }

    /// A scanner over `src` at a given starting depth.
    pub fn with_level(src: Vec<char>, level: usize) -> (r: ParenChars)
        ensures
            r@ == (ScanV {
                src: src@,
                idx: 0,
                level: level as int,
                in_str: false,
                in_escape: false,
            }),
    {
        ParenChars { src, idx: 0, level, in_str: false, in_escape: false }
    }

    /// The text not yet consumed.
    pub fn as_str(&self) -> (r: Text)
        ensures
            r@ == if self@.idx <= self@.src.len() {
                self@.src.skip(self@.idx)
            } else {
                Seq::<char>::empty()
            },
    {
        let mut r: Text = Vec::new();
        if self.idx > self.src.len() {
            proof {
                assert(r@ =~= Seq::<char>::empty());
            }
            return r;
        }
        let n = self.src.len();
        let mut i: usize = self.idx;
        while i < n
            invariant
                self.idx <= i <= n,
                n == self.src.len(),
                r@ == self.src@.subrange(self.idx as int, i as int),
            decreases n - i,
        {
            r.push(self.src[i]);
            proof {
                assert(self.src@.subrange(self.idx as int, i + 1 as int) =~= self.src@.subrange(
                    self.idx as int,
                    i as int,
                ).push(self.src@[i as int]));
            }
            i += 1;
        }
        proof {
            assert(self.src@.subrange(self.idx as int, n as int) =~= self.src@.skip(
                self.idx as int,
            ));
        }
        r
    }

    /// The next character this scanner would hand out.
    pub fn peek(&self) -> (r: Option<char>)
        ensures
            r == scan_peek(self@),
    {
        if self.idx >= self.src.len() {
            None
        } else {
            let c = self.src[self.idx];
            if c == ')' && self.level == 0 && !self.in_str {
                None
            } else {
                Some(c)
            }
        }
    }

    /// Consume one character, adjusting depth on unescaped parentheses
    /// outside string literals.
    pub fn next(&mut self) -> (r: Option<char>)
        ensures
            final(self)@ == scan_advance(old(self)@),
            r == (if old(self)@.idx >= old(self)@.src.len() {
                None
            } else if scan_advance(old(self)@).in_str {
                Some(old(self)@.src[old(self)@.idx])
            } else if old(self)@.src[old(self)@.idx] == ')' && old(self)@.level == 0 {
                None::<char>
            } else {
                Some(old(self)@.src[old(self)@.idx])
            }),
    {
        if self.idx >= self.src.len() {
            return None;
        }
        let prev = self.src[self.idx];
        let was_escape = self.in_escape;
        self.idx = self.idx + 1;
        if prev == '"' && !was_escape {
            self.in_str = !self.in_str;
        }
        self.in_escape = !was_escape && prev == '\\';
        if self.in_str {
            return Some(prev);
        }
        if prev == ')' {
            if self.level == 0 {
                return None;
            }
            self.level = self.level - 1;
        } else if prev == '(' {
            if self.level < usize::MAX {
                self.level = self.level + 1;
            }
        }
        Some(prev)
    }

    /// Adopt the position of a scanner that read ahead over the same
    /// text, adding its relative depth.  Merging scanners over
    /// different texts is a contract violation.
    pub fn merge(&mut self, other: ParenChars)
        requires
            old(self)@.src == other@.src,
            old(self)@.level + other@.level <= usize::MAX,
        ensures
            final(self)@ == (ScanV {
                idx: other@.idx,
                level: old(self)@.level + other@.level,
                ..old(self)@
            }),
    {
        self.level = self.level + other.level;
        self.idx = other.idx;
    }
}

} // verus!

verus! {

// ---------------------------------------------------------------------
// Specification-level scanner loops.
// ---------------------------------------------------------------------

/// The scanner state after skipping whitespace.
pub open spec fn spec_skip_ws(s: ScanV) -> ScanV
    decreases s.src.len() - s.idx,
{
    match scan_peek(s) {
        Some(c) => if is_ws_char(c) {
            spec_skip_ws(scan_advance(s))
        } else {
            s
        },
        None => s,
    }
}

/// The scanner state after skipping a comment, up to the newline.
pub open spec fn spec_skip_comment(s: ScanV) -> ScanV
    decreases s.src.len() - s.idx,
{
    match scan_peek(s) {
        Some(c) => if c == '\n' {
            s
        } else {
            spec_skip_comment(scan_advance(s))
        },
        None => s,
    }
}

/// The scanner state after whitespace and comments: a comment runs
/// to the end of its line and reads as whitespace.  The scanner only
/// moves forward; the impossible branch is vacuous.
pub open spec fn spec_skip_blank(s: ScanV) -> ScanV
    decreases s.src.len() - s.idx,
{
    let s1 = spec_skip_ws(s);
    match scan_peek(s1) {
        Some(c) => if c == ';' {
            let s2 = spec_skip_comment(s1);
            if s2.src == s.src && s.idx < s2.idx <= s2.src.len() {
                spec_skip_blank(s2)
            } else {
                s2
            }
        } else {
            s1
        },
        None => s1,
    }
}

/// The scanner state after a run of digits.
pub open spec fn spec_skip_digits(s: ScanV) -> ScanV
    decreases s.src.len() - s.idx,
{
    match scan_peek(s) {
        Some(c) => if is_digit_char(c) {
            spec_skip_digits(scan_advance(s))
        } else {
            s
        },
        None => s,
    }
}

/// The scanner state after a run of identifier characters.
pub open spec fn spec_skip_ident(s: ScanV) -> ScanV
    decreases s.src.len() - s.idx,
{
    match scan_peek(s) {
        Some(c) => if is_ident_char(c) {
            spec_skip_ident(scan_advance(s))
        } else {
            s
        },
        None => s,
    }
}

/// The scanner state at the closing quote of a string literal, or at
/// end of input if the literal never closes.  An escaping backslash
/// carries the following character along.
pub open spec fn spec_string_end(s: ScanV) -> ScanV
    decreases s.src.len() - s.idx,
{
    match scan_peek(s) {
        None => s,
        Some(c) => if c == '"' {
            s
        } else if c == '\\' {
            let s1 = scan_advance(s);
            if s1.idx >= s1.src.len() {
                s1
            } else {
                spec_string_end(scan_advance(s1))
            }
        } else {
            spec_string_end(scan_advance(s))
        },
    }
}

/// String escapes decoded: `\n` to newline, `\r` and `\0` to NUL;
/// any other character, a backslash included, stands for itself.
pub open spec fn spec_decode(raw: Seq<char>) -> Seq<char>
    decreases raw.len(),
{
    if raw.len() == 0 {
        Seq::empty()
    } else if raw.len() >= 2 && raw[0] == '\\' && raw[1] == 'n' {
        seq!['\n'] + spec_decode(raw.skip(2))
    } else if raw.len() >= 2 && raw[0] == '\\' && (raw[1] == 'r' || raw[1] == '0') {
        seq!['\u{0}'] + spec_decode(raw.skip(2))
    } else {
        seq![raw[0]] + spec_decode(raw.skip(1))
    }
}

/// Decode the escapes of a scanned string literal.
pub fn decode_escapes(raw: &Text) -> (r: Text)
    ensures
        r@ == spec_decode(raw@),
{
    let n = raw.len();
    let mut out: Text = Vec::new();
    let mut i: usize = 0;
    proof {
        assert(raw@.skip(0) =~= raw@);
        assert(out@ + spec_decode(raw@) =~= spec_decode(raw@));
    }
    while i < n
        invariant
            n == raw.len(),
            i <= n,
            spec_decode(raw@) == out@ + spec_decode(raw@.skip(i as int)),
        decreases n - i,
    {
        let c = raw[i];
        let ghost pre = out@;
        if c == '\\' && i + 1 < n && raw[i + 1] == 'n' {
            out.push('\n');
            proof {
                assert(raw@.skip(i as int)[0] == c);
                assert(raw@.skip(i as int)[1] == raw@[i + 1]);
                assert(raw@.skip(i as int).skip(2) =~= raw@.skip(i + 2 as int));
                assert(pre + (seq!['\n'] + spec_decode(raw@.skip(i + 2 as int))) =~= out@
                    + spec_decode(raw@.skip(i + 2 as int)));
            }
            i += 2;
        } else if c == '\\' && i + 1 < n && (raw[i + 1] == 'r' || raw[i + 1] == '0') {
            out.push('\u{0}');
            proof {
                assert(raw@.skip(i as int)[0] == c);
                assert(raw@.skip(i as int)[1] == raw@[i + 1]);
                assert(raw@.skip(i as int).skip(2) =~= raw@.skip(i + 2 as int));
                assert(pre + (seq!['\u{0}'] + spec_decode(raw@.skip(i + 2 as int))) =~= out@
                    + spec_decode(raw@.skip(i + 2 as int)));
            }
            i += 2;
        } else {
            out.push(c);
            proof {
                assert(raw@.skip(i as int)[0] == c);
                if raw@.skip(i as int).len() >= 2 {
                    assert(raw@.skip(i as int)[1] == raw@[i + 1]);
                }
                assert(raw@.skip(i as int).skip(1) =~= raw@.skip(i + 1 as int));
                assert(pre + (seq![c] + spec_decode(raw@.skip(i + 1 as int))) =~= out@
                    + spec_decode(raw@.skip(i + 1 as int)));
            }
            i += 1;
        }
    }
    proof {
        assert(raw@.skip(n as int) =~= Seq::<char>::empty());
        assert(out@ + Seq::<char>::empty() =~= out@);
    }
    out
}

// ---------------------------------------------------------------------
// Positions and spans over the source.
// ---------------------------------------------------------------------

/// A character offset into the source.
#[derive(Clone, Copy)]
pub struct Position {
    pub idx: usize,
}

/// A half-open range of character offsets.
#[derive(Clone, Copy)]
pub struct Span {
    pub start: usize,
    pub end: usize,
}

impl Position {
    /// The span from this position up to `end`.
    pub fn span_to(&self, end: Position) -> (r: Span)
        ensures
            r.start == self.idx,
            r.end == end.idx,
    {
        Span { start: self.idx, end: end.idx }
    }
}

impl Span {
    /// The source text this span covers.
    pub fn as_str(&self, src: &Text) -> (r: Text)
        requires
            self.start <= self.end <= src@.len(),
        ensures
            r@ == src@.subrange(self.start as int, self.end as int),
    {
        let mut r: Text = Vec::new();
        let mut i: usize = self.start;
        while i < self.end
            invariant
                self.start <= i <= self.end <= src@.len(),
                r@ == src@.subrange(self.start as int, i as int),
            decreases self.end - i,
        {
            r.push(src[i]);
            proof {
                assert(src@.subrange(self.start as int, i + 1 as int) =~= src@.subrange(
                    self.start as int,
                    i as int,
                ).push(src@[i as int]));
            }
            i += 1;
        }
        r
    }
}

} // verus!

verus! {

/// The recursive-descent reader over one scanner.
pub struct Reader {
    pub chars: ParenChars,
}

impl View for Reader {
    type V = ScanV;

    open spec fn view(&self) -> ScanV {
        self.chars@
    }
}

impl Reader {
    /// A reader over `source`.
    pub fn new(source: &str) -> (r: Reader)
        ensures
            r@ == (ScanV { src: source@, idx: 0, level: 0, in_str: false, in_escape: false }),
    {
        let n = source.unicode_len();
        let mut v: Text = Vec::new();
        let mut i: usize = 0;
        while i < n
            invariant
                n == source@.len(),
                i <= n,
                v@ == source@.take(i as int),
            decreases n - i,
        {
            let c = source.get_char(i);
            v.push(c);
            proof {
                assert(source@.take(i + 1 as int) =~= source@.take(i as int).push(source@[
                    i as int
                ]));
            }
            i += 1;
        }
        proof {
            assert(source@.take(n as int) =~= source@);
        }
        Reader { chars: ParenChars::new(v) }
    }

    /// Consume one character.
    pub fn advance(&mut self) -> (r: Option<char>)
        ensures
            final(self)@ == scan_advance(old(self)@),
    {
        self.chars.next()
    }

    /// The next character the scanner would hand out.
    pub fn peek(&self) -> (r: Option<char>)
        ensures
            r == scan_peek(self@),
    {
        self.chars.peek()
    }

    /// The text not yet consumed.
    pub fn rest(&self) -> (r: Text)
        ensures
            r@ == if self@.idx <= self@.src.len() {
                self@.src.skip(self@.idx)
            } else {
                Seq::<char>::empty()
            },
    {
        self.chars.as_str()
    }

    /// The current character offset.
    pub fn idx(&self) -> (r: usize)
        ensures
            r == self@.idx,
    {
        self.chars.idx
    }

    /// The current position.
    pub fn pos(&self) -> (r: Position)
        ensures
            r.idx == self@.idx,
    {
        Position { idx: self.chars.idx }
    }

    /// A parse error at the current position.
    pub fn error(&self, kind: ParseErrKind) -> (e: Error)
        ensures
            e.idx == self@.idx,
            e.kind == kind,
    {
        Error::new(self.chars.idx, kind)
    }

    /// Skip whitespace.
    #[verifier::loop_isolation(false)]
    pub fn skip_whitespace(&mut self)
        ensures
            final(self)@ == spec_skip_ws(old(self)@),
            final(self)@.src == old(self)@.src,
            old(self)@.idx <= final(self)@.idx,
            final(self)@.idx <= final(self)@.src.len() || final(self)@.idx == old(self)@.idx,
    {
        loop
            invariant
                spec_skip_ws(self@) == spec_skip_ws(old(self)@),
                self@.src == old(self)@.src,
                old(self)@.idx <= self@.idx,
                self@.idx <= self@.src.len() || self@.idx == old(self)@.idx,
            decreases self@.src.len() - self@.idx,
        {
            match self.peek() {
                Some(c) => {
                    if !ws_char(c) {
                        return ;
                    }
                    self.advance();
                },
                None => {
                    return ;
                },
            }
        }
    }

    /// Skip a comment, up to the end of the line.
    #[verifier::loop_isolation(false)]
    fn skip_comment(&mut self)
        ensures
            final(self)@ == spec_skip_comment(old(self)@),
            final(self)@.src == old(self)@.src,
            old(self)@.idx <= final(self)@.idx,
            final(self)@.idx <= final(self)@.src.len() || final(self)@.idx == old(self)@.idx,
            (scan_peek(old(self)@) matches Some(c) && c != '\n') ==> final(self)@.idx > old(
                self,
            )@.idx,
    {
        loop
            invariant
                spec_skip_comment(self@) == spec_skip_comment(old(self)@),
                self@.src == old(self)@.src,
                old(self)@.idx <= self@.idx,
                self@.idx <= self@.src.len() || self@.idx == old(self)@.idx,
                self@.idx == old(self)@.idx ==> self@ == old(self)@,
            decreases self@.src.len() - self@.idx,
        {
            match self.peek() {
                Some(c) => {
                    if c == '\n' {
                        return ;
                    }
                    self.advance();
                },
                None => {
                    return ;
                },
            }
        }
    }

    /// Skip whitespace and comments.
    #[verifier::loop_isolation(false)]
    pub fn skip_blank(&mut self)
        ensures
            final(self)@ == spec_skip_blank(old(self)@),
            final(self)@.src == old(self)@.src,
            old(self)@.idx <= final(self)@.idx,
            final(self)@.idx <= final(self)@.src.len() || final(self)@.idx == old(self)@.idx,
    {
        loop
            invariant
                spec_skip_blank(self@) == spec_skip_blank(old(self)@),
                self@.src == old(self)@.src,
                old(self)@.idx <= self@.idx,
                self@.idx <= self@.src.len() || self@.idx == old(self)@.idx,
            decreases self@.src.len() - self@.idx,
        {
            let ghost pre = self@;
            self.skip_whitespace();
            match self.peek() {
                Some(c) => {
                    if c != ';' {
                        proof {
                            assert(spec_skip_blank(pre) == spec_skip_ws(pre));
                        }
                        return ;
                    }
                    self.skip_comment();
                },
                None => {
                    proof {
                        assert(spec_skip_blank(pre) == spec_skip_ws(pre));
                    }
                    return ;
                },
            }
        }
    }

    /// Consume a run of digits.
    #[verifier::loop_isolation(false)]
    fn skip_digits(&mut self)
        ensures
            final(self)@ == spec_skip_digits(old(self)@),
            final(self)@.src == old(self)@.src,
            old(self)@.idx <= final(self)@.idx,
            final(self)@.idx <= final(self)@.src.len() || final(self)@.idx == old(self)@.idx,
            forall|k: int|
                old(self)@.idx <= k < final(self)@.idx ==> is_digit_char(old(self)@.src[k]),
            (scan_peek(old(self)@) matches Some(c) && is_digit_char(c)) ==> final(self)@.idx
                > old(self)@.idx,
    {
        loop
            invariant
                spec_skip_digits(self@) == spec_skip_digits(old(self)@),
                self@.src == old(self)@.src,
                old(self)@.idx <= self@.idx,
                self@.idx <= self@.src.len() || self@.idx == old(self)@.idx,
                self@.idx == old(self)@.idx ==> self@ == old(self)@,
                forall|k: int| old(self)@.idx <= k < self@.idx ==> is_digit_char(self@.src[k]),
            decreases self@.src.len() - self@.idx,
        {
            match self.peek() {
                Some(c) => {
                    if !digit_char(c) {
                        proof {
                            assert(spec_skip_digits(self@) == self@);
                        }
                        return ;
                    }
                    self.advance();
                },
                None => {
                    return ;
                },
            }
        }
    }

    /// Consume a run of identifier characters.
    #[verifier::loop_isolation(false)]
    fn skip_ident(&mut self)
        ensures
            final(self)@ == spec_skip_ident(old(self)@),
            final(self)@.src == old(self)@.src,
            old(self)@.idx <= final(self)@.idx,
            final(self)@.idx <= final(self)@.src.len() || final(self)@.idx == old(self)@.idx,
            (scan_peek(old(self)@) matches Some(c) && is_ident_char(c)) ==> final(self)@.idx
                > old(self)@.idx,
    {
        loop
            invariant
                spec_skip_ident(self@) == spec_skip_ident(old(self)@),
                self@.src == old(self)@.src,
                old(self)@.idx <= self@.idx,
                self@.idx <= self@.src.len() || self@.idx == old(self)@.idx,
                self@.idx == old(self)@.idx ==> self@ == old(self)@,
            decreases self@.src.len() - self@.idx,
        {
            match self.peek() {
                Some(c) => {
                    if !alpha_char(c) && !digit_char(c) && !symbol_char(c) {
                        return ;
                    }
                    self.advance();
                },
                None => {
                    return ;
                },
            }
        }
    }

    /// Consume string-literal characters up to the closing quote or
    /// the end of input.
    #[verifier::loop_isolation(false)]
    fn scan_string(&mut self)
        ensures
            final(self)@ == spec_string_end(old(self)@),
            final(self)@.src == old(self)@.src,
            old(self)@.idx <= final(self)@.idx,
            final(self)@.idx <= final(self)@.src.len() || final(self)@.idx == old(self)@.idx,
    {
        loop
            invariant
                spec_string_end(self@) == spec_string_end(old(self)@),
                self@.src == old(self)@.src,
                old(self)@.idx <= self@.idx,
                self@.idx <= self@.src.len() || self@.idx == old(self)@.idx,
            decreases self@.src.len() - self@.idx,
        {
            match self.peek() {
                Some(c) => {
                    if c == '\\' {
                        self.advance();
                        if self.chars.idx >= self.chars.src.len() {
                            return ;
                        }
                        self.advance();
                    } else if c == '"' {
                        return ;
                    } else {
                        self.advance();
                    }
                },
                None => {
                    return ;
                },
            }
        }
    }
}

} // verus!

verus! {

use crate::error::{PErrV, PKindV};

// ---------------------------------------------------------------------
// The grammar, as specification-level parsing functions.  A recursion
// that could only loop if the scanner moved backwards is guarded; the
// guards are vacuous, as the executable reader shows.
// ---------------------------------------------------------------------

#[verifier::ext_equal]
pub struct PAtomOut {
    pub r: Result<AtomV, PErrV>,
    pub s: ScanV,
}

#[verifier::ext_equal]
pub struct PSExprOut {
    pub r: Result<SExprV, PErrV>,
    pub s: ScanV,
}

#[verifier::ext_equal]
pub struct PItemsOut {
    pub r: Result<Seq<SExprV>, PErrV>,
    pub s: ScanV,
}

/// The tree a syntactic list builds: every element and every tail is
/// wrapped in a quote, and the chain ends in nil.
pub open spec fn list_of(items: Seq<SExprV>) -> SExprV
    decreases items.len(),
{
    if items.len() == 0 {
        SExprV::Atom(AtomV::Nil)
    } else {
        SExprV::Cons(
            Box::new(AtomV::Quote(Box::new(items[0]))),
            Box::new(AtomV::Quote(Box::new(list_of(items.skip(1))))),
        )
    }
}

pub open spec fn spec_parse_atom(s: ScanV) -> PAtomOut
    decreases s.src.len() - s.idx, 0int,
{
    match scan_peek(s) {
        None => PAtomOut { r: Err(PErrV { idx: s.idx, kind: PKindV::UnexpectedEnd }), s },
        Some(c) => if c == '"' {
            let s1 = scan_advance(s);
            let e = spec_string_end(s1);
            match scan_peek(e) {
                Some(_) => PAtomOut {
                    r: Ok(AtomV::Str(spec_decode(s.src.subrange(s1.idx, e.idx)))),
                    s: scan_advance(e),
                },
                None => PAtomOut {
                    r: Err(PErrV { idx: e.idx, kind: PKindV::UnexpectedEnd }),
                    s: e,
                },
            }
        } else if c == '\'' {
            let out = spec_parse_sexpr(scan_advance(s));
            match out.r {
                Ok(e) => PAtomOut { r: Ok(AtomV::Quote(Box::new(e))), s: out.s },
                Err(err) => PAtomOut { r: Err(err), s: out.s },
            }
        } else if is_digit_char(c) {
            let s1 = spec_skip_digits(s);
            if scan_peek(s1) == Some('.') {
                let s2 = scan_advance(s1);
                let s3 = spec_skip_digits(s2);
                if s3.idx == s2.idx {
                    PAtomOut {
                        r: Err(
                            PErrV {
                                idx: s3.idx,
                                kind: PKindV::NumberFormat(s.src.subrange(s.idx, s3.idx)),
                            },
                        ),
                        s: s3,
                    }
                } else {
                    let tok = s.src.subrange(s.idx, s3.idx);
                    PAtomOut {
                        r: Ok(AtomV::Num(crate::ast::NumberV { bits: dbl_of_text(tok), text: tok })),
                        s: s3,
                    }
                }
            } else {
                let tok = s.src.subrange(s.idx, s1.idx);
                PAtomOut {
                    r: Ok(AtomV::Num(crate::ast::NumberV { bits: dbl_of_text(tok), text: tok })),
                    s: s1,
                }
            }
        } else if is_ws_char(c) {
            PAtomOut { r: Err(PErrV { idx: s.idx, kind: PKindV::UnexpectedWhitespace }), s }
        } else if is_ident_start(c) {
            let s1 = spec_skip_ident(s);
            PAtomOut { r: Ok(AtomV::Ident(s.src.subrange(s.idx, s1.idx))), s: s1 }
        } else {
            PAtomOut { r: Err(PErrV { idx: s.idx, kind: PKindV::UnexpectedChar(c) }), s }
        },
    }
}

pub open spec fn spec_parse_sexpr(s: ScanV) -> PSExprOut
    decreases s.src.len() - s.idx, 1int,
{
    match scan_peek(s) {
        None => PSExprOut { r: Err(PErrV { idx: s.idx, kind: PKindV::UnexpectedEnd }), s },
        Some(c) => if c == '(' {
            let out = spec_parse_items(scan_advance(s));
            match out.r {
                Ok(items) => PSExprOut { r: Ok(list_of(items)), s: out.s },
                Err(err) => PSExprOut { r: Err(err), s: out.s },
            }
        } else if c == ';' {
            let s1 = spec_skip_comment(s);
            let s2 = spec_skip_ws(s1);
            if s2.src == s.src && s.idx < s2.idx <= s2.src.len() {
                spec_parse_sexpr(s2)
            } else {
                PSExprOut { r: Err(PErrV { idx: s.idx, kind: PKindV::UnexpectedEnd }), s }
            }
        } else {
            let out = spec_parse_atom(s);
            match out.r {
                Ok(a) => PSExprOut { r: Ok(SExprV::Atom(a)), s: out.s },
                Err(err) => PSExprOut { r: Err(err), s: out.s },
            }
        },
    }
}

pub open spec fn spec_parse_items(s: ScanV) -> PItemsOut
    decreases s.src.len() - s.idx, 2int,
{
    let s1 = spec_skip_blank(s);
    if !(s1.src == s.src && s.idx <= s1.idx) {
        PItemsOut { r: Err(PErrV { idx: s.idx, kind: PKindV::UnexpectedEnd }), s }
    } else {
        match scan_peek(s1) {
            None => PItemsOut {
                r: Err(PErrV { idx: s1.idx, kind: PKindV::ExpectedClosingParen }),
                s: s1,
            },
            Some(c) => if c == ')' {
                PItemsOut { r: Ok(Seq::empty()), s: scan_advance(s1) }
            } else {
                let eout = spec_parse_sexpr(s1);
                match eout.r {
                    Err(err) => PItemsOut { r: Err(err), s: eout.s },
                    Ok(el) => if eout.s.src == s.src && s1.idx < eout.s.idx
                        && eout.s.idx <= eout.s.src.len() {
                        let rest = spec_parse_items(eout.s);
                        match rest.r {
                            Err(err) => PItemsOut { r: Err(err), s: rest.s },
                            Ok(items) => PItemsOut {
                                r: Ok(Seq::empty().push(el) + items),
                                s: rest.s,
                            },
                        }
                    } else {
                        PItemsOut {
                            r: Err(PErrV { idx: s.idx, kind: PKindV::UnexpectedEnd }),
                            s: eout.s,
                        }
                    },
                }
            },
        }
    }
}

/// A whole program: top-level forms up to the end of input.
pub open spec fn spec_parse_program(s: ScanV) -> PItemsOut
    decreases s.src.len() - s.idx, 3int,
{
    let s1 = spec_skip_blank(s);
    if !(s1.src == s.src && s.idx <= s1.idx) {
        PItemsOut { r: Err(PErrV { idx: s.idx, kind: PKindV::UnexpectedEnd }), s }
    } else {
        match scan_peek(s1) {
            None => PItemsOut { r: Ok(Seq::empty()), s: s1 },
            Some(_) => {
                let eout = spec_parse_sexpr(s1);
                match eout.r {
                    Err(err) => PItemsOut { r: Err(err), s: eout.s },
                    Ok(el) => if eout.s.src == s.src && s1.idx < eout.s.idx
                        && eout.s.idx <= eout.s.src.len() {
                        let rest = spec_parse_program(eout.s);
                        match rest.r {
                            Err(err) => PItemsOut { r: Err(err), s: rest.s },
                            Ok(items) => PItemsOut {
                                r: Ok(Seq::empty().push(el) + items),
                                s: rest.s,
                            },
                        }
                    } else {
                        PItemsOut {
                            r: Err(PErrV { idx: s.idx, kind: PKindV::UnexpectedEnd }),
                            s: eout.s,
                        }
                    },
                }
            },
        }
    }
}

pub open spec fn atom_res_matches(r: Result<Atom, Error>, s: Result<AtomV, PErrV>) -> bool {
    match (r, s) {
        (Ok(a), Ok(v)) => a@ == v,
        (Err(e), Err(ev)) => e@ == ev,
        _ => false,
    }
}

pub open spec fn sexpr_res_matches(r: Result<SExpr, Error>, s: Result<SExprV, PErrV>) -> bool {
    match (r, s) {
        (Ok(e), Ok(v)) => e@ == v,
        (Err(e), Err(ev)) => e@ == ev,
        _ => false,
    }
}

pub open spec fn sexprs_res_matches(
    r: Result<Vec<SExpr>, Error>,
    s: Result<Seq<SExprV>, PErrV>,
) -> bool {
    match (r, s) {
        (Ok(v), Ok(vs)) => v@.map_values(|e: SExpr| e@) == vs,
        (Err(e), Err(ev)) => e@ == ev,
        _ => false,
    }
}

} // verus!

verus! {

impl Reader {
    /// Parse one atom: a string, a quote, a number, or a symbol.
    pub fn parse_atom(&mut self) -> (r: Result<Atom, Error>)
        ensures
            ({
                let out = spec_parse_atom(old(self)@);
                final(self)@ == out.s && atom_res_matches(r, out.r)
            }),
            final(self)@.src == old(self)@.src,
            old(self)@.idx <= final(self)@.idx,
            final(self)@.idx <= final(self)@.src.len() || final(self)@.idx == old(self)@.idx,
            r is Ok ==> final(self)@.idx > old(self)@.idx,
        decreases self@.src.len() - self@.idx, 0int,
    {
        proof {
            reveal_with_fuel(crate::ast::atom_view, 2);
        }
        let c = match self.peek() {
            Some(c) => c,
            None => {
                return Err(self.error(ParseErrKind::UnexpectedEnd));
            },
        };
        if c == '"' {
            self.advance();
            let start = self.pos();
            self.scan_string();
            let endp = self.pos();
            match self.peek() {
                Some(_) => {
                    let raw = start.span_to(endp).as_str(&self.chars.src);
                    let contents = decode_escapes(&raw);
                    self.advance();
                    Ok(Atom::Str(contents))
                },
                None => Err(self.error(ParseErrKind::UnexpectedEnd)),
            }
        } else if c == '\'' {
            self.advance();
            match self.parse_sexpr() {
                Ok(e) => Ok(Atom::Quote(Box::new(e))),
                Err(er) => Err(er),
            }
        } else if digit_char(c) {
            let start = self.pos();
            self.skip_digits();
            let has_dot = match self.peek() {
                Some(d) => d == '.',
                None => false,
            };
            if has_dot {
                self.advance();
                let mid = self.idx();
                self.skip_digits();
                let endp = self.pos();
                if endp.idx == mid {
                    return Err(
                        Error::new(
                            endp.idx,
                            ParseErrKind::NumberFormat(
                                start.span_to(endp).as_str(&self.chars.src),
                            ),
                        ),
                    );
                }
                let tok = start.span_to(endp).as_str(&self.chars.src);
                proof {
                    let tv = tok@;
                    let k = mid - 1 - start.idx;
                    assert(tv[k] == '.');
                    assert(tv.take(k) =~= old(self)@.src.subrange(
                        start.idx as int,
                        mid - 1 as int,
                    ));
                    assert(tv.skip(k + 1) =~= old(self)@.src.subrange(
                        mid as int,
                        endp.idx as int,
                    ));
                    assert(crate::num::all_digits(tv.take(k)));
                    assert(crate::num::all_digits(tv.skip(k + 1)));
                    assert(is_simple_decimal(tv));
                }
                match num_of_text(&tok) {
                    Some(bits) => Ok(Atom::Num(crate::ast::Number { bits, text: tok })),
                    None => {
                        // The token has the simple-decimal shape, so the
                        // number reader cannot refuse it.
                        proof {
                            assert(false);
                        }
                        Err(Error::new(0, ParseErrKind::UnexpectedEnd))
                    },
                }
            } else {
                let endp = self.pos();
                let tok = start.span_to(endp).as_str(&self.chars.src);
                proof {
                    assert(crate::num::all_digits(tok@));
                    assert(is_simple_decimal(tok@));
                }
                match num_of_text(&tok) {
                    Some(bits) => Ok(Atom::Num(crate::ast::Number { bits, text: tok })),
                    None => {
                        proof {
                            assert(false);
                        }
                        Err(Error::new(0, ParseErrKind::UnexpectedEnd))
                    },
                }
            }
        } else if ws_char(c) {
            Err(self.error(ParseErrKind::UnexpectedWhitespace))
        } else if alpha_char(c) || symbol_char(c) {
            let start = self.pos();
            self.skip_ident();
            let endp = self.pos();
            let tok = start.span_to(endp).as_str(&self.chars.src);
            Ok(Atom::Ident(tok))
        } else {
            Err(self.error(ParseErrKind::UnexpectedChar(c)))
        }
    }

    /// Parse one expression: a list, or an atom; comments read as
    /// whitespace.
    pub fn parse_sexpr(&mut self) -> (r: Result<SExpr, Error>)
        ensures
            ({
                let out = spec_parse_sexpr(old(self)@);
                final(self)@ == out.s && sexpr_res_matches(r, out.r)
            }),
            final(self)@.src == old(self)@.src,
            old(self)@.idx <= final(self)@.idx,
            final(self)@.idx <= final(self)@.src.len() || final(self)@.idx == old(self)@.idx,
            r is Ok ==> final(self)@.idx > old(self)@.idx,
        decreases self@.src.len() - self@.idx, 1int,
    {
        proof {
            reveal_with_fuel(crate::ast::atom_view, 2);
            reveal_with_fuel(crate::ast::sexpr_view, 2);
        }
        let c = match self.peek() {
            Some(c) => c,
            None => {
                return Err(self.error(ParseErrKind::UnexpectedEnd));
            },
        };
        if c == '(' {
            self.advance();
            let items = match self.parse_items() {
                Ok(v) => v,
                Err(e) => {
                    return Err(e);
                },
            };
            let ghost itemsv = items@.map_values(|e: SExpr| e@);
            let mut acc = SExpr::Atom(Atom::Nil);
            let mut rem = items;
            proof {
                assert(itemsv.skip(rem.len() as int) =~= Seq::<SExprV>::empty());
                assert(acc@ == list_of(itemsv.skip(rem.len() as int)));
                assert(rem@.map_values(|e: SExpr| e@) =~= itemsv.take(rem.len() as int));
            }
            while rem.len() > 0
                invariant
                    rem@.map_values(|e: SExpr| e@) == itemsv.take(rem.len() as int),
                    acc@ == list_of(itemsv.skip(rem.len() as int)),
                    rem.len() <= itemsv.len(),
                decreases rem.len(),
            {
                let ghost k = rem.len() as int;
                let e = rem.pop().unwrap();
                proof {
                    assert(e@ == itemsv.take(k)[k - 1]);
                    assert(rem@.map_values(|x: SExpr| x@) =~= itemsv.take(k - 1));
                }
                acc = SExpr::Cons(Atom::Quote(Box::new(e)), Atom::Quote(Box::new(acc)));
                proof {
                    reveal_with_fuel(crate::ast::atom_view, 2);
                    reveal_with_fuel(crate::ast::sexpr_view, 2);
                    assert(itemsv.skip(k - 1)[0] == itemsv[k - 1]);
                    assert(itemsv.skip(k - 1).skip(1) =~= itemsv.skip(k));
                    assert(acc@ == list_of(itemsv.skip(k - 1)));
                }
            }
            proof {
                assert(itemsv.skip(0) =~= itemsv);
            }
            Ok(acc)
        } else if c == ';' {
            self.skip_comment();
            self.skip_whitespace();
            self.parse_sexpr()
        } else {
            match self.parse_atom() {
                Ok(a) => Ok(SExpr::Atom(a)),
                Err(e) => Err(e),
            }
        }
    }

    /// Parse list items up to the closing parenthesis.
    fn parse_items(&mut self) -> (r: Result<Vec<SExpr>, Error>)
        ensures
            ({
                let out = spec_parse_items(old(self)@);
                final(self)@ == out.s && sexprs_res_matches(r, out.r)
            }),
            final(self)@.src == old(self)@.src,
            old(self)@.idx <= final(self)@.idx,
            final(self)@.idx <= final(self)@.src.len() || final(self)@.idx == old(self)@.idx,
        decreases self@.src.len() - self@.idx, 2int,
    {
        self.skip_blank();
        let c = match self.peek() {
            Some(c) => c,
            None => {
                return Err(self.error(ParseErrKind::ExpectedClosingParen));
            },
        };
        if c == ')' {
            self.advance();
            let vs: Vec<SExpr> = Vec::new();
            proof {
                assert(vs@.map_values(|e: SExpr| e@) =~= Seq::<SExprV>::empty());
            }
            return Ok(vs);
        }
        let e = match self.parse_sexpr() {
            Ok(e) => e,
            Err(er) => {
                return Err(er);
            },
        };
        let rest = match self.parse_items() {
            Ok(v) => v,
            Err(er) => {
                return Err(er);
            },
        };
        let mut v = rest;
        let ghost restv = v@.map_values(|x: SExpr| x@);
        v.insert(0, e);
        proof {
            assert(v@.map_values(|x: SExpr| x@) =~= Seq::<SExprV>::empty().push(e@) + restv);
        }
        Ok(v)
    }

    /// Parse every top-level form up to the end of input.
    pub fn parse_sexprs(&mut self) -> (r: Result<Vec<SExpr>, Error>)
        ensures
            ({
                let out = spec_parse_program(old(self)@);
                final(self)@ == out.s && sexprs_res_matches(r, out.r)
            }),
            final(self)@.src == old(self)@.src,
            old(self)@.idx <= final(self)@.idx,
        decreases self@.src.len() - self@.idx, 3int,
    {
        self.skip_blank();
        match self.peek() {
            None => {
                let vs: Vec<SExpr> = Vec::new();
                proof {
                    assert(vs@.map_values(|e: SExpr| e@) =~= Seq::<SExprV>::empty());
                }
                Ok(vs)
            },
            Some(_) => {
                let e = match self.parse_sexpr() {
                    Ok(e) => e,
                    Err(er) => {
                        return Err(er);
                    },
                };
                let rest = match self.parse_sexprs() {
                    Ok(v) => v,
                    Err(er) => {
                        return Err(er);
                    },
                };
                let mut v = rest;
                let ghost restv = v@.map_values(|x: SExpr| x@);
                v.insert(0, e);
                proof {
                    assert(v@.map_values(|x: SExpr| x@) =~= Seq::<SExprV>::empty().push(e@)
                        + restv);
                }
                Ok(v)
            },
        }
    }
}

} // verus!
