//! The raw syntax tree handed over by a parser, and the decoder for the
//! bodies of string literals.
use std::sync::Arc;
use vstd::prelude::*;
use vstd::string::StrSliceExecFns;

verus! {

/// Failure of literal decoding.
#[derive(Debug, Clone, Copy, PartialEq, Eq, Structural)]
pub enum Error {
    /// A `\U........` escape whose value is not a Unicode scalar value.
    InvalidUnicode(u32),
}

// ---------------------------------------------------------------------------
// Escape decoding, as mathematics
// ---------------------------------------------------------------------------

pub open spec fn is_hex_digit(c: char) -> bool {
    ('0' <= c && c <= '9') || ('a' <= c && c <= 'f') || ('A' <= c && c <= 'F')
}

pub open spec fn hex_digit_value(c: char) -> nat {
    if '0' <= c && c <= '9' {
        (c as u32 - '0' as u32) as nat
    } else if 'a' <= c && c <= 'f' {
        (c as u32 - 'a' as u32 + 10) as nat
    } else {
        (c as u32 - 'A' as u32 + 10) as nat
    }
}

pub open spec fn all_hex(s: Seq<char>) -> bool {
    forall|i: int| 0 <= i < s.len() ==> is_hex_digit(#[trigger] s[i])
}

/// The number written by a sequence of hexadecimal digits, most significant first.
pub open spec fn hex_value(s: Seq<char>) -> nat
    decreases s.len(),
{
    if s.len() == 0 {
        0
    } else {
        hex_value(s.drop_last()) * 16 + hex_digit_value(s.last())
    }
}

pub open spec fn pow16(n: nat) -> nat
    decreases n,
{
    if n == 0 {
        1
    } else {
        16 * pow16((n - 1) as nat)
    }
}

/// Whether `code` is a Unicode scalar value, i.e. the code of some `char`.
pub open spec fn is_scalar(code: nat) -> bool {
    code < 0xD800 || (0xE000 <= code && code < 0x11_0000)
}

/// The code of a `char`.
pub open spec fn code_of(c: char) -> nat {
    c as u32 as nat
}

/// The `char` whose code is `code`.
pub open spec fn char_of(code: nat) -> char {
    choose|c: char| #[trigger] code_of(c) == code
}

/// The character denoted by a one-letter escape `\c`, if `c` is one.
pub open spec fn simple_escape(c: char) -> Option<char> {
    if c == '\\' {
        Some('\\')
    } else if c == '"' {
        Some('"')
    } else if c == 'n' {
        Some('\n')
    } else if c == 'r' {
        Some('\r')
    } else if c == 'b' {
        Some('\x08')
    } else if c == 't' {
        Some('\t')
    } else if c == 'e' {
        Some('\x1b')
    } else {
        None
    }
}

/// Number of hexadecimal digits that follow the escape letter `c`.
pub open spec fn hex_width(c: char) -> nat {
    if c == 'x' {
        2
    } else if c == 'u' {
        4
    } else if c == 'U' {
        8
    } else {
        0
    }
}

/// `s` starts with a backslash followed by a complete escape.
pub open spec fn escape_at_front(s: Seq<char>) -> bool {
    &&& s.len() >= 2
    &&& s[0] == '\\'
    &&& simple_escape(s[1]) is Some || {
        let w = hex_width(s[1]) as int;
        &&& w > 0
        &&& s.len() >= 2 + w
        &&& all_hex(s.subrange(2, 2 + w))
        &&& s[1] != 'U' ==> is_scalar(hex_value(s.subrange(2, 2 + w)))
    }
}

/// Length of the escape at the front of `s`, backslash included.
pub open spec fn escape_len(s: Seq<char>) -> nat {
    2 + hex_width(s[1])
}

/// Every backslash of `s` starts a complete escape, as the grammar guarantees.
/// A `\U` escape may still carry a value that is no scalar value.
pub open spec fn well_formed(s: Seq<char>) -> bool
    decreases s.len(),
{
    if s.len() == 0 {
        true
    } else if s[0] != '\\' {
        well_formed(s.drop_first())
    } else {
        escape_at_front(s) && well_formed(s.subrange(escape_len(s) as int, s.len() as int))
    }
}

pub open spec fn prepend(p: Seq<char>, r: Result<Seq<char>, u32>) -> Result<Seq<char>, u32> {
    match r {
        Ok(t) => Ok(p + t),
        Err(e) => Err(e),
    }
}

/// The decoded text of a literal body, or the code of the first `\U` escape
/// that is no scalar value.
pub open spec fn decode(s: Seq<char>) -> Result<Seq<char>, u32>
    decreases s.len(),
{
    if s.len() == 0 {
        Ok(Seq::empty())
    } else if s[0] != '\\' {
        prepend(seq![s[0]], decode(s.drop_first()))
    } else if !escape_at_front(s) {
        Ok(Seq::empty())
    } else {
        let rest = decode(s.subrange(escape_len(s) as int, s.len() as int));
        match simple_escape(s[1]) {
            Some(c) => prepend(seq![c], rest),
            None => {
                let code = hex_value(s.subrange(2, escape_len(s) as int));
                if is_scalar(code) {
                    prepend(seq![char_of(code)], rest)
                } else {
                    Err(code as u32)
                }
            },
        }
    }
}

pub proof fn lemma_pow16_le(j: nat)
    requires
        j <= 8,
    ensures
        pow16(j) <= pow16(8),
        pow16(8) == 0x1_0000_0000,
    decreases 8 - j,
{
    reveal_with_fuel(pow16, 9);
    assert(pow16(8) == 0x1_0000_0000);
    if j < 8 {
        lemma_pow16_le(j + 1);
    }
}

// ---------------------------------------------------------------------------
// Calls into std
// ---------------------------------------------------------------------------

/// Relies on `char::from_u32`: `Some` exactly for scalar values, holding the
/// `char` of that code.
#[verifier::external_body]
fn char_from_u32(code: u32) -> (r: Option<char>)
    ensures
        r == (if is_scalar(code as nat) { Some(char_of(code as nat)) } else { None::<char> }),
{
    char::from_u32(code)
}

/// Relies on `String::push`: appends one character.
#[verifier::external_body]
pub(crate) fn push_char(s: &mut String, c: char)
    ensures
        final(s)@ == old(s)@.push(c),
{
    s.push(c)
}

/// Appends the characters of `t` to `s`.
pub(crate) fn append(s: &mut String, t: &str)
    ensures
        final(s)@ == old(s)@ + t@,
{
    let n = t.unicode_len();
    let mut i: usize = 0;
    while i < n
        invariant
            n == t@.len(),
            i <= n,
            s@ == old(s)@ + t@.subrange(0, i as int),
        decreases n - i,
    {
        push_char(s, t.get_char(i));
        assert(s@ =~= old(s)@ + t@.subrange(0, i + 1));
        i = i + 1;
    }
    assert(t@.subrange(0, n as int) =~= t@);
}

// ---------------------------------------------------------------------------
// Executable decoder
// ---------------------------------------------------------------------------

pub(crate) fn hex_digit(c: char) -> (r: u32)
    requires
        is_hex_digit(c),
    ensures
        r as nat == hex_digit_value(c),
        r < 16,
{
    if '0' <= c && c <= '9' {
        (c as u32) - ('0' as u32)
    } else if 'a' <= c && c <= 'f' {
        (c as u32) - ('a' as u32) + 10
    } else {
        (c as u32) - ('A' as u32) + 10
    }
}

/// Reads the `w` hexadecimal digits of `s` that start at character `start`.
pub(crate) fn parse_hex(s: &str, start: usize, w: usize) -> (r: u32)
    requires
        w <= 8,
        start + w <= s@.len(),
        start + w <= usize::MAX,
        all_hex(s@.subrange(start as int, start + w)),
    ensures
        r as nat == hex_value(s@.subrange(start as int, start + w)),
{
    let mut v: u64 = 0;
    let mut j: usize = 0;
    while j < w
        invariant
            j <= w <= 8,
            start + w <= s@.len(),
            start + w <= usize::MAX,
            all_hex(s@.subrange(start as int, start + w)),
            v as nat == hex_value(s@.subrange(start as int, start + j)),
            v < pow16(j as nat),
        decreases w - j,
    {
        let c = s.get_char(start + j);
        assert(s@.subrange(start as int, start + w)[j as int] == c);
        let d = hex_digit(c);
        proof {
            lemma_pow16_le((j + 1) as nat);
            let t = s@.subrange(start as int, start + j + 1);
            assert(t.drop_last() =~= s@.subrange(start as int, start + j));
            assert(t.last() == c);
            assert(v * 16 + d < pow16(j as nat) * 16) by (nonlinear_arith)
                requires
                    v < pow16(j as nat),
                    d < 16,
            ;
        }
        v = v * 16 + d as u64;
        j = j + 1;
    }
    proof {
        lemma_pow16_le(w as nat);
    }
    v as u32
}

proof fn lemma_prepend_push(a: Seq<char>, c: char, r: Result<Seq<char>, u32>)
    ensures
        prepend(a, prepend(seq![c], r)) == prepend(a.push(c), r),
{
    if let Ok(t) = r {
        assert(a + (seq![c] + t) =~= a.push(c) + t);
    }
}

fn simple_escape_char(k: char) -> (r: Option<char>)
    ensures
        r == simple_escape(k),
{
    if k == '\\' {
        Some('\\')
    } else if k == '"' {
        Some('"')
    } else if k == 'n' {
        Some('\n')
    } else if k == 'r' {
        Some('\r')
    } else if k == 'b' {
        Some('\x08')
    } else if k == 't' {
        Some('\t')
    } else if k == 'e' {
        Some('\x1b')
    } else {
        None
    }
}

fn is_hex_digit_exec(c: char) -> (r: bool)
    ensures
        r == is_hex_digit(c),
{
    ('0' <= c && c <= '9') || ('a' <= c && c <= 'f') || ('A' <= c && c <= 'F')
}

/// Whether the `w` characters of `s` from `start` on are hexadecimal digits.
fn all_hex_at(s: &str, start: usize, w: usize) -> (r: bool)
    requires
        start + w <= s@.len(),
        start + w <= usize::MAX,
    ensures
        r == all_hex(s@.subrange(start as int, start + w)),
{
    let mut j: usize = 0;
    while j < w
        invariant
            j <= w,
            start + w <= s@.len(),
            start + w <= usize::MAX,
            forall|k: int| 0 <= k < j ==> is_hex_digit(#[trigger] s@.subrange(start as int, start + w)[k]),
        decreases w - j,
    {
        let c = s.get_char(start + j);
        assert(s@.subrange(start as int, start + w)[j as int] == c);
        if !is_hex_digit_exec(c) {
            return false;
        }
        j = j + 1;
    }
    true
}

/// Whether every backslash of `s` starts a complete escape; a `true` result
/// is what `Literal::escape` asks of its argument.
pub fn has_well_formed_escapes(s: &str) -> (r: bool)
    ensures
        r ==> well_formed(s@),
{
    let n = s.unicode_len();
    let mut i: usize = 0;
    assert(s@.subrange(0, n as int) =~= s@);
    while i < n
        invariant
            n == s@.len(),
            i <= n,
            well_formed(s@.subrange(i as int, n as int)) ==> well_formed(s@),
        decreases n - i,
    {
        let ghost t = s@.subrange(i as int, n as int);
        let c = s.get_char(i);
        assert(t[0] == c);
        if c != '\\' {
            assert(t.drop_first() =~= s@.subrange(i + 1, n as int));
            i = i + 1;
        } else {
            if i + 1 >= n {
                return false;
            }
            let k = s.get_char(i + 1);
            assert(t[1] == k);
            match simple_escape_char(k) {
                Some(_) => {
                    assert(t.subrange(2, t.len() as int) =~= s@.subrange(i + 2, n as int));
                    i = i + 2;
                },
                None => {
                    let w: usize = if k == 'x' {
                        2
                    } else if k == 'u' {
                        4
                    } else if k == 'U' {
                        8
                    } else {
                        return false;
                    };
                    if w > n - i - 2 {
                        return false;
                    }
                    assert(t.subrange(2, 2 + w as int) =~= s@.subrange(i + 2, i + 2 + w));
                    assert(t.subrange(2 + w as int, t.len() as int) =~= s@.subrange(i + 2 + w, n as int));
                    if !all_hex_at(s, i + 2, w) {
                        return false;
                    }
                    if k != 'U' {
                        let code = parse_hex(s, i + 2, w);
                        if !(code < 0xD800 || (0xE000 <= code && code < 0x11_0000)) {
                            return false;
                        }
                    }
                    i = i + 2 + w;
                },
            }
        }
    }
    true
}

// ---------------------------------------------------------------------------
// Raw tree
// ---------------------------------------------------------------------------

/// A number literal as the exact decimal `mantissa * 10^exponent`.
#[derive(Debug, Clone, Copy, PartialEq, Eq, Structural, Hash)]
pub struct Number {
    pub mantissa: u64,
    pub exponent: i64,
}

impl Number {
    pub fn new(mantissa: u64, exponent: i64) -> (r: Number)
        ensures
            r.mantissa == mantissa,
            r.exponent == exponent,
    {
        Number { mantissa, exponent }
    }
}

/// An identifier occurrence as the parser produced it: its interned name and
/// the tag that the parse state issued for it.
#[derive(Debug, Clone)]
pub struct Ident {
    pub name: Arc<String>,
    pub id: usize,
}

#[derive(Debug, Clone, PartialEq, Eq)]
pub enum Literal {
    String(Arc<String>),
    Number(Number),
}

impl Literal {
    /// Decodes the body of a string literal (quotes already stripped).
    pub fn escape(s: &str) -> (r: Result<Literal, Error>)
        requires
            well_formed(s@),
        ensures
            match decode(s@) {
                Ok(t) => r matches Ok(Literal::String(u)) && u@ == t,
                Err(code) => r == Err::<Literal, Error>(Error::InvalidUnicode(code)),
            },
    {
        let n = s.unicode_len();
        let mut acc = String::new();
        let mut i: usize = 0;
        proof {
            assert(s@.subrange(0, n as int) =~= s@);
            assert(acc@ + Seq::<char>::empty() =~= Seq::<char>::empty());
            if let Ok(t) = decode(s@) {
                assert(acc@ + t =~= t);
            }
        }
        while i < n
            invariant
                n == s@.len(),
                i <= n,
                well_formed(s@.subrange(i as int, n as int)),
                decode(s@) == prepend(acc@, decode(s@.subrange(i as int, n as int))),
            decreases n - i,
        {
            let ghost t = s@.subrange(i as int, n as int);
            let c = s.get_char(i);
            assert(t[0] == c);
            if c != '\\' {
                proof {
                    assert(t.drop_first() =~= s@.subrange(i + 1, n as int));
                    lemma_prepend_push(acc@, c, decode(t.drop_first()));
                }
                push_char(&mut acc, c);
                i = i + 1;
            } else {
                assert(escape_at_front(t));
                let k = s.get_char(i + 1);
                assert(t[1] == k);
                match simple_escape_char(k) {
                    Some(e) => {
                        proof {
                            assert(t.subrange(2, t.len() as int) =~= s@.subrange(i + 2, n as int));
                            lemma_prepend_push(acc@, e, decode(s@.subrange(i + 2, n as int)));
                        }
                        push_char(&mut acc, e);
                        i = i + 2;
                    },
                    None => {
                        let w: usize = if k == 'x' {
                            2
                        } else if k == 'u' {
                            4
                        } else {
                            8
                        };
                        assert(w == hex_width(k));
                        assert(t.subrange(2, 2 + w as int) =~= s@.subrange(i + 2, i + 2 + w));
                        assert(t.subrange(2 + w as int, t.len() as int)
                            =~= s@.subrange(i + 2 + w, n as int));
                        let code = parse_hex(s, i + 2, w);
                        match char_from_u32(code) {
                            Some(ch) => {
                                proof {
                                    lemma_prepend_push(
                                        acc@,
                                        ch,
                                        decode(s@.subrange(i + 2 + w, n as int)),
                                    );
                                }
                                push_char(&mut acc, ch);
                                i = i + 2 + w;
                            },
                            None => {
                                return Err(Error::InvalidUnicode(code));
                            },
                        }
                    },
                }
            }
        }
        proof {
            assert(acc@ + Seq::<char>::empty() =~= acc@);
        }
        Ok(Literal::String(Arc::new(acc)))
    }
}

/// A node of the raw tree with the byte span it was parsed from.
#[derive(Debug)]
pub struct Expr {
    pub value: Arc<ExprValue>,
    pub location: (usize, usize),
}

impl Clone for Expr {
    fn clone(&self) -> (r: Expr)
        ensures
            r == *self,
    {
        Expr { value: self.value.clone(), location: self.location }
    }
}

impl Expr {
    pub fn new(value: Arc<ExprValue>, location: (usize, usize)) -> (r: Expr)
        ensures
            r.value == value,
            r.location == location,
    {
        Expr { value, location }
    }
}

#[derive(Debug, Clone)]
pub enum ExprValue {
    /// Stages run in order, each seeing the assignments of the earlier ones.
    Pipe(Vec<Expr>),
    Op1(SingleOp, Expr),
    Op2(BinaryOp, Expr, Expr),
    And(Expr, Expr),
    Or(Expr, Expr),
    If(If),
    Call(Expr),
    List(Vec<Expr>),
    Literal(Literal),
    Ident(Ident),
    Assign(Ident, Expr),
    /// The implicit subject of the current pipe stage.
    This,
}

#[derive(Debug, Clone, Copy, PartialEq, Eq, Structural, PartialOrd, Ord, Hash)]
pub enum SingleOp {
    Neg,
    Not,
}

#[derive(Debug, Clone, Copy, PartialEq, Eq, Structural, PartialOrd, Ord, Hash)]
pub enum BinaryOp {
    Add,
    Sub,
    Mul,
    Div,
    IDiv,
    Rem,
    Lt,
    Le,
    Gt,
    Ge,
    Eq,
    Ne,
}

#[derive(Debug, Clone)]
pub struct If {
    pub cond: Expr,
    pub yes: Expr,
    pub no: Option<Expr>,
}

impl If {
    pub fn new(cond: Expr, yes: Expr, no: Option<Expr>) -> (r: If)
        ensures
            r.cond == cond,
            r.yes == yes,
            r.no == no,
    {
        If { cond, yes, no }
    }
}

} // verus!
