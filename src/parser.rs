//! A recursive-descent parser from source text to the raw tree.
//!
//! Grammar, loosest first: a statement is `name = expr` or an expression;
//! `||`, `&&`, comparisons, `+ -`, `* / // %` are left-associative binary
//! levels; `-` and `!` are prefix operators; `a.b.c` pipes stages; primaries
//! are numbers, quoted strings, names, calls `f(args)`, lists `(a b c)`
//! (one element is plain grouping), blocks `{s; s}` and `if c t else e`.
//! A `-` preceded by white space and followed by none starts a new operand
//! rather than a subtraction, so `if a -1` has the branch `-1`. `#` starts
//! a comment up to the end of the line.
use std::sync::Arc;
use vstd::prelude::*;
use vstd::string::StrSliceExecFns;
use crate::parse_state::ParseState;
use crate::syntax::{
    has_well_formed_escapes, push_char, BinaryOp, Expr, ExprValue, If, Literal, Number, SingleOp,
};

verus! {

/// A parse failure, at a byte offset of the source.
#[derive(Debug, Clone, Copy, PartialEq, Eq, Structural)]
pub struct ParseError {
    pub position: usize,
}

pub open spec fn is_space(c: char) -> bool {
    c == ' ' || c == '\t' || c == '\n' || c == '\r'
}

pub open spec fn is_digit(c: char) -> bool {
    '0' <= c && c <= '9'
}

pub open spec fn is_ident_start(c: char) -> bool {
    ('a' <= c && c <= 'z') || ('A' <= c && c <= 'Z') || c == '_'
}

pub open spec fn is_ident_char(c: char) -> bool {
    is_ident_start(c) || is_digit(c)
}

/// Number of bytes of `c` in UTF-8.
pub open spec fn utf8_width(c: char) -> nat {
    if (c as u32) < 0x80 {
        1
    } else if (c as u32) < 0x800 {
        2
    } else if (c as u32) < 0x1_0000 {
        3
    } else {
        4
    }
}

fn utf8_len(c: char) -> (r: usize)
    ensures
        r == utf8_width(c),
{
    let u = c as u32;
    if u < 0x80 {
        1
    } else if u < 0x800 {
        2
    } else if u < 0x1_0000 {
        3
    } else {
        4
    }
}

fn space(c: char) -> (r: bool)
    ensures
        r == is_space(c),
{
    c == ' ' || c == '\t' || c == '\n' || c == '\r'
}

fn digit(c: char) -> (r: bool)
    ensures
        r == is_digit(c),
{
    '0' <= c && c <= '9'
}

fn ident_start(c: char) -> (r: bool)
    ensures
        r == is_ident_start(c),
{
    ('a' <= c && c <= 'z') || ('A' <= c && c <= 'Z') || c == '_'
}

fn ident_char(c: char) -> (r: bool)
    ensures
        r == is_ident_char(c),
{
    ident_start(c) || digit(c)
}

/// The characters of the source, the byte offset of each (and of the end),
/// the position reached and the interning pool.
struct Cursor {
    chars: Vec<char>,
    offs: Vec<usize>,
    pos: usize,
    state: ParseState,
    /// The identifier already issued for each name met, so that every
    /// occurrence of a name carries the same tag.
    names: Vec<(String, crate::syntax::Ident)>,
}

spec fn inv(c: Cursor) -> bool {
    &&& c.pos <= c.chars.len()
    &&& forall|j: int| 0 <= j < c.names.len() ==> #[trigger] c.names@[j].0@ == c.names@[j].1.name@
    &&& c.offs.len() == c.chars.len() + 1
    &&& c.state.wf()
}

/// `b` is `a` moved forward over the same source; on success past at least
/// one character.
spec fn step(a: Cursor, b: Cursor, ok: bool) -> bool {
    &&& inv(b)
    &&& b.chars == a.chars
    &&& b.offs == a.offs
    &&& a.pos <= b.pos
    &&& ok ==> a.pos < b.pos
}

impl Cursor {
    fn peek(&self, k: usize) -> (r: Option<char>)
        requires
            inv(*self),
        ensures
            r == (if self.pos + k < self.chars.len() {
                Some(self.chars@[self.pos + k])
            } else {
                None::<char>
            }),
    {
        if k < self.chars.len() - self.pos {
            Some(self.chars[self.pos + k])
        } else {
            None
        }
    }

    fn is(&self, k: usize, c: char) -> (r: bool)
        requires
            inv(*self),
        ensures
            r == (self.pos + k < self.chars.len() && self.chars@[self.pos + k] == c),
    {
        match self.peek(k) {
            Some(d) => d == c,
            None => false,
        }
    }

    fn advance(&mut self, k: usize)
        requires
            inv(*old(self)),
            old(self).pos + k <= old(self).chars.len(),
        ensures
            step(*old(self), *final(self), false),
            final(self).pos == old(self).pos + k,
    {
        self.pos = self.pos + k;
    }

    fn error(&self) -> (r: ParseError)
        requires
            inv(*self),
    {
        ParseError { position: self.offs[self.pos] }
    }

    fn make(&self, v: ExprValue, start: usize) -> (r: Expr)
        requires
            inv(*self),
            start <= self.pos,
        ensures
            r.location == (self.offs@[start as int], self.offs@[self.pos as int]),
    {
        Expr::new(Arc::new(v), (self.offs[start], self.offs[self.pos]))
    }

    /// Skips white space and comments.
    fn skip(&mut self)
        requires
            inv(*old(self)),
        ensures
            step(*old(self), *final(self), false),
    {
        let mut comment = false;
        while self.pos < self.chars.len()
            invariant
                step(*old(self), *self, false),
            decreases self.chars.len() - self.pos,
        {
            let c = self.chars[self.pos];
            if comment {
                comment = c != '\n';
            } else if c == '#' {
                comment = true;
            } else if !space(c) {
                return;
            }
            self.pos = self.pos + 1;
        }
    }

    /// The end of the name that starts at `start`.
    fn name_end(&self, start: usize) -> (r: usize)
        requires
            inv(*self),
            start < self.chars.len(),
        ensures
            start < r <= self.chars.len(),
    {
        let mut end = start + 1;
        while end < self.chars.len() && ident_char(self.chars[end])
            invariant
                start < end <= self.chars.len(),
            decreases self.chars.len() - end,
        {
            end = end + 1;
        }
        end
    }

    fn text(&self, start: usize, end: usize) -> (r: String)
        requires
            start <= end <= self.chars.len(),
        ensures
            r@ == self.chars@.subrange(start as int, end as int),
    {
        let mut s = String::new();
        let mut i = start;
        while i < end
            invariant
                start <= i <= end <= self.chars.len(),
                s@ == self.chars@.subrange(start as int, i as int),
            decreases end - i,
        {
            push_char(&mut s, self.chars[i]);
            assert(s@ =~= self.chars@.subrange(start as int, i + 1));
            i = i + 1;
        }
        s
    }

    /// The identifier named by the characters `start..end`: the one issued
    /// for that name before, or one with a fresh tag.
    fn identifier(&mut self, start: usize, end: usize) -> (r: Result<crate::syntax::Ident, ParseError>)
        requires
            inv(*old(self)),
            start <= end <= old(self).chars.len(),
        ensures
            step(*old(self), *final(self), false),
            final(self).pos == old(self).pos,
            r matches Ok(id) ==> id.name@ == old(self).chars@.subrange(start as int, end as int),
    {
        let name = self.text(start, end);
        let mut k: usize = 0;
        while k < self.names.len()
            invariant
                k <= self.names.len(),
                inv(*self),
                self.chars == old(self).chars,
                self.offs == old(self).offs,
                self.pos == old(self).pos,
                name@ == self.chars@.subrange(start as int, end as int),
                forall|j: int| 0 <= j < self.names.len() ==> #[trigger] self.names@[j].0@ == self.names@[j].1.name@,
            decreases self.names.len() - k,
        {
            if self.names[k].0.eq(&name) {
                let id = crate::syntax::Ident { name: self.names[k].1.name.clone(), id: self.names[k].1.id };
                return Ok(id);
            }
            k = k + 1;
        }
        if self.state.ident_count() == usize::MAX {
            return Err(self.error());
        }
        let id = self.state.ident(name.as_str());
        let copy = crate::syntax::Ident { name: id.name.clone(), id: id.id };
        self.names.push((name, copy));
        Ok(id)
    }

    fn number(&mut self) -> (r: Result<Expr, ParseError>)
        requires
            inv(*old(self)),
            old(self).pos < old(self).chars.len(),
            is_digit(old(self).chars@[old(self).pos as int]),
        ensures
            step(*old(self), *final(self), r is Ok),
    {
        let start = self.pos;
        let mut mantissa: u64 = 0;
        let mut exponent: i64 = 0;
        while self.pos < self.chars.len() && digit(self.chars[self.pos])
            invariant
                step(*old(self), *self, false),
                start == old(self).pos,
            decreases self.chars.len() - self.pos,
        {
            if mantissa >= 1_000_000_000_000_000_000 {
                return Err(self.error());
            }
            mantissa = mantissa * 10 + (self.chars[self.pos] as u64 - '0' as u64);
            self.pos = self.pos + 1;
        }
        if self.is(0, '.') && self.pos + 1 < self.chars.len() && digit(self.chars[self.pos + 1]) {
            self.pos = self.pos + 1;
            while self.pos < self.chars.len() && digit(self.chars[self.pos])
                invariant
                    step(*old(self), *self, false),
                    start == old(self).pos,
                    -1_000_000_000 <= exponent <= 0,
                decreases self.chars.len() - self.pos,
            {
                if mantissa >= 1_000_000_000_000_000_000 || exponent <= -1_000_000_000 {
                    return Err(self.error());
                }
                mantissa = mantissa * 10 + (self.chars[self.pos] as u64 - '0' as u64);
                exponent = exponent - 1;
                self.pos = self.pos + 1;
            }
        }
        if self.is(0, 'e') || self.is(0, 'E') {
            let negative = self.is(1, '-');
            let sign: usize = if negative || self.is(1, '+') {
                1
            } else {
                0
            };
            let k = sign + 1;
            if k < self.chars.len() - self.pos && digit(self.chars[self.pos + k]) {
                self.pos = self.pos + sign + 1;
                let mut e: i64 = 0;
                while self.pos < self.chars.len() && digit(self.chars[self.pos])
                    invariant
                        step(*old(self), *self, false),
                        start == old(self).pos,
                        0 <= e < 1_000_000_000,
                        -1_000_000_000 <= exponent <= 0,
                    decreases self.chars.len() - self.pos,
                {
                    if e >= 100_000_000 {
                        return Err(self.error());
                    }
                    e = e * 10 + (self.chars[self.pos] as u64 - '0' as u64) as i64;
                    self.pos = self.pos + 1;
                }
                exponent = if negative {
                    exponent - e
                } else {
                    exponent + e
                };
            }
        }
        Ok(self.make(ExprValue::Literal(Literal::Number(Number::new(mantissa, exponent))), start))
    }

    fn string(&mut self, quote: char) -> (r: Result<Expr, ParseError>)
        requires
            inv(*old(self)),
            old(self).pos < old(self).chars.len(),
        ensures
            step(*old(self), *final(self), r is Ok),
    {
        let start = self.pos;
        self.pos = self.pos + 1;
        let mut body = String::new();
        loop
            invariant
                step(*old(self), *self, false),
                start == old(self).pos,
                start < self.pos,
            decreases self.chars.len() - self.pos,
        {
            if self.pos >= self.chars.len() {
                return Err(self.error());
            }
            let c = self.chars[self.pos];
            if c == quote {
                self.pos = self.pos + 1;
                break;
            } else if c == '\\' {
                if self.pos + 1 >= self.chars.len() {
                    return Err(self.error());
                }
                push_char(&mut body, c);
                push_char(&mut body, self.chars[self.pos + 1]);
                self.pos = self.pos + 2;
            } else {
                push_char(&mut body, c);
                self.pos = self.pos + 1;
            }
        }
        if !has_well_formed_escapes(body.as_str()) {
            return Err(ParseError { position: self.offs[start] });
        }
        match Literal::escape(body.as_str()) {
            Ok(l) => Ok(self.make(ExprValue::Literal(l), start)),
            Err(_) => Err(ParseError { position: self.offs[start] }),
        }
    }

    /// `a || b || ...`
    fn expr(&mut self) -> (r: Result<Expr, ParseError>)
        requires
            inv(*old(self)),
        ensures
            step(*old(self), *final(self), r is Ok),
        decreases old(self).chars.len() - old(self).pos, 10int,
    {
        self.skip();
        let start = self.pos;
        let mut left = match self.and_expr() {
            Ok(e) => e,
            Err(e) => {
                return Err(e);
            },
        };
        loop
            invariant
                step(*old(self), *self, true),
                old(self).pos <= start <= self.pos,
            decreases self.chars.len() - self.pos,
        {
            let before = self.pos;
            self.skip();
            let found: Option<usize> = if self.is(0, '|') && self.is(1, '|') {
                Some(2)
            } else {
                None
            };
            match found {
                None => {
                    self.pos = before;
                    break;
                },
                Some(width) => {
                    self.advance(width);
                    let right = match self.and_expr() {
                        Ok(e) => e,
                        Err(e) => {
                            return Err(e);
                        },
                    };
                    left = self.make(ExprValue::Or(left, right), start);
                },
            }
        }
        Ok(left)
    }

    /// `a && b && ...`
    fn and_expr(&mut self) -> (r: Result<Expr, ParseError>)
        requires
            inv(*old(self)),
        ensures
            step(*old(self), *final(self), r is Ok),
        decreases old(self).chars.len() - old(self).pos, 9int,
    {
        self.skip();
        let start = self.pos;
        let mut left = match self.comparison() {
            Ok(e) => e,
            Err(e) => {
                return Err(e);
            },
        };
        loop
            invariant
                step(*old(self), *self, true),
                old(self).pos <= start <= self.pos,
            decreases self.chars.len() - self.pos,
        {
            let before = self.pos;
            self.skip();
            let found: Option<usize> = if self.is(0, '&') && self.is(1, '&') {
                Some(2)
            } else {
                None
            };
            match found {
                None => {
                    self.pos = before;
                    break;
                },
                Some(width) => {
                    self.advance(width);
                    let right = match self.comparison() {
                        Ok(e) => e,
                        Err(e) => {
                            return Err(e);
                        },
                    };
                    left = self.make(ExprValue::And(left, right), start);
                },
            }
        }
        Ok(left)
    }

    /// `a < b == c ...`
    fn comparison(&mut self) -> (r: Result<Expr, ParseError>)
        requires
            inv(*old(self)),
        ensures
            step(*old(self), *final(self), r is Ok),
        decreases old(self).chars.len() - old(self).pos, 8int,
    {
        self.skip();
        let start = self.pos;
        let mut left = match self.sum() {
            Ok(e) => e,
            Err(e) => {
                return Err(e);
            },
        };
        loop
            invariant
                step(*old(self), *self, true),
                old(self).pos <= start <= self.pos,
            decreases self.chars.len() - self.pos,
        {
            let before = self.pos;
            self.skip();
            let found: Option<(BinaryOp, usize)> = if self.is(0, '=') && self.is(1, '=') {
                Some((BinaryOp::Eq, 2))
            } else if self.is(0, '!') && self.is(1, '=') {
                Some((BinaryOp::Ne, 2))
            } else if self.is(0, '<') && self.is(1, '=') {
                Some((BinaryOp::Le, 2))
            } else if self.is(0, '>') && self.is(1, '=') {
                Some((BinaryOp::Ge, 2))
            } else if self.is(0, '<') {
                Some((BinaryOp::Lt, 1))
            } else if self.is(0, '>') {
                Some((BinaryOp::Gt, 1))
            } else {
                None
            };
            match found {
                None => {
                    self.pos = before;
                    break;
                },
                Some((op, width)) => {
                    self.advance(width);
                    let right = match self.sum() {
                        Ok(e) => e,
                        Err(e) => {
                            return Err(e);
                        },
                    };
                    left = self.make(ExprValue::Op2(op, left, right), start);
                },
            }
        }
        Ok(left)
    }

    /// `a + b - c ...`
    fn sum(&mut self) -> (r: Result<Expr, ParseError>)
        requires
            inv(*old(self)),
        ensures
            step(*old(self), *final(self), r is Ok),
        decreases old(self).chars.len() - old(self).pos, 7int,
    {
        self.skip();
        let start = self.pos;
        let mut left = match self.product() {
            Ok(e) => e,
            Err(e) => {
                return Err(e);
            },
        };
        loop
            invariant
                step(*old(self), *self, true),
                old(self).pos <= start <= self.pos,
            decreases self.chars.len() - self.pos,
        {
            let before = self.pos;
            self.skip();
            let spaced = self.pos > before;
            let found: Option<(BinaryOp, usize)> = if self.is(0, '+') {
                Some((BinaryOp::Add, 1))
            } else if self.is(0, '-') {
                let new_operand = match self.peek(1) {
                    Some(c) => spaced && !space(c),
                    None => false,
                };
                if new_operand {
                    None
                } else {
                    Some((BinaryOp::Sub, 1))
                }
            } else {
                None
            };
            match found {
                None => {
                    self.pos = before;
                    break;
                },
                Some((op, width)) => {
                    self.advance(width);
                    let right = match self.product() {
                        Ok(e) => e,
                        Err(e) => {
                            return Err(e);
                        },
                    };
                    left = self.make(ExprValue::Op2(op, left, right), start);
                },
            }
        }
        Ok(left)
    }

    /// `a * b / c ...`
    fn product(&mut self) -> (r: Result<Expr, ParseError>)
        requires
            inv(*old(self)),
        ensures
            step(*old(self), *final(self), r is Ok),
        decreases old(self).chars.len() - old(self).pos, 6int,
    {
        self.skip();
        let start = self.pos;
        let mut left = match self.unary() {
            Ok(e) => e,
            Err(e) => {
                return Err(e);
            },
        };
        loop
            invariant
                step(*old(self), *self, true),
                old(self).pos <= start <= self.pos,
            decreases self.chars.len() - self.pos,
        {
            let before = self.pos;
            self.skip();
            let found: Option<(BinaryOp, usize)> = if self.is(0, '*') {
                Some((BinaryOp::Mul, 1))
            } else if self.is(0, '/') && self.is(1, '/') {
                Some((BinaryOp::IDiv, 2))
            } else if self.is(0, '/') {
                Some((BinaryOp::Div, 1))
            } else if self.is(0, '%') {
                Some((BinaryOp::Rem, 1))
            } else {
                None
            };
            match found {
                None => {
                    self.pos = before;
                    break;
                },
                Some((op, width)) => {
                    self.advance(width);
                    let right = match self.unary() {
                        Ok(e) => e,
                        Err(e) => {
                            return Err(e);
                        },
                    };
                    left = self.make(ExprValue::Op2(op, left, right), start);
                },
            }
        }
        Ok(left)
    }

    /// Prefix operators over a chain of piped stages.
    fn unary(&mut self) -> (r: Result<Expr, ParseError>)
        requires
            inv(*old(self)),
        ensures
            step(*old(self), *final(self), r is Ok),
        decreases old(self).chars.len() - old(self).pos, 5int,
    {
        self.skip();
        let start = self.pos;
        if self.is(0, '-') || self.is(0, '!') {
            let op = if self.is(0, '-') {
                SingleOp::Neg
            } else {
                SingleOp::Not
            };
            self.advance(1);
            match self.unary() {
                Ok(e) => Ok(self.make(ExprValue::Op1(op, e), start)),
                Err(e) => Err(e),
            }
        } else {
            self.pipeline()
        }
    }

    /// Prefix operators over one primary: a stage after a `.`.
    fn stage(&mut self) -> (r: Result<Expr, ParseError>)
        requires
            inv(*old(self)),
        ensures
            step(*old(self), *final(self), r is Ok),
        decreases old(self).chars.len() - old(self).pos, 5int,
    {
        self.skip();
        let start = self.pos;
        if self.is(0, '-') || self.is(0, '!') {
            let op = if self.is(0, '-') {
                SingleOp::Neg
            } else {
                SingleOp::Not
            };
            self.advance(1);
            match self.stage() {
                Ok(e) => Ok(self.make(ExprValue::Op1(op, e), start)),
                Err(e) => Err(e),
            }
        } else {
            self.primary()
        }
    }

    /// `a.b.c`: stages piped one into the next.
    fn pipeline(&mut self) -> (r: Result<Expr, ParseError>)
        requires
            inv(*old(self)),
        ensures
            step(*old(self), *final(self), r is Ok),
        decreases old(self).chars.len() - old(self).pos, 4int,
    {
        self.skip();
        let start = self.pos;
        let mut cur = match self.primary() {
            Ok(e) => e,
            Err(e) => {
                return Err(e);
            },
        };
        let mut stages: Vec<Expr> = Vec::new();
        loop
            invariant
                step(*old(self), *self, true),
                old(self).pos <= start <= self.pos,
            decreases self.chars.len() - self.pos,
        {
            let before = self.pos;
            self.skip();
            if !self.is(0, '.') {
                self.pos = before;
                break;
            }
            self.advance(1);
            let next = match self.stage() {
                Ok(e) => e,
                Err(e) => {
                    return Err(e);
                },
            };
            stages.push(cur);
            cur = next;
        }
        if stages.len() == 0 {
            Ok(cur)
        } else {
            stages.push(cur);
            Ok(self.make(ExprValue::Pipe(stages), start))
        }
    }

    /// A number, string, name, call, list, block or conditional.
    fn primary(&mut self) -> (r: Result<Expr, ParseError>)
        requires
            inv(*old(self)),
        ensures
            step(*old(self), *final(self), r is Ok),
        decreases old(self).chars.len() - old(self).pos, 3int,
    {
        self.skip();
        let start = self.pos;
        let c = match self.peek(0) {
            Some(c) => c,
            None => {
                return Err(self.error());
            },
        };
        if digit(c) {
            self.number()
        } else if c == '\'' || c == '"' {
            self.string(c)
        } else if ident_start(c) {
            let end = self.name_end(start);
            if end - start == 2 && self.chars[start] == 'i' && self.chars[start + 1] == 'f' {
                self.pos = end;
                return self.conditional(start);
            }
            let id = match self.identifier(start, end) {
                Ok(id) => id,
                Err(e) => {
                    return Err(e);
                },
            };
            self.pos = end;
            let callee = self.make(ExprValue::Ident(id), start);
            if self.is(0, '(') {
                self.advance(1);
                match self.items(')') {
                    Ok(mut args) => {
                        args.insert(0, callee);
                        let all = self.make(ExprValue::List(args), start);
                        Ok(self.make(ExprValue::Call(all), start))
                    },
                    Err(e) => Err(e),
                }
            } else {
                Ok(callee)
            }
        } else if c == '(' {
            self.advance(1);
            match self.items(')') {
                Ok(mut v) => {
                    if v.len() == 1 {
                        match v.pop() {
                            Some(e) => Ok(e),
                            None => Err(self.error()),
                        }
                    } else {
                        Ok(self.make(ExprValue::List(v), start))
                    }
                },
                Err(e) => Err(e),
            }
        } else if c == '{' {
            self.advance(1);
            match self.block() {
                Ok(v) => Ok(self.make(ExprValue::Pipe(v), start)),
                Err(e) => Err(e),
            }
        } else {
            Err(self.error())
        }
    }

    /// Whether the keyword `else` comes next.
    fn at_else(&self) -> (r: bool)
        requires
            inv(*self),
        ensures
            r ==> self.pos + 4 <= self.chars.len(),
    {
        self.is(0, 'e') && self.is(1, 'l') && self.is(2, 's') && self.is(3, 'e') && match self.peek(4) {
            Some(c) => !ident_char(c),
            None => true,
        }
    }

    /// The rest of `if cond then [else other]`, after the keyword.
    fn conditional(&mut self, start: usize) -> (r: Result<Expr, ParseError>)
        requires
            inv(*old(self)),
            start < old(self).pos,
        ensures
            step(*old(self), *final(self), false),
        decreases old(self).chars.len() - old(self).pos, 12int,
    {
        let cond = match self.expr() {
            Ok(e) => e,
            Err(e) => {
                return Err(e);
            },
        };
        let yes = match self.expr() {
            Ok(e) => e,
            Err(e) => {
                return Err(e);
            },
        };
        let before = self.pos;
        self.skip();
        let no = if self.at_else() {
            self.advance(4);
            match self.expr() {
                Ok(e) => Some(e),
                Err(e) => {
                    return Err(e);
                },
            }
        } else {
            self.pos = before;
            None
        };
        Ok(self.make(ExprValue::If(If::new(cond, yes, no)), start))
    }

    /// Statements up to the closing `close`, which is consumed.
    fn items(&mut self, close: char) -> (r: Result<Vec<Expr>, ParseError>)
        requires
            inv(*old(self)),
        ensures
            step(*old(self), *final(self), false),
        decreases old(self).chars.len() - old(self).pos, 12int,
    {
        let mut v: Vec<Expr> = Vec::new();
        loop
            invariant
                step(*old(self), *self, false),
            decreases self.chars.len() - self.pos,
        {
            self.skip();
            if self.is(0, close) {
                self.advance(1);
                return Ok(v);
            }
            match self.statement() {
                Ok(e) => v.push(e),
                Err(e) => {
                    return Err(e);
                },
            }
        }
    }

    /// Statements separated by `;` up to the closing `}`, which is consumed.
    fn block(&mut self) -> (r: Result<Vec<Expr>, ParseError>)
        requires
            inv(*old(self)),
        ensures
            step(*old(self), *final(self), false),
        decreases old(self).chars.len() - old(self).pos, 12int,
    {
        let mut v: Vec<Expr> = Vec::new();
        loop
            invariant
                step(*old(self), *self, false),
            decreases self.chars.len() - self.pos,
        {
            self.skip();
            if self.is(0, '}') {
                self.advance(1);
                return Ok(v);
            }
            match self.statement() {
                Ok(e) => v.push(e),
                Err(e) => {
                    return Err(e);
                },
            }
            self.skip();
            if self.is(0, ';') {
                self.advance(1);
            } else if self.is(0, '}') {
                self.advance(1);
                return Ok(v);
            } else {
                return Err(self.error());
            }
        }
    }

    /// `name = expr`, or an expression.
    fn statement(&mut self) -> (r: Result<Expr, ParseError>)
        requires
            inv(*old(self)),
        ensures
            step(*old(self), *final(self), r is Ok),
        decreases old(self).chars.len() - old(self).pos, 11int,
    {
        self.skip();
        let start = self.pos;
        match self.peek(0) {
            Some(c) => {
                if ident_start(c) {
                    let end = self.name_end(start);
                    self.pos = end;
                    self.skip();
                    if self.is(0, '=') && !self.is(1, '=') {
                        let id = match self.identifier(start, end) {
                            Ok(id) => id,
                            Err(e) => {
                                return Err(e);
                            },
                        };
                        self.advance(1);
                        let value = match self.expr() {
                            Ok(e) => e,
                            Err(e) => {
                                return Err(e);
                            },
                        };
                        return Ok(self.make(ExprValue::Assign(id, value), start));
                    }
                    self.pos = start;
                }
            },
            None => {},
        }
        self.expr()
    }
}

/// Parses source text into a raw tree, interning names in a fresh pool.
/// All occurrences of one name in a source carry one tag, so that a
/// reference can be resolved to an assignment of that name.
#[derive(Debug, Clone, Copy)]
pub struct AtomParser {}

impl AtomParser {
    pub fn new() -> (r: AtomParser) {
        AtomParser {  }
    }

    /// The raw tree of one statement filling `src`, or where parsing stopped.
    pub fn parse(&self, src: &str) -> (r: Result<Expr, ParseError>) {
        let n = src.unicode_len();
        let mut chars: Vec<char> = Vec::new();
        let mut offs: Vec<usize> = Vec::new();
        let mut off: usize = 0;
        let mut i: usize = 0;
        while i < n
            invariant
                n == src@.len(),
                i <= n,
                chars.len() == i,
                offs.len() == i,
            decreases n - i,
        {
            let c = src.get_char(i);
            if off > usize::MAX - 4 {
                return Err(ParseError { position: off });
            }
            chars.push(c);
            offs.push(off);
            off = off + utf8_len(c);
            i = i + 1;
        }
        offs.push(off);
        let mut cur = Cursor { chars, offs, pos: 0, state: ParseState::new(), names: Vec::new() };
        let e = match cur.statement() {
            Ok(e) => e,
            Err(e) => {
                return Err(e);
            },
        };
        cur.skip();
        if cur.pos < cur.chars.len() {
            return Err(cur.error());
        }
        Ok(e)
    }
}

} // verus!
