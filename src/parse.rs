//! Recursive-descent parser from source text to syntax tree.
//!
//! Every rule works on the text as characters and a position in it; each
//! reports where it stopped, and every rule but the one for bodies consumes
//! at least one character when it succeeds.

use vstd::prelude::*;

use crate::keywords::{is_keyword, is_keyword_spec};

verus! {

// ---------------------------------------------------------------- syntax tree

/// A name: a run of ASCII letters that is not a keyword.
#[derive(Debug, Clone, PartialEq, Eq, Hash)]
pub struct Identifier(pub String);

#[derive(Debug)]
pub enum MutationKind {
    Assign,
    AddAssign,
    SubtractAssign,
    ModAssign,
    MulAssign,
    DivAssign,
}

/// What follows a name: an index or a call.
#[derive(Debug)]
pub enum Action {
    Get { index: Box<Expr> },
    Call { arguments: Vec<Expr> },
}

#[derive(Debug)]
pub enum Expr {
    Mutate { variable: Identifier, mutation: MutationKind, assign: Box<Expr> },
    Elvis { condition: Box<Expr>, case_true: Box<Expr>, case_false: Box<Expr> },
    Or(Box<Expr>, Box<Expr>),
    And(Box<Expr>, Box<Expr>),
    Xor(Box<Expr>, Box<Expr>),
    Equal(Box<Expr>, Box<Expr>),
    NotEqual(Box<Expr>, Box<Expr>),
    SmallerEq(Box<Expr>, Box<Expr>),
    GreaterEq(Box<Expr>, Box<Expr>),
    Smaller(Box<Expr>, Box<Expr>),
    Greater(Box<Expr>, Box<Expr>),
    Add(Box<Expr>, Box<Expr>),
    Sub(Box<Expr>, Box<Expr>),
    Div(Box<Expr>, Box<Expr>),
    Mul(Box<Expr>, Box<Expr>),
    Mod(Box<Expr>, Box<Expr>),
    Exponent(Box<Expr>, Box<Expr>),
    Not(Box<Expr>),
    Neg(Box<Expr>),
    Identifier { path: Vec<Identifier>, action: Option<Action> },
    Value(Object),
}

/// A string literal.
#[derive(Debug)]
pub struct StringTemplate {
    pub start: String,
}

/// A literal in the source.
#[derive(Debug)]
pub enum Object {
    Boolean(bool),
    Number(i64),
    String(StringTemplate),
    Array(Vec<Expr>),
    Dict(Vec<(Identifier, Expr)>),
    Closure { args: Vec<Identifier>, body: FunctionBody },
}

/// `let <name>` or `let <name> = <expr>`.
#[derive(Debug)]
pub struct Variable {
    pub identifier: Identifier,
    pub assign: Option<Box<Expr>>,
}

/// `function <name>(<names>) { <body> }`.
#[derive(Debug)]
pub struct Function {
    pub identifier: Identifier,
    pub arguments: Vec<Identifier>,
    pub body: FunctionBody,
}

/// The variable definitions, functions and statements of a body, each in
/// source order.
#[derive(Debug)]
pub struct FunctionBody {
    pub scope: Vec<Variable>,
    pub functions: Vec<Function>,
    pub instructions: Vec<Statement>,
}

#[derive(Debug)]
pub enum ForLoopCondition {
    CStyle { prerequisite: Variable, condition: Box<Expr>, mutation: Box<Expr> },
}

#[derive(Debug)]
pub struct ForLoop {
    pub condition: ForLoopCondition,
    pub body: FunctionBody,
}

#[derive(Debug)]
pub enum Statement {
    Return(Option<Box<Expr>>),
    If { condition: Box<Expr>, body: FunctionBody, else_branch: Option<FunctionBody> },
    While { condition: Box<Expr>, body: FunctionBody },
    For(ForLoop),
    Break,
    Continue,
    Expression(Box<Expr>),
}

/// Where parsing failed, in characters from the start of the input.
#[derive(Debug, Clone, Copy, PartialEq, Eq, Structural)]
pub struct ParseError {
    pub position: usize,
}

// ---------------------------------------------------------------- lexical rules

pub open spec fn is_ws(c: char) -> bool {
    c == ' ' || c == '\n' || c == '\r' || c == '\t'
}

pub open spec fn is_alpha(c: char) -> bool {
    ('a' <= c && c <= 'z') || ('A' <= c && c <= 'Z')
}

/// The value of a digit character, 16 for anything else.
pub open spec fn digit_value(c: char) -> nat {
    if '0' <= c && c <= '9' {
        (c as nat - '0' as nat) as nat
    } else if 'a' <= c && c <= 'f' {
        (c as nat - 'a' as nat + 10) as nat
    } else if 'A' <= c && c <= 'F' {
        (c as nat - 'A' as nat + 10) as nat
    } else {
        16
    }
}

/// The number that digits `s` denote in base `radix`.
pub open spec fn digits_value(s: Seq<char>, radix: nat) -> nat
    decreases s.len(),
{
    if s.len() == 0 {
        0
    } else {
        digits_value(s.drop_last(), radix) * radix + digit_value(s.last())
    }
}

/// The base that a `0x`, `0o` or `0b` prefix selects by its letter, 0 for
/// any other letter.
pub open spec fn prefix_radix(c: char) -> nat {
    if c == 'x' {
        16
    } else if c == 'o' {
        8
    } else if c == 'b' {
        2
    } else {
        0
    }
}

/// `n` is the value of the number literal `lit`: decimal digits, or a
/// prefix and digits in its base.
pub open spec fn denotes_number(lit: Seq<char>, n: int) -> bool {
    ||| n == digits_value(lit, 10)
    ||| (lit.len() >= 2 && lit[0] == '0' && prefix_radix(lit[1]) > 0 && n == digits_value(lit.subrange(2, lit.len() as int), prefix_radix(lit[1])))
}

/// `rest` is what is left of `input` after a prefix of it.
pub open spec fn is_suffix(rest: Seq<char>, input: Seq<char>) -> bool {
    rest.len() <= input.len() && rest == input.subrange(input.len() - rest.len(), input.len() as int)
}

/// Leading whitespace of `input`: the rest after it, then the whitespace.
pub fn whitespace(input: &str) -> (r: Result<(&str, &str), ParseError>)
    ensures
        match r {
            Ok((rest, ws)) => {
                &&& input@ == ws@ + rest@
                &&& forall|k: int| 0 <= k < ws@.len() ==> is_ws(#[trigger] ws@[k])
                &&& (rest@.len() == 0 || !is_ws(rest@[0]))
            },
            Err(_) => false,
        },
{
    let p = Parser::new(input);
    let end = p.skip_ws(0);
    let ws = input.substring_char(0, end);
    let rest = input.substring_char(end, p.chars.len());
    assert(input@ =~= ws@ + rest@);
    Ok((rest, ws))
}

/// A source text as characters.
struct Parser<'a> {
    text: &'a str,
    chars: Vec<char>,
}

impl<'a> Parser<'a> {
    spec fn len(&self) -> int {
        self.chars@.len() as int
    }

    spec fn wf(&self) -> bool {
        self.chars@ == self.text@ && self.chars@.len() <= usize::MAX
    }

    fn new(text: &'a str) -> (r: Parser<'a>)
        ensures
            r.wf(),
            r.text == text,
    {
        let n = text.unicode_len();
        let mut chars: Vec<char> = Vec::new();
        let mut i: usize = 0;
        while i < n
            invariant
                n == text@.len(),
                i <= n,
                chars@ == text@.take(i as int),
            decreases n - i,
        {
            chars.push(text.get_char(i));
            i = i + 1;
            assert(chars@ =~= text@.take(i as int));
        }
        assert(text@.take(n as int) =~= text@);
        Parser { text, chars }
    }

    /// What is left of the text from `pos` on.
    fn rest(&self, pos: usize) -> (r: &'a str)
        requires
            self.wf(),
            pos <= self.len(),
        ensures
            r@ == self.text@.subrange(pos as int, self.text@.len() as int),
            is_suffix(r@, self.text@),
    {
        self.text.substring_char(pos, self.chars.len())
    }

    /// The first position from `pos` on that holds no whitespace.
    fn skip_ws(&self, pos: usize) -> (r: usize)
        requires
            self.wf(),
            pos <= self.len(),
        ensures
            pos <= r <= self.len(),
            forall|k: int| pos <= k < r ==> is_ws(#[trigger] self.chars@[k]),
            r == self.len() || !is_ws(self.chars@[r as int]),
    {
        let mut p = pos;
        while p < self.chars.len() && is_space(self.chars[p])
            invariant
                pos <= p <= self.len(),
                forall|k: int| pos <= k < p ==> is_ws(#[trigger] self.chars@[k]),
            decreases self.len() - p,
        {
            p = p + 1;
        }
        p
    }

    /// Whether the text at `pos` starts with `lit`; the position after it.
    fn tag(&self, pos: usize, lit: &str) -> (r: Option<usize>)
        requires
            self.wf(),
            pos <= self.len(),
        ensures
            match r {
                Some(e) => e == pos + lit@.len() && e <= self.len() && self.chars@.subrange(pos as int, e as int) == lit@,
                None => !(pos + lit@.len() <= self.len() && self.chars@.subrange(pos as int, pos + lit@.len()) == lit@),
            },
    {
        let n = lit.unicode_len();
        if n > self.chars.len() - pos {
            return None;
        }
        let total = self.chars.len();
        let mut k: usize = 0;
        while k < n
            invariant
                total == self.len(),
                n == lit@.len(),
                pos + n <= self.len(),
                k <= n,
                forall|j: int| 0 <= j < k ==> self.chars@[pos + j] == lit@[j],
            decreases n - k,
        {
            if self.chars[pos + k] != lit.get_char(k) {
                assert(self.chars@.subrange(pos as int, pos + n)[k as int] != lit@[k as int]);
                return None;
            }
            k = k + 1;
        }
        assert(self.chars@.subrange(pos as int, pos + n) =~= lit@);
        Some(pos + n)
    }

    /// `lit` after optional whitespace.
    fn tag_ws(&self, pos: usize, lit: &str) -> (r: Option<usize>)
        requires
            self.wf(),
            pos <= self.len(),
        ensures
            r matches Some(e) ==> pos < e + 1 && e <= self.len() && (lit@.len() > 0 ==> pos < e),
    {
        let p = self.skip_ws(pos);
        self.tag(p, lit)
    }

    /// `c` after optional whitespace.
    fn char_ws(&self, pos: usize, c: char) -> (r: Option<usize>)
        requires
            self.wf(),
            pos <= self.len(),
        ensures
            match r {
                Some(e) => pos < e <= self.len() && self.chars@[e - 1] == c,
                None => true,
            },
    {
        let p = self.skip_ws(pos);
        if p < self.chars.len() && self.chars[p] == c {
            Some(p + 1)
        } else {
            None
        }
    }

    /// Whether the character at `pos` is `c`.
    fn at(&self, pos: usize, c: char) -> (r: bool)
        requires
            self.wf(),
        ensures
            r == (pos < self.len() && self.chars@[pos as int] == c),
    {
        pos < self.chars.len() && self.chars[pos] == c
    }

    /// A name at `pos`: the longest run of letters there, unless it is empty
    /// or a keyword.
    fn ident(&self, pos: usize) -> (r: Option<(usize, Identifier)>)
        requires
            self.wf(),
            pos <= self.len(),
        ensures
            match r {
                Some((e, id)) => {
                    &&& pos < e <= self.len()
                    &&& id.0@ == self.chars@.subrange(pos as int, e as int)
                    &&& forall|k: int| pos <= k < e ==> is_alpha(#[trigger] self.chars@[k])
                    &&& (e == self.len() || !is_alpha(self.chars@[e as int]))
                    &&& !is_keyword_spec(id.0@)
                },
                None => true,
            },
    {
        let mut e = pos;
        while e < self.chars.len() && is_letter(self.chars[e])
            invariant
                pos <= e <= self.len(),
                forall|k: int| pos <= k < e ==> is_alpha(#[trigger] self.chars@[k]),
            decreases self.len() - e,
        {
            e = e + 1;
        }
        if e == pos {
            return None;
        }
        let word = self.text.substring_char(pos, e);
        if is_keyword(word) {
            return None;
        }
        Some((e, Identifier(String::from_str(word))))
    }

    /// A name after optional whitespace.
    fn ident_ws(&self, pos: usize) -> (r: Option<(usize, Identifier)>)
        requires
            self.wf(),
            pos <= self.len(),
        ensures
            r matches Some((e, _)) ==> pos < e <= self.len(),
    {
        let p = self.skip_ws(pos);
        self.ident(p)
    }

    /// Names separated by commas, possibly none, after optional whitespace.
    fn ident_list(&self, pos: usize) -> (r: (usize, Vec<Identifier>))
        requires
            self.wf(),
            pos <= self.len(),
        ensures
            pos <= r.0 <= self.len(),
    {
        let mut list: Vec<Identifier> = Vec::new();
        let mut p = pos;
        match self.ident_ws(p) {
            Some((e, id)) => {
                list.push(id);
                p = e;
            },
            None => {
                return (pos, list);
            },
        }
        loop
            invariant
                pos <= p <= self.len(),
                self.wf(),
            decreases self.len() - p,
        {
            let q = match self.char_ws(p, ',') {
                Some(q) => q,
                None => {
                    break;
                },
            };
            match self.ident_ws(q) {
                Some((e, id)) => {
                    list.push(id);
                    p = e;
                },
                None => {
                    break;
                },
            }
        }
        (p, list)
    }

    /// Digits in base `radix` from `pos`: their end and value, or `None`
    /// where there is no digit or the value does not fit.
    fn digits(&self, pos: usize, radix: u32) -> (r: Option<(usize, i64)>)
        requires
            self.wf(),
            self.wf(),
            pos <= self.len(),
            2 <= radix <= 16,
        ensures
            match r {
                Some((e, v)) => {
                    &&& pos < e <= self.len()
                    &&& forall|k: int| pos <= k < e ==> digit_value(#[trigger] self.chars@[k]) < radix
                    &&& (e == self.len() || digit_value(self.chars@[e as int]) >= radix)
                    &&& v as int == digits_value(self.chars@.subrange(pos as int, e as int), radix as nat)
                },
                None => true,
            },
    {
        let mut e = pos;
        let mut v: i64 = 0;
        while e < self.chars.len() && digit_of(self.chars[e]) < radix
            invariant
                pos <= e <= self.len(),
                2 <= radix <= 16,
                forall|k: int| pos <= k < e ==> digit_value(#[trigger] self.chars@[k]) < radix,
                v >= 0,
                v as int == digits_value(self.chars@.subrange(pos as int, e as int), radix as nat),
            decreases self.len() - e,
        {
            let d = digit_of(self.chars[e]);
            let shifted = match v.checked_mul(radix as i64) {
                Some(x) => x,
                None => {
                    return None;
                },
            };
            let next = match shifted.checked_add(d as i64) {
                Some(x) => x,
                None => {
                    return None;
                },
            };
            proof {
                assert(self.chars@.subrange(pos as int, e + 1).drop_last() =~= self.chars@.subrange(pos as int, e as int));
                assert(v * radix >= 0) by (nonlinear_arith)
                    requires v >= 0, radix >= 2;
            }
            v = next;
            e = e + 1;
        }
        if e == pos {
            None
        } else {
            Some((e, v))
        }
    }
}

impl<'a> Parser<'a> {
    /// The word `word` after optional whitespace.
    fn keyword(&self, pos: usize, word: &str) -> (r: Option<usize>)
        requires
            self.wf(),
            pos <= self.len(),
            word@.len() > 0,
        ensures
            r matches Some(e) ==> pos < e <= self.len(),
    {
        let p = self.skip_ws(pos);
        self.tag(p, word)
    }

    /// The two characters `a` then `b` after optional whitespace.
    fn op2(&self, pos: usize, a: char, b: char) -> (r: Option<usize>)
        requires
            self.wf(),
            pos <= self.len(),
        ensures
            r matches Some(e) ==> pos < e <= self.len(),
    {
        let p = self.skip_ws(pos);
        if self.at(p, a) && self.at(p + 1, b) {
            Some(p + 2)
        } else {
            None
        }
    }

    /// The character `a` after optional whitespace, where `not_next` does not
    /// follow it.
    fn op1(&self, pos: usize, a: char, not_next: Option<char>) -> (r: Option<usize>)
        requires
            self.wf(),
            pos <= self.len(),
        ensures
            r matches Some(e) ==> pos < e <= self.len(),
    {
        let p = self.skip_ws(pos);
        if !self.at(p, a) {
            return None;
        }
        match not_next {
            Some(c) => if self.at(p + 1, c) {
                None
            } else {
                Some(p + 1)
            },
            None => Some(p + 1),
        }
    }

    /// The operator of precedence level `level`, loosest first.
    fn operator(&self, level: usize, pos: usize) -> (r: Option<usize>)
        requires
            self.wf(),
            pos <= self.len(),
        ensures
            r matches Some(e) ==> pos < e <= self.len(),
    {
        match level {
            0 => self.op2(pos, '|', '|'),
            1 => self.op2(pos, '&', '&'),
            2 => self.op1(pos, '^', None),
            3 => self.op2(pos, '=', '='),
            4 => self.op2(pos, '!', '='),
            5 => self.op2(pos, '>', '='),
            6 => self.op2(pos, '<', '='),
            7 => self.op1(pos, '>', Some('=')),
            8 => self.op1(pos, '<', Some('=')),
            9 => self.op1(pos, '+', None),
            10 => self.op1(pos, '-', None),
            11 => self.op1(pos, '/', None),
            12 => self.op1(pos, '*', Some('*')),
            _ => self.op1(pos, '%', None),
        }
    }

    /// An assignment operator after optional whitespace.
    fn mutation(&self, pos: usize) -> (r: Option<(usize, MutationKind)>)
        requires
            self.wf(),
            pos <= self.len(),
        ensures
            r matches Some((e, _)) ==> pos < e <= self.len(),
    {
        if let Some(e) = self.op1(pos, '=', Some('=')) {
            return Some((e, MutationKind::Assign));
        }
        if let Some(e) = self.op2(pos, '+', '=') {
            return Some((e, MutationKind::AddAssign));
        }
        if let Some(e) = self.op2(pos, '-', '=') {
            return Some((e, MutationKind::SubtractAssign));
        }
        if let Some(e) = self.op2(pos, '%', '=') {
            return Some((e, MutationKind::ModAssign));
        }
        if let Some(e) = self.op2(pos, '*', '=') {
            return Some((e, MutationKind::MulAssign));
        }
        if let Some(e) = self.op2(pos, '/', '=') {
            return Some((e, MutationKind::DivAssign));
        }
        None
    }

    /// An expression: an assignment to a name, or a conditional expression.
    fn expr(&self, pos: usize) -> (r: Result<(usize, Expr), ParseError>)
        requires
            self.wf(),
            pos <= self.len(),
        ensures
            r matches Ok((e, _)) ==> pos < e <= self.len(),
        decreases self.len() - pos, 40nat,
    {
        if let Some((p, variable)) = self.ident_ws(pos) {
            if let Some((q, mutation)) = self.mutation(p) {
                let (e, assign) = self.expr(q)?;
                return Ok((e, Expr::Mutate { variable, mutation, assign: Box::new(assign) }));
            }
        }
        let p = self.skip_ws(pos);
        self.elvis(p)
    }

    /// `<cond> ? <expr> : <expr>`, or just the condition.
    fn elvis(&self, pos: usize) -> (r: Result<(usize, Expr), ParseError>)
        requires
            self.wf(),
            pos <= self.len(),
        ensures
            r matches Ok((e, _)) ==> pos < e <= self.len(),
        decreases self.len() - pos, 39nat,
    {
        let (p, condition) = self.binary(0, pos)?;
        if let Some(q) = self.char_ws(p, '?') {
            if let Ok((t, case_true)) = self.expr(q) {
                if let Some(u) = self.char_ws(t, ':') {
                    if let Ok((e, case_false)) = self.expr(u) {
                        return Ok((
                            e,
                            Expr::Elvis {
                                condition: Box::new(condition),
                                case_true: Box::new(case_true),
                                case_false: Box::new(case_false),
                            },
                        ));
                    }
                }
            }
        }
        Ok((p, condition))
    }

    /// Operands of precedence level `level` joined by its operator, left to
    /// right.
    fn binary(&self, level: usize, pos: usize) -> (r: Result<(usize, Expr), ParseError>)
        requires
            self.wf(),
            pos <= self.len(),
            level <= 13,
        ensures
            r matches Ok((e, _)) ==> pos < e <= self.len(),
        decreases self.len() - pos, 35 - level,
    {
        let (mut p, mut acc) = if level == 13 {
            self.sign(pos)?
        } else {
            self.binary(level + 1, pos)?
        };
        loop
            invariant
                self.wf(),
                pos < p <= self.len(),
                level <= 13,
            decreases self.len() - p,
        {
            let q = match self.operator(level, p) {
                Some(q) => q,
                None => {
                    break;
                },
            };
            let (e, rhs) = if level == 13 {
                self.sign(q)?
            } else {
                self.binary(level + 1, q)?
            };
            acc = combine(level, acc, rhs);
            p = e;
        }
        Ok((p, acc))
    }

    /// A value with an optional leading `-` or `!`.
    fn sign(&self, pos: usize) -> (r: Result<(usize, Expr), ParseError>)
        requires
            self.wf(),
            pos <= self.len(),
        ensures
            r matches Ok((e, _)) ==> pos < e <= self.len(),
        decreases self.len() - pos, 20nat,
    {
        if let Some(p) = self.char_ws(pos, '-') {
            let (e, x) = self.exponent(p)?;
            return Ok((e, Expr::Neg(Box::new(x))));
        }
        if let Some(p) = self.char_ws(pos, '!') {
            let (e, x) = self.exponent(p)?;
            return Ok((e, Expr::Not(Box::new(x))));
        }
        self.exponent(pos)
    }

    /// Values joined by `**`, left to right.
    fn exponent(&self, pos: usize) -> (r: Result<(usize, Expr), ParseError>)
        requires
            self.wf(),
            pos <= self.len(),
        ensures
            r matches Ok((e, _)) ==> pos < e <= self.len(),
        decreases self.len() - pos, 19nat,
    {
        let (mut p, mut acc) = self.value(pos)?;
        loop
            invariant
                self.wf(),
                pos < p <= self.len(),
            decreases self.len() - p,
        {
            let q = match self.op2(p, '*', '*') {
                Some(q) => q,
                None => {
                    break;
                },
            };
            let (e, rhs) = self.value(q)?;
            acc = Expr::Exponent(Box::new(acc), Box::new(rhs));
            p = e;
        }
        Ok((p, acc))
    }

    /// A name path, a parenthesised expression, or a literal.
    fn value(&self, pos: usize) -> (r: Result<(usize, Expr), ParseError>)
        requires
            self.wf(),
            pos <= self.len(),
        ensures
            r matches Ok((e, _)) ==> pos < e <= self.len(),
        decreases self.len() - pos, 18nat,
    {
        let p = self.skip_ws(pos);
        if let Ok(found) = self.ident_expr(p) {
            return Ok(found);
        }
        if self.at(p, '(') {
            if let Ok((q, inner)) = self.expr(p + 1) {
                if let Some(e) = self.char_ws(q, ')') {
                    return Ok((e, inner));
                }
            }
        }
        let (e, o) = self.object(p)?;
        Ok((e, Expr::Value(o)))
    }

    /// Names joined by `.`, then an optional call or index.
    fn ident_expr(&self, pos: usize) -> (r: Result<(usize, Expr), ParseError>)
        requires
            self.wf(),
            pos <= self.len(),
        ensures
            r matches Ok((e, _)) ==> pos < e <= self.len(),
        decreases self.len() - pos, 17nat,
    {
        let (mut p, first) = match self.ident_ws(pos) {
            Some(found) => found,
            None => {
                return Err(ParseError { position: pos });
            },
        };
        let mut path: Vec<Identifier> = Vec::new();
        path.push(first);
        loop
            invariant
                self.wf(),
                pos < p <= self.len(),
            decreases self.len() - p,
        {
            let q = match self.char_ws(p, '.') {
                Some(q) => q,
                None => {
                    break;
                },
            };
            match self.ident_ws(q) {
                Some((e, id)) => {
                    path.push(id);
                    p = e;
                },
                None => {
                    return Err(ParseError { position: q });
                },
            }
        }
        match self.action(p) {
            Ok((e, action)) => Ok((e, Expr::Identifier { path, action: Some(action) })),
            Err(_) => Ok((p, Expr::Identifier { path, action: None })),
        }
    }

    /// `(<expr>, ...)` or `[<expr>]`.
    fn action(&self, pos: usize) -> (r: Result<(usize, Action), ParseError>)
        requires
            self.wf(),
            pos <= self.len(),
        ensures
            r matches Ok((e, _)) ==> pos < e <= self.len(),
        decreases self.len() - pos, 16nat,
    {
        if let Some(p) = self.char_ws(pos, '(') {
            let (e, arguments) = self.expr_list(p, ')')?;
            return Ok((e, Action::Call { arguments }));
        }
        if let Some(p) = self.char_ws(pos, '[') {
            let (q, index) = self.expr(p)?;
            return match self.char_ws(q, ']') {
                Some(e) => Ok((e, Action::Get { index: Box::new(index) })),
                None => Err(ParseError { position: q }),
            };
        }
        Err(ParseError { position: pos })
    }

    /// Expressions separated by commas, possibly none, then `close`.
    fn expr_list(&self, pos: usize, close: char) -> (r: Result<(usize, Vec<Expr>), ParseError>)
        requires
            self.wf(),
            0 < pos <= self.len(),
        ensures
            r matches Ok((e, _)) ==> pos < e <= self.len(),
        decreases self.len() - pos, 41nat,
    {
        let mut list: Vec<Expr> = Vec::new();
        if let Some(e) = self.char_ws(pos, close) {
            return Ok((e, list));
        }
        let (mut p, first) = self.expr(pos)?;
        list.push(first);
        loop
            invariant
                self.wf(),
                pos <= p <= self.len(),
            decreases self.len() - p,
        {
            let q = match self.char_ws(p, ',') {
                Some(q) => q,
                None => {
                    break;
                },
            };
            let (e, x) = self.expr(q)?;
            list.push(x);
            p = e;
        }
        match self.char_ws(p, close) {
            Some(e) => Ok((e, list)),
            None => Err(ParseError { position: p }),
        }
    }

    /// A literal: a boolean, a number, a string, an array, a map or a
    /// closure.
    fn object(&self, pos: usize) -> (r: Result<(usize, Object), ParseError>)
        requires
            self.wf(),
            pos <= self.len(),
        ensures
            r matches Ok((e, _)) ==> pos < e <= self.len(),
        decreases self.len() - pos, 14nat,
    {
        let p = self.skip_ws(pos);
        proof {
            reveal_strlit("true");
            reveal_strlit("false");
        }
        if let Some(e) = self.tag(p, "true") {
            return Ok((e, Object::Boolean(true)));
        }
        if let Some(e) = self.tag(p, "false") {
            return Ok((e, Object::Boolean(false)));
        }
        if let Some((e, n)) = self.number(p) {
            return Ok((e, Object::Number(n)));
        }
        if let Some((e, s)) = self.string(p) {
            return Ok((e, Object::String(s)));
        }
        if self.at(p, '[') {
            let (e, items) = self.expr_list(p + 1, ']')?;
            return Ok((e, Object::Array(items)));
        }
        if let Ok(found) = self.map_literal(p) {
            return Ok(found);
        }
        self.closure(p)
    }

    /// `{ <name>: <expr>, ... }`.
    fn map_literal(&self, pos: usize) -> (r: Result<(usize, Object), ParseError>)
        requires
            self.wf(),
            pos <= self.len(),
        ensures
            r matches Ok((e, _)) ==> pos < e <= self.len(),
        decreases self.len() - pos, 13nat,
    {
        match self.char_ws(pos, '{') {
            Some(p) => {
                let (e, entries) = self.entries(p)?;
                Ok((e, Object::Dict(entries)))
            },
            None => Err(ParseError { position: pos }),
        }
    }

    /// `(<names>) => <body>`.
    fn closure(&self, pos: usize) -> (r: Result<(usize, Object), ParseError>)
        requires
            self.wf(),
            pos <= self.len(),
        ensures
            r matches Ok((e, _)) ==> pos < e <= self.len(),
        decreases self.len() - pos, 13nat,
    {
        if self.at(pos, '(') {
            let (q, args) = self.ident_list(pos + 1);
            if let Some(u) = self.char_ws(q, ')') {
                if let Some(v) = self.op2(u, '=', '>') {
                    let (e, body) = self.single_statement_body(v)?;
                    return Ok((e, Object::Closure { args, body }));
                }
            }
        }
        Err(ParseError { position: pos })
    }

    /// `<name>: <expr>` pairs separated by commas, possibly none, then `}`.
    fn entries(&self, pos: usize) -> (r: Result<(usize, Vec<(Identifier, Expr)>), ParseError>)
        requires
            self.wf(),
            0 < pos <= self.len(),
        ensures
            r matches Ok((e, _)) ==> pos < e <= self.len(),
        decreases self.len() - pos, 12nat,
    {
        let mut list: Vec<(Identifier, Expr)> = Vec::new();
        let mut p = pos;
        let mut first = true;
        loop
            invariant
                self.wf(),
                pos <= p <= self.len(),
                first ==> p == pos,
            decreases self.len() - p, if first { 1nat } else { 0nat },
        {
            if let Some(e) = self.char_ws(p, '}') {
                return Ok((e, list));
            }
            let q = if first {
                p
            } else {
                match self.char_ws(p, ',') {
                    Some(q) => q,
                    None => {
                        return Err(ParseError { position: p });
                    },
                }
            };
            let (k, key) = match self.ident_ws(q) {
                Some(found) => found,
                None => {
                    return Err(ParseError { position: q });
                },
            };
            let c = match self.char_ws(k, ':') {
                Some(c) => c,
                None => {
                    return Err(ParseError { position: k });
                },
            };
            let (e, value) = self.expr(c)?;
            list.push((key, value));
            p = e;
            first = false;
        }
    }

    /// A number literal: decimal, or with a `0x`, `0o` or `0b` prefix.
    fn number(&self, pos: usize) -> (r: Option<(usize, i64)>)
        requires
            self.wf(),
            pos <= self.len(),
        ensures
            r matches Some((e, v)) ==> pos < e <= self.len() && denotes_number(self.chars@.subrange(pos as int, e as int), v as int),
    {
        if self.at(pos, '0') {
            let radix: u32 = if self.at(pos + 1, 'x') {
                16
            } else if self.at(pos + 1, 'o') {
                8
            } else if self.at(pos + 1, 'b') {
                2
            } else {
                0
            };
            if radix != 0 {
                if let Some((e, v)) = self.digits(pos + 2, radix) {
                    let ghost lit = self.chars@.subrange(pos as int, e as int);
                    assert(lit.subrange(2, lit.len() as int) =~= self.chars@.subrange(pos + 2, e as int));
                    assert(lit[1] == self.chars@[pos + 1]);
                    return Some((e, v));
                }
            }
        }
        self.digits(pos, 10)
    }

    /// `"..."`: the characters up to the next `"`.
    fn string(&self, pos: usize) -> (r: Option<(usize, StringTemplate)>)
        requires
            self.wf(),
            pos <= self.len(),
        ensures
            match r {
                Some((e, s)) => {
                    &&& pos + 2 <= e <= self.len()
                    &&& self.chars@[pos as int] == '"'
                    &&& self.chars@[e - 1] == '"'
                    &&& s.start@ == self.chars@.subrange(pos + 1, e - 1)
                    &&& !s.start@.contains('"')
                },
                None => true,
            },
    {
        if !self.at(pos, '"') {
            return None;
        }
        let mut e = pos + 1;
        while e < self.chars.len() && self.chars[e] != '"'
            invariant
                pos < e <= self.len(),
                forall|k: int| pos < k < e ==> self.chars@[k] != '"',
            decreases self.len() - e,
        {
            e = e + 1;
        }
        if e == self.chars.len() {
            return None;
        }
        let start = String::from_str(self.text.substring_char(pos + 1, e));
        proof {
            if start@.contains('"') {
                let k = choose|k: int| 0 <= k < start@.len() && start@[k] == '"';
                assert(self.chars@[pos + 1 + k] == '"');
            }
        }
        Some((e + 1, StringTemplate { start }))
    }

    /// A statement, or a body in braces.
    fn single_statement_body(&self, pos: usize) -> (r: Result<(usize, FunctionBody), ParseError>)
        requires
            self.wf(),
            pos <= self.len(),
        ensures
            r matches Ok((e, _)) ==> pos < e <= self.len(),
        decreases self.len() - pos, 51nat,
    {
        if let Ok((e, s)) = self.statement(pos) {
            let mut instructions: Vec<Statement> = Vec::new();
            instructions.push(s);
            return Ok((e, FunctionBody { scope: Vec::new(), functions: Vec::new(), instructions }));
        }
        self.braced_body(pos)
    }

    /// `{ <body> }`.
    fn braced_body(&self, pos: usize) -> (r: Result<(usize, FunctionBody), ParseError>)
        requires
            self.wf(),
            pos <= self.len(),
        ensures
            r matches Ok((e, _)) ==> pos < e <= self.len(),
        decreases self.len() - pos, 50nat,
    {
        let p = match self.char_ws(pos, '{') {
            Some(p) => p,
            None => {
                return Err(ParseError { position: pos });
            },
        };
        let (q, body) = self.body(p);
        match self.char_ws(q, '}') {
            Some(e) => Ok((e, body)),
            None => Err(ParseError { position: q }),
        }
    }

    /// A statement: `if`, `return`, `while`, `for`, `break`, `continue`, or
    /// an expression.
    fn statement(&self, pos: usize) -> (r: Result<(usize, Statement), ParseError>)
        requires
            self.wf(),
            pos <= self.len(),
        ensures
            r matches Ok((e, _)) ==> pos < e <= self.len(),
        decreases self.len() - pos, 45nat,
    {
        proof {
            reveal_strlit("for");
            reveal_strlit("break");
            reveal_strlit("continue");
        }
        if let Ok(found) = self.if_block(pos) {
            return Ok(found);
        }
        if let Ok(found) = self.return_statement(pos) {
            return Ok(found);
        }
        if let Ok(found) = self.while_loop(pos) {
            return Ok(found);
        }
        if let Some(p) = self.keyword(pos, "for") {
            let (e, for_loop) = self.for_loop(p)?;
            return Ok((e, Statement::For(for_loop)));
        }
        if let Some(e) = self.keyword(pos, "break") {
            return Ok((e, Statement::Break));
        }
        if let Some(e) = self.keyword(pos, "continue") {
            return Ok((e, Statement::Continue));
        }
        let (e, x) = self.expr(pos)?;
        Ok((e, Statement::Expression(Box::new(x))))
    }

    /// `if (<expr>) <body>`, optionally followed by `else <body>`.
    fn if_block(&self, pos: usize) -> (r: Result<(usize, Statement), ParseError>)
        requires
            self.wf(),
            pos <= self.len(),
        ensures
            r matches Ok((e, _)) ==> pos < e <= self.len(),
        decreases self.len() - pos, 44nat,
    {
        proof {
            reveal_strlit("if");
            reveal_strlit("else");
        }
        let p = match self.keyword(pos, "if") {
            Some(p) => p,
            None => {
                return Err(ParseError { position: pos });
            },
        };
        let (q, condition) = self.condition(p)?;
        let (t, body) = self.single_statement_body(q)?;
        if let Some(u) = self.keyword(t, "else") {
            let (e, else_body) = self.single_statement_body(u)?;
            return Ok((e, Statement::If { condition: Box::new(condition), body, else_branch: Some(else_body) }));
        }
        Ok((t, Statement::If { condition: Box::new(condition), body, else_branch: None }))
    }

    /// `return`, optionally followed by an expression.
    fn return_statement(&self, pos: usize) -> (r: Result<(usize, Statement), ParseError>)
        requires
            self.wf(),
            pos <= self.len(),
        ensures
            r matches Ok((e, _)) ==> pos < e <= self.len(),
        decreases self.len() - pos, 44nat,
    {
        proof {
            reveal_strlit("return");
        }
        let p = match self.keyword(pos, "return") {
            Some(p) => p,
            None => {
                return Err(ParseError { position: pos });
            },
        };
        match self.expr(p) {
            Ok((e, x)) => Ok((e, Statement::Return(Some(Box::new(x))))),
            Err(_) => Ok((p, Statement::Return(None))),
        }
    }

    /// `while (<expr>) <body>`.
    fn while_loop(&self, pos: usize) -> (r: Result<(usize, Statement), ParseError>)
        requires
            self.wf(),
            pos <= self.len(),
        ensures
            r matches Ok((e, _)) ==> pos < e <= self.len(),
        decreases self.len() - pos, 44nat,
    {
        proof {
            reveal_strlit("while");
        }
        let p = match self.keyword(pos, "while") {
            Some(p) => p,
            None => {
                return Err(ParseError { position: pos });
            },
        };
        let (q, condition) = self.condition(p)?;
        let (e, body) = self.single_statement_body(q)?;
        Ok((e, Statement::While { condition: Box::new(condition), body }))
    }

    /// `( <expr> )`.
    fn condition(&self, pos: usize) -> (r: Result<(usize, Expr), ParseError>)
        requires
            self.wf(),
            0 < pos <= self.len(),
        ensures
            r matches Ok((e, _)) ==> pos < e <= self.len(),
        decreases self.len() - pos, 44nat,
    {
        let p = match self.char_ws(pos, '(') {
            Some(p) => p,
            None => {
                return Err(ParseError { position: pos });
            },
        };
        let (q, x) = self.expr(p)?;
        match self.char_ws(q, ')') {
            Some(e) => Ok((e, x)),
            None => Err(ParseError { position: q }),
        }
    }

    /// `( let ...; <expr>; <expr> ) <body>`, after `for`.
    fn for_loop(&self, pos: usize) -> (r: Result<(usize, ForLoop), ParseError>)
        requires
            self.wf(),
            0 < pos <= self.len(),
        ensures
            r matches Ok((e, _)) ==> pos < e <= self.len(),
        decreases self.len() - pos, 44nat,
    {
        let p = match self.char_ws(pos, '(') {
            Some(p) => p,
            None => {
                return Err(ParseError { position: pos });
            },
        };
        let (q, condition) = self.c_style(p)?;
        let u = match self.char_ws(q, ')') {
            Some(u) => u,
            None => {
                return Err(ParseError { position: q });
            },
        };
        let (e, body) = self.single_statement_body(u)?;
        Ok((e, ForLoop { condition, body }))
    }

    /// `let ...; <expr>; <expr>`.
    fn c_style(&self, pos: usize) -> (r: Result<(usize, ForLoopCondition), ParseError>)
        requires
            self.wf(),
            pos <= self.len(),
        ensures
            r matches Ok((e, _)) ==> pos < e <= self.len(),
        decreases self.len() - pos, 44nat,
    {
        let (q, prerequisite) = self.variable(pos)?;
        let q = match self.char_ws(q, ';') {
            Some(q) => q,
            None => {
                return Err(ParseError { position: q });
            },
        };
        let (t, condition) = self.expr(q)?;
        let t = match self.char_ws(t, ';') {
            Some(t) => t,
            None => {
                return Err(ParseError { position: t });
            },
        };
        let (u, mutation) = self.expr(t)?;
        Ok((u, ForLoopCondition::CStyle { prerequisite, condition: Box::new(condition), mutation: Box::new(mutation) }))
    }

    /// `let <name>`, optionally followed by `= <expr>`.
    fn variable(&self, pos: usize) -> (r: Result<(usize, Variable), ParseError>)
        requires
            self.wf(),
            pos <= self.len(),
        ensures
            r matches Ok((e, _)) ==> pos < e <= self.len(),
        decreases self.len() - pos, 43nat,
    {
        proof {
            reveal_strlit("let");
        }
        let p = match self.keyword(pos, "let") {
            Some(p) => p,
            None => {
                return Err(ParseError { position: pos });
            },
        };
        let (q, identifier) = match self.ident_ws(p) {
            Some(found) => found,
            None => {
                return Err(ParseError { position: p });
            },
        };
        if let Some(t) = self.op1(q, '=', Some('=')) {
            if let Ok((e, x)) = self.expr(t) {
                return Ok((e, Variable { identifier, assign: Some(Box::new(x)) }));
            }
        }
        Ok((q, Variable { identifier, assign: None }))
    }

    /// `function <name>(<names>) { <body> }`.
    fn function(&self, pos: usize) -> (r: Result<(usize, Function), ParseError>)
        requires
            self.wf(),
            pos <= self.len(),
        ensures
            r matches Ok((e, _)) ==> pos < e <= self.len(),
        decreases self.len() - pos, 46nat,
    {
        proof {
            reveal_strlit("function");
        }
        let p = match self.keyword(pos, "function") {
            Some(p) => p,
            None => {
                return Err(ParseError { position: pos });
            },
        };
        let (q, identifier) = match self.ident_ws(p) {
            Some(found) => found,
            None => {
                return Err(ParseError { position: p });
            },
        };
        let q = match self.char_ws(q, '(') {
            Some(q) => q,
            None => {
                return Err(ParseError { position: q });
            },
        };
        let (t, arguments) = self.ident_list(q);
        let t = match self.char_ws(t, ')') {
            Some(t) => t,
            None => {
                return Err(ParseError { position: t });
            },
        };
        let (e, body) = self.braced_body(t)?;
        Ok((e, Function { identifier, arguments, body }))
    }

    /// Variable definitions, functions and statements, as many as follow.
    fn body(&self, pos: usize) -> (r: (usize, FunctionBody))
        requires
            self.wf(),
            pos <= self.len(),
        ensures
            pos <= r.0 <= self.len(),
        decreases self.len() - pos, 60nat,
    {
        let mut body = FunctionBody { scope: Vec::new(), functions: Vec::new(), instructions: Vec::new() };
        let mut p = pos;
        loop
            invariant
                self.wf(),
                pos <= p <= self.len(),
            decreases self.len() - p,
        {
            if let Ok((e, v)) = self.variable(p) {
                body.scope.push(v);
                p = e;
            } else if let Ok((e, f)) = self.function(p) {
                body.functions.push(f);
                p = e;
            } else if let Ok((e, s)) = self.statement(p) {
                body.instructions.push(s);
                p = e;
            } else {
                break;
            }
        }
        (p, body)
    }
}

/// Two operands joined by the operator of precedence level `level`.
fn combine(level: usize, l: Expr, r: Expr) -> Expr {
    let l = Box::new(l);
    let r = Box::new(r);
    match level {
        0 => Expr::Or(l, r),
        1 => Expr::And(l, r),
        2 => Expr::Xor(l, r),
        3 => Expr::Equal(l, r),
        4 => Expr::NotEqual(l, r),
        5 => Expr::GreaterEq(l, r),
        6 => Expr::SmallerEq(l, r),
        7 => Expr::Greater(l, r),
        8 => Expr::Smaller(l, r),
        9 => Expr::Add(l, r),
        10 => Expr::Sub(l, r),
        11 => Expr::Div(l, r),
        12 => Expr::Mul(l, r),
        _ => Expr::Mod(l, r),
    }
}

// ---------------------------------------------------------------- entry points

/// Parses a program: as many definitions and statements as follow, and the
/// text after them.
pub fn parse(source_code: &str) -> (r: Result<(&str, FunctionBody), ParseError>)
    ensures
        r matches Ok((rest, _)) && is_suffix(rest@, source_code@),
{
    FunctionBody::parse(source_code)
}

impl FunctionBody {
    /// As many definitions and statements as follow; this never fails.
    pub fn parse(input: &str) -> (r: Result<(&str, FunctionBody), ParseError>)
        ensures
            r matches Ok((rest, _)) && is_suffix(rest@, input@),
    {
        let p = Parser::new(input);
        let (e, body) = p.body(0);
        Ok((p.rest(e), body))
    }
}

impl Identifier {
    /// A name: the longest run of ASCII letters at the start of `input`,
    /// unless that run is empty or a keyword.
    pub fn parse(input: &str) -> (r: Result<(&str, Identifier), ParseError>)
        ensures
            match r {
                Ok((rest, id)) => {
                    &&& input@ == id.0@ + rest@
                    &&& id.0@.len() > 0
                    &&& forall|k: int| 0 <= k < id.0@.len() ==> is_alpha(#[trigger] id.0@[k])
                    &&& (rest@.len() == 0 || !is_alpha(rest@[0]))
                    &&& !is_keyword_spec(id.0@)
                },
                Err(_) => true,
            },
    {
        let p = Parser::new(input);
        match p.ident(0) {
            Some((e, id)) => {
                let rest = p.rest(e);
                assert(input@ =~= id.0@ + rest@);
                Ok((rest, id))
            },
            None => Err(ParseError { position: 0 }),
        }
    }

    /// A name after optional whitespace.
    pub fn parse_ws(input: &str) -> (r: Result<(&str, Identifier), ParseError>)
        ensures
            r matches Ok((rest, _)) ==> is_suffix(rest@, input@) && rest@.len() < input@.len(),
    {
        let p = Parser::new(input);
        match p.ident_ws(0) {
            Some((e, id)) => Ok((p.rest(e), id)),
            None => Err(ParseError { position: 0 }),
        }
    }
}

impl StringTemplate {
    /// A string literal after optional whitespace: the characters between
    /// two double quotes.
    pub fn parse(input: &str) -> (r: Result<(&str, StringTemplate), ParseError>)
        ensures
            r matches Ok((rest, t)) ==> {
                let lead = input@.len() - rest@.len() - t.start@.len() - 2;
                &&& lead >= 0
                &&& is_suffix(rest@, input@)
                &&& input@ == input@.take(lead) + seq!['"'] + t.start@ + seq!['"'] + rest@
                &&& forall|k: int| 0 <= k < lead ==> is_ws(#[trigger] input@[k])
                &&& !t.start@.contains('"')
            },
    {
        let p = Parser::new(input);
        let start = p.skip_ws(0);
        match p.string(start) {
            Some((e, t)) => {
                let rest = p.rest(e);
                assert(input@ =~= input@.take(start as int) + seq!['"'] + t.start@ + seq!['"'] + rest@);
                Ok((rest, t))
            },
            None => Err(ParseError { position: start }),
        }
    }
}

impl ForLoop {
    /// A `for` loop.
    pub fn parse(input: &str) -> (r: Result<(&str, ForLoop), ParseError>)
        ensures
            r matches Ok((rest, _)) ==> is_suffix(rest@, input@) && rest@.len() < input@.len(),
    {
        let p = Parser::new(input);
        proof {
            reveal_strlit("for");
        }
        match p.keyword(0, "for") {
            Some(q) => match p.for_loop(q) {
                Ok((e, x)) => Ok((p.rest(e), x)),
                Err(err) => Err(err),
            },
            None => Err(ParseError { position: 0 }),
        }
    }
}

impl Object {
    /// A number literal: decimal, or with a `0x`, `0o` or `0b` prefix.
    pub fn parse_number(input: &str) -> (r: Result<(&str, Object), ParseError>)
        ensures
            match r {
                Ok((rest, Object::Number(n))) => is_suffix(rest@, input@)
                    && denotes_number(input@.take(input@.len() - rest@.len()), n as int),
                Ok(_) => false,
                Err(_) => true,
            },
    {
        let p = Parser::new(input);
        match p.number(0) {
            Some((e, n)) => {
                let rest = p.rest(e);
                assert(input@.take(input@.len() - rest@.len()) =~= p.chars@.subrange(0, e as int));
                Ok((rest, Object::Number(n)))
            },
            None => Err(ParseError { position: 0 }),
        }
    }

    /// A string literal.
    pub fn parse_string(input: &str) -> (r: Result<(&str, Object), ParseError>)
        ensures
            r matches Ok((rest, _)) ==> is_suffix(rest@, input@) && rest@.len() < input@.len(),
    {
        match StringTemplate::parse(input) {
            Ok((rest, t)) => Ok((rest, Object::String(t))),
            Err(err) => Err(err),
        }
    }

    /// This literal as an expression.
    pub fn as_expr(self) -> (r: Expr)
        ensures
            r == Expr::Value(self),
    {
        Expr::Value(self)
    }
}

impl Expr {
    /// An expression after optional whitespace.
    pub fn parse(input: &str) -> (r: Result<(&str, Expr), ParseError>)
        ensures
            r matches Ok((rest, _)) ==> is_suffix(rest@, input@) && rest@.len() < input@.len(),
    {
        let p = Parser::new(input);
        match p.expr(0) {
            Ok((e, x)) => Ok((p.rest(e), x)),
            Err(err) => Err(err),
        }
    }

    /// A conditional expression.
    pub fn elvis(input: &str) -> (r: Result<(&str, Expr), ParseError>)
        ensures
            r matches Ok((rest, _)) ==> is_suffix(rest@, input@) && rest@.len() < input@.len(),
    {
        let p = Parser::new(input);
        match p.elvis(0) {
            Ok((e, x)) => Ok((p.rest(e), x)),
            Err(err) => Err(err),
        }
    }

    /// A value with an optional leading `-` or `!`.
    pub fn preceding_sign(input: &str) -> (r: Result<(&str, Expr), ParseError>)
        ensures
            r matches Ok((rest, _)) ==> is_suffix(rest@, input@) && rest@.len() < input@.len(),
    {
        let p = Parser::new(input);
        match p.sign(0) {
            Ok((e, x)) => Ok((p.rest(e), x)),
            Err(err) => Err(err),
        }
    }

    /// Values joined by `**`.
    pub fn exponent(input: &str) -> (r: Result<(&str, Expr), ParseError>)
        ensures
            r matches Ok((rest, _)) ==> is_suffix(rest@, input@) && rest@.len() < input@.len(),
    {
        let p = Parser::new(input);
        match p.exponent(0) {
            Ok((e, x)) => Ok((p.rest(e), x)),
            Err(err) => Err(err),
        }
    }

    /// A name path, a parenthesised expression or a literal.
    pub fn value(input: &str) -> (r: Result<(&str, Expr), ParseError>)
        ensures
            r matches Ok((rest, _)) ==> is_suffix(rest@, input@) && rest@.len() < input@.len(),
    {
        let p = Parser::new(input);
        match p.value(0) {
            Ok((e, x)) => Ok((p.rest(e), x)),
            Err(err) => Err(err),
        }
    }

    /// Names joined by `.`, with an optional call or index.
    pub fn ident(input: &str) -> (r: Result<(&str, Expr), ParseError>)
        ensures
            r matches Ok((rest, _)) ==> is_suffix(rest@, input@) && rest@.len() < input@.len(),
    {
        let p = Parser::new(input);
        match p.ident_expr(0) {
            Ok((e, x)) => Ok((p.rest(e), x)),
            Err(err) => Err(err),
        }
    }
}

impl Object {
    /// A literal after optional whitespace.
    pub fn parse(input: &str) -> (r: Result<(&str, Object), ParseError>)
        ensures
            r matches Ok((rest, _)) ==> is_suffix(rest@, input@) && rest@.len() < input@.len(),
    {
        let p = Parser::new(input);
        match p.object(0) {
            Ok((e, x)) => Ok((p.rest(e), x)),
            Err(err) => Err(err),
        }
    }

    /// A map literal.
    pub fn parse_map(input: &str) -> (r: Result<(&str, Object), ParseError>)
        ensures
            r matches Ok((rest, _)) ==> is_suffix(rest@, input@) && rest@.len() < input@.len(),
    {
        let p = Parser::new(input);
        match p.map_literal(0) {
            Ok((e, x)) => Ok((p.rest(e), x)),
            Err(err) => Err(err),
        }
    }

    /// A closure literal.
    pub fn parse_closure(input: &str) -> (r: Result<(&str, Object), ParseError>)
        ensures
            r matches Ok((rest, _)) ==> is_suffix(rest@, input@) && rest@.len() < input@.len(),
    {
        let p = Parser::new(input);
        match p.closure(0) {
            Ok((e, x)) => Ok((p.rest(e), x)),
            Err(err) => Err(err),
        }
    }
}

impl Statement {
    /// The word `break`.
    pub fn parse_break(input: &str) -> (r: Result<(&str, Statement), ParseError>)
        ensures
            r matches Ok((rest, _)) ==> is_suffix(rest@, input@) && rest@.len() < input@.len(),
    {
        let p = Parser::new(input);
        proof {
            reveal_strlit("break");
        }
        match p.keyword(0, "break") {
            Some(e) => Ok((p.rest(e), Statement::Break)),
            None => Err(ParseError { position: 0 }),
        }
    }

    /// The word `continue`.
    pub fn parse_continue(input: &str) -> (r: Result<(&str, Statement), ParseError>)
        ensures
            r matches Ok((rest, _)) ==> is_suffix(rest@, input@) && rest@.len() < input@.len(),
    {
        let p = Parser::new(input);
        proof {
            reveal_strlit("continue");
        }
        match p.keyword(0, "continue") {
            Some(e) => Ok((p.rest(e), Statement::Continue)),
            None => Err(ParseError { position: 0 }),
        }
    }

    /// A statement.
    pub fn parse(input: &str) -> (r: Result<(&str, Statement), ParseError>)
        ensures
            r matches Ok((rest, _)) ==> is_suffix(rest@, input@) && rest@.len() < input@.len(),
    {
        let p = Parser::new(input);
        match p.statement(0) {
            Ok((e, x)) => Ok((p.rest(e), x)),
            Err(err) => Err(err),
        }
    }

    /// An `if` statement.
    pub fn parse_if_block(input: &str) -> (r: Result<(&str, Statement), ParseError>)
        ensures
            r matches Ok((rest, _)) ==> is_suffix(rest@, input@) && rest@.len() < input@.len(),
    {
        let p = Parser::new(input);
        match p.if_block(0) {
            Ok((e, x)) => Ok((p.rest(e), x)),
            Err(err) => Err(err),
        }
    }

    /// A `while` loop.
    pub fn parse_while(input: &str) -> (r: Result<(&str, Statement), ParseError>)
        ensures
            r matches Ok((rest, _)) ==> is_suffix(rest@, input@) && rest@.len() < input@.len(),
    {
        let p = Parser::new(input);
        match p.while_loop(0) {
            Ok((e, x)) => Ok((p.rest(e), x)),
            Err(err) => Err(err),
        }
    }

    /// A `return` statement.
    pub fn parse_return(input: &str) -> (r: Result<(&str, Statement), ParseError>)
        ensures
            r matches Ok((rest, _)) ==> is_suffix(rest@, input@) && rest@.len() < input@.len(),
    {
        let p = Parser::new(input);
        match p.return_statement(0) {
            Ok((e, x)) => Ok((p.rest(e), x)),
            Err(err) => Err(err),
        }
    }

    /// A statement, or a body in braces.
    pub fn single_statement_body(input: &str) -> (r: Result<(&str, FunctionBody), ParseError>)
        ensures
            r matches Ok((rest, _)) ==> is_suffix(rest@, input@) && rest@.len() < input@.len(),
    {
        let p = Parser::new(input);
        match p.single_statement_body(0) {
            Ok((e, x)) => Ok((p.rest(e), x)),
            Err(err) => Err(err),
        }
    }
}

impl Variable {
    /// A variable definition.
    pub fn parse(input: &str) -> (r: Result<(&str, Variable), ParseError>)
        ensures
            r matches Ok((rest, _)) ==> is_suffix(rest@, input@) && rest@.len() < input@.len(),
    {
        let p = Parser::new(input);
        match p.variable(0) {
            Ok((e, x)) => Ok((p.rest(e), x)),
            Err(err) => Err(err),
        }
    }
}

impl Function {
    /// A function definition.
    pub fn parse(input: &str) -> (r: Result<(&str, Function), ParseError>)
        ensures
            r matches Ok((rest, _)) ==> is_suffix(rest@, input@) && rest@.len() < input@.len(),
    {
        let p = Parser::new(input);
        match p.function(0) {
            Ok((e, x)) => Ok((p.rest(e), x)),
            Err(err) => Err(err),
        }
    }
}

impl ForLoopCondition {
    /// The head of a C-style `for` loop.
    pub fn parse_c_style(input: &str) -> (r: Result<(&str, ForLoopCondition), ParseError>)
        ensures
            r matches Ok((rest, _)) ==> is_suffix(rest@, input@) && rest@.len() < input@.len(),
    {
        let p = Parser::new(input);
        match p.c_style(0) {
            Ok((e, x)) => Ok((p.rest(e), x)),
            Err(err) => Err(err),
        }
    }
}

fn is_space(c: char) -> (r: bool)
    ensures
        r == is_ws(c),
{
    c == ' ' || c == '\n' || c == '\r' || c == '\t'
}

fn is_letter(c: char) -> (r: bool)
    ensures
        r == is_alpha(c),
{
    ('a' <= c && c <= 'z') || ('A' <= c && c <= 'Z')
}

fn digit_of(c: char) -> (r: u32)
    ensures
        r as nat == digit_value(c),
{
    if '0' <= c && c <= '9' {
        (c as u32) - ('0' as u32)
    } else if 'a' <= c && c <= 'f' {
        (c as u32) - ('a' as u32) + 10
    } else if 'A' <= c && c <= 'F' {
        (c as u32) - ('A' as u32) + 10
    } else {
        16
    }
}

} // verus!
