//! Values and heap objects, their coercions, and the operators on them.
//!
//! Numbers are 64-bit integers. Type mismatches, division by zero and
//! results that do not fit give `Undefined`; nothing here fails.

use vstd::prelude::*;

use crate::arena::Arena;

verus! {

/// Address of an instruction in the instruction stream.
pub type InstructionAddress = usize;

/// A scalar that lives on the machine's stack.
///
/// Numbers are 64-bit integers: an operation whose exact result does not fit
/// yields `Undefined`.
#[derive(Debug, Clone, PartialEq)]
pub enum Value {
    Undefined,
    Null,
    Boolean(bool),
    String(String),
    Number(i64),
    Reference(usize),
    FunctionPointer(InstructionAddress),
}

/// The mathematical content of a [`Value`], with text as a sequence of
/// characters.
pub enum ValueView {
    Undefined,
    Null,
    Boolean(bool),
    String(Seq<char>),
    Number(i64),
    Reference(usize),
    FunctionPointer(usize),
}

impl View for Value {
    type V = ValueView;

    open spec fn view(&self) -> ValueView {
        match self {
            Value::Undefined => ValueView::Undefined,
            Value::Null => ValueView::Null,
            Value::Boolean(b) => ValueView::Boolean(*b),
            Value::String(s) => ValueView::String(s@),
            Value::Number(n) => ValueView::Number(*n),
            Value::Reference(i) => ValueView::Reference(*i),
            Value::FunctionPointer(a) => ValueView::FunctionPointer(*a),
        }
    }
}

/// A compound value that lives in the arena.
#[derive(Debug)]
pub enum Object {
    Array(Vec<Value>),
    /// Entries from string keys to values; a later entry hides an earlier one
    /// with the same key.
    Dict(Vec<(String, Value)>),
    /// A function with the values it captured when it was made.
    Closure { environment: Vec<Value>, function_pointer: InstructionAddress },
}

pub enum ObjectView {
    Array(Seq<ValueView>),
    Dict(Seq<(Seq<char>, ValueView)>),
    Closure { environment: Seq<ValueView>, function_pointer: usize },
}

pub open spec fn values_view(s: Seq<Value>) -> Seq<ValueView> {
    s.map_values(|v: Value| v@)
}

pub open spec fn entries_view(s: Seq<(String, Value)>) -> Seq<(Seq<char>, ValueView)> {
    s.map_values(|e: (String, Value)| (e.0@, e.1@))
}

impl View for Object {
    type V = ObjectView;

    open spec fn view(&self) -> ObjectView {
        match self {
            Object::Array(a) => ObjectView::Array(values_view(a@)),
            Object::Dict(m) => ObjectView::Dict(entries_view(m@)),
            Object::Closure { environment, function_pointer } => ObjectView::Closure {
                environment: values_view(environment@),
                function_pointer: *function_pointer,
            },
        }
    }
}

pub open spec fn objects_view(s: Seq<Object>) -> Seq<ObjectView> {
    s.map_values(|o: Object| o@)
}

/// The heap as the value semantics sees it: the view of every slot.
pub open spec fn heap_view(arena: Arena<Object>) -> Seq<ObjectView> {
    objects_view(arena@.slots)
}

// ---------------------------------------------------------------- coercions

/// Truthiness: a boolean is itself, a number is true when nonzero, anything
/// else is false.
pub open spec fn to_boolean(v: ValueView) -> bool {
    match v {
        ValueView::Boolean(b) => b,
        ValueView::Number(n) => n != 0,
        _ => false,
    }
}

/// Numeric coercion: defined for booleans and numbers only.
pub open spec fn to_number(v: ValueView) -> Option<i64> {
    match v {
        ValueView::Boolean(b) => Some(if b { 1i64 } else { 0i64 }),
        ValueView::Number(n) => Some(n),
        _ => None,
    }
}

pub open spec fn digit_char(d: nat) -> char {
    if d == 0 { '0' } else if d == 1 { '1' } else if d == 2 { '2' } else if d == 3 { '3' }
    else if d == 4 { '4' } else if d == 5 { '5' } else if d == 6 { '6' } else if d == 7 { '7' }
    else if d == 8 { '8' } else { '9' }
}

/// The decimal digits of `n`, most significant first, without leading zeros.
pub open spec fn digits(n: nat) -> Seq<char>
    decreases n,
{
    if n < 10 {
        seq![digit_char(n)]
    } else {
        digits(n / 10).push(digit_char(n % 10))
    }
}

/// The decimal rendering of `n`, with a leading `-` when negative.
pub open spec fn decimal(n: int) -> Seq<char> {
    if n < 0 {
        seq!['-'] + digits((-n) as nat)
    } else {
        digits(n as nat)
    }
}

/// The text that string coercion gives for `v`; a reference is rendered by
/// the kind of object it denotes.
pub open spec fn display(v: ValueView, heap: Seq<ObjectView>) -> Seq<char> {
    match v {
        ValueView::Undefined => "undefined"@,
        ValueView::Null => "null"@,
        ValueView::Boolean(b) => if b { "true"@ } else { "false"@ },
        ValueView::Number(n) => decimal(n as int),
        ValueView::String(s) => s,
        ValueView::Reference(i) => if i < heap.len() {
            match heap[i as int] {
                ObjectView::Array(_) => "[array]"@,
                ObjectView::Dict(_) => "{object}"@,
                ObjectView::Closure { .. } => "function"@,
            }
        } else {
            "[object Object]"@
        },
        ValueView::FunctionPointer(_) => "function"@,
    }
}

// ---------------------------------------------------------------- operators

/// `Number(x)` where `x` fits in 64 bits, else `Undefined`.
pub open spec fn number_or_undefined(x: int) -> ValueView {
    if i64::MIN <= x <= i64::MAX {
        ValueView::Number(x as i64)
    } else {
        ValueView::Undefined
    }
}

/// Division rounding toward zero.
pub open spec fn trunc_div(a: int, b: int) -> int {
    let q = (vstd::math::abs(a) / vstd::math::abs(b)) as int;
    if (a < 0) == (b < 0) { q } else { -q }
}

/// The remainder of division rounding toward zero; it takes the sign of `a`.
pub open spec fn trunc_rem(a: int, b: int) -> int {
    let r = (vstd::math::abs(a) % vstd::math::abs(b)) as int;
    if a < 0 { -r } else { r }
}

/// `+`: concatenation where either side is a string, numeric addition where
/// both sides coerce to numbers, else `Undefined`.
pub open spec fn add_spec(l: ValueView, r: ValueView, heap: Seq<ObjectView>) -> ValueView {
    match (l, r) {
        (ValueView::String(a), _) => ValueView::String(a + display(r, heap)),
        (_, ValueView::String(b)) => ValueView::String(display(l, heap) + b),
        _ => match (to_number(l), to_number(r)) {
            (Some(a), Some(b)) => number_or_undefined(a + b),
            _ => ValueView::Undefined,
        },
    }
}

/// The binary operators other than `+`, defined on two numbers only.
#[derive(Debug, Clone, Copy, PartialEq, Eq, Structural)]
pub enum NumericOp {
    Sub,
    Mul,
    Div,
    Rem,
    BitAnd,
    BitOr,
    BitXor,
    ShiftLeft,
    ShiftRight,
    Equal,
    NotEqual,
    SmallerEqual,
    GreaterEqual,
}

pub open spec fn numeric_spec(op: NumericOp, a: i64, b: i64) -> ValueView {
    match op {
        NumericOp::Sub => number_or_undefined(a - b),
        NumericOp::Mul => number_or_undefined(a * b),
        NumericOp::Div => if b == 0 { ValueView::Undefined } else { number_or_undefined(trunc_div(a as int, b as int)) },
        NumericOp::Rem => if b == 0 { ValueView::Undefined } else { number_or_undefined(trunc_rem(a as int, b as int)) },
        NumericOp::BitAnd => ValueView::Number(a & b),
        NumericOp::BitOr => ValueView::Number(a | b),
        NumericOp::BitXor => ValueView::Number(a ^ b),
        NumericOp::ShiftLeft => if 0 <= b < 64 { ValueView::Number(a << (b as u64)) } else { ValueView::Undefined },
        NumericOp::ShiftRight => if 0 <= b < 64 { ValueView::Number(a >> (b as u64)) } else { ValueView::Undefined },
        NumericOp::Equal => ValueView::Boolean(a == b),
        NumericOp::NotEqual => ValueView::Boolean(a != b),
        NumericOp::SmallerEqual => ValueView::Boolean(a <= b),
        NumericOp::GreaterEqual => ValueView::Boolean(a >= b),
    }
}

/// A binary operator other than `+` on any two values: `Undefined` unless
/// both are numbers.
pub open spec fn binary_spec(op: NumericOp, l: ValueView, r: ValueView) -> ValueView {
    match (l, r) {
        (ValueView::Number(a), ValueView::Number(b)) => numeric_spec(op, a, b),
        _ => ValueView::Undefined,
    }
}

/// Logical `&&` and `||`, defined on two booleans only.
pub open spec fn logic_spec(is_and: bool, l: ValueView, r: ValueView) -> ValueView {
    match (l, r) {
        (ValueView::Boolean(a), ValueView::Boolean(b)) => ValueView::Boolean(if is_and { a && b } else { a || b }),
        _ => ValueView::Undefined,
    }
}

pub open spec fn not_spec(v: ValueView) -> ValueView {
    match v {
        ValueView::Boolean(b) => ValueView::Boolean(!b),
        _ => ValueView::Undefined,
    }
}

pub open spec fn neg_spec(v: ValueView) -> ValueView {
    match v {
        ValueView::Number(n) => number_or_undefined(-n),
        _ => ValueView::Undefined,
    }
}

pub open spec fn bitwise_not_spec(v: ValueView) -> ValueView {
    match v {
        ValueView::Number(n) => ValueView::Number(!n),
        _ => ValueView::Undefined,
    }
}

// ---------------------------------------------------------------- indexing

/// The value of the last entry under `key`, if any.
pub open spec fn lookup(entries: Seq<(Seq<char>, ValueView)>, key: Seq<char>) -> Option<ValueView>
    decreases entries.len(),
{
    if entries.len() == 0 {
        None
    } else if entries.last().0 == key {
        Some(entries.last().1)
    } else {
        lookup(entries.drop_last(), key)
    }
}

/// A built-in property of something `len` long: only `length` is known.
pub open spec fn intrinsic_spec(key: Seq<char>, len: nat) -> ValueView {
    if key == "length"@ && len <= i64::MAX {
        ValueView::Number(len as i64)
    } else {
        ValueView::Undefined
    }
}

/// `target[key]`: an array element by index, a map entry by key, or a
/// built-in property; `Undefined` wherever nothing is found.
pub open spec fn get_spec(target: ValueView, key: ValueView, heap: Seq<ObjectView>) -> ValueView {
    match target {
        ValueView::Reference(i) => if i < heap.len() {
            match (heap[i as int], key) {
                (ObjectView::Array(a), ValueView::Number(n)) => if 0 <= n < a.len() { a[n as int] } else { ValueView::Undefined },
                (ObjectView::Array(a), ValueView::String(k)) => intrinsic_spec(k, a.len()),
                (ObjectView::Dict(m), ValueView::String(k)) => match lookup(m, k) {
                    Some(v) => v,
                    None => ValueView::Undefined,
                },
                _ => ValueView::Undefined,
            }
        } else {
            ValueView::Undefined
        },
        ValueView::String(s) => match key {
            ValueView::String(k) => intrinsic_spec(k, s.len()),
            _ => ValueView::Undefined,
        },
        _ => ValueView::Undefined,
    }
}

// ---------------------------------------------------------------- coercions, executable

/// A coercion of a value into another form, which may fail.
pub trait Upcast<T>: Sized {
    spec fn upcast_spec(&self) -> Result<T, ()>;

    fn upcast(&self) -> (r: Result<T, ()>)
        ensures
            r == self.upcast_spec(),
    ;
}

impl Upcast<bool> for Value {
    open spec fn upcast_spec(&self) -> Result<bool, ()> {
        Ok(to_boolean(self@))
    }

    fn upcast(&self) -> (r: Result<bool, ()>) {
        match self {
            Value::Boolean(b) => Ok(*b),
            Value::Number(n) => Ok(*n != 0),
            _ => Ok(false),
        }
    }
}

impl Upcast<i64> for Value {
    open spec fn upcast_spec(&self) -> Result<i64, ()> {
        match to_number(self@) {
            Some(n) => Ok(n),
            None => Err(()),
        }
    }

    fn upcast(&self) -> (r: Result<i64, ()>) {
        match self {
            Value::Boolean(b) => Ok(if *b { 1 } else { 0 }),
            Value::Number(n) => Ok(*n),
            _ => Err(()),
        }
    }
}

fn digit_str(d: u64) -> (r: &'static str)
    requires
        d < 10,
    ensures
        r@ == seq![digit_char(d as nat)],
{
    proof {
        reveal_strlit("0");
        reveal_strlit("1");
        reveal_strlit("2");
        reveal_strlit("3");
        reveal_strlit("4");
        reveal_strlit("5");
        reveal_strlit("6");
        reveal_strlit("7");
        reveal_strlit("8");
        reveal_strlit("9");
    }
    match d {
        0 => "0",
        1 => "1",
        2 => "2",
        3 => "3",
        4 => "4",
        5 => "5",
        6 => "6",
        7 => "7",
        8 => "8",
        _ => "9",
    }
}

fn push_digits(s: &mut String, n: u64)
    ensures
        final(s)@ == old(s)@ + digits(n as nat),
    decreases n,
{
    if n >= 10 {
        push_digits(s, n / 10);
    }
    s.append(digit_str(n % 10));
    assert(final(s)@ =~= old(s)@ + digits(n as nat));
}

/// The decimal rendering of a number.
pub fn number_to_string(n: i64) -> (r: String)
    ensures
        r@ == decimal(n as int),
{
    let mut s = String::new();
    if n < 0 {
        proof {
            reveal_strlit("-");
        }
        s.append("-");
        let magnitude: u64 = (0i128 - n as i128) as u64;
        push_digits(&mut s, magnitude);
    } else {
        push_digits(&mut s, n as u64);
    }
    assert(s@ =~= decimal(n as int));
    s
}

/// A copy of every value in `v`.
pub fn copy_values(v: &Vec<Value>) -> (r: Vec<Value>)
    ensures
        r@ == v@,
{
    let mut r: Vec<Value> = Vec::new();
    let mut i: usize = 0;
    while i < v.len()
        invariant
            i <= v.len(),
            r@ == v@.take(i as int),
        decreases v.len() - i,
    {
        r.push(v[i].duplicate());
        i = i + 1;
        assert(r@ =~= v@.take(i as int));
    }
    assert(v@.take(i as int) =~= v@);
    r
}

fn copy_entries(v: &Vec<(String, Value)>) -> (r: Vec<(String, Value)>)
    ensures
        entries_view(r@) == entries_view(v@),
{
    let mut r: Vec<(String, Value)> = Vec::new();
    let mut i: usize = 0;
    while i < v.len()
        invariant
            i <= v.len(),
            entries_view(r@) == entries_view(v@.take(i as int)),
        decreases v.len() - i,
    {
        let key = v[i].0.clone();
        let value = v[i].1.duplicate();
        assert((key, value) == v@[i as int]);
        let ghost before = r@;
        r.push((key, value));
        assert(r@ == before.push(v@[i as int]));
        i = i + 1;
        assert(v@.take(i as int) =~= v@.take(i - 1).push(v@[i - 1]));
        let ghost e = (v@[i - 1].0@, v@[i - 1].1@);
        assert(entries_view(r@) =~= entries_view(before).push(e));
        assert(entries_view(v@.take(i as int)) =~= entries_view(v@.take(i - 1)).push(e));
    }
    assert(v@.take(i as int) =~= v@);
    r
}

impl Object {
    /// A copy of this object and of everything it holds.
    pub fn deep_copy(&self) -> (r: Object)
        ensures
            r@ == self@,
    {
        match self {
            Object::Array(a) => Object::Array(copy_values(a)),
            Object::Dict(m) => Object::Dict(copy_entries(m)),
            Object::Closure { environment, function_pointer } => Object::Closure {
                environment: copy_values(environment),
                function_pointer: *function_pointer,
            },
        }
    }
}

/// A built-in property of a string or array of `len` elements.
fn intrinsic(key: &String, len: usize) -> (r: Value)
    ensures
        r@ == intrinsic_spec(key@, len as nat),
{
    let name = String::from_str("length");
    proof {
        reveal_strlit("length");
    }
    if *key == name && (len as u64) <= (i64::MAX as u64) {
        Value::Number(len as i64)
    } else {
        Value::Undefined
    }
}

/// The value of the last entry of `entries` under `key`, or `Undefined`.
fn lookup_entry(entries: &Vec<(String, Value)>, key: &String) -> (r: Value)
    ensures
        r@ == match lookup(entries_view(entries@), key@) {
            Some(v) => v,
            None => ValueView::Undefined,
        },
{
    let ghost ev = entries_view(entries@);
    let mut i = entries.len();
    assert(ev.take(i as int) =~= ev);
    while i > 0
        invariant
            i <= entries.len(),
            ev == entries_view(entries@),
            lookup(ev, key@) == lookup(ev.take(i as int), key@),
        decreases i,
    {
        assert(ev.take(i as int).drop_last() =~= ev.take(i - 1));
        i = i - 1;
        if entries[i].0 == *key {
            return entries[i].1.duplicate();
        }
    }
    Value::Undefined
}

impl Value {
    /// `self[key]`: an array element, a map entry or a built-in property;
    /// `Undefined` for an index out of range, a missing key, or any other
    /// pairing.
    pub fn get(self, key: Value, arena: &Arena<Object>) -> (r: Value)
        ensures
            r@ == get_spec(self@, key@, heap_view(*arena)),
    {
        match self {
            Value::Reference(i) => match arena.get(i) {
                Some(Object::Array(a)) => match key {
                    Value::Number(n) => if 0 <= n && (n as u64 as u128) < (a.len() as u128) {
                        a[n as usize].duplicate()
                    } else {
                        Value::Undefined
                    },
                    Value::String(k) => intrinsic(&k, a.len()),
                    _ => Value::Undefined,
                },
                Some(Object::Dict(m)) => match key {
                    Value::String(k) => lookup_entry(m, &k),
                    _ => Value::Undefined,
                },
                _ => Value::Undefined,
            },
            Value::String(s) => match key {
                Value::String(k) => intrinsic(&k, s.as_str().unicode_len()),
                _ => Value::Undefined,
            },
            _ => Value::Undefined,
        }
    }

    /// A copy of this value.
    pub fn duplicate(&self) -> (r: Value)
        ensures
            r == *self,
    {
        match self {
            Value::Undefined => Value::Undefined,
            Value::Null => Value::Null,
            Value::Boolean(b) => Value::Boolean(*b),
            Value::String(s) => Value::String(s.clone()),
            Value::Number(n) => Value::Number(*n),
            Value::Reference(i) => Value::Reference(*i),
            Value::FunctionPointer(a) => Value::FunctionPointer(*a),
        }
    }

    /// String coercion; it never fails.
    pub fn to_display(&self, arena: &Arena<Object>) -> (r: String)
        ensures
            r@ == display(self@, heap_view(*arena)),
    {
        proof {
            reveal_strlit("undefined");
            reveal_strlit("null");
            reveal_strlit("true");
            reveal_strlit("false");
            reveal_strlit("[array]");
            reveal_strlit("{object}");
            reveal_strlit("function");
            reveal_strlit("[object Object]");
        }
        match self {
            Value::Undefined => String::from_str("undefined"),
            Value::Null => String::from_str("null"),
            Value::Boolean(b) => if *b {
                String::from_str("true")
            } else {
                String::from_str("false")
            },
            Value::Number(n) => number_to_string(*n),
            Value::String(s) => s.clone(),
            Value::Reference(i) => match arena.get(*i) {
                Some(Object::Array(_)) => String::from_str("[array]"),
                Some(Object::Dict(_)) => String::from_str("{object}"),
                Some(Object::Closure { .. }) => String::from_str("function"),
                None => String::from_str("[object Object]"),
            },
            Value::FunctionPointer(_) => String::from_str("function"),
        }
    }

    /// `self + other`.
    pub fn add(self, other: Value, arena: &Arena<Object>) -> (r: Value)
        ensures
            r@ == add_spec(self@, other@, heap_view(*arena)),
    {
        match (self, other) {
            (Value::String(a), b) => {
                let tail = b.to_display(arena);
                let mut s = a;
                s.append(tail.as_str());
                Value::String(s)
            },
            (a, Value::String(b)) => {
                let mut s = a.to_display(arena);
                s.append(b.as_str());
                Value::String(s)
            },
            (a, b) => {
                let x: Result<i64, ()> = a.upcast();
                let y: Result<i64, ()> = b.upcast();
                match (x, y) {
                    (Ok(x), Ok(y)) => match x.checked_add(y) {
                        Some(z) => Value::Number(z),
                        None => Value::Undefined,
                    },
                    _ => Value::Undefined,
                }
            },
        }
    }

    /// Logical negation of a boolean.
    pub fn not(self) -> (r: Value)
        ensures
            r@ == not_spec(self@),
    {
        match self {
            Value::Boolean(b) => Value::Boolean(!b),
            _ => Value::Undefined,
        }
    }

    /// Arithmetic negation of a number.
    pub fn neg(self) -> (r: Value)
        ensures
            r@ == neg_spec(self@),
    {
        match self {
            Value::Number(n) => match 0i64.checked_sub(n) {
                Some(m) => Value::Number(m),
                None => Value::Undefined,
            },
            _ => Value::Undefined,
        }
    }

    /// Bitwise inversion of a number.
    pub fn bitwise_not(self) -> (r: Value)
        ensures
            r@ == bitwise_not_spec(self@),
    {
        match self {
            Value::Number(n) => Value::Number(!n),
            _ => Value::Undefined,
        }
    }

    /// `&&` or `||` on two booleans.
    pub fn logic(self, other: Value, is_and: bool) -> (r: Value)
        ensures
            r@ == logic_spec(is_and, self@, other@),
    {
        match (self, other) {
            (Value::Boolean(a), Value::Boolean(b)) => Value::Boolean(if is_and { a && b } else { a || b }),
            _ => Value::Undefined,
        }
    }

    /// A binary operator other than `+`.
    pub fn apply_numeric(self, op: NumericOp, other: Value) -> (r: Value)
        ensures
            r@ == binary_spec(op, self@, other@),
    {
        match (self, other) {
            (Value::Number(a), Value::Number(b)) => numeric(op, a, b),
            _ => Value::Undefined,
        }
    }
}

fn from_checked(x: Option<i64>) -> (r: Value)
    ensures
        r@ == match x {
            Some(n) => ValueView::Number(n),
            None => ValueView::Undefined,
        },
{
    match x {
        Some(n) => Value::Number(n),
        None => Value::Undefined,
    }
}

/// A binary operator other than `+` on two numbers.
pub fn numeric(op: NumericOp, a: i64, b: i64) -> (r: Value)
    ensures
        r@ == numeric_spec(op, a, b),
{
    match op {
        NumericOp::Sub => from_checked(a.checked_sub(b)),
        NumericOp::Mul => from_checked(a.checked_mul(b)),
        NumericOp::Div => {
            if b == 0 {
                Value::Undefined
            } else {
                from_checked(a.checked_div(b))
            }
        },
        NumericOp::Rem => {
            if b == 0 {
                Value::Undefined
            } else if b == -1 {
                Value::Number(0)
            } else {
                from_checked(a.checked_rem(b))
            }
        },
        NumericOp::BitAnd => Value::Number(a & b),
        NumericOp::BitOr => Value::Number(a | b),
        NumericOp::BitXor => Value::Number(a ^ b),
        NumericOp::ShiftLeft => if 0 <= b && b < 64 {
            Value::Number(a << (b as u64))
        } else {
            Value::Undefined
        },
        NumericOp::ShiftRight => if 0 <= b && b < 64 {
            Value::Number(a >> (b as u64))
        } else {
            Value::Undefined
        },
        NumericOp::Equal => Value::Boolean(a == b),
        NumericOp::NotEqual => Value::Boolean(a != b),
        NumericOp::SmallerEqual => Value::Boolean(a <= b),
        NumericOp::GreaterEqual => Value::Boolean(a >= b),
    }
}

// ---------------------------------------------------------------- laws

/// Adding two numbers gives the number of their sum, wherever that sum fits
/// in 64 bits.
pub proof fn lemma_add_numbers(a: i64, b: i64, heap: Seq<ObjectView>)
    requires
        i64::MIN <= a + b <= i64::MAX,
    ensures
        add_spec(ValueView::Number(a), ValueView::Number(b), heap) == ValueView::Number((a + b) as i64),
{
}

/// Adding a string and any value, on either side, concatenates the string
/// with the value's string coercion.
pub proof fn lemma_add_string(s: Seq<char>, x: ValueView, heap: Seq<ObjectView>)
    ensures
        add_spec(ValueView::String(s), x, heap) == ValueView::String(s + display(x, heap)),
        add_spec(x, ValueView::String(s), heap) == ValueView::String(display(x, heap) + s),
{
}

/// Every operator other than `+` gives `Undefined` unless both operands are
/// numbers.
pub proof fn lemma_non_numbers_undefined(op: NumericOp, l: ValueView, r: ValueView)
    requires
        !(l is Number && r is Number),
    ensures
        binary_spec(op, l, r) == ValueView::Undefined,
{
}

/// Division and remainder by zero give `Undefined`.
pub proof fn lemma_divide_by_zero(l: ValueView)
    ensures
        binary_spec(NumericOp::Div, l, ValueView::Number(0)) == ValueView::Undefined,
        binary_spec(NumericOp::Rem, l, ValueView::Number(0)) == ValueView::Undefined,
{
}

/// Indexing an array past its ends, or a map by a key it lacks, gives
/// `Undefined`.
pub proof fn lemma_get_missing(heap: Seq<ObjectView>, i: usize, n: i64, k: Seq<char>)
    requires
        i < heap.len(),
    ensures
        heap[i as int] is Array && (n < 0 || n >= heap[i as int]->Array_0.len())
            ==> get_spec(ValueView::Reference(i), ValueView::Number(n), heap) == ValueView::Undefined,
        heap[i as int] is Dict && lookup(heap[i as int]->Dict_0, k) is None
            ==> get_spec(ValueView::Reference(i), ValueView::String(k), heap) == ValueView::Undefined,
{
}

} // verus!
