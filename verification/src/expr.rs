//! The expression compiler: turns formula text into an abstract syntax
//! tree, reports structured errors, and lists the free variables in
//! order of first occurrence.
//!
//! The grammar is the usual one for calculator formulas:
//!
//! ```text
//! expression := term (('+' | '-') term)*
//! term       := power (('*' | '/') power)*
//! power      := unary ('^' power)?                  (right associative)
//! unary      := '-' unary | atom
//! atom       := number | name | name '(' expression ')' | '(' expression ')'
//! ```
//!
//! Numbers are unsigned decimal literals (digits with at most one dot);
//! names are either known function names (when followed by an argument
//! list), known constants (`e`, `PI`, `TAU` and their Greek spellings),
//! or free variables. Whitespace separates tokens and is otherwise
//! ignored.
//!
//! The whole grammar is stated as a family of spec functions over the
//! character sequence (`parse_expression` and friends), and the
//! executable compiler is proved to return exactly what those spec
//! functions denote.
use vstd::prelude::*;

verus! {

/// Binary operators, in the usual precedence order.
#[derive(Clone, Copy, Debug, PartialEq, Eq, Structural)]
pub enum BinOp {
    Add,
    Sub,
    Mul,
    Div,
    Pow,
}

/// The named one-argument functions the grammar knows.
#[derive(Clone, Copy, Debug, PartialEq, Eq, Structural)]
pub enum Func {
    Abs,
    Signum,
    Sin,
    Cos,
    Tan,
    Asin,
    Acos,
    Atan,
    Sinh,
    Cosh,
    Tanh,
    Floor,
    Ceil,
    Trunc,
    Fract,
    Exp,
    Sqrt,
    Cbrt,
    Ln,
    Log,
    Log2,
    Log10,
    Round,
}

/// The named constants the grammar knows.
#[derive(Clone, Copy, Debug, PartialEq, Eq, Structural)]
pub enum ConstName {
    Euler,
    Pi,
    Tau,
}

/// A compiled formula: the abstract syntax tree of one expression.
///
/// A numeric leaf keeps the literal exactly as written; turning it into
/// a machine number is the evaluating caller's business, so no numeric
/// precision is baked into the tree.
#[derive(Debug)]
pub enum Expr {
    /// An unsigned decimal literal, as written in the source text.
    Num(String),
    /// A free variable.
    Var(String),
    /// A named constant.
    Const(ConstName),
    /// Arithmetic negation.
    Neg(Box<Expr>),
    /// A named function applied to one argument.
    Apply(Func, Box<Expr>),
    /// A binary operation.
    Bin(BinOp, Box<Expr>, Box<Expr>),
}

/// The mathematical model of an expression tree: the same shape with
/// character sequences in place of heap strings.
pub enum ExprModel {
    Num(Seq<char>),
    Var(Seq<char>),
    Const(ConstName),
    Neg(Box<ExprModel>),
    Apply(Func, Box<ExprModel>),
    Bin(BinOp, Box<ExprModel>, Box<ExprModel>),
}

impl View for Expr {
    type V = ExprModel;

    open spec fn view(&self) -> ExprModel
        decreases self,
    {
        match self {
            Expr::Num(s) => ExprModel::Num(s@),
            Expr::Var(s) => ExprModel::Var(s@),
            Expr::Const(c) => ExprModel::Const(*c),
            Expr::Neg(e) => ExprModel::Neg(Box::new((**e)@)),
            Expr::Apply(f, e) => ExprModel::Apply(*f, Box::new((**e)@)),
            Expr::Bin(op, l, r) => ExprModel::Bin(*op, Box::new((**l)@), Box::new((**r)@)),
        }
    }
}

/// What can be wrong with a formula's text.
#[derive(Clone, Copy, Debug, PartialEq, Eq, Structural)]
pub enum CompileError {
    /// A character outside the grammar's alphabet.
    UnexpectedChar,
    /// Digits and dots that do not form one decimal number.
    MalformedNumber,
    /// A name followed by an argument list that is not a known function.
    UnknownFunction,
    /// An operand was missing where one was required.
    ExpectedOperand,
    /// An opening parenthesis without its closing one.
    UnbalancedParen,
    /// Input left over after a complete expression.
    TrailingInput,
}

impl CompileError {
    /// The human-readable description of this error, fit for direct
    /// display beside the formula it came from.
    pub open spec fn message_model(self) -> Seq<char> {
        match self {
            CompileError::UnexpectedChar => "unexpected character in expression"@,
            CompileError::MalformedNumber => "malformed number"@,
            CompileError::UnknownFunction => "unknown function name"@,
            CompileError::ExpectedOperand => "expected an operand"@,
            CompileError::UnbalancedParen => "missing closing parenthesis"@,
            CompileError::TrailingInput => "unexpected trailing input"@,
        }
    }

    /// Render the error as display text.
    pub fn describe(&self) -> (r: String)
        ensures
            r@ == self.message_model(),
    {
        match self {
            CompileError::UnexpectedChar => String::from_str("unexpected character in expression"),
            CompileError::MalformedNumber => String::from_str("malformed number"),
            CompileError::UnknownFunction => String::from_str("unknown function name"),
            CompileError::ExpectedOperand => String::from_str("expected an operand"),
            CompileError::UnbalancedParen => String::from_str("missing closing parenthesis"),
            CompileError::TrailingInput => String::from_str("unexpected trailing input"),
        }
    }
}

// ---------------------------------------------------------------------
// Character classes
// ---------------------------------------------------------------------

pub open spec fn is_space_char(c: char) -> bool {
    c == ' ' || c == '\t' || c == '\n' || c == '\r'
}

pub open spec fn is_digit_char(c: char) -> bool {
    48 <= c as u32 && c as u32 <= 57
}

/// Letters, the underscore, and the Greek letters pi and tau, which the
/// grammar accepts as spellings of the matching constants.
pub open spec fn is_name_start_char(c: char) -> bool {
    (65 <= c as u32 && c as u32 <= 90) || (97 <= c as u32 && c as u32 <= 122) || c as u32 == 95
        || c as u32 == 960 || c as u32 == 964
}

pub open spec fn is_name_char(c: char) -> bool {
    is_name_start_char(c) || is_digit_char(c)
}

fn space_char(c: char) -> (r: bool)
    ensures
        r == is_space_char(c),
{
    c == ' ' || c == '\t' || c == '\n' || c == '\r'
}

fn digit_char(c: char) -> (r: bool)
    ensures
        r == is_digit_char(c),
{
    let u = c as u32;
    48 <= u && u <= 57
}

fn name_start_char(c: char) -> (r: bool)
    ensures
        r == is_name_start_char(c),
{
    let u = c as u32;
    (65 <= u && u <= 90) || (97 <= u && u <= 122) || u == 95 || u == 960 || u == 964
}

fn name_char(c: char) -> (r: bool)
    ensures
        r == is_name_char(c),
{
    name_start_char(c) || digit_char(c)
}

// ---------------------------------------------------------------------
// Scanners: whitespace, numbers, names
// ---------------------------------------------------------------------

/// First position at or after `i` holding a non-space character.
pub open spec fn skip_spaces(s: Seq<char>, i: int) -> int
    decreases s.len() - i,
{
    if 0 <= i < s.len() && is_space_char(s[i]) {
        skip_spaces(s, i + 1)
    } else {
        i
    }
}

fn skip_spaces_exec(chars: &Vec<char>, i: usize) -> (r: usize)
    requires
        i <= chars@.len(),
    ensures
        r == skip_spaces(chars@, i as int),
        i <= r <= chars@.len(),
    decreases chars@.len() - i,
{
    if i < chars.len() && space_char(chars[i]) {
        skip_spaces_exec(chars, i + 1)
    } else {
        i
    }
}

/// End of the maximal run of digits and dots starting at `i`.
pub open spec fn scan_number_end(s: Seq<char>, i: int) -> int
    decreases s.len() - i,
{
    if 0 <= i < s.len() && (is_digit_char(s[i]) || s[i] == '.') {
        scan_number_end(s, i + 1)
    } else {
        i
    }
}

fn scan_number_end_exec(chars: &Vec<char>, i: usize) -> (r: usize)
    requires
        i <= chars@.len(),
    ensures
        r == scan_number_end(chars@, i as int),
        i <= r <= chars@.len(),
    decreases chars@.len() - i,
{
    if i < chars.len() && (digit_char(chars[i]) || chars[i] == '.') {
        scan_number_end_exec(chars, i + 1)
    } else {
        i
    }
}

/// End of the maximal run of name characters starting at `i`.
pub open spec fn scan_name_end(s: Seq<char>, i: int) -> int
    decreases s.len() - i,
{
    if 0 <= i < s.len() && is_name_char(s[i]) {
        scan_name_end(s, i + 1)
    } else {
        i
    }
}

fn scan_name_end_exec(chars: &Vec<char>, i: usize) -> (r: usize)
    requires
        i <= chars@.len(),
    ensures
        r == scan_name_end(chars@, i as int),
        i <= r <= chars@.len(),
    decreases chars@.len() - i,
{
    if i < chars.len() && name_char(chars[i]) {
        scan_name_end_exec(chars, i + 1)
    } else {
        i
    }
}

/// How many digits stand in `s[i..end]`.
pub open spec fn digits_in(s: Seq<char>, i: int, end: int) -> nat
    decreases end - i,
{
    if i < end && 0 <= i < s.len() {
        (if is_digit_char(s[i]) {
            1nat
        } else {
            0nat
        }) + digits_in(s, i + 1, end)
    } else {
        0nat
    }
}

/// How many dots stand in `s[i..end]`.
pub open spec fn dots_in(s: Seq<char>, i: int, end: int) -> nat
    decreases end - i,
{
    if i < end && 0 <= i < s.len() {
        (if s[i] == '.' {
            1nat
        } else {
            0nat
        }) + dots_in(s, i + 1, end)
    } else {
        0nat
    }
}

fn digits_in_exec(chars: &Vec<char>, i: usize, end: usize) -> (r: usize)
    requires
        i <= end <= chars@.len(),
    ensures
        r == digits_in(chars@, i as int, end as int),
        r <= end - i,
    decreases end - i,
{
    if i < end {
        let here: usize = if digit_char(chars[i]) {
            1
        } else {
            0
        };
        here + digits_in_exec(chars, i + 1, end)
    } else {
        0
    }
}

fn dots_in_exec(chars: &Vec<char>, i: usize, end: usize) -> (r: usize)
    requires
        i <= end <= chars@.len(),
    ensures
        r == dots_in(chars@, i as int, end as int),
        r <= end - i,
    decreases end - i,
{
    if i < end {
        let here: usize = if chars[i] == '.' {
            1
        } else {
            0
        };
        here + dots_in_exec(chars, i + 1, end)
    } else {
        0
    }
}

// ---------------------------------------------------------------------
// Name lookup
// ---------------------------------------------------------------------

/// The function a name denotes, if any.
pub open spec fn func_of_name(name: Seq<char>) -> Option<Func> {
    if name == "abs"@ {
        Some(Func::Abs)
    } else if name == "signum"@ {
        Some(Func::Signum)
    } else if name == "sin"@ {
        Some(Func::Sin)
    } else if name == "cos"@ {
        Some(Func::Cos)
    } else if name == "tan"@ {
        Some(Func::Tan)
    } else if name == "asin"@ {
        Some(Func::Asin)
    } else if name == "acos"@ {
        Some(Func::Acos)
    } else if name == "atan"@ {
        Some(Func::Atan)
    } else if name == "sinh"@ {
        Some(Func::Sinh)
    } else if name == "cosh"@ {
        Some(Func::Cosh)
    } else if name == "tanh"@ {
        Some(Func::Tanh)
    } else if name == "floor"@ {
        Some(Func::Floor)
    } else if name == "ceil"@ {
        Some(Func::Ceil)
    } else if name == "trunc"@ {
        Some(Func::Trunc)
    } else if name == "fract"@ {
        Some(Func::Fract)
    } else if name == "exp"@ {
        Some(Func::Exp)
    } else if name == "sqrt"@ {
        Some(Func::Sqrt)
    } else if name == "cbrt"@ {
        Some(Func::Cbrt)
    } else if name == "ln"@ {
        Some(Func::Ln)
    } else if name == "log"@ {
        Some(Func::Log)
    } else if name == "log2"@ {
        Some(Func::Log2)
    } else if name == "log10"@ {
        Some(Func::Log10)
    } else if name == "round"@ {
        Some(Func::Round)
    } else {
        None
    }
}

/// The constant a name denotes, if any.
pub open spec fn const_of_name(name: Seq<char>) -> Option<ConstName> {
    if name == "e"@ {
        Some(ConstName::Euler)
    } else if name == "PI"@ || name == "\u{03c0}"@ {
        Some(ConstName::Pi)
    } else if name == "TAU"@ || name == "\u{03c4}"@ {
        Some(ConstName::Tau)
    } else {
        None
    }
}

/// Character-for-character string comparison.
fn str_eq(a: &str, b: &str) -> (r: bool)
    ensures
        r == (a@ == b@),
{
    let an = a.unicode_len();
    let bn = b.unicode_len();
    if an != bn {
        return false;
    }
    let mut i: usize = 0;
    while i < an
        invariant
            i <= an,
            an == a@.len(),
            bn == b@.len(),
            an == bn,
            forall|k: int| 0 <= k < i ==> a@[k] == b@[k],
        decreases an - i,
    {
        if a.get_char(i) != b.get_char(i) {
            return false;
        }
        i = i + 1;
    }
    proof {
        assert(a@ =~= b@);
    }
    true
}

fn func_of_name_exec(name: &str) -> (r: Option<Func>)
    ensures
        r == func_of_name(name@),
{
    if str_eq(name, "abs") {
        Some(Func::Abs)
    } else if str_eq(name, "signum") {
        Some(Func::Signum)
    } else if str_eq(name, "sin") {
        Some(Func::Sin)
    } else if str_eq(name, "cos") {
        Some(Func::Cos)
    } else if str_eq(name, "tan") {
        Some(Func::Tan)
    } else if str_eq(name, "asin") {
        Some(Func::Asin)
    } else if str_eq(name, "acos") {
        Some(Func::Acos)
    } else if str_eq(name, "atan") {
        Some(Func::Atan)
    } else if str_eq(name, "sinh") {
        Some(Func::Sinh)
    } else if str_eq(name, "cosh") {
        Some(Func::Cosh)
    } else if str_eq(name, "tanh") {
        Some(Func::Tanh)
    } else if str_eq(name, "floor") {
        Some(Func::Floor)
    } else if str_eq(name, "ceil") {
        Some(Func::Ceil)
    } else if str_eq(name, "trunc") {
        Some(Func::Trunc)
    } else if str_eq(name, "fract") {
        Some(Func::Fract)
    } else if str_eq(name, "exp") {
        Some(Func::Exp)
    } else if str_eq(name, "sqrt") {
        Some(Func::Sqrt)
    } else if str_eq(name, "cbrt") {
        Some(Func::Cbrt)
    } else if str_eq(name, "ln") {
        Some(Func::Ln)
    } else if str_eq(name, "log") {
        Some(Func::Log)
    } else if str_eq(name, "log2") {
        Some(Func::Log2)
    } else if str_eq(name, "log10") {
        Some(Func::Log10)
    } else if str_eq(name, "round") {
        Some(Func::Round)
    } else {
        None
    }
}

fn const_of_name_exec(name: &str) -> (r: Option<ConstName>)
    ensures
        r == const_of_name(name@),
{
    if str_eq(name, "e") {
        Some(ConstName::Euler)
    } else if str_eq(name, "PI") || str_eq(name, "\u{03c0}") {
        Some(ConstName::Pi)
    } else if str_eq(name, "TAU") || str_eq(name, "\u{03c4}") {
        Some(ConstName::Tau)
    } else {
        None
    }
}

// ---------------------------------------------------------------------
// The grammar, as a family of spec functions
// ---------------------------------------------------------------------
//
// Each function takes the text, a position, and a recursion allowance.
// The allowance makes every function total; `fuel_for` grants far more
// than any input of that length can consume (a full trip through the
// five precedence levels costs five units and swallows at least one
// character), so it never cuts a parse short.

/// Recursion allowance that is ample for an input of this length.
pub open spec fn fuel_for(s: Seq<char>) -> nat {
    (6 * s.len() + 6) as nat
}

pub open spec fn parse_expression(s: Seq<char>, i: int, fuel: nat) -> Result<
    (ExprModel, int),
    CompileError,
>
    decreases fuel,
{
    if fuel == 0 {
        Err(CompileError::ExpectedOperand)
    } else {
        match parse_term(s, i, (fuel - 1) as nat) {
            Err(e) => Err(e),
            Ok((lhs, j)) => parse_sum_rest(s, j, lhs, (fuel - 1) as nat),
        }
    }
}

pub open spec fn parse_sum_rest(s: Seq<char>, i: int, acc: ExprModel, fuel: nat) -> Result<
    (ExprModel, int),
    CompileError,
>
    decreases fuel,
{
    if fuel == 0 {
        Err(CompileError::ExpectedOperand)
    } else {
        let j = skip_spaces(s, i);
        if 0 <= j < s.len() && (s[j] == '+' || s[j] == '-') {
            let op = if s[j] == '+' {
                BinOp::Add
            } else {
                BinOp::Sub
            };
            match parse_term(s, j + 1, (fuel - 1) as nat) {
                Err(e) => Err(e),
                Ok((rhs, k)) => parse_sum_rest(
                    s,
                    k,
                    ExprModel::Bin(op, Box::new(acc), Box::new(rhs)),
                    (fuel - 1) as nat,
                ),
            }
        } else {
            Ok((acc, j))
        }
    }
}

pub open spec fn parse_term(s: Seq<char>, i: int, fuel: nat) -> Result<
    (ExprModel, int),
    CompileError,
>
    decreases fuel,
{
    if fuel == 0 {
        Err(CompileError::ExpectedOperand)
    } else {
        match parse_power(s, i, (fuel - 1) as nat) {
            Err(e) => Err(e),
            Ok((lhs, j)) => parse_product_rest(s, j, lhs, (fuel - 1) as nat),
        }
    }
}

pub open spec fn parse_product_rest(s: Seq<char>, i: int, acc: ExprModel, fuel: nat) -> Result<
    (ExprModel, int),
    CompileError,
>
    decreases fuel,
{
    if fuel == 0 {
        Err(CompileError::ExpectedOperand)
    } else {
        let j = skip_spaces(s, i);
        if 0 <= j < s.len() && (s[j] == '*' || s[j] == '/') {
            let op = if s[j] == '*' {
                BinOp::Mul
            } else {
                BinOp::Div
            };
            match parse_power(s, j + 1, (fuel - 1) as nat) {
                Err(e) => Err(e),
                Ok((rhs, k)) => parse_product_rest(
                    s,
                    k,
                    ExprModel::Bin(op, Box::new(acc), Box::new(rhs)),
                    (fuel - 1) as nat,
                ),
            }
        } else {
            Ok((acc, j))
        }
    }
}

pub open spec fn parse_power(s: Seq<char>, i: int, fuel: nat) -> Result<
    (ExprModel, int),
    CompileError,
>
    decreases fuel,
{
    if fuel == 0 {
        Err(CompileError::ExpectedOperand)
    } else {
        match parse_unary(s, i, (fuel - 1) as nat) {
            Err(e) => Err(e),
            Ok((base, j)) => {
                let k = skip_spaces(s, j);
                if 0 <= k < s.len() && s[k] == '^' {
                    match parse_power(s, k + 1, (fuel - 1) as nat) {
                        Err(e) => Err(e),
                        Ok((ex, m)) => Ok(
                            (ExprModel::Bin(BinOp::Pow, Box::new(base), Box::new(ex)), m),
                        ),
                    }
                } else {
                    Ok((base, k))
                }
            },
        }
    }
}

pub open spec fn parse_unary(s: Seq<char>, i: int, fuel: nat) -> Result<
    (ExprModel, int),
    CompileError,
>
    decreases fuel,
{
    if fuel == 0 {
        Err(CompileError::ExpectedOperand)
    } else {
        let j = skip_spaces(s, i);
        if 0 <= j < s.len() && s[j] == '-' {
            match parse_unary(s, j + 1, (fuel - 1) as nat) {
                Err(e) => Err(e),
                Ok((inner, m)) => Ok((ExprModel::Neg(Box::new(inner)), m)),
            }
        } else {
            parse_atom(s, j, (fuel - 1) as nat)
        }
    }
}

pub open spec fn parse_atom(s: Seq<char>, i: int, fuel: nat) -> Result<
    (ExprModel, int),
    CompileError,
>
    decreases fuel,
{
    if fuel == 0 {
        Err(CompileError::ExpectedOperand)
    } else {
        let j = skip_spaces(s, i);
        if !(0 <= j < s.len()) {
            Err(CompileError::ExpectedOperand)
        } else if is_digit_char(s[j]) || s[j] == '.' {
            let end = scan_number_end(s, j);
            if digits_in(s, j, end) >= 1 && dots_in(s, j, end) <= 1 {
                Ok((ExprModel::Num(s.subrange(j, end)), end))
            } else {
                Err(CompileError::MalformedNumber)
            }
        } else if is_name_start_char(s[j]) {
            let end = scan_name_end(s, j);
            let name = s.subrange(j, end);
            let k = skip_spaces(s, end);
            if 0 <= k < s.len() && s[k] == '(' {
                match func_of_name(name) {
                    None => Err(CompileError::UnknownFunction),
                    Some(f) => match parse_expression(s, k + 1, (fuel - 1) as nat) {
                        Err(e) => Err(e),
                        Ok((arg, m)) => if 0 <= m < s.len() && s[m] == ')' {
                            Ok((ExprModel::Apply(f, Box::new(arg)), m + 1))
                        } else {
                            Err(CompileError::UnbalancedParen)
                        },
                    },
                }
            } else {
                match const_of_name(name) {
                    Some(c) => Ok((ExprModel::Const(c), end)),
                    None => Ok((ExprModel::Var(name), end)),
                }
            }
        } else if s[j] == '(' {
            match parse_expression(s, j + 1, (fuel - 1) as nat) {
                Err(e) => Err(e),
                Ok((inner, m)) => if 0 <= m < s.len() && s[m] == ')' {
                    Ok((inner, m + 1))
                } else {
                    Err(CompileError::UnbalancedParen)
                },
            }
        } else {
            Err(CompileError::UnexpectedChar)
        }
    }
}

/// What compilation of a whole text denotes: one expression covering
/// every character, or the first error met.
pub open spec fn compile_model(s: Seq<char>) -> Result<ExprModel, CompileError> {
    match parse_expression(s, 0, fuel_for(s)) {
        Err(e) => Err(e),
        Ok((e, j)) => if j == s.len() {
            Ok(e)
        } else {
            Err(CompileError::TrailingInput)
        },
    }
}

// ---------------------------------------------------------------------
// The allowance is ample
// ---------------------------------------------------------------------
//
// Every function above consumes one unit per call, and a full trip
// down the five precedence levels swallows at least one character
// before the cycle can restart. The lemmas below make that exact:
// any two allowances of at least five units per remaining character,
// plus the level's depth, parse alike — so the grammar, not the
// allowance, decides what `compile_model` accepts.

proof fn lemma_skip_bounds(s: Seq<char>, i: int)
    requires
        0 <= i <= s.len(),
    ensures
        i <= skip_spaces(s, i) <= s.len(),
    decreases s.len() - i,
{
    if i < s.len() && is_space_char(s[i]) {
        lemma_skip_bounds(s, i + 1);
    }
}

proof fn lemma_scan_number_bounds(s: Seq<char>, i: int)
    requires
        0 <= i <= s.len(),
    ensures
        i <= scan_number_end(s, i) <= s.len(),
    decreases s.len() - i,
{
    if i < s.len() && (is_digit_char(s[i]) || s[i] == '.') {
        lemma_scan_number_bounds(s, i + 1);
    }
}

proof fn lemma_scan_name_bounds(s: Seq<char>, i: int)
    requires
        0 <= i <= s.len(),
    ensures
        i <= scan_name_end(s, i) <= s.len(),
    decreases s.len() - i,
{
    if i < s.len() && is_name_char(s[i]) {
        lemma_scan_name_bounds(s, i + 1);
    }
}

proof fn lemma_fuel_expression(s: Seq<char>, i: int, f1: nat, f2: nat)
    requires
        0 <= i <= s.len(),
        f1 >= 5 * (s.len() - i) + 5,
        f2 >= 5 * (s.len() - i) + 5,
    ensures
        parse_expression(s, i, f1) == parse_expression(s, i, f2),
        parse_expression(s, i, f1) matches Ok(p) ==> i + 1 <= p.1 <= s.len(),
    decreases s.len() - i, 5int,
{
    lemma_fuel_term(s, i, (f1 - 1) as nat, (f2 - 1) as nat);
    match parse_term(s, i, (f1 - 1) as nat) {
        Ok((lhs, j)) => {
            lemma_fuel_rest(s, j, lhs, (f1 - 1) as nat, (f2 - 1) as nat, true);
        },
        Err(_) => {},
    }
}

/// One lemma serves both operator-chain levels: `sums` picks the
/// additive chain or the multiplicative one.
proof fn lemma_fuel_rest(s: Seq<char>, i: int, acc: ExprModel, f1: nat, f2: nat, sums: bool)
    requires
        0 <= i,
        i + 1 <= s.len() + 1,
        f1 >= 5 * (s.len() - i) + 4,
        f2 >= 5 * (s.len() - i) + 4,
    ensures
        sums ==> parse_sum_rest(s, i, acc, f1) == parse_sum_rest(s, i, acc, f2),
        sums ==> (parse_sum_rest(s, i, acc, f1) matches Ok(p) ==> i <= p.1 <= s.len()),
        !sums ==> parse_product_rest(s, i, acc, f1) == parse_product_rest(s, i, acc, f2),
        !sums ==> (parse_product_rest(s, i, acc, f1) matches Ok(p) ==> i <= p.1 <= s.len()),
    decreases s.len() - i, 4int,
{
    lemma_skip_bounds(s, i);
    let j = skip_spaces(s, i);
    if sums {
        if j < s.len() && (s[j] == '+' || s[j] == '-') {
            lemma_fuel_term(s, j + 1, (f1 - 1) as nat, (f2 - 1) as nat);
            match parse_term(s, j + 1, (f1 - 1) as nat) {
                Ok((rhs, k)) => {
                    let newacc = ExprModel::Bin(
                        if s[j] == '+' {
                            BinOp::Add
                        } else {
                            BinOp::Sub
                        },
                        Box::new(acc),
                        Box::new(rhs),
                    );
                    lemma_fuel_rest(s, k, newacc, (f1 - 1) as nat, (f2 - 1) as nat, true);
                },
                Err(_) => {},
            }
        }
    } else {
        if j < s.len() && (s[j] == '*' || s[j] == '/') {
            lemma_fuel_power(s, j + 1, (f1 - 1) as nat, (f2 - 1) as nat);
            match parse_power(s, j + 1, (f1 - 1) as nat) {
                Ok((rhs, k)) => {
                    let newacc = ExprModel::Bin(
                        if s[j] == '*' {
                            BinOp::Mul
                        } else {
                            BinOp::Div
                        },
                        Box::new(acc),
                        Box::new(rhs),
                    );
                    lemma_fuel_rest(s, k, newacc, (f1 - 1) as nat, (f2 - 1) as nat, false);
                },
                Err(_) => {},
            }
        }
    }
}

proof fn lemma_fuel_term(s: Seq<char>, i: int, f1: nat, f2: nat)
    requires
        0 <= i <= s.len(),
        f1 >= 5 * (s.len() - i) + 4,
        f2 >= 5 * (s.len() - i) + 4,
    ensures
        parse_term(s, i, f1) == parse_term(s, i, f2),
        parse_term(s, i, f1) matches Ok(p) ==> i + 1 <= p.1 <= s.len(),
    decreases s.len() - i, 3int,
{
    lemma_fuel_power(s, i, (f1 - 1) as nat, (f2 - 1) as nat);
    match parse_power(s, i, (f1 - 1) as nat) {
        Ok((lhs, j)) => {
            lemma_fuel_rest(s, j, lhs, (f1 - 1) as nat, (f2 - 1) as nat, false);
        },
        Err(_) => {},
    }
}

proof fn lemma_fuel_power(s: Seq<char>, i: int, f1: nat, f2: nat)
    requires
        0 <= i <= s.len(),
        f1 >= 5 * (s.len() - i) + 3,
        f2 >= 5 * (s.len() - i) + 3,
    ensures
        parse_power(s, i, f1) == parse_power(s, i, f2),
        parse_power(s, i, f1) matches Ok(p) ==> i + 1 <= p.1 <= s.len(),
    decreases s.len() - i, 2int,
{
    lemma_fuel_unary(s, i, (f1 - 1) as nat, (f2 - 1) as nat);
    match parse_unary(s, i, (f1 - 1) as nat) {
        Ok((base, j)) => {
            lemma_skip_bounds(s, j);
            let k = skip_spaces(s, j);
            if k < s.len() && s[k] == '^' {
                lemma_fuel_power(s, k + 1, (f1 - 1) as nat, (f2 - 1) as nat);
            }
        },
        Err(_) => {},
    }
}

proof fn lemma_fuel_unary(s: Seq<char>, i: int, f1: nat, f2: nat)
    requires
        0 <= i <= s.len(),
        f1 >= 5 * (s.len() - i) + 2,
        f2 >= 5 * (s.len() - i) + 2,
    ensures
        parse_unary(s, i, f1) == parse_unary(s, i, f2),
        parse_unary(s, i, f1) matches Ok(p) ==> i + 1 <= p.1 <= s.len(),
    decreases s.len() - i, 1int,
{
    lemma_skip_bounds(s, i);
    let j = skip_spaces(s, i);
    if j < s.len() && s[j] == '-' {
        lemma_fuel_unary(s, j + 1, (f1 - 1) as nat, (f2 - 1) as nat);
    } else {
        lemma_fuel_atom(s, j, (f1 - 1) as nat, (f2 - 1) as nat);
    }
}

proof fn lemma_fuel_atom(s: Seq<char>, i: int, f1: nat, f2: nat)
    requires
        0 <= i <= s.len(),
        f1 >= 5 * (s.len() - i) + 1,
        f2 >= 5 * (s.len() - i) + 1,
    ensures
        parse_atom(s, i, f1) == parse_atom(s, i, f2),
        parse_atom(s, i, f1) matches Ok(p) ==> i + 1 <= p.1 <= s.len(),
    decreases s.len() - i, 0int,
{
    lemma_skip_bounds(s, i);
    let j = skip_spaces(s, i);
    if j < s.len() {
        if is_digit_char(s[j]) || s[j] == '.' {
            lemma_scan_number_bounds(s, j);
            let end = scan_number_end(s, j);
            if digits_in(s, j, end) >= 1 {
                assert(end > j) by {
                    if end <= j {
                        assert(digits_in(s, j, end) == 0);
                    }
                }
            }
        } else if is_name_start_char(s[j]) {
            let end = scan_name_end(s, j);
            assert(end > j) by {
                assert(is_name_char(s[j]));
                lemma_scan_name_bounds(s, j + 1);
                assert(scan_name_end(s, j) == scan_name_end(s, j + 1));
            }
            lemma_scan_name_bounds(s, j);
            lemma_skip_bounds(s, end);
            let k = skip_spaces(s, end);
            if k < s.len() && s[k] == '(' {
                if func_of_name(s.subrange(j, end)) is Some {
                    lemma_fuel_expression(s, k + 1, (f1 - 1) as nat, (f2 - 1) as nat);
                }
            }
        } else if s[j] == '(' {
            lemma_fuel_expression(s, j + 1, (f1 - 1) as nat, (f2 - 1) as nat);
        }
    }
}

/// The allowance never cuts a parse short: any two allowances of at
/// least five units per character plus five parse the whole text
/// alike. `fuel_for` grants six per character plus six, so what
/// `compile_model` accepts and returns is decided by the grammar
/// alone.
pub proof fn lemma_fuel_ample(s: Seq<char>, f1: nat, f2: nat)
    requires
        f1 >= 5 * s.len() + 5,
        f2 >= 5 * s.len() + 5,
    ensures
        parse_expression(s, 0, f1) == parse_expression(s, 0, f2),
        parse_expression(s, 0, fuel_for(s)) == parse_expression(s, 0, f1),
{
    lemma_fuel_expression(s, 0, f1, f2);
    lemma_fuel_expression(s, 0, fuel_for(s), f1);
}

// ---------------------------------------------------------------------
// The executable parser, proved against the grammar above
// ---------------------------------------------------------------------

/// The executable result agrees with what the grammar denotes.
pub open spec fn agrees(
    r: Result<(Expr, usize), CompileError>,
    m: Result<(ExprModel, int), CompileError>,
) -> bool {
    match r {
        Ok((e, j)) => m == Ok::<(ExprModel, int), CompileError>((e@, j as int)),
        Err(er) => m == Err::<(ExprModel, int), CompileError>(er),
    }
}

fn parse_expression_exec(text: &str, chars: &Vec<char>, i: usize, fuel: usize) -> (r: Result<
    (Expr, usize),
    CompileError,
>)
    requires
        chars@ == text@,
        i <= chars@.len(),
    ensures
        agrees(r, parse_expression(chars@, i as int, fuel as nat)),
        r matches Ok(p) ==> p.1 <= chars@.len(),
    decreases fuel,
{
    if fuel == 0 {
        Err(CompileError::ExpectedOperand)
    } else {
        match parse_term_exec(text, chars, i, fuel - 1) {
            Err(e) => Err(e),
            Ok((lhs, j)) => parse_sum_rest_exec(text, chars, j, lhs, fuel - 1),
        }
    }
}

fn parse_sum_rest_exec(text: &str, chars: &Vec<char>, i: usize, acc: Expr, fuel: usize) -> (r:
    Result<(Expr, usize), CompileError>)
    requires
        chars@ == text@,
        i <= chars@.len(),
    ensures
        agrees(r, parse_sum_rest(chars@, i as int, acc@, fuel as nat)),
        r matches Ok(p) ==> p.1 <= chars@.len(),
    decreases fuel,
{
    if fuel == 0 {
        Err(CompileError::ExpectedOperand)
    } else {
        let j = skip_spaces_exec(chars, i);
        if j < chars.len() && (chars[j] == '+' || chars[j] == '-') {
            let op = if chars[j] == '+' {
                BinOp::Add
            } else {
                BinOp::Sub
            };
            match parse_term_exec(text, chars, j + 1, fuel - 1) {
                Err(e) => Err(e),
                Ok((rhs, k)) => parse_sum_rest_exec(
                    text,
                    chars,
                    k,
                    Expr::Bin(op, Box::new(acc), Box::new(rhs)),
                    fuel - 1,
                ),
            }
        } else {
            Ok((acc, j))
        }
    }
}

fn parse_term_exec(text: &str, chars: &Vec<char>, i: usize, fuel: usize) -> (r: Result<
    (Expr, usize),
    CompileError,
>)
    requires
        chars@ == text@,
        i <= chars@.len(),
    ensures
        agrees(r, parse_term(chars@, i as int, fuel as nat)),
        r matches Ok(p) ==> p.1 <= chars@.len(),
    decreases fuel,
{
    if fuel == 0 {
        Err(CompileError::ExpectedOperand)
    } else {
        match parse_power_exec(text, chars, i, fuel - 1) {
            Err(e) => Err(e),
            Ok((lhs, j)) => parse_product_rest_exec(text, chars, j, lhs, fuel - 1),
        }
    }
}

fn parse_product_rest_exec(text: &str, chars: &Vec<char>, i: usize, acc: Expr, fuel: usize) -> (r:
    Result<(Expr, usize), CompileError>)
    requires
        chars@ == text@,
        i <= chars@.len(),
    ensures
        agrees(r, parse_product_rest(chars@, i as int, acc@, fuel as nat)),
        r matches Ok(p) ==> p.1 <= chars@.len(),
    decreases fuel,
{
    if fuel == 0 {
        Err(CompileError::ExpectedOperand)
    } else {
        let j = skip_spaces_exec(chars, i);
        if j < chars.len() && (chars[j] == '*' || chars[j] == '/') {
            let op = if chars[j] == '*' {
                BinOp::Mul
            } else {
                BinOp::Div
            };
            match parse_power_exec(text, chars, j + 1, fuel - 1) {
                Err(e) => Err(e),
                Ok((rhs, k)) => parse_product_rest_exec(
                    text,
                    chars,
                    k,
                    Expr::Bin(op, Box::new(acc), Box::new(rhs)),
                    fuel - 1,
                ),
            }
        } else {
            Ok((acc, j))
        }
    }
}

fn parse_power_exec(text: &str, chars: &Vec<char>, i: usize, fuel: usize) -> (r: Result<
    (Expr, usize),
    CompileError,
>)
    requires
        chars@ == text@,
        i <= chars@.len(),
    ensures
        agrees(r, parse_power(chars@, i as int, fuel as nat)),
        r matches Ok(p) ==> p.1 <= chars@.len(),
    decreases fuel,
{
    if fuel == 0 {
        Err(CompileError::ExpectedOperand)
    } else {
        match parse_unary_exec(text, chars, i, fuel - 1) {
            Err(e) => Err(e),
            Ok((base, j)) => {
                let k = skip_spaces_exec(chars, j);
                if k < chars.len() && chars[k] == '^' {
                    match parse_power_exec(text, chars, k + 1, fuel - 1) {
                        Err(e) => Err(e),
                        Ok((ex, m)) => Ok(
                            (Expr::Bin(BinOp::Pow, Box::new(base), Box::new(ex)), m),
                        ),
                    }
                } else {
                    Ok((base, k))
                }
            },
        }
    }
}

fn parse_unary_exec(text: &str, chars: &Vec<char>, i: usize, fuel: usize) -> (r: Result<
    (Expr, usize),
    CompileError,
>)
    requires
        chars@ == text@,
        i <= chars@.len(),
    ensures
        agrees(r, parse_unary(chars@, i as int, fuel as nat)),
        r matches Ok(p) ==> p.1 <= chars@.len(),
    decreases fuel,
{
    if fuel == 0 {
        Err(CompileError::ExpectedOperand)
    } else {
        let j = skip_spaces_exec(chars, i);
        if j < chars.len() && chars[j] == '-' {
            match parse_unary_exec(text, chars, j + 1, fuel - 1) {
                Err(e) => Err(e),
                Ok((inner, m)) => Ok((Expr::Neg(Box::new(inner)), m)),
            }
        } else {
            parse_atom_exec(text, chars, j, fuel - 1)
        }
    }
}

fn parse_atom_exec(text: &str, chars: &Vec<char>, i: usize, fuel: usize) -> (r: Result<
    (Expr, usize),
    CompileError,
>)
    requires
        chars@ == text@,
        i <= chars@.len(),
    ensures
        agrees(r, parse_atom(chars@, i as int, fuel as nat)),
        r matches Ok(p) ==> p.1 <= chars@.len(),
    decreases fuel,
{
    if fuel == 0 {
        Err(CompileError::ExpectedOperand)
    } else {
        let j = skip_spaces_exec(chars, i);
        if j >= chars.len() {
            Err(CompileError::ExpectedOperand)
        } else if digit_char(chars[j]) || chars[j] == '.' {
            let end = scan_number_end_exec(chars, j);
            let digits = digits_in_exec(chars, j, end);
            let dots = dots_in_exec(chars, j, end);
            if digits >= 1 && dots <= 1 {
                let lit = text.substring_char(j, end).to_owned();
                Ok((Expr::Num(lit), end))
            } else {
                Err(CompileError::MalformedNumber)
            }
        } else if name_start_char(chars[j]) {
            let end = scan_name_end_exec(chars, j);
            let name = text.substring_char(j, end);
            let k = skip_spaces_exec(chars, end);
            if k < chars.len() && chars[k] == '(' {
                match func_of_name_exec(name) {
                    None => Err(CompileError::UnknownFunction),
                    Some(f) => match parse_expression_exec(text, chars, k + 1, fuel - 1) {
                        Err(e) => Err(e),
                        Ok((arg, m)) => if m < chars.len() && chars[m] == ')' {
                            Ok((Expr::Apply(f, Box::new(arg)), m + 1))
                        } else {
                            Err(CompileError::UnbalancedParen)
                        },
                    },
                }
            } else {
                match const_of_name_exec(name) {
                    Some(c) => Ok((Expr::Const(c), end)),
                    None => Ok((Expr::Var(name.to_owned()), end)),
                }
            }
        } else if chars[j] == '(' {
            match parse_expression_exec(text, chars, j + 1, fuel - 1) {
                Err(e) => Err(e),
                Ok((inner, m)) => if m < chars.len() && chars[m] == ')' {
                    Ok((inner, m + 1))
                } else {
                    Err(CompileError::UnbalancedParen)
                },
            }
        } else {
            Err(CompileError::UnexpectedChar)
        }
    }
}

// ---------------------------------------------------------------------
// Free variables
// ---------------------------------------------------------------------

/// Append the free variables of `e` to `acc`, in order of first
/// occurrence, without repeating a name.
pub open spec fn add_vars(e: ExprModel, acc: Seq<Seq<char>>) -> Seq<Seq<char>>
    decreases e,
{
    match e {
        ExprModel::Num(_) => acc,
        ExprModel::Var(n) => if acc.contains(n) {
            acc
        } else {
            acc.push(n)
        },
        ExprModel::Const(_) => acc,
        ExprModel::Neg(b) => add_vars(*b, acc),
        ExprModel::Apply(_, b) => add_vars(*b, acc),
        ExprModel::Bin(_, l, r) => add_vars(*r, add_vars(*l, acc)),
    }
}

/// The free variables of `e`, in order of first occurrence.
pub open spec fn vars_of(e: ExprModel) -> Seq<Seq<char>> {
    add_vars(e, Seq::empty())
}

/// Whether the expression mentions a variable at all.
pub open spec fn uses_var(e: ExprModel) -> bool
    decreases e,
{
    match e {
        ExprModel::Num(_) => false,
        ExprModel::Var(_) => true,
        ExprModel::Const(_) => false,
        ExprModel::Neg(b) => uses_var(*b),
        ExprModel::Apply(_, b) => uses_var(*b),
        ExprModel::Bin(_, l, r) => uses_var(*l) || uses_var(*r),
    }
}

/// A variable mentioned in `e`, when one is.
spec fn some_var(e: ExprModel) -> Seq<char>
    decreases e,
{
    match e {
        ExprModel::Var(n) => n,
        ExprModel::Neg(b) => some_var(*b),
        ExprModel::Apply(_, b) => some_var(*b),
        ExprModel::Bin(_, l, r) => if uses_var(*l) {
            some_var(*l)
        } else {
            some_var(*r)
        },
        _ => Seq::empty(),
    }
}

proof fn lemma_add_vars(e: ExprModel, acc: Seq<Seq<char>>)
    ensures
        forall|x: Seq<char>| acc.contains(x) ==> add_vars(e, acc).contains(x),
        uses_var(e) ==> add_vars(e, acc).contains(some_var(e)),
        !uses_var(e) ==> add_vars(e, acc) == acc,
    decreases e,
{
    match e {
        ExprModel::Var(n) => {
            if !acc.contains(n) {
                assert(acc.push(n)[acc.len() as int] == n);
                assert forall|x: Seq<char>| acc.contains(x) implies acc.push(n).contains(x) by {
                    let k = choose|k: int| 0 <= k < acc.len() && acc[k] == x;
                    assert(acc.push(n)[k] == x);
                }
            }
        },
        ExprModel::Neg(b) => {
            lemma_add_vars(*b, acc);
        },
        ExprModel::Apply(_, b) => {
            lemma_add_vars(*b, acc);
        },
        ExprModel::Bin(_, l, r) => {
            lemma_add_vars(*l, acc);
            lemma_add_vars(*r, add_vars(*l, acc));
        },
        _ => {},
    }
}

fn contains_string(v: &Vec<String>, s: &String) -> (r: bool)
    ensures
        r == v.deep_view().contains(s@),
{
    let mut i: usize = 0;
    while i < v.len()
        invariant
            i <= v@.len(),
            forall|k: int| 0 <= k < i ==> v.deep_view()[k] != s@,
        decreases v@.len() - i,
    {
        if str_eq(v[i].as_str(), s.as_str()) {
            proof {
                assert(v.deep_view()[i as int] == s@);
            }
            return true;
        }
        i = i + 1;
    }
    false
}

fn collect_vars(e: &Expr, acc: &mut Vec<String>)
    ensures
        final(acc).deep_view() == add_vars(e@, old(acc).deep_view()),
    decreases e,
{
    match e {
        Expr::Num(_) => {},
        Expr::Const(_) => {},
        Expr::Var(n) => {
            if !contains_string(acc, n) {
                let ghost before = acc.deep_view();
                acc.push(n.clone());
                proof {
                    assert(acc.deep_view() =~= before.push(n@));
                }
            }
        },
        Expr::Neg(b) => {
            collect_vars(&**b, acc);
        },
        Expr::Apply(_, b) => {
            collect_vars(&**b, acc);
        },
        Expr::Bin(_, l, r) => {
            collect_vars(&**l, acc);
            collect_vars(&**r, acc);
        },
    }
}

// ---------------------------------------------------------------------
// The compiled expression
// ---------------------------------------------------------------------

/// A formula compiled and ready for repeated evaluation: the syntax
/// tree together with its free-variable names in order of first
/// occurrence.
#[derive(Debug)]
pub struct CompiledExpr {
    ast: Expr,
    vars: Vec<String>,
}

impl View for CompiledExpr {
    type V = ExprModel;

    closed spec fn view(&self) -> ExprModel {
        self.ast@
    }
}

impl CompiledExpr {
    /// The free-variable names, in order of first occurrence.
    pub closed spec fn vars_model(&self) -> Seq<Seq<char>> {
        self.vars.deep_view()
    }

    /// The stored variable list is exactly the tree's free variables.
    pub closed spec fn wf(&self) -> bool {
        self.vars.deep_view() == vars_of(self.ast@)
    }

    /// The set of free variable names, order preserved.
    pub fn variables(&self) -> (r: &Vec<String>)
        ensures
            r.deep_view() == self.vars_model(),
    {
        &self.vars
    }

    /// How many free variables the expression binds.
    pub fn var_count(&self) -> (n: usize)
        ensures
            n == self.vars_model().len(),
    {
        self.vars.len()
    }

    /// The syntax tree, for an evaluating caller to walk.
    pub fn ast(&self) -> (r: &Expr)
        ensures
            r@ == self@,
    {
        &self.ast
    }

    /// An independent copy with the same model; each formula entry owns
    /// its own compiled expression and never shares one.
    pub fn duplicate(&self) -> (r: Self)
        ensures
            r@ == self@,
            r.wf(),
            self.wf() ==> r.vars_model() == self.vars_model(),
    {
        let ast = clone_expr(&self.ast);
        let mut vars: Vec<String> = Vec::new();
        proof {
            assert(vars.deep_view() =~= Seq::<Seq<char>>::empty());
        }
        collect_vars(&ast, &mut vars);
        CompiledExpr { ast, vars }
    }
}

fn clone_expr(e: &Expr) -> (r: Expr)
    ensures
        r@ == e@,
    decreases e,
{
    match e {
        Expr::Num(s) => Expr::Num(s.clone()),
        Expr::Var(s) => Expr::Var(s.clone()),
        Expr::Const(c) => Expr::Const(*c),
        Expr::Neg(b) => Expr::Neg(Box::new(clone_expr(&**b))),
        Expr::Apply(f, b) => Expr::Apply(*f, Box::new(clone_expr(&**b))),
        Expr::Bin(op, l, r2) => Expr::Bin(
            *op,
            Box::new(clone_expr(&**l)),
            Box::new(clone_expr(&**r2)),
        ),
    }
}

/// The text's characters, one by one.
pub(crate) fn chars_of(text: &str) -> (r: Vec<char>)
    ensures
        r@ == text@,
{
    let n = text.unicode_len();
    let mut chars: Vec<char> = Vec::new();
    let mut i: usize = 0;
    while i < n
        invariant
            n == text@.len(),
            i <= n,
            chars@ == text@.subrange(0, i as int),
        decreases n - i,
    {
        chars.push(text.get_char(i));
        i = i + 1;
        proof {
            assert(chars@ =~= text@.subrange(0, i as int));
        }
    }
    proof {
        assert(text@.subrange(0, n as int) =~= text@);
    }
    chars
}

/// Compile formula text: parse the whole of it against the grammar and
/// record the free variables, or report the first error met.
pub fn compile(text: &str) -> (r: Result<CompiledExpr, CompileError>)
    requires
        text@.len() <= 100_000_000,  // the recursion allowance must fit a machine word
    ensures
        match r {
            Ok(c) => compile_model(text@) == Ok::<ExprModel, CompileError>(c@) && c.wf()
                && c.vars_model() == vars_of(c@),
            Err(e) => compile_model(text@) == Err::<ExprModel, CompileError>(e),
        },
{
    let n = text.unicode_len();
    let chars = chars_of(text);
    let fuel = 6 * n + 6;
    match parse_expression_exec(text, &chars, 0, fuel) {
        Err(e) => Err(e),
        Ok((ast, j)) => {
            if j == chars.len() {
                let mut vars: Vec<String> = Vec::new();
                proof {
                    assert(vars.deep_view() =~= Seq::<Seq<char>>::empty());
                }
                collect_vars(&ast, &mut vars);
                Ok(CompiledExpr { ast, vars })
            } else {
                Err(CompileError::TrailingInput)
            }
        },
    }
}

// ---------------------------------------------------------------------
// Laws
// ---------------------------------------------------------------------

/// A compiled expression has no free variable exactly when its tree
/// mentions none; such an expression denotes the same value whatever
/// input it is sampled at, which is what makes it plot as a horizontal
/// line.
pub proof fn lemma_variable_free(c: CompiledExpr)
    requires
        c.wf(),
    ensures
        c.vars_model().len() == 0 <==> !uses_var(c@),
{
    lemma_add_vars(c@, Seq::empty());
    if uses_var(c@) {
        assert(vars_of(c@).contains(some_var(c@)));
    }
}

/// Well-formedness ties the stored variable list to the tree: what
/// `variables` hands out is exactly the tree's free variables.
pub proof fn lemma_wf_vars(c: CompiledExpr)
    requires
        c.wf(),
    ensures
        c.vars_model() == vars_of(c@),
{
}

/// The tree with every variable leaf replaced by `x`: evaluation binds
/// the sole free variable by substitution, so an evaluator reads the
/// expression only through this tree.
pub open spec fn bind_input(e: ExprModel, x: ExprModel) -> ExprModel
    decreases e,
{
    match e {
        ExprModel::Num(_) => e,
        ExprModel::Var(_) => x,
        ExprModel::Const(_) => e,
        ExprModel::Neg(b) => ExprModel::Neg(Box::new(bind_input(*b, x))),
        ExprModel::Apply(f, b) => ExprModel::Apply(f, Box::new(bind_input(*b, x))),
        ExprModel::Bin(op, l, r) => ExprModel::Bin(
            op,
            Box::new(bind_input(*l, x)),
            Box::new(bind_input(*r, x)),
        ),
    }
}

proof fn lemma_bind_input_blind(e: ExprModel, x1: ExprModel, x2: ExprModel)
    requires
        !uses_var(e),
    ensures
        bind_input(e, x1) == bind_input(e, x2),
    decreases e,
{
    match e {
        ExprModel::Neg(b) => {
            lemma_bind_input_blind(*b, x1, x2);
        },
        ExprModel::Apply(_, b) => {
            lemma_bind_input_blind(*b, x1, x2);
        },
        ExprModel::Bin(_, l, r) => {
            lemma_bind_input_blind(*l, x1, x2);
            lemma_bind_input_blind(*r, x1, x2);
        },
        _ => {},
    }
}

/// A compiled expression with no free variable is blind to its input:
/// binding any two inputs yields the same tree, so sampling it at any
/// number of positions yields that many equal values — the horizontal
/// line.
pub proof fn lemma_constant_expression_ignores_input(
    c: CompiledExpr,
    x1: ExprModel,
    x2: ExprModel,
)
    requires
        c.wf(),
        c.vars_model().len() == 0,
    ensures
        bind_input(c@, x1) == bind_input(c@, x2),
{
    lemma_variable_free(c);
    lemma_bind_input_blind(c@, x1, x2);
}

/// Compilation is deterministic: recompiling identical text yields
/// compiled expressions with identical models and identical variable
/// lists, so the two evaluate identically at every input.
pub proof fn lemma_recompilation_deterministic(
    t1: Seq<char>,
    t2: Seq<char>,
    c1: CompiledExpr,
    c2: CompiledExpr,
)
    requires
        t1 == t2,
        c1.wf(),
        c2.wf(),
        compile_model(t1) == Ok::<ExprModel, CompileError>(c1@),
        compile_model(t2) == Ok::<ExprModel, CompileError>(c2@),
    ensures
        c1@ == c2@,
        c1.vars_model() == c2.vars_model(),
{
}

} // verus!
