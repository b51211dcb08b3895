//! What the attributes for the kernel's entry point and for interrupt
//! handlers compute: their arguments are read, the size of the stack is
//! worked out, and the assembly that calls the function is written.

use vstd::prelude::*;
use vstd::string::*;

use crate::text::{decimal, decimal_digits, parse_decimal, spec_parse_decimal};

verus! {

/// The operators with one operand.
#[derive(Clone, Copy, PartialEq, Eq, Structural, Debug)]
pub enum UnaryOp {
    /// `-`
    Neg,
    /// Any other.
    Other,
}

/// The operators with two operands.
#[derive(Clone, Copy, PartialEq, Eq, Structural, Debug)]
pub enum BinaryOp {
    /// `+`
    Add,
    /// `&`
    BitAnd,
    /// `|`
    BitOr,
    /// `^`
    BitXor,
    /// `/`
    Div,
    /// `*`
    Mul,
    /// `%`
    Rem,
    /// `<<`
    Shl,
    /// `>>`
    Shr,
    /// `-`
    Sub,
    /// Any other.
    Other,
}

/// An expression, as far as the size of a stack can be written with it.
#[derive(Debug)]
pub enum IntExpr {
    /// An integer literal, by its decimal digits.
    Int(String),
    /// A literal that is no integer.
    OtherLiteral,
    /// An operator and its operand.
    Unary(UnaryOp, Box<IntExpr>),
    /// An operator and its operands, the left one first.
    Binary(BinaryOp, Box<IntExpr>, Box<IntExpr>),
    /// An expression in parentheses.
    Paren(Box<IntExpr>),
    /// Any other expression.
    Other,
}

/// Why an expression has no value.
#[derive(Clone, Copy, PartialEq, Eq, Structural, Debug)]
pub enum EvalError {
    /// An integer literal does not fit.
    BadLiteral,
    /// A part of the expression is neither an integer nor made of integers
    /// by operators.
    NotInteger,
    /// An operator is none of those that are known.
    BadOperator,
    /// A sum, difference, product, quotient or negative does not fit.
    Overflow,
    /// A division by zero.
    DivisionByZero,
    /// A shift by less than zero or by 64 or more.
    BadShift,
}

/// Whether `value` is a number of type `i64`.
pub open spec fn fits_i64(value: int) -> bool {
    i64::MIN <= value <= i64::MAX
}

/// The quotient of `a` by `b`, which is not zero, rounded towards zero.
pub open spec fn truncated_quotient(a: int, b: int) -> int {
    if a >= 0 {
        if b > 0 {
            a / b
        } else {
            -(a / (-b))
        }
    } else {
        if b > 0 {
            -((-a) / b)
        } else {
            (-a) / (-b)
        }
    }
}

/// What is left of `a` when it is divided by `b`, which is not zero, with
/// the quotient rounded towards zero: it has the sign of `a`.
pub open spec fn truncated_remainder(a: int, b: int) -> int {
    if a >= 0 {
        if b > 0 {
            a % b
        } else {
            a % (-b)
        }
    } else {
        if b > 0 {
            -((-a) % b)
        } else {
            -((-a) % (-b))
        }
    }
}

/// The value of `-operand`, or of another operator with one operand.
pub open spec fn spec_unary(op: UnaryOp, operand: i64) -> Result<i64, EvalError> {
    match op {
        UnaryOp::Neg => if fits_i64(-operand) {
            Ok((-operand) as i64)
        } else {
            Err(EvalError::Overflow)
        },
        UnaryOp::Other => Err(EvalError::BadOperator),
    }
}

/// The value of `left op right`.
pub open spec fn spec_binary(op: BinaryOp, left: i64, right: i64) -> Result<i64, EvalError> {
    match op {
        BinaryOp::Add => if fits_i64(left + right) {
            Ok((left + right) as i64)
        } else {
            Err(EvalError::Overflow)
        },
        BinaryOp::Sub => if fits_i64(left - right) {
            Ok((left - right) as i64)
        } else {
            Err(EvalError::Overflow)
        },
        BinaryOp::Mul => if fits_i64(left * right) {
            Ok((left * right) as i64)
        } else {
            Err(EvalError::Overflow)
        },
        BinaryOp::Div => if right == 0 {
            Err(EvalError::DivisionByZero)
        } else if fits_i64(truncated_quotient(left as int, right as int)) {
            Ok(truncated_quotient(left as int, right as int) as i64)
        } else {
            Err(EvalError::Overflow)
        },
        BinaryOp::Rem => if right == 0 {
            Err(EvalError::DivisionByZero)
        } else if fits_i64(truncated_quotient(left as int, right as int)) {
            Ok(truncated_remainder(left as int, right as int) as i64)
        } else {
            Err(EvalError::Overflow)
        },
        BinaryOp::BitAnd => Ok(left & right),
        BinaryOp::BitOr => Ok(left | right),
        BinaryOp::BitXor => Ok(left ^ right),
        BinaryOp::Shl => if 0 <= right < 64 {
            Ok(left << right)
        } else {
            Err(EvalError::BadShift)
        },
        BinaryOp::Shr => if 0 <= right < 64 {
            Ok(left >> right)
        } else {
            Err(EvalError::BadShift)
        },
        BinaryOp::Other => Err(EvalError::BadOperator),
    }
}

/// The value of an expression: that of an integer literal, of an
/// expression in parentheses, or of an operator on the values of its
/// operands. The operands are worked out before the operator is looked at,
/// the left one first, and the first failure is the failure of the whole.
pub open spec fn spec_into_int(expr: IntExpr) -> Result<i64, EvalError>
    decreases expr,
{
    match expr {
        IntExpr::Int(digits) => match spec_parse_decimal(digits@) {
            Some(value) => Ok(value),
            None => Err(EvalError::BadLiteral),
        },
        IntExpr::OtherLiteral => Err(EvalError::NotInteger),
        IntExpr::Unary(op, operand) => match spec_into_int(*operand) {
            Ok(value) => spec_unary(op, value),
            Err(error) => Err(error),
        },
        IntExpr::Binary(op, left, right) => match spec_into_int(*left) {
            Ok(l) => match spec_into_int(*right) {
                Ok(r) => spec_binary(op, l, r),
                Err(error) => Err(error),
            },
            Err(error) => Err(error),
        },
        IntExpr::Paren(inner) => spec_into_int(*inner),
        IntExpr::Other => Err(EvalError::NotInteger),
    }
}

/// The value of `left op right`.
pub fn binary(op: BinaryOp, left: i64, right: i64) -> (value: Result<i64, EvalError>)
    ensures
        value == spec_binary(op, left, right),
{
    match op {
        BinaryOp::Add => {
            if (right >= 0 && left > i64::MAX - right) || (right < 0 && left < i64::MIN - right) {
                Err(EvalError::Overflow)
            } else {
                Ok(left + right)
            }
        },
        BinaryOp::Sub => {
            if (right >= 0 && left < i64::MIN + right) || (right < 0 && left > i64::MAX + right) {
                Err(EvalError::Overflow)
            } else {
                Ok(left - right)
            }
        },
        BinaryOp::Mul => {
            match left.checked_mul(right) {
                Some(product) => Ok(product),
                None => Err(EvalError::Overflow),
            }
        },
        BinaryOp::Div => {
            if right == 0 {
                Err(EvalError::DivisionByZero)
            } else {
                match left.checked_div(right) {
                    Some(quotient) => Ok(quotient),
                    None => Err(EvalError::Overflow),
                }
            }
        },
        BinaryOp::Rem => {
            if right == 0 {
                Err(EvalError::DivisionByZero)
            } else {
                proof {
                    lemma_division(left as int, right as int);
                }
                match left.checked_rem(right) {
                    Some(remainder) => Ok(remainder),
                    None => Err(EvalError::Overflow),
                }
            }
        },
        BinaryOp::BitAnd => Ok(left & right),
        BinaryOp::BitOr => Ok(left | right),
        BinaryOp::BitXor => Ok(left ^ right),
        BinaryOp::Shl => {
            if 0 <= right && right < 64 {
                Ok(left << right)
            } else {
                Err(EvalError::BadShift)
            }
        },
        BinaryOp::Shr => {
            if 0 <= right && right < 64 {
                Ok(left >> right)
            } else {
                Err(EvalError::BadShift)
            }
        },
        BinaryOp::Other => Err(EvalError::BadOperator),
    }
}

/// The quotient of two numbers of type `i64` fits unless the least number
/// is divided by -1; the remainder always does, and the dividend is the
/// divisor times the quotient plus the remainder.
pub proof fn lemma_division(a: int, b: int)
    requires
        fits_i64(a),
        fits_i64(b),
        b != 0,
    ensures
        fits_i64(truncated_quotient(a, b)) <==> !(a == i64::MIN && b == -1),
        fits_i64(truncated_remainder(a, b)),
        a == b * truncated_quotient(a, b) + truncated_remainder(a, b),
{
    let x = if a >= 0 {
        a
    } else {
        -a
    };
    let d = if b > 0 {
        b
    } else {
        -b
    };
    vstd::arithmetic::div_mod::lemma_fundamental_div_mod(x, d);
    assert(0 <= x % d < d);
    assert(0 <= x / d <= x) by (nonlinear_arith)
        requires
            x >= 0,
            d > 0,
    ;
    assert(b * (-(x / d)) == -(b * (x / d))) by (nonlinear_arith);
    assert((-b) * (x / d) == -(b * (x / d))) by (nonlinear_arith);
    if a == i64::MIN && d >= 2 {
        assert(x / d <= x / 2) by (nonlinear_arith)
            requires
                x >= 0,
                d >= 2,
        ;
    }
    if d == 1 {
        assert(x / 1 == x);
    }
}

/// Works out the value of an expression.
pub fn into_int(expr: &IntExpr) -> (value: Result<i64, EvalError>)
    ensures
        value == spec_into_int(*expr),
    decreases expr,
{
    match expr {
        IntExpr::Int(digits) => match parse_decimal(digits.as_str()) {
            Some(value) => Ok(value),
            None => Err(EvalError::BadLiteral),
        },
        IntExpr::OtherLiteral => Err(EvalError::NotInteger),
        IntExpr::Unary(op, operand) => {
            let size = match into_int(operand) {
                Ok(size) => size,
                Err(error) => {
                    return Err(error);
                },
            };
            match op {
                UnaryOp::Neg => {
                    if size == i64::MIN {
                        Err(EvalError::Overflow)
                    } else {
                        Ok(-size)
                    }
                },
                UnaryOp::Other => Err(EvalError::BadOperator),
            }
        },
        IntExpr::Binary(op, left, right) => {
            let left = match into_int(left) {
                Ok(left) => left,
                Err(error) => {
                    return Err(error);
                },
            };
            let right = match into_int(right) {
                Ok(right) => right,
                Err(error) => {
                    return Err(error);
                },
            };
            binary(*op, left, right)
        },
        IntExpr::Paren(inner) => into_int(inner),
        IntExpr::Other => Err(EvalError::NotInteger),
    }
}


/// One token of the arguments of an attribute.
#[derive(Debug)]
pub enum Token {
    /// A punctuation character.
    Punct(char),
    /// An identifier.
    Ident(String),
    /// A literal.
    Literal(String),
    /// Tokens in parentheses, brackets or braces.
    Group(String),
}

/// Whether `token` is a comma.
pub open spec fn is_comma(token: Token) -> bool {
    token matches Token::Punct(c) && c == ','
}

/// A run of tokens: the index of its first token and the index after its
/// last.
#[derive(Clone, Copy, PartialEq, Eq, Structural, Debug)]
pub struct Span {
    pub start: usize,
    pub end: usize,
}

/// The arguments among the tokens from `at` on, the first of which began at
/// `start`: each comma ends an argument, which may be empty, and what stands
/// after the last comma is an argument unless it is empty.
pub open spec fn arguments_from(tokens: Seq<Token>, start: int, at: int) -> Seq<Span>
    decreases tokens.len() - at,
{
    if at >= tokens.len() {
        if start < tokens.len() {
            seq![Span { start: start as usize, end: tokens.len() as usize }]
        } else {
            Seq::empty()
        }
    } else if is_comma(tokens[at]) {
        seq![Span { start: start as usize, end: at as usize }] + arguments_from(
            tokens,
            at + 1,
            at + 1,
        )
    } else {
        arguments_from(tokens, start, at + 1)
    }
}

/// The arguments that the commas part `tokens` into.
pub open spec fn spec_split_arguments(tokens: Seq<Token>) -> Seq<Span> {
    arguments_from(tokens, 0, 0)
}

/// Parts the tokens into arguments at the commas.
pub fn split_arguments(tokens: &Vec<Token>) -> (arguments: Vec<Span>)
    ensures
        arguments@ == spec_split_arguments(tokens@),
        forall|k: int|
            0 <= k < arguments@.len() ==> (#[trigger] arguments@[k]).start <= arguments@[k].end
                <= tokens@.len(),
{
    let mut arguments: Vec<Span> = Vec::new();
    let mut start: usize = 0;
    let mut at: usize = 0;
    while at < tokens.len()
        invariant
            start <= at <= tokens@.len(),
            arguments@ + arguments_from(tokens@, start as int, at as int) == spec_split_arguments(
                tokens@,
            ),
            forall|k: int|
                0 <= k < arguments@.len() ==> (#[trigger] arguments@[k]).start
                    <= arguments@[k].end <= tokens@.len(),
        decreases tokens@.len() - at,
    {
        let comma = match &tokens[at] {
            Token::Punct(c) => *c == ',',
            _ => false,
        };
        if comma {
            proof {
                assert(arguments@.push(Span { start, end: at }) + arguments_from(
                    tokens@,
                    at + 1,
                    at + 1,
                ) =~= arguments@ + arguments_from(tokens@, start as int, at as int));
            }
            arguments.push(Span { start, end: at });
            start = at + 1;
        }
        at = at + 1;
    }
    if start < tokens.len() {
        proof {
            assert(arguments@.push(Span { start, end: tokens@.len() as usize }) =~= arguments@
                + arguments_from(tokens@, start as int, at as int));
        }
        arguments.push(Span { start, end: tokens.len() });
    } else {
        proof {
            assert(arguments@ =~= arguments@ + arguments_from(tokens@, start as int, at as int));
        }
    }
    arguments
}

/// Why an attribute cannot be used as it is written.
#[derive(Clone, Copy, PartialEq, Eq, Structural, Debug)]
pub enum AttributeError {
    /// The attribute has not two arguments.
    ArgumentCount,
    /// The second argument does not begin with the name of a constant.
    SizeNameExpected,
    /// No `=` follows the name of the constant.
    EqualsExpected,
    /// The size of the stack has no value.
    Size(EvalError),
    /// The size of the stack is zero or less, or too large for an address.
    SizeNotPositive,
    /// The first argument is not one identifier.
    StackNameExpected,
    /// The handler has neither one parameter nor two.
    ParameterCount,
}

/// What the arguments of the attribute for the entry point say, before the
/// size is worked out.
pub struct StackDeclaration {
    /// The tokens of the first argument, which names the stack.
    pub stack: Span,
    /// The name of the constant that is to hold the size of the stack.
    pub size_name: String,
    /// The tokens of the expression for the size.
    pub size: Span,
}

/// Whether the tokens have the shape `stack, NAME = size`.
pub open spec fn declaration_error(tokens: Seq<Token>) -> Option<AttributeError> {
    let arguments = spec_split_arguments(tokens);
    if arguments.len() != 2 {
        Some(AttributeError::ArgumentCount)
    } else {
        let second = arguments[1];
        if second.start >= second.end || !(tokens[second.start as int] is Ident) {
            Some(AttributeError::SizeNameExpected)
        } else if second.start + 1 >= second.end || !(tokens[second.start + 1]
            == Token::Punct('=')) {
            Some(AttributeError::EqualsExpected)
        } else {
            None
        }
    }
}

/// Reads the arguments `stack, NAME = size` of the attribute for the entry
/// point: there are two; the second begins with an identifier, the name of
/// the constant, and an equals sign; the rest of it is the expression for
/// the size.
pub fn read_stack_declaration(tokens: &Vec<Token>) -> (declaration: Result<
    StackDeclaration,
    AttributeError,
>)
    ensures
        match declaration {
            Ok(found) => {
                let arguments = spec_split_arguments(tokens@);
                &&& declaration_error(tokens@) is None
                &&& found.stack == arguments[0]
                &&& tokens@[arguments[1].start as int] matches Token::Ident(name)
                &&& found.size_name@ == name@
                &&& found.size == (Span {
                    start: (arguments[1].start + 2) as usize,
                    end: arguments[1].end,
                })
                &&& found.stack.start <= found.stack.end <= tokens@.len()
                &&& found.size.start <= found.size.end <= tokens@.len()
            },
            Err(error) => declaration_error(tokens@) == Some(error),
        },
{
    let arguments = split_arguments(tokens);
    if arguments.len() != 2 {
        return Err(AttributeError::ArgumentCount);
    }
    let second = arguments[1];
    if second.start >= second.end {
        return Err(AttributeError::SizeNameExpected);
    }
    let size_name = match &tokens[second.start] {
        Token::Ident(name) => name.clone(),
        _ => {
            return Err(AttributeError::SizeNameExpected);
        },
    };
    if second.start + 1 >= second.end {
        return Err(AttributeError::EqualsExpected);
    }
    let equals = match &tokens[second.start + 1] {
        Token::Punct(c) => *c == '=',
        _ => false,
    };
    if !equals {
        return Err(AttributeError::EqualsExpected);
    }
    Ok(
        StackDeclaration {
            stack: arguments[0],
            size_name,
            size: Span { start: second.start + 2, end: second.end },
        },
    )
}

/// The size of the stack that `expr` gives: its value, which must be
/// above zero and fit an address.
pub open spec fn spec_stack_size(expr: IntExpr) -> Result<usize, AttributeError> {
    match spec_into_int(expr) {
        Ok(size) => if size <= 0 || size > usize::MAX {
            Err(AttributeError::SizeNotPositive)
        } else {
            Ok(size as usize)
        },
        Err(error) => Err(AttributeError::Size(error)),
    }
}

/// Works out the size of the stack from its expression.
pub fn stack_size(expr: &IntExpr) -> (size: Result<usize, AttributeError>)
    ensures
        size == spec_stack_size(*expr),
{
    match into_int(expr) {
        Ok(size) => {
            if size <= 0 || size as u64 > usize::MAX as u64 {
                Err(AttributeError::SizeNotPositive)
            } else {
                Ok(size as usize)
            }
        },
        Err(error) => Err(AttributeError::Size(error)),
    }
}

/// The name of the stack: the one token of `stack`, an identifier.
pub fn stack_name(tokens: &Vec<Token>, stack: Span) -> (name: Result<String, AttributeError>)
    requires
        stack.start <= stack.end <= tokens@.len(),
    ensures
        match name {
            Ok(text) => {
                &&& stack.end == stack.start + 1
                &&& tokens@[stack.start as int] matches Token::Ident(found)
                &&& text@ == found@
            },
            Err(error) => error == AttributeError::StackNameExpected && !(stack.end == stack.start
                + 1 && tokens@[stack.start as int] is Ident),
        },
{
    if stack.end - stack.start != 1 {
        return Err(AttributeError::StackNameExpected);
    }
    match &tokens[stack.start] {
        Token::Ident(name) => Ok(name.clone()),
        _ => Err(AttributeError::StackNameExpected),
    }
}

/// Whether the processor pushes an error code for a handler with
/// `parameters` parameters: not for one, which is the interrupt frame, and
/// so for two; any other number is an error.
pub fn error_code_is_required(parameters: usize) -> (required: Result<bool, AttributeError>)
    ensures
        required == (if parameters == 1 {
            Ok::<bool, AttributeError>(false)
        } else if parameters == 2 {
            Ok::<bool, AttributeError>(true)
        } else {
            Err::<bool, AttributeError>(AttributeError::ParameterCount)
        }),
{
    if parameters == 1 {
        Ok(false)
    } else if parameters == 2 {
        Ok(true)
    } else {
        Err(AttributeError::ParameterCount)
    }
}

/// The name under which the function `name` is kept when the attribute
/// takes its name for the code that calls it.
pub open spec fn spec_impl_name(name: Seq<char>, suffix: usize) -> Seq<char> {
    name + "_impl_"@ + decimal_digits(suffix as nat)
}

/// The name `name`, `_impl_` and `suffix` in decimal digits.
pub fn impl_name(name: &str, suffix: usize) -> (renamed: String)
    ensures
        renamed@ == spec_impl_name(name@, suffix),
{
    let mut renamed = String::from_str(name);
    renamed.append("_impl_");
    let digits = decimal(suffix as u64);
    renamed.append(digits.as_str());
    renamed
}

/// A number from `rand::thread_rng().gen::<usize>()`, the generator of the
/// thread, seeded by the system. Nothing is claimed of the number: any
/// `usize` can come. The generator stops the program if the system gives
/// it no seed.
#[verifier::external_body]
fn random_suffix() -> usize {
    rand::Rng::gen::<usize>(&mut rand::thread_rng())
}

/// A name for the function `name` that no other function is likely to
/// have: `name`, `_impl_` and a random number.
pub fn fresh_impl_name(name: &str) -> (renamed: String)
    ensures
        exists|suffix: usize| renamed@ == spec_impl_name(name@, suffix),
{
    let suffix = random_suffix();
    let renamed = impl_name(name, suffix);
    assert(renamed@ == spec_impl_name(name@, suffix));
    renamed
}

/// The assembly of the entry point `old_entry_name`: it sets the stack
/// pointer to the end of the stack `stack_name` of `stack_size` bytes,
/// calls `new_entry_name` and halts for good if that returns.
pub open spec fn spec_kernel_entry_asm(
    old_entry_name: Seq<char>,
    stack_name: Seq<char>,
    stack_size: usize,
    new_entry_name: Seq<char>,
) -> Seq<char> {
    "\n.global "@ + old_entry_name + "\n"@ + old_entry_name + ":\n    lea rsp, "@ + stack_name
        + " + "@ + decimal_digits(stack_size as nat) + "\n    call "@ + new_entry_name
        + "\n.fin:\n    hlt\n    jmp .fin\n"@
}

/// Writes the assembly of the entry point.
pub fn kernel_entry_asm(
    old_entry_name: &str,
    stack_name: &str,
    stack_size: usize,
    new_entry_name: &str,
) -> (code: String)
    ensures
        code@ == spec_kernel_entry_asm(
            old_entry_name@,
            stack_name@,
            stack_size,
            new_entry_name@,
        ),
{
    let mut code = String::from_str("\n.global ");
    code.append(old_entry_name);
    code.append("\n");
    code.append(old_entry_name);
    code.append(":\n    lea rsp, ");
    code.append(stack_name);
    code.append(" + ");
    let size = decimal(stack_size as u64);
    code.append(size.as_str());
    code.append("\n    call ");
    code.append(new_entry_name);
    code.append("\n.fin:\n    hlt\n    jmp .fin\n");
    code
}

/// The assembly of the interrupt handler `old_ident`: it aligns the stack,
/// saves the registers that a function may change, hands the address of the
/// interrupt frame, and the error code if there is one, to `new_fn_name`,
/// restores the registers, drops the error code and returns from the
/// interrupt.
pub open spec fn spec_interrupt_asm(
    old_ident: Seq<char>,
    new_fn_name: Seq<char>,
    error_code_is_required: bool,
) -> Seq<char> {
    "\n.global "@ + old_ident + "\n"@ + old_ident
        + ":\n    push rbp\n    mov rbp, rsp\n    # RSP alignment\n    and rsp, 0xfffffffffffffff0\n    push rax\n    push r11\n    push r10\n    push r9\n    push r8\n    push rdi\n    push rsi\n    push rdx\n    push rcx\n    push rbx\n    cld\n    "@
        + (if error_code_is_required {
        "lea rdi, [rbp + 0x10]"@
    } else {
        "lea rdi, [rbp + 0x08]"@
    }) + "\n    "@ + (if error_code_is_required {
        "mov rsi, [rbp + 0x08]"@
    } else {
        ""@
    }) + "\n    call "@ + new_fn_name
        + "\n    pop rbx\n    pop rcx\n    pop rdx\n    pop rsi\n    pop rdi\n    pop r8\n    pop r9\n    pop r10\n    pop r11\n    pop rax\n    mov rsp, rbp\n    pop rbp\n    "@
        + (if error_code_is_required {
        "add rsp, 0x08"@
    } else {
        ""@
    }) + "\n    iretq\n"@
}

/// Writes the assembly of an interrupt handler.
pub fn interrupt_asm(old_ident: &str, new_fn_name: &str, error_code_is_required: bool) -> (code:
    String)
    ensures
        code@ == spec_interrupt_asm(old_ident@, new_fn_name@, error_code_is_required),
{
    let mut code = String::from_str("\n.global ");
    code.append(old_ident);
    code.append("\n");
    code.append(old_ident);
    code.append(
        ":\n    push rbp\n    mov rbp, rsp\n    # RSP alignment\n    and rsp, 0xfffffffffffffff0\n    push rax\n    push r11\n    push r10\n    push r9\n    push r8\n    push rdi\n    push rsi\n    push rdx\n    push rcx\n    push rbx\n    cld\n    ",
    );
    code.append(
        if error_code_is_required {
            "lea rdi, [rbp + 0x10]"
        } else {
            "lea rdi, [rbp + 0x08]"
        },
    );
    code.append("\n    ");
    code.append(
        if error_code_is_required {
            "mov rsi, [rbp + 0x08]"
        } else {
            ""
        },
    );
    code.append("\n    call ");
    code.append(new_fn_name);
    code.append(
        "\n    pop rbx\n    pop rcx\n    pop rdx\n    pop rsi\n    pop rdi\n    pop r8\n    pop r9\n    pop r10\n    pop r11\n    pop rax\n    mov rsp, rbp\n    pop rbp\n    ",
    );
    code.append(
        if error_code_is_required {
            "add rsp, 0x08"
        } else {
            ""
        },
    );
    code.append("\n    iretq\n");
    code
}

} // verus!
