use mikan_os::custom_attribute::{
    binary, error_code_is_required, fresh_impl_name, impl_name, interrupt_asm, into_int,
    kernel_entry_asm, read_stack_declaration, split_arguments, stack_name, stack_size,
    AttributeError, BinaryOp, EvalError, IntExpr, Span, Token, UnaryOp,
};
use mikan_os::text::{decimal, hex, hex_padded, parse_decimal};

fn lit(digits: &str) -> Box<IntExpr> {
    Box::new(IntExpr::Int(String::from(digits)))
}

fn bin(op: BinaryOp, left: Box<IntExpr>, right: Box<IntExpr>) -> Box<IntExpr> {
    Box::new(IntExpr::Binary(op, left, right))
}

fn ident(name: &str) -> Token {
    Token::Ident(String::from(name))
}

fn literal(text: &str) -> Token {
    Token::Literal(String::from(text))
}

#[test]
fn decimal_digits_are_read() {
    assert_eq!(parse_decimal("0"), Some(0));
    assert_eq!(parse_decimal("007"), Some(7));
    assert_eq!(parse_decimal("1048576"), Some(1_048_576));
    assert_eq!(parse_decimal("9223372036854775807"), Some(i64::MAX));
    assert_eq!(parse_decimal("9223372036854775808"), None);
    assert_eq!(parse_decimal("99999999999999999999999"), None);
    assert_eq!(parse_decimal(""), None);
    assert_eq!(parse_decimal("12a"), None);
    assert_eq!(parse_decimal("-1"), None);
    assert_eq!(parse_decimal("+1"), None);
    assert_eq!(parse_decimal("1_000"), None);
}

#[test]
fn numbers_are_written() {
    assert_eq!(decimal(0), "0");
    assert_eq!(decimal(9), "9");
    assert_eq!(decimal(10), "10");
    assert_eq!(decimal(1_048_576), "1048576");
    assert_eq!(decimal(u64::MAX), "18446744073709551615");
    assert_eq!(hex(0), "0");
    assert_eq!(hex(0xdead_beef), "deadbeef");
    assert_eq!(hex(u64::MAX), "ffffffffffffffff");
    assert_eq!(hex_padded(0x1f, 8), "0000001f");
    assert_eq!(hex_padded(0, 8), "00000000");
    assert_eq!(hex_padded(0x1_2345_6789, 8), "123456789");
    assert_eq!(hex_padded(0xab, 0), "ab");
    for value in [0u64, 7, 42, 1 << 40, u64::MAX / 3] {
        assert_eq!(parse_decimal(&decimal(value)), Some(value as i64));
        assert_eq!(decimal(value), format!("{}", value));
        assert_eq!(hex_padded(value, 8), format!("{:08x}", value));
    }
}

#[test]
fn expressions_have_values() {
    assert_eq!(into_int(&lit("4096")), Ok(4096));
    let size = bin(BinaryOp::Mul, lit("1024"), lit("1024"));
    assert_eq!(into_int(&size), Ok(1024 * 1024));
    let nested = bin(
        BinaryOp::Add,
        Box::new(IntExpr::Paren(bin(BinaryOp::Shl, lit("1"), lit("12")))),
        bin(BinaryOp::Sub, lit("10"), lit("3")),
    );
    assert_eq!(into_int(&nested), Ok(4096 + 7));
    let negative = IntExpr::Unary(UnaryOp::Neg, lit("5"));
    assert_eq!(into_int(&negative), Ok(-5));
}

#[test]
fn every_operator_computes() {
    assert_eq!(binary(BinaryOp::Add, 7, -9), Ok(-2));
    assert_eq!(binary(BinaryOp::Sub, 7, -9), Ok(16));
    assert_eq!(binary(BinaryOp::Mul, -7, 9), Ok(-63));
    assert_eq!(binary(BinaryOp::Div, 7, 2), Ok(3));
    assert_eq!(binary(BinaryOp::Div, -7, 2), Ok(-3));
    assert_eq!(binary(BinaryOp::Div, 7, -2), Ok(-3));
    assert_eq!(binary(BinaryOp::Div, -7, -2), Ok(3));
    assert_eq!(binary(BinaryOp::Rem, 7, 2), Ok(1));
    assert_eq!(binary(BinaryOp::Rem, -7, 2), Ok(-1));
    assert_eq!(binary(BinaryOp::Rem, 7, -2), Ok(1));
    assert_eq!(binary(BinaryOp::Rem, -7, -2), Ok(-1));
    assert_eq!(binary(BinaryOp::BitAnd, 0b1100, 0b1010), Ok(0b1000));
    assert_eq!(binary(BinaryOp::BitOr, 0b1100, 0b1010), Ok(0b1110));
    assert_eq!(binary(BinaryOp::BitXor, 0b1100, 0b1010), Ok(0b0110));
    assert_eq!(binary(BinaryOp::BitAnd, -1, 0xff), Ok(0xff));
    assert_eq!(binary(BinaryOp::Shl, 3, 4), Ok(48));
    assert_eq!(binary(BinaryOp::Shl, 1, 63), Ok(i64::MIN));
    assert_eq!(binary(BinaryOp::Shr, -16, 2), Ok(-4));
    assert_eq!(binary(BinaryOp::Shr, 48, 4), Ok(3));
}

#[test]
fn expressions_without_a_value_say_why() {
    assert_eq!(binary(BinaryOp::Add, i64::MAX, 1), Err(EvalError::Overflow));
    assert_eq!(binary(BinaryOp::Sub, i64::MIN, 1), Err(EvalError::Overflow));
    assert_eq!(binary(BinaryOp::Mul, i64::MAX, 2), Err(EvalError::Overflow));
    assert_eq!(binary(BinaryOp::Div, i64::MIN, -1), Err(EvalError::Overflow));
    assert_eq!(binary(BinaryOp::Rem, i64::MIN, -1), Err(EvalError::Overflow));
    assert_eq!(binary(BinaryOp::Div, 1, 0), Err(EvalError::DivisionByZero));
    assert_eq!(binary(BinaryOp::Rem, 1, 0), Err(EvalError::DivisionByZero));
    assert_eq!(binary(BinaryOp::Shl, 1, 64), Err(EvalError::BadShift));
    assert_eq!(binary(BinaryOp::Shr, 1, -1), Err(EvalError::BadShift));
    assert_eq!(binary(BinaryOp::Other, 1, 1), Err(EvalError::BadOperator));
    assert_eq!(into_int(&IntExpr::OtherLiteral), Err(EvalError::NotInteger));
    assert_eq!(into_int(&IntExpr::Other), Err(EvalError::NotInteger));
    assert_eq!(into_int(&lit("99999999999999999999")), Err(EvalError::BadLiteral));
    assert_eq!(
        into_int(&IntExpr::Unary(UnaryOp::Other, lit("1"))),
        Err(EvalError::BadOperator)
    );
    let least = IntExpr::Unary(UnaryOp::Neg, bin(BinaryOp::Shl, lit("1"), lit("63")));
    assert_eq!(into_int(&least), Err(EvalError::Overflow));
    let operand_first = IntExpr::Unary(UnaryOp::Other, Box::new(IntExpr::Other));
    assert_eq!(into_int(&operand_first), Err(EvalError::NotInteger));
    let left_first = bin(BinaryOp::Other, Box::new(IntExpr::OtherLiteral), lit("9999999999999999999"));
    assert_eq!(into_int(&left_first), Err(EvalError::NotInteger));
    let right_before_operator = bin(BinaryOp::Other, lit("1"), lit("9999999999999999999"));
    assert_eq!(into_int(&right_before_operator), Err(EvalError::BadLiteral));
}

#[test]
fn the_size_of_a_stack_is_positive() {
    assert_eq!(stack_size(&bin(BinaryOp::Mul, lit("1024"), lit("1024"))), Ok(1024 * 1024));
    assert_eq!(stack_size(&lit("0")), Err(AttributeError::SizeNotPositive));
    assert_eq!(
        stack_size(&IntExpr::Unary(UnaryOp::Neg, lit("8"))),
        Err(AttributeError::SizeNotPositive)
    );
    assert_eq!(
        stack_size(&IntExpr::Other),
        Err(AttributeError::Size(EvalError::NotInteger))
    );
}

#[test]
fn arguments_are_parted_at_commas() {
    let tokens = vec![
        ident("STACK"),
        Token::Punct(','),
        ident("SIZE"),
        Token::Punct('='),
        literal("1024"),
        Token::Punct('*'),
        literal("1024"),
    ];
    assert_eq!(
        split_arguments(&tokens),
        vec![Span { start: 0, end: 1 }, Span { start: 2, end: 7 }]
    );
    assert_eq!(split_arguments(&vec![]), vec![]);
    assert_eq!(split_arguments(&vec![Token::Punct(',')]), vec![Span { start: 0, end: 0 }]);
    let trailing = vec![ident("a"), Token::Punct(','), ident("b"), Token::Punct(',')];
    assert_eq!(
        split_arguments(&trailing),
        vec![Span { start: 0, end: 1 }, Span { start: 2, end: 3 }]
    );
    let empty_between = vec![ident("a"), Token::Punct(','), Token::Punct(','), ident("b")];
    assert_eq!(
        split_arguments(&empty_between),
        vec![Span { start: 0, end: 1 }, Span { start: 2, end: 2 }, Span { start: 3, end: 4 }]
    );
}

#[test]
fn the_stack_declaration_is_read() {
    let tokens = vec![
        ident("KERNEL_MAIN_STACK"),
        Token::Punct(','),
        ident("STACK_SIZE"),
        Token::Punct('='),
        literal("1024"),
        Token::Punct('*'),
        literal("1024"),
    ];
    let declaration = read_stack_declaration(&tokens).unwrap();
    assert_eq!(declaration.stack, Span { start: 0, end: 1 });
    assert_eq!(declaration.size_name, "STACK_SIZE");
    assert_eq!(declaration.size, Span { start: 4, end: 7 });
    assert_eq!(stack_name(&tokens, declaration.stack), Ok(String::from("KERNEL_MAIN_STACK")));
}

#[test]
fn a_wrong_stack_declaration_says_what_is_wrong() {
    let error = |tokens: Vec<Token>| read_stack_declaration(&tokens).err();
    assert_eq!(error(vec![]), Some(AttributeError::ArgumentCount));
    assert_eq!(error(vec![ident("a")]), Some(AttributeError::ArgumentCount));
    assert_eq!(
        error(vec![
            ident("a"),
            Token::Punct(','),
            ident("b"),
            Token::Punct(','),
            ident("c")
        ]),
        Some(AttributeError::ArgumentCount)
    );
    assert_eq!(
        error(vec![ident("a"), Token::Punct(','), Token::Punct(',')]),
        Some(AttributeError::SizeNameExpected)
    );
    assert_eq!(
        error(vec![ident("a"), Token::Punct(','), literal("1")]),
        Some(AttributeError::SizeNameExpected)
    );
    assert_eq!(
        error(vec![ident("a"), Token::Punct(','), ident("SIZE")]),
        Some(AttributeError::EqualsExpected)
    );
    assert_eq!(
        error(vec![ident("a"), Token::Punct(','), ident("SIZE"), Token::Punct('+'), literal("1")]),
        Some(AttributeError::EqualsExpected)
    );
    assert_eq!(
        error(vec![ident("a"), Token::Punct(','), ident("SIZE"), literal("1")]),
        Some(AttributeError::EqualsExpected)
    );
    let no_name = vec![literal("1"), Token::Punct(','), ident("SIZE"), Token::Punct('=')];
    let declaration = read_stack_declaration(&no_name).unwrap();
    assert_eq!(declaration.size, Span { start: 4, end: 4 });
    assert_eq!(stack_name(&no_name, declaration.stack), Err(AttributeError::StackNameExpected));
    let two = vec![ident("a"), ident("b")];
    assert_eq!(
        stack_name(&two, Span { start: 0, end: 2 }),
        Err(AttributeError::StackNameExpected)
    );
    assert_eq!(
        stack_name(&two, Span { start: 1, end: 1 }),
        Err(AttributeError::StackNameExpected)
    );
}

#[test]
fn handlers_take_one_or_two_parameters() {
    assert_eq!(error_code_is_required(1), Ok(false));
    assert_eq!(error_code_is_required(2), Ok(true));
    assert_eq!(error_code_is_required(0), Err(AttributeError::ParameterCount));
    assert_eq!(error_code_is_required(3), Err(AttributeError::ParameterCount));
}

#[test]
fn the_kept_function_gets_a_name_with_a_number() {
    assert_eq!(impl_name("kernel_entry", 0), "kernel_entry_impl_0");
    assert_eq!(impl_name("handler", 1234567), "handler_impl_1234567");
    let fresh = fresh_impl_name("kernel_entry");
    let number = fresh.strip_prefix("kernel_entry_impl_").unwrap();
    assert!(!number.is_empty());
    assert_eq!(format!("{}", number.parse::<usize>().unwrap()), number);
    let others: Vec<String> = (0..8).map(|_| fresh_impl_name("kernel_entry")).collect();
    assert!(others.iter().any(|other| *other != fresh));
}

#[test]
fn the_entry_point_sets_the_stack_and_calls_the_function() {
    let text = kernel_entry_asm("kernel_entry", "KERNEL_MAIN_STACK", 1048576, "kernel_entry_impl_7");
    assert_eq!(
        text,
        "\n.global kernel_entry\nkernel_entry:\n    lea rsp, KERNEL_MAIN_STACK + 1048576\n    call kernel_entry_impl_7\n.fin:\n    hlt\n    jmp .fin\n"
    );
}

#[test]
fn the_interrupt_entry_passes_the_error_code_if_there_is_one() {
    let without = interrupt_asm("timer", "timer_impl_1", false);
    let with = interrupt_asm("fault", "fault_impl_2", true);
    assert!(without.starts_with("\n.global timer\ntimer:\n    push rbp\n    mov rbp, rsp\n"));
    assert!(without.contains("    cld\n    lea rdi, [rbp + 0x08]\n    \n    call timer_impl_1\n"));
    assert!(without.ends_with("    mov rsp, rbp\n    pop rbp\n    \n    iretq\n"));
    assert!(with.contains(
        "    cld\n    lea rdi, [rbp + 0x10]\n    mov rsi, [rbp + 0x08]\n    call fault_impl_2\n"
    ));
    assert!(with.ends_with("    mov rsp, rbp\n    pop rbp\n    add rsp, 0x08\n    iretq\n"));
    assert_eq!(with.matches("push ").count(), 11);
    assert_eq!(with.matches("pop ").count(), 11);
    assert_eq!(without.lines().count(), with.lines().count());
}
