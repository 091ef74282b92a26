use amood::interpreter::{Interpreter, NumericTask, RuntimeError, Value};
use amood::lexer::Token;
use amood::parser::{ASTNode, Expected, Operator, ParseError};

fn arith(task: NumericTask) -> u64 {
    match task {
        NumericTask::AppendDigit(n, d) => (f64::from_bits(n) * 10.0 + f64::from(d)).to_bits(),
        NumericTask::Arithmetic(op, l, r) => {
            let (l, r) = (f64::from_bits(l), f64::from_bits(r));
            let x = match op {
                Operator::Plus => l + r,
                Operator::Minus => l - r,
                Operator::Multiply => l * r,
                Operator::Divide => l / r,
                _ => f64::NAN,
            };
            x.to_bits()
        }
        NumericTask::Comparison(op, l, r) => {
            let (l, r) = (f64::from_bits(l), f64::from_bits(r));
            let holds = match op {
                Operator::LT => l < r,
                Operator::GT => l > r,
                Operator::LTE => l <= r,
                Operator::GTE => l >= r,
                Operator::EQ => (l - r).abs() < f64::EPSILON,
                Operator::NEQ => (l - r).abs() >= f64::EPSILON,
                _ => false,
            };
            u64::from(holds)
        }
    }
}

fn number(x: f64) -> Value {
    Value::Number(x.to_bits())
}

fn literal(digits: &[u8]) -> ASTNode {
    ASTNode::Number(digits.to_vec())
}

fn binary(left: ASTNode, operator: Operator, right: ASTNode) -> ASTNode {
    ASTNode::BinaryOp { left: Box::new(left), operator, right: Box::new(right) }
}

fn declare(name: &str, value: ASTNode) -> ASTNode {
    ASTNode::VariableDeclaration { variable: name.to_string(), value: Box::new(value) }
}

fn parse(source: &str) -> Result<Vec<ASTNode>, ParseError> {
    amood::parser::run(amood::lexer::run(source))
}

fn evaluate(source: &str) -> (Interpreter, Result<(), RuntimeError>) {
    amood::pipeline::run(source, &arith).expect("the source parses")
}

fn last_value(source: &str) -> Result<Value, RuntimeError> {
    let ast = parse(source).expect("the source parses");
    let mut interpreter = Interpreter::new();
    let mut last = Ok(Value::Boolean(false));
    for node in &ast {
        last = interpreter.execute(node, &arith);
        if last.is_err() {
            break;
        }
    }
    last
}

#[test]
fn lexes_a_declaration() {
    assert_eq!(
        amood::lexer::run("متغير س = ٥ + ١٠."),
        vec![
            Token::VariableKeyword,
            Token::Identifier("س".to_string()),
            Token::Equals,
            Token::Number(vec![5]),
            Token::Plus,
            Token::Number(vec![1, 0]),
            Token::Dot,
        ]
    );
}

#[test]
fn lexes_every_keyword() {
    assert_eq!(
        amood::lexer::run("متغير لو ف وإلا نعم لا"),
        vec![
            Token::VariableKeyword,
            Token::IfKeyword,
            Token::ThenKeyword,
            Token::ElseKeyword,
            Token::True,
            Token::False,
        ]
    );
}

#[test]
fn lexes_single_characters() {
    assert_eq!(
        amood::lexer::run("+-*/()=."),
        vec![
            Token::Plus,
            Token::Minus,
            Token::Multiply,
            Token::Divide,
            Token::LeftParen,
            Token::RightParen,
            Token::Equals,
            Token::Dot,
        ]
    );
}

#[test]
fn both_angle_brackets_are_less_than() {
    assert_eq!(amood::lexer::run("< >"), vec![Token::LT, Token::LT]);
}

#[test]
fn two_character_comparisons_are_not_recognised() {
    assert_eq!(amood::lexer::run("<="), vec![Token::LT, Token::Equals]);
    assert_eq!(amood::lexer::run("=="), vec![Token::Equals, Token::Equals]);
}

#[test]
fn separators_are_ignored_in_numbers() {
    assert_eq!(amood::lexer::run("١,٢٣٤"), vec![Token::Number(vec![1, 2, 3, 4])]);
    assert_eq!(amood::lexer::run("٩,,٠,"), vec![Token::Number(vec![9, 0])]);
}

#[test]
fn a_separator_starts_no_number() {
    assert_eq!(amood::lexer::run(",٧"), vec![Token::Number(vec![7])]);
}

#[test]
fn every_digit_has_its_value() {
    assert_eq!(
        amood::lexer::run("٠١٢٣٤٥٦٧٨٩"),
        vec![Token::Number(vec![0, 1, 2, 3, 4, 5, 6, 7, 8, 9])]
    );
}

#[test]
fn number_literal_has_its_place_value() {
    assert_eq!(last_value("١,٢٣٤ ."), Ok(number(1234.0)));
    assert_eq!(last_value("٠٠٤٢ ."), Ok(number(42.0)));
}

#[test]
fn whitespace_separates_tokens() {
    assert_eq!(
        amood::lexer::run(" \t\n س\u{a0}ص\u{2003}"),
        vec![Token::Identifier("س".to_string()), Token::Identifier("ص".to_string())]
    );
    assert_eq!(amood::lexer::run("   "), Vec::<Token>::new());
    assert_eq!(amood::lexer::run(""), Vec::<Token>::new());
}

#[test]
fn unknown_characters_are_dropped() {
    assert_eq!(
        amood::lexer::run("س # abc ٣ ! ص"),
        vec![
            Token::Identifier("س".to_string()),
            Token::Number(vec![3]),
            Token::Identifier("ص".to_string()),
        ]
    );
}

#[test]
fn identifiers_take_additional_letter_forms() {
    assert_eq!(amood::lexer::run("أحمد"), vec![Token::Identifier("أحمد".to_string())]);
    assert_eq!(amood::lexer::run("آية إلى"), vec![
        Token::Identifier("آية".to_string()),
        Token::Identifier("إلى".to_string()),
    ]);
    assert_eq!(amood::lexer::run("لوز"), vec![Token::Identifier("لوز".to_string())]);
}

#[test]
fn string_literals_keep_escaped_characters() {
    assert_eq!(amood::lexer::run("\"ab c\""), vec![Token::String("ab c".to_string())]);
    assert_eq!(amood::lexer::run("\"a\\\"b\""), vec![Token::String("a\"b".to_string())]);
    assert_eq!(amood::lexer::run("\"a\\nb\\\\\""), vec![Token::String("anb\\".to_string())]);
    assert_eq!(amood::lexer::run("\"\" ."), vec![Token::String(String::new()), Token::Dot]);
}

#[test]
fn unterminated_string_ends_with_the_input() {
    assert_eq!(amood::lexer::run("\"abc"), vec![Token::String("abc".to_string())]);
    assert_eq!(amood::lexer::run("\"abc\\"), vec![Token::String("abc".to_string())]);
}

#[test]
fn lexer_steps_one_token_at_a_time() {
    let mut lexer = amood::lexer::Lexer::new("  ٥ س");
    lexer.skip_whitespace();
    assert_eq!(lexer.pos, 2);
    assert_eq!(lexer.next_token(), Some(Token::Number(vec![5])));
    assert_eq!(lexer.next_token(), Some(Token::Identifier("س".to_string())));
    assert_eq!(lexer.next_token(), None);
    assert_eq!(lexer.next_token(), None);
}

#[test]
fn multiplication_binds_tighter_than_addition() {
    assert_eq!(
        parse("٢ + ٣ * ٤ ."),
        Ok(vec![binary(
            literal(&[2]),
            Operator::Plus,
            binary(literal(&[3]), Operator::Multiply, literal(&[4]))
        )])
    );
    assert_eq!(last_value("٢ + ٣ * ٤ ."), Ok(number(14.0)));
}

#[test]
fn parentheses_group() {
    assert_eq!(last_value("(٢ + ٣) * ٤ ."), Ok(number(20.0)));
}

#[test]
fn chains_are_left_associative() {
    assert_eq!(
        parse("٨ - ٣ - ٢ ."),
        Ok(vec![binary(
            binary(literal(&[8]), Operator::Minus, literal(&[3])),
            Operator::Minus,
            literal(&[2])
        )])
    );
    assert_eq!(last_value("٨ - ٣ - ٢ ."), Ok(number(3.0)));
    assert_eq!(last_value("٨ / ٤ / ٢ ."), Ok(number(1.0)));
    assert_eq!(last_value("٥ / ٢ ."), Ok(number(2.5)));
}

#[test]
fn comparison_binds_loosest() {
    assert_eq!(
        parse("١ + ١ < ٣ ."),
        Ok(vec![binary(
            binary(literal(&[1]), Operator::Plus, literal(&[1])),
            Operator::LT,
            literal(&[3])
        )])
    );
    assert_eq!(last_value("١ + ١ < ٣ ."), Ok(Value::Boolean(true)));
    assert_eq!(last_value("٣ > ١ ."), Ok(Value::Boolean(false)));
}

#[test]
fn comparison_tokens_become_operators() {
    let tokens = vec![
        Token::Number(vec![1]),
        Token::GTE,
        Token::Number(vec![2]),
        Token::NEQ,
        Token::True,
        Token::Dot,
    ];
    assert_eq!(
        amood::parser::run(tokens),
        Ok(vec![binary(
            binary(literal(&[1]), Operator::GTE, literal(&[2])),
            Operator::NEQ,
            ASTNode::BooleanLiteral(true)
        )])
    );
}

#[test]
fn parses_primaries() {
    assert_eq!(
        parse("\"نص\". نعم. لا. س."),
        Ok(vec![
            ASTNode::StringLiteral("نص".to_string()),
            ASTNode::BooleanLiteral(true),
            ASTNode::BooleanLiteral(false),
            ASTNode::Variable("س".to_string()),
        ])
    );
    assert_eq!(parse(""), Ok(vec![]));
}

#[test]
fn parses_if_with_else() {
    assert_eq!(
        parse("لو نعم ف متغير س = ١. ٢. وإلا ٣."),
        Ok(vec![ASTNode::IfStatement {
            condition: Box::new(ASTNode::BooleanLiteral(true)),
            then_branch: vec![declare("س", literal(&[1])), literal(&[2])],
            else_branch: Some(vec![literal(&[3])]),
        }])
    );
}

#[test]
fn then_branch_runs_to_the_end_of_input() {
    assert_eq!(
        parse("لو لا ف ١. ٢."),
        Ok(vec![ASTNode::IfStatement {
            condition: Box::new(ASTNode::BooleanLiteral(false)),
            then_branch: vec![literal(&[1]), literal(&[2])],
            else_branch: None,
        }])
    );
}

#[test]
fn parse_errors() {
    assert_eq!(parse("متغير ٥ = ١."), Err(ParseError::ExpectedIdentifier));
    assert_eq!(parse("متغير"), Err(ParseError::ExpectedIdentifier));
    assert_eq!(parse("متغير س ١."), Err(ParseError::Expected(Expected::Equals)));
    assert_eq!(parse("متغير س = ١"), Err(ParseError::Expected(Expected::Dot)));
    assert_eq!(parse("١ + ٢"), Err(ParseError::Expected(Expected::Dot)));
    assert_eq!(parse("(١ + ٢ ."), Err(ParseError::Expected(Expected::RightParen)));
    assert_eq!(parse("لو نعم ١."), Err(ParseError::Expected(Expected::ThenKeyword)));
    assert_eq!(parse("١ + ."), Err(ParseError::UnexpectedToken));
    assert_eq!(parse("* ١ ."), Err(ParseError::UnexpectedToken));
    assert_eq!(parse("لو"), Err(ParseError::UnexpectedToken));
    assert_eq!(parse("١. وإلا"), Err(ParseError::UnexpectedToken));
}

#[test]
fn parser_steps_one_construct_at_a_time() {
    let mut parser = amood::parser::Parser::new(amood::lexer::run("(١) * ٢ ."));
    assert_eq!(parser.parse_primary(), Ok(literal(&[1])));
    assert_eq!(parser.pos, 3);
    assert_eq!(parser.expect(Expected::Dot), Err(ParseError::Expected(Expected::Dot)));
    let mut parser = amood::parser::Parser::new(amood::lexer::run("١ * ٢ + ٣ ."));
    assert_eq!(
        parser.parse_multiplicative(),
        Ok(binary(literal(&[1]), Operator::Multiply, literal(&[2])))
    );
    assert_eq!(parser.pos, 3);
    assert_eq!(amood::parser::copy_digits(&vec![1, 2, 3]), vec![1, 2, 3]);
}

#[test]
fn declaration_binds_the_value() {
    let (interpreter, result) = evaluate("متغير س = ٥ + ١٠.");
    assert_eq!(result, Ok(()));
    assert_eq!(interpreter.get_variable("س"), Some(&number(15.0)));
    assert_eq!(interpreter.get_variable("ص"), None);
    assert_eq!(last_value("متغير س = ٥ + ١٠."), Ok(number(15.0)));
}

#[test]
fn last_declaration_wins() {
    let (interpreter, result) = evaluate("متغير س = ١. متغير ص = س + ١. متغير س = \"نص\". س.");
    assert_eq!(result, Ok(()));
    assert_eq!(interpreter.get_variable("س"), Some(&Value::String("نص".to_string())));
    assert_eq!(interpreter.get_variable("ص"), Some(&number(2.0)));
    assert_eq!(last_value("متغير س = ١. متغير س = ٢. س."), Ok(number(2.0)));
}

#[test]
fn division_by_zero_is_an_error() {
    assert_eq!(last_value("٥ / ٠ ."), Err(RuntimeError::DivisionByZero));
    assert_eq!(last_value("٥ / (٠ - ٠) ."), Err(RuntimeError::DivisionByZero));
    assert_eq!(last_value("٥ / (٠ * (٠ - ١)) ."), Err(RuntimeError::DivisionByZero));
    let (interpreter, result) = evaluate("متغير س = ٥ / ٠ .");
    assert_eq!(result, Err(RuntimeError::DivisionByZero));
    assert_eq!(interpreter.get_variable("س"), None);
    assert!(amood::interpreter::zero_bits(0.0f64.to_bits()));
    assert!(amood::interpreter::zero_bits((-0.0f64).to_bits()));
    assert!(!amood::interpreter::zero_bits(1.0f64.to_bits()));
}

#[test]
fn undefined_variable_is_an_error() {
    assert_eq!(last_value("س."), Err(RuntimeError::UndefinedVariable("س".to_string())));
    assert_eq!(last_value("متغير س = ٧. س."), Ok(number(7.0)));
}

#[test]
fn effects_before_an_error_persist() {
    let (interpreter, result) = evaluate("متغير س = ١. ص. متغير ع = ٢.");
    assert_eq!(result, Err(RuntimeError::UndefinedVariable("ص".to_string())));
    assert_eq!(interpreter.get_variable("س"), Some(&number(1.0)));
    assert_eq!(interpreter.get_variable("ع"), None);
}

#[test]
fn true_condition_runs_the_then_branch() {
    let (interpreter, result) = evaluate("لو نعم ف متغير س = ١. متغير ص = ٢. وإلا متغير ع = ٣.");
    assert_eq!(result, Ok(()));
    assert_eq!(interpreter.get_variable("س"), Some(&number(1.0)));
    assert_eq!(interpreter.get_variable("ص"), Some(&number(2.0)));
    assert_eq!(interpreter.get_variable("ع"), None);
    assert_eq!(last_value("لو نعم ف ١. وإلا ٢."), Ok(Value::Boolean(true)));
}

#[test]
fn false_condition_runs_the_else_branch() {
    let (interpreter, result) = evaluate("لو لا ف متغير س = ١. وإلا متغير ع = ٣. متغير ص = ٤.");
    assert_eq!(result, Ok(()));
    assert_eq!(interpreter.get_variable("س"), None);
    assert_eq!(interpreter.get_variable("ع"), Some(&number(3.0)));
    assert_eq!(interpreter.get_variable("ص"), Some(&number(4.0)));
    assert_eq!(last_value("لو لا ف ١. وإلا ٢."), Ok(Value::Boolean(true)));
}

#[test]
fn false_condition_without_else_runs_nothing() {
    let (interpreter, result) = evaluate("لو لا ف متغير س = ١.");
    assert_eq!(result, Ok(()));
    assert_eq!(interpreter.get_variable("س"), None);
    assert_eq!(last_value("لو لا ف متغير س = ١."), Ok(Value::Boolean(true)));
}

#[test]
fn computed_condition_selects_the_branch() {
    let (interpreter, result) = evaluate("متغير س = ٢. لو س < ٣ ف متغير ص = ١. وإلا متغير ص = ٠.");
    assert_eq!(result, Ok(()));
    assert_eq!(interpreter.get_variable("ص"), Some(&number(1.0)));
}

#[test]
fn error_in_a_branch_propagates() {
    let (interpreter, result) = evaluate("لو نعم ف متغير س = ١. ٢ / ٠. متغير ص = ٣.");
    assert_eq!(result, Err(RuntimeError::DivisionByZero));
    assert_eq!(interpreter.get_variable("س"), Some(&number(1.0)));
    assert_eq!(interpreter.get_variable("ص"), None);
}

#[test]
fn condition_must_be_a_boolean() {
    assert_eq!(last_value("لو ٥ ف ١."), Err(RuntimeError::ConditionNotBoolean));
    assert_eq!(last_value("لو \"نص\" ف ١. وإلا ٢."), Err(RuntimeError::ConditionNotBoolean));
}

#[test]
fn mismatched_operands_are_an_error() {
    assert_eq!(last_value("١ + نعم ."), Err(RuntimeError::TypeMismatch));
    assert_eq!(last_value("\"نص\" + ١ ."), Err(RuntimeError::TypeMismatch));
    assert_eq!(last_value("نعم < \"نص\" ."), Err(RuntimeError::TypeMismatch));
}

#[test]
fn string_operations_are_an_error() {
    assert_eq!(last_value("\"أ\" + \"ب\" ."), Err(RuntimeError::StringOperation));
}

#[test]
fn boolean_operands_take_only_logical_operators() {
    assert_eq!(last_value("نعم + لا ."), Err(RuntimeError::UnknownBooleanOperator(Operator::Plus)));
    assert_eq!(last_value("نعم < لا ."), Err(RuntimeError::UnknownBooleanOperator(Operator::LT)));
    let interpreter = Interpreter::new();
    let t = || Value::Boolean(true);
    let f = || Value::Boolean(false);
    assert_eq!(interpreter.evaluate_binary_op(&Operator::And, t(), f(), &arith), Ok(f()));
    assert_eq!(interpreter.evaluate_binary_op(&Operator::And, t(), t(), &arith), Ok(t()));
    assert_eq!(interpreter.evaluate_binary_op(&Operator::Or, t(), f(), &arith), Ok(t()));
    assert_eq!(interpreter.evaluate_binary_op(&Operator::Or, f(), f(), &arith), Ok(f()));
}

#[test]
fn numbers_take_no_logical_operators() {
    let interpreter = Interpreter::new();
    assert_eq!(
        interpreter.evaluate_binary_op(&Operator::And, number(1.0), number(2.0), &arith),
        Err(RuntimeError::UnknownNumberOperator(Operator::And))
    );
    assert_eq!(
        interpreter.evaluate_binary_op(&Operator::Or, number(1.0), number(2.0), &arith),
        Err(RuntimeError::UnknownNumberOperator(Operator::Or))
    );
}

#[test]
fn number_operators() {
    let interpreter = Interpreter::new();
    let apply = |op: Operator, l: f64, r: f64| interpreter.evaluate_binary_op(&op, number(l), number(r), &arith);
    assert_eq!(apply(Operator::Plus, 1.5, 2.0), Ok(number(3.5)));
    assert_eq!(apply(Operator::Minus, 1.5, 2.0), Ok(number(-0.5)));
    assert_eq!(apply(Operator::Multiply, 1.5, 2.0), Ok(number(3.0)));
    assert_eq!(apply(Operator::Divide, 3.0, 2.0), Ok(number(1.5)));
    assert_eq!(apply(Operator::LT, 1.0, 2.0), Ok(Value::Boolean(true)));
    assert_eq!(apply(Operator::GT, 1.0, 2.0), Ok(Value::Boolean(false)));
    assert_eq!(apply(Operator::LTE, 2.0, 2.0), Ok(Value::Boolean(true)));
    assert_eq!(apply(Operator::GTE, 1.0, 2.0), Ok(Value::Boolean(false)));
    assert_eq!(apply(Operator::EQ, 0.1 + 0.2, 0.3), Ok(Value::Boolean(true)));
    assert_eq!(apply(Operator::EQ, 1.0, 2.0), Ok(Value::Boolean(false)));
    assert_eq!(apply(Operator::NEQ, 1.0, 2.0), Ok(Value::Boolean(true)));
    assert_eq!(apply(Operator::NEQ, 0.1 + 0.2, 0.3), Ok(Value::Boolean(false)));
}

#[test]
fn rerunning_gives_the_same_outcome() {
    let source = "متغير س = ١,٠٠٠ / ٣. لو س < ٤٠٠ ف متغير ص = س * ٢. ع. وإلا متغير ص = ٠.";
    let (first, first_result) = evaluate(source);
    let (second, second_result) = evaluate(source);
    assert_eq!(first_result, Err(RuntimeError::UndefinedVariable("ع".to_string())));
    assert_eq!(first_result, second_result);
    for name in ["س", "ص", "ع"] {
        assert_eq!(first.get_variable(name), second.get_variable(name));
    }
    assert_eq!(first.get_variable("ص"), Some(&number(1000.0 / 3.0 * 2.0)));
    assert_eq!(
        amood::pipeline::run("متغير = ١.", &arith).err(),
        amood::pipeline::run("متغير = ١.", &arith).err()
    );
    assert_eq!(amood::pipeline::run("متغير = ١.", &arith).err(), Some(ParseError::ExpectedIdentifier));
}

#[test]
fn variables_are_listed_once_each() {
    let (interpreter, result) = evaluate("متغير س = ١. متغير ص = ٢. متغير س = ٣.");
    assert_eq!(result, Ok(()));
    assert_eq!(
        interpreter.variables(),
        vec![("س".to_string(), number(3.0)), ("ص".to_string(), number(2.0))]
    );
    assert_eq!(Interpreter::new().variables(), vec![]);
}

#[test]
fn values_are_copied() {
    let text = Value::String("نص".to_string());
    assert_eq!(amood::interpreter::clone_value(&text), text);
    assert_eq!(amood::interpreter::clone_value(&number(2.5)), number(2.5));
    assert_eq!(amood::interpreter::number_of_digits(&vec![1, 2, 3], &arith), 123.0f64.to_bits());
    assert_eq!(amood::interpreter::number_of_digits(&vec![], &arith), 0.0f64.to_bits());
}

#[test]
fn parse_errors_have_messages() {
    assert_eq!(ParseError::ExpectedIdentifier.message(), "Expected identifier after 'متغير'");
    assert_eq!(ParseError::UnexpectedToken.message(), "Unexpected token");
    assert_eq!(ParseError::Expected(Expected::Dot).message(), "Expected Dot");
    assert_eq!(ParseError::Expected(Expected::Equals).message(), "Expected Equals");
    assert_eq!(ParseError::Expected(Expected::RightParen).message(), "Expected RightParen");
    assert_eq!(ParseError::Expected(Expected::ThenKeyword).message(), "Expected ThenKeyword");
}

#[test]
fn runtime_errors_have_messages() {
    assert_eq!(RuntimeError::UndefinedVariable("س".to_string()).message(), "Undefined variable: س");
    assert_eq!(RuntimeError::ConditionNotBoolean.message(), "Condition must evaluate to a boolean");
    assert_eq!(RuntimeError::TypeMismatch.message(), "Type mismatch in binary operation");
    assert_eq!(RuntimeError::DivisionByZero.message(), "Division by zero");
    assert_eq!(
        RuntimeError::UnknownNumberOperator(Operator::And).message(),
        "Unknown operator for numbers: And"
    );
    assert_eq!(
        RuntimeError::UnknownBooleanOperator(Operator::Plus).message(),
        "Unknown operator for booleans: Plus"
    );
    assert_eq!(RuntimeError::StringOperation.message(), "Operations on two strings are not implemented");
}

#[test]
fn operators_have_names() {
    let names: Vec<String> = [
        Operator::Plus,
        Operator::Minus,
        Operator::Multiply,
        Operator::Divide,
        Operator::And,
        Operator::Or,
        Operator::EQ,
        Operator::NEQ,
        Operator::GT,
        Operator::GTE,
        Operator::LT,
        Operator::LTE,
    ]
    .iter()
    .map(|operator| operator.name())
    .collect();
    assert_eq!(
        names,
        vec!["Plus", "Minus", "Multiply", "Divide", "And", "Or", "EQ", "NEQ", "GT", "GTE", "LT", "LTE"]
    );
    for operator in [Operator::Plus, Operator::LTE] {
        assert_eq!(operator.name(), format!("{:?}", operator));
    }
}

#[test]
fn interprets_a_slice_of_statements() {
    let program = vec![
        declare("س", literal(&[4])),
        declare("ص", binary(ASTNode::Variable("س".to_string()), Operator::Multiply, literal(&[2, 5]))),
        ASTNode::Variable("ع".to_string()),
        declare("س", literal(&[0])),
    ];
    let mut interpreter = Interpreter::new();
    assert_eq!(interpreter.interpret(&program[..2], &arith), Ok(()));
    assert_eq!(interpreter.get_variable("ص"), Some(&number(100.0)));
    assert_eq!(
        interpreter.interpret(&program, &arith),
        Err(RuntimeError::UndefinedVariable("ع".to_string()))
    );
    assert_eq!(interpreter.get_variable("س"), Some(&number(4.0)));
    assert_eq!(interpreter.interpret(&[], &arith), Ok(()));
    let (done, result) = amood::interpreter::run(program, &arith);
    assert_eq!(result, Err(RuntimeError::UndefinedVariable("ع".to_string())));
    assert_eq!(done.variables(), vec![("س".to_string(), number(4.0)), ("ص".to_string(), number(100.0))]);
}

#[test]
fn nested_conditionals_share_the_environment() {
    let (interpreter, result) = evaluate("متغير س = ١. لو س < ٢ ف لو س < ٠ ف متغير ص = ١. وإلا متغير ص = ٢. متغير س = ص + ١.");
    assert_eq!(result, Ok(()));
    assert_eq!(interpreter.get_variable("ص"), Some(&number(2.0)));
    assert_eq!(interpreter.get_variable("س"), Some(&number(3.0)));
}
