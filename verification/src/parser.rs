use vstd::prelude::*;
use vstd::string::StringExecFns;
use crate::lexer::{Lexeme, Token, lexemes};

verus! {

/// A binary operator of the language.
#[derive(Debug, PartialEq, Eq, Clone, Copy, Structural)]
pub enum Operator {
    Plus,
    Minus,
    Multiply,
    Divide,
    And,
    Or,
    EQ,
    NEQ,
    GT,
    GTE,
    LT,
    LTE,
}

/// A node of the syntax tree. A number literal holds its decimal digits, most
/// significant first, each between 0 and 9.
#[derive(Debug, PartialEq)]
pub enum ASTNode {
    Number(Vec<u8>),
    StringLiteral(String),
    BooleanLiteral(bool),
    Variable(String),
    IfStatement { condition: Box<ASTNode>, then_branch: Vec<ASTNode>, else_branch: Option<Vec<ASTNode>> },
    BinaryOp { left: Box<ASTNode>, operator: Operator, right: Box<ASTNode> },
    VariableDeclaration { variable: String, value: Box<ASTNode> },
}

/// The mathematical model of a syntax tree.
pub enum Ast {
    Number(Seq<u8>),
    StringLiteral(Seq<char>),
    BooleanLiteral(bool),
    Variable(Seq<char>),
    IfStatement { condition: Box<Ast>, then_branch: Seq<Ast>, else_branch: Option<Seq<Ast>> },
    BinaryOp { left: Box<Ast>, operator: Operator, right: Box<Ast> },
    VariableDeclaration { variable: Seq<char>, value: Box<Ast> },
}

/// The models of a sequence of nodes, in order.
pub open spec fn block_view(nodes: Seq<ASTNode>) -> Seq<Ast>
    decreases nodes, 1int,
{
    Seq::new(
        nodes.len(),
        |i: int|
            if 0 <= i < nodes.len() {
                node_view(nodes[i])
            } else {
                Ast::BooleanLiteral(true)
            },
    )
}

/// The model of one node.
pub open spec fn node_view(node: ASTNode) -> Ast
    decreases node, 0int,
{
    match node {
        ASTNode::Number(digits) => Ast::Number(digits@),
        ASTNode::StringLiteral(text) => Ast::StringLiteral(text@),
        ASTNode::BooleanLiteral(b) => Ast::BooleanLiteral(b),
        ASTNode::Variable(name) => Ast::Variable(name@),
        ASTNode::IfStatement { condition, then_branch, else_branch } => Ast::IfStatement {
            condition: Box::new(node_view(*condition)),
            then_branch: block_view(then_branch@),
            else_branch: match else_branch {
                Some(stmts) => Some(block_view(stmts@)),
                None => None,
            },
        },
        ASTNode::BinaryOp { left, operator, right } => Ast::BinaryOp {
            left: Box::new(node_view(*left)),
            operator,
            right: Box::new(node_view(*right)),
        },
        ASTNode::VariableDeclaration { variable, value } => Ast::VariableDeclaration {
            variable: variable@,
            value: Box::new(node_view(*value)),
        },
    }
}

impl View for ASTNode {
    type V = Ast;

    open spec fn view(&self) -> Ast {
        node_view(*self)
    }
}

/// A token that a construct must hold at a given place.
#[derive(Debug, PartialEq, Eq, Clone, Copy, Structural)]
pub enum Expected {
    Dot,
    Equals,
    RightParen,
    ThenKeyword,
}

/// The first malformed construct of a token sequence.
#[derive(Debug, PartialEq, Eq, Clone, Copy, Structural)]
pub enum ParseError {
    /// The declaration keyword is not followed by an identifier.
    ExpectedIdentifier,
    /// No expression can start with the token found, or none is left.
    UnexpectedToken,
    /// The named token is missing.
    Expected(Expected),
}

impl Operator {
    /// The operator's name, as error messages give it.
    pub open spec fn name_text(self) -> Seq<char> {
        match self {
            Operator::Plus => "Plus"@,
            Operator::Minus => "Minus"@,
            Operator::Multiply => "Multiply"@,
            Operator::Divide => "Divide"@,
            Operator::And => "And"@,
            Operator::Or => "Or"@,
            Operator::EQ => "EQ"@,
            Operator::NEQ => "NEQ"@,
            Operator::GT => "GT"@,
            Operator::GTE => "GTE"@,
            Operator::LT => "LT"@,
            Operator::LTE => "LTE"@,
        }
    }

    /// The operator's name.
    pub fn name(&self) -> (text: String)
        ensures
            text@ == self.name_text(),
    {
        match self {
            Operator::Plus => String::from_str("Plus"),
            Operator::Minus => String::from_str("Minus"),
            Operator::Multiply => String::from_str("Multiply"),
            Operator::Divide => String::from_str("Divide"),
            Operator::And => String::from_str("And"),
            Operator::Or => String::from_str("Or"),
            Operator::EQ => String::from_str("EQ"),
            Operator::NEQ => String::from_str("NEQ"),
            Operator::GT => String::from_str("GT"),
            Operator::GTE => String::from_str("GTE"),
            Operator::LT => String::from_str("LT"),
            Operator::LTE => String::from_str("LTE"),
        }
    }
}

impl ParseError {
    /// The sentence that reports the error.
    pub open spec fn message_text(self) -> Seq<char> {
        match self {
            ParseError::ExpectedIdentifier => "Expected identifier after '\u{645}\u{62A}\u{63A}\u{64A}\u{631}'"@,
            ParseError::UnexpectedToken => "Unexpected token"@,
            ParseError::Expected(Expected::Dot) => "Expected Dot"@,
            ParseError::Expected(Expected::Equals) => "Expected Equals"@,
            ParseError::Expected(Expected::RightParen) => "Expected RightParen"@,
            ParseError::Expected(Expected::ThenKeyword) => "Expected ThenKeyword"@,
        }
    }

    /// The sentence that reports the error.
    pub fn message(&self) -> (text: String)
        ensures
            text@ == self.message_text(),
    {
        match self {
            ParseError::ExpectedIdentifier => String::from_str(
                "Expected identifier after '\u{645}\u{62A}\u{63A}\u{64A}\u{631}'",
            ),
            ParseError::UnexpectedToken => String::from_str("Unexpected token"),
            ParseError::Expected(Expected::Dot) => String::from_str("Expected Dot"),
            ParseError::Expected(Expected::Equals) => String::from_str("Expected Equals"),
            ParseError::Expected(Expected::RightParen) => String::from_str("Expected RightParen"),
            ParseError::Expected(Expected::ThenKeyword) => String::from_str("Expected ThenKeyword"),
        }
    }
}

/// The lexeme that an expected token stands for.
pub open spec fn expected_lexeme(expected: Expected) -> Lexeme {
    match expected {
        Expected::Dot => Lexeme::Dot,
        Expected::Equals => Lexeme::Equals,
        Expected::RightParen => Lexeme::RightParen,
        Expected::ThenKeyword => Lexeme::ThenKeyword,
    }
}

/// The lexeme at `pos` is `lexeme`.
pub open spec fn holds(tokens: Seq<Lexeme>, pos: int, lexeme: Lexeme) -> bool {
    0 <= pos < tokens.len() && tokens[pos] == lexeme
}

/// The binary operator at `pos` that belongs to a precedence level: 3 for the
/// comparisons, 2 for `+` and `-`, 1 for `*` and `/`.
pub open spec fn operator_at(tokens: Seq<Lexeme>, pos: int, level: int) -> Option<Operator> {
    if 0 <= pos < tokens.len() {
        match tokens[pos] {
            Lexeme::LT => if level == 3 { Some(Operator::LT) } else { None },
            Lexeme::GT => if level == 3 { Some(Operator::GT) } else { None },
            Lexeme::LTE => if level == 3 { Some(Operator::LTE) } else { None },
            Lexeme::GTE => if level == 3 { Some(Operator::GTE) } else { None },
            Lexeme::EQ => if level == 3 { Some(Operator::EQ) } else { None },
            Lexeme::NEQ => if level == 3 { Some(Operator::NEQ) } else { None },
            Lexeme::Plus => if level == 2 { Some(Operator::Plus) } else { None },
            Lexeme::Minus => if level == 2 { Some(Operator::Minus) } else { None },
            Lexeme::Multiply => if level == 1 { Some(Operator::Multiply) } else { None },
            Lexeme::Divide => if level == 1 { Some(Operator::Divide) } else { None },
            _ => None,
        }
    } else {
        None
    }
}

/// A construct ends at `end` when it began at `begin` and took at least one
/// token. Every construct that parses does; the grammar below says so where
/// it goes on after one.
pub open spec fn advanced(tokens: Seq<Lexeme>, begin: int, end: int) -> bool {
    0 <= begin < end <= tokens.len()
}

/// The grammar of expressions from `pos` on, at a precedence level: level 0
/// is a primary, and each level above is a left-associative chain of the
/// level below. The result is the tree and the position behind it.
pub open spec fn climb(tokens: Seq<Lexeme>, level: int, pos: int) -> Result<(Ast, int), ParseError>
    decreases tokens.len() - pos, 2 * level + 1,
{
    if level <= 0 {
        if 0 <= pos < tokens.len() {
            match tokens[pos] {
                Lexeme::Number(digits) => Ok((Ast::Number(digits), pos + 1)),
                Lexeme::String(text) => Ok((Ast::StringLiteral(text), pos + 1)),
                Lexeme::True => Ok((Ast::BooleanLiteral(true), pos + 1)),
                Lexeme::False => Ok((Ast::BooleanLiteral(false), pos + 1)),
                Lexeme::Identifier(name) => Ok((Ast::Variable(name), pos + 1)),
                Lexeme::LeftParen => match climb(tokens, 3, pos + 1) {
                    Err(error) => Err(error),
                    Ok((inner, end)) => if holds(tokens, end, Lexeme::RightParen) {
                        Ok((inner, end + 1))
                    } else {
                        Err(ParseError::Expected(Expected::RightParen))
                    },
                },
                _ => Err(ParseError::UnexpectedToken),
            }
        } else {
            Err(ParseError::UnexpectedToken)
        }
    } else {
        match climb(tokens, level - 1, pos) {
            Err(error) => Err(error),
            Ok((left, end)) => if advanced(tokens, pos, end) {
                climb_rest(tokens, level, left, end)
            } else {
                Err(ParseError::UnexpectedToken)
            },
        }
    }
}

/// The rest of a chain at a precedence level, with `left` parsed so far.
pub open spec fn climb_rest(tokens: Seq<Lexeme>, level: int, left: Ast, pos: int) -> Result<
    (Ast, int),
    ParseError,
>
    decreases tokens.len() - pos, 2 * level,
{
    match operator_at(tokens, pos, level) {
        None => Ok((left, pos)),
        Some(operator) => if level <= 0 {
            Ok((left, pos))
        } else {
            match climb(tokens, level - 1, pos + 1) {
                Err(error) => Err(error),
                Ok((right, end)) => if advanced(tokens, pos, end) {
                    climb_rest(
                        tokens,
                        level,
                        Ast::BinaryOp { left: Box::new(left), operator, right: Box::new(right) },
                        end,
                    )
                } else {
                    Err(ParseError::UnexpectedToken)
                },
            }
        },
    }
}

/// The grammar of an expression: a chain of comparisons.
pub open spec fn expression(tokens: Seq<Lexeme>, pos: int) -> Result<(Ast, int), ParseError> {
    climb(tokens, 3, pos)
}

/// An expression from `pos` on, and behind it the token `closing`.
pub open spec fn closed_expression(tokens: Seq<Lexeme>, pos: int, closing: Expected) -> Result<
    (Ast, int),
    ParseError,
> {
    match expression(tokens, pos) {
        Err(error) => Err(error),
        Ok((tree, end)) => if holds(tokens, end, expected_lexeme(closing)) {
            Ok((tree, end + 1))
        } else {
            Err(ParseError::Expected(closing))
        },
    }
}

/// The grammar of a declaration, whose keyword stands at `pos`.
pub open spec fn declaration(tokens: Seq<Lexeme>, pos: int) -> Result<(Ast, int), ParseError> {
    if 0 <= pos + 1 < tokens.len() && tokens[pos + 1] is Identifier {
        if holds(tokens, pos + 2, Lexeme::Equals) {
            match closed_expression(tokens, pos + 3, Expected::Dot) {
                Err(error) => Err(error),
                Ok((value, end)) => Ok(
                    (Ast::VariableDeclaration { variable: tokens[pos + 1]->Identifier_0, value: Box::new(value) }, end),
                ),
            }
        } else {
            Err(ParseError::Expected(Expected::Equals))
        }
    } else {
        Err(ParseError::ExpectedIdentifier)
    }
}

/// The grammar of an if-statement, whose keyword stands at `pos`: the
/// condition, the then keyword, the statements of the then-branch and, behind
/// an else keyword, those of the else-branch.
pub open spec fn conditional(tokens: Seq<Lexeme>, pos: int) -> Result<(Ast, int), ParseError>
    decreases tokens.len() - pos, 9int,
{
    if !(0 <= pos < tokens.len()) {
        Err(ParseError::UnexpectedToken)
    } else {
        match closed_expression(tokens, pos + 1, Expected::ThenKeyword) {
            Err(error) => Err(error),
            Ok((condition, body)) => if advanced(tokens, pos, body) {
                match statements(tokens, Seq::empty(), body, true) {
                    Err(error) => Err(error),
                    Ok((then_branch, end)) => if advanced(tokens, pos, end) && holds(
                        tokens,
                        end,
                        Lexeme::ElseKeyword,
                    ) {
                        match statements(tokens, Seq::empty(), end + 1, false) {
                            Err(error) => Err(error),
                            Ok((else_branch, last)) => Ok(
                                (
                                    Ast::IfStatement {
                                        condition: Box::new(condition),
                                        then_branch,
                                        else_branch: Some(else_branch),
                                    },
                                    last,
                                ),
                            ),
                        }
                    } else {
                        Ok((Ast::IfStatement { condition: Box::new(condition), then_branch, else_branch: None }, end))
                    },
                }
            } else {
                Err(ParseError::UnexpectedToken)
            },
        }
    }
}

/// The grammar of one statement.
pub open spec fn statement(tokens: Seq<Lexeme>, pos: int) -> Result<(Ast, int), ParseError>
    decreases tokens.len() - pos, 10int,
{
    if holds(tokens, pos, Lexeme::VariableKeyword) {
        declaration(tokens, pos)
    } else if holds(tokens, pos, Lexeme::IfKeyword) {
        conditional(tokens, pos)
    } else {
        closed_expression(tokens, pos, Expected::Dot)
    }
}

/// The grammar of a run of statements behind those in `done`: up to the end
/// of the tokens, or, in a then-branch, up to the else keyword.
pub open spec fn statements(tokens: Seq<Lexeme>, done: Seq<Ast>, pos: int, in_then_branch: bool) -> Result<
    (Seq<Ast>, int),
    ParseError,
>
    decreases tokens.len() - pos, 11int,
{
    if !(0 <= pos < tokens.len()) || (in_then_branch && tokens[pos] == Lexeme::ElseKeyword) {
        Ok((done, pos))
    } else {
        match statement(tokens, pos) {
            Err(error) => Err(error),
            Ok((next, end)) => if advanced(tokens, pos, end) {
                statements(tokens, done.push(next), end, in_then_branch)
            } else {
                Err(ParseError::UnexpectedToken)
            },
        }
    }
}

/// The grammar of a program: statements up to the end of the tokens.
pub open spec fn program(tokens: Seq<Lexeme>) -> Result<Seq<Ast>, ParseError> {
    match statements(tokens, Seq::empty(), 0, false) {
        Err(error) => Err(error),
        Ok((trees, _)) => Ok(trees),
    }
}

/// An expression that parses takes at least one token and ends within the
/// tokens. So the grammar never gives the error that it names for an
/// expression that takes none.
pub proof fn expression_advances(tokens: Seq<Lexeme>, level: int, pos: int)
    ensures
        climb(tokens, level, pos) is Ok ==> advanced(tokens, pos, climb(tokens, level, pos)->Ok_0.1),
    decreases tokens.len() - pos, 2 * level + 1,
{
    if level <= 0 {
        if 0 <= pos < tokens.len() && tokens[pos] is LeftParen {
            expression_advances(tokens, 3, pos + 1);
        }
    } else {
        expression_advances(tokens, level - 1, pos);
        match climb(tokens, level - 1, pos) {
            Ok((left, end)) => {
                if advanced(tokens, pos, end) {
                    chain_advances(tokens, level, left, end);
                }
            },
            Err(_) => {},
        }
    }
}

/// The rest of a chain that parses ends within the tokens, at its start or
/// behind it.
pub proof fn chain_advances(tokens: Seq<Lexeme>, level: int, left: Ast, pos: int)
    requires
        0 <= pos <= tokens.len(),
    ensures
        climb_rest(tokens, level, left, pos) is Ok ==> pos <= climb_rest(tokens, level, left, pos)->Ok_0.1
            <= tokens.len(),
    decreases tokens.len() - pos, 2 * level,
{
    match operator_at(tokens, pos, level) {
        None => {},
        Some(operator) => {
            if level > 0 {
                expression_advances(tokens, level - 1, pos + 1);
                match climb(tokens, level - 1, pos + 1) {
                    Ok((right, end)) => {
                        if advanced(tokens, pos, end) {
                            chain_advances(
                                tokens,
                                level,
                                Ast::BinaryOp { left: Box::new(left), operator, right: Box::new(right) },
                                end,
                            );
                        }
                    },
                    Err(_) => {},
                }
            }
        },
    }
}

/// A statement that parses takes at least one token and ends within the
/// tokens.
pub proof fn statement_advances(tokens: Seq<Lexeme>, pos: int)
    ensures
        statement(tokens, pos) is Ok ==> advanced(tokens, pos, statement(tokens, pos)->Ok_0.1),
    decreases tokens.len() - pos, 10int,
{
    if holds(tokens, pos, Lexeme::VariableKeyword) {
        expression_advances(tokens, 3, pos + 3);
    } else if holds(tokens, pos, Lexeme::IfKeyword) {
        expression_advances(tokens, 3, pos + 1);
        match closed_expression(tokens, pos + 1, Expected::ThenKeyword) {
            Ok((condition, body)) => {
                statements_advance(tokens, Seq::empty(), body, true);
                match statements(tokens, Seq::empty(), body, true) {
                    Ok((then_branch, end)) => {
                        if holds(tokens, end, Lexeme::ElseKeyword) {
                            statements_advance(tokens, Seq::empty(), end + 1, false);
                        }
                    },
                    Err(_) => {},
                }
            },
            Err(_) => {},
        }
    } else {
        expression_advances(tokens, 3, pos);
    }
}

/// A run of statements that parses ends within the tokens, at its start or
/// behind it.
pub proof fn statements_advance(tokens: Seq<Lexeme>, done: Seq<Ast>, pos: int, in_then_branch: bool)
    requires
        0 <= pos <= tokens.len(),
    ensures
        statements(tokens, done, pos, in_then_branch) is Ok ==> pos <= statements(
            tokens,
            done,
            pos,
            in_then_branch,
        )->Ok_0.1 <= tokens.len(),
    decreases tokens.len() - pos, 11int,
{
    if !(0 <= pos < tokens.len()) || (in_then_branch && tokens[pos] == Lexeme::ElseKeyword) {
    } else {
        statement_advances(tokens, pos);
        match statement(tokens, pos) {
            Ok((next, end)) => {
                if advanced(tokens, pos, end) {
                    statements_advance(tokens, done.push(next), end, in_then_branch);
                }
            },
            Err(_) => {},
        }
    }
}

/// In a sum whose second operand is a product, the product is parsed first:
/// `a + b * c .` is the sum of `a` and the product of `b` and `c`, whatever
/// the three numbers are.
pub proof fn product_binds_tighter_than_sum(a: Seq<u8>, b: Seq<u8>, c: Seq<u8>)
    ensures
        program(
            seq![
                Lexeme::Number(a),
                Lexeme::Plus,
                Lexeme::Number(b),
                Lexeme::Multiply,
                Lexeme::Number(c),
                Lexeme::Dot,
            ],
        ) == Ok::<Seq<Ast>, ParseError>(
            seq![
                Ast::BinaryOp {
                    left: Box::new(Ast::Number(a)),
                    operator: Operator::Plus,
                    right: Box::new(
                        Ast::BinaryOp {
                            left: Box::new(Ast::Number(b)),
                            operator: Operator::Multiply,
                            right: Box::new(Ast::Number(c)),
                        },
                    ),
                },
            ],
        ),
{
    let tokens = seq![
        Lexeme::Number(a),
        Lexeme::Plus,
        Lexeme::Number(b),
        Lexeme::Multiply,
        Lexeme::Number(c),
        Lexeme::Dot,
    ];
    let product = Ast::BinaryOp {
        left: Box::new(Ast::Number(b)),
        operator: Operator::Multiply,
        right: Box::new(Ast::Number(c)),
    };
    let sum = Ast::BinaryOp { left: Box::new(Ast::Number(a)), operator: Operator::Plus, right: Box::new(product) };
    reveal_with_fuel(climb, 3);
    reveal_with_fuel(climb_rest, 2);
    assert(climb(tokens, 1, 0) == Ok::<(Ast, int), ParseError>((Ast::Number(a), 1)));
    assert(climb(tokens, 1, 2) == Ok::<(Ast, int), ParseError>((product, 5)));
    assert(climb_rest(tokens, 2, sum, 5) == Ok::<(Ast, int), ParseError>((sum, 5)));
    assert(climb(tokens, 2, 0) == Ok::<(Ast, int), ParseError>((sum, 5)));
    assert(climb(tokens, 3, 0) == Ok::<(Ast, int), ParseError>((sum, 5)));
    assert(statement(tokens, 0) == Ok::<(Ast, int), ParseError>((sum, 6)));
    reveal_with_fuel(statements, 2);
    assert(Seq::<Ast>::empty().push(sum) =~= seq![sum]);
}

/// What a parsing function returned and where it stopped, against the grammar.
pub open spec fn tree_parsed(
    result: Result<ASTNode, ParseError>,
    pos: usize,
    grammar: Result<(Ast, int), ParseError>,
) -> bool {
    match grammar {
        Ok((tree, end)) => result is Ok && result->Ok_0@ == tree && pos == end,
        Err(error) => result == Err::<ASTNode, ParseError>(error),
    }
}

/// The same for a run of statements.
pub open spec fn block_parsed(
    result: Result<Vec<ASTNode>, ParseError>,
    pos: usize,
    grammar: Result<(Seq<Ast>, int), ParseError>,
) -> bool {
    match grammar {
        Ok((trees, end)) => result is Ok && block_view(result->Ok_0@) == trees && pos == end,
        Err(error) => result == Err::<Vec<ASTNode>, ParseError>(error),
    }
}

/// A copy of a literal's digits.
pub fn copy_digits(digits: &Vec<u8>) -> (copy: Vec<u8>)
    ensures
        copy@ == digits@,
{
    let mut copy: Vec<u8> = Vec::new();
    let mut i: usize = 0;
    while i < digits.len()
        invariant
            i <= digits.len(),
            copy@ == digits@.take(i as int),
        decreases digits.len() - i,
    {
        copy.push(digits[i]);
        proof {
            assert(copy@ =~= digits@.take(i + 1));
        }
        i += 1;
    }
    proof {
        assert(digits@.take(i as int) =~= digits@);
    }
    copy
}

/// A recursive-descent parser: the tokens and the index of the next one.
pub struct Parser {
    pub tokens: Vec<Token>,
    pub pos: usize,
}

impl Parser {
    /// The next token, if any, lies within the tokens.
    pub open spec fn wf(&self) -> bool {
        self.pos <= self.tokens.len()
    }

    /// The models of the tokens.
    pub open spec fn input(&self) -> Seq<Lexeme> {
        lexemes(self.tokens@)
    }

    /// A parser at the first token.
    pub fn new(tokens: Vec<Token>) -> (parser: Parser)
        ensures
            parser.tokens == tokens,
            parser.pos == 0,
            parser.wf(),
    {
        Parser { tokens, pos: 0 }
    }

    /// Parses statements up to the end of the tokens.
    pub fn parse(&mut self) -> (result: Result<Vec<ASTNode>, ParseError>)
        requires
            old(self).wf(),
        ensures
            final(self).wf(),
            final(self).tokens == old(self).tokens,
            result is Ok ==> final(self).pos >= old(self).pos,
            block_parsed(
                result,
                final(self).pos,
                statements(old(self).input(), Seq::empty(), old(self).pos as int, false),
            ),
        decreases old(self).tokens.len() - old(self).pos, 12int,
    {
        self.parse_block(false)
    }

    /// Parses statements up to the end of the tokens or, in a then-branch, up
    /// to the else keyword.
    pub fn parse_block(&mut self, in_then_branch: bool) -> (result: Result<Vec<ASTNode>, ParseError>)
        requires
            old(self).wf(),
        ensures
            final(self).wf(),
            final(self).tokens == old(self).tokens,
            result is Ok ==> final(self).pos >= old(self).pos,
            block_parsed(
                result,
                final(self).pos,
                statements(old(self).input(), Seq::empty(), old(self).pos as int, in_then_branch),
            ),
        decreases old(self).tokens.len() - old(self).pos, 11int,
    {
        let mut done: Vec<ASTNode> = Vec::new();
        let mut more = self.pos < self.tokens.len() && !(in_then_branch && self.at_else());
        proof {
            assert(block_view(done@) =~= Seq::<Ast>::empty());
        }
        while more
            invariant
                self.wf(),
                self.tokens == old(self).tokens,
                self.pos >= old(self).pos,
                more == (self.pos < self.tokens.len() && !(in_then_branch && holds(
                    self.input(),
                    self.pos as int,
                    Lexeme::ElseKeyword,
                ))),
                statements(self.input(), block_view(done@), self.pos as int, in_then_branch) == statements(
                    old(self).input(),
                    Seq::empty(),
                    old(self).pos as int,
                    in_then_branch,
                ),
            decreases self.tokens.len() - self.pos,
        {
            let ghost before = block_view(done@);
            match self.parse_statement() {
                Ok(next) => {
                    done.push(next);
                    proof {
                        assert(block_view(done@) =~= before.push(next@));
                    }
                },
                Err(error) => {
                    return Err(error);
                },
            }
            more = self.pos < self.tokens.len() && !(in_then_branch && self.at_else());
        }
        Ok(done)
    }

    /// Parses one statement: a declaration, an if-statement, or an expression
    /// with its terminator.
    pub fn parse_statement(&mut self) -> (result: Result<ASTNode, ParseError>)
        requires
            old(self).wf(),
        ensures
            final(self).wf(),
            final(self).tokens == old(self).tokens,
            result is Ok ==> final(self).pos > old(self).pos,
            tree_parsed(result, final(self).pos, statement(old(self).input(), old(self).pos as int)),
        decreases old(self).tokens.len() - old(self).pos, 10int,
    {
        if self.at_variable_keyword() {
            self.parse_variable_declaration()
        } else if self.at_if() {
            self.parse_if_statement()
        } else {
            let expr = match self.parse_expression() {
                Ok(tree) => tree,
                Err(error) => {
                    return Err(error);
                },
            };
            match self.expect(Expected::Dot) {
                Ok(_) => Ok(expr),
                Err(error) => Err(error),
            }
        }
    }

    /// Parses a declaration whose keyword is the next token: the name, the
    /// assignment symbol, the value and the terminator.
    pub fn parse_variable_declaration(&mut self) -> (result: Result<ASTNode, ParseError>)
        requires
            old(self).wf(),
        ensures
            final(self).wf(),
            final(self).tokens == old(self).tokens,
            result is Ok ==> final(self).pos > old(self).pos,
            tree_parsed(result, final(self).pos, declaration(old(self).input(), old(self).pos as int)),
        decreases old(self).tokens.len() - old(self).pos, 9int,
    {
        if self.pos < self.tokens.len() {
            self.pos += 1;
        }
        if self.pos >= self.tokens.len() {
            return Err(ParseError::ExpectedIdentifier);
        }
        let variable = match &self.tokens[self.pos] {
            Token::Identifier(name) => name.clone(),
            _ => {
                return Err(ParseError::ExpectedIdentifier);
            },
        };
        self.pos += 1;
        match self.expect(Expected::Equals) {
            Ok(_) => {},
            Err(error) => {
                return Err(error);
            },
        }
        let value = match self.parse_expression() {
            Ok(tree) => tree,
            Err(error) => {
                return Err(error);
            },
        };
        match self.expect(Expected::Dot) {
            Ok(_) => {},
            Err(error) => {
                return Err(error);
            },
        }
        Ok(ASTNode::VariableDeclaration { variable, value: Box::new(value) })
    }

    /// Parses an expression.
    pub fn parse_expression(&mut self) -> (result: Result<ASTNode, ParseError>)
        requires
            old(self).wf(),
        ensures
            final(self).wf(),
            final(self).tokens == old(self).tokens,
            result is Ok ==> final(self).pos > old(self).pos,
            tree_parsed(result, final(self).pos, expression(old(self).input(), old(self).pos as int)),
        decreases old(self).tokens.len() - old(self).pos, 8int,
    {
        self.parse_comparison()
    }

    /// Parses a left-associative chain of comparisons.
    pub fn parse_comparison(&mut self) -> (result: Result<ASTNode, ParseError>)
        requires
            old(self).wf(),
        ensures
            final(self).wf(),
            final(self).tokens == old(self).tokens,
            result is Ok ==> final(self).pos > old(self).pos,
            tree_parsed(result, final(self).pos, climb(old(self).input(), 3, old(self).pos as int)),
        decreases old(self).tokens.len() - old(self).pos, 7int,
    {
        let mut expr = match self.parse_additive() {
            Ok(tree) => tree,
            Err(error) => {
                return Err(error);
            },
        };
        let mut operator = self.operator_here(3);
        while operator.is_some()
            invariant
                self.wf(),
                self.tokens == old(self).tokens,
                self.pos > old(self).pos,
                operator == operator_at(self.input(), self.pos as int, 3),
                climb(old(self).input(), 3, old(self).pos as int) == climb_rest(
                    self.input(),
                    3,
                    expr@,
                    self.pos as int,
                ),
            decreases self.tokens.len() - self.pos,
        {
            let op = operator.unwrap();
            self.pos += 1;
            let right = match self.parse_additive() {
                Ok(tree) => tree,
                Err(error) => {
                    return Err(error);
                },
            };
            expr = ASTNode::BinaryOp { left: Box::new(expr), operator: op, right: Box::new(right) };
            operator = self.operator_here(3);
        }
        Ok(expr)
    }

    /// Parses a left-associative chain of sums and differences.
    pub fn parse_additive(&mut self) -> (result: Result<ASTNode, ParseError>)
        requires
            old(self).wf(),
        ensures
            final(self).wf(),
            final(self).tokens == old(self).tokens,
            result is Ok ==> final(self).pos > old(self).pos,
            tree_parsed(result, final(self).pos, climb(old(self).input(), 2, old(self).pos as int)),
        decreases old(self).tokens.len() - old(self).pos, 5int,
    {
        let mut left = match self.parse_multiplicative() {
            Ok(tree) => tree,
            Err(error) => {
                return Err(error);
            },
        };
        let mut operator = self.operator_here(2);
        while operator.is_some()
            invariant
                self.wf(),
                self.tokens == old(self).tokens,
                self.pos > old(self).pos,
                operator == operator_at(self.input(), self.pos as int, 2),
                climb(old(self).input(), 2, old(self).pos as int) == climb_rest(
                    self.input(),
                    2,
                    left@,
                    self.pos as int,
                ),
            decreases self.tokens.len() - self.pos,
        {
            let op = operator.unwrap();
            self.pos += 1;
            let right = match self.parse_multiplicative() {
                Ok(tree) => tree,
                Err(error) => {
                    return Err(error);
                },
            };
            left = ASTNode::BinaryOp { left: Box::new(left), operator: op, right: Box::new(right) };
            operator = self.operator_here(2);
        }
        Ok(left)
    }

    /// Parses a left-associative chain of products and quotients.
    pub fn parse_multiplicative(&mut self) -> (result: Result<ASTNode, ParseError>)
        requires
            old(self).wf(),
        ensures
            final(self).wf(),
            final(self).tokens == old(self).tokens,
            result is Ok ==> final(self).pos > old(self).pos,
            tree_parsed(result, final(self).pos, climb(old(self).input(), 1, old(self).pos as int)),
        decreases old(self).tokens.len() - old(self).pos, 3int,
    {
        let mut left = match self.parse_primary() {
            Ok(tree) => tree,
            Err(error) => {
                return Err(error);
            },
        };
        let mut operator = self.operator_here(1);
        while operator.is_some()
            invariant
                self.wf(),
                self.tokens == old(self).tokens,
                self.pos > old(self).pos,
                operator == operator_at(self.input(), self.pos as int, 1),
                climb(old(self).input(), 1, old(self).pos as int) == climb_rest(
                    self.input(),
                    1,
                    left@,
                    self.pos as int,
                ),
            decreases self.tokens.len() - self.pos,
        {
            let op = operator.unwrap();
            self.pos += 1;
            let right = match self.parse_primary() {
                Ok(tree) => tree,
                Err(error) => {
                    return Err(error);
                },
            };
            left = ASTNode::BinaryOp { left: Box::new(left), operator: op, right: Box::new(right) };
            operator = self.operator_here(1);
        }
        Ok(left)
    }

    /// Parses a literal, a variable, or an expression in parentheses.
    pub fn parse_primary(&mut self) -> (result: Result<ASTNode, ParseError>)
        requires
            old(self).wf(),
        ensures
            final(self).wf(),
            final(self).tokens == old(self).tokens,
            result is Ok ==> final(self).pos > old(self).pos,
            tree_parsed(result, final(self).pos, climb(old(self).input(), 0, old(self).pos as int)),
        decreases old(self).tokens.len() - old(self).pos, 1int,
    {
        if self.pos >= self.tokens.len() {
            return Err(ParseError::UnexpectedToken);
        }
        let here = self.pos;
        self.pos += 1;
        match &self.tokens[here] {
            Token::Number(digits) => Ok(ASTNode::Number(copy_digits(digits))),
            Token::String(text) => Ok(ASTNode::StringLiteral(text.clone())),
            Token::True => Ok(ASTNode::BooleanLiteral(true)),
            Token::False => Ok(ASTNode::BooleanLiteral(false)),
            Token::Identifier(name) => Ok(ASTNode::Variable(name.clone())),
            Token::LeftParen => {
                let expr = match self.parse_expression() {
                    Ok(tree) => tree,
                    Err(error) => {
                        return Err(error);
                    },
                };
                match self.expect(Expected::RightParen) {
                    Ok(_) => Ok(expr),
                    Err(error) => Err(error),
                }
            },
            _ => Err(ParseError::UnexpectedToken),
        }
    }

    /// Parses an if-statement whose keyword is the next token.
    pub fn parse_if_statement(&mut self) -> (result: Result<ASTNode, ParseError>)
        requires
            old(self).wf(),
        ensures
            final(self).wf(),
            final(self).tokens == old(self).tokens,
            result is Ok ==> final(self).pos > old(self).pos,
            tree_parsed(result, final(self).pos, conditional(old(self).input(), old(self).pos as int)),
        decreases old(self).tokens.len() - old(self).pos, 9int,
    {
        if self.pos >= self.tokens.len() {
            return Err(ParseError::UnexpectedToken);
        }
        self.pos += 1;
        let condition = match self.parse_expression() {
            Ok(tree) => tree,
            Err(error) => {
                return Err(error);
            },
        };
        match self.expect(Expected::ThenKeyword) {
            Ok(_) => {},
            Err(error) => {
                return Err(error);
            },
        }
        let then_branch = match self.parse_block(true) {
            Ok(trees) => trees,
            Err(error) => {
                return Err(error);
            },
        };
        let else_branch = if self.at_else() {
            self.pos += 1;
            match self.parse() {
                Ok(trees) => Some(trees),
                Err(error) => {
                    return Err(error);
                },
            }
        } else {
            None
        };
        Ok(ASTNode::IfStatement { condition: Box::new(condition), then_branch, else_branch })
    }

    /// Takes the next token if it is the expected one.
    pub fn expect(&mut self, expected: Expected) -> (result: Result<(), ParseError>)
        requires
            old(self).wf(),
        ensures
            final(self).wf(),
            final(self).tokens == old(self).tokens,
            holds(old(self).input(), old(self).pos as int, expected_lexeme(expected)) ==> result is Ok
                && final(self).pos == old(self).pos + 1,
            !holds(old(self).input(), old(self).pos as int, expected_lexeme(expected)) ==> result == Err::<
                (),
                ParseError,
            >(ParseError::Expected(expected)),
    {
        if self.pos >= self.tokens.len() {
            return Err(ParseError::Expected(expected));
        }
        let found = match (expected, &self.tokens[self.pos]) {
            (Expected::Dot, Token::Dot) => true,
            (Expected::Equals, Token::Equals) => true,
            (Expected::RightParen, Token::RightParen) => true,
            (Expected::ThenKeyword, Token::ThenKeyword) => true,
            _ => false,
        };
        if found {
            self.pos += 1;
            Ok(())
        } else {
            Err(ParseError::Expected(expected))
        }
    }

    fn operator_here(&self, level: u8) -> (operator: Option<Operator>)
        requires
            self.wf(),
        ensures
            operator == operator_at(self.input(), self.pos as int, level as int),
    {
        if self.pos >= self.tokens.len() {
            return None;
        }
        match &self.tokens[self.pos] {
            Token::LT => if level == 3 { Some(Operator::LT) } else { None },
            Token::GT => if level == 3 { Some(Operator::GT) } else { None },
            Token::LTE => if level == 3 { Some(Operator::LTE) } else { None },
            Token::GTE => if level == 3 { Some(Operator::GTE) } else { None },
            Token::EQ => if level == 3 { Some(Operator::EQ) } else { None },
            Token::NEQ => if level == 3 { Some(Operator::NEQ) } else { None },
            Token::Plus => if level == 2 { Some(Operator::Plus) } else { None },
            Token::Minus => if level == 2 { Some(Operator::Minus) } else { None },
            Token::Multiply => if level == 1 { Some(Operator::Multiply) } else { None },
            Token::Divide => if level == 1 { Some(Operator::Divide) } else { None },
            _ => None,
        }
    }

    fn at_variable_keyword(&self) -> (yes: bool)
        ensures
            yes == holds(self.input(), self.pos as int, Lexeme::VariableKeyword),
    {
        if self.pos >= self.tokens.len() {
            return false;
        }
        match &self.tokens[self.pos] {
            Token::VariableKeyword => true,
            _ => false,
        }
    }

    fn at_if(&self) -> (yes: bool)
        ensures
            yes == holds(self.input(), self.pos as int, Lexeme::IfKeyword),
    {
        if self.pos >= self.tokens.len() {
            return false;
        }
        match &self.tokens[self.pos] {
            Token::IfKeyword => true,
            _ => false,
        }
    }

    fn at_else(&self) -> (yes: bool)
        ensures
            yes == holds(self.input(), self.pos as int, Lexeme::ElseKeyword),
    {
        if self.pos >= self.tokens.len() {
            return false;
        }
        match &self.tokens[self.pos] {
            Token::ElseKeyword => true,
            _ => false,
        }
    }
}

/// Parses a whole program: the statements in order, or the first error.
pub fn run(tokens: Vec<Token>) -> (result: Result<Vec<ASTNode>, ParseError>)
    ensures
        match program(lexemes(tokens@)) {
            Ok(trees) => result is Ok && block_view(result->Ok_0@) == trees,
            Err(error) => result == Err::<Vec<ASTNode>, ParseError>(error),
        },
{
    let mut parser = Parser::new(tokens);
    parser.parse()
}

} // verus!
