use vstd::prelude::*;
use vstd::string::StringExecFns;
use crate::parser::{ASTNode, Ast, Operator, block_view};

verus! {

/// A runtime value. A number is held as the bit pattern of an IEEE 754
/// binary64 value. The library does no arithmetic on such a pattern: it asks
/// its caller, and only tells the two zeros from the other patterns itself.
#[derive(Debug, Clone, PartialEq)]
pub enum Value {
    Number(u64),
    String(String),
    Boolean(bool),
}

/// The mathematical model of a runtime value.
pub enum Datum {
    Number(u64),
    String(Seq<char>),
    Boolean(bool),
}

impl View for Value {
    type V = Datum;

    open spec fn view(&self) -> Datum {
        match self {
            Value::Number(bits) => Datum::Number(*bits),
            Value::String(text) => Datum::String(text@),
            Value::Boolean(b) => Datum::Boolean(*b),
        }
    }
}

/// Why an evaluation stopped.
#[derive(Debug, PartialEq)]
pub enum RuntimeError {
    UndefinedVariable(String),
    ConditionNotBoolean,
    TypeMismatch,
    DivisionByZero,
    UnknownNumberOperator(Operator),
    UnknownBooleanOperator(Operator),
    StringOperation,
}

/// The mathematical model of a runtime error.
pub enum Failure {
    UndefinedVariable(Seq<char>),
    ConditionNotBoolean,
    TypeMismatch,
    DivisionByZero,
    UnknownNumberOperator(Operator),
    UnknownBooleanOperator(Operator),
    StringOperation,
}

impl View for RuntimeError {
    type V = Failure;

    open spec fn view(&self) -> Failure {
        match self {
            RuntimeError::UndefinedVariable(name) => Failure::UndefinedVariable(name@),
            RuntimeError::ConditionNotBoolean => Failure::ConditionNotBoolean,
            RuntimeError::TypeMismatch => Failure::TypeMismatch,
            RuntimeError::DivisionByZero => Failure::DivisionByZero,
            RuntimeError::UnknownNumberOperator(op) => Failure::UnknownNumberOperator(*op),
            RuntimeError::UnknownBooleanOperator(op) => Failure::UnknownBooleanOperator(*op),
            RuntimeError::StringOperation => Failure::StringOperation,
        }
    }
}

/// The sentence that reports a runtime error: its kind and, where there is
/// one, the name or the operator that it is about.
pub open spec fn failure_message(failure: Failure) -> Seq<char> {
    match failure {
        Failure::UndefinedVariable(name) => "Undefined variable: "@ + name,
        Failure::ConditionNotBoolean => "Condition must evaluate to a boolean"@,
        Failure::TypeMismatch => "Type mismatch in binary operation"@,
        Failure::DivisionByZero => "Division by zero"@,
        Failure::UnknownNumberOperator(operator) => "Unknown operator for numbers: "@ + operator.name_text(),
        Failure::UnknownBooleanOperator(operator) => "Unknown operator for booleans: "@ + operator.name_text(),
        Failure::StringOperation => "Operations on two strings are not implemented"@,
    }
}

impl RuntimeError {
    /// The sentence that reports the error.
    pub fn message(&self) -> (text: String)
        ensures
            text@ == failure_message(self@),
    {
        match self {
            RuntimeError::UndefinedVariable(name) => String::from_str("Undefined variable: ").concat(name.as_str()),
            RuntimeError::ConditionNotBoolean => String::from_str("Condition must evaluate to a boolean"),
            RuntimeError::TypeMismatch => String::from_str("Type mismatch in binary operation"),
            RuntimeError::DivisionByZero => String::from_str("Division by zero"),
            RuntimeError::UnknownNumberOperator(operator) => {
                let name = operator.name();
                String::from_str("Unknown operator for numbers: ").concat(name.as_str())
            },
            RuntimeError::UnknownBooleanOperator(operator) => {
                let name = operator.name();
                String::from_str("Unknown operator for booleans: ").concat(name.as_str())
            },
            RuntimeError::StringOperation => String::from_str("Operations on two strings are not implemented"),
        }
    }
}

/// One step of binary64 arithmetic, which the caller of the evaluator performs.
///
/// `AppendDigit(n, d)` asks for `n * 10 + d`, `Arithmetic(op, l, r)` for
/// `l op r` with `op` one of the four arithmetic operators, and
/// `Comparison(op, l, r)` for 1 where `l op r` holds and 0 where it does not.
/// Numbers travel as bit patterns in both directions.
#[derive(Debug, PartialEq, Eq, Clone, Copy, Structural)]
pub enum NumericTask {
    AppendDigit(u64, u8),
    Arithmetic(Operator, u64, u64),
    Comparison(Operator, u64, u64),
}

/// The arithmetic answers every task and gives one task one answer.
pub open spec fn dependable<F: Fn(NumericTask) -> u64>(arith: &F) -> bool {
    &&& forall|task: NumericTask| call_requires(arith, (task,))
    &&& forall|task: NumericTask, a: u64, b: u64|
        call_ensures(arith, (task,), a) && call_ensures(arith, (task,), b) ==> a == b
}

/// The answer that the arithmetic gives to a task.
pub open spec fn answer<F: Fn(NumericTask) -> u64>(arith: &F, task: NumericTask) -> u64 {
    choose|a: u64| call_ensures(arith, (task,), a)
}

/// Both bit patterns of zero, the positive and the negative.
pub open spec fn is_zero(bits: u64) -> bool {
    bits == 0 || bits == 0x8000_0000_0000_0000
}

/// The number that a literal's digits denote: start from zero and append the
/// digits from the most significant one.
pub open spec fn literal_bits<F: Fn(NumericTask) -> u64>(arith: &F, digits: Seq<u8>) -> u64
    decreases digits.len(),
{
    if digits.len() == 0 {
        0
    } else {
        answer(arith, NumericTask::AppendDigit(literal_bits(arith, digits.drop_last()), digits.last()))
    }
}

/// What a binary operator yields on two values.
pub open spec fn binary_result<F: Fn(NumericTask) -> u64>(
    arith: &F,
    operator: Operator,
    left: Datum,
    right: Datum,
) -> Result<Datum, Failure> {
    match (left, right) {
        (Datum::Number(l), Datum::Number(r)) => match operator {
            Operator::Plus | Operator::Minus | Operator::Multiply => Ok(
                Datum::Number(answer(arith, NumericTask::Arithmetic(operator, l, r))),
            ),
            Operator::Divide => if is_zero(r) {
                Err(Failure::DivisionByZero)
            } else {
                Ok(Datum::Number(answer(arith, NumericTask::Arithmetic(operator, l, r))))
            },
            Operator::And | Operator::Or => Err(Failure::UnknownNumberOperator(operator)),
            _ => Ok(Datum::Boolean(answer(arith, NumericTask::Comparison(operator, l, r)) != 0)),
        },
        (Datum::Boolean(l), Datum::Boolean(r)) => match operator {
            Operator::And => Ok(Datum::Boolean(l && r)),
            Operator::Or => Ok(Datum::Boolean(l || r)),
            _ => Err(Failure::UnknownBooleanOperator(operator)),
        },
        (Datum::String(_), Datum::String(_)) => Err(Failure::StringOperation),
        _ => Err(Failure::TypeMismatch),
    }
}

/// The environment after a node was executed, and what the node yielded.
pub struct Outcome {
    pub env: Map<Seq<char>, Datum>,
    pub result: Result<Datum, Failure>,
}

/// The environment after a run of statements, and the error that ended the
/// run early, if one did.
pub struct BlockOutcome {
    pub env: Map<Seq<char>, Datum>,
    pub failure: Option<Failure>,
}

/// An if-statement yields `true` whenever its branch ran through.
pub open spec fn branch_outcome(block: BlockOutcome) -> Outcome {
    Outcome {
        env: block.env,
        result: match block.failure {
            Some(failure) => Err(failure),
            None => Ok(Datum::Boolean(true)),
        },
    }
}

/// The meaning of one node in an environment.
pub open spec fn run_node<F: Fn(NumericTask) -> u64>(
    arith: &F,
    node: Ast,
    env: Map<Seq<char>, Datum>,
) -> Outcome
    decreases node, 0int,
{
    match node {
        Ast::Number(digits) => Outcome { env, result: Ok(Datum::Number(literal_bits(arith, digits))) },
        Ast::StringLiteral(text) => Outcome { env, result: Ok(Datum::String(text)) },
        Ast::BooleanLiteral(b) => Outcome { env, result: Ok(Datum::Boolean(b)) },
        Ast::Variable(name) => Outcome {
            env,
            result: if env.contains_key(name) {
                Ok(env[name])
            } else {
                Err(Failure::UndefinedVariable(name))
            },
        },
        Ast::BinaryOp { left, operator, right } => {
            let l = run_node(arith, *left, env);
            match l.result {
                Err(_) => l,
                Ok(left_value) => {
                    let r = run_node(arith, *right, l.env);
                    match r.result {
                        Err(_) => r,
                        Ok(right_value) => Outcome {
                            env: r.env,
                            result: binary_result(arith, operator, left_value, right_value),
                        },
                    }
                },
            }
        },
        Ast::VariableDeclaration { variable, value } => {
            let v = run_node(arith, *value, env);
            match v.result {
                Err(_) => v,
                Ok(datum) => Outcome { env: v.env.insert(variable, datum), result: Ok(datum) },
            }
        },
        Ast::IfStatement { condition, then_branch, else_branch } => {
            let c = run_node(arith, *condition, env);
            match c.result {
                Err(_) => c,
                Ok(Datum::Boolean(true)) => branch_outcome(run_block(arith, then_branch, 0, c.env)),
                Ok(Datum::Boolean(false)) => match else_branch {
                    Some(statements) => branch_outcome(run_block(arith, statements, 0, c.env)),
                    None => Outcome { env: c.env, result: Ok(Datum::Boolean(true)) },
                },
                Ok(_) => Outcome { env: c.env, result: Err(Failure::ConditionNotBoolean) },
            }
        },
    }
}

/// The meaning of the statements from index `from` on, executed in order until
/// the first error.
pub open spec fn run_block<F: Fn(NumericTask) -> u64>(
    arith: &F,
    statements: Seq<Ast>,
    from: int,
    env: Map<Seq<char>, Datum>,
) -> BlockOutcome
    decreases statements, statements.len() - from,
{
    if 0 <= from < statements.len() {
        let first = run_node(arith, statements[from], env);
        match first.result {
            Err(failure) => BlockOutcome { env: first.env, failure: Some(failure) },
            Ok(_) => run_block(arith, statements, from + 1, first.env),
        }
    } else {
        BlockOutcome { env, failure: None }
    }
}

/// The model of what `execute` returns.
pub open spec fn result_view(result: Result<Value, RuntimeError>) -> Result<Datum, Failure> {
    match result {
        Ok(value) => Ok(value@),
        Err(error) => Err(error@),
    }
}

/// The model of what `interpret` returns.
pub open spec fn failure_view(result: Result<(), RuntimeError>) -> Option<Failure> {
    match result {
        Ok(_) => None,
        Err(error) => Some(error@),
    }
}

/// The mapping that a list of assignments amounts to: a later assignment to a
/// name replaces an earlier one.
pub open spec fn bindings(log: Seq<(String, Value)>) -> Map<Seq<char>, Datum>
    decreases log.len(),
{
    if log.len() == 0 {
        Map::empty()
    } else {
        bindings(log.drop_last()).insert(log.last().0@, log.last().1@)
    }
}

/// No name is assigned twice in the list.
pub open spec fn distinct_names(log: Seq<(String, Value)>) -> bool {
    forall|i: int, j: int| 0 <= i < j < log.len() ==> log[i].0@ != log[j].0@
}

proof fn lemma_overwrite(log: Seq<(String, Value)>, i: int, entry: (String, Value))
    requires
        distinct_names(log),
        0 <= i < log.len(),
        log[i].0@ == entry.0@,
    ensures
        distinct_names(log.update(i, entry)),
        bindings(log.update(i, entry)) == bindings(log).insert(entry.0@, entry.1@),
    decreases log.len(),
{
    let changed = log.update(i, entry);
    assert forall|a: int, b: int| 0 <= a < b < changed.len() implies changed[a].0@ != changed[b].0@ by {
        assert(log[a].0@ != log[b].0@);
    }
    if i == log.len() - 1 {
        assert(changed.drop_last() =~= log.drop_last());
        assert(bindings(changed) =~= bindings(log).insert(entry.0@, entry.1@));
    } else {
        let shorter = log.drop_last();
        assert(distinct_names(shorter)) by {
            assert forall|a: int, b: int| 0 <= a < b < shorter.len() implies shorter[a].0@ != shorter[b].0@ by {
                assert(log[a].0@ != log[b].0@);
            }
        }
        lemma_overwrite(shorter, i, entry);
        assert(changed.drop_last() =~= shorter.update(i, entry));
        assert(changed.last() == log.last());
        assert(log[i].0@ != log[log.len() - 1].0@);
        assert(bindings(changed) =~= bindings(log).insert(entry.0@, entry.1@));
    }
}

proof fn lemma_later_names_differ(log: Seq<(String, Value)>, name: Seq<char>, i: int)
    requires
        0 <= i <= log.len(),
        forall|j: int| i <= j < log.len() ==> (#[trigger] log[j]).0@ != name,
    ensures
        bindings(log).contains_key(name) == bindings(log.take(i)).contains_key(name),
        bindings(log).contains_key(name) ==> bindings(log)[name] == bindings(log.take(i))[name],
    decreases log.len(),
{
    if i == log.len() {
        assert(log.take(i) =~= log);
    } else {
        let shorter = log.drop_last();
        assert(log.last() == log[log.len() - 1]);
        lemma_later_names_differ(shorter, name, i);
        assert(shorter.take(i) =~= log.take(i));
    }
}

/// A copy of a value.
pub fn clone_value(value: &Value) -> (copy: Value)
    ensures
        copy == *value,
{
    match value {
        Value::Number(bits) => Value::Number(*bits),
        Value::String(text) => Value::String(text.clone()),
        Value::Boolean(b) => Value::Boolean(*b),
    }
}

/// Hands one task to the arithmetic.
fn ask<F: Fn(NumericTask) -> u64>(arith: &F, task: NumericTask) -> (a: u64)
    requires
        dependable(arith),
    ensures
        a == answer(arith, task),
{
    arith(task)
}

/// Both zeros of binary64 compare equal to zero.
pub fn zero_bits(bits: u64) -> (zero: bool)
    ensures
        zero == is_zero(bits),
{
    bits == 0 || bits == 0x8000_0000_0000_0000
}

/// The number that a literal's digits denote.
pub fn number_of_digits<F: Fn(NumericTask) -> u64>(digits: &Vec<u8>, arith: &F) -> (bits: u64)
    requires
        dependable(arith),
    ensures
        bits == literal_bits(arith, digits@),
{
    let mut bits: u64 = 0;
    let mut i: usize = 0;
    while i < digits.len()
        invariant
            dependable(arith),
            i <= digits.len(),
            bits == literal_bits(arith, digits@.take(i as int)),
        decreases digits.len() - i,
    {
        proof {
            assert(digits@.take(i + 1).drop_last() =~= digits@.take(i as int));
        }
        bits = ask(arith, NumericTask::AppendDigit(bits, digits[i]));
        i += 1;
    }
    proof {
        assert(digits@.take(i as int) =~= digits@);
    }
    bits
}

/// The evaluator: the variables assigned so far, in the order of assignment.
pub struct Interpreter {
    variables: Vec<(String, Value)>,
}

impl View for Interpreter {
    type V = Map<Seq<char>, Datum>;

    closed spec fn view(&self) -> Map<Seq<char>, Datum> {
        bindings(self.variables@)
    }
}

impl Interpreter {
    /// The list holds each bound name once.
    pub closed spec fn wf(&self) -> bool {
        distinct_names(self.variables@)
    }

    /// An evaluator in which no variable is defined.
    pub fn new() -> (fresh: Interpreter)
        ensures
            fresh.wf(),
            fresh@ == Map::<Seq<char>, Datum>::empty(),
    {
        Interpreter { variables: Vec::new() }
    }

    /// Executes the statements in order and stops at the first error. What was
    /// assigned before the error stays assigned.
    pub fn interpret<F: Fn(NumericTask) -> u64>(&mut self, ast: &[ASTNode], arith: &F) -> (result: Result<
        (),
        RuntimeError,
    >)
        requires
            old(self).wf(),
            dependable(arith),
        ensures
            final(self).wf(),
            final(self)@ == run_block(arith, block_view(ast@), 0, old(self)@).env,
            failure_view(result) == run_block(arith, block_view(ast@), 0, old(self)@).failure,
        decreases ast@, 1int,
    {
        let mut i: usize = 0;
        while i < ast.len()
            invariant
                self.wf(),
                dependable(arith),
                i <= ast.len(),
                run_block(arith, block_view(ast@), i as int, self@) == run_block(
                    arith,
                    block_view(ast@),
                    0,
                    old(self)@,
                ),
            decreases ast.len() - i,
        {
            match self.execute(&ast[i], arith) {
                Ok(_) => {},
                Err(error) => {
                    return Err(error);
                },
            }
            i += 1;
        }
        Ok(())
    }

    /// Executes one node: evaluates it, assigns what it declares, and yields
    /// its value or the first error.
    pub fn execute<F: Fn(NumericTask) -> u64>(&mut self, node: &ASTNode, arith: &F) -> (result: Result<
        Value,
        RuntimeError,
    >)
        requires
            old(self).wf(),
            dependable(arith),
        ensures
            final(self).wf(),
            final(self)@ == run_node(arith, node@, old(self)@).env,
            result_view(result) == run_node(arith, node@, old(self)@).result,
        decreases node, 0int,
    {
        match node {
            ASTNode::Number(digits) => Ok(Value::Number(number_of_digits(digits, arith))),
            ASTNode::StringLiteral(text) => Ok(Value::String(text.clone())),
            ASTNode::Variable(name) => match self.lookup(name) {
                Some(value) => Ok(clone_value(value)),
                None => Err(RuntimeError::UndefinedVariable(name.clone())),
            },
            ASTNode::BinaryOp { left, operator, right } => {
                let left_value = match self.execute(left, arith) {
                    Ok(value) => value,
                    Err(error) => {
                        return Err(error);
                    },
                };
                let right_value = match self.execute(right, arith) {
                    Ok(value) => value,
                    Err(error) => {
                        return Err(error);
                    },
                };
                self.evaluate_binary_op(operator, left_value, right_value, arith)
            },
            ASTNode::VariableDeclaration { variable, value } => {
                let datum = match self.execute(value, arith) {
                    Ok(value) => value,
                    Err(error) => {
                        return Err(error);
                    },
                };
                self.assign(variable.clone(), clone_value(&datum));
                Ok(datum)
            },
            ASTNode::IfStatement { condition, then_branch, else_branch } => {
                let condition_value = match self.execute(condition, arith) {
                    Ok(value) => value,
                    Err(error) => {
                        return Err(error);
                    },
                };
                match condition_value {
                    Value::Boolean(true) => {
                        match self.interpret(then_branch.as_slice(), arith) {
                            Ok(_) => {},
                            Err(error) => {
                                return Err(error);
                            },
                        }
                    },
                    Value::Boolean(false) => {
                        match else_branch {
                            Some(statements) => {
                                match self.interpret(statements.as_slice(), arith) {
                                    Ok(_) => {},
                                    Err(error) => {
                                        return Err(error);
                                    },
                                }
                            },
                            None => {},
                        }
                    },
                    _ => {
                        return Err(RuntimeError::ConditionNotBoolean);
                    },
                }
                Ok(Value::Boolean(true))
            },
            ASTNode::BooleanLiteral(b) => Ok(Value::Boolean(*b)),
        }
    }

    /// Applies a binary operator to two values.
    pub fn evaluate_binary_op<F: Fn(NumericTask) -> u64>(
        &self,
        operator: &Operator,
        left: Value,
        right: Value,
        arith: &F,
    ) -> (result: Result<Value, RuntimeError>)
        requires
            dependable(arith),
        ensures
            result_view(result) == binary_result(arith, *operator, left@, right@),
    {
        match (left, right) {
            (Value::Number(l), Value::Number(r)) => match operator {
                Operator::Plus | Operator::Minus | Operator::Multiply => Ok(
                    Value::Number(ask(arith, NumericTask::Arithmetic(*operator, l, r))),
                ),
                Operator::Divide => {
                    if zero_bits(r) {
                        Err(RuntimeError::DivisionByZero)
                    } else {
                        Ok(Value::Number(ask(arith, NumericTask::Arithmetic(*operator, l, r))))
                    }
                },
                Operator::And | Operator::Or => Err(RuntimeError::UnknownNumberOperator(*operator)),
                _ => Ok(Value::Boolean(ask(arith, NumericTask::Comparison(*operator, l, r)) != 0)),
            },
            (Value::Boolean(l), Value::Boolean(r)) => match operator {
                Operator::And => Ok(Value::Boolean(l && r)),
                Operator::Or => Ok(Value::Boolean(l || r)),
                _ => Err(RuntimeError::UnknownBooleanOperator(*operator)),
            },
            (Value::String(_), Value::String(_)) => Err(RuntimeError::StringOperation),
            _ => Err(RuntimeError::TypeMismatch),
        }
    }

    /// The value that a name is bound to, if any.
    pub fn get_variable(&self, name: &str) -> (found: Option<&Value>)
        ensures
            found is Some == self@.contains_key(name@),
            found is Some ==> found->0@ == self@[name@],
    {
        let key = name.to_owned();
        self.lookup(&key)
    }

    fn lookup(&self, name: &String) -> (found: Option<&Value>)
        ensures
            found is Some == self@.contains_key(name@),
            found is Some ==> found->0@ == self@[name@],
    {
        let mut i: usize = self.variables.len();
        while i > 0
            invariant
                i <= self.variables.len(),
                forall|j: int| i <= j < self.variables.len() ==> (#[trigger] self.variables@[j]).0@ != name@,
            decreases i,
        {
            if self.variables[i - 1].0 == *name {
                proof {
                    lemma_later_names_differ(self.variables@, name@, i as int);
                    assert(self.variables@.take(i as int).last() == self.variables@[i - 1]);
                }
                return Some(&self.variables[i - 1].1);
            }
            i -= 1;
        }
        proof {
            lemma_later_names_differ(self.variables@, name@, 0);
        }
        None
    }

    fn assign(&mut self, name: String, value: Value)
        requires
            old(self).wf(),
        ensures
            final(self).wf(),
            final(self)@ == old(self)@.insert(name@, value@),
    {
        let mut i: usize = 0;
        while i < self.variables.len()
            invariant
                self.variables == old(self).variables,
                distinct_names(self.variables@),
                i <= self.variables.len(),
                forall|j: int| 0 <= j < i ==> (#[trigger] self.variables@[j]).0@ != name@,
            decreases self.variables.len() - i,
        {
            if self.variables[i].0 == name {
                proof {
                    lemma_overwrite(self.variables@, i as int, (name, value));
                }
                self.variables.set(i, (name, value));
                return;
            }
            i += 1;
        }
        self.variables.push((name, value));
        proof {
            assert(self.variables@.drop_last() =~= old(self).variables@);
        }
    }

    /// The bound names with their values, each name once, in the order in
    /// which the names were first assigned.
    pub fn variables(&self) -> (list: Vec<(String, Value)>)
        requires
            self.wf(),
        ensures
            distinct_names(list@),
            bindings(list@) == self@,
    {
        let mut list: Vec<(String, Value)> = Vec::new();
        let mut i: usize = 0;
        while i < self.variables.len()
            invariant
                i <= self.variables.len(),
                list@ == self.variables@.take(i as int),
            decreases self.variables.len() - i,
        {
            list.push((self.variables[i].0.clone(), clone_value(&self.variables[i].1)));
            proof {
                assert(list@ =~= self.variables@.take(i + 1));
            }
            i += 1;
        }
        proof {
            assert(self.variables@.take(i as int) =~= self.variables@);
        }
        list
    }
}

/// Executes a program in a fresh evaluator and hands back the evaluator with
/// the error that ended the run, if one did.
pub fn run<F: Fn(NumericTask) -> u64>(ast: Vec<ASTNode>, arith: &F) -> (done: (Interpreter, Result<(), RuntimeError>))
    requires
        dependable(arith),
    ensures
        done.0.wf(),
        done.0@ == run_block(arith, block_view(ast@), 0, Map::empty()).env,
        failure_view(done.1) == run_block(arith, block_view(ast@), 0, Map::empty()).failure,
{
    let mut interpreter = Interpreter::new();
    let result = interpreter.interpret(ast.as_slice(), arith);
    (interpreter, result)
}

/// A declaration whose expression yields a value binds its name to that
/// value, in the environment that the expression left, and yields the value
/// itself. One whose expression fails changes nothing more and fails alike.
pub proof fn declaration_binds_value<F: Fn(NumericTask) -> u64>(
    arith: &F,
    name: Seq<char>,
    value: Ast,
    env: Map<Seq<char>, Datum>,
)
    ensures
        ({
            let inner = run_node(arith, value, env);
            let outer = run_node(arith, Ast::VariableDeclaration { variable: name, value: Box::new(value) }, env);
            match inner.result {
                Ok(datum) => {
                    &&& outer.result == Ok::<Datum, Failure>(datum)
                    &&& outer.env.contains_key(name)
                    &&& outer.env[name] == datum
                    &&& outer.env == inner.env.insert(name, datum)
                },
                Err(_) => outer == inner,
            }
        }),
{
}

/// A reference to a name that is not bound fails and names it; a reference to
/// a bound name yields its value. Either way the environment stays as it is.
/// So a reference that follows a declaration of the same name yields the
/// value that was declared.
pub proof fn reference_yields_last_value<F: Fn(NumericTask) -> u64>(
    arith: &F,
    name: Seq<char>,
    value: Ast,
    env: Map<Seq<char>, Datum>,
)
    ensures
        run_node(arith, Ast::Variable(name), env).env == env,
        !env.contains_key(name) ==> run_node(arith, Ast::Variable(name), env).result == Err::<Datum, Failure>(
            Failure::UndefinedVariable(name),
        ),
        env.contains_key(name) ==> run_node(arith, Ast::Variable(name), env).result == Ok::<Datum, Failure>(
            env[name],
        ),
        ({
            let declared = run_node(arith, Ast::VariableDeclaration { variable: name, value: Box::new(value) }, env);
            declared.result is Ok ==> run_node(arith, Ast::Variable(name), declared.env).result == declared.result
        }),
{
}

/// An if-statement whose condition is a literal runs the statements of one
/// branch and of no other: of the then-branch on `true`, of the else-branch on
/// `false`, and none where that branch is missing. It yields `true` unless a
/// statement of the branch fails.
pub proof fn literal_condition_selects_branch<F: Fn(NumericTask) -> u64>(
    arith: &F,
    flag: bool,
    then_branch: Seq<Ast>,
    else_branch: Option<Seq<Ast>>,
    env: Map<Seq<char>, Datum>,
)
    ensures
        ({
            let out = run_node(
                arith,
                Ast::IfStatement { condition: Box::new(Ast::BooleanLiteral(flag)), then_branch, else_branch },
                env,
            );
            &&& flag ==> out == branch_outcome(run_block(arith, then_branch, 0, env))
            &&& !flag && else_branch is Some ==> out == branch_outcome(run_block(arith, else_branch->0, 0, env))
            &&& !flag && else_branch is None ==> out.env == env && out.result == Ok::<Datum, Failure>(
                Datum::Boolean(true),
            )
            &&& out.result is Ok ==> out.result == Ok::<Datum, Failure>(Datum::Boolean(true))
        }),
{
    reveal_with_fuel(run_node, 2);
}

/// An if-statement whose condition yields a value that is no boolean fails,
/// and runs neither branch.
pub proof fn condition_must_be_boolean<F: Fn(NumericTask) -> u64>(
    arith: &F,
    condition: Ast,
    then_branch: Seq<Ast>,
    else_branch: Option<Seq<Ast>>,
    env: Map<Seq<char>, Datum>,
)
    requires
        run_node(arith, condition, env).result is Ok,
        !(run_node(arith, condition, env).result->Ok_0 is Boolean),
    ensures
        ({
            let out = run_node(
                arith,
                Ast::IfStatement { condition: Box::new(condition), then_branch, else_branch },
                env,
            );
            &&& out.result == Err::<Datum, Failure>(Failure::ConditionNotBoolean)
            &&& out.env == run_node(arith, condition, env).env
        }),
{
}

/// A division of two numbers fails exactly where the divisor is one of the two
/// zeros, and then the arithmetic is not asked.
pub proof fn division_by_zero_fails<F: Fn(NumericTask) -> u64>(arith: &F, left: u64, right: u64)
    ensures
        is_zero(right) <==> binary_result(arith, Operator::Divide, Datum::Number(left), Datum::Number(right))
            == Err::<Datum, Failure>(Failure::DivisionByZero),
{
}

} // verus!
