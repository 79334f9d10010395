//! The engine: the memory register, the variables and the evaluation that is
//! under way, in one value that the host owns.
//!
//! An evaluation is a conversation. `evaluate_expression` turns the text
//! into a program and runs it up to the first piece of arithmetic; `resume`
//! takes the host's answer and runs on. Either ends with `Finished`, or asks
//! again.

use vstd::prelude::*;
use crate::error::{CalculatorError, SyntaxFault};
use crate::functions::{Request, domain_fault, math_fault, step_at};
use crate::literal::spec_is_float_literal;
use crate::machine::{Machine, Pending, Progress, apply, asks_from, follow,
    lemma_memory_operations, lemma_resume_asks, lemma_run_asks, memory_program, resume, run};
use crate::number::{Number, ZERO_BITS};
use crate::parser::{spec_to_postfix, to_postfix};
use crate::shorthand::{applied, compile, lemma_compile_literals, spec_compile, spec_shorthand,
    whole};
use crate::tokenizer::{literals_hold, token_holds};
use crate::text::{Span, characters, lowercase, lowercase_of, spec_is_whitespace, spec_trim,
    string_of};
use crate::token::{Function, MemoryOp, Operand, Operator, Routine, Token};
use crate::variables::VariableStore;

verus! {

/// A calculator: its memory register, its variables, and the state of the
/// evaluation that it last began.
pub struct Engine {
    memory: Number,
    variables: VariableStore,
    source: Vec<char>,
    program: Vec<Token>,
    position: usize,
    operands: Vec<Number>,
    pending: Pending,
}

/// Where the evaluation of a text begins: with the error of its
/// compilation, or with its program run up to the first stop.
pub open spec fn begin(text: Seq<char>, variables: Map<Seq<char>, Number>, memory: Number) -> (
    Machine,
    Progress,
) {
    launch(spec_compile(text, variables), memory)
}

/// Where an evaluation begins once its program is known, or known not to
/// exist: with the error, or with the program run up to the first stop.
pub open spec fn launch(program: Result<Seq<Token>, CalculatorError>, memory: Number) -> (
    Machine,
    Progress,
) {
    match program {
        Ok(program) => run(Machine::start(program, memory)),
        Err(error) => (
            Machine::start(Seq::<Token>::empty(), memory),
            Progress::Finished(Err(error)),
        ),
    }
}

/// Whether what the engine asks, if it is the reading of a literal, asks for
/// a literal of the grammar that lies within the text.
pub open spec fn asks_well(text: Seq<char>, progress: Progress) -> bool {
    progress matches Progress::Asks(Request::Literal(span)) ==> span.within(text.len())
        && spec_is_float_literal(text, span)
}

/// From its first request on, an evaluation asks the host to read nothing
/// but literals of the grammar: the host's parser cannot fail on them.
pub proof fn lemma_begin_asks_well(
    text: Seq<char>,
    variables: Map<Seq<char>, Number>,
    memory: Number,
)
    requires
        text.len() <= usize::MAX,
    ensures
        literals_hold(text, begin(text, variables, memory).0.program),
        asks_well(text, begin(text, variables, memory).1),
{
    lemma_compile_literals(text, variables);
    match spec_compile(text, variables) {
        Ok(program) => {
            let start = Machine::start(program, memory);
            lemma_run_asks(start);
            lemma_asked_from_held(text, program, run(start).1);
        },
        Err(_) => {},
    }
}

/// And so it stays with every answer.
pub proof fn lemma_resume_asks_well(text: Seq<char>, machine: Machine, answer: Number)
    requires
        literals_hold(text, machine.program),
    ensures
        literals_hold(text, resume(machine, answer).0.program),
        asks_well(text, resume(machine, answer).1),
{
    lemma_resume_asks(machine, answer);
    lemma_asked_from_held(text, machine.program, resume(machine, answer).1);
}

/// `mr` ends at once with what the register holds and leaves it there;
/// `mc` ends at once with zero and leaves zero in the register. Neither asks
/// the host for anything.
pub proof fn lemma_recall_and_clear(variables: Map<Seq<char>, Number>, memory: Number)
    ensures
        begin("mr"@, variables, memory).1 == Progress::Finished(
            Ok::<Number, CalculatorError>(memory),
        ),
        begin("mr"@, variables, memory).0.memory == memory,
        begin("mc"@, variables, memory).1 == Progress::Finished(
            Ok::<Number, CalculatorError>((Number { bits: ZERO_BITS })),
        ),
        begin("mc"@, variables, memory).0.memory == (Number { bits: ZERO_BITS }),
{
    reveal_strlit("mr");
    reveal_strlit("mc");
    let zero = Number { bits: ZERO_BITS };
    lemma_memory_operations(zero, memory, zero);
    lemma_untrimmed("mr"@);
    lemma_untrimmed("mc"@);
    assert(spec_shorthand("mr"@) == Some(memory_program(zero, MemoryOp::Recall)));
    assert(spec_shorthand("mc"@) == Some(memory_program(zero, MemoryOp::Clear)));
}

/// A text without white space at either end is trimmed to itself.
proof fn lemma_untrimmed(text: Seq<char>)
    requires
        0 < text.len() <= usize::MAX,
        !spec_is_whitespace(text[0]),
        !spec_is_whitespace(text.last()),
    ensures
        spec_trim(text, whole(text)).of(text) == text,
{
    assert(text.subrange(0, text.len() as int) =~= text);
}

proof fn lemma_asked_from_held(text: Seq<char>, program: Seq<Token>, progress: Progress)
    requires
        literals_hold(text, program),
        asks_from(program, progress),
    ensures
        asks_well(text, progress),
{
    if let Progress::Asks(Request::Literal(span)) = progress {
        let i = choose|i: int|
            0 <= i < program.len() && #[trigger] program[i] == Token::Number(
                Operand::Literal(span),
            );
        assert(token_holds(text, program[i]));
    }
}

impl Engine {
    /// The evaluation under way, with the memory register.
    pub closed spec fn machine(&self) -> Machine {
        Machine {
            program: self.program@,
            position: self.position as int,
            operands: self.operands@,
            pending: self.pending,
            memory: self.memory,
        }
    }

    /// The variables, as a map from names in lower case to values.
    pub closed spec fn variables(&self) -> Map<Seq<char>, Number> {
        self.variables@
    }

    /// The names of the variables, in the order in which they were first
    /// set.
    pub closed spec fn names(&self) -> Seq<Seq<char>> {
        self.variables.names()
    }

    /// The text of the expression that was last given.
    pub closed spec fn source(&self) -> Seq<char> {
        self.source@
    }

    /// An engine with the register at zero, no variables and nothing to
    /// evaluate.
    pub fn new() -> (engine: Engine)
        ensures
            engine.machine() == Machine::start(Seq::<Token>::empty(), Number { bits: ZERO_BITS }),
            engine.variables() == Map::<Seq<char>, Number>::empty(),
            engine.names() == Seq::<Seq<char>>::empty(),
            engine.source() == Seq::<char>::empty(),
    {
        let engine = Engine {
            memory: Number::zero(),
            variables: VariableStore::new(),
            source: Vec::new(),
            program: Vec::new(),
            position: 0,
            operands: Vec::new(),
            pending: Pending::Nothing,
        };
        assert(engine.machine().program =~= Seq::<Token>::empty());
        assert(engine.machine().operands =~= Seq::<Number>::empty());
        engine
    }

    /// What the memory register holds.
    pub fn memory(&self) -> (memory: Number)
        ensures
            memory == self.machine().memory,
    {
        self.memory
    }

    /// The text of a literal that the engine has asked the host to read. A
    /// span that does not lie within the expression has no text.
    pub fn literal(&self, span: Span) -> (text: String)
        ensures
            text@ == if span.within(self.source().len()) {
                span.of(self.source())
            } else {
                Seq::<char>::empty()
            },
    {
        if span.start <= span.end && span.end <= self.source.len() {
            string_of(&self.source, span)
        } else {
            String::new()
        }
    }

    /// Goes on with a routine at the step `index`. Returns the request for
    /// that step, or nothing where the value has become an operand and the
    /// machine is to run on.
    fn follow(&mut self, routine: Routine, index: usize, value: Number) -> (asked: Option<
        Progress,
    >)
        ensures
            match asked {
                Some(progress) => (final(self).machine(), progress) == follow(
                    old(self).machine(),
                    routine,
                    index,
                    value,
                ),
                None => run(final(self).machine()) == follow(
                    old(self).machine(),
                    routine,
                    index,
                    value,
                ) && final(self).machine().program == old(self).machine().program
                    && final(self).machine().position == old(self).machine().position,
            },
            final(self).variables() == old(self).variables(),
            final(self).names() == old(self).names(),
            final(self).source() == old(self).source(),
    {
        match step_at(routine, index) {
            Some(step) => {
                self.pending = Pending::Recipe(routine, index);
                Some(Progress::Asks(step.request(value)))
            },
            None => {
                self.operands.push(value);
                self.pending = Pending::Nothing;
                None
            },
        }
    }

    /// Takes the operand on top of the stack and moves past the token at
    /// which the machine stands.
    fn take(&mut self) -> (value: Number)
        requires
            old(self).machine().position < old(self).machine().program.len(),
            old(self).machine().operands.len() > 0,
        ensures
            value == old(self).machine().operands.last(),
            final(self).machine() == old(self).machine().consume(1),
            final(self).variables() == old(self).variables(),
            final(self).names() == old(self).names(),
            final(self).source() == old(self).source(),
    {
        let length = self.program.len();
        let value = self.operands[self.operands.len() - 1];
        self.operands.pop();
        assert(self.position < length);
        self.position += 1;
        assert(self.operands@ =~= old(self).operands@.subrange(0, old(self).operands@.len() - 1));
        value
    }

    /// Applies the routine at which the machine stands. Returns where the
    /// evaluation stops, or nothing where the routine's value has become an
    /// operand and the machine is to run on.
    fn apply(&mut self, routine: Routine) -> (stopped: Option<Progress>)
        requires
            old(self).machine().position < old(self).machine().program.len(),
            old(self).machine().operands.len() > 0,
        ensures
            match stopped {
                Some(progress) => (final(self).machine(), progress) == apply(
                    old(self).machine(),
                    routine,
                ),
                None => run(final(self).machine()) == apply(old(self).machine(), routine)
                    && final(self).machine().program == old(self).machine().program
                    && final(self).machine().position == old(self).machine().position + 1,
            },
            final(self).variables() == old(self).variables(),
            final(self).names() == old(self).names(),
            final(self).source() == old(self).source(),
    {
        let value = self.operands[self.operands.len() - 1];
        match routine {
            Routine::Math(Function::Factorial) => {
                if let Some(fault) = domain_fault(Function::Factorial, value) {
                    return Some(Progress::Finished(Err(CalculatorError::ArgumentError(fault))));
                }
                let last = value.truncated();
                self.take();
                if last < 2 {
                    self.operands.push(Number::one());
                    self.pending = Pending::Nothing;
                    None
                } else {
                    self.pending = Pending::Factor { product: Number::one(), factor: 2, last };
                    Some(Progress::Asks(Request::Integer(2)))
                }
            },
            Routine::Math(function) => {
                if let Some(fault) = domain_fault(function, value) {
                    return Some(Progress::Finished(Err(CalculatorError::ArgumentError(fault))));
                }
                self.take();
                self.follow(routine, 0, value)
            },
            Routine::Convert(_) => {
                self.take();
                self.follow(routine, 0, value)
            },
            Routine::Memory(MemoryOp::Add) => {
                self.take();
                self.pending = Pending::Memory;
                Some(Progress::Asks(Request::Binary(Operator::Add, self.memory, value)))
            },
            Routine::Memory(MemoryOp::Subtract) => {
                self.take();
                self.pending = Pending::Memory;
                Some(Progress::Asks(Request::Binary(Operator::Subtract, self.memory, value)))
            },
            Routine::Memory(MemoryOp::Recall) => {
                self.take();
                self.operands.push(self.memory);
                self.pending = Pending::Nothing;
                None
            },
            Routine::Memory(MemoryOp::Clear) => {
                self.take();
                self.memory = Number::zero();
                self.operands.push(Number::zero());
                self.pending = Pending::Nothing;
                None
            },
        }
    }

    /// Runs the machine up to its next stop.
    fn advance(&mut self) -> (progress: Progress)
        ensures
            (final(self).machine(), progress) == run(old(self).machine()),
            final(self).variables() == old(self).variables(),
            final(self).names() == old(self).names(),
            final(self).source() == old(self).source(),
    {
        loop
            invariant
                run(self.machine()) == run(old(self).machine()),
                self.variables() == old(self).variables(),
                self.names() == old(self).names(),
                self.source() == old(self).source(),
            decreases self.program@.len() - self.position,
        {
            if self.position >= self.program.len() {
                return Progress::Finished(
                    if self.operands.len() == 1 {
                        Ok(self.operands[0])
                    } else {
                        Err(CalculatorError::SyntaxError(SyntaxFault::InvalidOperandCount))
                    },
                );
            }
            let ghost before = self.machine();
            match self.program[self.position] {
                Token::Number(Operand::Value(value)) => {
                    self.operands.push(value);
                    self.pending = Pending::Nothing;
                    self.position += 1;
                    assert(self.machine().operands =~= before.consume(0).push(value).operands);
                },
                Token::Number(Operand::Literal(span)) => {
                    self.position += 1;
                    self.pending = Pending::Operand;
                    assert(self.machine().operands =~= before.consume(0).operands);
                    return Progress::Asks(Request::Literal(span));
                },
                Token::Operator(operator) => {
                    let count = self.operands.len();
                    if count < 2 {
                        return Progress::Finished(
                            Err(CalculatorError::SyntaxError(SyntaxFault::InsufficientOperands)),
                        );
                    }
                    let right = self.operands[count - 1];
                    let left = self.operands[count - 2];
                    if let Some(fault) = math_fault(operator, right) {
                        return Progress::Finished(Err(CalculatorError::MathError(fault)));
                    }
                    self.operands.pop();
                    self.operands.pop();
                    self.position += 1;
                    self.pending = Pending::Operand;
                    assert(self.machine().operands =~= before.consume(2).operands);
                    return Progress::Asks(Request::Binary(operator, left, right));
                },
                Token::Function(routine) => {
                    if self.operands.len() < 1 {
                        return Progress::Finished(
                            Err(CalculatorError::SyntaxError(SyntaxFault::MissingArgument)),
                        );
                    }
                    if let Some(progress) = self.apply(routine) {
                        return progress;
                    }
                },
                Token::LeftParen => {
                    return Progress::Finished(
                        Err(CalculatorError::SyntaxError(SyntaxFault::UnexpectedToken)),
                    );
                },
                Token::RightParen => {
                    return Progress::Finished(
                        Err(CalculatorError::SyntaxError(SyntaxFault::UnexpectedToken)),
                    );
                },
            }
        }
    }

    /// Puts a value on the operand stack.
    fn push(&mut self, value: Number)
        ensures
            final(self).machine() == old(self).machine().push(value),
            final(self).variables() == old(self).variables(),
            final(self).names() == old(self).names(),
            final(self).source() == old(self).source(),
    {
        self.operands.push(value);
        self.pending = Pending::Nothing;
    }

    /// Hands the host's answer to the evaluation and runs it up to its next
    /// stop. Once an evaluation has finished, it finishes again in the same
    /// way whatever it is handed.
    pub fn resume(&mut self, answer: Number) -> (progress: Progress)
        ensures
            (final(self).machine(), progress) == resume(old(self).machine(), answer),
            final(self).variables() == old(self).variables(),
            final(self).names() == old(self).names(),
            final(self).source() == old(self).source(),
    {
        match self.pending {
            Pending::Nothing => self.advance(),
            Pending::Operand => {
                self.push(answer);
                self.advance()
            },
            Pending::Recipe(routine, done) => {
                if done < usize::MAX {
                    if let Some(progress) = self.follow(routine, done + 1, answer) {
                        return progress;
                    }
                } else {
                    self.push(answer);
                }
                self.advance()
            },
            Pending::Memory => {
                self.memory = answer;
                self.push(answer);
                self.advance()
            },
            Pending::Factor { product, factor, last } => {
                self.pending = Pending::Product { factor, last };
                Progress::Asks(Request::Binary(Operator::Multiply, product, answer))
            },
            Pending::Product { factor, last } => {
                if factor < last {
                    self.pending = Pending::Factor { product: answer, factor: factor + 1, last };
                    Progress::Asks(Request::Integer(factor + 1))
                } else {
                    self.push(answer);
                    self.advance()
                }
            },
        }
    }

    /// Gives up the evaluation under way and finishes with an error.
    fn refuse(&mut self, error: CalculatorError) -> (progress: Progress)
        ensures
            (final(self).machine(), progress) == launch(
                Err(error),
                old(self).machine().memory,
            ),
            final(self).variables() == old(self).variables(),
            final(self).names() == old(self).names(),
            final(self).source() == old(self).source(),
    {
        self.program = Vec::new();
        self.position = 0;
        self.operands = Vec::new();
        self.pending = Pending::Nothing;
        assert(self.machine().program =~= Seq::<Token>::empty());
        assert(self.machine().operands =~= Seq::<Number>::empty());
        Progress::Finished(Err(error))
    }

    /// Begins the evaluation of a program that is already in postfix order.
    pub fn evaluate_rpn(&mut self, program: Vec<Token>) -> (progress: Progress)
        ensures
            (final(self).machine(), progress) == run(
                Machine::start(program@, old(self).machine().memory),
            ),
            final(self).variables() == old(self).variables(),
            final(self).names() == old(self).names(),
            final(self).source() == old(self).source(),
    {
        self.program = program;
        self.position = 0;
        self.operands = Vec::new();
        self.pending = Pending::Nothing;
        assert(self.machine().operands =~= Seq::<Number>::empty());
        self.advance()
    }
}

/// Begins the evaluation of an expression. The text becomes a program, and
/// the program is run up to its first stop: the engine has finished, with
/// the value or the error, or it asks for a piece of arithmetic, and
/// [`Engine::resume`] goes on with the answer. An evaluation that was under
/// way is given up.
pub fn evaluate_expression(engine: &mut Engine, expression: &str) -> (progress: Progress)
    ensures
        (final(engine).machine(), progress) == begin(
            expression@,
            old(engine).variables(),
            old(engine).machine().memory,
        ),
        final(engine).source() == expression@,
        final(engine).variables() == old(engine).variables(),
        final(engine).names() == old(engine).names(),
{
    engine.source = characters(expression);
    match compile(&engine.source, &engine.variables) {
        Ok(program) => engine.evaluate_rpn(program),
        Err(error) => engine.refuse(error),
    }
}

/// Begins the evaluation of tokens in the order in which they were written:
/// they are brought into postfix order and run up to the first stop.
/// Parentheses that do not pair up end it at once. Literals among the tokens
/// are read from the expression that the engine was last given.
pub fn evaluate_complex_expression(engine: &mut Engine, tokens: &Vec<Token>) -> (progress:
    Progress)
    ensures
        (final(engine).machine(), progress) == launch(
            spec_to_postfix(tokens@),
            old(engine).machine().memory,
        ),
        final(engine).source() == old(engine).source(),
        final(engine).variables() == old(engine).variables(),
        final(engine).names() == old(engine).names(),
{
    match to_postfix(tokens) {
        Ok(program) => engine.evaluate_rpn(program),
        Err(error) => engine.refuse(error),
    }
}

/// Begins the evaluation of one routine at one value: a mathematical
/// function, a memory operation or a unit conversion.
pub fn evaluate_function(engine: &mut Engine, routine: Routine, value: Number) -> (progress:
    Progress)
    ensures
        (final(engine).machine(), progress) == run(
            Machine::start(
                applied(Operand::Value(value), routine),
                old(engine).machine().memory,
            ),
        ),
        final(engine).source() == old(engine).source(),
        final(engine).variables() == old(engine).variables(),
        final(engine).names() == old(engine).names(),
{
    let mut program: Vec<Token> = Vec::new();
    program.push(Token::Number(Operand::Value(value)));
    program.push(Token::Function(routine));
    assert(program@ =~= applied(Operand::Value(value), routine));
    engine.evaluate_rpn(program)
}

/// Sets a variable of the engine. The name counts in lower case: a variable
/// set as `X` is the variable `x`.
pub fn set_variable(engine: &mut Engine, name: &str, value: Number)
    ensures
        final(engine).variables() == old(engine).variables().insert(lowercase_of(name@), value),
        final(engine).names() == if old(engine).variables().contains_key(lowercase_of(name@)) {
            old(engine).names()
        } else {
            old(engine).names().push(lowercase_of(name@))
        },
        final(engine).machine() == old(engine).machine(),
        final(engine).source() == old(engine).source(),
{
    let chars = characters(name);
    let all = Span { start: 0, end: chars.len() };
    assert(all.of(chars@) == name@);
    let key = lowercase(&chars, all);
    engine.variables.insert(key, value);
}

/// The value of a variable of the engine, if it has been set.
pub fn get_variable(engine: &Engine, name: &str) -> (value: Option<Number>)
    ensures
        value == if engine.variables().contains_key(lowercase_of(name@)) {
            Some(engine.variables()[lowercase_of(name@)])
        } else {
            None::<Number>
        },
{
    let chars = characters(name);
    let all = Span { start: 0, end: chars.len() };
    assert(all.of(chars@) == name@);
    let key = lowercase(&chars, all);
    engine.variables.get(&key)
}

/// All variables of the engine, each name in lower case with its value.
/// Every variable is listed, and none twice.
pub fn get_all_variables(engine: &Engine) -> (listed: Vec<(String, Number)>)
    ensures
        listed@.len() == engine.names().len(),
        forall|i: int|
            0 <= i < listed@.len() ==> {
                &&& (#[trigger] listed@[i]).0@ == engine.names()[i]
                &&& engine.variables().contains_key(engine.names()[i])
                &&& listed@[i].1 == engine.variables()[engine.names()[i]]
            },
        forall|key: Seq<char>|
            engine.variables().contains_key(key) ==> engine.names().contains(key),
        forall|i: int, j: int|
            0 <= i < j < engine.names().len() ==> engine.names()[i] != engine.names()[j],
{
    let listed = engine.variables.list();
    proof {
        assert forall|i: int| 0 <= i < listed@.len() implies {
            &&& (#[trigger] listed@[i]).0@ == engine.names()[i]
            &&& engine.variables().contains_key(engine.names()[i])
            &&& listed@[i].1 == engine.variables()[engine.names()[i]]
        } by {
            let name = engine.variables.names()[i];
            assert(listed@[i].0@ == name);
            assert(engine.variables@.contains_key(name));
            assert(listed@[i].1 == engine.variables@[name]);
        }
    }
    listed
}

} // verus!
