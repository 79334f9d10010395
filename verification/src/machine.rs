//! The evaluator as a machine: tokens in postfix order are worked off
//! against a stack of operands.
//!
//! The machine does no arithmetic. Where a value has to be computed, it
//! stops with a request; the host computes, and hands the answer back. This
//! module says, as mathematics, what the machine does between two stops.

use vstd::prelude::*;
use crate::error::{CalculatorError, SyntaxFault};
use crate::functions::{Request, spec_domain_fault, spec_math_fault, spec_step_at};
use crate::number::{Number, ONE_BITS, ZERO_BITS};
use crate::token::{Function, MemoryOp, Operand, Operator, Routine, Token};

verus! {

/// What the machine waits for while the host works.
#[derive(Clone, Copy, Debug, PartialEq, Eq, Structural)]
pub enum Pending {
    /// Nothing has been asked.
    Nothing,
    /// A value that becomes an operand as it comes: that of a literal, or
    /// the result of an operator.
    Operand,
    /// The result of one step of a routine; the field counts the steps that
    /// were done before it.
    Recipe(Routine, usize),
    /// What the memory register holds from now on.
    Memory,
    /// The double of the next factor of a factorial.
    Factor { product: Number, factor: u64, last: u64 },
    /// The product of a factorial up to a factor.
    Product { factor: u64, last: u64 },
}

/// Where an evaluation stands: finished, with its value or its error, or
/// waiting for the host.
#[derive(Clone, Copy, Debug, PartialEq, Eq)]
pub enum Progress {
    Finished(Result<Number, CalculatorError>),
    Asks(Request),
}

/// The state of the machine.
pub struct Machine {
    /// The tokens in postfix order.
    pub program: Seq<Token>,
    /// How many of them have been worked off.
    pub position: int,
    /// The operand stack; its top is the last element.
    pub operands: Seq<Number>,
    /// What the machine waits for.
    pub pending: Pending,
    /// The memory register.
    pub memory: Number,
}

impl Machine {
    /// The machine before the first token of a program.
    pub open spec fn start(program: Seq<Token>, memory: Number) -> Machine {
        Machine {
            program,
            position: 0,
            operands: Seq::<Number>::empty(),
            pending: Pending::Nothing,
            memory,
        }
    }

    /// The machine with one more operand on the stack, waiting for nothing.
    pub open spec fn push(self, value: Number) -> Machine {
        Machine { operands: self.operands.push(value), pending: Pending::Nothing, ..self }
    }

    /// The machine past the token at which it stands, with `count` operands
    /// taken from the stack.
    pub open spec fn consume(self, count: int) -> Machine {
        Machine {
            operands: self.operands.subrange(0, self.operands.len() - count),
            position: self.position + 1,
            ..self
        }
    }

    /// The machine as it waits for an answer.
    pub open spec fn wait(self, pending: Pending) -> Machine {
        Machine { pending, ..self }
    }

    /// The machine with a new content of the memory register.
    pub open spec fn store(self, memory: Number) -> Machine {
        Machine { memory, ..self }
    }
}

/// What ends an evaluation: the one operand that is left, or the error that
/// none or more than one is left.
pub open spec fn verdict(operands: Seq<Number>) -> Result<Number, CalculatorError> {
    if operands.len() == 1 {
        Ok(operands[0])
    } else {
        Err(CalculatorError::SyntaxError(SyntaxFault::InvalidOperandCount))
    }
}

/// The machine stops with an error; its state stays as it is.
pub open spec fn fail(machine: Machine, error: CalculatorError) -> (Machine, Progress) {
    (machine, Progress::Finished(Err(error)))
}

/// Goes on with a routine at the step `index`, on the value that the steps
/// before it have made: the step is asked of the host, or, where the routine
/// has no such step, the value is the routine's result and becomes an
/// operand.
pub open spec fn follow(machine: Machine, routine: Routine, index: usize, value: Number) -> (
    Machine,
    Progress,
)
    decreases machine.program.len() - machine.position, 2int,
{
    match spec_step_at(routine, index) {
        Some(step) => (
            machine.wait(Pending::Recipe(routine, index)),
            Progress::Asks(step.spec_request(value)),
        ),
        None => run(machine.push(value)),
    }
}

/// Applies the routine at which the machine stands to the operand on top of
/// the stack.
///
/// A mathematical function outside its domain fails. The factorial of a
/// number under two is one; any other is the product of the factors from
/// two up to the number, asked for one factor at a time. The memory
/// operations add to the register or subtract from it, read it, or set it to
/// zero. Everything else begins with the first step of its recipe.
pub open spec fn apply(machine: Machine, routine: Routine) -> (Machine, Progress)
    decreases machine.program.len() - machine.position, 0int,
    when 0 <= machine.position < machine.program.len() && machine.operands.len() > 0
{
    let value = machine.operands.last();
    let next = machine.consume(1);
    match routine {
        Routine::Math(Function::Factorial) => match spec_domain_fault(Function::Factorial, value) {
            Some(fault) => fail(machine, CalculatorError::ArgumentError(fault)),
            None => if value.spec_truncated() < 2 {
                run(next.push(Number { bits: ONE_BITS }))
            } else {
                (
                    next.wait(
                        Pending::Factor {
                            product: Number { bits: ONE_BITS },
                            factor: 2,
                            last: value.spec_truncated(),
                        },
                    ),
                    Progress::Asks(Request::Integer(2)),
                )
            },
        },
        Routine::Math(function) => match spec_domain_fault(function, value) {
            Some(fault) => fail(machine, CalculatorError::ArgumentError(fault)),
            None => follow(next, routine, 0, value),
        },
        Routine::Convert(_) => follow(next, routine, 0, value),
        Routine::Memory(MemoryOp::Add) => (
            next.wait(Pending::Memory),
            Progress::Asks(Request::Binary(Operator::Add, machine.memory, value)),
        ),
        Routine::Memory(MemoryOp::Subtract) => (
            next.wait(Pending::Memory),
            Progress::Asks(Request::Binary(Operator::Subtract, machine.memory, value)),
        ),
        Routine::Memory(MemoryOp::Recall) => run(next.push(machine.memory)),
        Routine::Memory(MemoryOp::Clear) => run(
            next.store(Number { bits: ZERO_BITS }).push(Number { bits: ZERO_BITS }),
        ),
    }
}

/// Works off tokens until a value has to be asked of the host, an error
/// shows, or the program ends.
///
/// A number goes onto the stack: at once where its value is known, through
/// the host where it is a literal. An operator takes two operands, the right
/// one from the top, and fails with `InsufficientOperands` where there are
/// fewer. A function takes one, and fails with `MissingArgument` where there
/// is none. A parenthesis has no place here. At the end exactly one operand
/// has to be left.
pub open spec fn run(machine: Machine) -> (Machine, Progress)
    decreases machine.program.len() - machine.position, 1int,
{
    if machine.position < 0 || machine.position >= machine.program.len() {
        (machine, Progress::Finished(verdict(machine.operands)))
    } else {
        match machine.program[machine.position] {
            Token::Number(Operand::Value(value)) => run(machine.consume(0).push(value)),
            Token::Number(Operand::Literal(span)) => (
                machine.consume(0).wait(Pending::Operand),
                Progress::Asks(Request::Literal(span)),
            ),
            Token::Operator(operator) => if machine.operands.len() < 2 {
                fail(machine, CalculatorError::SyntaxError(SyntaxFault::InsufficientOperands))
            } else {
                let right = machine.operands[machine.operands.len() - 1];
                let left = machine.operands[machine.operands.len() - 2];
                match spec_math_fault(operator, right) {
                    Some(fault) => fail(machine, CalculatorError::MathError(fault)),
                    None => (
                        machine.consume(2).wait(Pending::Operand),
                        Progress::Asks(Request::Binary(operator, left, right)),
                    ),
                }
            },
            Token::Function(routine) => if machine.operands.len() < 1 {
                fail(machine, CalculatorError::SyntaxError(SyntaxFault::MissingArgument))
            } else {
                apply(machine, routine)
            },
            Token::LeftParen => fail(
                machine,
                CalculatorError::SyntaxError(SyntaxFault::UnexpectedToken),
            ),
            Token::RightParen => fail(
                machine,
                CalculatorError::SyntaxError(SyntaxFault::UnexpectedToken),
            ),
        }
    }
}

/// Takes the host's answer and goes on.
///
/// The answer becomes an operand, or the input of the routine's next step,
/// or the new content of the memory register and an operand, or a factor or
/// a product of a factorial. A machine that waits for nothing ignores it.
pub open spec fn resume(machine: Machine, answer: Number) -> (Machine, Progress) {
    match machine.pending {
        Pending::Nothing => run(machine),
        Pending::Operand => run(machine.push(answer)),
        Pending::Recipe(routine, done) => if done < usize::MAX {
            follow(machine, routine, (done + 1) as usize, answer)
        } else {
            run(machine.push(answer))
        },
        Pending::Memory => run(machine.store(answer).push(answer)),
        Pending::Factor { product, factor, last } => (
            machine.wait(Pending::Product { factor, last }),
            Progress::Asks(Request::Binary(Operator::Multiply, product, answer)),
        ),
        Pending::Product { factor, last } => if factor < last {
            (
                machine.wait(
                    Pending::Factor { product: answer, factor: (factor + 1) as u64, last },
                ),
                Progress::Asks(Request::Integer((factor + 1) as u64)),
            )
        } else {
            run(machine.push(answer))
        },
    }
}

/// The program of one binary operation on two numbers that are known.
pub open spec fn binary_program(left: Number, operator: Operator, right: Number) -> Seq<Token> {
    seq![
        Token::Number(Operand::Value(left)),
        Token::Number(Operand::Value(right)),
        Token::Operator(operator),
    ]
}

/// One binary operation is one request and nothing else. Division and
/// remainder by a zero fail before anything is asked; every other operation
/// is asked of the host with the operands in the order in which they were
/// written, and what the host answers is the value of the expression.
pub proof fn lemma_binary_operation(
    left: Number,
    operator: Operator,
    right: Number,
    memory: Number,
    answer: Number,
)
    ensures
        run(Machine::start(binary_program(left, operator, right), memory)).1 == match
            spec_math_fault(operator, right) {
            Some(fault) => Progress::Finished(Err(CalculatorError::MathError(fault))),
            None => Progress::Asks(Request::Binary(operator, left, right)),
        },
        spec_math_fault(operator, right) is None ==> resume(
            run(Machine::start(binary_program(left, operator, right), memory)).0,
            answer,
        ).1 == Progress::Finished(Ok(answer)),
        spec_math_fault(operator, right) is Some <==> (operator == Operator::Divide || operator
            == Operator::Modulo) && right.spec_is_zero(),
{
    let program = binary_program(left, operator, right);
    let start = Machine::start(program, memory);
    let one = start.consume(0).push(left);
    let two = one.consume(0).push(right);
    assert(start.consume(0).operands =~= Seq::<Number>::empty());
    assert(one.operands =~= seq![left]);
    assert(one.consume(0).operands =~= seq![left]);
    assert(two.operands =~= seq![left, right]);
    assert(run(start) == run(one));
    assert(run(one) == run(two));
    assert(two.position == 2 && two.program[2] == Token::Operator(operator));
    if spec_math_fault(operator, right) is None {
        let waiting = two.consume(2).wait(Pending::Operand);
        assert(run(two) == (waiting, Progress::Asks(Request::Binary(operator, left, right))));
        assert(two.consume(2).operands =~= Seq::<Number>::empty());
        let done = waiting.push(answer);
        assert(done.operands =~= seq![answer]);
        assert(done.position == 3);
        assert(resume(waiting, answer) == run(done));
        assert(run(done).1 == Progress::Finished(verdict(done.operands)));
    }
}

/// The program of one memory operation on a number that is known.
pub open spec fn memory_program(value: Number, operation: MemoryOp) -> Seq<Token> {
    seq![Token::Number(Operand::Value(value)), Token::Function(Routine::Memory(operation))]
}

/// What the memory operations do. `m+` and `m-` ask for the sum or the
/// difference of the register and the operand, register on the left; the
/// answer is the new content of the register and the value of the
/// expression. `mr` ends with the content of the register and leaves it as
/// it is. `mc` sets the register to zero and ends with zero.
pub proof fn lemma_memory_operations(value: Number, memory: Number, answer: Number)
    ensures
        ({
            let added = run(Machine::start(memory_program(value, MemoryOp::Add), memory));
            &&& added.1 == Progress::Asks(Request::Binary(Operator::Add, memory, value))
            &&& added.0.memory == memory
            &&& resume(added.0, answer).1 == Progress::Finished(
                Ok::<Number, CalculatorError>(answer),
            )
            &&& resume(added.0, answer).0.memory == answer
        }),
        ({
            let subtracted = run(Machine::start(memory_program(value, MemoryOp::Subtract), memory));
            &&& subtracted.1 == Progress::Asks(Request::Binary(Operator::Subtract, memory, value))
            &&& subtracted.0.memory == memory
            &&& resume(subtracted.0, answer).1 == Progress::Finished(
                Ok::<Number, CalculatorError>(answer),
            )
            &&& resume(subtracted.0, answer).0.memory == answer
        }),
        ({
            let recalled = run(Machine::start(memory_program(value, MemoryOp::Recall), memory));
            &&& recalled.1 == Progress::Finished(Ok::<Number, CalculatorError>(memory))
            &&& recalled.0.memory == memory
        }),
        ({
            let cleared = run(Machine::start(memory_program(value, MemoryOp::Clear), memory));
            &&& cleared.1 == Progress::Finished(
                Ok::<Number, CalculatorError>(Number { bits: ZERO_BITS }),
            )
            &&& cleared.0.memory == Number { bits: ZERO_BITS }
        }),
{
    let empty = Seq::<Number>::empty();
    let zero = Number { bits: ZERO_BITS };
    // m+
    {
        let start = Machine::start(memory_program(value, MemoryOp::Add), memory);
        let one = start.consume(0).push(value);
        assert(start.consume(0).operands =~= empty);
        assert(one.operands =~= seq![value]);
        assert(run(start) == run(one));
        let asked = one.consume(1).wait(Pending::Memory);
        assert(one.consume(1).operands =~= empty);
        assert(apply(one, Routine::Memory(MemoryOp::Add)) == (
            asked,
            Progress::Asks(Request::Binary(Operator::Add, memory, value)),
        ));
        let done = asked.store(answer).push(answer);
        assert(done.operands =~= seq![answer]);
        assert(run(done) == (done, Progress::Finished(verdict(done.operands))));
    }
    // m-
    {
        let start = Machine::start(memory_program(value, MemoryOp::Subtract), memory);
        let one = start.consume(0).push(value);
        assert(start.consume(0).operands =~= empty);
        assert(one.operands =~= seq![value]);
        assert(run(start) == run(one));
        let asked = one.consume(1).wait(Pending::Memory);
        assert(one.consume(1).operands =~= empty);
        assert(apply(one, Routine::Memory(MemoryOp::Subtract)) == (
            asked,
            Progress::Asks(Request::Binary(Operator::Subtract, memory, value)),
        ));
        let done = asked.store(answer).push(answer);
        assert(done.operands =~= seq![answer]);
        assert(run(done) == (done, Progress::Finished(verdict(done.operands))));
    }
    // mr
    {
        let start = Machine::start(memory_program(value, MemoryOp::Recall), memory);
        let one = start.consume(0).push(value);
        assert(start.consume(0).operands =~= empty);
        assert(one.operands =~= seq![value]);
        assert(run(start) == run(one));
        assert(one.consume(1).operands =~= empty);
        let done = one.consume(1).push(memory);
        assert(done.operands =~= seq![memory]);
        assert(apply(one, Routine::Memory(MemoryOp::Recall)) == run(done));
        assert(run(done) == (done, Progress::Finished(verdict(done.operands))));
    }
    // mc
    {
        let start = Machine::start(memory_program(value, MemoryOp::Clear), memory);
        let one = start.consume(0).push(value);
        assert(start.consume(0).operands =~= empty);
        assert(one.operands =~= seq![value]);
        assert(run(start) == run(one));
        assert(one.consume(1).operands =~= empty);
        let done = one.consume(1).store(zero).push(zero);
        assert(done.operands =~= seq![zero]);
        assert(apply(one, Routine::Memory(MemoryOp::Clear)) == run(done));
        assert(run(done) == (done, Progress::Finished(verdict(done.operands))));
    }
}

/// Whether a request, if it is for a literal, is for a literal of the
/// program.
pub open spec fn asks_from(program: Seq<Token>, progress: Progress) -> bool {
    progress matches Progress::Asks(Request::Literal(span)) ==> exists|i: int|
        0 <= i < program.len() && #[trigger] program[i] == Token::Number(Operand::Literal(span))
}

proof fn lemma_follow_asks(machine: Machine, routine: Routine, index: usize, value: Number)
    ensures
        follow(machine, routine, index, value).0.program == machine.program,
        asks_from(machine.program, follow(machine, routine, index, value).1),
    decreases machine.program.len() - machine.position, 2int,
{
    match spec_step_at(routine, index) {
        Some(step) => {
            match step {
                crate::functions::Step::With(_, _) => {},
                crate::functions::Step::Through(_) => {},
            }
        },
        None => {
            lemma_run_asks(machine.push(value));
        },
    }
}

proof fn lemma_apply_asks(machine: Machine, routine: Routine)
    requires
        0 <= machine.position < machine.program.len(),
        machine.operands.len() > 0,
    ensures
        apply(machine, routine).0.program == machine.program,
        asks_from(machine.program, apply(machine, routine).1),
    decreases machine.program.len() - machine.position, 0int,
{
    let value = machine.operands.last();
    let next = machine.consume(1);
    match routine {
        Routine::Math(Function::Factorial) => {
            if spec_domain_fault(Function::Factorial, value) is None && value.spec_truncated()
                < 2 {
                lemma_run_asks(next.push(Number { bits: ONE_BITS }));
            }
        },
        Routine::Math(function) => {
            if spec_domain_fault(function, value) is None {
                lemma_follow_asks(next, routine, 0, value);
            }
        },
        Routine::Convert(_) => {
            lemma_follow_asks(next, routine, 0, value);
        },
        Routine::Memory(MemoryOp::Add) => {},
        Routine::Memory(MemoryOp::Subtract) => {},
        Routine::Memory(MemoryOp::Recall) => {
            lemma_run_asks(next.push(machine.memory));
        },
        Routine::Memory(MemoryOp::Clear) => {
            lemma_run_asks(
                next.store(Number { bits: ZERO_BITS }).push(Number { bits: ZERO_BITS }),
            );
        },
    }
}

/// The machine keeps its program, and the only literals that it asks the
/// host to read are literals of that program.
pub proof fn lemma_run_asks(machine: Machine)
    ensures
        run(machine).0.program == machine.program,
        asks_from(machine.program, run(machine).1),
    decreases machine.program.len() - machine.position, 1int,
{
    if 0 <= machine.position < machine.program.len() {
        match machine.program[machine.position] {
            Token::Number(Operand::Value(value)) => {
                lemma_run_asks(machine.consume(0).push(value));
            },
            Token::Number(Operand::Literal(span)) => {
                assert(machine.program[machine.position] == Token::Number(
                    Operand::Literal(span),
                ));
            },
            Token::Operator(_) => {},
            Token::Function(routine) => {
                if machine.operands.len() >= 1 {
                    lemma_apply_asks(machine, routine);
                }
            },
            Token::LeftParen => {},
            Token::RightParen => {},
        }
    }
}

/// The same holds when the machine goes on with an answer.
pub proof fn lemma_resume_asks(machine: Machine, answer: Number)
    ensures
        resume(machine, answer).0.program == machine.program,
        asks_from(machine.program, resume(machine, answer).1),
{
    match machine.pending {
        Pending::Nothing => lemma_run_asks(machine),
        Pending::Operand => lemma_run_asks(machine.push(answer)),
        Pending::Recipe(routine, done) => {
            if done < usize::MAX {
                lemma_follow_asks(machine, routine, (done + 1) as usize, answer);
            } else {
                lemma_run_asks(machine.push(answer));
            }
        },
        Pending::Memory => lemma_run_asks(machine.store(answer).push(answer)),
        Pending::Factor { product, factor, last } => {},
        Pending::Product { factor, last } => {
            if factor >= last {
                lemma_run_asks(machine.push(answer));
            }
        },
    }
}

} // verus!
