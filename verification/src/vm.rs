//! The execution engine: machine state and the fetch/decode/execute cycle.
//!
//! The behaviour of one cycle is defined once, by the specification
//! function [`machine_step`] over a mathematical [`Machine`] state; the
//! executable engine [`VM`] is proved to follow it exactly. Where raw
//! machine semantics would abort the process (a truncated
//! instruction, a register index outside 0..32, division by zero), the
//! engine instead reports an explicit [`Fault`] and leaves the program
//! counter just past the failing instruction's opcode byte.

use vstd::prelude::*;

use crate::instruction::OpCode;
use crate::instruction::opcode_of_byte;
use vstd::arithmetic::div_mod::lemma_div_is_ordered_by_denominator;
use vstd::arithmetic::div_mod::lemma_fundamental_div_mod;
use vstd::arithmetic::div_mod::lemma_div_nonincreasing;
use vstd::arithmetic::div_mod::lemma_div_pos_is_pos;
use vstd::arithmetic::div_mod::lemma_mod_division_less_than_divisor;
use vstd::wrapping::i32_specs;

verus! {

/// A fatal runtime condition. Execution cannot proceed past it; the driver
/// must reset the machine.
#[derive(Debug, PartialEq, Eq, Structural, Clone, Copy)]
pub enum Fault {
    /// The opcode expects more operand bytes than remain in the buffer.
    TruncatedInstruction,
    /// An operand byte used as a register index is outside 0..32.
    RegisterOutOfRange,
    /// DIV with a zero-valued divisor register.
    DivideByZero,
    /// DIV of the most negative value by -1: the quotient has no 32-bit
    /// representation.
    DivideOverflow,
    /// A jump to a negative target, a backward jump past the start of the
    /// buffer, or a forward jump past the largest representable index.
    JumpOutOfRange,
}

/// What one execution step reports to its caller.
///
/// `Continue` means execution may go on; every other variant stops a run
/// loop, and says why, so that a normal halt and an abnormal fault are
/// distinguishable without re-inspecting the last opcode.
#[derive(Debug, PartialEq, Eq, Structural, Clone, Copy)]
pub enum Signal {
    /// The instruction completed and execution may continue.
    Continue,
    /// A HALT instruction was executed.
    Halted,
    /// An ILLEGAL (or reserved, unimplemented) opcode was decoded.
    Illegal,
    /// The program counter is at or beyond the end of the program buffer;
    /// nothing was read and no state changed.
    OffEnd,
    /// A fatal runtime condition; the machine state is otherwise unchanged.
    Faulted(Fault),
}

/// The mathematical machine state: the image of a [`VM`] under its view.
pub struct Machine {
    /// The 32 general-purpose registers.
    pub regs: Seq<i32>,
    /// The program counter: an index into `prog`.
    pub pc: nat,
    /// The program buffer.
    pub prog: Seq<u8>,
    /// The remainder of the most recent division.
    pub remainder: u32,
    /// The result of the most recent comparison.
    pub eq_flag: bool,
}

/// The number of general-purpose registers.
pub open spec fn reg_count() -> int {
    32
}

/// The machine state at engine initialization: everything zeroed, the
/// program buffer empty.
pub open spec fn initial_machine() -> Machine {
    Machine {
        regs: Seq::new(reg_count() as nat, |i: int| 0i32),
        pc: 0,
        prog: Seq::empty(),
        remainder: 0,
        eq_flag: false,
    }
}

/// Truncating (round-toward-zero) integer division, as the machine's DIV
/// performs it. Meaningful only for `d != 0`.
pub open spec fn trunc_div(x: int, d: int) -> int
    recommends
        d != 0,
{
    if x == 0 {
        0
    } else if x > 0 && d > 0 {
        x / d
    } else if x < 0 && d < 0 {
        (x * -1) / (d * -1)
    } else if x < 0 {
        ((x * -1) / d) * -1
    } else {
        (x / (d * -1)) * -1
    }
}

/// The remainder matching [`trunc_div`]: it carries the sign of the
/// dividend, and `x == trunc_div(x, d) * d + trunc_rem(x, d)`.
pub open spec fn trunc_rem(x: int, d: int) -> int
    recommends
        d != 0,
{
    if x == 0 {
        0
    } else if x > 0 && d > 0 {
        x % d
    } else if x < 0 && d < 0 {
        ((x * -1) % (d * -1)) * -1
    } else if x < 0 {
        ((x * -1) % d) * -1
    } else {
        x % (d * -1)
    }
}

/// The remainder register holds the division remainder reinterpreted as an
/// unsigned 32-bit value (two's complement for a negative remainder).
pub open spec fn remainder_bits(r: int) -> u32
    recommends
        -0x8000_0000 < r < 0x8000_0000,
{
    if r >= 0 {
        r as u32
    } else {
        (r + 0x1_0000_0000) as u32
    }
}

/// The boolean relation each comparison opcode computes on two signed
/// register values.
pub open spec fn compare(op: OpCode, a: i32, b: i32) -> bool
    recommends
        is_comparison(op),
{
    match op {
        OpCode::EQ => a == b,
        OpCode::NEQ => a != b,
        OpCode::LT => a < b,
        OpCode::GT => a > b,
        OpCode::LTE => a <= b,
        OpCode::GTE => a >= b,
        _ => false,
    }
}

/// The comparison opcode family: each is 4 bytes wide (opcode, two
/// register indices, one reserved alignment byte) and writes only the
/// equivalence flag.
pub open spec fn is_comparison(op: OpCode) -> bool {
    op == OpCode::EQ || op == OpCode::NEQ || op == OpCode::LT || op == OpCode::GT || op
        == OpCode::LTE || op == OpCode::GTE
}

/// A byte is a valid register index when it addresses one of the 32
/// registers.
pub open spec fn reg_ok(b: u8) -> bool {
    (b as int) < reg_count()
}

/// LOAD, after the opcode byte: one register-index byte, then a 16-bit
/// big-endian immediate, assigned (zero-extended) into the register.
pub open spec fn step_load(m: Machine) -> (Machine, Signal) {
    if m.prog.len() - m.pc < 3 {
        (m, Signal::Faulted(Fault::TruncatedInstruction))
    } else {
        let r = m.prog[m.pc as int];
        let hi = m.prog[m.pc as int + 1];
        let lo = m.prog[m.pc as int + 2];
        if !reg_ok(r) {
            (m, Signal::Faulted(Fault::RegisterOutOfRange))
        } else {
            (
                Machine {
                    regs: m.regs.update(r as int, (hi * 256 + lo) as i32),
                    pc: m.pc + 3,
                    ..m
                },
                Signal::Continue,
            )
        }
    }
}

/// The wrapped (two's complement) result an arithmetic opcode stores.
pub open spec fn arith_value(op: OpCode, a: i32, b: i32) -> i32
    recommends
        op == OpCode::ADD || op == OpCode::SUB || op == OpCode::MUL,
{
    match op {
        OpCode::ADD => i32_specs::wrapping_add(a, b),
        OpCode::SUB => i32_specs::wrapping_sub(a, b),
        OpCode::MUL => i32_specs::wrapping_mul(a, b),
        _ => 0i32,
    }
}

/// ADD, SUB or MUL, after the opcode byte: two source register indices and
/// a destination register index; the result wraps as raw 32-bit machine
/// arithmetic does.
pub open spec fn step_arith(op: OpCode, m: Machine) -> (Machine, Signal) {
    if m.prog.len() - m.pc < 3 {
        (m, Signal::Faulted(Fault::TruncatedInstruction))
    } else {
        let ra = m.prog[m.pc as int];
        let rb = m.prog[m.pc as int + 1];
        let rd = m.prog[m.pc as int + 2];
        if !reg_ok(ra) || !reg_ok(rb) || !reg_ok(rd) {
            (m, Signal::Faulted(Fault::RegisterOutOfRange))
        } else {
            (
                Machine {
                    regs: m.regs.update(
                        rd as int,
                        arith_value(op, m.regs[ra as int], m.regs[rb as int]),
                    ),
                    pc: m.pc + 3,
                    ..m
                },
                Signal::Continue,
            )
        }
    }
}

/// DIV, after the opcode byte: two source register indices and a
/// destination; stores the truncating quotient and latches the remainder.
/// A zero divisor is a fault, never a silently produced value; so is the
/// one quotient with no 32-bit representation.
pub open spec fn step_div(m: Machine) -> (Machine, Signal) {
    if m.prog.len() - m.pc < 3 {
        (m, Signal::Faulted(Fault::TruncatedInstruction))
    } else {
        let ra = m.prog[m.pc as int];
        let rb = m.prog[m.pc as int + 1];
        let rd = m.prog[m.pc as int + 2];
        if !reg_ok(ra) || !reg_ok(rb) || !reg_ok(rd) {
            (m, Signal::Faulted(Fault::RegisterOutOfRange))
        } else {
            let a = m.regs[ra as int];
            let b = m.regs[rb as int];
            if b == 0 {
                (m, Signal::Faulted(Fault::DivideByZero))
            } else if a == i32::MIN && b == -1 {
                (m, Signal::Faulted(Fault::DivideOverflow))
            } else {
                (
                    Machine {
                        regs: m.regs.update(rd as int, trunc_div(a as int, b as int) as i32),
                        remainder: remainder_bits(trunc_rem(a as int, b as int)),
                        pc: m.pc + 3,
                        ..m
                    },
                    Signal::Continue,
                )
            }
        }
    }
}

/// A comparison, after the opcode byte: two register indices, then one
/// reserved byte consumed and discarded. Only the equivalence flag is
/// written, and it is overwritten outright.
pub open spec fn step_compare(op: OpCode, m: Machine) -> (Machine, Signal) {
    if m.prog.len() - m.pc < 3 {
        (m, Signal::Faulted(Fault::TruncatedInstruction))
    } else {
        let ra = m.prog[m.pc as int];
        let rb = m.prog[m.pc as int + 1];
        if !reg_ok(ra) || !reg_ok(rb) {
            (m, Signal::Faulted(Fault::RegisterOutOfRange))
        } else {
            (
                Machine {
                    eq_flag: compare(op, m.regs[ra as int], m.regs[rb as int]),
                    pc: m.pc + 3,
                    ..m
                },
                Signal::Continue,
            )
        }
    }
}

/// JUMP-ABSOLUTE, after the opcode byte: one register-index byte; the
/// program counter becomes the register's non-negative value, discarding
/// the normal post-decode advance.
pub open spec fn step_jump_absolute(m: Machine) -> (Machine, Signal) {
    if m.prog.len() - m.pc < 1 {
        (m, Signal::Faulted(Fault::TruncatedInstruction))
    } else {
        let r = m.prog[m.pc as int];
        if !reg_ok(r) {
            (m, Signal::Faulted(Fault::RegisterOutOfRange))
        } else if m.regs[r as int] < 0 {
            (m, Signal::Faulted(Fault::JumpOutOfRange))
        } else {
            (Machine { pc: m.regs[r as int] as nat, ..m }, Signal::Continue)
        }
    }
}

/// JUMP-IF-EQUAL, after the opcode byte: jumps as JUMP-ABSOLUTE does, but
/// only when the equivalence flag is set; otherwise the program counter
/// keeps its natural post-decode position and the register is not read.
pub open spec fn step_jump_equal(m: Machine) -> (Machine, Signal) {
    if m.prog.len() - m.pc < 1 {
        (m, Signal::Faulted(Fault::TruncatedInstruction))
    } else {
        let r = m.prog[m.pc as int];
        if !reg_ok(r) {
            (m, Signal::Faulted(Fault::RegisterOutOfRange))
        } else if !m.eq_flag {
            (Machine { pc: m.pc + 1, ..m }, Signal::Continue)
        } else if m.regs[r as int] < 0 {
            (m, Signal::Faulted(Fault::JumpOutOfRange))
        } else {
            (Machine { pc: m.regs[r as int] as nat, ..m }, Signal::Continue)
        }
    }
}

/// JUMP-FORWARD, after the opcode byte: one register-index byte; the
/// register's non-negative value is added to the already-advanced program
/// counter.
pub open spec fn step_jump_forward(m: Machine) -> (Machine, Signal) {
    if m.prog.len() - m.pc < 1 {
        (m, Signal::Faulted(Fault::TruncatedInstruction))
    } else {
        let r = m.prog[m.pc as int];
        if !reg_ok(r) {
            (m, Signal::Faulted(Fault::RegisterOutOfRange))
        } else if m.regs[r as int] < 0 || m.pc + 1 + m.regs[r as int] > usize::MAX {
            (m, Signal::Faulted(Fault::JumpOutOfRange))
        } else {
            (Machine { pc: (m.pc + 1 + m.regs[r as int]) as nat, ..m }, Signal::Continue)
        }
    }
}

/// JUMP-BACKWARD, after the opcode byte: one register-index byte; the
/// register's non-negative value is subtracted from the already-advanced
/// program counter. Jumping back past the start of the buffer is a fault.
pub open spec fn step_jump_backward(m: Machine) -> (Machine, Signal) {
    if m.prog.len() - m.pc < 1 {
        (m, Signal::Faulted(Fault::TruncatedInstruction))
    } else {
        let r = m.prog[m.pc as int];
        if !reg_ok(r) {
            (m, Signal::Faulted(Fault::RegisterOutOfRange))
        } else if m.regs[r as int] < 0 || m.regs[r as int] > m.pc + 1 {
            (m, Signal::Faulted(Fault::JumpOutOfRange))
        } else {
            (Machine { pc: (m.pc + 1 - m.regs[r as int]) as nat, ..m }, Signal::Continue)
        }
    }
}

/// One full fetch/decode/execute cycle.
///
/// With the program counter at or beyond the end of the buffer, nothing is
/// read and nothing changes. Otherwise the byte at the program counter is
/// decoded and always consumed; the opcode's own transition follows. On a
/// fault the state is unchanged except that the program counter rests on
/// the byte after the failing instruction's opcode.
pub open spec fn machine_step(m: Machine) -> (Machine, Signal) {
    if m.pc >= m.prog.len() {
        (m, Signal::OffEnd)
    } else {
        let op = opcode_of_byte(m.prog[m.pc as int]);
        let m1 = Machine { pc: m.pc + 1, ..m };
        match op {
            OpCode::LOAD => step_load(m1),
            OpCode::ADD => step_arith(op, m1),
            OpCode::SUB => step_arith(op, m1),
            OpCode::MUL => step_arith(op, m1),
            OpCode::DIV => step_div(m1),
            OpCode::JMP => step_jump_absolute(m1),
            OpCode::JMPF => step_jump_forward(m1),
            OpCode::JMPB => step_jump_backward(m1),
            OpCode::EQ => step_compare(op, m1),
            OpCode::NEQ => step_compare(op, m1),
            OpCode::LT => step_compare(op, m1),
            OpCode::GT => step_compare(op, m1),
            OpCode::LTE => step_compare(op, m1),
            OpCode::GTE => step_compare(op, m1),
            OpCode::JEQ => step_jump_equal(m1),
            OpCode::PAD => (m1, Signal::Continue),
            OpCode::HLT => (m1, Signal::Halted),
            OpCode::STDO => (m1, Signal::Illegal),
            OpCode::IGL => (m1, Signal::Illegal),
        }
    }
}

/// Up to `fuel` cycles of [`machine_step`]: the loop stops at the first
/// signal other than `Continue`, or reports `Continue` itself when the
/// budget runs out first.
pub open spec fn machine_run(m: Machine, fuel: nat) -> (Machine, Signal)
    decreases fuel,
{
    if fuel == 0 {
        (m, Signal::Continue)
    } else {
        let stepped = machine_step(m);
        if stepped.1 == Signal::Continue {
            machine_run(stepped.0, (fuel - 1) as nat)
        } else {
            stepped
        }
    }
}

/// Law: [`trunc_div`] and [`trunc_rem`] really are the quotient and
/// remainder of a truncating division: they recombine to the dividend,
/// the remainder's magnitude stays below the divisor's, and the
/// remainder carries the dividend's sign (or is zero).
pub proof fn lemma_trunc_div_rem(x: int, d: int)
    requires
        d != 0,
    ensures
        x == trunc_div(x, d) * d + trunc_rem(x, d),
        trunc_rem(x, d) < if d > 0 {
            d
        } else {
            d * -1
        },
        trunc_rem(x, d) > if d > 0 {
            d * -1
        } else {
            d
        },
        x > 0 ==> trunc_rem(x, d) >= 0,
        x < 0 ==> trunc_rem(x, d) <= 0,
{
    if x > 0 && d > 0 {
        lemma_fundamental_div_mod(x, d);
        lemma_mod_division_less_than_divisor(x, d);
        let p = x / d;
        assert(d * p == p * d) by (nonlinear_arith);
    } else if x < 0 && d < 0 {
        lemma_fundamental_div_mod(x * -1, d * -1);
        lemma_mod_division_less_than_divisor(x * -1, d * -1);
        let p = (x * -1) / (d * -1);
        assert(((d * -1) * p) * -1 == p * d) by (nonlinear_arith);
    } else if x < 0 {
        lemma_fundamental_div_mod(x * -1, d);
        lemma_mod_division_less_than_divisor(x * -1, d);
        let p = (x * -1) / d;
        assert((d * p) * -1 == (p * -1) * d) by (nonlinear_arith);
    } else if x > 0 {
        lemma_fundamental_div_mod(x, d * -1);
        lemma_mod_division_less_than_divisor(x, d * -1);
        let p = x / (d * -1);
        assert((d * -1) * p == (p * -1) * d) by (nonlinear_arith);
    }
}

/// For every division the machine permits (a non-zero divisor, and not
/// the one overflowing quotient), the truncating quotient has a 32-bit
/// representation and the remainder's magnitude stays below the divisor's.
pub proof fn lemma_division_fits(a: i32, b: i32)
    requires
        b != 0,
        !(a == i32::MIN && b == -1),
    ensures
        i32::MIN <= trunc_div(a as int, b as int) <= i32::MAX,
        -0x8000_0000 < trunc_rem(a as int, b as int) < 0x8000_0000,
{
    let x = a as int;
    let d = b as int;
    if x > 0 && d > 0 {
        lemma_div_pos_is_pos(x, d);
        lemma_div_nonincreasing(x, d);
        lemma_mod_division_less_than_divisor(x, d);
    } else if x < 0 && d < 0 {
        lemma_div_pos_is_pos(x * -1, d * -1);
        lemma_mod_division_less_than_divisor(x * -1, d * -1);
        if d == -1 {
            lemma_div_nonincreasing(x * -1, 1);
        } else {
            lemma_div_is_ordered_by_denominator(x * -1, 2, d * -1);
            lemma_div_nonincreasing(x * -1, 2);
        }
    } else if x < 0 {
        lemma_div_pos_is_pos(x * -1, d);
        lemma_div_nonincreasing(x * -1, d);
        lemma_mod_division_less_than_divisor(x * -1, d);
    } else if x > 0 {
        lemma_div_pos_is_pos(x, d * -1);
        lemma_div_nonincreasing(x, d * -1);
        lemma_mod_division_less_than_divisor(x, d * -1);
    }
}

/// Law: LOAD assigns `hi * 256 + lo` — the 16-bit big-endian immediate,
/// widened and therefore non-negative — into the addressed register, for
/// every register index in 0..32 and all immediate bytes, and advances
/// the program counter by the instruction's full 4-byte width.
pub proof fn lemma_load_sets_register(m: Machine, reg: u8, hi: u8, lo: u8)
    requires
        m.regs.len() == reg_count(),
        m.pc + 4 <= m.prog.len(),
        opcode_of_byte(m.prog[m.pc as int]) == OpCode::LOAD,
        m.prog[m.pc as int + 1] == reg,
        m.prog[m.pc as int + 2] == hi,
        m.prog[m.pc as int + 3] == lo,
        reg_ok(reg),
    ensures
        machine_step(m).1 == Signal::Continue,
        machine_step(m).0.regs[reg as int] == hi * 256 + lo,
        machine_step(m).0.regs[reg as int] >= 0,
        machine_step(m).0.pc == m.pc + 4,
{
}

/// Law: DIV with a zero-valued divisor register is a fatal condition: it
/// reports a `DivideByZero` fault and stores nothing — registers and the
/// remainder register are exactly as they were, and only the opcode byte
/// was consumed. No value is ever silently returned.
pub proof fn lemma_divide_by_zero_faults(m: Machine)
    requires
        m.pc + 4 <= m.prog.len(),
        opcode_of_byte(m.prog[m.pc as int]) == OpCode::DIV,
        reg_ok(m.prog[m.pc as int + 1]),
        reg_ok(m.prog[m.pc as int + 2]),
        reg_ok(m.prog[m.pc as int + 3]),
        m.regs[m.prog[m.pc as int + 2] as int] == 0,
    ensures
        machine_step(m).1 == Signal::Faulted(Fault::DivideByZero),
        machine_step(m).0.regs == m.regs,
        machine_step(m).0.remainder == m.remainder,
        machine_step(m).0.pc == m.pc + 1,
{
}

/// Law: a comparison opcode sets the equivalence flag to exactly the
/// boolean result of the named relation on the two signed register
/// values. The flag the machine held before is not consulted: a later
/// comparison overwrites an earlier one outright, with no accumulation.
pub proof fn lemma_comparison_sets_flag(m: Machine, op: OpCode)
    requires
        is_comparison(op),
        m.pc + 4 <= m.prog.len(),
        opcode_of_byte(m.prog[m.pc as int]) == op,
        reg_ok(m.prog[m.pc as int + 1]),
        reg_ok(m.prog[m.pc as int + 2]),
    ensures
        machine_step(m).1 == Signal::Continue,
        machine_step(m).0.eq_flag == compare(
            op,
            m.regs[m.prog[m.pc as int + 1] as int],
            m.regs[m.prog[m.pc as int + 2] as int],
        ),
        machine_step(m).0.regs == m.regs,
        machine_step(m).0.remainder == m.remainder,
        machine_step(m).0.pc == m.pc + 4,
{
}

/// Law: JUMP-IF-EQUAL changes the program counter only when the
/// equivalence flag is true at the moment it executes; with the flag
/// clear, the counter is exactly its natural post-decode position and
/// the register is not even read.
pub proof fn lemma_jump_if_equal(m: Machine, r: u8)
    requires
        m.pc + 2 <= m.prog.len(),
        opcode_of_byte(m.prog[m.pc as int]) == OpCode::JEQ,
        m.prog[m.pc as int + 1] == r,
        reg_ok(r),
    ensures
        !m.eq_flag ==> machine_step(m) == (
            Machine { pc: m.pc + 2, ..m },
            Signal::Continue,
        ),
        m.eq_flag && m.regs[r as int] >= 0 ==> machine_step(m) == (
            Machine { pc: m.regs[r as int] as nat, ..m },
            Signal::Continue,
        ),
{
}

/// Law: a jump through a register holding 0 is fully determined by the
/// program counter alone: JUMP-ABSOLUTE goes to 0, and JUMP-FORWARD and
/// JUMP-BACKWARD leave the counter at its natural post-decode position,
/// since they add or subtract nothing.
pub proof fn lemma_jump_zero_offset(m: Machine, r: u8)
    requires
        m.pc + 2 <= m.prog.len(),
        m.pc + 2 <= usize::MAX,
        m.prog[m.pc as int + 1] == r,
        reg_ok(r),
        m.regs[r as int] == 0,
    ensures
        opcode_of_byte(m.prog[m.pc as int]) == OpCode::JMP ==> machine_step(m) == (
            Machine { pc: 0nat, ..m },
            Signal::Continue,
        ),
        opcode_of_byte(m.prog[m.pc as int]) == OpCode::JMPF ==> machine_step(m) == (
            Machine { pc: m.pc + 2, ..m },
            Signal::Continue,
        ),
        opcode_of_byte(m.prog[m.pc as int]) == OpCode::JMPB ==> machine_step(m) == (
            Machine { pc: m.pc + 2, ..m },
            Signal::Continue,
        ),
{
}

/// Law: running a buffer of all-NOP (255) bytes stops only by falling
/// off the end of the buffer: given any step budget larger than the
/// bytes remaining, the run ends with `OffEnd`, the program counter
/// resting at the buffer's length, and every other part of the machine
/// state untouched.
pub proof fn lemma_run_all_pad_terminates(m: Machine, fuel: nat)
    requires
        forall|i: int| 0 <= i < m.prog.len() ==> m.prog[i] == 255u8,
        m.pc <= m.prog.len(),
        fuel > m.prog.len() - m.pc,
    ensures
        machine_run(m, fuel) == (Machine { pc: m.prog.len(), ..m }, Signal::OffEnd),
    decreases fuel,
{
    if m.pc < m.prog.len() {
        let m1 = Machine { pc: m.pc + 1, ..m };
        lemma_run_all_pad_terminates(m1, (fuel - 1) as nat);
    }
}

/// The execution engine. It owns all mutable machine state; a driver
/// populates the program buffer and invokes [`VM::run`] or
/// [`VM::run_once`]. The fields are deliberately open for the driver's
/// diagnostics and resets.
pub struct VM {
    pub registers: [i32; 32],
    pub pc: usize,
    pub program: Vec<u8>,
    pub remainder: u32,
    pub equivalence_flag: bool,
}

impl View for VM {
    type V = Machine;

    open spec fn view(&self) -> Machine {
        Machine {
            regs: self.registers@,
            pc: self.pc as nat,
            prog: self.program@,
            remainder: self.remainder,
            eq_flag: self.equivalence_flag,
        }
    }
}

impl VM {
    /// A zero-initialized engine: all registers zero, the program counter
    /// at 0, remainder 0, equivalence flag clear, program buffer empty.
    pub fn new() -> (vm: VM)
        ensures
            vm@ == initial_machine(),
    {
        let vm = VM {
            registers: [0; 32],
            pc: 0,
            program: Vec::new(),
            remainder: 0,
            equivalence_flag: false,
        };
        proof {
            assert(vm@.regs =~= initial_machine().regs);
            assert(vm@.prog =~= initial_machine().prog);
        }
        vm
    }

    /// Pushes one byte onto the end of the program buffer. No validation
    /// happens here; malformed instructions surface only at execute time.
    pub fn add_byte(&mut self, byte: u8)
        ensures
            final(self)@ == (Machine { prog: old(self)@.prog.push(byte), ..old(self)@ }),
    {
        self.program.push(byte);
    }

    /// Reads the byte at the program counter, maps it through the
    /// instruction set, and advances past it. This byte is always
    /// consumed, even for a malformed trailing instruction.
    pub fn step_decode_opcode(&mut self) -> (op: OpCode)
        requires
            old(self).pc < old(self).program.len(),
        ensures
            op == opcode_of_byte(old(self)@.prog[old(self)@.pc as int]),
            final(self)@ == (Machine { pc: old(self)@.pc + 1, ..old(self)@ }),
    {
        let opcode = OpCode::from(self.program[self.pc]);
        self.pc = self.pc + 1;
        opcode
    }

    /// Consumes one operand byte at the program counter.
    pub fn step_eight_bits(&mut self) -> (byte: u8)
        requires
            old(self).pc < old(self).program.len(),
        ensures
            byte == old(self)@.prog[old(self)@.pc as int],
            final(self)@ == (Machine { pc: old(self)@.pc + 1, ..old(self)@ }),
    {
        let byte = self.program[self.pc];
        self.pc = self.pc + 1;
        byte
    }

    /// Consumes two operand bytes at the program counter as one 16-bit
    /// big-endian value: the high byte first, then the low byte.
    pub fn step_sixteen_bits(&mut self) -> (value: u16)
        requires
            old(self).pc + 1 < old(self).program.len(),
        ensures
            value == old(self)@.prog[old(self)@.pc as int] * 256 + old(self)@.prog[
                old(self)@.pc as int + 1
            ],
            final(self)@ == (Machine { pc: old(self)@.pc + 2, ..old(self)@ }),
    {
        let hi = self.program[self.pc];
        let lo = self.program[self.pc + 1];
        self.pc = self.pc + 2;
        assert(((hi as u16) << 8u16) | (lo as u16) == hi as u16 * 256 + lo as u16) by (bit_vector);
        ((hi as u16) << 8u16) | (lo as u16)
    }

    /// LOAD: a destination register index, then a 16-bit big-endian
    /// immediate, assigned as a non-negative value into the register.
    fn step_load(&mut self) -> (s: Signal)
        requires
            old(self).pc <= old(self).program.len(),
        ensures
            final(self)@ == step_load(old(self)@).0,
            s == step_load(old(self)@).1,
    {
        if self.program.len() - self.pc < 3 {
            return Signal::Faulted(Fault::TruncatedInstruction);
        }
        let register = self.step_eight_bits();
        if register >= 32 {
            self.pc = self.pc - 1;
            return Signal::Faulted(Fault::RegisterOutOfRange);
        }
        let number = self.step_sixteen_bits();
        self.registers[register as usize] = number as i32;
        Signal::Continue
    }

    /// ADD, SUB or MUL: two source register indices and a destination;
    /// the stored result wraps as raw 32-bit machine arithmetic does.
    fn step_binary_arith(&mut self, op: OpCode) -> (s: Signal)
        requires
            op == OpCode::ADD || op == OpCode::SUB || op == OpCode::MUL,
            old(self).pc <= old(self).program.len(),
        ensures
            final(self)@ == step_arith(op, old(self)@).0,
            s == step_arith(op, old(self)@).1,
    {
        if self.program.len() - self.pc < 3 {
            return Signal::Faulted(Fault::TruncatedInstruction);
        }
        let ra = self.step_eight_bits();
        if ra >= 32 {
            self.pc = self.pc - 1;
            return Signal::Faulted(Fault::RegisterOutOfRange);
        }
        let rb = self.step_eight_bits();
        if rb >= 32 {
            self.pc = self.pc - 2;
            return Signal::Faulted(Fault::RegisterOutOfRange);
        }
        let rd = self.step_eight_bits();
        if rd >= 32 {
            self.pc = self.pc - 3;
            return Signal::Faulted(Fault::RegisterOutOfRange);
        }
        let a = self.registers[ra as usize];
        let b = self.registers[rb as usize];
        let value = if op == OpCode::ADD {
            a.wrapping_add(b)
        } else if op == OpCode::SUB {
            a.wrapping_sub(b)
        } else {
            a.wrapping_mul(b)
        };
        self.registers[rd as usize] = value;
        Signal::Continue
    }

    /// DIV: stores the truncating quotient in the destination register
    /// and the remainder, reinterpreted as unsigned, in the remainder
    /// register. A zero divisor is reported as a fault, never as a value.
    fn step_divide(&mut self) -> (s: Signal)
        requires
            old(self).pc <= old(self).program.len(),
        ensures
            final(self)@ == step_div(old(self)@).0,
            s == step_div(old(self)@).1,
    {
        if self.program.len() - self.pc < 3 {
            return Signal::Faulted(Fault::TruncatedInstruction);
        }
        let ra = self.step_eight_bits();
        if ra >= 32 {
            self.pc = self.pc - 1;
            return Signal::Faulted(Fault::RegisterOutOfRange);
        }
        let rb = self.step_eight_bits();
        if rb >= 32 {
            self.pc = self.pc - 2;
            return Signal::Faulted(Fault::RegisterOutOfRange);
        }
        let rd = self.step_eight_bits();
        if rd >= 32 {
            self.pc = self.pc - 3;
            return Signal::Faulted(Fault::RegisterOutOfRange);
        }
        let a = self.registers[ra as usize];
        let b = self.registers[rb as usize];
        if b == 0 {
            self.pc = self.pc - 3;
            return Signal::Faulted(Fault::DivideByZero);
        }
        if a == i32::MIN && b == -1 {
            self.pc = self.pc - 3;
            return Signal::Faulted(Fault::DivideOverflow);
        }
        proof {
            lemma_division_fits(a, b);
        }
        let quotient = match a.checked_div(b) {
            Some(q) => q,
            None => {
                proof {
                    assert(false);
                }
                0
            },
        };
        let rem = match a.checked_rem(b) {
            Some(r) => r,
            None => {
                proof {
                    assert(false);
                }
                0
            },
        };
        self.registers[rd as usize] = quotient;
        self.remainder = if rem >= 0 {
            rem as u32
        } else {
            ((rem as i64) + 0x1_0000_0000i64) as u32
        };
        Signal::Continue
    }

    /// A comparison: the equivalence flag becomes the boolean result of
    /// the named relation on two signed register values; one reserved
    /// byte is then consumed and discarded.
    fn step_comparison(&mut self, op: OpCode) -> (s: Signal)
        requires
            is_comparison(op),
            old(self).pc <= old(self).program.len(),
        ensures
            final(self)@ == step_compare(op, old(self)@).0,
            s == step_compare(op, old(self)@).1,
    {
        if self.program.len() - self.pc < 3 {
            return Signal::Faulted(Fault::TruncatedInstruction);
        }
        let ra = self.step_eight_bits();
        if ra >= 32 {
            self.pc = self.pc - 1;
            return Signal::Faulted(Fault::RegisterOutOfRange);
        }
        let rb = self.step_eight_bits();
        if rb >= 32 {
            self.pc = self.pc - 2;
            return Signal::Faulted(Fault::RegisterOutOfRange);
        }
        let a = self.registers[ra as usize];
        let b = self.registers[rb as usize];
        self.equivalence_flag = if op == OpCode::EQ {
            a == b
        } else if op == OpCode::NEQ {
            a != b
        } else if op == OpCode::LT {
            a < b
        } else if op == OpCode::GT {
            a > b
        } else if op == OpCode::LTE {
            a <= b
        } else {
            a >= b
        };
        self.step_eight_bits();
        Signal::Continue
    }

    /// JUMP-ABSOLUTE: the program counter becomes the addressed
    /// register's non-negative value.
    fn step_jump_absolute(&mut self) -> (s: Signal)
        requires
            old(self).pc <= old(self).program.len(),
        ensures
            final(self)@ == step_jump_absolute(old(self)@).0,
            s == step_jump_absolute(old(self)@).1,
    {
        if self.pc >= self.program.len() {
            return Signal::Faulted(Fault::TruncatedInstruction);
        }
        let r = self.step_eight_bits();
        if r >= 32 {
            self.pc = self.pc - 1;
            return Signal::Faulted(Fault::RegisterOutOfRange);
        }
        let target = self.registers[r as usize];
        if target < 0 {
            self.pc = self.pc - 1;
            return Signal::Faulted(Fault::JumpOutOfRange);
        }
        self.pc = target as usize;
        Signal::Continue
    }

    /// JUMP-IF-EQUAL: jumps as JUMP-ABSOLUTE does, but only when the
    /// equivalence flag is set at the time it executes.
    fn step_jump_equal(&mut self) -> (s: Signal)
        requires
            old(self).pc <= old(self).program.len(),
        ensures
            final(self)@ == step_jump_equal(old(self)@).0,
            s == step_jump_equal(old(self)@).1,
    {
        if self.pc >= self.program.len() {
            return Signal::Faulted(Fault::TruncatedInstruction);
        }
        let r = self.step_eight_bits();
        if r >= 32 {
            self.pc = self.pc - 1;
            return Signal::Faulted(Fault::RegisterOutOfRange);
        }
        if !self.equivalence_flag {
            return Signal::Continue;
        }
        let target = self.registers[r as usize];
        if target < 0 {
            self.pc = self.pc - 1;
            return Signal::Faulted(Fault::JumpOutOfRange);
        }
        self.pc = target as usize;
        Signal::Continue
    }

    /// JUMP-FORWARD: adds the addressed register's non-negative value to
    /// the already-advanced program counter.
    fn step_jump_forward(&mut self) -> (s: Signal)
        requires
            old(self).pc <= old(self).program.len(),
        ensures
            final(self)@ == step_jump_forward(old(self)@).0,
            s == step_jump_forward(old(self)@).1,
    {
        if self.pc >= self.program.len() {
            return Signal::Faulted(Fault::TruncatedInstruction);
        }
        let r = self.step_eight_bits();
        if r >= 32 {
            self.pc = self.pc - 1;
            return Signal::Faulted(Fault::RegisterOutOfRange);
        }
        let offset = self.registers[r as usize];
        if offset < 0 {
            self.pc = self.pc - 1;
            return Signal::Faulted(Fault::JumpOutOfRange);
        }
        match self.pc.checked_add(offset as usize) {
            Some(landing) => {
                self.pc = landing;
                Signal::Continue
            },
            None => {
                self.pc = self.pc - 1;
                Signal::Faulted(Fault::JumpOutOfRange)
            },
        }
    }

    /// JUMP-BACKWARD: subtracts the addressed register's non-negative
    /// value from the already-advanced program counter; past the start of
    /// the buffer is a fault.
    fn step_jump_backward(&mut self) -> (s: Signal)
        requires
            old(self).pc <= old(self).program.len(),
        ensures
            final(self)@ == step_jump_backward(old(self)@).0,
            s == step_jump_backward(old(self)@).1,
    {
        if self.pc >= self.program.len() {
            return Signal::Faulted(Fault::TruncatedInstruction);
        }
        let r = self.step_eight_bits();
        if r >= 32 {
            self.pc = self.pc - 1;
            return Signal::Faulted(Fault::RegisterOutOfRange);
        }
        let offset = self.registers[r as usize];
        if offset < 0 {
            self.pc = self.pc - 1;
            return Signal::Faulted(Fault::JumpOutOfRange);
        }
        if (offset as usize) > self.pc {
            self.pc = self.pc - 1;
            return Signal::Faulted(Fault::JumpOutOfRange);
        }
        self.pc = self.pc - (offset as usize);
        Signal::Continue
    }

    /// Decodes and dispatches the instruction at the program counter,
    /// which must address a byte of the buffer.
    pub fn step_opcode(&mut self) -> (s: Signal)
        requires
            old(self).pc < old(self).program.len(),
        ensures
            final(self)@ == machine_step(old(self)@).0,
            s == machine_step(old(self)@).1,
    {
        let op = self.step_decode_opcode();
        match op {
            OpCode::LOAD => self.step_load(),
            OpCode::ADD => self.step_binary_arith(op),
            OpCode::SUB => self.step_binary_arith(op),
            OpCode::MUL => self.step_binary_arith(op),
            OpCode::DIV => self.step_divide(),
            OpCode::JMP => self.step_jump_absolute(),
            OpCode::JMPF => self.step_jump_forward(),
            OpCode::JMPB => self.step_jump_backward(),
            OpCode::EQ => self.step_comparison(op),
            OpCode::NEQ => self.step_comparison(op),
            OpCode::LT => self.step_comparison(op),
            OpCode::GT => self.step_comparison(op),
            OpCode::LTE => self.step_comparison(op),
            OpCode::GTE => self.step_comparison(op),
            OpCode::JEQ => self.step_jump_equal(),
            OpCode::PAD => Signal::Continue,
            OpCode::HLT => Signal::Halted,
            OpCode::STDO => Signal::Illegal,
            OpCode::IGL => Signal::Illegal,
        }
    }

    /// Decodes and executes exactly one instruction: one cycle of
    /// [`machine_step`]. With the program counter at or beyond the end of
    /// the buffer this is a no-op that reports `OffEnd` without reading
    /// memory.
    pub fn execute_instruction(&mut self) -> (s: Signal)
        ensures
            final(self)@ == machine_step(old(self)@).0,
            s == machine_step(old(self)@).1,
    {
        if self.pc >= self.program.len() {
            Signal::OffEnd
        } else {
            self.step_opcode()
        }
    }

    /// Single-step entry point for an interactive driver: one cycle of
    /// [`machine_step`], reported as [`VM::execute_instruction`] reports
    /// it.
    pub fn run_once(&mut self) -> (s: Signal)
        ensures
            final(self)@ == machine_step(old(self)@).0,
            s == machine_step(old(self)@).1,
    {
        self.execute_instruction()
    }

    /// The engine's sole control loop: repeatedly executes instructions
    /// until one reports something other than `Continue`, or until
    /// `max_steps` instructions have been executed, whichever comes
    /// first. The result is `Continue` exactly when the budget ran out
    /// with execution still able to go on.
    #[verifier::loop_isolation(false)]
    pub fn run(&mut self, max_steps: u64) -> (s: Signal)
        ensures
            final(self)@ == machine_run(old(self)@, max_steps as nat).0,
            s == machine_run(old(self)@, max_steps as nat).1,
    {
        let ghost start: Machine = self@;
        let mut fuel: u64 = max_steps;
        loop
            invariant
                fuel <= max_steps,
                machine_run(start, max_steps as nat) == machine_run(self@, fuel as nat),
            decreases fuel,
        {
            if fuel == 0 {
                return Signal::Continue;
            }
            let s = self.execute_instruction();
            fuel = fuel - 1;
            if s != Signal::Continue {
                return s;
            }
        }
    }
}

} // verus!
