//! A tiny CHIP-8 style CPU: sixteen registers, 4 KiB of memory and a
//! sixteen-entry call stack. It understands four opcodes: `0000` (halt),
//! `00EE` (return), `2nnn` (call `nnn`) and `8xy4` (add register `y` into
//! register `x`, setting register `F` to the carry).

use vstd::prelude::*;

verus! {

/// `u8::overflowing_add` returns the sum modulo 256 and whether the true sum
/// exceeded `u8::MAX`, as the standard library documents.
pub assume_specification[ u8::overflowing_add ](x: u8, y: u8) -> (r: (u8, bool))
    ensures
        r.0 == (x + y) % 256,
        r.1 == (x + y > 255),
;

/// The machine's state as mathematical values.
pub struct CpuView {
    pub registers: Seq<u8>,
    pub pc: nat,
    pub memory: Seq<u8>,
    pub stack: Seq<u16>,
    pub sp: nat,
}

/// The result of executing instructions from a state.
pub enum Outcome {
    /// The `0000` instruction was reached; the state after it.
    Halted(CpuView),
    /// The machine would fail: a memory read past the end, a stack overflow or
    /// underflow, or an opcode it does not know.
    Faulted,
    /// Execution goes on from this state.
    Running(CpuView),
}

/// Size of the memory in bytes.
pub const MEMORY_SIZE: usize = 0x1000;

/// Number of entries in the call stack.
pub const STACK_SIZE: usize = 16;

/// The big-endian 16-bit opcode stored at `p` and `p + 1`.
pub open spec fn opcode_at(memory: Seq<u8>, p: int) -> int {
    memory[p] * 256 + memory[p + 1]
}

/// The first nibble of an opcode: the instruction group.
pub open spec fn nibble_c(op: int) -> int {
    op / 4096
}

/// The second nibble of an opcode: usually a register.
pub open spec fn nibble_x(op: int) -> int {
    (op / 256) % 16
}

/// The third nibble of an opcode: usually a register.
pub open spec fn nibble_y(op: int) -> int {
    (op / 16) % 16
}

/// The last nibble of an opcode: the operation within a group.
pub open spec fn nibble_d(op: int) -> int {
    op % 16
}

/// The low twelve bits of an opcode: an address.
pub open spec fn address_nnn(op: int) -> int {
    op % 4096
}

/// Registers after adding register `y` into register `x`: `x` gets the sum
/// modulo 256, then register `F` gets 1 if the sum overflowed and 0 otherwise.
pub open spec fn add_registers(regs: Seq<u8>, x: int, y: int) -> Seq<u8> {
    let sum = regs[x] + regs[y];
    regs.update(x, (sum % 256) as u8).update(15, if sum > 255 { 1u8 } else { 0u8 })
}

/// The state after calling `addr`: the program counter is pushed (as a
/// 16-bit value) and control moves to `addr`.
pub open spec fn call_state(s: CpuView, addr: nat) -> CpuView {
    CpuView {
        stack: s.stack.update(s.sp as int, s.pc as u16),
        sp: s.sp + 1,
        pc: addr,
        ..s
    }
}

/// The state after returning: the top of the stack is popped into the
/// program counter.
pub open spec fn ret_state(s: CpuView) -> CpuView {
    CpuView { sp: (s.sp - 1) as nat, pc: s.stack[s.sp - 1] as nat, ..s }
}

/// The state after the add instruction on registers `x` and `y`.
pub open spec fn add_state(s: CpuView, x: int, y: int) -> CpuView {
    CpuView { registers: add_registers(s.registers, x, y), ..s }
}

/// One fetch-decode-execute cycle.
pub open spec fn step(s: CpuView) -> Outcome {
    if s.pc + 1 >= MEMORY_SIZE {
        Outcome::Faulted
    } else {
        let op = opcode_at(s.memory, s.pc as int);
        let s1 = CpuView { pc: s.pc + 2, ..s };
        let (c, x, y, d) = (nibble_c(op), nibble_x(op), nibble_y(op), nibble_d(op));
        if c == 0 && x == 0 && y == 0 && d == 0 {
            Outcome::Halted(s1)
        } else if c == 0 && x == 0 && y == 0xE && d == 0xE {
            if 0 < s1.sp <= STACK_SIZE {
                Outcome::Running(ret_state(s1))
            } else {
                Outcome::Faulted
            }
        } else if c == 2 {
            if s1.sp < STACK_SIZE {
                Outcome::Running(call_state(s1, address_nnn(op) as nat))
            } else {
                Outcome::Faulted
            }
        } else if c == 8 && d == 4 {
            Outcome::Running(add_state(s1, x, y))
        } else {
            Outcome::Faulted
        }
    }
}

/// Executing at most `fuel` cycles from `s`; `Running` means the fuel ran out.
pub open spec fn run_from(s: CpuView, fuel: nat) -> Outcome
    decreases fuel,
{
    if fuel == 0 {
        Outcome::Running(s)
    } else {
        match step(s) {
            Outcome::Running(t) => run_from(t, (fuel - 1) as nat),
            other => other,
        }
    }
}

/// Execution from `s` reaches the halt instruction without a fault.
pub open spec fn halts(s: CpuView) -> bool {
    exists|n: nat| #[trigger] run_from(s, n) is Halted
}

/// How far the `k`-th frame of the return chain (the stack entries below the
/// stack pointer, then the program counter) is from the largest 16-bit
/// address; frames above the chain count as 0. Every cycle lowers this
/// chain lexicographically, which is why execution always ends.
pub open spec fn frame_rank(s: CpuView, k: int) -> int {
    if k < s.sp {
        0x10000 - s.stack[k]
    } else if k == s.sp {
        0x10000 - s.pc
    } else {
        0
    }
}

/// Execution from any state ends after finitely many cycles: it reaches
/// the halt instruction or a fault, never runs forever.
pub proof fn lemma_execution_ends(s: CpuView)
    requires
        s.stack.len() == STACK_SIZE,
    ensures
        exists|n: nat| !(#[trigger] run_from(s, n) is Running),
    decreases
        frame_rank(s, 0),
        frame_rank(s, 1),
        frame_rank(s, 2),
        frame_rank(s, 3),
        frame_rank(s, 4),
        frame_rank(s, 5),
        frame_rank(s, 6),
        frame_rank(s, 7),
        frame_rank(s, 8),
        frame_rank(s, 9),
        frame_rank(s, 10),
        frame_rank(s, 11),
        frame_rank(s, 12),
        frame_rank(s, 13),
        frame_rank(s, 14),
        frame_rank(s, 15),
        frame_rank(s, 16),
        MEMORY_SIZE - s.pc,
{
    match step(s) {
        Outcome::Running(t) => {
            lemma_execution_ends(t);
            let n = choose|n: nat| !(#[trigger] run_from(t, n) is Running);
            assert(run_from(s, n + 1) == run_from(t, n));
        },
        _ => {
            assert(run_from(s, 1) == step(s));
        },
    }
}

/// Once a run has ended (halted or faulted), more fuel leaves the outcome
/// unchanged.
pub proof fn lemma_end_is_stable(s: CpuView, n: nat, m: nat)
    requires
        !(run_from(s, n) is Running),
        n <= m,
    ensures
        run_from(s, m) == run_from(s, n),
    decreases n,
{
    if n > 0 {
        if let Outcome::Running(t) = step(s) {
            lemma_end_is_stable(t, (n - 1) as nat, (m - 1) as nat);
        }
    }
}

/// Two runs that have both ended have ended the same way.
pub proof fn lemma_outcomes_agree(s: CpuView, n1: nat, n2: nat)
    requires
        !(run_from(s, n1) is Running),
        !(run_from(s, n2) is Running),
    ensures
        run_from(s, n1) == run_from(s, n2),
{
    if n1 <= n2 {
        lemma_end_is_stable(s, n1, n2);
    } else {
        lemma_end_is_stable(s, n2, n1);
    }
}

/// A call followed by a return brings back the program counter (when it
/// fits in 16 bits) and the stack pointer, and touches neither registers
/// nor memory.
pub proof fn lemma_call_then_ret(s: CpuView, addr: nat)
    requires
        s.sp < STACK_SIZE,
        s.pc < 0x10000,
        s.stack.len() == STACK_SIZE,
    ensures
        ret_state(call_state(s, addr)).pc == s.pc,
        ret_state(call_state(s, addr)).sp == s.sp,
        ret_state(call_state(s, addr)).registers == s.registers,
        ret_state(call_state(s, addr)).memory == s.memory,
{
}

/// What one cycle does, read off the two opcode bytes `hi` and `lo` at the
/// program counter:
/// - `00 00` halts, with the program counter past the instruction;
/// - `00 EE` with a non-empty stack returns to the address on top of it;
/// - `2n nn` with room on the stack pushes the address of the next
///   instruction and jumps to the full twelve-bit address `nnn`;
/// - `8x y4` adds register `y` into register `x` with register `F` holding
///   the carry, and moves on to the next instruction.
/// Memory never changes.
pub proof fn lemma_step_by_opcode(s: CpuView)
    requires
        s.pc + 1 < MEMORY_SIZE,
        s.memory.len() == MEMORY_SIZE,
        s.registers.len() == 16,
        s.stack.len() == STACK_SIZE,
    ensures
        ({
            let hi = s.memory[s.pc as int] as int;
            let lo = s.memory[s.pc as int + 1] as int;
            &&& (hi == 0 && lo == 0) ==> (step(s) matches Outcome::Halted(t) && t.pc == s.pc + 2
                && t.sp == s.sp && t.registers == s.registers && t.stack == s.stack && t.memory
                == s.memory)
            &&& (hi == 0 && lo == 0xEE && 0 < s.sp <= STACK_SIZE) ==> (step(s) matches Outcome::Running(
                t,
            ) && t.pc == s.stack[s.sp - 1] && t.sp == s.sp - 1 && t.registers == s.registers
                && t.memory == s.memory)
            &&& (hi == 0 && lo == 0xEE && (s.sp == 0 || s.sp > STACK_SIZE)) ==> step(s) is Faulted
            &&& (hi / 16 == 2 && s.sp < STACK_SIZE) ==> (step(s) matches Outcome::Running(t) && t.pc
                == (hi % 16) * 256 + lo && t.sp == s.sp + 1 && t.stack[s.sp as int] == s.pc + 2
                && (forall|k: int| 0 <= k < STACK_SIZE && k != s.sp ==> t.stack[k] == s.stack[k])
                && t.registers == s.registers && t.memory == s.memory)
            &&& (hi / 16 == 2 && s.sp >= STACK_SIZE) ==> step(s) is Faulted
            &&& (hi / 16 == 8 && lo % 16 == 4) ==> (step(s) matches Outcome::Running(t) && t.pc
                == s.pc + 2 && t.sp == s.sp && t.stack == s.stack && t.memory == s.memory && (
            hi % 16 != 15 ==> t.registers[hi % 16] == (s.registers[hi % 16] + s.registers[lo
                / 16]) % 256) && t.registers[15] == (if s.registers[hi % 16] + s.registers[lo / 16]
                > 255 { 1int } else { 0int }) && (forall|k: int|
                0 <= k < 16 && k != hi % 16 && k != 15 ==> t.registers[k] == s.registers[k]))
        }),
{
    let hi = s.memory[s.pc as int] as int;
    let lo = s.memory[s.pc as int + 1] as int;
    let op = opcode_at(s.memory, s.pc as int);
    assert(op == hi * 256 + lo);
    assert(0 <= hi < 256 && 0 <= lo < 256);
    assert(nibble_c(op) == hi / 16) by (nonlinear_arith)
        requires
            op == hi * 256 + lo,
            0 <= hi < 256,
            0 <= lo < 256,
    ;
    assert(nibble_x(op) == hi % 16) by (nonlinear_arith)
        requires
            op == hi * 256 + lo,
            0 <= hi < 256,
            0 <= lo < 256,
    ;
    assert(nibble_y(op) == lo / 16) by (nonlinear_arith)
        requires
            op == hi * 256 + lo,
            0 <= hi < 256,
            0 <= lo < 256,
    ;
    assert(nibble_d(op) == lo % 16) by (nonlinear_arith)
        requires
            op == hi * 256 + lo,
            0 <= hi < 256,
            0 <= lo < 256,
    ;
    assert(address_nnn(op) == (hi % 16) * 256 + lo) by (nonlinear_arith)
        requires
            op == hi * 256 + lo,
            0 <= hi < 256,
            0 <= lo < 256,
    ;
    assert(hi == 0 && lo == 0 <==> hi / 16 == 0 && hi % 16 == 0 && lo / 16 == 0 && lo % 16 == 0);
    assert(hi == 0 && lo == 0xEE <==> hi / 16 == 0 && hi % 16 == 0 && lo / 16 == 0xE && lo % 16
        == 0xE);
}

/// The add instruction computes the true sum: the new value of register
/// `x` plus 256 times the carry in register `F` is the old `x` plus `y`
/// (for any `x` other than `F` itself).
pub proof fn lemma_add_with_carry(regs: Seq<u8>, x: int, y: int)
    requires
        regs.len() == 16,
        0 <= x < 15,
        0 <= y < 16,
    ensures
        add_registers(regs, x, y)[x] + 256 * add_registers(regs, x, y)[15] == regs[x] + regs[y],
        forall|i: int| 0 <= i < 16 && i != x && i != 15 ==> add_registers(regs, x, y)[i] == regs[i],
{
}

/// The CPU: registers, program counter, memory and call stack.
pub struct CPU {
    pub registers: [u8; 16],
    pub position_in_memory: usize,
    pub memory: [u8; 0x1000],
    pub stack: [u16; 16],
    pub stack_pointer: usize,
}

impl View for CPU {
    type V = CpuView;

    open spec fn view(&self) -> CpuView {
        CpuView {
            registers: self.registers@,
            pc: self.position_in_memory as nat,
            memory: self.memory@,
            stack: self.stack@,
            sp: self.stack_pointer as nat,
        }
    }
}

impl CPU {
    /// Reads the big-endian opcode at the program counter.
    pub fn read_opcode(&self) -> (op: u16)
        requires
            self.position_in_memory + 1 < MEMORY_SIZE,
        ensures
            op == opcode_at(self@.memory, self.position_in_memory as int),
    {
        let p = self.position_in_memory;
        let op_byte_1 = self.memory[p] as u16;
        let op_byte_2 = self.memory[p + 1] as u16;
        assert((op_byte_1 << 8u16) | op_byte_2 == op_byte_1 * 256 + op_byte_2) by (bit_vector)
            requires
                op_byte_1 < 256,
                op_byte_2 < 256,
        ;
        op_byte_1 << 8 | op_byte_2
    }

    /// Pushes the program counter and jumps to `addr`.
    pub fn call(&mut self, addr: u16)
        requires
            old(self).stack_pointer < STACK_SIZE,
        ensures
            final(self)@ == call_state(old(self)@, addr as nat),
    {
        let sp = self.stack_pointer;
        self.stack[sp] = self.position_in_memory as u16;
        self.stack_pointer += 1;
        self.position_in_memory = addr as usize;
    }

    /// Pops the top of the stack into the program counter.
    pub fn ret(&mut self)
        requires
            0 < old(self).stack_pointer <= STACK_SIZE,
        ensures
            final(self)@ == ret_state(old(self)@),
    {
        self.stack_pointer -= 1;
        let addr = self.stack[self.stack_pointer];
        self.position_in_memory = addr as usize;
    }

    /// Adds register `y` into register `x`; register `F` records the carry.
    pub fn add_xy(&mut self, x: u8, y: u8)
        requires
            x < 16,
            y < 16,
        ensures
            final(self)@ == add_state(old(self)@, x as int, y as int),
    {
        let arg_1 = self.registers[x as usize];
        let arg_2 = self.registers[y as usize];

        let (val, overflow) = arg_1.overflowing_add(arg_2);
        self.registers[x as usize] = val;

        if overflow {
            self.registers[0xF] = 1;
        } else {
            self.registers[0xF] = 0;
        }
        assert(self@.registers =~= add_registers(old(self)@.registers, x as int, y as int));
    }
}

/// What one executed cycle came to.
#[derive(Debug, PartialEq, Eq, Structural, Clone, Copy)]
pub enum Cycle {
    /// The halt instruction was executed.
    Halt,
    /// The cycle could not be executed: see [`Outcome::Faulted`].
    Fault,
    /// The instruction was executed and the machine goes on.
    Continue,
}

impl CPU {
    /// Executes one fetch-decode-execute cycle. After a fault the state is
    /// left unspecified.
    pub fn cycle(&mut self) -> (r: Cycle)
        ensures
            step(old(self)@) matches Outcome::Halted(t) ==> r == Cycle::Halt && final(self)@ == t,
            step(old(self)@) matches Outcome::Running(t) ==> r == Cycle::Continue && final(self)@
                == t,
            step(old(self)@) is Faulted ==> r == Cycle::Fault,
    {
        if self.position_in_memory >= MEMORY_SIZE - 1 {
            return Cycle::Fault;
        }
        let opcode = self.read_opcode();
        self.position_in_memory += 2;

        assert(((opcode & 0xF000) >> 12) == opcode / 4096 && ((opcode & 0x0F00) >> 8) == (opcode
            / 256) % 16 && ((opcode & 0x00F0) >> 4) == (opcode / 16) % 16 && ((opcode & 0x000F)
            >> 0) == opcode % 16 && (opcode & 0x0FFF) == opcode % 4096) by (bit_vector);
        assert(((opcode & 0xF000) >> 12) < 16 && ((opcode & 0x0F00) >> 8) < 16 && ((opcode
            & 0x00F0) >> 4) < 16 && ((opcode & 0x000F) >> 0) < 16) by (bit_vector);
        let c = ((opcode & 0xF000) >> 12) as u8;
        let x = ((opcode & 0x0F00) >> 8) as u8;
        let y = ((opcode & 0x00F0) >> 4) as u8;
        let d = ((opcode & 0x000F) >> 0) as u8;
        let nnn = opcode & 0x0FFF;

        match (c, x, y, d) {
            (0, 0, 0, 0) => Cycle::Halt,
            (0, 0, 0xE, 0xE) => {
                if self.stack_pointer == 0 || self.stack_pointer > STACK_SIZE {
                    return Cycle::Fault;
                }
                self.ret();
                Cycle::Continue
            },
            (0x2, _, _, _) => {
                if self.stack_pointer >= STACK_SIZE {
                    return Cycle::Fault;
                }
                self.call(nnn);
                Cycle::Continue
            },
            (0x8, _, _, 0x4) => {
                self.add_xy(x, y);
                Cycle::Continue
            },
            _ => Cycle::Fault,
        }
    }

    /// Runs the fetch-decode-execute loop until the halt instruction.
    /// Only states from which execution halts without a fault are accepted;
    /// the final state is the one the step semantics reaches.
    pub fn run(&mut self)
        requires
            halts(old(self)@),
        ensures
            exists|n: nat| run_from(old(self)@, n) == Outcome::Halted(final(self)@),
    {
        let ghost n = choose|n: nat| #[trigger] run_from(self@, n) is Halted;
        let ghost target = run_from(self@, n);
        let ghost init = self@;
        let ghost mut fuel: nat = n;
        loop
            invariant
                run_from(self@, fuel) == target,
                target is Halted,
                run_from(init, n) == target,
                init == old(self)@,
            decreases fuel,
        {
            let ghost before = self@;
            proof {
                assert(fuel > 0);
            }
            match self.cycle() {
                Cycle::Halt => {
                    assert(run_from(before, fuel) == step(before));
                    assert(run_from(init, n) == Outcome::Halted(self@));
                    return;
                },
                Cycle::Fault => {
                    assert(run_from(before, fuel) == step(before));
                    assert(false);
                    return;
                },
                Cycle::Continue => {},
            }
            proof {
                fuel = (fuel - 1) as nat;
            }
        }
    }

    /// Runs the fetch-decode-execute loop until the halt instruction or a
    /// fault, whichever comes first (one of them always does). Returns
    /// whether it halted; after a halt the state is the one the step
    /// semantics reaches, after a fault it is left unspecified.
    pub fn run_until_done(&mut self) -> (halted: bool)
        ensures
            halted <==> halts(old(self)@),
            halted ==> exists|n: nat| run_from(old(self)@, n) == Outcome::Halted(final(self)@),
            !halted ==> exists|n: nat| run_from(old(self)@, n) is Faulted,
    {
        proof {
            lemma_execution_ends(self@);
        }
        let ghost n = choose|n: nat| !(#[trigger] run_from(self@, n) is Running);
        let ghost target = run_from(self@, n);
        let ghost init = self@;
        let ghost mut fuel: nat = n;
        loop
            invariant
                run_from(self@, fuel) == target,
                !(target is Running),
                run_from(init, n) == target,
                init == old(self)@,
            decreases fuel,
        {
            let ghost before = self@;
            proof {
                assert(fuel > 0);
            }
            match self.cycle() {
                Cycle::Halt => {
                    assert(run_from(before, fuel) == step(before));
                    assert(run_from(init, n) == Outcome::Halted(self@));
                    return true;
                },
                Cycle::Fault => {
                    assert(run_from(before, fuel) == step(before));
                    proof {
                        if halts(init) {
                            let m = choose|m: nat| #[trigger] run_from(init, m) is Halted;
                            lemma_outcomes_agree(init, n, m);
                        }
                    }
                    return false;
                },
                Cycle::Continue => {},
            }
            proof {
                fuel = (fuel - 1) as nat;
            }
        }
    }
}

} // verus!
