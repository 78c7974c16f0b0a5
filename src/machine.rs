use vstd::prelude::*;
use crate::word::{
    add_words, and_words, is_reg_field, is_word, mod_words, mult_words, not_word, or_words,
    reg_index, NUM_REGS, REG_BASE, WORD_MAX,
};

verus! {

/// The number of memory cells.
pub const MEM_SIZE: usize = 32768;

/// Why a run stopped abnormally.
#[derive(Clone, Copy, Debug, PartialEq, Eq, Structural)]
pub enum Fault {
    /// The opcode has no operation.
    Unimplemented(u16),
    /// An operand that must name a register is this field instead.
    NotRegister(u16),
    /// A field above the register range, which is neither literal nor register.
    InvalidOperand(u16),
    /// `pop` on an empty stack.
    StackUnderflow,
    /// `mod` with a zero divisor.
    DivideByZero,
    /// `rmem` read this address, whose content is not a word.
    BadMemoryWord(u16),
    /// An instruction, or the return address of a `call`, lies past the end of memory.
    AddressOutOfRange,
    /// The host input source failed.
    InputError,
}

/// The execution state. `Halted` and `Faulted` are terminal.
#[derive(Clone, Copy, Debug, PartialEq, Eq, Structural)]
pub enum State {
    Running,
    Halted,
    Faulted(Fault),
}

/// What a step asks of the host.
#[derive(Clone, Copy, Debug, PartialEq, Eq, Structural)]
pub enum Event {
    /// Nothing: the step was internal.
    Nothing,
    /// Emit this character.
    Output(u8),
    /// The input buffer is empty: supply a line, then step again.
    NeedInput,
}

/// The mathematical state of a machine.
pub struct MachineView {
    pub mem: Seq<u16>,
    pub regs: Seq<u16>,
    pub stack: Seq<u16>,
    pub pc: int,
    pub state: State,
    pub input: Seq<u8>,
}

/// A machine whose storage has its fixed sizes, whose registers and stack
/// hold words only, and whose program counter is at most one past memory.
pub open spec fn valid(m: MachineView) -> bool {
    &&& m.mem.len() == 32768
    &&& m.regs.len() == 8
    &&& forall|i: int| 0 <= i < 8 ==> is_word(#[trigger] m.regs[i] as int)
    &&& forall|i: int| 0 <= i < m.stack.len() ==> is_word(#[trigger] m.stack[i] as int)
    &&& 0 <= m.pc <= 32768
}

/// The machine with its state set to a fault.
pub open spec fn fault(m: MachineView, f: Fault) -> MachineView {
    MachineView { state: State::Faulted(f), ..m }
}

/// The machine with its program counter moved on by `w` words.
pub open spec fn advance(m: MachineView, w: int) -> MachineView {
    MachineView { pc: m.pc + w, ..m }
}

/// Whether an instruction of `w` words at the program counter lies inside memory.
pub open spec fn fits(m: MachineView, w: int) -> bool {
    m.pc + w <= 32768
}

/// The `k`-th word of the instruction at the program counter (0 is the opcode).
pub open spec fn arg(m: MachineView, k: int) -> u16 {
    m.mem[m.pc + k]
}

/// A raw field as a value: a literal stands for itself, a register field for
/// the register's content, and anything above the registers is invalid.
pub open spec fn resolve(m: MachineView, field: u16) -> Result<u16, Fault> {
    if field <= 32767 {
        Ok(field)
    } else if field <= 32775 {
        Ok(m.regs[reg_index(field)])
    } else {
        Err(Fault::InvalidOperand(field))
    }
}

/// Stores `val` at a raw destination field: a register field names a
/// register, a literal names a memory address.
pub open spec fn write(m: MachineView, dest: u16, val: u16) -> MachineView {
    if dest > 32767 {
        MachineView { regs: m.regs.update(reg_index(dest), val), ..m }
    } else {
        MachineView { mem: m.mem.update(dest as int, val), ..m }
    }
}


/// `halt`: the run ends normally; the program counter stays on the instruction.
pub open spec fn halt_spec(m: MachineView) -> MachineView {
    MachineView { state: State::Halted, ..m }
}

/// `set a b`: register `a` gets the value of `b`.
pub open spec fn set_spec(m: MachineView) -> MachineView {
    if !fits(m, 3) {
        fault(m, Fault::AddressOutOfRange)
    } else if !is_reg_field(arg(m, 1)) {
        fault(m, Fault::NotRegister(arg(m, 1)))
    } else {
        match resolve(m, arg(m, 2)) {
            Err(f) => fault(m, f),
            Ok(b) => advance(write(m, arg(m, 1), b), 3),
        }
    }
}

/// `push a`: the value of `a` goes on top of the stack.
pub open spec fn push_spec(m: MachineView) -> MachineView {
    if !fits(m, 2) {
        fault(m, Fault::AddressOutOfRange)
    } else {
        match resolve(m, arg(m, 1)) {
            Err(f) => fault(m, f),
            Ok(a) => advance(MachineView { stack: m.stack.push(a), ..m }, 2),
        }
    }
}

/// `pop a`: the top of the stack moves into register `a`; an empty stack is a fault.
pub open spec fn pop_spec(m: MachineView) -> MachineView {
    if !fits(m, 2) {
        fault(m, Fault::AddressOutOfRange)
    } else if !is_reg_field(arg(m, 1)) {
        fault(m, Fault::NotRegister(arg(m, 1)))
    } else if m.stack.len() == 0 {
        fault(m, Fault::StackUnderflow)
    } else {
        advance(
            write(MachineView { stack: m.stack.drop_last(), ..m }, arg(m, 1), m.stack.last()),
            2,
        )
    }
}

/// The value that the three-operand operation `op` computes from `b` and `c`.
pub open spec fn alu(op: u16, b: u16, c: u16) -> Result<u16, Fault> {
    if op == 4 {
        Ok(if b == c { 1u16 } else { 0u16 })
    } else if op == 5 {
        Ok(if b > c { 1u16 } else { 0u16 })
    } else if op == 9 {
        Ok(((b + c) % 32768) as u16)
    } else if op == 10 {
        Ok(((b * c) % 32768) as u16)
    } else if op == 11 {
        if c == 0 {
            Err(Fault::DivideByZero)
        } else {
            Ok((b % c) as u16)
        }
    } else if op == 12 {
        Ok(b & c)
    } else {
        Ok(b | c)
    }
}

/// The opcodes of the three-operand operations: eq, gt, add, mult, mod, and, or.
pub open spec fn is_binary_op(op: u16) -> bool {
    op == 4 || op == 5 || (9 <= op <= 13)
}

/// `op a b c`: register `a` gets `alu(op, b, c)` of the values of `b` and `c`.
pub open spec fn binary_spec(m: MachineView, op: u16) -> MachineView {
    if !fits(m, 4) {
        fault(m, Fault::AddressOutOfRange)
    } else if !is_reg_field(arg(m, 1)) {
        fault(m, Fault::NotRegister(arg(m, 1)))
    } else {
        match resolve(m, arg(m, 2)) {
            Err(f) => fault(m, f),
            Ok(b) => match resolve(m, arg(m, 3)) {
                Err(f) => fault(m, f),
                Ok(c) => match alu(op, b, c) {
                    Err(f) => fault(m, f),
                    Ok(v) => advance(write(m, arg(m, 1), v), 4),
                },
            },
        }
    }
}

/// `jmp a`: control goes to the value of `a`.
pub open spec fn jmp_spec(m: MachineView) -> MachineView {
    if !fits(m, 2) {
        fault(m, Fault::AddressOutOfRange)
    } else {
        match resolve(m, arg(m, 1)) {
            Err(f) => fault(m, f),
            Ok(a) => MachineView { pc: a as int, ..m },
        }
    }
}

/// `jt a b` (`when_zero` false) and `jf a b` (`when_zero` true): control goes
/// to the value of `b` when the value of `a` is nonzero, or zero, as asked;
/// else on to the next instruction.
pub open spec fn cond_jump_spec(m: MachineView, when_zero: bool) -> MachineView {
    if !fits(m, 3) {
        fault(m, Fault::AddressOutOfRange)
    } else {
        match resolve(m, arg(m, 1)) {
            Err(f) => fault(m, f),
            Ok(a) => match resolve(m, arg(m, 2)) {
                Err(f) => fault(m, f),
                Ok(b) => if (a == 0) == when_zero {
                    MachineView { pc: b as int, ..m }
                } else {
                    advance(m, 3)
                },
            },
        }
    }
}

/// `not a b`: register `a` gets the 15-bit complement of the value of `b`.
pub open spec fn not_spec(m: MachineView) -> MachineView {
    if !fits(m, 3) {
        fault(m, Fault::AddressOutOfRange)
    } else if !is_reg_field(arg(m, 1)) {
        fault(m, Fault::NotRegister(arg(m, 1)))
    } else {
        match resolve(m, arg(m, 2)) {
            Err(f) => fault(m, f),
            Ok(b) => advance(write(m, arg(m, 1), (32767 - b) as u16), 3),
        }
    }
}

/// `rmem a b`: register `a` gets the memory cell at the value of `b`, which
/// must hold a word.
pub open spec fn rmem_spec(m: MachineView) -> MachineView {
    if !fits(m, 3) {
        fault(m, Fault::AddressOutOfRange)
    } else if !is_reg_field(arg(m, 1)) {
        fault(m, Fault::NotRegister(arg(m, 1)))
    } else {
        match resolve(m, arg(m, 2)) {
            Err(f) => fault(m, f),
            Ok(b) => if is_word(m.mem[b as int] as int) {
                advance(write(m, arg(m, 1), m.mem[b as int]), 3)
            } else {
                fault(m, Fault::BadMemoryWord(b))
            },
        }
    }
}

/// `wmem a b`: the memory cell at the value of `a` gets the value of `b`.
pub open spec fn wmem_spec(m: MachineView) -> MachineView {
    if !fits(m, 3) {
        fault(m, Fault::AddressOutOfRange)
    } else {
        match resolve(m, arg(m, 1)) {
            Err(f) => fault(m, f),
            Ok(a) => match resolve(m, arg(m, 2)) {
                Err(f) => fault(m, f),
                Ok(b) => advance(write(m, a, b), 3),
            },
        }
    }
}

/// `call a`: the address of the next instruction goes on the stack and
/// control goes to the value of `a`. A return address past memory is a fault.
pub open spec fn call_spec(m: MachineView) -> MachineView {
    if !fits(m, 2) {
        fault(m, Fault::AddressOutOfRange)
    } else {
        match resolve(m, arg(m, 1)) {
            Err(f) => fault(m, f),
            Ok(a) => if m.pc + 2 > 32767 {
                fault(m, Fault::AddressOutOfRange)
            } else {
                MachineView { stack: m.stack.push((m.pc + 2) as u16), pc: a as int, ..m }
            },
        }
    }
}

/// `ret`: control goes to the address popped off the stack; on an empty
/// stack the run ends normally.
pub open spec fn ret_spec(m: MachineView) -> MachineView {
    if m.stack.len() == 0 {
        halt_spec(m)
    } else {
        MachineView { stack: m.stack.drop_last(), pc: m.stack.last() as int, ..m }
    }
}

/// `out a`: the low eight bits of the value of `a` are emitted.
pub open spec fn out_spec(m: MachineView) -> (MachineView, Event) {
    if !fits(m, 2) {
        (fault(m, Fault::AddressOutOfRange), Event::Nothing)
    } else {
        match resolve(m, arg(m, 1)) {
            Err(f) => (fault(m, f), Event::Nothing),
            Ok(a) => (advance(m, 2), Event::Output((a % 256) as u8)),
        }
    }
}

/// `in a`: register `a` gets the next byte of the input buffer. On an empty
/// buffer nothing changes and the host is asked for a line.
pub open spec fn in_spec(m: MachineView) -> (MachineView, Event) {
    if !fits(m, 2) {
        (fault(m, Fault::AddressOutOfRange), Event::Nothing)
    } else if !is_reg_field(arg(m, 1)) {
        (fault(m, Fault::NotRegister(arg(m, 1))), Event::Nothing)
    } else if m.input.len() == 0 {
        (m, Event::NeedInput)
    } else {
        (
            advance(
                write(MachineView { input: m.input.drop_first(), ..m }, arg(m, 1), m.input[0] as u16),
                2,
            ),
            Event::Nothing,
        )
    }
}

/// `noop`: on to the next instruction.
pub open spec fn noop_spec(m: MachineView) -> MachineView {
    if !fits(m, 1) {
        fault(m, Fault::AddressOutOfRange)
    } else {
        advance(m, 1)
    }
}

/// The effect of the operation `op` other than `out` and `in`.
pub open spec fn exec_op(m: MachineView, op: u16) -> MachineView {
    if op == 0 {
        halt_spec(m)
    } else if op == 1 {
        set_spec(m)
    } else if op == 2 {
        push_spec(m)
    } else if op == 3 {
        pop_spec(m)
    } else if is_binary_op(op) {
        binary_spec(m, op)
    } else if op == 6 {
        jmp_spec(m)
    } else if op == 7 {
        cond_jump_spec(m, false)
    } else if op == 8 {
        cond_jump_spec(m, true)
    } else if op == 14 {
        not_spec(m)
    } else if op == 15 {
        rmem_spec(m)
    } else if op == 16 {
        wmem_spec(m)
    } else if op == 17 {
        call_spec(m)
    } else if op == 18 {
        ret_spec(m)
    } else if op == 21 {
        noop_spec(m)
    } else {
        fault(m, Fault::Unimplemented(op))
    }
}

/// One step: a machine that is not running stays as it is; a running one
/// executes the instruction at its program counter.
pub open spec fn step_spec(m: MachineView) -> (MachineView, Event) {
    if m.state != State::Running {
        (m, Event::Nothing)
    } else if m.pc >= 32768 {
        (fault(m, Fault::AddressOutOfRange), Event::Nothing)
    } else if m.mem[m.pc] == 19 {
        out_spec(m)
    } else if m.mem[m.pc] == 20 {
        in_spec(m)
    } else {
        (exec_op(m, m.mem[m.pc]), Event::Nothing)
    }
}


/// Why `run` handed control back.
#[derive(Clone, Copy, Debug, PartialEq, Eq, Structural)]
pub enum Stop {
    /// The machine halted or faulted.
    Finished,
    /// An `in` found the input buffer empty: supply a line and run again.
    NeedInput,
    /// The step budget ran out while the machine was still running.
    OutOfFuel,
}

/// Why a program image could not be loaded.
#[derive(Clone, Copy, Debug, PartialEq, Eq, Structural)]
pub enum LoadError {
    /// The image holds more words than memory has cells.
    TooLarge,
}

/// Up to `fuel` steps: the machine reached, the characters emitted on the
/// way, and why the run stopped.
pub open spec fn run_spec(m: MachineView, fuel: nat) -> (MachineView, Seq<u8>, Stop)
    decreases fuel,
{
    if m.state != State::Running {
        (m, Seq::empty(), Stop::Finished)
    } else if fuel == 0 {
        (m, Seq::empty(), Stop::OutOfFuel)
    } else {
        let (m2, e) = step_spec(m);
        match e {
            Event::NeedInput => (m2, Seq::empty(), Stop::NeedInput),
            Event::Output(b) => {
                let rest = run_spec(m2, (fuel - 1) as nat);
                (rest.0, seq![b] + rest.1, rest.2)
            },
            Event::Nothing => run_spec(m2, (fuel - 1) as nat),
        }
    }
}

/// The little-endian 16-bit word made of a low and a high byte.
pub open spec fn le_word(lo: u8, hi: u8) -> u16 {
    (lo + hi * 256) as u16
}

/// The `i`-th little-endian word of a byte image.
pub open spec fn word_at(image: Seq<u8>, i: int) -> u16 {
    le_word(image[2 * i], image[2 * i + 1])
}

/// Memory after loading the `n` words of an image at addresses `0..n`.
pub open spec fn loaded(mem: Seq<u16>, image: Seq<u8>, n: int) -> Seq<u16> {
    Seq::new(mem.len(), |a: int| if a < n { word_at(image, a) } else { mem[a] })
}

/// A byte sequence with every carriage return (13) taken out.
pub open spec fn strip_cr(s: Seq<u8>) -> Seq<u8>
    decreases s.len(),
{
    if s.len() == 0 {
        s
    } else if s.last() == 13 {
        strip_cr(s.drop_last())
    } else {
        strip_cr(s.drop_last()).push(s.last())
    }
}

/// A host line without its terminator: a final line feed (10), together
/// with a carriage return (13) right before it, is taken off.
pub open spec fn without_terminator(s: Seq<u8>) -> Seq<u8> {
    if s.len() >= 2 && s[s.len() - 2] == 13 && s[s.len() - 1] == 10 {
        s.subrange(0, s.len() - 2)
    } else if s.len() >= 1 && s[s.len() - 1] == 10 {
        s.subrange(0, s.len() - 1)
    } else {
        s
    }
}

/// The interpreter: storage, program counter, state and input buffer.
pub struct VM {
    mem: Vec<u16>,
    regs: Vec<u16>,
    stack: Vec<u16>,
    pc: usize,
    state: State,
    input: Vec<u8>,
}

impl View for VM {
    type V = MachineView;

    closed spec fn view(&self) -> MachineView {
        MachineView {
            mem: self.mem@,
            regs: self.regs@,
            stack: self.stack@,
            pc: self.pc as int,
            state: self.state,
            input: self.input@,
        }
    }
}

impl VM {
    /// A running machine with zeroed memory and registers, an empty stack,
    /// an empty input buffer and the program counter at 0.
    pub fn new() -> (r: VM)
        ensures
            valid(r@),
            r@.mem == Seq::new(32768, |i: int| 0u16),
            r@.regs == Seq::new(8, |i: int| 0u16),
            r@.stack == Seq::<u16>::empty(),
            r@.pc == 0,
            r@.state == State::Running,
            r@.input == Seq::<u8>::empty(),
    {
        let mut mem: Vec<u16> = Vec::new();
        let mut i: usize = 0;
        while i < MEM_SIZE
            invariant
                i <= MEM_SIZE,
                mem@ == Seq::new(i as nat, |j: int| 0u16),
            decreases MEM_SIZE - i,
        {
            mem.push(0);
            i = i + 1;
            assert(mem@ =~= Seq::new(i as nat, |j: int| 0u16));
        }
        let mut regs: Vec<u16> = Vec::new();
        let mut i: usize = 0;
        while i < NUM_REGS
            invariant
                i <= NUM_REGS,
                regs@ == Seq::new(i as nat, |j: int| 0u16),
            decreases NUM_REGS - i,
        {
            regs.push(0);
            i = i + 1;
            assert(regs@ =~= Seq::new(i as nat, |j: int| 0u16));
        }
        let r = VM {
            mem,
            regs,
            stack: Vec::new(),
            pc: 0,
            state: State::Running,
            input: Vec::new(),
        };
        assert(r@.stack =~= Seq::<u16>::empty());
        r
    }

    /// Whether a raw field names a register.
    pub fn is_reg(&self, x: u16) -> (r: bool)
        ensures
            r == is_reg_field(x),
    {
        x >= REG_BASE && x <= 32775
    }

    /// Ends the run with a fault.
    pub fn error(&mut self, f: Fault)
        requires
            valid(old(self)@),
        ensures
            final(self)@ == fault(old(self)@, f),
            valid(final(self)@),
    {
        self.state = State::Faulted(f);
    }

    /// Ends the run normally.
    pub fn halt_impl(&mut self)
        requires
            valid(old(self)@),
        ensures
            final(self)@ == (MachineView { state: State::Halted, ..old(self)@ }),
            valid(final(self)@),
    {
        self.state = State::Halted;
    }

    /// Resolves a raw field to a word (see `resolve`).
    pub fn read_val(&self, x: u16) -> (r: Result<u16, Fault>)
        requires
            valid(self@),
        ensures
            r == resolve(self@, x),
            r matches Ok(v) ==> is_word(v as int),
    {
        if x <= WORD_MAX {
            Ok(x)
        } else if x <= 32775 {
            let v = self.regs[(x - REG_BASE) as usize];
            assert(is_word(self@.regs[reg_index(x)] as int));
            Ok(v)
        } else {
            Err(Fault::InvalidOperand(x))
        }
    }

    /// Reads a memory cell, which must hold a word.
    pub fn read_mem(&self, addr: u16) -> (r: Result<u16, Fault>)
        requires
            valid(self@),
            is_word(addr as int),
        ensures
            is_word(self@.mem[addr as int] as int) ==> r == Ok::<u16, Fault>(
                self@.mem[addr as int],
            ),
            !is_word(self@.mem[addr as int] as int) ==> r == Err::<u16, Fault>(
                Fault::BadMemoryWord(addr),
            ),
    {
        let v = self.mem[addr as usize];
        if v <= WORD_MAX {
            Ok(v)
        } else {
            Err(Fault::BadMemoryWord(addr))
        }
    }

    /// Stores a word at a raw destination field (see `write`).
    pub fn write_val(&mut self, x: u16, val: u16)
        requires
            valid(old(self)@),
            x <= 32775,
            is_word(val as int),
        ensures
            final(self)@ == write(old(self)@, x, val),
            valid(final(self)@),
    {
        if x > WORD_MAX {
            self.regs.set((x - REG_BASE) as usize, val);
        } else {
            self.mem.set(x as usize, val);
        }
    }

    /// The `k`-th word of the instruction at the program counter.
    fn field(&self, k: usize) -> (r: u16)
        requires
            valid(self@),
            self@.pc + k < 32768,
        ensures
            r == arg(self@, k as int),
    {
        self.mem[self.pc + k]
    }

    /// Executes `halt`.
    pub fn halt(&mut self)
        requires
            valid(old(self)@),
        ensures
            final(self)@ == halt_spec(old(self)@),
            valid(final(self)@),
    {
        self.halt_impl();
    }

    /// Executes `set`.
    pub fn set(&mut self)
        requires
            valid(old(self)@),
        ensures
            final(self)@ == set_spec(old(self)@),
            valid(final(self)@),
    {
        if self.pc + 3 > MEM_SIZE {
            self.error(Fault::AddressOutOfRange);
            return;
        }
        let a = self.field(1);
        if !self.is_reg(a) {
            self.error(Fault::NotRegister(a));
            return;
        }
        match self.read_val(self.field(2)) {
            Err(f) => self.error(f),
            Ok(b) => {
                self.write_val(a, b);
                self.pc = self.pc + 3;
            },
        }
    }

    /// Executes `push`.
    pub fn push(&mut self)
        requires
            valid(old(self)@),
        ensures
            final(self)@ == push_spec(old(self)@),
            valid(final(self)@),
    {
        if self.pc + 2 > MEM_SIZE {
            self.error(Fault::AddressOutOfRange);
            return;
        }
        match self.read_val(self.field(1)) {
            Err(f) => self.error(f),
            Ok(a) => {
                self.stack.push(a);
                self.pc = self.pc + 2;
                assert(self@.stack == old(self)@.stack.push(a));
            },
        }
    }

    /// Executes `pop`.
    pub fn pop(&mut self)
        requires
            valid(old(self)@),
        ensures
            final(self)@ == pop_spec(old(self)@),
            valid(final(self)@),
    {
        if self.pc + 2 > MEM_SIZE {
            self.error(Fault::AddressOutOfRange);
            return;
        }
        let a = self.field(1);
        if !self.is_reg(a) {
            self.error(Fault::NotRegister(a));
            return;
        }
        match self.stack.pop() {
            None => self.error(Fault::StackUnderflow),
            Some(v) => {
                assert(self@.stack =~= old(self)@.stack.drop_last());
                assert(is_word(old(self)@.stack[old(self)@.stack.len() - 1] as int));
                self.write_val(a, v);
                self.pc = self.pc + 2;
            },
        }
    }

    /// Executes the three-operand operation `op`.
    fn binary(&mut self, op: u16)
        requires
            valid(old(self)@),
            is_binary_op(op),
        ensures
            final(self)@ == binary_spec(old(self)@, op),
            valid(final(self)@),
    {
        if self.pc + 4 > MEM_SIZE {
            self.error(Fault::AddressOutOfRange);
            return;
        }
        let a = self.field(1);
        if !self.is_reg(a) {
            self.error(Fault::NotRegister(a));
            return;
        }
        let b = match self.read_val(self.field(2)) {
            Err(f) => {
                self.error(f);
                return;
            },
            Ok(b) => b,
        };
        let c = match self.read_val(self.field(3)) {
            Err(f) => {
                self.error(f);
                return;
            },
            Ok(c) => c,
        };
        let v = if op == 4 {
            if b == c { 1 } else { 0 }
        } else if op == 5 {
            if b > c { 1 } else { 0 }
        } else if op == 9 {
            add_words(b, c)
        } else if op == 10 {
            mult_words(b, c)
        } else if op == 11 {
            match mod_words(b, c) {
                None => {
                    self.error(Fault::DivideByZero);
                    return;
                },
                Some(r) => r,
            }
        } else if op == 12 {
            and_words(b, c)
        } else {
            or_words(b, c)
        };
        self.write_val(a, v);
        self.pc = self.pc + 4;
    }

    /// Executes `eq`: 1 when the two values are equal, else 0.
    pub fn eq(&mut self)
        requires
            valid(old(self)@),
        ensures
            final(self)@ == binary_spec(old(self)@, 4),
            valid(final(self)@),
    {
        self.binary(4);
    }

    /// Executes `gt`: 1 when the first value is greater, else 0.
    pub fn gt(&mut self)
        requires
            valid(old(self)@),
        ensures
            final(self)@ == binary_spec(old(self)@, 5),
            valid(final(self)@),
    {
        self.binary(5);
    }

    /// Executes `add`: the sum modulo 32768.
    pub fn add(&mut self)
        requires
            valid(old(self)@),
        ensures
            final(self)@ == binary_spec(old(self)@, 9),
            valid(final(self)@),
    {
        self.binary(9);
    }

    /// Executes `mult`: the product modulo 32768.
    pub fn mult(&mut self)
        requires
            valid(old(self)@),
        ensures
            final(self)@ == binary_spec(old(self)@, 10),
            valid(final(self)@),
    {
        self.binary(10);
    }

    /// Executes `mod`: the remainder; a zero divisor is a fault.
    pub fn mod_(&mut self)
        requires
            valid(old(self)@),
        ensures
            final(self)@ == binary_spec(old(self)@, 11),
            valid(final(self)@),
    {
        self.binary(11);
    }

    /// Executes `and`: bitwise and.
    pub fn and(&mut self)
        requires
            valid(old(self)@),
        ensures
            final(self)@ == binary_spec(old(self)@, 12),
            valid(final(self)@),
    {
        self.binary(12);
    }

    /// Executes `or`: bitwise or.
    pub fn or(&mut self)
        requires
            valid(old(self)@),
        ensures
            final(self)@ == binary_spec(old(self)@, 13),
            valid(final(self)@),
    {
        self.binary(13);
    }

    /// Executes `jmp`.
    pub fn jmp(&mut self)
        requires
            valid(old(self)@),
        ensures
            final(self)@ == jmp_spec(old(self)@),
            valid(final(self)@),
    {
        if self.pc + 2 > MEM_SIZE {
            self.error(Fault::AddressOutOfRange);
            return;
        }
        match self.read_val(self.field(1)) {
            Err(f) => self.error(f),
            Ok(a) => self.pc = a as usize,
        }
    }

    /// Executes `jt` (`when_zero` false) or `jf` (`when_zero` true).
    fn cond_jump(&mut self, when_zero: bool)
        requires
            valid(old(self)@),
        ensures
            final(self)@ == cond_jump_spec(old(self)@, when_zero),
            valid(final(self)@),
    {
        if self.pc + 3 > MEM_SIZE {
            self.error(Fault::AddressOutOfRange);
            return;
        }
        let a = match self.read_val(self.field(1)) {
            Err(f) => {
                self.error(f);
                return;
            },
            Ok(a) => a,
        };
        match self.read_val(self.field(2)) {
            Err(f) => self.error(f),
            Ok(b) => {
                if (a == 0) == when_zero {
                    self.pc = b as usize;
                } else {
                    self.pc = self.pc + 3;
                }
            },
        }
    }

    /// Executes `jt`: jumps when the value is nonzero.
    pub fn jt(&mut self)
        requires
            valid(old(self)@),
        ensures
            final(self)@ == cond_jump_spec(old(self)@, false),
            valid(final(self)@),
    {
        self.cond_jump(false);
    }

    /// Executes `jf`: jumps when the value is zero.
    pub fn jf(&mut self)
        requires
            valid(old(self)@),
        ensures
            final(self)@ == cond_jump_spec(old(self)@, true),
            valid(final(self)@),
    {
        self.cond_jump(true);
    }

    /// Executes `not`.
    pub fn not(&mut self)
        requires
            valid(old(self)@),
        ensures
            final(self)@ == not_spec(old(self)@),
            valid(final(self)@),
    {
        if self.pc + 3 > MEM_SIZE {
            self.error(Fault::AddressOutOfRange);
            return;
        }
        let a = self.field(1);
        if !self.is_reg(a) {
            self.error(Fault::NotRegister(a));
            return;
        }
        match self.read_val(self.field(2)) {
            Err(f) => self.error(f),
            Ok(b) => {
                let v = not_word(b);
                self.write_val(a, v);
                self.pc = self.pc + 3;
            },
        }
    }

    /// Executes `rmem`.
    pub fn rmem(&mut self)
        requires
            valid(old(self)@),
        ensures
            final(self)@ == rmem_spec(old(self)@),
            valid(final(self)@),
    {
        if self.pc + 3 > MEM_SIZE {
            self.error(Fault::AddressOutOfRange);
            return;
        }
        let a = self.field(1);
        if !self.is_reg(a) {
            self.error(Fault::NotRegister(a));
            return;
        }
        let b = match self.read_val(self.field(2)) {
            Err(f) => {
                self.error(f);
                return;
            },
            Ok(b) => b,
        };
        match self.read_mem(b) {
            Err(f) => self.error(f),
            Ok(v) => {
                self.write_val(a, v);
                self.pc = self.pc + 3;
            },
        }
    }

    /// Executes `wmem`.
    pub fn wmem(&mut self)
        requires
            valid(old(self)@),
        ensures
            final(self)@ == wmem_spec(old(self)@),
            valid(final(self)@),
    {
        if self.pc + 3 > MEM_SIZE {
            self.error(Fault::AddressOutOfRange);
            return;
        }
        let a = match self.read_val(self.field(1)) {
            Err(f) => {
                self.error(f);
                return;
            },
            Ok(a) => a,
        };
        match self.read_val(self.field(2)) {
            Err(f) => self.error(f),
            Ok(b) => {
                self.write_val(a, b);
                self.pc = self.pc + 3;
            },
        }
    }

    /// Executes `call`.
    pub fn call(&mut self)
        requires
            valid(old(self)@),
        ensures
            final(self)@ == call_spec(old(self)@),
            valid(final(self)@),
    {
        if self.pc + 2 > MEM_SIZE {
            self.error(Fault::AddressOutOfRange);
            return;
        }
        match self.read_val(self.field(1)) {
            Err(f) => self.error(f),
            Ok(a) => {
                if self.pc + 2 > WORD_MAX as usize {
                    self.error(Fault::AddressOutOfRange);
                } else {
                    self.stack.push((self.pc + 2) as u16);
                    self.pc = a as usize;
                }
            },
        }
    }

    /// Executes `ret`.
    pub fn ret(&mut self)
        requires
            valid(old(self)@),
        ensures
            final(self)@ == ret_spec(old(self)@),
            valid(final(self)@),
            old(self)@.stack.len() == 0 ==> final(self)@.state == State::Halted,
    {
        match self.stack.pop() {
            None => self.halt_impl(),
            Some(v) => {
                assert(self@.stack =~= old(self)@.stack.drop_last());
                assert(is_word(old(self)@.stack[old(self)@.stack.len() - 1] as int));
                self.pc = v as usize;
            },
        }
    }

    /// Executes `out`, handing back the character to emit.
    pub fn out(&mut self) -> (r: Event)
        requires
            valid(old(self)@),
        ensures
            (final(self)@, r) == out_spec(old(self)@),
            valid(final(self)@),
    {
        if self.pc + 2 > MEM_SIZE {
            self.error(Fault::AddressOutOfRange);
            return Event::Nothing;
        }
        match self.read_val(self.field(1)) {
            Err(f) => {
                self.error(f);
                Event::Nothing
            },
            Ok(a) => {
                self.pc = self.pc + 2;
                Event::Output((a % 256) as u8)
            },
        }
    }

    /// Executes `in`, or asks for a line when the input buffer is empty.
    pub fn in_(&mut self) -> (r: Event)
        requires
            valid(old(self)@),
        ensures
            (final(self)@, r) == in_spec(old(self)@),
            valid(final(self)@),
    {
        if self.pc + 2 > MEM_SIZE {
            self.error(Fault::AddressOutOfRange);
            return Event::Nothing;
        }
        let a = self.field(1);
        if !self.is_reg(a) {
            self.error(Fault::NotRegister(a));
            return Event::Nothing;
        }
        if self.input.len() == 0 {
            return Event::NeedInput;
        }
        let ch = self.input.remove(0);
        assert(self@.input =~= old(self)@.input.drop_first());
        self.write_val(a, ch as u16);
        self.pc = self.pc + 2;
        Event::Nothing
    }

    /// Executes `noop`.
    pub fn noop(&mut self)
        requires
            valid(old(self)@),
        ensures
            final(self)@ == noop_spec(old(self)@),
            valid(final(self)@),
    {
        if self.pc + 1 > MEM_SIZE {
            self.error(Fault::AddressOutOfRange);
            return;
        }
        self.pc = self.pc + 1;
    }

    /// Executes one instruction of a running machine; a stopped one is left as it is.
    pub fn step(&mut self) -> (r: Event)
        requires
            valid(old(self)@),
        ensures
            (final(self)@, r) == step_spec(old(self)@),
            valid(final(self)@),
    {
        if self.state != State::Running {
            return Event::Nothing;
        }
        if self.pc >= MEM_SIZE {
            self.error(Fault::AddressOutOfRange);
            return Event::Nothing;
        }
        let op = self.mem[self.pc];
        match op {
            0 => self.halt(),
            1 => self.set(),
            2 => self.push(),
            3 => self.pop(),
            4 => self.eq(),
            5 => self.gt(),
            6 => self.jmp(),
            7 => self.jt(),
            8 => self.jf(),
            9 => self.add(),
            10 => self.mult(),
            11 => self.mod_(),
            12 => self.and(),
            13 => self.or(),
            14 => self.not(),
            15 => self.rmem(),
            16 => self.wmem(),
            17 => self.call(),
            18 => self.ret(),
            19 => return self.out(),
            20 => return self.in_(),
            21 => self.noop(),
            _ => self.error(Fault::Unimplemented(op)),
        }
        Event::Nothing
    }

    /// Steps the machine until it stops, an `in` needs a line, or `fuel`
    /// steps are taken; the emitted characters are appended to `out`.
    pub fn run(&mut self, fuel: u64, out: &mut Vec<u8>) -> (r: Stop)
        requires
            valid(old(self)@),
        ensures
            valid(final(self)@),
            final(self)@ == run_spec(old(self)@, fuel as nat).0,
            final(out)@ == old(out)@ + run_spec(old(self)@, fuel as nat).1,
            r == run_spec(old(self)@, fuel as nat).2,
    {
        let ghost m0 = self@;
        let ghost o0 = out@;
        let mut left: u64 = fuel;
        loop
            invariant
                valid(self@),
                m0 == old(self)@,
                o0 == old(out)@,
                left <= fuel,
                run_spec(m0, fuel as nat).0 == run_spec(self@, left as nat).0,
                run_spec(m0, fuel as nat).2 == run_spec(self@, left as nat).2,
                o0 + run_spec(m0, fuel as nat).1 == out@ + run_spec(self@, left as nat).1,
            decreases left,
        {
            if self.state != State::Running {
                assert(out@ + run_spec(self@, left as nat).1 =~= out@);
                return Stop::Finished;
            }
            if left == 0 {
                assert(out@ + run_spec(self@, left as nat).1 =~= out@);
                return Stop::OutOfFuel;
            }
            let ghost before = self@;
            let e = self.step();
            left = left - 1;
            match e {
                Event::NeedInput => {
                    assert(out@ + run_spec(before, (left + 1) as nat).1 =~= out@);
                    return Stop::NeedInput;
                },
                Event::Output(b) => {
                    let ghost o1 = out@;
                    out.push(b);
                    assert(o1 + (seq![b] + run_spec(self@, left as nat).1) =~= out@ + run_spec(
                        self@,
                        left as nat,
                    ).1);
                },
                Event::Nothing => {},
            }
        }
    }

    /// The `i`-th little-endian word of a byte image.
    pub fn read_num(image: &[u8], i: usize) -> (r: u16)
        requires
            2 * i + 1 < image@.len(),
        ensures
            r == word_at(image@, i as int),
    {
        let len = image.len();
        assert(2 * i + 1 < len);
        image[2 * i] as u16 + image[2 * i + 1] as u16 * 256
    }

    /// Loads a program image, a flat sequence of little-endian words, into
    /// memory from address 0; a trailing odd byte is ignored. Returns the
    /// number of words loaded.
    pub fn load_bin(&mut self, image: &[u8]) -> (r: Result<usize, LoadError>)
        requires
            valid(old(self)@),
        ensures
            valid(final(self)@),
            image@.len() / 2 <= 32768 <==> r is Ok,
            r is Ok ==> r == Ok::<usize, LoadError>((image@.len() / 2) as usize) && final(self)@
                == (MachineView {
                mem: loaded(old(self)@.mem, image@, (image@.len() / 2) as int),
                ..old(self)@
            }),
            r is Err ==> r == Err::<usize, LoadError>(LoadError::TooLarge) && final(self)@ == old(
                self,
            )@,
    {
        let n = image.len() / 2;
        if n > MEM_SIZE {
            return Err(LoadError::TooLarge);
        }
        let ghost m0 = self@;
        assert(m0.mem =~= loaded(m0.mem, image@, 0));
        let mut i: usize = 0;
        while i < n
            invariant
                valid(m0),
                valid(self@),
                n == image@.len() / 2,
                n <= MEM_SIZE,
                i <= n,
                self@ == (MachineView { mem: loaded(m0.mem, image@, i as int), ..m0 }),
            decreases n - i,
        {
            let w = VM::read_num(image, i);
            self.mem.set(i, w);
            i = i + 1;
            assert(self@.mem =~= loaded(m0.mem, image@, i as int));
        }
        Ok(n)
    }

    /// Appends an input script to the input buffer, with every carriage
    /// return taken out.
    pub fn load_input(&mut self, script: &[u8])
        requires
            valid(old(self)@),
        ensures
            valid(final(self)@),
            final(self)@ == (MachineView {
                input: old(self)@.input + strip_cr(script@),
                ..old(self)@
            }),
    {
        let ghost m0 = self@;
        let mut i: usize = 0;
        assert(script@.subrange(0, 0) =~= Seq::<u8>::empty());
        assert(m0.input + Seq::<u8>::empty() =~= m0.input);
        while i < script.len()
            invariant
                valid(m0),
                valid(self@),
                i <= script@.len(),
                self@ == (MachineView {
                    input: m0.input + strip_cr(script@.subrange(0, i as int)),
                    ..m0
                }),
            decreases script@.len() - i,
        {
            let b = script[i];
            assert(script@.subrange(0, i + 1).drop_last() =~= script@.subrange(0, i as int));
            if b != 13 {
                self.input.push(b);
            }
            i = i + 1;
            assert(self@.input =~= m0.input + strip_cr(script@.subrange(0, i as int)));
        }
        assert(script@.subrange(0, script@.len() as int) =~= script@);
    }

    /// Queues one line from the host for `in`: its terminator, a line feed
    /// or a carriage return and line feed, is taken off, and a single line
    /// feed (10) is put in its place whatever the host wrote.
    pub fn feed_line(&mut self, line: &[u8])
        requires
            valid(old(self)@),
        ensures
            valid(final(self)@),
            final(self)@ == (MachineView {
                input: old(self)@.input + without_terminator(line@).push(10),
                ..old(self)@
            }),
    {
        let ghost m0 = self@;
        let len = line.len();
        let end: usize = if len >= 2 && line[len - 2] == 13 && line[len - 1] == 10 {
            len - 2
        } else if len >= 1 && line[len - 1] == 10 {
            len - 1
        } else {
            len
        };
        assert(line@.subrange(0, line@.len() as int) =~= line@);
        assert(without_terminator(line@) == line@.subrange(0, end as int));
        let mut i: usize = 0;
        assert(line@.subrange(0, 0) =~= Seq::<u8>::empty());
        assert(m0.input + Seq::<u8>::empty() =~= m0.input);
        while i < end
            invariant
                valid(m0),
                valid(self@),
                i <= end,
                end <= line@.len(),
                self@ == (MachineView {
                    input: m0.input + line@.subrange(0, i as int),
                    ..m0
                }),
            decreases end - i,
        {
            self.input.push(line[i]);
            i = i + 1;
            assert(self@.input =~= m0.input + line@.subrange(0, i as int));
        }
        self.input.push(10);
        assert(self@.input =~= m0.input + without_terminator(line@).push(10));
    }

    /// The program counter.
    pub fn pc(&self) -> (r: usize)
        ensures
            r == self@.pc,
    {
        self.pc
    }

    /// The execution state.
    pub fn state(&self) -> (r: State)
        ensures
            r == self@.state,
    {
        self.state
    }

    /// The content of register `i`.
    pub fn reg(&self, i: usize) -> (r: u16)
        requires
            valid(self@),
            i < 8,
        ensures
            r == self@.regs[i as int],
    {
        self.regs[i]
    }

    /// The content of the memory cell at `addr`.
    pub fn mem_at(&self, addr: usize) -> (r: u16)
        requires
            valid(self@),
            addr < MEM_SIZE,
        ensures
            r == self@.mem[addr as int],
    {
        self.mem[addr]
    }

    /// The number of words on the stack.
    pub fn stack_len(&self) -> (r: usize)
        ensures
            r == self@.stack.len(),
    {
        self.stack.len()
    }
}

} // verus!
