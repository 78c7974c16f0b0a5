use vstd::prelude::*;
use crate::machine::{resolve, step_spec, valid, Fault, MachineView, State};
use crate::word::{is_reg_field, is_word, reg_index};

verus! {

/// A step keeps a machine valid: registers and stack hold words only, and
/// the program counter stays within one past memory.
pub proof fn step_keeps_valid(m: MachineView)
    requires
        valid(m),
    ensures
        valid(step_spec(m).0),
{
    if m.state == State::Running && m.pc < 32768 {
        let op = m.mem[m.pc];
        if op == 12 || op == 13 {
            if m.pc + 4 <= 32768 {
                let f2 = m.mem[m.pc + 2];
                let f3 = m.mem[m.pc + 3];
                if let (Ok(b), Ok(c)) = (resolve(m, f2), resolve(m, f3)) {
                    assert(is_word(b as int)) by {
                        if f2 > 32767 {
                            assert(is_word(m.regs[reg_index(f2)] as int));
                        }
                    }
                    assert(is_word(c as int)) by {
                        if f3 > 32767 {
                            assert(is_word(m.regs[reg_index(f3)] as int));
                        }
                    }
                    assert(b & c <= 32767 && (b | c) <= 32767) by (bit_vector)
                        requires
                            b <= 32767,
                            c <= 32767,
                    ;
                }
            }
        }
    }
}

/// Last in, first out: after a `push` of the value `v`, a `pop` into a
/// register, reached with the stack as the push left it, puts `v` in that
/// register and leaves the stack as it was before the push.
pub proof fn pop_returns_pushed(m: MachineView, v: u16, later: MachineView)
    requires
        valid(m),
        m.state == State::Running,
        m.pc + 2 <= 32768,
        m.mem[m.pc] == 2,
        resolve(m, m.mem[m.pc + 1]) == Ok::<u16, Fault>(v),
        valid(later),
        later.state == State::Running,
        later.pc + 2 <= 32768,
        later.mem[later.pc] == 3,
        is_reg_field(later.mem[later.pc + 1]),
        later.stack == step_spec(m).0.stack,
    ensures
        step_spec(m).0.state == State::Running,
        step_spec(later).0.state == State::Running,
        step_spec(later).0.regs[reg_index(later.mem[later.pc + 1])] == v,
        step_spec(later).0.stack == m.stack,
        step_spec(later).0.pc == later.pc + 2,
{
    assert(step_spec(m).0.stack == m.stack.push(v));
    assert(m.stack.push(v).drop_last() =~= m.stack);
}

/// `push a` immediately followed by `pop r` leaves register `r` holding the
/// value of `a` and the stack as it was.
pub proof fn push_then_pop_restores(m: MachineView, v: u16)
    requires
        valid(m),
        m.state == State::Running,
        m.pc + 4 <= 32768,
        m.mem[m.pc] == 2,
        m.mem[m.pc + 2] == 3,
        is_reg_field(m.mem[m.pc + 3]),
        resolve(m, m.mem[m.pc + 1]) == Ok::<u16, Fault>(v),
    ensures
        step_spec(step_spec(m).0).0.state == State::Running,
        step_spec(step_spec(m).0).0.regs[reg_index(m.mem[m.pc + 3])] == v,
        step_spec(step_spec(m).0).0.stack == m.stack,
        step_spec(step_spec(m).0).0.pc == m.pc + 4,
{
    step_keeps_valid(m);
    pop_returns_pushed(m, v, step_spec(m).0);
}

/// A `call` whose return address lies in memory, and a `ret` reached later
/// with the stack as the call left it: the `ret` goes back to the word right
/// after the call (its address plus 2) and restores the stack.
pub proof fn ret_returns_after_call(m: MachineView, later: MachineView)
    requires
        valid(m),
        m.state == State::Running,
        m.pc + 2 <= 32767,
        m.mem[m.pc] == 17,
        resolve(m, m.mem[m.pc + 1]) is Ok,
        later.state == State::Running,
        0 <= later.pc < 32768,
        later.mem.len() == 32768,
        later.mem[later.pc] == 18,
        later.stack == step_spec(m).0.stack,
    ensures
        step_spec(m).0.state == State::Running,
        step_spec(later).0.state == State::Running,
        step_spec(later).0.pc == m.pc + 2,
        step_spec(later).0.stack == m.stack,
{
    assert(m.stack.push((m.pc + 2) as u16).drop_last() =~= m.stack);
}

/// `call` immediately followed by the `ret` at its target returns to the
/// word right after the call.
pub proof fn call_then_ret_returns(m: MachineView, target: u16)
    requires
        valid(m),
        m.state == State::Running,
        m.pc + 2 <= 32767,
        m.mem[m.pc] == 17,
        resolve(m, m.mem[m.pc + 1]) == Ok::<u16, Fault>(target),
        m.mem[target as int] == 18,
    ensures
        step_spec(m).0.pc == target,
        step_spec(step_spec(m).0).0.state == State::Running,
        step_spec(step_spec(m).0).0.pc == m.pc + 2,
        step_spec(step_spec(m).0).0.stack == m.stack,
{
    step_keeps_valid(m);
    ret_returns_after_call(m, step_spec(m).0);
}

/// `ret` on an empty stack ends the run normally, never with a fault.
pub proof fn ret_on_empty_stack_halts(m: MachineView)
    requires
        m.state == State::Running,
        0 <= m.pc < 32768,
        m.mem[m.pc] == 18,
        m.stack.len() == 0,
    ensures
        step_spec(m).0.state == State::Halted,
{
}

/// `pop` on an empty stack is a fault: it never does nothing.
pub proof fn pop_on_empty_stack_faults(m: MachineView)
    requires
        m.state == State::Running,
        0 <= m.pc < 32768,
        m.mem[m.pc] == 3,
        m.stack.len() == 0,
    ensures
        step_spec(m).0.state matches State::Faulted(_),
        is_reg_field(m.mem[m.pc + 1]) && m.pc + 2 <= 32768 ==> step_spec(m).0.state
            == State::Faulted(Fault::StackUnderflow),
{
}

} // verus!
