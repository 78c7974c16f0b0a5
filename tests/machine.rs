use synacor_vm::machine::{Event, Fault, LoadError, State, Stop, VM};

fn image(words: &[u16]) -> Vec<u8> {
    let mut bytes = Vec::new();
    for w in words {
        bytes.push((w & 0xff) as u8);
        bytes.push((w >> 8) as u8);
    }
    bytes
}

fn machine(words: &[u16]) -> VM {
    let mut vm = VM::new();
    assert_eq!(vm.load_bin(&image(words)), Ok(words.len()));
    vm
}

fn run_all(vm: &mut VM) -> (Stop, Vec<u8>) {
    let mut out = Vec::new();
    let stop = vm.run(1_000_000, &mut out);
    (stop, out)
}

#[test]
fn prints_a_then_halts() {
    let mut vm = machine(&[19, 65]);
    let (stop, out) = run_all(&mut vm);
    assert_eq!(out, b"A".to_vec());
    assert_eq!(stop, Stop::Finished);
    assert_eq!(vm.state(), State::Halted);
    assert_eq!(vm.pc(), 2);
}

#[test]
fn add_literals_into_register_zero() {
    let mut vm = machine(&[9, 32768, 4, 6, 21]);
    let (stop, out) = run_all(&mut vm);
    assert_eq!(stop, Stop::Finished);
    assert!(out.is_empty());
    assert_eq!(vm.reg(0), 10);
    assert_eq!(vm.state(), State::Halted);
}

#[test]
fn jump_skips_out() {
    let mut vm = machine(&[6, 4, 19, 88, 0]);
    let (stop, out) = run_all(&mut vm);
    assert_eq!(stop, Stop::Finished);
    assert!(out.is_empty());
    assert_eq!(vm.state(), State::Halted);
    assert_eq!(vm.pc(), 4);
}

#[test]
fn add_and_mult_largest_words() {
    // r0 = 32767 + 32767, r1 = 32767 * 32767
    let mut vm = machine(&[9, 32768, 32767, 32767, 10, 32769, 32767, 32767, 0]);
    run_all(&mut vm);
    assert_eq!(vm.reg(0), 32766);
    assert_eq!(vm.reg(1), 1);
}

#[test]
fn not_through_register() {
    let mut vm = machine(&[1, 32768, 5, 14, 32769, 32768, 0]);
    run_all(&mut vm);
    assert_eq!(vm.reg(1), 32762);
    assert_eq!(vm.state(), State::Halted);
}

#[test]
fn mod_by_zero_faults() {
    let mut vm = machine(&[11, 32768, 7, 0, 0]);
    let (stop, _) = run_all(&mut vm);
    assert_eq!(stop, Stop::Finished);
    assert_eq!(vm.state(), State::Faulted(Fault::DivideByZero));
    assert_eq!(vm.pc(), 0);
}

#[test]
fn mod_remainder() {
    let mut vm = machine(&[11, 32768, 17, 5, 0]);
    run_all(&mut vm);
    assert_eq!(vm.reg(0), 2);
}

#[test]
fn eq_gt_and_or() {
    let mut vm = machine(&[
        4, 32768, 3, 3, // r0 = 3 == 3
        5, 32769, 2, 3, // r1 = 2 > 3
        12, 32770, 12, 10, // r2 = 12 & 10
        13, 32771, 12, 10, // r3 = 12 | 10
        0,
    ]);
    run_all(&mut vm);
    assert_eq!(vm.reg(0), 1);
    assert_eq!(vm.reg(1), 0);
    assert_eq!(vm.reg(2), 8);
    assert_eq!(vm.reg(3), 14);
}

#[test]
fn push_then_pop_restores_value() {
    // push 42; push 7; pop r0; pop r1
    let mut vm = machine(&[2, 42, 2, 7, 3, 32768, 3, 32769, 0]);
    run_all(&mut vm);
    assert_eq!(vm.reg(0), 7);
    assert_eq!(vm.reg(1), 42);
    assert_eq!(vm.stack_len(), 0);
}

#[test]
fn call_then_ret_returns_after_call() {
    // 0: call 5; 2: out 'B'; 4: halt; 5: ret
    let mut vm = machine(&[17, 5, 19, 66, 0, 18]);
    let (stop, out) = run_all(&mut vm);
    assert_eq!(stop, Stop::Finished);
    assert_eq!(out, b"B".to_vec());
    assert_eq!(vm.state(), State::Halted);
    assert_eq!(vm.pc(), 4);
    assert_eq!(vm.stack_len(), 0);
}

#[test]
fn ret_on_empty_stack_halts() {
    let mut vm = machine(&[18]);
    run_all(&mut vm);
    assert_eq!(vm.state(), State::Halted);
}

#[test]
fn pop_on_empty_stack_faults() {
    let mut vm = machine(&[3, 32768]);
    run_all(&mut vm);
    assert_eq!(vm.state(), State::Faulted(Fault::StackUnderflow));
}

#[test]
fn unknown_opcode_faults() {
    let mut vm = machine(&[22]);
    run_all(&mut vm);
    assert_eq!(vm.state(), State::Faulted(Fault::Unimplemented(22)));
}

#[test]
fn literal_destination_faults() {
    let mut vm = machine(&[1, 5, 7]);
    run_all(&mut vm);
    assert_eq!(vm.state(), State::Faulted(Fault::NotRegister(5)));
}

#[test]
fn field_above_registers_faults() {
    let mut vm = machine(&[19, 32776]);
    run_all(&mut vm);
    assert_eq!(vm.state(), State::Faulted(Fault::InvalidOperand(32776)));
}

#[test]
fn rmem_of_non_word_faults() {
    // cell 3 holds a register field, which is no word
    let mut vm = machine(&[15, 32768, 3, 32768]);
    run_all(&mut vm);
    assert_eq!(vm.state(), State::Faulted(Fault::BadMemoryWord(3)));
}

#[test]
fn wmem_then_rmem() {
    // wmem 100 77; rmem r0 100
    let mut vm = machine(&[16, 100, 77, 15, 32768, 100, 0]);
    run_all(&mut vm);
    assert_eq!(vm.mem_at(100), 77);
    assert_eq!(vm.reg(0), 77);
}

#[test]
fn conditional_jumps() {
    // jt 0 7 (no jump); jf 0 9 (jump); 6: out 'X'; 9: out 'Y'; halt
    let mut vm = machine(&[7, 0, 7, 8, 0, 9, 0, 19, 88, 19, 89, 0]);
    let (_, out) = run_all(&mut vm);
    assert_eq!(out, b"Y".to_vec());
    let mut vm = machine(&[7, 1, 5, 19, 88, 19, 89, 0]);
    let (_, out) = run_all(&mut vm);
    assert_eq!(out, b"Y".to_vec());
}

#[test]
fn running_off_memory_faults() {
    let mut vm = VM::new();
    let mut words = vec![21u16; 32768];
    words[32767] = 19;
    assert_eq!(vm.load_bin(&image(&words)), Ok(32768));
    let mut out = Vec::new();
    let stop = vm.run(100_000, &mut out);
    assert_eq!(stop, Stop::Finished);
    assert_eq!(vm.state(), State::Faulted(Fault::AddressOutOfRange));
    assert_eq!(vm.pc(), 32767);
}

#[test]
fn out_of_fuel_keeps_running() {
    // jmp 0 forever
    let mut vm = machine(&[6, 0]);
    let mut out = Vec::new();
    assert_eq!(vm.run(10, &mut out), Stop::OutOfFuel);
    assert_eq!(vm.state(), State::Running);
}

#[test]
fn input_is_read_a_line_at_a_time() {
    // in r0; in r1; in r2; halt
    let mut vm = machine(&[20, 32768, 20, 32769, 20, 32770, 0]);
    let mut out = Vec::new();
    assert_eq!(vm.run(100, &mut out), Stop::NeedInput);
    assert_eq!(vm.pc(), 0);
    vm.feed_line(b"hi \r\n");
    assert_eq!(vm.run(100, &mut out), Stop::Finished);
    assert_eq!(vm.reg(0), b'h' as u16);
    assert_eq!(vm.reg(1), b'i' as u16);
    assert_eq!(vm.reg(2), b' ' as u16);
}

fn read_line_back(line: &[u8]) -> (Stop, Vec<u16>) {
    // in r0; in r1; in r2; halt
    let mut vm = machine(&[20, 32768, 20, 32769, 20, 32770, 0]);
    vm.feed_line(line);
    let mut out = Vec::new();
    let stop = vm.run(100, &mut out);
    (stop, vec![vm.reg(0), vm.reg(1), vm.reg(2)])
}

#[test]
fn line_keeps_trailing_space_and_ends_in_one_newline() {
    assert_eq!(read_line_back(b"a \n"), (Stop::Finished, vec![97, 32, 10]));
    assert_eq!(read_line_back(b"ab"), (Stop::Finished, vec![97, 98, 10]));
    // the two bytes "a" and a line feed are used up, and the third read asks for more
    assert_eq!(read_line_back(b"a\r\n"), (Stop::NeedInput, vec![97, 10, 0]));
}

#[test]
fn in_with_literal_destination_faults() {
    let mut vm = machine(&[20, 5, 0]);
    vm.load_input(b"x");
    let mut out = Vec::new();
    assert_eq!(vm.run(100, &mut out), Stop::Finished);
    assert_eq!(vm.state(), State::Faulted(Fault::NotRegister(5)));
    assert_eq!(vm.mem_at(5), 0);
}

#[test]
fn not_with_literal_destination_faults() {
    let mut vm = machine(&[14, 5, 3, 0]);
    let mut out = Vec::new();
    assert_eq!(vm.run(100, &mut out), Stop::Finished);
    assert_eq!(vm.state(), State::Faulted(Fault::NotRegister(5)));
    assert_eq!(vm.mem_at(5), 0);
}

#[test]
fn input_script_drops_carriage_returns() {
    let mut vm = machine(&[20, 32768, 20, 32769, 0]);
    vm.load_input(b"\r\nz");
    let mut out = Vec::new();
    assert_eq!(vm.run(100, &mut out), Stop::Finished);
    assert_eq!(vm.reg(0), 10);
    assert_eq!(vm.reg(1), b'z' as u16);
}

#[test]
fn step_reports_output_and_input_need() {
    let mut vm = machine(&[19, 300, 20, 32768]);
    assert_eq!(vm.step(), Event::Output(44));
    assert_eq!(vm.step(), Event::NeedInput);
    vm.error(Fault::InputError);
    assert_eq!(vm.state(), State::Faulted(Fault::InputError));
    assert_eq!(vm.step(), Event::Nothing);
}

#[test]
fn loader_reads_little_endian_and_ignores_odd_byte() {
    let mut vm = VM::new();
    assert_eq!(vm.load_bin(&[0x34, 0x12, 0xff, 0x7f, 0x09]), Ok(2));
    assert_eq!(vm.mem_at(0), 0x1234);
    assert_eq!(vm.mem_at(1), 0x7fff);
    assert_eq!(vm.mem_at(2), 0);
    assert_eq!(VM::read_num(&[1, 2, 3, 4], 1), 0x0403);
}

#[test]
fn loader_rejects_oversized_image() {
    let mut vm = VM::new();
    let bytes = vec![0u8; 2 * 32768 + 2];
    assert_eq!(vm.load_bin(&bytes), Err(LoadError::TooLarge));
}
