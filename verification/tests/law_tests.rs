use chip8::assembly::compile;
use chip8::input::to_key;
use chip8::machine::{Action, Chip8};

#[test]
fn assembled_jump_lands_on_its_target() {
    let image = compile(b"JUMP 600");
    let mut machine = Chip8::new();
    machine.load_program(&image[512..]);
    machine.start();
    assert_eq!(machine.read_op(512), 1);
    assert_eq!(machine.read_nnn(512), 600);
    assert_eq!(machine.step(false, 0), Action::Continue);
    assert_eq!(machine.pc(), 600);
}

#[test]
fn operand_fields_recombine() {
    let mut machine = Chip8::new();
    machine.write_memory(10, 0xAB);
    machine.write_memory(11, 0xCD);
    assert_eq!(machine.read_op(10) * 16 + machine.read_x(10), 0xAB);
    assert_eq!(machine.read_y(10) * 16 + machine.read_n(10), machine.read_nn(10));
    assert_eq!(machine.read_x(10) as u16 * 256 + machine.read_nn(10) as u16, machine.read_nnn(10));
}

#[test]
fn return_comes_back_after_the_call() {
    let mut machine = Chip8::new();
    machine.load_program(&[0x23, 0x00]);
    machine.write_memory(0x300, 0x00);
    machine.write_memory(0x301, 0xEE);
    machine.start();
    machine.step(false, 0);
    assert_eq!(machine.pc(), 0x300);
    machine.step(false, 0);
    assert_eq!(machine.pc(), 514);
    // the stack is empty again: a second return fails
    machine.write_memory(514, 0x00);
    machine.write_memory(515, 0xEE);
    assert!(machine.next_fault().is_some());
}

#[test]
fn key_state_matters_only_when_asked() {
    for pressed in [false, true] {
        let mut machine = Chip8::new();
        machine.load_program(&[0x61, 0x05, 0x71, 0x01]);
        machine.start();
        assert_eq!(machine.key_to_check(), None);
        machine.step(pressed, 0);
        machine.step(pressed, 0);
        assert_eq!(machine.read_register(1), 6);
        assert_eq!(machine.pc(), 516);
    }
}

#[test]
fn random_byte_matters_only_for_cxnn() {
    for value in [0u8, 0x5A, 0xFF] {
        let mut machine = Chip8::new();
        machine.load_program(&[0x61, 0x05, 0x71, 0x01]);
        machine.start();
        machine.step(false, value);
        machine.step(false, value);
        assert_eq!(machine.read_register(1), 6);
    }
}

#[test]
fn keypad_keys_are_distinct() {
    for a in 0u8..16 {
        for b in 0u8..16 {
            assert_eq!(to_key(a) == to_key(b), a == b);
        }
    }
}

#[test]
fn register_and_memory_writes_read_back() {
    let mut machine = Chip8::new();
    machine.write_register(3, 9);
    machine.write_memory(100, 7);
    assert_eq!(machine.read_register(3), 9);
    assert_eq!(machine.read_register(4), 0);
    assert_eq!(machine.read_memory(100), 7);
    assert_eq!(machine.read_memory(101), 0);
}
