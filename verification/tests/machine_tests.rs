use chip8::input::{to_key, Key};
use chip8::machine::{Action, Chip8, Fault, PIXEL_ON};

/// Runs the program at the program start until it halts.
fn run(machine: &mut Chip8) {
    assert!(!machine.is_running());
    machine.start();
    loop {
        if let Some(fault) = machine.next_fault() {
            panic!("{:?}", fault);
        }
        if machine.cycle(false) == Action::Halt {
            break;
        }
    }
}

/// Steps the machine once, or tells why it cannot.
fn try_step(machine: &mut Chip8, pressed: bool, value: u8) -> Result<Action, Fault> {
    match machine.next_fault() {
        Some(fault) => Err(fault),
        None => Ok(machine.step(pressed, value)),
    }
}

/// Loads `program` at the program start and steps it once with the given inputs.
fn step_once(machine: &mut Chip8, program: &[u8], pressed: bool, value: u8) -> Result<Action, Fault> {
    machine.load_program(program);
    machine.start();
    try_step(machine, pressed, value)
}

#[test]
fn nibble_reading() {
    let mut machine = Chip8::new();
    machine.write_memory(0, 0b0000_0001_u8);
    machine.write_memory(1, 0b0010_0011_u8);
    assert_eq!(machine.read_n(0), 3);
    assert_eq!(machine.read_x(0), 1);
    assert_eq!(machine.read_y(0), 2);
    assert_eq!(machine.read_nn(0), 0b0010_0011_u8);
    assert_eq!(machine.read_nnn(0), 0b0000_0001_0010_0011_u16);
}

#[test]
fn main_test() {
    let mut machine = Chip8::new();
    machine.write_register(0, 2);
    machine.write_register(1, 1);
    machine.write_memory(512, 0b1000_0000_u8);
    machine.write_memory(513, 0b0001_0101_u8);
    machine.write_memory(514, 0b0001_1111_u8);
    machine.write_memory(515, 0b1110_0000_u8);
    run(&mut machine);
    assert_eq!(machine.read_register(0), 1);
    assert_eq!(machine.read_register(15), 1);
    machine.write_register(0, 2);
    machine.write_register(1, 1);
    machine.write_memory(512, 0b1000_0000_u8);
    machine.write_memory(513, 0b0001_0111_u8);
    machine.write_memory(514, 0b0001_1111_u8);
    machine.write_memory(515, 0b1110_0000_u8);
    run(&mut machine);
    assert_eq!(machine.read_register(0), 255);
    assert_eq!(machine.read_register(15), 0);
    bitshift(&mut machine);
}

fn bitshift(machine: &mut Chip8) {
    machine.write_register(1, 1);
    machine.write_memory(512, 0b1000_0000_u8);
    machine.write_memory(513, 0b0001_1110_u8);
    machine.write_memory(514, 0b0001_1111_u8);
    machine.write_memory(515, 0b1110_0000_u8);
    run(machine);
    assert_eq!(machine.read_register(0), 2);
    assert_eq!(machine.read_register(15), 0);

    machine.write_register(1, 0xFF);
    machine.write_memory(512, 0b1000_0000_u8);
    machine.write_memory(513, 0b0001_1110_u8);
    machine.write_memory(514, 0b0001_1111_u8);
    machine.write_memory(515, 0b1110_0000_u8);
    run(machine);
    assert_eq!(machine.read_register(0), 0b1111_1110_u8);
    assert_eq!(machine.read_register(15), 1);

    machine.write_register(1, 1);
    machine.write_memory(512, 0x80);
    machine.write_memory(513, 0x16);
    machine.write_memory(514, 0b0001_1111_u8);
    machine.write_memory(515, 0b1110_0000_u8);
    run(machine);
    assert_eq!(machine.read_register(0), 0);
    assert_eq!(machine.read_register(15), 1);
    subroutine_test(machine);
}

fn subroutine_test(machine: &mut Chip8) {
    machine.write_memory(512, 0x22); // CALL 600
    machine.write_memory(513, 0x58);
    machine.write_memory(514, 0x60); // V0 = 2
    machine.write_memory(515, 0x02);
    machine.write_memory(516, 0x1F); // JUMP 4092
    machine.write_memory(517, 0xFC);
    machine.write_memory(600, 0x61); // V1 = 1
    machine.write_memory(601, 0x01);
    machine.write_memory(602, 0x00); // RET
    machine.write_memory(603, 0xEE);
    run(machine);
    assert_eq!(machine.read_register(0), 2);
    assert_eq!(machine.read_register(1), 1);
    shr(machine);
}

fn shr(machine: &mut Chip8) {
    machine.whipe_memory();
    machine.write_register(0, 2);
    machine.write_memory(512, 0x80);
    machine.write_memory(513, 0x06);
    machine.write_memory(516, 0x1F); // JUMP 4092
    machine.write_memory(517, 0xFC);

    run(machine);
    assert_eq!(machine.read_register(0), 1);
    assert_eq!(machine.read_register(15), 0);

    machine.write_register(0, 3);
    machine.write_memory(512, 0x80);
    machine.write_memory(513, 0x06);
    run(machine);
    assert_eq!(machine.read_register(0), 1);
    assert_eq!(machine.read_register(15), 1);

    machine.write_register(0, 1);
    machine.write_memory(512, 0x80);
    machine.write_memory(513, 0x06);
    run(machine);
    assert_eq!(machine.read_register(0), 0);
    assert_eq!(machine.read_register(15), 1);
    shl(machine);
}

fn shl(machine: &mut Chip8) {
    machine.whipe_memory();
    machine.write_register(0, 0b0100_0000_u8);
    machine.write_memory(512, 0x80);
    machine.write_memory(513, 0x0E);
    machine.write_memory(516, 0x1F); // JUMP 4092
    machine.write_memory(517, 0xFC);
    run(machine);
    assert_eq!(machine.read_register(0), 0b1000_0000_u8);
    assert_eq!(machine.read_register(15), 0);

    machine.write_register(0, 0b1100_0000_u8);
    machine.write_memory(512, 0x80);
    machine.write_memory(513, 0x0E);
    run(machine);
    assert_eq!(machine.read_register(0), 0b1000_0000_u8);
    assert_eq!(machine.read_register(15), 1);

    machine.write_register(0, 0b1000_0000_u8);
    machine.write_memory(512, 0x80);
    machine.write_memory(513, 0x0E);
    run(machine);
    assert_eq!(machine.read_register(0), 0);
    assert_eq!(machine.read_register(15), 1);
    math_or(machine);
}

fn math_or(machine: &mut Chip8) {
    machine.write_register(0, 1);
    machine.write_register(1, 2);
    machine.write_memory(512, 0x80);
    machine.write_memory(513, 0x11);
    run(machine);
    assert_eq!(machine.read_register(0), 3);
    math_and(machine);
}

fn math_and(machine: &mut Chip8) {
    machine.write_register(0, 3);
    machine.write_register(1, 2);
    machine.write_memory(512, 0x80);
    machine.write_memory(513, 0x12);
    run(machine);
    assert_eq!(machine.read_register(0), 2);
    math_xor(machine);
}

fn math_xor(machine: &mut Chip8) {
    machine.write_register(0, 3);
    machine.write_register(1, 2);
    machine.write_memory(512, 0x80);
    machine.write_memory(513, 0x13);
    run(machine);
    assert_eq!(machine.read_register(0), 1);
}

#[test]
fn new_machine_is_blank() {
    let machine = Chip8::new();
    assert_eq!(machine.pc(), 512);
    assert!(!machine.is_running());
    assert_eq!(machine.register_i(), 0);
    assert_eq!(machine.timer(), 0);
    assert_eq!(machine.screen().len(), 2048);
    assert!(machine.screen().iter().all(|p| *p == 0));
    for i in 0..16 {
        assert_eq!(machine.read_register(i), 0);
    }
    assert_eq!(machine.read_memory(4095), 0);
}

#[test]
fn start_writes_font() {
    let mut machine = Chip8::new();
    machine.start();
    assert!(machine.is_running());
    assert_eq!(machine.pc(), 512);
    assert_eq!(machine.read_memory(0x50), 0xF0);
    assert_eq!(machine.read_memory(0x55), 0x20);
    assert_eq!(machine.read_memory(0x9F), 0x80);
    assert_eq!(machine.read_memory(0xA0), 0);
}

#[test]
fn halts_past_end_of_memory() {
    let mut machine = Chip8::new();
    machine.write_memory(512, 0x1F); // JUMP 4094
    machine.write_memory(513, 0xFE);
    machine.start();
    assert_eq!(try_step(&mut machine, false, 0), Ok(Action::Continue));
    assert_eq!(machine.pc(), 4094);
    assert_eq!(try_step(&mut machine, false, 0), Ok(Action::Continue));
    assert_eq!(machine.pc(), 4096);
    assert_eq!(try_step(&mut machine, false, 0), Ok(Action::Halt));
    assert!(!machine.is_running());
}

#[test]
fn fetch_at_last_byte_faults() {
    let mut machine = Chip8::new();
    machine.write_memory(512, 0x1F); // JUMP 4095
    machine.write_memory(513, 0xFF);
    machine.start();
    assert_eq!(try_step(&mut machine, false, 0), Ok(Action::Continue));
    assert_eq!(machine.pc(), 4095);
    assert_eq!(try_step(&mut machine, false, 0), Err(Fault::MemoryOutOfBounds));
    assert!(machine.is_running());
}

#[test]
fn jump_to_zero_wraps() {
    let mut machine = Chip8::new();
    assert_eq!(step_once(&mut machine, &[0x10, 0x00], false, 0), Ok(Action::Continue));
    assert_eq!(machine.pc(), 0);
}

#[test]
fn skips() {
    let mut machine = Chip8::new();
    machine.write_register(3, 7);
    assert_eq!(step_once(&mut machine, &[0x33, 0x07], false, 0), Ok(Action::Continue));
    assert_eq!(machine.pc(), 516);
    let mut machine = Chip8::new();
    machine.write_register(3, 7);
    step_once(&mut machine, &[0x43, 0x07], false, 0).unwrap();
    assert_eq!(machine.pc(), 514);
    let mut machine = Chip8::new();
    machine.write_register(1, 9);
    machine.write_register(2, 9);
    step_once(&mut machine, &[0x51, 0x20], false, 0).unwrap();
    assert_eq!(machine.pc(), 516);
    let mut machine = Chip8::new();
    machine.write_register(1, 9);
    machine.write_register(2, 9);
    step_once(&mut machine, &[0x91, 0x20], false, 0).unwrap();
    assert_eq!(machine.pc(), 514);
}

#[test]
fn set_add_and_index() {
    let mut machine = Chip8::new();
    step_once(&mut machine, &[0x6A, 0xFE, 0x7A, 0x05, 0xA1, 0x23], false, 0).unwrap();
    assert_eq!(machine.read_register(10), 0xFE);
    assert_eq!(try_step(&mut machine, false, 0), Ok(Action::Continue));
    assert_eq!(machine.read_register(10), 3);
    assert_eq!(machine.read_register(15), 0);
    assert_eq!(try_step(&mut machine, false, 0), Ok(Action::Continue));
    assert_eq!(machine.register_i(), 0x123);
}

#[test]
fn jump_with_offset_adds_v0() {
    let mut machine = Chip8::new();
    machine.write_register(0, 4);
    step_once(&mut machine, &[0xB3, 0x00], false, 0).unwrap();
    assert_eq!(machine.pc(), 0x304);
}

#[test]
fn random_masks_with_nn() {
    let mut machine = Chip8::new();
    machine.write_register(5, 0xAA);
    step_once(&mut machine, &[0xC5, 0x0F], false, 0xF3).unwrap();
    assert_eq!(machine.read_register(5), 0x03);
    let mut machine = Chip8::new();
    machine.write_register(5, 0xAA);
    machine.write_memory(512, 0xC5);
    machine.write_memory(513, 0x00);
    assert_eq!(machine.random(512), 512);
    assert_eq!(machine.read_register(5), 0);
}

#[test]
fn add_with_carry_and_subtract_with_borrow() {
    let mut machine = Chip8::new();
    machine.write_register(0, 200);
    machine.write_register(1, 100);
    step_once(&mut machine, &[0x80, 0x14], false, 0).unwrap();
    assert_eq!(machine.read_register(0), 44);
    assert_eq!(machine.read_register(15), 1);
    let mut machine = Chip8::new();
    machine.write_register(0, 1);
    machine.write_register(1, 2);
    step_once(&mut machine, &[0x80, 0x15], false, 0).unwrap();
    assert_eq!(machine.read_register(0), 255);
    assert_eq!(machine.read_register(15), 0);
    let mut machine = Chip8::new();
    machine.write_register(0, 1);
    machine.write_register(1, 2);
    step_once(&mut machine, &[0x80, 0x10], false, 0).unwrap();
    assert_eq!(machine.read_register(0), 2);
}

#[test]
fn illegal_math_operation() {
    let mut machine = Chip8::new();
    machine.write_register(0, 5);
    assert_eq!(
        step_once(&mut machine, &[0x80, 0x18], false, 0),
        Err(Fault::IllegalMathOperation)
    );
    assert_eq!(machine.read_register(0), 5);
    assert_eq!(machine.pc(), 512);
}

#[test]
fn clear_screen_and_illegal_operations() {
    let mut machine = Chip8::new();
    machine.set_pixel(3, 2, true);
    assert_eq!(step_once(&mut machine, &[0x00, 0xE0], false, 0), Ok(Action::UpdateScreen));
    assert!(machine.screen().iter().all(|p| *p == 0));
    let mut machine = Chip8::new();
    assert_eq!(
        step_once(&mut machine, &[0x00, 0xEE], false, 0),
        Err(Fault::IllegalSubroutineCall)
    );
    let mut machine = Chip8::new();
    assert_eq!(
        step_once(&mut machine, &[0x00, 0xE1], false, 0),
        Err(Fault::IllegalOperation)
    );
    let mut machine = Chip8::new();
    assert_eq!(step_once(&mut machine, &[0x01, 0x23], false, 0), Ok(Action::Continue));
    assert_eq!(machine.pc(), 514);
}

#[test]
fn key_instructions() {
    let mut machine = Chip8::new();
    machine.write_register(4, 0x1A);
    machine.load_program(&[0xE4, 0x9E]);
    machine.start();
    assert_eq!(machine.key_to_check(), Some(Key::D));
    assert_eq!(try_step(&mut machine, true, 0), Ok(Action::Continue));
    assert_eq!(machine.pc(), 516);
    let mut machine = Chip8::new();
    machine.write_register(4, 0x1A);
    step_once(&mut machine, &[0xE4, 0xA1], false, 0).unwrap();
    assert_eq!(machine.pc(), 516);
    let mut machine = Chip8::new();
    machine.load_program(&[0xE4, 0x00]);
    machine.start();
    assert_eq!(machine.key_to_check(), None);
    assert_eq!(try_step(&mut machine, false, 0), Err(Fault::IllegalKeyOperation));
}

#[test]
fn await_key_names_register_x() {
    let mut machine = Chip8::new();
    machine.write_register(7, 3);
    assert_eq!(
        step_once(&mut machine, &[0xF7, 0x0A], false, 0),
        Ok(Action::AwaitKey(7))
    );
    assert_eq!(machine.pc(), 514);
}

#[test]
fn font_bcd_store_and_load() {
    let mut machine = Chip8::new();
    machine.write_register(2, 0x1E);
    machine.write_register(9, 254);
    step_once(
        &mut machine,
        &[0xF9, 0x29, 0xA3, 0x00, 0xF9, 0x33, 0xF2, 0x1E, 0xF1, 0x55, 0xA3, 0x00, 0xF2, 0x65],
        false,
        0,
    )
    .unwrap();
    // the glyph of the low nibble of V9 = 0xFE: E
    assert_eq!(machine.register_i(), 0x50 + 70);
    assert_eq!(machine.read_memory(0x50 + 70), 0xF0);
    assert_eq!(machine.read_memory(0x50 + 72), 0xF0);
    assert_eq!(machine.read_memory(0x50 + 74), 0xF0);
    try_step(&mut machine, false, 0).unwrap();
    try_step(&mut machine, false, 0).unwrap();
    assert_eq!(machine.read_memory(0x300), 2);
    assert_eq!(machine.read_memory(0x301), 5);
    assert_eq!(machine.read_memory(0x302), 4);
    try_step(&mut machine, false, 0).unwrap();
    assert_eq!(machine.register_i(), 0x31E);
    machine.write_register(0, 11);
    machine.write_register(1, 22);
    try_step(&mut machine, false, 0).unwrap();
    assert_eq!(machine.read_memory(0x31E), 11);
    assert_eq!(machine.read_memory(0x31F), 22);
    machine.write_register(0, 0);
    machine.write_register(1, 0);
    machine.write_register(2, 0);
    try_step(&mut machine, false, 0).unwrap();
    try_step(&mut machine, false, 0).unwrap();
    assert_eq!(machine.read_register(0), 2);
    assert_eq!(machine.read_register(1), 5);
    assert_eq!(machine.read_register(2), 4);
}

#[test]
fn store_past_end_of_memory_faults() {
    let mut machine = Chip8::new();
    step_once(&mut machine, &[0xAF, 0xFF, 0xF1, 0x55], false, 0).unwrap();
    assert_eq!(try_step(&mut machine, false, 0), Err(Fault::MemoryOutOfBounds));
}

#[test]
fn index_add_reaches_past_memory() {
    let mut machine = Chip8::new();
    machine.write_register(0, 0x10);
    step_once(&mut machine, &[0xAF, 0xFF, 0xF0, 0x1E], false, 0).unwrap();
    try_step(&mut machine, false, 0).unwrap();
    assert_eq!(machine.register_i(), 0x100F);
}

#[test]
fn draw_flips_pixels_and_reports_turned_off() {
    let mut machine = Chip8::new();
    // glyph "0" at (62, 30): cut at the right and bottom edges
    machine.write_register(1, 62);
    machine.write_register(2, 30);
    machine.load_program(&[0xA0, 0x50, 0xD1, 0x25]);
    machine.start();
    try_step(&mut machine, false, 0).unwrap();
    try_step(&mut machine, false, 0).unwrap();
    let screen = machine.screen();
    assert_eq!(screen[30 * 64 + 62], PIXEL_ON);
    assert_eq!(screen[30 * 64 + 63], PIXEL_ON);
    assert_eq!(screen[31 * 64 + 62], PIXEL_ON);
    assert_eq!(screen[31 * 64 + 63], 0);
    assert_eq!(screen.iter().filter(|p| **p == PIXEL_ON).count(), 3);
    assert_eq!(machine.read_register(15), 0);

    let mut machine = Chip8::new();
    machine.set_pixel(0, 0, true);
    machine.set_pixel(1, 0, true);
    machine.write_register(1, 0);
    machine.write_register(2, 0);
    // row 0x90 = 1001_0000: pixels 0 and 3 flip, pixel 0 goes dark
    machine.load_program(&[0xA0, 0x64, 0xD1, 0x21]);
    machine.start();
    try_step(&mut machine, false, 0).unwrap();
    try_step(&mut machine, false, 0).unwrap();
    assert_eq!(machine.screen()[0], 0);
    assert_eq!(machine.screen()[1], PIXEL_ON);
    assert_eq!(machine.screen()[3], PIXEL_ON);
    assert_eq!(machine.read_register(15), 1);
}

#[test]
fn redraw_restores_screen() {
    let mut machine = Chip8::new();
    machine.write_register(1, 10);
    machine.write_register(2, 5);
    machine.load_program(&[0xA0, 0x5A, 0xD1, 0x25, 0x12, 0x02]);
    machine.start();
    try_step(&mut machine, false, 0).unwrap();
    try_step(&mut machine, false, 0).unwrap();
    assert_eq!(machine.read_register(15), 0);
    assert!(machine.screen().iter().any(|p| *p == PIXEL_ON));
    try_step(&mut machine, false, 0).unwrap(); // JUMP 0x202
    try_step(&mut machine, false, 0).unwrap();
    assert!(machine.screen().iter().all(|p| *p == 0));
    assert_eq!(machine.read_register(15), 1);
}

#[test]
fn draw_sprite_past_end_of_memory_faults() {
    let mut machine = Chip8::new();
    step_once(&mut machine, &[0xAF, 0xFE, 0xD0, 0x03], false, 0).unwrap();
    assert_eq!(try_step(&mut machine, false, 0), Err(Fault::MemoryOutOfBounds));
}

#[test]
fn set_pixel_reports_previous() {
    let mut machine = Chip8::new();
    assert!(!machine.set_pixel(63, 31, true));
    assert!(machine.set_pixel(63, 31, false));
    assert!(!machine.set_pixel(63, 31, false));
    assert_eq!(machine.screen()[2047], 0);
}

#[test]
fn load_program_bounds() {
    let mut machine = Chip8::new();
    let fits = vec![1u8; 3584];
    machine.load_program(&fits);
    assert_eq!(machine.read_memory(4095), 1);
    assert_eq!(machine.read_memory(511), 0);
}

#[test]
fn timer_counts_down_to_zero() {
    let mut machine = Chip8::new();
    assert!(!machine.tick_timer());
    assert_eq!(machine.timer(), 0);
    machine.start();
    assert!(machine.tick_timer());
}

#[test]
fn keypad_layout() {
    assert_eq!(to_key(0), Key::Key1);
    assert_eq!(to_key(4), Key::Q);
    assert_eq!(to_key(12), Key::Y);
    assert_eq!(to_key(15), Key::V);
}

#[test]
fn not_running_machine_halts() {
    let mut machine = Chip8::new();
    assert_eq!(try_step(&mut machine, false, 0), Ok(Action::Halt));
    assert_eq!(machine.pc(), 512);
}

#[test]
fn timer_instructions_change_nothing() {
    for nn in [0x07u8, 0x15, 0x18] {
        let mut machine = Chip8::new();
        machine.write_register(0, 5);
        assert_eq!(step_once(&mut machine, &[0xF0, nn], false, 0), Ok(Action::Continue));
        assert_eq!(machine.read_register(0), 5);
        assert_eq!(machine.register_i(), 0);
        assert_eq!(machine.timer(), 0);
        assert_eq!(machine.pc(), 514);
    }
}
