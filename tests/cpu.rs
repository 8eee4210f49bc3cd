use chip::{Audio, CallLog, Chip, Fault, Input, Inputs, Record, Timer, Video, PROGRAM_START, RAM_SIZE};

/// A peripheral that records what the chip asked of it.
struct Probe {
    clears: usize,
    draws: Vec<(isize, isize, Vec<u8>)>,
    collision: bool,
    presents: std::cell::Cell<usize>,
    buzz: Vec<bool>,
    down: [bool; 16],
    asked: std::cell::RefCell<Vec<usize>>,
    key: Option<u8>,
    quit: bool,
    pumps: usize,
}

impl Probe {
    fn new() -> Probe {
        Probe {
            clears: 0,
            draws: Vec::new(),
            collision: false,
            presents: std::cell::Cell::new(0),
            buzz: Vec::new(),
            down: [false; 16],
            asked: std::cell::RefCell::new(Vec::new()),
            key: None,
            quit: false,
            pumps: 0,
        }
    }
}

impl Record for Probe {
    fn calls(&self) -> CallLog {
        unreachable!("the call log is a model for the verifier")
    }
}

impl Timer for Probe {
    fn pump(&mut self) -> bool {
        self.pumps += 1;
        self.quit
    }
}

impl Video for Probe {
    fn clear(&mut self) {
        self.clears += 1;
    }
    fn draw(&mut self, x: isize, y: isize, sprite: &[u8]) -> bool {
        self.draws.push((x, y, sprite.to_vec()));
        self.collision
    }
    fn present(&mut self) {
        self.presents.set(self.presents.get() + 1);
    }
}

impl Audio for Probe {
    fn buzz(&mut self, on: bool) {
        self.buzz.push(on);
    }
}

impl Input for Probe {
    fn keydown(&mut self, which: usize) -> bool {
        self.asked.borrow_mut().push(which);
        which < 16 && self.down[which]
    }
    fn key(&mut self) -> Option<u8> {
        self.key
    }
}

fn quiet() -> Inputs {
    Inputs { collision: false, key_down: false, key: None, random: 0 }
}

fn loaded(program: &[u8]) -> Chip {
    let mut c = Chip::default();
    assert_eq!(c.load(PROGRAM_START, program), Ok(()));
    c
}

fn run(c: &mut Chip, n: usize) {
    let mut p = Probe::new();
    for _ in 0..n {
        assert_eq!(c.cycle(&mut p), Ok(false));
    }
}

#[test]
fn fresh_chip_is_reset() {
    let c = Chip::default();
    assert_eq!(c.pc(), 0x200);
    for x in 0..16 {
        assert_eq!(c.register(x), 0);
    }
    assert_eq!(c.index(), 0);
    assert_eq!(c.delay_timer(), 0);
    assert_eq!(c.sound_timer(), 0);
    assert_eq!(c.stack_depth(), 0);
    assert_eq!(c.memory(0), 0);
    assert_eq!(c.memory(RAM_SIZE - 1), 0);
}

#[test]
fn load_immediate_then_cycle() {
    let mut c = loaded(&[0x60, 0x05]);
    run(&mut c, 1);
    assert_eq!(c.register(0), 5);
    assert_eq!(c.pc(), 0x202);
}

#[test]
fn add_immediate_wraps_without_flag() {
    let mut c = loaded(&[0x70, 0xFF, 0x70, 0x01]);
    run(&mut c, 2);
    assert_eq!(c.register(0), 0);
    assert_eq!(c.register(0xF), 0);
    assert_eq!(c.pc(), 0x204);
}

#[test]
fn add_immediate_leaves_flag_alone() {
    let mut c = loaded(&[0x6F, 0x42, 0x70, 0xFF, 0x70, 0x01, 0x7F, 0xC0]);
    run(&mut c, 3);
    assert_eq!(c.register(0), 0);
    assert_eq!(c.register(0xF), 0x42);
    run(&mut c, 1);
    assert_eq!(c.register(0xF), 0x02);
}

#[test]
fn jump_to_self_never_faults() {
    let mut c = loaded(&[0x12, 0x00]);
    let mut p = Probe::new();
    for _ in 0..5000 {
        assert_eq!(c.cycle(&mut p), Ok(false));
        assert_eq!(c.pc(), 0x200);
    }
}

#[test]
fn unsupported_word_faults_and_changes_nothing() {
    let mut c = loaded(&[0x00, 0xFF]);
    assert_eq!(c.cycle(&mut Probe::new()), Err(Fault::UnsupportedInstruction(0x00FF)));
    assert_eq!(c.pc(), 0x200);
}

#[test]
fn add_registers_sets_carry() {
    for (a, b) in [(0u8, 0u8), (200, 100), (255, 255), (128, 128), (255, 1), (17, 3)] {
        let mut c = loaded(&[0x60, a, 0x61, b, 0x80, 0x14]);
        run(&mut c, 3);
        let sum = a as u16 + b as u16;
        assert_eq!(c.register(0), (sum % 256) as u8);
        assert_eq!(c.register(0xF), (sum / 256) as u8);
    }
}

#[test]
fn subtract_flag_clear_only_on_borrow() {
    for (a, b) in [(5u8, 3u8), (3, 5), (7, 7), (0, 255), (255, 0)] {
        let mut c = loaded(&[0x60, a, 0x61, b, 0x80, 0x15]);
        run(&mut c, 3);
        assert_eq!(c.register(0), a.wrapping_sub(b));
        assert_eq!(c.register(0xF), if a < b { 0 } else { 1 });
        let mut c = loaded(&[0x60, a, 0x61, b, 0x80, 0x17]);
        run(&mut c, 3);
        assert_eq!(c.register(0), b.wrapping_sub(a));
        assert_eq!(c.register(0xF), if b < a { 0 } else { 1 });
    }
}

#[test]
fn carry_into_vf_is_overwritten_when_x_is_f() {
    let mut c = loaded(&[0x6F, 200, 0x61, 100, 0x8F, 0x14]);
    run(&mut c, 3);
    assert_eq!(c.register(0xF), 44);
}

#[test]
fn shifts_take_their_source_from_y() {
    let mut c = loaded(&[0x60, 0x00, 0x61, 0x81, 0x80, 0x16]);
    run(&mut c, 3);
    assert_eq!(c.register(0), 0x40);
    assert_eq!(c.register(1), 0x81);
    assert_eq!(c.register(0xF), 1);
    let mut c = loaded(&[0x61, 0x81, 0x80, 0x1E]);
    run(&mut c, 2);
    assert_eq!(c.register(0), 0x02);
    assert_eq!(c.register(0xF), 1);
    let mut c = loaded(&[0x61, 0x40, 0x80, 0x1E]);
    run(&mut c, 2);
    assert_eq!(c.register(0), 0x80);
    assert_eq!(c.register(0xF), 0);
}

#[test]
fn bitwise_operations() {
    let mut c = loaded(&[0x60, 0b1100, 0x61, 0b1010, 0x62, 0b1100, 0x63, 0b1100, 0x80, 0x11, 0x82, 0x12, 0x83, 0x13, 0x84, 0x10]);
    run(&mut c, 8);
    assert_eq!(c.register(0), 0b1110);
    assert_eq!(c.register(2), 0b1000);
    assert_eq!(c.register(3), 0b0110);
    assert_eq!(c.register(4), 0b1010);
}

#[test]
fn skips_advance_by_four_or_two() {
    // 3XNN taken, then not taken.
    let mut c = loaded(&[0x60, 0x07, 0x30, 0x07]);
    run(&mut c, 2);
    assert_eq!(c.pc(), 0x206);
    let mut c = loaded(&[0x60, 0x07, 0x30, 0x08]);
    run(&mut c, 2);
    assert_eq!(c.pc(), 0x204);
    // 4XNN.
    let mut c = loaded(&[0x40, 0x01]);
    run(&mut c, 1);
    assert_eq!(c.pc(), 0x204);
    let mut c = loaded(&[0x40, 0x00]);
    run(&mut c, 1);
    assert_eq!(c.pc(), 0x202);
    // 5XY0 and 9XY0.
    let mut c = loaded(&[0x50, 0x10]);
    run(&mut c, 1);
    assert_eq!(c.pc(), 0x204);
    let mut c = loaded(&[0x90, 0x10]);
    run(&mut c, 1);
    assert_eq!(c.pc(), 0x202);
    let mut c = loaded(&[0x61, 0x01, 0x90, 0x10]);
    run(&mut c, 2);
    assert_eq!(c.pc(), 0x206);
}

#[test]
fn nested_calls_unwind_then_underflow() {
    // 0x200: call 0x300; 0x300: call 0x400; 0x400: call 0x500; 0x500: return;
    // 0x402: return; 0x302: return; 0x202: return (underflow).
    let mut c = Chip::default();
    c.load(0x200, &[0x23, 0x00, 0x00, 0xEE]).unwrap();
    c.load(0x300, &[0x24, 0x00, 0x00, 0xEE]).unwrap();
    c.load(0x400, &[0x25, 0x00, 0x00, 0xEE]).unwrap();
    c.load(0x500, &[0x00, 0xEE]).unwrap();
    let mut p = Probe::new();
    for depth in 1..=3 {
        assert_eq!(c.cycle(&mut p), Ok(false));
        assert_eq!(c.stack_depth(), depth);
    }
    assert_eq!(c.pc(), 0x500);
    for _ in 0..3 {
        assert_eq!(c.cycle(&mut p), Ok(false));
    }
    assert_eq!(c.pc(), 0x202);
    assert_eq!(c.stack_depth(), 0);
    assert_eq!(c.cycle(&mut p), Err(Fault::StackUnderflow(0x202)));
    assert_eq!(c.pc(), 0x202);
}

#[test]
fn jumps_and_index() {
    let mut c = loaded(&[0x60, 0x10, 0xB3, 0x00]);
    run(&mut c, 2);
    assert_eq!(c.pc(), 0x310);
    let mut c = loaded(&[0xAF, 0xFF, 0x60, 0x03, 0xF0, 0x1E]);
    run(&mut c, 3);
    assert_eq!(c.index(), 0x1002);
}

#[test]
fn store_and_load_registers() {
    let mut c = loaded(&[0x60, 0x11, 0x61, 0x22, 0x62, 0x33, 0xA3, 0x00, 0xF1, 0x55]);
    run(&mut c, 5);
    assert_eq!(c.memory(0x300), 0x11);
    assert_eq!(c.memory(0x301), 0x22);
    assert_eq!(c.memory(0x302), 0x00);
    let mut c = loaded(&[0xA2, 0x06, 0xF2, 0x65, 0x00, 0x00, 0xAA, 0xBB, 0xCC, 0xDD]);
    run(&mut c, 2);
    assert_eq!(c.register(0), 0xAA);
    assert_eq!(c.register(1), 0xBB);
    assert_eq!(c.register(2), 0xCC);
    assert_eq!(c.register(3), 0x00);
}

#[test]
fn block_copy_past_memory_faults() {
    let mut c = loaded(&[0xAF, 0xFE, 0xF3, 0x55]);
    run(&mut c, 1);
    assert_eq!(
        c.cycle(&mut Probe::new()),
        Err(Fault::OutOfBoundsAccess { addr: 0xFFE, len: 4 })
    );
    assert_eq!(c.pc(), 0x202);
}

#[test]
fn timers_and_frames() {
    let mut c = loaded(&[0x60, 0x03, 0xF0, 0x15, 0xF0, 0x18, 0xF1, 0x07, 0x12, 0x08]);
    let mut p = Probe::new();
    assert_eq!(c.frame(4, &mut p), Ok(false));
    assert_eq!(c.delay_timer(), 3);
    assert_eq!(c.sound_timer(), 3);
    assert_eq!(c.register(1), 3);
    assert_eq!(p.buzz, vec![false]);
    assert_eq!(p.presents.get(), 1);
    assert_eq!(p.pumps, 1);
    assert_eq!(c.frame(1, &mut p), Ok(false));
    assert_eq!(c.delay_timer(), 2);
    assert_eq!(c.sound_timer(), 2);
    assert_eq!(p.buzz, vec![false, true]);
    p.quit = true;
    assert_eq!(c.frame(0, &mut p), Ok(true));
    assert_eq!(c.delay_timer(), 1);
}

#[test]
fn key_wait_cancel_halts_frame() {
    let mut c = loaded(&[0xF2, 0x0A, 0x12, 0x00]);
    let mut p = Probe::new();
    assert_eq!(c.frame(10, &mut p), Ok(true));
    assert_eq!(c.pc(), 0x202);
    assert_eq!(p.presents.get(), 0);
    assert_eq!(p.pumps, 0);
    let mut c = loaded(&[0xF2, 0x0A]);
    p.key = Some(9);
    assert_eq!(c.cycle(&mut p), Ok(false));
    assert_eq!(c.register(2), 9);
}

#[test]
fn frame_stops_at_fault() {
    let mut c = loaded(&[0x60, 0x01, 0x00, 0x00]);
    let mut p = Probe::new();
    assert_eq!(c.frame(5, &mut p), Err(Fault::UnsupportedInstruction(0x0000)));
    assert_eq!(c.register(0), 1);
    assert_eq!(p.presents.get(), 0);
}

#[test]
fn draw_passes_sprite_and_sets_collision() {
    let mut c = loaded(&[0x60, 0x05, 0x61, 0x07, 0xA2, 0x0A, 0xD0, 0x13, 0x12, 0x08, 0xF0, 0x90, 0xF0]);
    let mut p = Probe::new();
    p.collision = true;
    for _ in 0..4 {
        assert_eq!(c.cycle(&mut p), Ok(false));
    }
    assert_eq!(p.draws, vec![(5, 7, vec![0xF0, 0x90, 0xF0])]);
    assert_eq!(c.register(0xF), 1);
    assert_eq!(c.memory(0x20A), 0xF0);
}

#[test]
fn draw_past_memory_faults_before_drawing() {
    let mut c = loaded(&[0xAF, 0xFF, 0xD0, 0x02]);
    let mut p = Probe::new();
    assert_eq!(c.cycle(&mut p), Ok(false));
    assert_eq!(c.cycle(&mut p), Err(Fault::OutOfBoundsAccess { addr: 0xFFF, len: 2 }));
    assert!(p.draws.is_empty());
}

#[test]
fn clear_and_key_skips_reach_peripheral() {
    let mut c = loaded(&[0x00, 0xE0, 0x63, 0x04, 0xE3, 0x9E, 0x00, 0x00, 0xE3, 0xA1]);
    let mut p = Probe::new();
    p.down[4] = true;
    for _ in 0..3 {
        assert_eq!(c.cycle(&mut p), Ok(false));
    }
    assert_eq!(p.clears, 1);
    assert_eq!(c.pc(), 0x208);
    assert_eq!(c.cycle(&mut p), Ok(false));
    assert_eq!(c.pc(), 0x20A);
    assert_eq!(*p.asked.borrow(), vec![4, 4]);
}

#[test]
fn random_is_masked() {
    let mut c = loaded(&[0xC0, 0x0F, 0xC1, 0x00]);
    run(&mut c, 2);
    assert!(c.register(0) <= 0x0F);
    assert_eq!(c.register(1), 0);
}

#[test]
fn cycle_with_given_answers() {
    let mut c = loaded(&[0xC0, 0x3C, 0xF1, 0x0A, 0xF1, 0x0A]);
    let io = Inputs { random: 0xFF, ..quiet() };
    assert_eq!(c.cycle_with(&io), Ok(false));
    assert_eq!(c.register(0), 0x3C);
    let io = Inputs { key: Some(0xB), ..quiet() };
    assert_eq!(c.cycle_with(&io), Ok(false));
    assert_eq!(c.register(1), 0xB);
    assert_eq!(c.cycle_with(&quiet()), Ok(true));
    assert_eq!(c.pc(), 0x206);
}

#[test]
fn load_past_memory_fails_and_writes_nothing() {
    let mut c = Chip::default();
    assert_eq!(
        c.load(0xFFF, &[1, 2]),
        Err(Fault::OutOfBoundsAccess { addr: 0xFFF, len: 2 })
    );
    assert_eq!(c.memory(0xFFF), 0);
    assert_eq!(c.load(0xFFE, &[1, 2]), Ok(()));
    assert_eq!(c.memory(0xFFF), 2);
    assert_eq!(c.load(0xF000, &[]), Err(Fault::OutOfBoundsAccess { addr: 0xF000, len: 0 }));
}

#[test]
fn fetch_past_memory_faults() {
    let mut c = Chip::default();
    c.load(0x200, &[0x1F, 0xFF]).unwrap();
    let mut p = Probe::new();
    assert_eq!(c.cycle(&mut p), Ok(false));
    assert_eq!(c.pc(), 0xFFF);
    assert_eq!(c.cycle(&mut p), Err(Fault::OutOfBoundsAccess { addr: 0xFFF, len: 2 }));
}

#[test]
fn reset_restores_defaults() {
    let mut c = loaded(&[0x60, 0x05, 0x22, 0x00]);
    run(&mut c, 2);
    c.reset();
    assert_eq!(c.pc(), 0x200);
    assert_eq!(c.register(0), 0);
    assert_eq!(c.stack_depth(), 0);
    assert_eq!(c.memory(0x200), 0);
}
