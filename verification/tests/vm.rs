use aethervm::cpu::{AVMCpu, Control};
use aethervm::exceptions::Exception;
use aethervm::memory::{AVMBus, AVMDevice, MEMORY_SIZE, MEMORY_START_ADDRESS};

const BASE: u64 = MEMORY_START_ADDRESS;
const TOP: u64 = MEMORY_START_ADDRESS + MEMORY_SIZE;

#[test]
fn write_read_round_trip_all_widths() {
    let mut bus = AVMBus::new();
    let a = BASE + 0x100;
    let v: u64 = 0x1122334455667788;
    assert_eq!(bus.write(a, v, 8), Ok(0x100));
    assert_eq!(bus.read(a, 8), Ok(0x88));
    assert_eq!(bus.write(a, v, 16), Ok(0x100));
    assert_eq!(bus.read(a, 16), Ok(0x7788));
    assert_eq!(bus.write(a, v, 32), Ok(0x100));
    assert_eq!(bus.read(a, 32), Ok(0x55667788));
    assert_eq!(bus.write(a, v, 64), Ok(0x100));
    assert_eq!(bus.read(a, 64), Ok(v));
    // the truncating round trip: only the low width bits come back
    assert_eq!(bus.write(a, u64::MAX, 8), Ok(0x100));
    assert_eq!(bus.read(a, 8), Ok(0xFF));
}

#[test]
fn write_leaves_neighbours_alone() {
    let mut bus = AVMBus::new();
    let a = BASE + 0x200;
    assert_eq!(bus.write(a - 1, 0xAA, 8), Ok(0x1FF));
    assert_eq!(bus.write(a + 2, 0xBB, 8), Ok(0x202));
    assert_eq!(bus.write(a, 0xFFFF, 16), Ok(0x200));
    assert_eq!(bus.read(a - 1, 8), Ok(0xAA));
    assert_eq!(bus.read(a + 2, 8), Ok(0xBB));
    assert_eq!(bus.read(a, 16), Ok(0xFFFF));
}

#[test]
fn out_of_window_addresses_fault_and_leave_memory_alone() {
    let mut bus = AVMBus::new();
    let a = BASE + 0x10;
    assert_eq!(bus.write(a, 0x42, 8), Ok(0x10));
    assert_eq!(bus.read(BASE - 1, 8), Err(Exception::AddressNotInMemoryBounds(BASE - 1)));
    assert_eq!(
        bus.write(BASE - 1, 0x99, 8),
        Err(Exception::AddressNotInMemoryBounds(BASE - 1))
    );
    assert_eq!(bus.read(TOP + 1, 64), Err(Exception::AddressNotInMemoryBounds(TOP + 1)));
    assert_eq!(
        bus.write(TOP + 1, 0x99, 64),
        Err(Exception::AddressNotInMemoryBounds(TOP + 1))
    );
    assert_eq!(bus.read(0, 8), Err(Exception::AddressNotInMemoryBounds(0)));
    // the failed accesses changed nothing
    assert_eq!(bus.read(a, 8), Ok(0x42));
}

#[test]
fn illegal_widths_fault() {
    let mut bus = AVMBus::new();
    let a = BASE + 0x10;
    assert_eq!(bus.read(a, 7), Err(Exception::IllegalSizeArgument(7)));
    assert_eq!(bus.read(a, 0), Err(Exception::IllegalSizeArgument(0)));
    assert_eq!(bus.write(a, 1, 12), Err(Exception::IllegalSizeArgument(12)));
    assert_eq!(bus.write(a, 1, 65), Err(Exception::IllegalSizeArgument(65)));
}

#[test]
fn window_top_is_inside_the_bus_but_outside_the_memory() {
    // the window check is inclusive of base + size, one address past the
    // last byte; the bus lets that address through and the memory's own
    // capacity check faults it
    let mut bus = AVMBus::new();
    assert_eq!(bus.read(TOP - 1, 8), Ok(0));
    assert_eq!(bus.read(TOP, 8), Err(Exception::AddressNotInMemoryBounds(TOP)));
    assert_eq!(bus.read(TOP, 64), Err(Exception::AddressNotInMemoryBounds(TOP)));
    assert_eq!(bus.read(TOP + 1, 8), Err(Exception::AddressNotInMemoryBounds(TOP + 1)));
}

// [reg] set [value]: value in the third extended field
fn enc_set(reg: u64, value: u64) -> u64 {
    0xCD01u64 << 48 | reg << 40 | value
}

// [reg1] op [reg2] [resReg] for the register-to-register opcodes
fn enc_rrr(op: u64, reg1: u64, reg2: u64, res: u64) -> u64 {
    op << 48 | reg1 << 40 | reg2 << 32 | res << 24
}

#[test]
fn new_cpu_state() {
    let cpu = AVMCpu::new();
    assert_eq!(cpu.ip(), BASE);
    assert_eq!(cpu.register(12), TOP);
    assert_eq!(cpu.register(13), TOP);
    for i in 0..32 {
        if i != 12 && i != 13 {
            assert_eq!(cpu.register(i), 0);
        }
    }
}

#[test]
fn program_adds_and_halts() {
    // set r0 = 5; set r1 = 3; add r0, r1 -> r2; halt
    let words = [
        enc_set(0, 5),
        enc_set(1, 3),
        enc_rrr(0xCD02, 0, 1, 2),
        0xFFFFu64 << 48,
    ];
    let mut cpu = AVMCpu::new();

    // the loader places the raw stream at the base address; the first fetch
    // must hand back the first word
    let mut program: Vec<u8> = Vec::new();
    for w in words.iter() {
        program.extend_from_slice(&w.to_le_bytes());
    }
    cpu.load_program(&program);
    assert_eq!(cpu.load_instr(), Ok(words[0]));

    // drive the four instructions through the execution engine
    let mut outcome = Control::Proceed;
    for w in words.iter() {
        outcome = cpu.execute_instr(*w).unwrap();
    }
    assert_eq!(cpu.register(2), 8);
    assert_eq!(outcome, Control::Halted(0));
}

#[test]
fn move_copies_a_register() {
    let mut cpu = AVMCpu::new();
    assert_eq!(cpu.execute_instr(enc_set(5, 0x1234)), Ok(Control::Proceed));
    // [regFrom] move [regTo]
    assert_eq!(
        cpu.execute_instr(0xCD00u64 << 48 | 5 << 40 | 6 << 32),
        Ok(Control::Proceed)
    );
    assert_eq!(cpu.register(6), 0x1234);
    assert_eq!(cpu.ip(), BASE + 2);
}

#[test]
fn arithmetic_wraps_silently() {
    let mut cpu = AVMCpu::new();
    // r0 = 0, r1 = 1: sub r0 - r1 wraps to the largest value
    cpu.execute_instr(enc_set(1, 1)).unwrap();
    cpu.execute_instr(enc_rrr(0xCD03, 0, 1, 2)).unwrap();
    assert_eq!(cpu.register(2), u64::MAX);
    // largest value + 1 wraps to 0
    cpu.execute_instr(enc_rrr(0xCD02, 2, 1, 3)).unwrap();
    assert_eq!(cpu.register(3), 0);
    // largest * largest wraps to 1
    cpu.execute_instr(enc_rrr(0xCD04, 2, 2, 4)).unwrap();
    assert_eq!(cpu.register(4), 1);
}

#[test]
fn division_works_and_zero_faults() {
    let mut cpu = AVMCpu::new();
    cpu.execute_instr(enc_set(0, 9)).unwrap();
    cpu.execute_instr(enc_set(1, 2)).unwrap();
    assert_eq!(cpu.execute_instr(enc_rrr(0xCD05, 0, 1, 2)), Ok(Control::Proceed));
    assert_eq!(cpu.register(2), 4);
    let ip = cpu.ip();
    // r3 holds zero: the divide faults before touching any state
    assert_eq!(cpu.execute_instr(enc_rrr(0xCD05, 0, 3, 2)), Err(Exception::DivisionByZero));
    assert_eq!(cpu.register(2), 4);
    assert_eq!(cpu.ip(), ip);
}

#[test]
fn jmp_overwrites_the_instruction_pointer() {
    let mut cpu = AVMCpu::new();
    assert_eq!(cpu.execute_instr(0xCF00u64 << 48 | 0x20), Ok(Control::Proceed));
    assert_eq!(cpu.ip(), 0x20);
    // a fetch at such an address lies outside the window and is reported as
    // an instruction access fault at that address
    assert_eq!(
        cpu.load_instr(),
        Err(Exception::InstructionAccessFaultOnAddress(0x20))
    );
}

// [reg1] jmc [cond] [reg2]: the condition nibble and both register nibbles
// live in the compact fields, which overlap the extended fields that carry
// the target, so the effective target takes their bits too
fn enc_jmc(cond: u64, reg1: u64, reg2: u64, target: u64) -> u64 {
    0xCF01u64 << 48 | cond << 44 | reg1 << 40 | reg2 << 36 | target
}

#[test]
fn jmc_equal_transfers_exactly_on_equality() {
    let mut cpu = AVMCpu::new();
    cpu.execute_instr(enc_set(0, 7)).unwrap();
    cpu.execute_instr(enc_set(1, 7)).unwrap();
    cpu.execute_instr(enc_set(2, 9)).unwrap();
    let ip = cpu.ip();
    // unequal registers: the instruction pointer does not move at all
    assert_eq!(cpu.execute_instr(enc_jmc(0xC, 0, 2, 0x30)), Ok(Control::Proceed));
    assert_eq!(cpu.ip(), ip);
    // equal registers: control transfers; the or-combined fields leak the
    // condition and register nibbles into the target
    let instr = enc_jmc(0xC, 0, 1, 0x30);
    let eda1 = (instr >> 32) & 0xFFFF;
    let expected = (eda1 | 0x30) & 0xFFFFFFFFFF;
    assert_eq!(cpu.execute_instr(instr), Ok(Control::Proceed));
    assert_eq!(cpu.ip(), expected);
}

#[test]
fn jmc_undefined_condition_faults() {
    let mut cpu = AVMCpu::new();
    let ip = cpu.ip();
    assert_eq!(
        cpu.execute_instr(enc_jmc(0x5, 0, 1, 0x30)),
        Err(Exception::UnexpectedCondition(0x5))
    );
    assert_eq!(cpu.ip(), ip);
}

#[test]
fn jmc_other_conditions() {
    let mut cpu = AVMCpu::new();
    cpu.execute_instr(enc_set(0, 3)).unwrap();
    cpu.execute_instr(enc_set(1, 7)).unwrap();
    let ip = cpu.ip();
    // 0xA is strictly greater: 3 > 7 fails, the pointer stays
    assert_eq!(cpu.execute_instr(enc_jmc(0xA, 0, 1, 0x40)), Ok(Control::Proceed));
    assert_eq!(cpu.ip(), ip);
    // 0xB is strictly less: 3 < 7 transfers
    assert_eq!(cpu.execute_instr(enc_jmc(0xB, 0, 1, 0x40)), Ok(Control::Proceed));
    assert_ne!(cpu.ip(), ip);
}

#[test]
fn load_and_store_opcodes_surface_size_faults() {
    // the load/store address is rebuilt from the 16-bit extended fields, so
    // it can never reach the memory window; any bus failure is reported as
    // an illegal size, the wire format's established behaviour
    let mut cpu = AVMCpu::new();
    let ip = cpu.ip();
    // [address] move [reg] with width 8
    assert_eq!(
        cpu.execute_instr(0xCD06u64 << 48 | 1 << 40 | 8 << 32 | 0x10),
        Err(Exception::IllegalSizeArgument(8))
    );
    // [reg] move [address] with width 16
    assert_eq!(
        cpu.execute_instr(0xCD07u64 << 48 | 1 << 40 | 16 << 32 | 0x10),
        Err(Exception::IllegalSizeArgument(16))
    );
    assert_eq!(cpu.ip(), ip);
}

#[test]
fn halt_and_exit_return_their_codes() {
    let mut cpu = AVMCpu::new();
    let ip = cpu.ip();
    assert_eq!(cpu.execute_instr(0xFFFFu64 << 48), Ok(Control::Halted(0)));
    assert_eq!(cpu.execute_instr(0xFFFAu64 << 48 | 7 << 40), Ok(Control::Halted(7)));
    assert_eq!(cpu.ip(), ip);
}

#[test]
fn unknown_opcode_faults_and_changes_nothing() {
    let mut cpu = AVMCpu::new();
    cpu.execute_instr(enc_set(0, 5)).unwrap();
    let ip = cpu.ip();
    assert_eq!(cpu.execute_instr(0), Err(Exception::UnexpectedOpcode(0)));
    assert_eq!(cpu.ip(), ip);
    assert_eq!(cpu.register(0), 5);
    assert_eq!(cpu.register(12), TOP);
    for i in 1..12 {
        assert_eq!(cpu.register(i), 0);
    }
}

#[test]
fn set_combines_the_extended_fields() {
    // the value is the or of the second and third extended fields and the
    // low byte of the first; the register index sits in the first field's
    // high byte and stays out of the value
    let mut cpu = AVMCpu::new();
    cpu.execute_instr(enc_set(3, 0xBEEF)).unwrap();
    assert_eq!(cpu.register(3), 0xBEEF);
}

#[test]
fn adds_u64() {
    assert_eq!(aethervm::add(2, 2), 4);
    assert_eq!(aethervm::add(0, u64::MAX), u64::MAX);
}
