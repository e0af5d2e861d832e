use mips_core::cpu::CPU;
use mips_core::exceptionprocessor::ExceptionProcessor;
use mips_core::ram::RAM;

#[test]
fn set_then_get_registers_1_to_31() {
    let mut cpu = CPU::new(RAM::new());
    for i in 1u8..=31u8 {
        let value: u32 = 0x1000_0000 + i as u32;
        cpu.write_reg(i, value);
        assert_eq!(cpu.read_reg(i), value);
    }
    // The earlier writes all stuck.
    for i in 1u8..=31u8 {
        assert_eq!(cpu.read_reg(i), 0x1000_0000 + i as u32);
    }
}

#[test]
fn register_zero_reads_zero_after_any_write() {
    let mut cpu = CPU::new(RAM::new());
    assert_eq!(cpu.read_reg(0), 0);
    cpu.write_reg(0, 0xFFFF_FFFF);
    assert_eq!(cpu.read_reg(0), 0);
    cpu.write_reg(0, 1);
    assert_eq!(cpu.read_reg(0), 0);
}

#[test]
fn hi_lo_writes_are_discarded() {
    let mut cpu = CPU::new(RAM::new());
    cpu.write_reg(32, 0xAAAA_AAAA);
    cpu.write_reg(33, 0xBBBB_BBBB);
    assert_eq!(cpu.read_reg(32), 0);
    assert_eq!(cpu.read_reg(33), 0);
}

#[test]
fn out_of_range_index_reads_zero_and_ignores_writes() {
    let mut cpu = CPU::new(RAM::new());
    cpu.write_reg(35, 0x1234_5678);
    cpu.write_reg(200, 0x1234_5678);
    assert_eq!(cpu.read_reg(35), 0);
    assert_eq!(cpu.read_reg(200), 0);
}

#[test]
fn program_counter_is_register_34() {
    let mut cpu = CPU::new(RAM::new());
    cpu.write_reg(34, 0x0000_0100);
    assert_eq!(cpu.read_reg(34), 0x0000_0100);
}

#[test]
fn new_machine_is_zeroed() {
    let cpu = CPU::new(RAM::new());
    for i in 0u8..=34u8 {
        assert_eq!(cpu.read_reg(i), 0);
    }
    assert_eq!(cpu.cp0().status(), 0);
    assert_eq!(cpu.cp0().cause(), 0);
}

#[test]
fn reset_loads_text_base_and_stack_pointer() {
    let mut cpu = CPU::new(RAM::new());
    for i in 1u8..=31u8 {
        cpu.write_reg(i, 0xDEAD_0000 + i as u32);
    }
    cpu.reset();
    assert_eq!(cpu.read_reg(34), 0x0040_0000);
    assert_eq!(cpu.read_reg(29), 0x7fff_effc);
    for i in 1u8..=31u8 {
        if i != 29 {
            assert_eq!(cpu.read_reg(i), 0);
        }
    }
}

#[test]
fn syscall_observation_leaves_the_machine_unchanged() {
    let cp0 = ExceptionProcessor::new();
    let mut cpu = CPU::new(RAM::new());
    cpu.write_reg(2, 4);
    cpu.write_reg(4, 1234);
    cp0.syscall(&mut cpu);
    assert_eq!(cpu.read_reg(2), 4);
    assert_eq!(cpu.read_reg(4), 1234);
    assert_eq!(cpu.read_reg(34), 0);
}

#[test]
fn fault_registers_record_the_most_recent_fault() {
    let mut cp0 = ExceptionProcessor::new();
    assert_eq!(cp0.bad_vaddr(), 0);
    assert_eq!(cp0.status(), 0);
    assert_eq!(cp0.cause(), 0);
    assert_eq!(cp0.epc(), 0);
    cp0.throw_exception(0x106, 5, 0x0040_0004);
    assert_eq!(cp0.bad_vaddr(), 0x106);
    assert_eq!(cp0.status(), 2);
    assert_eq!(cp0.cause(), 5);
    assert_eq!(cp0.epc(), 0x0040_0004);
    cp0.throw_exception(0, 12, 0x0040_0008);
    assert_eq!(cp0.bad_vaddr(), 0);
    assert_eq!(cp0.cause(), 12);
    assert_eq!(cp0.epc(), 0x0040_0008);
}

#[test]
fn reset_preserves_memory() {
    let mut ram = RAM::new();
    ram.write_word(0x0040_0000, 0xCAFE_F00D);
    let mut cpu = CPU::new(ram);
    cpu.reset();
    assert_eq!(cpu.mem().read_word(0x0040_0000), 0xCAFE_F00D);
}
