use mano_lib::registers::Register;
use mano_lib::registers::Registers;

#[test]
fn test_register_overflow_handling() {
    let mut reg = Register::new(3); // 3-bit register, max value = 7

    // Test normal set
    reg.set(5);
    assert_eq!(reg.get(), 5);

    // Test overflow - should wrap around
    reg.set(10); // 10 & 0b111 = 2
    assert_eq!(reg.get(), 2);

    // Test increment with overflow
    reg.set(7); // Max value for 3-bit
    reg.increment(); // Should wrap to 0
    assert_eq!(reg.get(), 0);
}

#[test]
fn test_register_operations() {
    let mut reg = Register::new(16); // Full 16-bit register

    reg.set(0xAAAA);
    assert_eq!(reg.get(), 0xAAAA);

    // Test complement
    reg.complement();
    assert_eq!(reg.get(), 0x5555);

    // Test logic AND
    reg.logic_and(0x0F0F);
    assert_eq!(reg.get(), 0x0505);
}

#[test]
fn test_register_carry() {
    let mut reg = Register::new(4); // 4-bit register, max = 15

    reg.set(10);
    let carry = reg.add(3); // 10 + 3 = 13, no carry for 4-bit
    assert_eq!(reg.get(), 13);
    assert_eq!(carry, 0);

    reg.set(14);
    let carry = reg.add(5); // 14 + 5 = 19, should overflow and carry
    assert_eq!(reg.get(), 3); // 19 & 0xF = 3
    assert_eq!(carry, 1);
}

#[test]
fn test_registers_initialization() {
    let registers = Registers::new();

    // Test that all registers are initialized to 0
    assert_eq!(registers.ar.get(), 0);
    assert_eq!(registers.pc.get(), 0);
    assert_eq!(registers.ac.get(), 0);
    assert_eq!(registers.e.get(), 0);

    // Test that bit limits are correct
    // AR is 12-bit, so max should be 4095 (0xFFF)
    // We can't directly access mask, but we can test overflow behavior
}

#[test]
fn test_complement_twice_is_identity() {
    let mut reg = Register::new(16);
    reg.set(0x1234);
    reg.complement();
    reg.complement();
    assert_eq!(reg.get(), 0x1234);

    let mut narrow = Register::new(3);
    narrow.set(5);
    narrow.complement();
    assert_eq!(narrow.get(), 2);
    narrow.complement();
    assert_eq!(narrow.get(), 5);
}

#[test]
fn test_register_shifts() {
    let mut reg = Register::new(16);
    reg.set(0x0001);
    let lsb = reg.shift_right(1);
    assert_eq!(lsb, 1);
    assert_eq!(reg.get(), 0x8000);

    let msb = reg.shift_left(1);
    assert_eq!(msb, 1);
    assert_eq!(reg.get(), 0x0001);
}

#[test]
fn test_register_wide_width_uses_full_mask() {
    let mut reg = Register::new(20);
    reg.set(0xFFFF);
    assert_eq!(reg.get(), 0xFFFF);
    reg.increment();
    assert_eq!(reg.get(), 0);
}
