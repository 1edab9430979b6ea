use name_core::cp0_registers::Register;
use name_core::structs::Coprocessor0;

#[test]
fn test_set_bit_field() {
    let mut cop0 = Coprocessor0::default();
    cop0.set_bit_field(Register::Status, 0..32, u32::MAX);
    assert_eq!(cop0.registers[12], u32::MAX);
}

#[test]
fn test_get_bit_field() {
    let mut cop0 = Coprocessor0::default();
    cop0.registers[12] |= 0xABAB << 5;
    assert_eq!(cop0.get_bit_field(Register::Status, 5..(5 + 4 * 4)), 0xABAB);
}
