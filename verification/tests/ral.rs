use uwb_network::dw3000::ral::{bit, field, with_bit, with_field};

#[derive(Clone, Copy, Eq, PartialEq, Debug)]
pub enum TestEnum {
    Option0,
    Option1,
    Option2,
    Option3,
}

impl TestEnum {
    fn from_code(code: u64) -> Self {
        match code & 0b11 {
            0 => TestEnum::Option0,
            1 => TestEnum::Option1,
            2 => TestEnum::Option2,
            _ => TestEnum::Option3,
        }
    }

    fn code(self) -> u64 {
        match self {
            TestEnum::Option0 => 0,
            TestEnum::Option1 => 1,
            TestEnum::Option2 => 2,
            TestEnum::Option3 => 3,
        }
    }
}

/// A four-octet register at file 0x02, offset 0x07, read-write, reset value
/// 0b0110_1011_0101, with two bool fields at bits 1 and 2, a primitive field
/// at bits 3..10 and an enum field at bits 10..12.
#[derive(Clone, Copy, Debug)]
struct TestReg(u64);

impl Default for TestReg {
    fn default() -> Self {
        TestReg(0b0110_1011_0101)
    }
}

impl TestReg {
    fn bool_field1(&self) -> bool {
        bit(self.0, 1)
    }

    fn set_bool_field1(&mut self, value: bool) {
        self.0 = with_bit(self.0, 1, value);
    }

    fn bool_field2(&self) -> bool {
        bit(self.0, 2)
    }

    fn prim_field(&self) -> u8 {
        field(self.0, 3, 10) as u8
    }

    fn set_prim_field(&mut self, value: u8) {
        self.0 = with_field(self.0, 3, 10, value as u64);
    }

    fn enum_field(&self) -> TestEnum {
        TestEnum::from_code(field(self.0, 10, 12))
    }

    fn set_enum_field(&mut self, value: TestEnum) {
        self.0 = with_field(self.0, 10, 12, value.code());
    }
}

#[test]
fn default_value() {
    let value = TestReg::default();
    assert_eq!(value.bool_field1(), false);
    assert_eq!(value.bool_field2(), true);
    assert_eq!(value.prim_field(), 0b10_1011_0);
    assert_eq!(value.enum_field(), TestEnum::Option1);
}

#[test]
fn bool_field() {
    let mut value = TestReg::default();
    value.set_bool_field1(false);
    assert_eq!(value.bool_field1(), false);
    value.set_bool_field1(true);
    assert_eq!(value.bool_field1(), true);
}

#[test]
fn primitive_field() {
    let mut value = TestReg::default();
    value.set_prim_field(0x0f);
    assert_eq!(value.prim_field(), 0x0f);
    value.set_prim_field(0xf0);
    assert_eq!(value.prim_field(), 0x70);
}

#[test]
fn enum_field() {
    let mut value = TestReg::default();
    value.set_enum_field(TestEnum::Option1);
    assert_eq!(value.enum_field(), TestEnum::Option1);
    value.set_enum_field(TestEnum::Option2);
    assert_eq!(value.enum_field(), TestEnum::Option2);
}

#[test]
fn field_write_leaves_other_bits() {
    let raw = 0xffff_ffff_ffff_ffffu64;
    let written = with_field(raw, 8, 16, 0);
    assert_eq!(written, 0xffff_ffff_ffff_00ff);
    assert_eq!(field(written, 0, 8), 0xff);
    assert_eq!(field(written, 16, 64), 0xffff_ffff_ffff);
    assert_eq!(with_bit(0, 63, true), 1u64 << 63);
    assert!(bit(1u64 << 63, 63));
    assert!(!bit(1u64 << 63, 62));
}
