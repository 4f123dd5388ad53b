use vondel::uarch::alu::Alu;

const A: u32 = 8;
const B: u32 = 42;

#[test]
fn and() {
    let mut alu = Alu::default();
    alu.entry(0b00001100, A, B);
    assert_eq!(A & B, alu.op());
}

#[test]
fn or() {
    let mut alu = Alu::default();
    alu.entry(0b00011000, A, B);
    assert_eq!(A, alu.op());

    alu.entry(0b00010100, A, B);
    assert_eq!(B, alu.op());

    alu.entry(0b00011010, A, B);
    assert_eq!(!A, alu.op());

    alu.entry(0b00011100, A, B);
    assert_eq!(A | B, alu.op());

    alu.entry(0b00010000, A, B);
    assert_eq!(0, alu.op());
}

#[test]
fn xor() {
    let mut alu = Alu::default();
    alu.entry(0b001001100, A, B);
    assert_eq!(A ^ B, alu.op());
}

#[test]
fn alu_mul() {
    let mut alu = Alu::default();
    alu.entry(0b001011100, A, B);
    assert_eq!(A * B, alu.op());
}

#[test]
fn div() {
    let mut alu = Alu::default();
    alu.entry(0b001101100, A, B);
    assert_eq!(A / B, alu.op());
}

#[test]
fn div_mod() {
    let mut alu = Alu::default();
    alu.entry(0b001111100, A, B);
    assert_eq!(A % B, alu.op());
}

#[test]
fn not() {
    let mut alu = Alu::default();
    alu.entry(0b00101100, A, B);
    assert_eq!(!B, alu.op());
}

#[test]
fn add() {
    let mut alu = Alu::default();
    alu.entry(0b00111100, A, B);
    assert_eq!(A + B, alu.op());

    alu.entry(0b00111101, A, B);
    assert_eq!(A + B + 1, alu.op());

    alu.entry(0b00111001, A, B);
    assert_eq!(A + 1, alu.op());

    alu.entry(0b00110101, A, B);
    assert_eq!(B + 1, alu.op());

    alu.entry(0b00111111, A, B);
    assert_eq!(B - A, alu.op());

    alu.entry(0b00110110, A, B);
    assert_eq!(B - 1, alu.op());

    alu.entry(0b00111011, A, B);
    assert_eq!(-(A as i32), alu.op() as i32);

    alu.entry(0b00110001, A, B);
    assert_eq!(1, alu.op());

    alu.entry(0b00110010, A, B);
    assert_eq!(-1i32, alu.op() as i32);
}

#[test]
fn sll() {
    let mut alu = Alu::default();
    alu.entry(0b100111101, A, B);
    assert_eq!((A + B + 1) << 8, alu.op());
}

#[test]
fn sla() {
    let mut alu = Alu::default();
    alu.entry(0b110111101, A, B);
    assert_eq!((A + B + 1) << 1, alu.op());
}

#[test]
fn sra() {
    let mut alu = Alu::default();
    alu.entry(0b010111101, A, B);
    assert_eq!((A + B + 1) >> 1, alu.op());
}

#[test]
fn is_zero() {
    let mut alu = Alu::default();
    alu.entry(0b00111111, A, A);
    assert_eq!(0, alu.op());
    assert!(alu.z());
}

#[test]
fn is_neg() {
    let mut alu = Alu::default();
    alu.entry(0b00111111, B, A);
    assert_eq!(A as i32 - B as i32, alu.op() as i32);
    assert!(alu.n());
}
