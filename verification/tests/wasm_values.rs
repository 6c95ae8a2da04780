use yara_x::wasm::values::{Float64, MaybeUndef, RawValue, StringHandle, ToWasm};

#[test]
fn wasm_result_conversion() {
    let w = 1_i64.to_wasm().to_vec();
    assert_eq!(w.len(), 1);
    assert_eq!(w[0].get_i64(), 1);

    let w = 1_i32.to_wasm().to_vec();
    assert_eq!(w.len(), 1);
    assert_eq!(w[0].get_i32(), 1);

    let w = MaybeUndef::<i64>::Defined(2).to_wasm().to_vec();
    assert_eq!(w.len(), 2);
    assert_eq!(w[0].get_i64(), 2);
    assert_eq!(w[1].get_i32(), 0);

    let w = MaybeUndef::<i64>::Undef.to_wasm().to_vec();
    assert_eq!(w.len(), 2);
    assert_eq!(w[0].get_i64(), 0);
    assert_eq!(w[1].get_i32(), 1);

    let w = MaybeUndef::<i32>::Defined(2).to_wasm().to_vec();
    assert_eq!(w.len(), 2);
    assert_eq!(w[0].get_i64(), 2);
    assert_eq!(w[1].get_i32(), 0);

    let w = MaybeUndef::<i32>::Undef.to_wasm().to_vec();
    assert_eq!(w.len(), 2);
    assert_eq!(w[0].get_i32(), 0);
    assert_eq!(w[1].get_i32(), 1);

    let w = MaybeUndef::<()>::Defined(()).to_wasm().to_vec();
    assert_eq!(w.len(), 1);
    assert_eq!(w[0].get_i32(), 0);

    let w = MaybeUndef::<()>::Undef.to_wasm().to_vec();
    assert_eq!(w.len(), 1);
    assert_eq!(w[0].get_i32(), 1);
}

#[test]
fn unit_stands_as_no_cell() {
    assert_eq!(().to_wasm().len(), 0);
}

#[test]
fn bool_stands_as_zero_or_one() {
    assert_eq!(true.to_wasm().to_vec(), vec![RawValue { bits: 1 }]);
    assert_eq!(false.to_wasm().to_vec(), vec![RawValue { bits: 0 }]);
}

#[test]
fn negative_i32_fills_the_low_half_only() {
    let cell = RawValue::i32(-1);
    assert_eq!(cell.bits, 0xffff_ffff);
    assert_eq!(cell.get_i32(), -1);
    assert_eq!(cell.get_i64(), 0xffff_ffff);
}

#[test]
fn negative_i64_round_trip() {
    let cell = RawValue::i64(-2);
    assert_eq!(cell.bits, 0xffff_ffff_ffff_fffe);
    assert_eq!(cell.get_i64(), -2);
    assert_eq!(cell.get_i32(), -2);
}

#[test]
fn floats_travel_as_bits() {
    let bits = 1.5_f64.to_bits();
    let w = Float64 { bits }.to_wasm().to_vec();
    assert_eq!(w.len(), 1);
    assert_eq!(f64::from_bits(w[0].get_float64()), 1.5);

    let bits32 = 0.25_f32.to_bits();
    let cell = RawValue::float32(bits32);
    assert_eq!(f32::from_bits(cell.get_float32()), 0.25);
    assert_eq!(cell.bits >> 32, 0);
}

#[test]
fn string_handle_and_flag() {
    let w = MaybeUndef::<StringHandle>::Defined(StringHandle { handle: 9 }).to_wasm().to_vec();
    assert_eq!(w, vec![RawValue { bits: 9 }, RawValue { bits: 0 }]);
    let w = MaybeUndef::<StringHandle>::Undef.to_wasm().to_vec();
    assert_eq!(w, vec![RawValue { bits: 0 }, RawValue { bits: 1 }]);
}

#[test]
fn undefined_float_is_zero_bits_and_flag() {
    let w = MaybeUndef::<Float64>::Undef.to_wasm().to_vec();
    assert_eq!(w, vec![RawValue { bits: 0 }, RawValue { bits: 1 }]);
}
