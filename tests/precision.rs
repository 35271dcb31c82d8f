use ai_energy::precision::Precision;

#[test]
fn labels_select_precisions() {
    assert_eq!(Precision::from_label("fp32"), Precision::Fp32);
    assert_eq!(Precision::from_label("fp16"), Precision::Fp16);
    assert_eq!(Precision::from_label("int8"), Precision::Int8);
    assert_eq!(Precision::from_label("int4"), Precision::Int4);
}

#[test]
fn unknown_label_is_fp32() {
    assert_eq!(Precision::from_label("bf16"), Precision::Fp32);
    assert_eq!(Precision::from_label(""), Precision::Fp32);
    assert_eq!(Precision::from_label("FP16"), Precision::Fp32);
    assert_eq!(Precision::from_label("fp16 "), Precision::Fp32);
    let unknown = Precision::from_label("bf16");
    let base = Precision::from_label("fp32");
    assert_eq!(unknown.compute_factor_percent(), base.compute_factor_percent());
    assert_eq!(unknown.bandwidth_factor_percent(), base.bandwidth_factor_percent());
    assert_eq!(unknown.bits(), base.bits());
    assert_eq!(unknown.golden_index(), base.golden_index());
}

#[test]
fn factor_tables() {
    assert_eq!(Precision::Fp16.compute_factor_percent(), 65);
    assert_eq!(Precision::Int8.compute_factor_percent(), 35);
    assert_eq!(Precision::Int4.compute_factor_percent(), 20);
    assert_eq!(Precision::Fp32.compute_factor_percent(), 100);
    assert_eq!(Precision::Fp16.bandwidth_factor_percent(), 80);
    assert_eq!(Precision::Int8.bandwidth_factor_percent(), 60);
    assert_eq!(Precision::Int4.bandwidth_factor_percent(), 40);
    assert_eq!(Precision::Fp32.bandwidth_factor_percent(), 100);
    assert_eq!(65.0_f64 / 100.0, 0.65);
    assert_eq!(35.0_f64 / 100.0, 0.35);
    assert_eq!(20.0_f64 / 100.0, 0.2);
    assert_eq!(80.0_f64 / 100.0, 0.8);
    assert_eq!(60.0_f64 / 100.0, 0.6);
    assert_eq!(40.0_f64 / 100.0, 0.4);
}

#[test]
fn factors_increase_with_width() {
    let order = [Precision::Int4, Precision::Int8, Precision::Fp16, Precision::Fp32];
    for w in order.windows(2) {
        assert!(w[0].compute_factor_percent() < w[1].compute_factor_percent());
        assert!(w[0].bandwidth_factor_percent() < w[1].bandwidth_factor_percent());
        assert!(w[0].bits() < w[1].bits());
    }
}

#[test]
fn golden_index_matches_float_floor() {
    assert_eq!(Precision::Fp32.golden_index(), 51);
    assert_eq!(Precision::Fp16.golden_index(), 25);
    assert_eq!(Precision::Int8.golden_index(), 12);
    assert_eq!(Precision::Int4.golden_index(), 6);
    for p in [Precision::Fp32, Precision::Fp16, Precision::Int8, Precision::Int4] {
        let expected = (p.bits() as f64 * 1.618033988749).floor() as u32;
        assert_eq!(p.golden_index(), expected);
    }
}
