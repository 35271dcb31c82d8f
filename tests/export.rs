use ai_energy::batch::BatchError;
use ai_energy::export::{export_header, export_row, export_table, push_decimal};

fn chars(s: &str) -> Vec<char> {
    s.chars().collect()
}

fn text(v: &[char]) -> String {
    v.iter().collect()
}

fn six(batch: u32) -> Vec<Vec<char>> {
    (0..6).map(|i| chars(&format!("{}", batch as f64 * 0.5 + i as f64))).collect()
}

#[test]
fn header_text() {
    assert_eq!(
        text(&export_header()),
        "batch_size,fp32_energy,fp16_energy,int8_energy,fp32_efficiency,fp16_efficiency,int8_efficiency"
    );
}

#[test]
fn decimal_digits() {
    for n in [0u32, 7, 10, 99, 128, 4096, u32::MAX] {
        let mut out = chars("x");
        push_decimal(&mut out, n);
        assert_eq!(text(&out), format!("x{}", n));
    }
}

#[test]
fn row_text() {
    let cells = vec![chars("1.5"), chars("2"), chars("0.25")];
    assert_eq!(text(&export_row(12, &cells)), "12,1.5,2,0.25");
    assert_eq!(text(&export_row(3, &vec![])), "3");
}

#[test]
fn table_of_five_rows() {
    let rows: Vec<Vec<Vec<char>>> = (1..=5).map(six).collect();
    let t = text(&export_table(1, 5, &rows).unwrap());
    assert!(t.ends_with('\n'));
    let lines: Vec<&str> = t.lines().collect();
    assert_eq!(lines.len(), 6);
    assert_eq!(
        lines[0],
        "batch_size,fp32_energy,fp16_energy,int8_energy,fp32_efficiency,fp16_efficiency,int8_efficiency"
    );
    for k in 1..=5u32 {
        let fields: Vec<&str> = lines[k as usize].split(',').collect();
        assert_eq!(fields.len(), 7);
        assert_eq!(fields[0], format!("{}", k));
        for i in 0..6 {
            let v: f64 = fields[i + 1].parse().unwrap();
            assert_eq!(v, k as f64 * 0.5 + i as f64);
        }
    }
}

#[test]
fn table_errors() {
    let rows: Vec<Vec<Vec<char>>> = (1..=5).map(six).collect();
    assert_eq!(export_table(5, 1, &rows), Err(BatchError::EmptyRange));
    assert_eq!(export_table(0, 4, &rows), Err(BatchError::ZeroBatch));
    assert_eq!(export_table(1, 4, &rows), Err(BatchError::ValueCount));
    let mut short = rows.clone();
    short[2].pop();
    assert_eq!(export_table(1, 5, &short), Err(BatchError::ValueCount));
}

#[test]
fn table_of_one_row() {
    let rows = vec![six(128)];
    let t = text(&export_table(128, 128, &rows).unwrap());
    assert_eq!(t.lines().count(), 2);
    assert!(t.lines().nth(1).unwrap().starts_with("128,64,"));
}
