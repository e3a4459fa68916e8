use verify_mldsa_host::encoding::push_decimal;
use verify_mldsa_host::report::{groth16_fixture, recorded_repetitions};

#[test]
fn decimal_rendering() {
    let mut s = String::from("k=");
    push_decimal(&mut s, 0);
    s.push(' ');
    push_decimal(&mut s, 1204);
    s.push(' ');
    push_decimal(&mut s, usize::MAX);
    assert_eq!(s, format!("k=0 1204 {}", usize::MAX));
}

#[test]
fn fixture_json_text() {
    let json = groth16_fixture("k", 4, "0x00ab", &[0x01, 0xfe], &[0xa0, 0x0b, 0xff]);
    assert_eq!(
        json,
        "{\n  \"k\": 4,\n  \"vkey\": \"0x00ab\",\n  \"publicValues\": \"0x01fe\",\n  \"proof\": \"0xa00bff\"\n}\n"
    );
    let empty = groth16_fixture("n", 32, "v", &[], &[]);
    assert_eq!(
        empty,
        "{\n  \"n\": 32,\n  \"vkey\": \"v\",\n  \"publicValues\": \"0x\",\n  \"proof\": \"0x\"\n}\n"
    );
}

#[test]
fn repetitions_recorded_after_header() {
    assert_eq!(recorded_repetitions(""), 0);
    assert_eq!(recorded_repetitions("k,repeticao\n"), 0);
    assert_eq!(recorded_repetitions("k,repeticao\n2,1,3.5\n"), 1);
    assert_eq!(recorded_repetitions("k,repeticao\n2,1,3.5\n2,2,4.0"), 2);
    assert_eq!(recorded_repetitions("h\r\na\r\nb\r\n"), 2);
    assert_eq!(recorded_repetitions("h\n\n"), 1);
}
