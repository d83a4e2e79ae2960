#[test]
fn test_cubically_interpolated_mapping_validity_manual_check() {
    let d0: f64 = -0.37469387755102035;
    let d1: f64 = 0.8904489795918369;
    let s1 = d1 * d1 - 4.0_f64 * d0 * d0 * d0;
    let s2 = s1.sqrt();
    let s3 = d1 - s2;
    let s4 = s3 / 2.0;
    let s5 = s4.cbrt();
    println!(
        "test_cubically_interpolated_mapping_validity_manual_check: {} {} {} {} {}",
        s1, s2, s3, s4, s5
    );
}
