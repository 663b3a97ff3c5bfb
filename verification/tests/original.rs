use rand::Rng;
use soa_iter::data::random_u32_column;
use soa_iter::new2_slice;

fn random_f32_column(n: usize) -> Vec<f32> {
    let mut rng = rand::thread_rng();
    (0..n).map(|_| rng.gen::<f32>()).collect()
}

#[test]
fn test_new2_rev_test() {
    let vec_a = random_u32_column(100_000);
    let vec_b = random_f32_column(100_000);
    let vec_c = random_f32_column(100_000);
    let vec_d = random_f32_column(100_000);
    let sl_new2 = new2_slice::SSlice { a: &vec_a, b: &vec_b, c: &vec_c, d: &vec_d };
    let v1 = sl_new2
        .into_iter()
        .collect()
        .into_iter()
        .rev()
        .collect::<Vec<_>>();
    let v2 = sl_new2.into_iter().collect_rev();
    assert_eq!(v1, v2);
}
