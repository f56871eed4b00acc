use asez2_shared_db::essential::concat::concat_slice;

#[test]
fn basic_usage() {
    const A: &[&str] = &["1", "2"];
    const B: &[&str] = &["3", "4"];
    let c = concat_slice(&[A, B]);

    assert_eq!(c, ["1", "2", "3", "4"])
}
