use functional::ctypes::{unwrap_natural, Natural};

#[test]
fn natural_suc_and_pred() {
    let n = Natural::from(3u8);
    assert_eq!(unwrap_natural(n.suc()), 4);
    assert_eq!(unwrap_natural(n.pred()), 2);
}
