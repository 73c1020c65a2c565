use cls_rs::colorset::Colorset;
use cls_rs::common::TryFromBytes;

#[test]
fn colorset_test() {
    let new_colorset = Colorset::new();

    let cs_b = new_colorset.as_bytes();

    let (_, de_cs) = Colorset::try_from_bytes(cs_b.as_ref()).unwrap();

    assert_eq!(de_cs, new_colorset);
}
