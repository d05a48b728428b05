use crate_vis::Crate;

#[test]
fn retained_size_records_carry_name_and_size() {
    let c = Crate { name: "core".to_string(), size: 4096 };
    assert_eq!(c.name, "core");
    assert_eq!(c.size, 4096);
    let copy = c.clone();
    assert_eq!(copy.name, c.name);
    assert_eq!(copy.size, c.size);
}
