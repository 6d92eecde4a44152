use hydrolix_snapshot::snapshot::{
    attach, functions_address, projects_address, storages_address, tables_address,
    transforms_address,
};

#[test]
fn collection_addresses() {
    assert_eq!(storages_address("h", "o"), "https://h/config/v1/orgs/o/storages");
    assert_eq!(projects_address("h", "o"), "https://h/config/v1/orgs/o/projects");
    assert_eq!(functions_address("h", "o", "p"), "https://h/config/v1/orgs/o/projects/p/functions");
    assert_eq!(tables_address("h", "o", "p"), "https://h/config/v1/orgs/o/projects/p/tables");
    assert_eq!(
        transforms_address("h", "o", "p", "t"),
        "https://h/config/v1/orgs/o/projects/p/tables/t/transforms/"
    );
}

#[test]
fn attach_keeps_absent_lists_absent() {
    let mut slot: Option<Vec<u32>> = None;
    attach(&mut slot, vec![]);
    assert!(slot.is_none());
    attach(&mut slot, vec![1, 2]);
    assert_eq!(slot, Some(vec![1, 2]));
    attach(&mut slot, vec![]);
    assert_eq!(slot, Some(vec![1, 2]));
    attach(&mut slot, vec![3]);
    assert_eq!(slot, Some(vec![1, 2, 3]));
}
