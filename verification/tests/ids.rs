use ttstack::ids::{id_from_uuid, new_host_id, new_vm_id};

fn lower_hex(c: char) -> bool {
    c.is_ascii_digit() || ('a'..='f').contains(&c)
}

#[test]
fn vm_id_shape() {
    let id = new_vm_id();
    let cs: Vec<char> = id.chars().collect();
    assert_eq!(cs.len(), 12);
    assert_eq!(cs[8], '-');
    for (i, c) in cs.iter().enumerate() {
        if i != 8 {
            assert!(lower_hex(*c), "{id}");
        }
    }
}

#[test]
fn host_id_shape() {
    let id = new_host_id();
    assert_eq!(id.len(), 8);
    assert!(id.chars().all(lower_hex), "{id}");
}

#[test]
fn ids_are_fresh() {
    assert_ne!(new_vm_id(), new_vm_id());
    assert_ne!(new_host_id(), new_host_id());
}

#[test]
fn ids_from_a_uuid() {
    let u = "67e55044-10b1-426f-9247-bb680e5fe0c8";
    assert_eq!(id_from_uuid(u, 12), "67e55044-10b");
    assert_eq!(id_from_uuid(u, 8), "67e55044");
    assert_eq!(id_from_uuid(u, 0), "");
}
