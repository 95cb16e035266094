use registry_search::roots::{Root, SelectedRoots};

fn none() -> SelectedRoots {
    SelectedRoots {
        classes_root: false,
        current_user: false,
        local_machine: false,
        users: false,
        current_config: false,
    }
}

#[test]
fn positions_name_roots() {
    assert_eq!(Root::from_u8(0), Some(Root::HkeyClassesRoot));
    assert_eq!(Root::from_u8(1), Some(Root::HkeyCurrentUser));
    assert_eq!(Root::from_u8(2), Some(Root::HkeyLocalMachine));
    assert_eq!(Root::from_u8(3), Some(Root::HkeyUsers));
    assert_eq!(Root::from_u8(4), Some(Root::HkeyCurrentConfig));
    assert_eq!(Root::from_u8(5), None);
    assert_eq!(Root::from_u8(255), None);
}

#[test]
fn every_root_is_found_at_its_index() {
    let roots = Root::iter();
    assert_eq!(roots.len(), 5);
    for (i, root) in roots.iter().enumerate() {
        assert_eq!(root.index() as usize, i);
        assert_eq!(Root::from_u8(i as u8), Some(*root));
    }
}

#[test]
fn roots_have_their_registry_names() {
    let names: Vec<String> = Root::iter().iter().map(|root| root.to_string()).collect();
    assert_eq!(
        names,
        vec![
            "HKEY_CLASSES_ROOT",
            "HKEY_CURRENT_USER",
            "HKEY_LOCAL_MACHINE",
            "HKEY_USERS",
            "HKEY_CURRENT_CONFIG",
        ]
    );
}

#[test]
fn local_machine_and_users_are_selected_at_first() {
    let selected = SelectedRoots::default();
    assert_eq!(selected.export_roots(), vec![Root::HkeyLocalMachine, Root::HkeyUsers]);
}

#[test]
fn export_keeps_menu_order() {
    let mut selected = none();
    assert_eq!(selected.export_roots(), vec![]);
    for position in [4u8, 0, 3, 1, 2] {
        selected.toggle(&Root::from_u8(position).unwrap());
    }
    assert_eq!(selected.export_roots(), Root::iter());
}

#[test]
fn toggle_changes_one_root() {
    for root in Root::iter() {
        let mut selected = SelectedRoots::default();
        selected.toggle(&root);
        for other in Root::iter() {
            let before = SelectedRoots::default().is_selected(&other);
            assert_eq!(selected.is_selected(&other), before != (other == root));
        }
    }
}

#[test]
fn toggle_twice_changes_nothing() {
    let mut selected = SelectedRoots::default();
    selected.toggle(&Root::HkeyUsers);
    selected.toggle(&Root::HkeyUsers);
    assert_eq!(selected, SelectedRoots::default());
}

#[test]
fn toggles_commute() {
    let mut a = SelectedRoots::default();
    a.toggle(&Root::HkeyUsers);
    a.toggle(&Root::HkeyClassesRoot);
    let mut b = SelectedRoots::default();
    b.toggle(&Root::HkeyClassesRoot);
    b.toggle(&Root::HkeyUsers);
    assert_eq!(a, b);
}
