use pvz_mod_loader::configs::{ModInfo, ModList};

#[test]
fn mod_list_holds_the_mods_in_order() {
    let list = ModList { mods: vec![String::from("second"), String::from("first")] };
    assert_eq!(list.mods, vec![String::from("second"), String::from("first")]);
    assert_eq!(list.clone(), list);
}

#[test]
fn mod_info_holds_what_a_mod_says_of_itself() {
    let info = ModInfo {
        name: String::from("bigger-sun"),
        version: String::from("1.2.0"),
        compatible_pvz_versions: vec![String::from("1.0.0.1051")],
        title: String::from("Bigger Sun"),
        author: String::from("someone"),
        description: String::from("Makes the sun bigger."),
        homepage: None,
        target_dlls: vec![String::from("sun.dll")],
    };
    assert_eq!(info.target_dlls, vec![String::from("sun.dll")]);
    assert_eq!(info.homepage, None);
    assert_eq!(info.clone(), info);
}
