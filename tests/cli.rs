use morrobroom::cli::{
    check_morrowind_directory, get_extension, validate_input_map, validate_input_plugin,
    validate_map_extension, validate_mode, validate_plugin_extension, workdir_names,
};

#[test]
fn extension_is_lower_cased() {
    assert_eq!(get_extension("maps/Level.MAP"), "map");
    assert_eq!(get_extension("x/y.tar.gz"), "gz");
}

#[test]
fn extension_edge_cases() {
    assert_eq!(get_extension("maps/.hidden"), "");
    assert_eq!(get_extension("a.b/c"), "");
    assert_eq!(get_extension("noext"), "");
    assert_eq!(get_extension(".."), "");
    assert_eq!(get_extension("dir/name."), "");
}

#[test]
fn extension_ignores_trailing_slashes() {
    assert_eq!(get_extension("dir/x.map/"), "map");
    assert_eq!(get_extension("dir/x.Map//"), "map");
    assert_eq!(get_extension("/"), "");
    assert_eq!(validate_map_extension("dir/x.map/"), Ok(()));
}

#[test]
fn map_extension() {
    assert_eq!(validate_map_extension("a/b.Map"), Ok(()));
    assert_eq!(
        validate_map_extension("a/b.txt"),
        Err("\"a/b.txt\" is not a map file!.".to_string())
    );
}

#[test]
fn plugin_extension() {
    for p in ["x.esp", "x.ESM", "x.omwaddon", "x.omwgame"] {
        assert_eq!(validate_plugin_extension(p), Ok(()));
    }
    assert_eq!(
        validate_plugin_extension("x.txt"),
        Err("\"x.txt\" is not an Elder Scrolls plugin file!.".to_string())
    );
}

#[test]
fn input_map() {
    assert_eq!(validate_input_map("-", false), Ok("-".to_string()));
    assert_eq!(validate_input_map("m/a.map", true), Ok("m/a.map".to_string()));
    assert_eq!(
        validate_input_map("m/a.map", false),
        Err("\"m/a.map\" (file does not exist).".to_string())
    );
    assert_eq!(
        validate_input_map("m/a.txt", true),
        Err("\"m/a.txt\" is not a map file!.".to_string())
    );
}

#[test]
fn input_plugin() {
    assert_eq!(validate_input_plugin("-"), Ok("-".to_string()));
    assert_eq!(validate_input_plugin("out.esp"), Ok("out.esp".to_string()));
    assert!(validate_input_plugin("out.map").is_err());
}

#[test]
fn modes() {
    for m in ["vanilla", "openmw", "librequake", "mw", "lq"] {
        assert_eq!(validate_mode(m), Ok(m.to_string()));
    }
    assert_eq!(
        validate_mode("quake"),
        Err("\"quake\" is not a valid mode.".to_string())
    );
}

#[test]
fn game_directory() {
    assert_eq!(
        check_morrowind_directory("/g", true, true, true),
        Ok("/g".to_string())
    );
    assert_eq!(
        check_morrowind_directory("/g", false, false, false),
        Err("Directory '/g' does not exist.".to_string())
    );
    assert_eq!(
        check_morrowind_directory("/g", true, false, false),
        Err("'/g' is not a directory.".to_string())
    );
    assert_eq!(
        check_morrowind_directory("/g", true, true, false),
        Err("'/g' does not appear to be a valid Morrowind directory as it does not contain Morrowind.esm.".to_string())
    );
}

#[test]
fn workdir_split() {
    assert_eq!(
        workdir_names("maps/test.map"),
        Some(("maps".to_string(), "test".to_string()))
    );
    assert_eq!(workdir_names("test.map"), None);
    assert_eq!(workdir_names("a.b/test"), None);
}
