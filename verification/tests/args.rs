use reborn::args::RebornCliArgs;
use reborn::mappings::{DeobfMappingsType, ModLoader};

#[test]
fn defaults() {
    let a = RebornCliArgs::default();
    assert_eq!(a.verbose, 0);
    assert_eq!(a.game_version, "1.7.10");
    assert_eq!(a.mod_loader, ModLoader::Forge);
    assert_eq!(a.mappings_type, DeobfMappingsType::VersionsJSON);
    assert_eq!(a.mappings_channel, "stable");
    assert_eq!(a.mappings_version, "12");
    assert_eq!(a.output, Some(Vec::new()));
    assert_eq!(a.deflate_compress_level, 2);
    assert!(!a.debug && !a.strip_resources && !a.no_deobf);
    assert_eq!(a.get_deflate_compress_level(), Some(2));
}

#[test]
fn setters_change_one_option() {
    let mut a = RebornCliArgs::default();
    a.set_verbose(3).set_game_version("1.12.2".to_string()).set_strip_resources(true);
    assert_eq!(a.verbose, 3);
    assert_eq!(a.game_version, "1.12.2");
    assert!(a.strip_resources);
    assert_eq!(a.mappings_channel, "stable");
    a.set_deflate_compress_level(0);
    assert_eq!(a.get_deflate_compress_level(), None);
    a.set_mod_loader(ModLoader::Fabric).set_output(None);
    assert_eq!(a.mod_loader, ModLoader::Fabric);
    assert_eq!(a.output, None);
}

#[test]
fn loader_names() {
    assert_eq!(ModLoader::Forge.to_string(), "Forge");
    assert_eq!(ModLoader::NeoForge.to_string(), "NeoForge");
    assert_eq!(ModLoader::Fabric.to_string(), "Fabric");
}
