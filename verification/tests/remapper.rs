use reborn::remapper::{build_output_file_name, output_target, remapped_file_name, OutputTarget};

#[test]
fn remapped_names() {
    assert_eq!(remapped_file_name("mod.jar"), "mod-remapped.jar");
    assert_eq!(remapped_file_name(".jar"), "-remapped.jar");
}

#[test]
fn output_paths() {
    assert_eq!(build_output_file_name("mod.jar", "/out", true), "/out/mod-remapped.jar");
    assert_eq!(build_output_file_name("mod.jar", "/out/renamed.jar", false), "/out/renamed-remapped.jar");
}

#[test]
fn output_targets() {
    assert_eq!(output_target(&None, 3, 0), OutputTarget::WorkingDirectory);
    assert_eq!(output_target(&Some(vec!["/o".to_string()]), 3, 1), OutputTarget::BesideInputJar);
    assert_eq!(output_target(&Some(vec!["/o".to_string()]), 1, 0), OutputTarget::Under("/o".to_string()));
    assert_eq!(
        output_target(&Some(vec!["/a".to_string(), "/b".to_string()]), 2, 0),
        OutputTarget::Under("/a".to_string())
    );
    assert_eq!(
        output_target(&Some(vec!["./a".to_string(), "./b".to_string()]), 2, 1),
        OutputTarget::Under("./b".to_string())
    );
    assert_eq!(output_target(&Some(vec!["/a".to_string(), "/b".to_string()]), 3, 2), OutputTarget::BesideInputJar);
    assert_eq!(output_target(&Some(Vec::new()), 3, 0), OutputTarget::BesideInputJar);
}
