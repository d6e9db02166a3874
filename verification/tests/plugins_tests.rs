use opendeck::plugins::{
    discover_plugins, load_plugin, prepare_action, register_category, resolve_launch,
    ActionDecl, CategoryEntry, LaunchKind, PluginEntry, PluginLoadError, PluginManifest,
    StateDecl,
};

fn manifest(os: &[&str], code_path: Option<&str>) -> PluginManifest {
    PluginManifest {
        version: "1.0".to_string(),
        category: "Tools".to_string(),
        actions: Vec::new(),
        os: os.iter().map(|s| s.to_string()).collect(),
        code_path: code_path.map(|s| s.to_string()),
        code_path_windows: None,
        code_path_macos: None,
        code_path_linux: None,
        property_inspector_path: None,
    }
}

fn action(uuid: &str, icon: &str, pi: &str, images: &[&str]) -> ActionDecl {
    ActionDecl {
        plugin: String::new(),
        uuid: uuid.to_string(),
        icon: icon.to_string(),
        property_inspector: pi.to_string(),
        states: images.iter().map(|i| StateDecl { image: i.to_string() }).collect(),
        disable_automatic_states: false,
    }
}

#[test]
fn direct_platform_match_prefers_os_specific_path() {
    let mut m = manifest(&["linux"], Some("generic.sh"));
    m.code_path_linux = Some("linux-bin".to_string());
    let plan = resolve_launch(&m, &"linux".to_string()).unwrap();
    assert_eq!(plan.kind, LaunchKind::Native);
    assert_eq!(plan.path, "linux-bin");
}

#[test]
fn direct_platform_match_falls_back_to_generic_path() {
    let m = manifest(&["linux"], Some("generic.sh"));
    let plan = resolve_launch(&m, &"linux".to_string()).unwrap();
    assert_eq!(plan.kind, LaunchKind::Native);
    assert_eq!(plan.path, "generic.sh");
}

#[test]
fn windows_only_plugin_runs_through_compatibility_layer() {
    let mut m = manifest(&["windows"], None);
    m.code_path_windows = Some("app.exe".to_string());
    let plan = resolve_launch(&m, &"linux".to_string()).unwrap();
    assert_eq!(plan.kind, LaunchKind::Wine);
    assert_eq!(plan.path, "app.exe");
}

#[test]
fn markup_path_becomes_embedded_view() {
    let m = manifest(&["mac"], Some("index.html"));
    let plan = resolve_launch(&m, &"mac".to_string()).unwrap();
    assert_eq!(plan.kind, LaunchKind::Html);
    assert_eq!(plan.path, "index.html");
}

#[test]
fn unsupported_platform_fails_the_plugin() {
    let m = manifest(&["mac"], Some("generic.sh"));
    let err = resolve_launch(&m, &"linux".to_string()).unwrap_err();
    assert_eq!(err, PluginLoadError::UnsupportedPlatform);
}

#[test]
fn supported_platform_without_any_path_fails_the_plugin() {
    let m = manifest(&["linux"], None);
    let err = resolve_launch(&m, &"linux".to_string()).unwrap_err();
    assert_eq!(err, PluginLoadError::UnsupportedPlatform);
}

#[test]
fn prepare_action_stamps_and_resolves_paths() {
    let a = action("com.x.act", "icon.png", "", &["actionDefaultImage", "alt.png"]);
    let prepared = prepare_action(
        &a,
        &"com.x".to_string(),
        &"/plugins/com.x".to_string(),
        &Some("pi.html".to_string()),
    );
    assert_eq!(prepared.plugin, "com.x");
    assert_eq!(prepared.uuid, "com.x.act");
    assert_eq!(prepared.icon, "/plugins/com.x/icon.png");
    assert_eq!(prepared.property_inspector, "/plugins/com.x/pi.html");
    assert_eq!(prepared.states[0].image, "/plugins/com.x/icon.png");
    assert_eq!(prepared.states[1].image, "/plugins/com.x/alt.png");
}

#[test]
fn action_own_property_inspector_wins_over_default() {
    let a = action("u", "i.png", "own.html", &[]);
    let prepared = prepare_action(
        &a,
        &"p".to_string(),
        &"/d".to_string(),
        &Some("default.html".to_string()),
    );
    assert_eq!(prepared.property_inspector, "/d/own.html");
}

#[test]
fn one_unloadable_plugin_does_not_prevent_another() {
    let bad = PluginEntry {
        uuid: "com.bad".to_string(),
        dir: "/plugins/com.bad".to_string(),
        manifest: Some(manifest(&["mac"], None)),
    };
    let good = PluginEntry {
        uuid: "com.good".to_string(),
        dir: "/plugins/com.good".to_string(),
        manifest: Some(manifest(&["linux"], Some("run.sh"))),
    };
    let loads = discover_plugins(&vec![bad, good], &"linux".to_string());
    assert_eq!(loads.len(), 2);
    assert_eq!(loads[0].outcome, Err(PluginLoadError::UnsupportedPlatform));
    let plan = loads[1].outcome.as_ref().unwrap();
    assert_eq!(plan.path, "run.sh");
    assert_eq!(plan.kind, LaunchKind::Native);
}

#[test]
fn unreadable_manifest_fails_only_that_plugin() {
    let broken = PluginEntry {
        uuid: "com.broken".to_string(),
        dir: "/plugins/com.broken".to_string(),
        manifest: None,
    };
    let load = load_plugin(&broken, &"linux".to_string());
    assert_eq!(load.outcome, Err(PluginLoadError::ManifestUnreadable));
    assert!(load.actions.is_empty());
}

#[test]
fn category_registration_appends_to_existing_category() {
    let mut categories: Vec<CategoryEntry> = Vec::new();
    register_category(&mut categories, "Tools".to_string(), vec![action("a1", "i", "", &[])]);
    register_category(&mut categories, "Media".to_string(), vec![action("m1", "i", "", &[])]);
    register_category(&mut categories, "Tools".to_string(), vec![action("a2", "i", "", &[])]);
    assert_eq!(categories.len(), 2);
    assert_eq!(categories[0].name, "Tools");
    let uuids: Vec<&str> = categories[0].actions.iter().map(|a| a.uuid.as_str()).collect();
    assert_eq!(uuids, vec!["a1", "a2"]);
    assert_eq!(categories[1].name, "Media");
}
