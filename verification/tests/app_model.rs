use yourcontrols::app_model::{
    aircraft_config_for, file_aircraft_config, is_aircraft_definition, list_aircraft_configs, plan_server_start,
    ConnectionMethod, DefinitionFile, ServerStart, DEFAULT_PORT,
};
use yourcontrols::assoc::AssocList;

#[test]
fn only_yaml_files_are_aircraft_definitions() {
    assert!(is_aircraft_definition(Some("yaml")));
    assert!(!is_aircraft_definition(Some("yml")));
    assert!(!is_aircraft_definition(Some("YAML")));
    assert!(!is_aircraft_definition(Some("yamlx")));
    assert!(!is_aircraft_definition(None));
}

#[test]
fn stems_split_into_category_and_name() {
    let (category, config) = aircraft_config_for("Asobo - Cessna 172", "defs/Asobo - Cessna 172.yaml".to_string());
    assert_eq!(category, "Asobo");
    assert_eq!(config.name, "Cessna 172");
    assert_eq!(config.path, "defs/Asobo - Cessna 172.yaml");
    let (category, config) = aircraft_config_for("Standalone", "defs/Standalone.yaml".to_string());
    assert_eq!(category, "Other");
    assert_eq!(config.name, "Standalone");
}

#[test]
fn configs_are_filed_by_category() {
    let mut groups = AssocList::new();
    for stem in ["Asobo - A", "FBW - B", "Asobo - C"] {
        let (category, config) = aircraft_config_for(stem, format!("{}.yaml", stem));
        file_aircraft_config(&mut groups, category, config);
    }
    assert_eq!(groups.len(), 2);
    assert_eq!(groups.key_at(0), "Asobo");
    let names: Vec<&str> = groups.value_at(0).iter().map(|c| c.name.as_str()).collect();
    assert_eq!(names, vec!["A", "C"]);
    assert_eq!(groups.key_at(1), "FBW");
}

fn file(stem: &str, extension: Option<&str>) -> DefinitionFile {
    DefinitionFile {
        stem: stem.to_string(),
        extension: extension.map(str::to_string),
        path: format!("defs/{}", stem),
    }
}

#[test]
fn listing_files_only_yaml_definitions_by_category() {
    let files = vec![
        file("Asobo - A", Some("yaml")),
        file("notes", Some("txt")),
        file("Lone", Some("yaml")),
        file("Asobo - B", Some("yaml")),
        file("README", None),
    ];
    let groups = list_aircraft_configs(&files);
    assert_eq!(groups.len(), 2);
    assert_eq!(groups.key_at(0), "Asobo");
    let names: Vec<&str> = groups.value_at(0).iter().map(|c| c.name.as_str()).collect();
    assert_eq!(names, vec!["A", "B"]);
    assert_eq!(groups.value_at(0)[1].path, "defs/Asobo - B");
    assert_eq!(groups.key_at(1), "Other");
    assert_eq!(groups.value_at(1)[0].name, "Lone");
    assert_eq!(list_aircraft_configs(&Vec::new()).len(), 0);
}

#[test]
fn hosting_plans_follow_the_method() {
    assert_eq!(
        plan_server_start(ConnectionMethod::Direct, false, None),
        ServerStart::Direct { is_ipv6: false, port: DEFAULT_PORT, upnp: true }
    );
    assert_eq!(DEFAULT_PORT, 25071);
    assert_eq!(
        plan_server_start(ConnectionMethod::Direct, true, Some(4000)),
        ServerStart::Direct { is_ipv6: true, port: 4000, upnp: true }
    );
    assert_eq!(plan_server_start(ConnectionMethod::CloudServer, true, Some(4000)), ServerStart::HolePunch { is_ipv6: true });
    assert_eq!(plan_server_start(ConnectionMethod::Relay, true, None), ServerStart::Relay);
}
