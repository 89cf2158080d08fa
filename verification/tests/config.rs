use toolbox::config::{OrganizeConfig, OrganizeRule, ToolboxConfig};

#[test]
fn default_settings_set_nothing() {
    let config = ToolboxConfig::default();
    assert!(config.organize.is_none());
    let organize = OrganizeConfig::default();
    assert!(organize.default_mode.is_none());
    assert!(organize.custom_rules.is_none());
}

#[test]
fn settings_without_rules_give_no_rules() {
    assert!(ToolboxConfig::default().custom_rules().is_empty());
    let bare = ToolboxConfig {
        organize: Some(OrganizeConfig { default_mode: Some("date".to_string()), custom_rules: None }),
    };
    assert!(bare.custom_rules().is_empty());
}

#[test]
fn rules_come_out_in_their_order() {
    let config = ToolboxConfig {
        organize: Some(OrganizeConfig {
            default_mode: None,
            custom_rules: Some(vec![
                OrganizeRule { pattern: "*.pdf".to_string(), target_dir: "Docs/".to_string() },
                OrganizeRule { pattern: "*.png".to_string(), target_dir: "Pictures".to_string() },
            ]),
        }),
    };
    let rules = config.custom_rules();
    assert_eq!(rules.len(), 2);
    assert_eq!(rules[0].pattern, "*.pdf");
    assert_eq!(rules[0].target_dir, "Docs/");
    assert_eq!(rules[1].pattern, "*.png");
    assert_eq!(rules[1].target_dir, "Pictures");
}
