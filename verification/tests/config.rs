use serie::config::{classify_user_command_key, user_command_config_from, UserCommandConfigKey};
use serie::view::user_command::expand_tabs;
use serie::config::{
    CoreConfig, CoreOptionConfig, CoreSearchConfig, CoreUserCommandConfig, CursorType, GraphColorConfig,
    GraphConfig, UiCommonConfig, UiConfig, UiDetailConfig, UiListConfig, UiRefsConfig,
    UiUserCommandConfig, UserCommand,
};

#[test]
fn test_config_default() {
    let core = CoreConfig::default();
    let ui = UiConfig::default();
    let graph = GraphConfig::default();
    let expected_core = CoreConfig {
        option: CoreOptionConfig { protocol: None, order: None, graph_width: None },
        search: CoreSearchConfig { ignore_case: false, fuzzy: false },
        user_command: CoreUserCommandConfig {
            commands: vec![(
                "1".into(),
                UserCommand {
                    name: "git diff".into(),
                    commands: vec![
                        "git".into(),
                        "--no-pager".into(),
                        "diff".into(),
                        "--color=always".into(),
                        "{{first_parent_hash}}".into(),
                        "{{target_hash}}".into(),
                    ],
                },
            )],
            tab_width: 4,
        },
    };
    let expected_ui = UiConfig {
        common: UiCommonConfig { cursor_type: CursorType::Native },
        list: UiListConfig {
            subject_min_width: 20,
            date_format: "%Y-%m-%d".into(),
            date_width: 10,
            date_local: true,
            name_width: 20,
        },
        detail: UiDetailConfig { height: 20, date_format: "%Y-%m-%d %H:%M:%S %z".into(), date_local: true },
        user_command: UiUserCommandConfig { height: 20 },
        refs: UiRefsConfig { width: 26 },
    };
    let expected_graph = GraphConfig {
        color: GraphColorConfig {
            branches: vec![
                "#E06C76".into(),
                "#98C379".into(),
                "#E5C07B".into(),
                "#61AFEF".into(),
                "#C678DD".into(),
                "#56B6C2".into(),
            ],
            edge: "#00000000".into(),
            background: "#00000000".into(),
        },
    };
    assert_eq!(core, expected_core);
    assert_eq!(ui, expected_ui);
    assert_eq!(graph, expected_graph);
}

#[test]
fn user_command_lookup_by_number() {
    let c = CoreUserCommandConfig::default();
    assert_eq!(c.command("1").map(|u| u.name.clone()), Some("git diff".to_string()));
    assert!(c.command("2").is_none());
}

#[test]
fn user_command_keys_are_classified() {
    assert_eq!(classify_user_command_key("commands_2"), Ok(UserCommandConfigKey::Command("2".into())));
    assert_eq!(classify_user_command_key("tab_width"), Ok(UserCommandConfigKey::TabWidth));
    assert_eq!(classify_user_command_key("other"), Ok(UserCommandConfigKey::Ignored));
    assert_eq!(
        classify_user_command_key("commands_"),
        Err("command key cannot be empty, like `commands_`".to_string())
    );
    assert_eq!(
        classify_user_command_key("commands"),
        Err("invalid key `commands`, use `commands_n` format instead".to_string())
    );
}

#[test]
fn user_command_config_falls_back_to_defaults() {
    let c = user_command_config_from(vec![], None);
    assert_eq!(c, CoreUserCommandConfig::default());
    let cmd = UserCommand { name: "log".into(), commands: vec!["git".into(), "log".into()] };
    let c = user_command_config_from(vec![("3".into(), cmd.clone())], Some(8));
    assert_eq!(c.commands, vec![("3".to_string(), cmd)]);
    assert_eq!(c.tab_width, 8);
}

#[test]
fn tabs_become_spaces() {
    assert_eq!(expand_tabs("a\tb", 4), "a    b");
    assert_eq!(expand_tabs("\t\t", 2), "    ");
    assert_eq!(expand_tabs("none", 4), "none");
    assert_eq!(expand_tabs("x\t", 0), "x");
}
