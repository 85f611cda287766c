use serie::check::GraphWidthType;
use serie::config::{
    classify_user_command_key, CommitOrderType, CoreConfig, CoreOptionConfig, CoreSearchConfig, CursorType,
    GraphColorConfig, GraphConfig, ImageProtocolType, OptionalCoreConfig, OptionalCoreOptionConfig,
    OptionalCoreSearchConfig, OptionalCoreUserCommandConfig, OptionalGraphColorConfig, OptionalUiConfig,
    OptionalUiDetailConfig, OptionalUiListConfig, UiCommonConfig, UiConfig, UiDetailConfig, UiListConfig,
    UiRefsConfig, UiUserCommandConfig, UserCommand, UserCommandConfigKey,
};

fn table<'a>(v: Option<&'a toml::Value>, key: &str) -> Option<&'a toml::Value> {
    v.and_then(|t| t.get(key))
}

fn text(v: Option<&toml::Value>) -> Option<String> {
    v.and_then(|v| v.as_str()).map(|s| s.to_string())
}

fn number(v: Option<&toml::Value>) -> Option<u16> {
    v.and_then(|v| v.as_integer()).map(|n| n as u16)
}

fn flag(v: Option<&toml::Value>) -> Option<bool> {
    v.and_then(|v| v.as_bool())
}

fn strings(v: &toml::Value) -> Vec<String> {
    v.as_array().unwrap().iter().map(|s| s.as_str().unwrap().to_string()).collect()
}

/// Reads a config file's core, ui and graph tables by hand, the way the
/// configuration reader hands them to the library.
fn read(text_: &str) -> (CoreConfig, UiConfig, GraphConfig) {
    let root: toml::Value = toml::from_str(text_).unwrap();
    let core = root.get("core");
    let option = table(core, "option").map(|o| OptionalCoreOptionConfig {
        protocol: text(o.get("protocol")).map(|p| match p.as_str() {
            "kitty" => ImageProtocolType::Kitty,
            "iterm" => ImageProtocolType::Iterm,
            "kitty-unicode" => ImageProtocolType::KittyUnicode,
            _ => ImageProtocolType::Auto,
        }),
        order: text(o.get("order")).map(|p| if p == "topo" { CommitOrderType::Topo } else { CommitOrderType::Chrono }),
        graph_width: text(o.get("graph_width")).map(|p| match p.as_str() {
            "single" => GraphWidthType::Single,
            "double" => GraphWidthType::Double,
            _ => GraphWidthType::Auto,
        }),
    });
    let search = table(core, "search")
        .map(|s| OptionalCoreSearchConfig { ignore_case: flag(s.get("ignore_case")), fuzzy: flag(s.get("fuzzy")) });
    let user_command = table(core, "user_command").map(|u| {
        let mut commands = Vec::new();
        let mut tab_width = None;
        for (key, value) in u.as_table().unwrap() {
            match classify_user_command_key(key).unwrap() {
                UserCommandConfigKey::Command(n) => commands.push((
                    n,
                    UserCommand {
                        name: value.get("name").unwrap().as_str().unwrap().to_string(),
                        commands: strings(value.get("commands").unwrap()),
                    },
                )),
                UserCommandConfigKey::TabWidth => tab_width = value.as_integer().map(|n| n as u16),
                UserCommandConfigKey::Ignored => {}
            }
        }
        OptionalCoreUserCommandConfig { commands, tab_width }
    });
    let ui = root.get("ui");
    let cursor_type = table(table(ui, "common"), "cursor_type").map(|c| match c.get("Virtual") {
        Some(v) => CursorType::Virtual(v.as_str().unwrap().to_string()),
        None => CursorType::Native,
    });
    let list = table(ui, "list").map(|l| OptionalUiListConfig {
        subject_min_width: number(l.get("subject_min_width")),
        date_format: text(l.get("date_format")),
        date_width: number(l.get("date_width")),
        date_local: flag(l.get("date_local")),
        name_width: number(l.get("name_width")),
    });
    let detail = table(ui, "detail").map(|d| OptionalUiDetailConfig {
        height: number(d.get("height")),
        date_format: text(d.get("date_format")),
        date_local: flag(d.get("date_local")),
    });
    let ui_config = UiConfig::from_optional(OptionalUiConfig {
        cursor_type,
        list,
        detail,
        user_command_height: number(table(table(ui, "user_command"), "height")),
        refs_width: number(table(table(ui, "refs"), "width")),
    });
    let color = table(root.get("graph"), "color").map(|c| OptionalGraphColorConfig {
        branches: c.get("branches").map(strings),
        edge: text(c.get("edge")),
        background: text(c.get("background")),
    });
    (
        CoreConfig::from_optional(OptionalCoreConfig { option, search, user_command }),
        ui_config,
        GraphConfig::from_optional(color),
    )
}

fn command(words: &[&str], name: &str) -> UserCommand {
    UserCommand { name: name.into(), commands: words.iter().map(|w| w.to_string()).collect() }
}

#[test]
fn test_config_complete_toml() {
    let toml = r##"
            [core.option]
            protocol = "kitty"
            order = "topo"
            graph_width = "single"
            [core.search]
            ignore_case = true
            fuzzy = true
            [core.user_command]
            commands_1 = { name = "git diff no color", commands = ["git", "diff", "{{first_parent_hash}}", "{{target_hash}}"] }
            commands_2 = { name = "echo hello", commands = ["echo", "hello"] }
            commands_10 = { name = "echo world", commands = ["echo", "world"] }
            tab_width = 2
            [ui.common]
            cursor_type = { Virtual = "|" }
            [ui.list]
            subject_min_width = 40
            date_format = "%Y/%m/%d"
            date_width = 20
            date_local = false
            name_width = 30
            [ui.detail]
            height = 30
            date_format = "%Y/%m/%d %H:%M:%S"
            date_local = false
            [ui.user_command]
            height = 30
            [ui.refs]
            width = 40
            [graph.color]
            branches = ["#ff0000", "#00ff00", "#0000ff"]
            edge = "#000000"
            background = "#ffffff"
        "##;
    let (core, ui, graph) = read(toml);
    assert_eq!(
        core.option,
        CoreOptionConfig {
            protocol: Some(ImageProtocolType::Kitty),
            order: Some(CommitOrderType::Topo),
            graph_width: Some(GraphWidthType::Single),
        }
    );
    assert_eq!(core.search, CoreSearchConfig { ignore_case: true, fuzzy: true });
    assert_eq!(core.user_command.tab_width, 2);
    assert_eq!(core.user_command.commands.len(), 3);
    assert_eq!(
        core.user_command.command("1"),
        Some(&command(&["git", "diff", "{{first_parent_hash}}", "{{target_hash}}"], "git diff no color"))
    );
    assert_eq!(core.user_command.command("2"), Some(&command(&["echo", "hello"], "echo hello")));
    assert_eq!(core.user_command.command("10"), Some(&command(&["echo", "world"], "echo world")));
    assert_eq!(
        ui,
        UiConfig {
            common: UiCommonConfig { cursor_type: CursorType::Virtual("|".into()) },
            list: UiListConfig {
                subject_min_width: 40,
                date_format: "%Y/%m/%d".into(),
                date_width: 20,
                date_local: false,
                name_width: 30,
            },
            detail: UiDetailConfig { height: 30, date_format: "%Y/%m/%d %H:%M:%S".into(), date_local: false },
            user_command: UiUserCommandConfig { height: 30 },
            refs: UiRefsConfig { width: 40 },
        }
    );
    assert_eq!(
        graph,
        GraphConfig {
            color: GraphColorConfig {
                branches: vec!["#ff0000".into(), "#00ff00".into(), "#0000ff".into()],
                edge: "#000000".into(),
                background: "#ffffff".into(),
            },
        }
    );
}

#[test]
fn test_config_partial_toml() {
    let toml = r#"
            [ui.list]
            date_format = "%Y/%m/%d"
        "#;
    let (core, ui, graph) = read(toml);
    assert_eq!(core, CoreConfig::default());
    assert_eq!(
        ui,
        UiConfig {
            common: UiCommonConfig { cursor_type: CursorType::Native },
            list: UiListConfig {
                subject_min_width: 20,
                date_format: "%Y/%m/%d".into(),
                date_width: 10,
                date_local: true,
                name_width: 20,
            },
            detail: UiDetailConfig { height: 20, date_format: "%Y-%m-%d %H:%M:%S %z".into(), date_local: true },
            user_command: UiUserCommandConfig { height: 20 },
            refs: UiRefsConfig { width: 26 },
        }
    );
    assert_eq!(graph, GraphConfig::default());
}
