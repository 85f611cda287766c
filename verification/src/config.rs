use vstd::prelude::*;

use crate::check::GraphWidthType;

verus! {

/// Image protocol named on the command line or in the config.
#[derive(Debug, Clone, Copy, PartialEq, Eq, Structural)]
pub enum ImageProtocolType {
    Auto,
    Iterm,
    Kitty,
    KittyUnicode,
    Ascii,
}

/// Commit ordering named on the command line or in the config.
#[derive(Debug, Clone, Copy, PartialEq, Eq, Structural)]
pub enum CommitOrderType {
    Chrono,
    Topo,
}

#[derive(Debug, Clone, PartialEq, Eq)]
pub struct CoreConfig {
    pub option: CoreOptionConfig,
    pub search: CoreSearchConfig,
    pub user_command: CoreUserCommandConfig,
}

#[derive(Debug, Clone, Copy, PartialEq, Eq, Structural)]
pub struct CoreOptionConfig {
    pub protocol: Option<ImageProtocolType>,
    pub order: Option<CommitOrderType>,
    pub graph_width: Option<GraphWidthType>,
}

#[derive(Debug, Clone, Copy, PartialEq, Eq, Structural)]
pub struct CoreSearchConfig {
    pub ignore_case: bool,
    pub fuzzy: bool,
}

/// User commands keyed by their number (the `n` of `commands_n`).
#[derive(Debug, Clone, PartialEq, Eq)]
pub struct CoreUserCommandConfig {
    pub commands: Vec<(String, UserCommand)>,
    pub tab_width: u16,
}

#[derive(Debug, Clone, PartialEq, Eq)]
pub struct UserCommand {
    pub name: String,
    pub commands: Vec<String>,
}

#[derive(Debug, Clone, PartialEq, Eq)]
pub struct UiConfig {
    pub common: UiCommonConfig,
    pub list: UiListConfig,
    pub detail: UiDetailConfig,
    pub user_command: UiUserCommandConfig,
    pub refs: UiRefsConfig,
}

#[derive(Debug, Clone, PartialEq, Eq)]
pub struct UiCommonConfig {
    pub cursor_type: CursorType,
}

#[derive(Debug, Clone, PartialEq, Eq)]
pub enum CursorType {
    Native,
    Virtual(String),
}

#[derive(Debug, Clone, PartialEq, Eq)]
pub struct UiListConfig {
    pub subject_min_width: u16,
    pub date_format: String,
    pub date_width: u16,
    pub date_local: bool,
    pub name_width: u16,
}

#[derive(Debug, Clone, PartialEq, Eq)]
pub struct UiDetailConfig {
    pub height: u16,
    pub date_format: String,
    pub date_local: bool,
}

#[derive(Debug, Clone, Copy, PartialEq, Eq, Structural)]
pub struct UiUserCommandConfig {
    pub height: u16,
}

#[derive(Debug, Clone, Copy, PartialEq, Eq, Structural)]
pub struct UiRefsConfig {
    pub width: u16,
}

#[derive(Debug, Clone, PartialEq, Eq)]
pub struct GraphConfig {
    pub color: GraphColorConfig,
}

#[derive(Debug, Clone, PartialEq, Eq)]
pub struct GraphColorConfig {
    pub branches: Vec<String>,
    pub edge: String,
    pub background: String,
}

impl Default for CoreOptionConfig {
    fn default() -> (c: CoreOptionConfig)
        ensures
            c == (CoreOptionConfig { protocol: None, order: None, graph_width: None }),
    {
        CoreOptionConfig { protocol: None, order: None, graph_width: None }
    }
}

impl Default for CoreSearchConfig {
    fn default() -> (c: CoreSearchConfig)
        ensures
            c == (CoreSearchConfig { ignore_case: false, fuzzy: false }),
    {
        CoreSearchConfig { ignore_case: false, fuzzy: false }
    }
}

fn strings(items: &[&str]) -> (v: Vec<String>)
    ensures
        v@.len() == items@.len(),
        forall|i: int| 0 <= i < items@.len() ==> (#[trigger] v@[i])@ == items@[i]@,
{
    let mut v: Vec<String> = Vec::new();
    let mut i: usize = 0;
    while i < items.len()
        invariant
            i <= items@.len(),
            v@.len() == i,
            forall|j: int| 0 <= j < i ==> (#[trigger] v@[j])@ == items@[j]@,
        decreases items@.len() - i,
    {
        v.push(String::from_str(items[i]));
        i += 1;
    }
    v
}

impl Default for CoreUserCommandConfig {
    /// One command, number 1, showing `git diff` between the first parent and the target.
    fn default() -> (c: CoreUserCommandConfig)
        ensures
            c.tab_width == 4,
            c.commands@.len() == 1,
            c.commands@[0].0@ == "1"@,
            c.commands@[0].1.name@ == "git diff"@,
            c.commands@[0].1.commands@.len() == 6,
            c.commands@[0].1.commands@[0]@ == "git"@,
            c.commands@[0].1.commands@[1]@ == "--no-pager"@,
            c.commands@[0].1.commands@[2]@ == "diff"@,
            c.commands@[0].1.commands@[3]@ == "--color=always"@,
            c.commands@[0].1.commands@[4]@ == "{{first_parent_hash}}"@,
            c.commands@[0].1.commands@[5]@ == "{{target_hash}}"@,
    {
        let commands = strings(
            &["git", "--no-pager", "diff", "--color=always", "{{first_parent_hash}}", "{{target_hash}}"],
        );
        let mut list = Vec::new();
        list.push((String::from_str("1"), UserCommand { name: String::from_str("git diff"), commands }));
        CoreUserCommandConfig { commands: list, tab_width: 4 }
    }
}

impl Default for UiListConfig {
    fn default() -> (c: UiListConfig)
        ensures
            c.subject_min_width == 20,
            c.date_format@ == "%Y-%m-%d"@,
            c.date_width == 10,
            c.date_local,
            c.name_width == 20,
    {
        UiListConfig {
            subject_min_width: 20,
            date_format: String::from_str("%Y-%m-%d"),
            date_width: 10,
            date_local: true,
            name_width: 20,
        }
    }
}

impl Default for UiDetailConfig {
    fn default() -> (c: UiDetailConfig)
        ensures
            c.height == 20,
            c.date_format@ == "%Y-%m-%d %H:%M:%S %z"@,
            c.date_local,
    {
        UiDetailConfig { height: 20, date_format: String::from_str("%Y-%m-%d %H:%M:%S %z"), date_local: true }
    }
}

impl Default for GraphColorConfig {
    /// Six branch colours and a transparent edge and background.
    fn default() -> (c: GraphColorConfig)
        ensures
            c.branches@.len() == 6,
            c.branches@[0]@ == "#E06C76"@,
            c.branches@[1]@ == "#98C379"@,
            c.branches@[2]@ == "#E5C07B"@,
            c.branches@[3]@ == "#61AFEF"@,
            c.branches@[4]@ == "#C678DD"@,
            c.branches@[5]@ == "#56B6C2"@,
            c.edge@ == "#00000000"@,
            c.background@ == "#00000000"@,
    {
        GraphColorConfig {
            branches: strings(&["#E06C76", "#98C379", "#E5C07B", "#61AFEF", "#C678DD", "#56B6C2"]),
            edge: String::from_str("#00000000"),
            background: String::from_str("#00000000"),
        }
    }
}

impl Default for CoreConfig {
    fn default() -> (c: CoreConfig)
        ensures
            c.option == (CoreOptionConfig { protocol: None, order: None, graph_width: None }),
            c.search == (CoreSearchConfig { ignore_case: false, fuzzy: false }),
            c.user_command.tab_width == 4,
            c.user_command.commands@.len() == 1,
    {
        CoreConfig {
            option: CoreOptionConfig::default(),
            search: CoreSearchConfig::default(),
            user_command: CoreUserCommandConfig::default(),
        }
    }
}

impl Default for UiConfig {
    fn default() -> (c: UiConfig)
        ensures
            c.common.cursor_type == CursorType::Native,
            c.list.subject_min_width == 20,
            c.list.date_format@ == "%Y-%m-%d"@,
            c.list.date_width == 10,
            c.list.date_local,
            c.list.name_width == 20,
            c.detail.height == 20,
            c.detail.date_format@ == "%Y-%m-%d %H:%M:%S %z"@,
            c.detail.date_local,
            c.user_command.height == 20,
            c.refs.width == 26,
    {
        UiConfig {
            common: UiCommonConfig { cursor_type: CursorType::Native },
            list: UiListConfig::default(),
            detail: UiDetailConfig::default(),
            user_command: UiUserCommandConfig { height: 20 },
            refs: UiRefsConfig { width: 26 },
        }
    }
}

impl Default for GraphConfig {
    fn default() -> (c: GraphConfig)
        ensures
            c.color.branches@.len() == 6,
            c.color.edge@ == "#00000000"@,
            c.color.background@ == "#00000000"@,
    {
        GraphConfig { color: GraphColorConfig::default() }
    }
}

/// The first command listed under `key`.
pub open spec fn first_command(cmds: Seq<(String, UserCommand)>, key: Seq<char>) -> Option<UserCommand>
    decreases cmds.len(),
{
    if cmds.len() == 0 {
        None
    } else if cmds[0].0@ == key {
        Some(cmds[0].1)
    } else {
        first_command(cmds.skip(1), key)
    }
}

impl CoreUserCommandConfig {
    /// The user command with number `key`, if configured.
    pub fn command(&self, key: &str) -> (r: Option<&UserCommand>)
        ensures
            match first_command(self.commands@, key@) {
                Some(c) => r matches Some(x) && *x == c,
                None => r is None,
            },
    {
        let mut i: usize = 0;
        proof {
            assert(self.commands@.skip(0) == self.commands@);
        }
        while i < self.commands.len()
            invariant
                i <= self.commands@.len(),
                first_command(self.commands@, key@) == first_command(self.commands@.skip(i as int), key@),
            decreases self.commands@.len() - i,
        {
            proof {
                assert(self.commands@.skip(i as int)[0] == self.commands@[i as int]);
                assert(self.commands@.skip(i as int).skip(1) == self.commands@.skip(i + 1));
            }
            if crate::text::str_eq(self.commands[i].0.as_str(), key) {
                return Some(&self.commands[i].1);
            }
            i += 1;
        }
        None
    }
}

/// What a key of the `[core.user_command]` table configures.
#[derive(Debug, Clone, PartialEq, Eq)]
pub enum UserCommandConfigKey {
    /// `commands_<n>`: the user command numbered `n`.
    Command(String),
    TabWidth,
    /// Any other key, read and left unused.
    Ignored,
}

pub open spec fn user_command_key_prefix() -> Seq<char> {
    seq!['c', 'o', 'm', 'm', 'a', 'n', 'd', 's', '_']
}

/// How the key `key` of the user command table is read: `commands_<n>` with
/// a non-empty `n` names a command, `tab_width` the tab width; an empty `n`
/// and the bare key `commands` are refused; other keys are ignored.
pub fn classify_user_command_key(key: &str) -> (r: Result<UserCommandConfigKey, String>)
    ensures
        crate::text::starts_with(key@, user_command_key_prefix()) ==> if key@.len() == 9 {
            r matches Err(e) && e@ == "command key cannot be empty, like `commands_`"@
        } else {
            r matches Ok(UserCommandConfigKey::Command(n)) && n@ == key@.skip(9)
        },
        !crate::text::starts_with(key@, user_command_key_prefix()) ==> if key@ == "tab_width"@ {
            r == Ok::<UserCommandConfigKey, String>(UserCommandConfigKey::TabWidth)
        } else if key@ == "commands"@ {
            r matches Err(e) && e@ == "invalid key `commands`, use `commands_n` format instead"@
        } else {
            r == Ok::<UserCommandConfigKey, String>(UserCommandConfigKey::Ignored)
        },
{
    let chars = crate::text::chars_of(key);
    let prefix: Vec<char> = vec!['c', 'o', 'm', 'm', 'a', 'n', 'd', 's', '_'];
    proof {
        assert(prefix@ == user_command_key_prefix());
        assert(chars@.skip(0) == chars@);
    }
    if crate::text::matches_at(&chars, 0, &prefix) {
        if chars.len() == 9 {
            Err(String::from_str("command key cannot be empty, like `commands_`"))
        } else {
            let suffix = crate::text::slice_chars(&chars, 9, chars.len());
            proof {
                assert(chars@.subrange(9, chars@.len() as int) == key@.skip(9));
            }
            Ok(UserCommandConfigKey::Command(crate::text::string_from_chars(&suffix)))
        }
    } else if crate::text::str_eq(key, "tab_width") {
        Ok(UserCommandConfigKey::TabWidth)
    } else if crate::text::str_eq(key, "commands") {
        Err(String::from_str("invalid key `commands`, use `commands_n` format instead"))
    } else {
        Ok(UserCommandConfigKey::Ignored)
    }
}

/// The user command settings read from a config file: the commands found
/// there replace the default ones unless there are none, and the tab width
/// is 4 unless given.
pub fn user_command_config_from(commands: Vec<(String, UserCommand)>, tab_width: Option<u16>) -> (c:
    CoreUserCommandConfig)
    ensures
        commands@.len() > 0 ==> c.commands@ == commands@,
        commands@.len() == 0 ==> c.commands@.len() == 1 && c.commands@[0].0@ == "1"@ && c.commands@[0].1.name@
            == "git diff"@,
        c.tab_width == (match tab_width {
            Some(w) => w,
            None => 4u16,
        }),
{
    let default_config = CoreUserCommandConfig::default();
    let commands = if commands.len() == 0 {
        default_config.commands
    } else {
        commands
    };
    let tab_width = match tab_width {
        Some(w) => w,
        None => 4,
    };
    CoreUserCommandConfig { commands, tab_width }
}

/// `o`'s value, or `d` when it has none.
pub open spec fn or_else<T>(o: Option<T>, d: T) -> T {
    match o {
        Some(v) => v,
        None => d,
    }
}

/// The text of `o`, or `d` when it has none.
pub open spec fn text_or(o: Option<String>, d: Seq<char>) -> Seq<char> {
    match o {
        Some(v) => v@,
        None => d,
    }
}

/// The `[core.option]` table as written, every key optional.
#[derive(Debug, Clone, Copy, PartialEq, Eq, Structural)]
pub struct OptionalCoreOptionConfig {
    pub protocol: Option<ImageProtocolType>,
    pub order: Option<CommitOrderType>,
    pub graph_width: Option<GraphWidthType>,
}

/// The `[core.search]` table as written.
#[derive(Debug, Clone, Copy, PartialEq, Eq, Structural)]
pub struct OptionalCoreSearchConfig {
    pub ignore_case: Option<bool>,
    pub fuzzy: Option<bool>,
}

/// The `[core.user_command]` table as written: the `commands_<n>` entries
/// in the order read, and the tab width.
#[derive(Debug, Clone, PartialEq, Eq)]
pub struct OptionalCoreUserCommandConfig {
    pub commands: Vec<(String, UserCommand)>,
    pub tab_width: Option<u16>,
}

/// The `[core]` table as written.
#[derive(Debug, Clone, PartialEq, Eq)]
pub struct OptionalCoreConfig {
    pub option: Option<OptionalCoreOptionConfig>,
    pub search: Option<OptionalCoreSearchConfig>,
    pub user_command: Option<OptionalCoreUserCommandConfig>,
}

/// The `[ui.list]` table as written.
#[derive(Debug, Clone, PartialEq, Eq)]
pub struct OptionalUiListConfig {
    pub subject_min_width: Option<u16>,
    pub date_format: Option<String>,
    pub date_width: Option<u16>,
    pub date_local: Option<bool>,
    pub name_width: Option<u16>,
}

/// The `[ui.detail]` table as written.
#[derive(Debug, Clone, PartialEq, Eq)]
pub struct OptionalUiDetailConfig {
    pub height: Option<u16>,
    pub date_format: Option<String>,
    pub date_local: Option<bool>,
}

/// The `[ui]` table as written.
#[derive(Debug, Clone, PartialEq, Eq)]
pub struct OptionalUiConfig {
    pub cursor_type: Option<CursorType>,
    pub list: Option<OptionalUiListConfig>,
    pub detail: Option<OptionalUiDetailConfig>,
    pub user_command_height: Option<u16>,
    pub refs_width: Option<u16>,
}

/// The `[graph.color]` table as written.
#[derive(Debug, Clone, PartialEq, Eq)]
pub struct OptionalGraphColorConfig {
    pub branches: Option<Vec<String>>,
    pub edge: Option<String>,
    pub background: Option<String>,
}

fn text_or_default(o: Option<String>, d: &str) -> (r: String)
    ensures
        r@ == text_or(o, d@),
{
    match o {
        Some(v) => v,
        None => String::from_str(d),
    }
}

impl CoreConfig {
    /// The core settings of a config file: every key that is absent takes
    /// its default value (no protocol, order or graph width chosen; case
    /// kept and exact matching in search; the default user command and a
    /// tab width of 4).
    pub fn from_optional(o: OptionalCoreConfig) -> (c: CoreConfig)
        ensures
            c.option == (match o.option {
                Some(p) => CoreOptionConfig { protocol: p.protocol, order: p.order, graph_width: p.graph_width },
                None => CoreOptionConfig { protocol: None, order: None, graph_width: None },
            }),
            c.search.ignore_case == (match o.search {
                Some(s) => or_else(s.ignore_case, false),
                None => false,
            }),
            c.search.fuzzy == (match o.search {
                Some(s) => or_else(s.fuzzy, false),
                None => false,
            }),
            c.user_command.tab_width == (match o.user_command {
                Some(u) => or_else(u.tab_width, 4u16),
                None => 4u16,
            }),
            (o.user_command matches Some(u) && u.commands@.len() > 0) ==> c.user_command.commands@ == o.user_command->0.commands@,
            !(o.user_command matches Some(u) && u.commands@.len() > 0) ==> c.user_command.commands@.len() == 1
                && c.user_command.commands@[0].0@ == "1"@ && c.user_command.commands@[0].1.name@ == "git diff"@,
    {
        let option = match o.option {
            Some(p) => CoreOptionConfig { protocol: p.protocol, order: p.order, graph_width: p.graph_width },
            None => CoreOptionConfig::default(),
        };
        let search = match o.search {
            Some(s) => CoreSearchConfig {
                ignore_case: match s.ignore_case {
                    Some(b) => b,
                    None => false,
                },
                fuzzy: match s.fuzzy {
                    Some(b) => b,
                    None => false,
                },
            },
            None => CoreSearchConfig::default(),
        };
        let user_command = match o.user_command {
            Some(u) => user_command_config_from(u.commands, u.tab_width),
            None => user_command_config_from(Vec::new(), None),
        };
        CoreConfig { option, search, user_command }
    }
}

impl UiConfig {
    /// The interface settings of a config file, every absent key taking its
    /// default value: the native cursor; a 20-column subject at least,
    /// `%Y-%m-%d` dates 10 columns wide in local time and 20-column names in
    /// the list; a 20-row detail pane with `%Y-%m-%d %H:%M:%S %z` dates in
    /// local time; a 20-row user command pane; a 26-column refs pane.
    pub fn from_optional(o: OptionalUiConfig) -> (c: UiConfig)
        ensures
            c.common.cursor_type == or_else(o.cursor_type, CursorType::Native),
            c.list.subject_min_width == (match o.list {
                Some(l) => or_else(l.subject_min_width, 20u16),
                None => 20u16,
            }),
            c.list.date_format@ == (match o.list {
                Some(l) => text_or(l.date_format, "%Y-%m-%d"@),
                None => "%Y-%m-%d"@,
            }),
            c.list.date_width == (match o.list {
                Some(l) => or_else(l.date_width, 10u16),
                None => 10u16,
            }),
            c.list.date_local == (match o.list {
                Some(l) => or_else(l.date_local, true),
                None => true,
            }),
            c.list.name_width == (match o.list {
                Some(l) => or_else(l.name_width, 20u16),
                None => 20u16,
            }),
            c.detail.height == (match o.detail {
                Some(d) => or_else(d.height, 20u16),
                None => 20u16,
            }),
            c.detail.date_format@ == (match o.detail {
                Some(d) => text_or(d.date_format, "%Y-%m-%d %H:%M:%S %z"@),
                None => "%Y-%m-%d %H:%M:%S %z"@,
            }),
            c.detail.date_local == (match o.detail {
                Some(d) => or_else(d.date_local, true),
                None => true,
            }),
            c.user_command.height == or_else(o.user_command_height, 20u16),
            c.refs.width == or_else(o.refs_width, 26u16),
    {
        let cursor_type = match o.cursor_type {
            Some(t) => t,
            None => CursorType::Native,
        };
        let list = match o.list {
            Some(l) => UiListConfig {
                subject_min_width: match l.subject_min_width {
                    Some(v) => v,
                    None => 20,
                },
                date_format: text_or_default(l.date_format, "%Y-%m-%d"),
                date_width: match l.date_width {
                    Some(v) => v,
                    None => 10,
                },
                date_local: match l.date_local {
                    Some(v) => v,
                    None => true,
                },
                name_width: match l.name_width {
                    Some(v) => v,
                    None => 20,
                },
            },
            None => UiListConfig::default(),
        };
        let detail = match o.detail {
            Some(d) => UiDetailConfig {
                height: match d.height {
                    Some(v) => v,
                    None => 20,
                },
                date_format: text_or_default(d.date_format, "%Y-%m-%d %H:%M:%S %z"),
                date_local: match d.date_local {
                    Some(v) => v,
                    None => true,
                },
            },
            None => UiDetailConfig::default(),
        };
        let user_command_height = match o.user_command_height {
            Some(v) => v,
            None => 20,
        };
        let refs_width = match o.refs_width {
            Some(v) => v,
            None => 26,
        };
        UiConfig {
            common: UiCommonConfig { cursor_type },
            list,
            detail,
            user_command: UiUserCommandConfig { height: user_command_height },
            refs: UiRefsConfig { width: refs_width },
        }
    }
}

impl GraphConfig {
    /// The graph settings of a config file: each colour entry that is absent
    /// takes its default (six branch colours, a transparent edge and
    /// background).
    pub fn from_optional(o: Option<OptionalGraphColorConfig>) -> (c: GraphConfig)
        ensures
            (o matches Some(g) && g.branches is Some) ==> c.color.branches@ == o->0.branches->0@,
            !(o matches Some(g) && g.branches is Some) ==> c.color.branches@.len() == 6 && c.color.branches@[0]@
                == "#E06C76"@ && c.color.branches@[5]@ == "#56B6C2"@,
            c.color.edge@ == (match o {
                Some(g) => text_or(g.edge, "#00000000"@),
                None => "#00000000"@,
            }),
            c.color.background@ == (match o {
                Some(g) => text_or(g.background, "#00000000"@),
                None => "#00000000"@,
            }),
    {
        let defaults = GraphColorConfig::default();
        match o {
            Some(g) => GraphConfig {
                color: GraphColorConfig {
                    branches: match g.branches {
                        Some(b) => b,
                        None => defaults.branches,
                    },
                    edge: text_or_default(g.edge, "#00000000"),
                    background: text_or_default(g.background, "#00000000"),
                },
            },
            None => GraphConfig { color: defaults },
        }
    }
}

} // verus!
