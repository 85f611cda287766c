use vstd::prelude::*;

use crate::config::{first_command, CoreUserCommandConfig};
use crate::event::{AppEvent, UserEvent, UserEventWithCount};
use crate::git::string_views;
use crate::keybind::{key_text, sorted_keys_of, sorted_toggle_numbers, KeyBind, KeyEvent};
use crate::padding::{min_int, sat_add_usize, sat_sub};
use crate::text::{decimal, decimal_string};
use crate::widget::commit_detail::{repeat_sat_add, repeat_sat_sub};

verus! {

/// One line of the key column of the help: a block title, the keys bound to
/// an entry, or the blank line between blocks.
#[derive(Debug)]
pub enum HelpKeyLine {
    Title(String),
    Keys(Vec<String>),
    Blank,
}

/// A help entry: the events it describes and its description.
pub type HelpItem = (Vec<UserEvent>, String);

/// The kind of a key line (0 title, 1 keys, 2 blank) and its texts.
pub open spec fn key_line_view(l: HelpKeyLine) -> (int, Seq<Seq<char>>) {
    match l {
        HelpKeyLine::Title(t) => (0, seq![t@]),
        HelpKeyLine::Keys(ks) => (1, string_views(ks@)),
        HelpKeyLine::Blank => (2, Seq::empty()),
    }
}

pub open spec fn key_lines_view(v: Seq<HelpKeyLine>) -> Seq<(int, Seq<Seq<char>>)> {
    v.map_values(|l: HelpKeyLine| key_line_view(l))
}

pub open spec fn items_view(v: Seq<HelpItem>) -> Seq<(Seq<UserEvent>, Seq<char>)> {
    v.map_values(|it: HelpItem| (it.0@, it.1@))
}

/// The texts of the keys bound to each of `evs`, one event after the other.
pub open spec fn event_keys(m: Map<KeyEvent, UserEvent>, evs: Seq<UserEvent>) -> Seq<Seq<char>>
    decreases evs.len(),
{
    if evs.len() == 0 {
        Seq::empty()
    } else {
        event_keys(m, evs.drop_last()) + sorted_keys_of(m, evs.last()).map_values(|k: KeyEvent| key_text(k))
    }
}

/// The blocks of `groups` one after the other, `sep` between two blocks.
pub open spec fn join_groups<T>(groups: Seq<Seq<T>>, sep: T) -> Seq<T>
    decreases groups.len(),
{
    if groups.len() == 0 {
        Seq::empty()
    } else if groups.len() == 1 {
        groups[0]
    } else {
        join_groups(groups.drop_last(), sep).push(sep) + groups.last()
    }
}

pub open spec fn common_helps() -> Seq<(Seq<UserEvent>, Seq<char>)> {
    seq![
        (seq![UserEvent::ForceQuit, UserEvent::Quit], "Quit app"@),
        (seq![UserEvent::HelpToggle], "Open help"@),
    ]
}

pub open spec fn help_helps() -> Seq<(Seq<UserEvent>, Seq<char>)> {
    seq![
        (seq![UserEvent::HelpToggle, UserEvent::Cancel, UserEvent::Close], "Close help"@),
        (seq![UserEvent::NavigateDown], "Scroll down"@),
        (seq![UserEvent::NavigateUp], "Scroll up"@),
        (seq![UserEvent::PageDown], "Scroll page down"@),
        (seq![UserEvent::PageUp], "Scroll page up"@),
        (seq![UserEvent::HalfPageDown], "Scroll half page down"@),
        (seq![UserEvent::HalfPageUp], "Scroll half page up"@),
        (seq![UserEvent::GoToTop], "Go to top"@),
        (seq![UserEvent::GoToBottom], "Go to bottom"@),
    ]
}

pub open spec fn list_helps() -> Seq<(Seq<UserEvent>, Seq<char>)> {
    seq![
        (seq![UserEvent::NavigateDown], "Move down"@),
        (seq![UserEvent::NavigateUp], "Move up"@),
        (seq![UserEvent::GoToParent], "Go to parent"@),
        (seq![UserEvent::GoToTop], "Go to top"@),
        (seq![UserEvent::GoToBottom], "Go to bottom"@),
        (seq![UserEvent::PageDown], "Scroll page down"@),
        (seq![UserEvent::PageUp], "Scroll page up"@),
        (seq![UserEvent::HalfPageDown], "Scroll half page down"@),
        (seq![UserEvent::HalfPageUp], "Scroll half page up"@),
        (seq![UserEvent::ScrollDown], "Scroll down"@),
        (seq![UserEvent::ScrollUp], "Scroll up"@),
        (seq![UserEvent::SelectTop], "Select top of the screen"@),
        (seq![UserEvent::SelectMiddle], "Select middle of the screen"@),
        (seq![UserEvent::SelectBottom], "Select bottom of the screen"@),
        (seq![UserEvent::Confirm], "Show commit details"@),
        (seq![UserEvent::RefListToggle], "Open refs list"@),
        (seq![UserEvent::Search], "Start search"@),
        (seq![UserEvent::Cancel], "Cancel search"@),
        (seq![UserEvent::GoToNext], "Go to next search match"@),
        (seq![UserEvent::GoToPrevious], "Go to previous search match"@),
        (seq![UserEvent::IgnoreCaseToggle], "Toggle ignore case"@),
        (seq![UserEvent::FuzzyToggle], "Toggle fuzzy match"@),
        (seq![UserEvent::ShortCopy], "Copy commit short hash"@),
        (seq![UserEvent::FullCopy], "Copy commit hash"@),
    ]
}

pub open spec fn detail_helps() -> Seq<(Seq<UserEvent>, Seq<char>)> {
    seq![
        (seq![UserEvent::Cancel, UserEvent::Close], "Close commit details"@),
        (seq![UserEvent::PageDown], "Scroll down"@),
        (seq![UserEvent::PageUp], "Scroll up"@),
        (seq![UserEvent::GoToTop], "Go to top"@),
        (seq![UserEvent::GoToBottom], "Go to bottom"@),
        (seq![UserEvent::ShortCopy], "Copy commit short hash"@),
        (seq![UserEvent::FullCopy], "Copy commit hash"@),
    ]
}

pub open spec fn refs_helps() -> Seq<(Seq<UserEvent>, Seq<char>)> {
    seq![
        (seq![UserEvent::Cancel, UserEvent::Close, UserEvent::RefListToggle], "Close refs list"@),
        (seq![UserEvent::NavigateDown], "Move down"@),
        (seq![UserEvent::NavigateUp], "Move up"@),
        (seq![UserEvent::GoToTop], "Go to top"@),
        (seq![UserEvent::GoToBottom], "Go to bottom"@),
        (seq![UserEvent::NavigateRight], "Open node"@),
        (seq![UserEvent::NavigateLeft], "Close node"@),
        (seq![UserEvent::ShortCopy], "Copy ref name"@),
    ]
}

pub open spec fn user_command_helps() -> Seq<(Seq<UserEvent>, Seq<char>)> {
    seq![
        (seq![UserEvent::Cancel, UserEvent::Close], "Close user command"@),
        (seq![UserEvent::PageDown], "Scroll down"@),
        (seq![UserEvent::PageUp], "Scroll up"@),
        (seq![UserEvent::GoToTop], "Go to top"@),
        (seq![UserEvent::GoToBottom], "Go to bottom"@),
    ]
}

/// The entries for the user commands that keys toggle, in the order of
/// their numbers, each naming its command; numbers with no configured
/// command are left out.
pub open spec fn toggle_helps(ns: Seq<usize>, cmds: Seq<(String, crate::config::UserCommand)>) -> Seq<(Seq<UserEvent>, Seq<char>)>
    decreases ns.len(),
{
    if ns.len() == 0 {
        Seq::empty()
    } else {
        let prev = toggle_helps(ns.drop_last(), cmds);
        let n = ns.last();
        match first_command(cmds, decimal(n as nat)) {
            Some(c) => prev.push(
                (
                    seq![UserEvent::UserCommandViewToggle(n)],
                    "Toggle user command "@ + decimal(n as nat) + " - "@ + c.name@,
                ),
            ),
            None => prev,
        }
    }
}

/// The help blocks: their titles and entries.
pub open spec fn help_blocks(toggles: Seq<(Seq<UserEvent>, Seq<char>)>) -> Seq<(Seq<char>, Seq<(Seq<UserEvent>, Seq<char>)>)> {
    seq![
        ("Common:"@, common_helps()),
        ("Help:"@, help_helps()),
        ("Commit List:"@, list_helps() + toggles),
        ("Commit Detail:"@, detail_helps() + toggles),
        ("Refs List:"@, refs_helps()),
        ("User Command:"@, user_command_helps() + toggles),
    ]
}

/// The key column of a block: its title, then the keys of each entry.
pub open spec fn block_key_lines(m: Map<KeyEvent, UserEvent>, title: Seq<char>, items: Seq<(Seq<UserEvent>, Seq<char>)>) -> Seq<(int, Seq<Seq<char>>)> {
    seq![(0int, seq![title])] + items.map_values(|it: (Seq<UserEvent>, Seq<char>)| (1int, event_keys(m, it.0)))
}

/// The description column of a block: a blank line beside the title, then
/// the descriptions.
pub open spec fn block_value_lines(items: Seq<(Seq<UserEvent>, Seq<char>)>) -> Seq<Seq<char>> {
    seq![Seq::<char>::empty()] + items.map_values(|it: (Seq<UserEvent>, Seq<char>)| it.1)
}

/// The key column of the whole help.
pub open spec fn help_key_lines(m: Map<KeyEvent, UserEvent>, cmds: Seq<(String, crate::config::UserCommand)>) -> Seq<(int, Seq<Seq<char>>)> {
    let blocks = help_blocks(toggle_helps(sorted_toggle_numbers(m), cmds));
    join_groups(
        blocks.map_values(|b: (Seq<char>, Seq<(Seq<UserEvent>, Seq<char>)>)| block_key_lines(m, b.0, b.1)),
        (2int, Seq::<Seq<char>>::empty()),
    )
}

/// The description column of the whole help.
pub open spec fn help_value_lines(m: Map<KeyEvent, UserEvent>, cmds: Seq<(String, crate::config::UserCommand)>) -> Seq<Seq<char>> {
    let blocks = help_blocks(toggle_helps(sorted_toggle_numbers(m), cmds));
    join_groups(
        blocks.map_values(|b: (Seq<char>, Seq<(Seq<UserEvent>, Seq<char>)>)| block_value_lines(b.1)),
        Seq::<char>::empty(),
    )
}

fn item(events: Vec<UserEvent>, text: &str) -> (it: HelpItem)
    ensures
        it.0@ == events@,
        it.1@ == text@,
{
    (events, String::from_str(text))
}

fn one(a: UserEvent) -> (v: Vec<UserEvent>)
    ensures
        v@ == seq![a],
{
    let mut v = Vec::new();
    v.push(a);
    proof {
        assert(v@ =~= seq![a]);
    }
    v
}

fn two(a: UserEvent, b: UserEvent) -> (v: Vec<UserEvent>)
    ensures
        v@ == seq![a, b],
{
    let mut v = Vec::new();
    v.push(a);
    v.push(b);
    proof {
        assert(v@ =~= seq![a, b]);
    }
    v
}

fn three(a: UserEvent, b: UserEvent, c: UserEvent) -> (v: Vec<UserEvent>)
    ensures
        v@ == seq![a, b, c],
{
    let mut v = Vec::new();
    v.push(a);
    v.push(b);
    v.push(c);
    proof {
        assert(v@ =~= seq![a, b, c]);
    }
    v
}

fn common_items() -> (v: Vec<HelpItem>)
    ensures
        items_view(v@) == common_helps(),
{
    let mut v = Vec::new();
    v.push(item(two(UserEvent::ForceQuit, UserEvent::Quit), "Quit app"));
    v.push(item(one(UserEvent::HelpToggle), "Open help"));
    proof {
        assert(items_view(v@) =~= common_helps());
    }
    v
}

fn help_items() -> (v: Vec<HelpItem>)
    ensures
        items_view(v@) == help_helps(),
{
    let mut v = Vec::new();
    v.push(item(three(UserEvent::HelpToggle, UserEvent::Cancel, UserEvent::Close), "Close help"));
    v.push(item(one(UserEvent::NavigateDown), "Scroll down"));
    v.push(item(one(UserEvent::NavigateUp), "Scroll up"));
    v.push(item(one(UserEvent::PageDown), "Scroll page down"));
    v.push(item(one(UserEvent::PageUp), "Scroll page up"));
    v.push(item(one(UserEvent::HalfPageDown), "Scroll half page down"));
    v.push(item(one(UserEvent::HalfPageUp), "Scroll half page up"));
    v.push(item(one(UserEvent::GoToTop), "Go to top"));
    v.push(item(one(UserEvent::GoToBottom), "Go to bottom"));
    proof {
        assert(items_view(v@) =~= help_helps());
    }
    v
}

fn list_items() -> (v: Vec<HelpItem>)
    ensures
        items_view(v@) == list_helps(),
{
    let mut v = Vec::new();
    v.push(item(one(UserEvent::NavigateDown), "Move down"));
    v.push(item(one(UserEvent::NavigateUp), "Move up"));
    v.push(item(one(UserEvent::GoToParent), "Go to parent"));
    v.push(item(one(UserEvent::GoToTop), "Go to top"));
    v.push(item(one(UserEvent::GoToBottom), "Go to bottom"));
    v.push(item(one(UserEvent::PageDown), "Scroll page down"));
    v.push(item(one(UserEvent::PageUp), "Scroll page up"));
    v.push(item(one(UserEvent::HalfPageDown), "Scroll half page down"));
    v.push(item(one(UserEvent::HalfPageUp), "Scroll half page up"));
    v.push(item(one(UserEvent::ScrollDown), "Scroll down"));
    v.push(item(one(UserEvent::ScrollUp), "Scroll up"));
    v.push(item(one(UserEvent::SelectTop), "Select top of the screen"));
    v.push(item(one(UserEvent::SelectMiddle), "Select middle of the screen"));
    v.push(item(one(UserEvent::SelectBottom), "Select bottom of the screen"));
    v.push(item(one(UserEvent::Confirm), "Show commit details"));
    v.push(item(one(UserEvent::RefListToggle), "Open refs list"));
    v.push(item(one(UserEvent::Search), "Start search"));
    v.push(item(one(UserEvent::Cancel), "Cancel search"));
    v.push(item(one(UserEvent::GoToNext), "Go to next search match"));
    v.push(item(one(UserEvent::GoToPrevious), "Go to previous search match"));
    v.push(item(one(UserEvent::IgnoreCaseToggle), "Toggle ignore case"));
    v.push(item(one(UserEvent::FuzzyToggle), "Toggle fuzzy match"));
    v.push(item(one(UserEvent::ShortCopy), "Copy commit short hash"));
    v.push(item(one(UserEvent::FullCopy), "Copy commit hash"));
    proof {
        assert(items_view(v@) =~= list_helps());
    }
    v
}

fn detail_items() -> (v: Vec<HelpItem>)
    ensures
        items_view(v@) == detail_helps(),
{
    let mut v = Vec::new();
    v.push(item(two(UserEvent::Cancel, UserEvent::Close), "Close commit details"));
    v.push(item(one(UserEvent::PageDown), "Scroll down"));
    v.push(item(one(UserEvent::PageUp), "Scroll up"));
    v.push(item(one(UserEvent::GoToTop), "Go to top"));
    v.push(item(one(UserEvent::GoToBottom), "Go to bottom"));
    v.push(item(one(UserEvent::ShortCopy), "Copy commit short hash"));
    v.push(item(one(UserEvent::FullCopy), "Copy commit hash"));
    proof {
        assert(items_view(v@) =~= detail_helps());
    }
    v
}

fn refs_items() -> (v: Vec<HelpItem>)
    ensures
        items_view(v@) == refs_helps(),
{
    let mut v = Vec::new();
    v.push(item(three(UserEvent::Cancel, UserEvent::Close, UserEvent::RefListToggle), "Close refs list"));
    v.push(item(one(UserEvent::NavigateDown), "Move down"));
    v.push(item(one(UserEvent::NavigateUp), "Move up"));
    v.push(item(one(UserEvent::GoToTop), "Go to top"));
    v.push(item(one(UserEvent::GoToBottom), "Go to bottom"));
    v.push(item(one(UserEvent::NavigateRight), "Open node"));
    v.push(item(one(UserEvent::NavigateLeft), "Close node"));
    v.push(item(one(UserEvent::ShortCopy), "Copy ref name"));
    proof {
        assert(items_view(v@) =~= refs_helps());
    }
    v
}

fn user_command_items() -> (v: Vec<HelpItem>)
    ensures
        items_view(v@) == user_command_helps(),
{
    let mut v = Vec::new();
    v.push(item(two(UserEvent::Cancel, UserEvent::Close), "Close user command"));
    v.push(item(one(UserEvent::PageDown), "Scroll down"));
    v.push(item(one(UserEvent::PageUp), "Scroll up"));
    v.push(item(one(UserEvent::GoToTop), "Go to top"));
    v.push(item(one(UserEvent::GoToBottom), "Go to bottom"));
    proof {
        assert(items_view(v@) =~= user_command_helps());
    }
    v
}

proof fn lemma_string_views_push(s: Seq<String>, x: String)
    ensures
        string_views(s.push(x)) == string_views(s).push(x@),
{
    assert(string_views(s.push(x)) =~= string_views(s).push(x@));
}

proof fn lemma_string_views_concat(a: Seq<String>, b: Seq<String>)
    ensures
        string_views(a + b) == string_views(a) + string_views(b),
{
    assert(string_views(a + b) =~= string_views(a) + string_views(b));
}

proof fn lemma_items_view_push(s: Seq<HelpItem>, x: HelpItem)
    ensures
        items_view(s.push(x)) == items_view(s).push((x.0@, x.1@)),
{
    assert(items_view(s.push(x)) =~= items_view(s).push((x.0@, x.1@)));
}

proof fn lemma_items_view_concat(a: Seq<HelpItem>, b: Seq<HelpItem>)
    ensures
        items_view(a + b) == items_view(a) + items_view(b),
{
    assert(items_view(a + b) =~= items_view(a) + items_view(b));
}

proof fn lemma_key_lines_view_push(s: Seq<HelpKeyLine>, x: HelpKeyLine)
    ensures
        key_lines_view(s.push(x)) == key_lines_view(s).push(key_line_view(x)),
{
    assert(key_lines_view(s.push(x)) =~= key_lines_view(s).push(key_line_view(x)));
}

proof fn lemma_key_lines_view_concat(a: Seq<HelpKeyLine>, b: Seq<HelpKeyLine>)
    ensures
        key_lines_view(a + b) == key_lines_view(a) + key_lines_view(b),
{
    assert(key_lines_view(a + b) =~= key_lines_view(a) + key_lines_view(b));
}

fn toggle_items(keybind: &KeyBind, config: &CoreUserCommandConfig) -> (v: Vec<HelpItem>)
    ensures
        items_view(v@) == toggle_helps(sorted_toggle_numbers(keybind.map()), config.commands@),
{
    let ns = keybind.user_command_view_toggle_event_numbers();
    let mut v: Vec<HelpItem> = Vec::new();
    let mut i: usize = 0;
    while i < ns.len()
        invariant
            i <= ns@.len(),
            ns@ == sorted_toggle_numbers(keybind.map()),
            items_view(v@) == toggle_helps(ns@.take(i as int), config.commands@),
        decreases ns@.len() - i,
    {
        let n = ns[i];
        let key = decimal_string(n as u64);
        proof {
            assert(ns@.take(i + 1).drop_last() == ns@.take(i as int));
            assert(ns@.take(i + 1).last() == n);
        }
        match config.command(key.as_str()) {
            Some(c) => {
                let mut text = String::from_str("Toggle user command ");
                text.append(key.as_str());
                text.append(" - ");
                text.append(c.name.as_str());
                let ghost before = v@;
                v.push((one(UserEvent::UserCommandViewToggle(n)), text));
                proof {
                    lemma_items_view_push(before, v@.last());
                    assert(v@ == before.push(v@.last()));
                }
            },
            None => {},
        }
        i += 1;
    }
    proof {
        assert(ns@.take(i as int) == ns@);
    }
    v
}

/// The texts of the keys bound to each of `evs`, one event after the other.
fn item_keys(keybind: &KeyBind, evs: &Vec<UserEvent>) -> (r: Vec<String>)
    ensures
        string_views(r@) == event_keys(keybind.map(), evs@),
{
    let mut r: Vec<String> = Vec::new();
    let mut i: usize = 0;
    while i < evs.len()
        invariant
            i <= evs@.len(),
            string_views(r@) == event_keys(keybind.map(), evs@.take(i as int)),
        decreases evs@.len() - i,
    {
        let ks = keybind.keys_for_event(evs[i]);
        let ghost before = r@;
        let mut j: usize = 0;
        while j < ks.len()
            invariant
                j <= ks@.len(),
                string_views(r@) == string_views(before) + string_views(ks@.take(j as int)),
            decreases ks@.len() - j,
        {
            let ghost prev = r@;
            r.push(ks[j].clone());
            proof {
                lemma_string_views_push(prev, ks@[j as int]);
                lemma_string_views_push(ks@.take(j as int), ks@[j as int]);
                assert(ks@.take(j + 1) == ks@.take(j as int).push(ks@[j as int]));
                assert(string_views(r@) =~= string_views(before) + string_views(ks@.take(j + 1)));
            }
            j += 1;
        }
        proof {
            assert(ks@.take(j as int) == ks@);
            assert(evs@.take(i + 1).drop_last() == evs@.take(i as int));
            assert(string_views(ks@) =~= sorted_keys_of(keybind.map(), evs@[i as int]).map_values(|k: KeyEvent| key_text(k)));
        }
        i += 1;
    }
    proof {
        assert(evs@.take(i as int) == evs@);
    }
    r
}

/// The two columns of one help block.
fn build_block_lines(title: &str, items: &Vec<HelpItem>, keybind: &KeyBind) -> (r: (Vec<HelpKeyLine>, Vec<String>))
    ensures
        key_lines_view(r.0@) == block_key_lines(keybind.map(), title@, items_view(items@)),
        string_views(r.1@) == block_value_lines(items_view(items@)),
{
    let mut keys: Vec<HelpKeyLine> = Vec::new();
    let mut values: Vec<String> = Vec::new();
    keys.push(HelpKeyLine::Title(String::from_str(title)));
    values.push(String::new());
    let ghost m = keybind.map();
    let ghost iv = items_view(items@);
    let mut i: usize = 0;
    proof {
        assert(key_lines_view(keys@) =~= block_key_lines(m, title@, iv.take(0)));
        assert(string_views(values@) =~= block_value_lines(iv.take(0)));
    }
    while i < items.len()
        invariant
            i <= items@.len(),
            m == keybind.map(),
            iv == items_view(items@),
            key_lines_view(keys@) == block_key_lines(m, title@, iv.take(i as int)),
            string_views(values@) == block_value_lines(iv.take(i as int)),
        decreases items@.len() - i,
    {
        let ks = item_keys(keybind, &items[i].0);
        let ghost kprev = keys@;
        let ghost vprev = values@;
        keys.push(HelpKeyLine::Keys(ks));
        values.push(items[i].1.clone());
        proof {
            lemma_key_lines_view_push(kprev, keys@.last());
            lemma_string_views_push(vprev, values@.last());
            assert(keys@ == kprev.push(keys@.last()));
            assert(values@ == vprev.push(values@.last()));
            assert(iv[i as int] == (items@[i as int].0@, items@[i as int].1@));
            assert(iv.take(i + 1) == iv.take(i as int).push(iv[i as int]));
            assert(key_lines_view(keys@) =~= block_key_lines(m, title@, iv.take(i + 1)));
            assert(string_views(values@) =~= block_value_lines(iv.take(i + 1)));
        }
        i += 1;
    }
    proof {
        assert(iv.take(i as int) == iv);
    }
    (keys, values)
}

/// The key columns of the blocks, with a blank line between two blocks.
fn join_line_groups_with_empty(groups: Vec<Vec<HelpKeyLine>>) -> (r: Vec<HelpKeyLine>)
    ensures
        key_lines_view(r@) == join_groups(
            groups@.map_values(|g: Vec<HelpKeyLine>| key_lines_view(g@)),
            (2int, Seq::<Seq<char>>::empty()),
        ),
{
    let ghost gv = groups@.map_values(|g: Vec<HelpKeyLine>| key_lines_view(g@));
    let ghost sep = (2int, Seq::<Seq<char>>::empty());
    let n = groups.len();
    let mut rest = groups;
    let mut r: Vec<HelpKeyLine> = Vec::new();
    let mut i: usize = 0;
    while rest.len() > 0
        invariant
            i + rest@.len() == n,
            gv.len() == n,
            forall|k: int| 0 <= k < rest@.len() ==> key_lines_view((#[trigger] rest@[k])@) == gv[i + k],
            key_lines_view(r@) == join_groups(gv.take(i as int), sep),
            sep == (2int, Seq::<Seq<char>>::empty()),
        decreases rest@.len(),
    {
        let ghost before = r@;
        let mut g = rest.remove(0);
        proof {
            assert(key_lines_view(g@) == gv[i as int]);
            assert(gv.take(i + 1).drop_last() == gv.take(i as int));
            assert(gv.take(i + 1).last() == gv[i as int]);
        }
        let ghost g0 = g@;
        if i > 0 {
            r.push(HelpKeyLine::Blank);
            proof {
                lemma_key_lines_view_push(before, HelpKeyLine::Blank);
            }
        }
        let ghost mid = r@;
        r.append(&mut g);
        proof {
            lemma_key_lines_view_concat(mid, g0);
            if i > 0 {
                assert(mid == before.push(HelpKeyLine::Blank));
                lemma_key_lines_view_push(before, HelpKeyLine::Blank);
                assert(key_line_view(HelpKeyLine::Blank) == sep);
                assert(r@ == mid + g0);
                assert(key_lines_view(r@) == key_lines_view(mid) + key_lines_view(g0));
                assert(key_lines_view(mid) == key_lines_view(before).push(sep));
                assert(key_lines_view(g0) == gv[i as int]);
                assert(key_lines_view(r@) == join_groups(gv.take(i as int), sep).push(sep) + gv[i as int]);
                assert(join_groups(gv.take(i + 1), sep) == join_groups(gv.take(i as int), sep).push(sep) + gv[i as int]);
            }
            if i == 0 {
                assert(mid =~= Seq::<HelpKeyLine>::empty());
                assert(key_lines_view(mid) =~= Seq::<(int, Seq<Seq<char>>)>::empty());
                assert(key_lines_view(r@) =~= gv[0]);
            }
        }
        i += 1;
    }
    proof {
        assert(gv.take(i as int) == gv);
    }
    r
}

/// The description columns of the blocks, with an empty line between two
/// blocks.
fn join_value_groups_with_empty(groups: Vec<Vec<String>>) -> (r: Vec<String>)
    ensures
        string_views(r@) == join_groups(groups@.map_values(|g: Vec<String>| string_views(g@)), Seq::<char>::empty()),
{
    let ghost gv = groups@.map_values(|g: Vec<String>| string_views(g@));
    let ghost sep = Seq::<char>::empty();
    let n = groups.len();
    let mut rest = groups;
    let mut r: Vec<String> = Vec::new();
    let mut i: usize = 0;
    while rest.len() > 0
        invariant
            i + rest@.len() == n,
            gv.len() == n,
            forall|k: int| 0 <= k < rest@.len() ==> string_views((#[trigger] rest@[k])@) == gv[i + k],
            string_views(r@) == join_groups(gv.take(i as int), sep),
            sep == Seq::<char>::empty(),
        decreases rest@.len(),
    {
        let mut g = rest.remove(0);
        proof {
            assert(string_views(g@) == gv[i as int]);
            assert(gv.take(i + 1).drop_last() == gv.take(i as int));
            assert(gv.take(i + 1).last() == gv[i as int]);
        }
        let ghost before = r@;
        let ghost g0 = g@;
        if i > 0 {
            r.push(String::new());
            proof {
                lemma_string_views_push(before, r@.last());
                assert(r@ == before.push(r@.last()));
            }
        }
        let ghost mid = r@;
        r.append(&mut g);
        proof {
            lemma_string_views_concat(mid, g0);
            if i > 0 {
                assert(mid == before.push(mid.last()));
                assert(mid.last()@ == sep);
                lemma_string_views_push(before, mid.last());
                assert(string_views(r@) == join_groups(gv.take(i as int), sep).push(sep) + gv[i as int]);
                assert(join_groups(gv.take(i + 1), sep) == join_groups(gv.take(i as int), sep).push(sep) + gv[i as int]);
            }
            if i == 0 {
                assert(mid =~= Seq::<String>::empty());
                assert(string_views(mid) =~= Seq::<Seq<char>>::empty());
                assert(string_views(r@) =~= gv[0]);
            }
        }
        i += 1;
    }
    proof {
        assert(gv.take(i as int) == gv);
    }
    r
}

/// The two columns of the help: for each block (common keys, the help, the
/// commit list, the commit details, the refs list, the user command view)
/// its title and, for each entry, the keys bound to its events beside its
/// description; the user commands that keys toggle are listed in the three
/// views that toggle them.
pub fn build_lines(keybind: &KeyBind, core_config: &CoreUserCommandConfig) -> (r: (Vec<HelpKeyLine>, Vec<String>))
    ensures
        key_lines_view(r.0@) == help_key_lines(keybind.map(), core_config.commands@),
        string_views(r.1@) == help_value_lines(keybind.map(), core_config.commands@),
{
    let ghost m = keybind.map();
    let toggles = toggle_items(keybind, core_config);
    let ghost tv = items_view(toggles@);
    let mut list = list_items();
    let mut t1 = toggles;
    let ghost l0 = list@;
    let ghost t1v = t1@;
    list.append(&mut t1);
    let mut detail = detail_items();
    let mut t2 = toggle_items(keybind, core_config);
    let ghost d0 = detail@;
    let ghost t2v = t2@;
    detail.append(&mut t2);
    let mut user_command = user_command_items();
    let mut t3 = toggle_items(keybind, core_config);
    let ghost u0 = user_command@;
    let ghost t3v = t3@;
    user_command.append(&mut t3);
    proof {
        lemma_items_view_concat(l0, t1v);
        lemma_items_view_concat(d0, t2v);
        lemma_items_view_concat(u0, t3v);
    }
    let (k0, v0) = build_block_lines("Common:", &common_items(), keybind);
    let (k1, v1) = build_block_lines("Help:", &help_items(), keybind);
    let (k2, v2) = build_block_lines("Commit List:", &list, keybind);
    let (k3, v3) = build_block_lines("Commit Detail:", &detail, keybind);
    let (k4, v4) = build_block_lines("Refs List:", &refs_items(), keybind);
    let (k5, v5) = build_block_lines("User Command:", &user_command, keybind);
    let ghost blocks = help_blocks(tv);
    let ghost kviews = seq![k0@, k1@, k2@, k3@, k4@, k5@].map_values(|g: Seq<HelpKeyLine>| key_lines_view(g));
    let ghost vviews = seq![v0@, v1@, v2@, v3@, v4@, v5@].map_values(|g: Seq<String>| string_views(g));
    let mut kgroups: Vec<Vec<HelpKeyLine>> = Vec::new();
    kgroups.push(k0);
    kgroups.push(k1);
    kgroups.push(k2);
    kgroups.push(k3);
    kgroups.push(k4);
    kgroups.push(k5);
    let mut vgroups: Vec<Vec<String>> = Vec::new();
    vgroups.push(v0);
    vgroups.push(v1);
    vgroups.push(v2);
    vgroups.push(v3);
    vgroups.push(v4);
    vgroups.push(v5);
    proof {
        assert(kgroups@.map_values(|g: Vec<HelpKeyLine>| key_lines_view(g@)) =~= blocks.map_values(
            |b: (Seq<char>, Seq<(Seq<UserEvent>, Seq<char>)>)| block_key_lines(m, b.0, b.1),
        ));
        assert(vgroups@.map_values(|g: Vec<String>| string_views(g@)) =~= blocks.map_values(
            |b: (Seq<char>, Seq<(Seq<UserEvent>, Seq<char>)>)| block_value_lines(b.1),
        ));
    }
    let keys = join_line_groups_with_empty(kgroups);
    let values = join_value_groups_with_empty(vgroups);
    (keys, values)
}

/// `n` saturating additions of `k` to `o`.
fn add_times(o: usize, k: usize, n: usize) -> (r: usize)
    ensures
        r == repeat_sat_add(o as int, k as int, n as nat),
{
    let mut r = o;
    let mut i: usize = 0;
    while i < n
        invariant
            i <= n,
            r == repeat_sat_add(o as int, k as int, i as nat),
        decreases n - i,
    {
        r = r.saturating_add(k);
        i += 1;
    }
    r
}

/// `n` saturating subtractions of `k` from `o`.
fn sub_times(o: usize, k: usize, n: usize) -> (r: usize)
    ensures
        r == repeat_sat_sub(o as int, k as int, n as nat),
{
    let mut r = o;
    let mut i: usize = 0;
    while i < n
        invariant
            i <= n,
            r == repeat_sat_sub(o as int, k as int, i as nat),
            r >= 0,
        decreases n - i,
    {
        r = r.saturating_sub(k);
        i += 1;
    }
    r
}

/// The scroll position of the help: the index of its first visible line
/// and the height of the area, as of the last render.
#[derive(Debug, Clone, Copy, PartialEq, Eq, Structural)]
pub struct HelpScroll {
    pub offset: usize,
    pub height: usize,
}

impl HelpScroll {
    pub fn new() -> (s: HelpScroll)
        ensures
            s == (HelpScroll { offset: 0, height: 0 }),
    {
        HelpScroll { offset: 0, height: 0 }
    }

    /// Handles a key in the help: `q` quits, the help keys close it (after
    /// clearing the image area), the movement keys scroll, `count` times.
    pub fn handle_event(&mut self, event_with_count: UserEventWithCount) -> (r: Vec<AppEvent>)
        ensures
            final(self).height == old(self).height,
            ({
                let o = old(self).offset as int;
                let h = old(self).height as int;
                let n = event_with_count.count as nat;
                match event_with_count.event {
                    UserEvent::Quit => r@.len() == 1 && r@[0] is Quit && final(self).offset == o,
                    UserEvent::HelpToggle | UserEvent::Cancel | UserEvent::Close => r@.len() == 2 && r@[0] is ClearHelp
                        && r@[1] is CloseHelp && final(self).offset == o,
                    UserEvent::NavigateDown => r@.len() == 0 && final(self).offset == repeat_sat_add(o, 1, n),
                    UserEvent::NavigateUp => r@.len() == 0 && final(self).offset == repeat_sat_sub(o, 1, n),
                    UserEvent::PageDown => r@.len() == 0 && final(self).offset == repeat_sat_add(o, h, n),
                    UserEvent::PageUp => r@.len() == 0 && final(self).offset == repeat_sat_sub(o, h, n),
                    UserEvent::HalfPageDown => r@.len() == 0 && final(self).offset == repeat_sat_add(o, h / 2, n),
                    UserEvent::HalfPageUp => r@.len() == 0 && final(self).offset == repeat_sat_sub(o, h / 2, n),
                    UserEvent::GoToTop => r@.len() == 0 && final(self).offset == 0,
                    UserEvent::GoToBottom => r@.len() == 0 && final(self).offset == usize::MAX,
                    _ => r@.len() == 0 && final(self).offset == o,
                }
            }),
    {
        let mut evs: Vec<AppEvent> = Vec::new();
        let n = event_with_count.count;
        match event_with_count.event {
            UserEvent::Quit => {
                evs.push(AppEvent::Quit);
            },
            UserEvent::HelpToggle | UserEvent::Cancel | UserEvent::Close => {
                evs.push(AppEvent::ClearHelp);
                evs.push(AppEvent::CloseHelp);
            },
            UserEvent::NavigateDown => {
                self.offset = add_times(self.offset, 1, n);
            },
            UserEvent::NavigateUp => {
                self.offset = sub_times(self.offset, 1, n);
            },
            UserEvent::PageDown => {
                self.offset = add_times(self.offset, self.height, n);
            },
            UserEvent::PageUp => {
                self.offset = sub_times(self.offset, self.height, n);
            },
            UserEvent::HalfPageDown => {
                self.offset = add_times(self.offset, self.height / 2, n);
            },
            UserEvent::HalfPageUp => {
                self.offset = sub_times(self.offset, self.height / 2, n);
            },
            UserEvent::GoToTop => {
                self.offset = 0;
            },
            UserEvent::GoToBottom => {
                self.offset = usize::MAX;
            },
            _ => {},
        }
        evs
    }

    /// Records the height of the area drawn into and keeps the offset on one
    /// of the `line_count` lines.
    pub fn update_state(&mut self, area_height: usize, line_count: usize)
        requires
            line_count > 0,
        ensures
            final(self).height == area_height,
            final(self).offset == min_int(old(self).offset as int, line_count - 1),
    {
        self.height = area_height;
        if self.offset > line_count - 1 {
            self.offset = line_count - 1;
        }
    }
}

} // verus!
