use vstd::prelude::*;

use crate::event::{AppEvent, UserEvent};
use crate::git::{CommitHash, RefOperation};
use crate::keybind::KeyCode;
use crate::text::{chars_of, slice_chars, string_from_chars};
use crate::view::delete_ref::{failed_events, RefJobStep};
use crate::widget::pending_overlay::{is_white_space, white_space};

verus! {

/// `s` without the white space it starts with.
pub open spec fn trim_start_ws(s: Seq<char>) -> Seq<char>
    decreases s.len(),
{
    if s.len() > 0 && is_white_space(s[0]) {
        trim_start_ws(s.skip(1))
    } else {
        s
    }
}

/// `s` without the white space it ends with.
pub open spec fn trim_end_ws(s: Seq<char>) -> Seq<char>
    decreases s.len(),
{
    if s.len() > 0 && is_white_space(s.last()) {
        trim_end_ws(s.drop_last())
    } else {
        s
    }
}

/// `s` without white space at either end, as `str::trim` gives it.
pub open spec fn trim_ws(s: Seq<char>) -> Seq<char> {
    trim_end_ws(trim_start_ws(s))
}

/// `s` with the white space at both ends taken off.
pub fn trim_white_space(s: &str) -> (r: String)
    ensures
        r@ == trim_ws(s@),
{
    let cs = chars_of(s);
    let n = cs.len();
    let mut a: usize = 0;
    proof {
        assert(cs@.skip(0) == cs@);
    }
    while a < n && white_space(cs[a])
        invariant
            a <= n,
            n == cs@.len(),
            trim_start_ws(cs@) == trim_start_ws(cs@.skip(a as int)),
        decreases n - a,
    {
        proof {
            assert(cs@.skip(a as int).skip(1) == cs@.skip(a + 1));
        }
        a += 1;
    }
    let ghost start = cs@.skip(a as int);
    let mut b: usize = n;
    proof {
        assert(start.take(b - a) == start);
    }
    while b > a && white_space(cs[b - 1])
        invariant
            a <= b <= n,
            n == cs@.len(),
            start == cs@.skip(a as int),
            trim_end_ws(start) == trim_end_ws(start.take(b - a)),
        decreases b,
    {
        proof {
            assert(start.take(b - a).drop_last() == start.take(b - 1 - a));
        }
        b -= 1;
    }
    proof {
        assert(trim_start_ws(cs@) == start);
        assert(trim_end_ws(start.take(b - a)) == start.take(b - a));
        assert(cs@.subrange(a as int, b as int) == start.take(b - a));
    }
    string_from_chars(&slice_chars(&cs, a, b))
}

/// The part of the create-tag dialog that has the keyboard.
#[derive(Debug, Clone, Copy, PartialEq, Eq, Structural)]
pub enum FocusedField {
    TagName,
    Message,
    PushCheckbox,
}

pub open spec fn next_field(f: FocusedField) -> FocusedField {
    match f {
        FocusedField::TagName => FocusedField::Message,
        FocusedField::Message => FocusedField::PushCheckbox,
        FocusedField::PushCheckbox => FocusedField::TagName,
    }
}

pub open spec fn prev_field(f: FocusedField) -> FocusedField {
    match f {
        FocusedField::TagName => FocusedField::PushCheckbox,
        FocusedField::Message => FocusedField::TagName,
        FocusedField::PushCheckbox => FocusedField::Message,
    }
}

/// Moving the focus forward then back, or back then forward, returns to the
/// same field; three moves forward go round.
pub proof fn lemma_focus_round_trip(f: FocusedField)
    ensures
        prev_field(next_field(f)) == f,
        next_field(prev_field(f)) == f,
        next_field(next_field(next_field(f))) == f,
{
}

/// What the dialog does with a key, beyond moving its focus and ticking its
/// check box.
#[derive(Debug, Clone, Copy, PartialEq, Eq, Structural)]
pub enum CreateTagKeyAction {
    Nothing,
    Close,
    Submit,
    EditTagName,
    EditMessage,
}

/// The create-tag dialog: which field has the focus, and whether the new
/// tag is pushed to `origin`. The two text fields are kept by the caller.
#[derive(Debug, Clone, Copy, PartialEq, Eq, Structural)]
pub struct CreateTagDialog {
    pub push_to_remote: bool,
    pub focused_field: FocusedField,
}

/// The action and the next state for a key that is passed to the focused
/// field.
pub open spec fn input_step(d: CreateTagDialog, code: KeyCode) -> (CreateTagDialog, CreateTagKeyAction) {
    match d.focused_field {
        FocusedField::TagName => (d, CreateTagKeyAction::EditTagName),
        FocusedField::Message => (d, CreateTagKeyAction::EditMessage),
        FocusedField::PushCheckbox => if code == KeyCode::Char(' ') {
            (CreateTagDialog { push_to_remote: !d.push_to_remote, ..d }, CreateTagKeyAction::Nothing)
        } else {
            (d, CreateTagKeyAction::Nothing)
        },
    }
}

/// The next state and the action for `event` read from a key `code`: Tab
/// and BackTab move the focus, Backspace edits, Esc closes, Enter submits,
/// up and down move the focus, left and right tick the box when it has the
/// focus; any other key goes to the focused field.
pub open spec fn create_tag_step(d: CreateTagDialog, event: UserEvent, code: KeyCode) -> (CreateTagDialog, CreateTagKeyAction) {
    if code == KeyCode::Tab {
        (CreateTagDialog { focused_field: next_field(d.focused_field), ..d }, CreateTagKeyAction::Nothing)
    } else if code == KeyCode::BackTab {
        (CreateTagDialog { focused_field: prev_field(d.focused_field), ..d }, CreateTagKeyAction::Nothing)
    } else if code == KeyCode::Backspace {
        input_step(d, code)
    } else {
        match event {
            UserEvent::Cancel => (d, CreateTagKeyAction::Close),
            UserEvent::Confirm => (d, CreateTagKeyAction::Submit),
            UserEvent::NavigateDown => (
                CreateTagDialog { focused_field: next_field(d.focused_field), ..d },
                CreateTagKeyAction::Nothing,
            ),
            UserEvent::NavigateUp => (
                CreateTagDialog { focused_field: prev_field(d.focused_field), ..d },
                CreateTagKeyAction::Nothing,
            ),
            UserEvent::NavigateRight | UserEvent::NavigateLeft => if d.focused_field == FocusedField::PushCheckbox {
                (CreateTagDialog { push_to_remote: !d.push_to_remote, ..d }, CreateTagKeyAction::Nothing)
            } else {
                input_step(d, code)
            },
            _ => input_step(d, code),
        }
    }
}

/// A tag creation under way.
#[derive(Debug)]
pub struct CreateTagJob {
    pub commit_hash: CommitHash,
    pub tag_name: String,
    pub message: Option<String>,
    pub push_to_remote: bool,
}

/// The notice shown once a tag is created.
pub open spec fn created_message(name: Seq<char>, pushed: bool) -> Seq<char> {
    if pushed {
        "Tag '"@ + name + "' created and pushed to origin"@
    } else {
        "Tag '"@ + name + "' created"@
    }
}

impl CreateTagDialog {
    /// The focus on the name, the tag to be pushed.
    pub fn new() -> (d: CreateTagDialog)
        ensures
            d == (CreateTagDialog { push_to_remote: true, focused_field: FocusedField::TagName }),
    {
        CreateTagDialog { push_to_remote: true, focused_field: FocusedField::TagName }
    }

    fn focus_next(&mut self)
        ensures
            *final(self) == (CreateTagDialog { focused_field: next_field(old(self).focused_field), ..*old(self) }),
    {
        self.focused_field = match self.focused_field {
            FocusedField::TagName => FocusedField::Message,
            FocusedField::Message => FocusedField::PushCheckbox,
            FocusedField::PushCheckbox => FocusedField::TagName,
        };
    }

    fn focus_prev(&mut self)
        ensures
            *final(self) == (CreateTagDialog { focused_field: prev_field(old(self).focused_field), ..*old(self) }),
    {
        self.focused_field = match self.focused_field {
            FocusedField::TagName => FocusedField::PushCheckbox,
            FocusedField::Message => FocusedField::TagName,
            FocusedField::PushCheckbox => FocusedField::Message,
        };
    }

    fn handle_input(&mut self, code: KeyCode) -> (a: CreateTagKeyAction)
        ensures
            (*final(self), a) == input_step(*old(self), code),
    {
        match self.focused_field {
            FocusedField::TagName => CreateTagKeyAction::EditTagName,
            FocusedField::Message => CreateTagKeyAction::EditMessage,
            FocusedField::PushCheckbox => {
                if code == KeyCode::Char(' ') {
                    self.push_to_remote = !self.push_to_remote;
                }
                CreateTagKeyAction::Nothing
            },
        }
    }

    /// Handles `event`, read from a key with `code`; the caller edits the
    /// focused text field, closes the dialog or submits it as the action
    /// says.
    pub fn handle_event(&mut self, event: UserEvent, code: KeyCode) -> (a: CreateTagKeyAction)
        ensures
            (*final(self), a) == create_tag_step(*old(self), event, code),
    {
        if code == KeyCode::Tab {
            self.focus_next();
            return CreateTagKeyAction::Nothing;
        }
        if code == KeyCode::BackTab {
            self.focus_prev();
            return CreateTagKeyAction::Nothing;
        }
        if code == KeyCode::Backspace {
            return self.handle_input(code);
        }
        match event {
            UserEvent::Cancel => CreateTagKeyAction::Close,
            UserEvent::Confirm => CreateTagKeyAction::Submit,
            UserEvent::NavigateDown => {
                self.focus_next();
                CreateTagKeyAction::Nothing
            },
            UserEvent::NavigateUp => {
                self.focus_prev();
                CreateTagKeyAction::Nothing
            },
            UserEvent::NavigateRight | UserEvent::NavigateLeft => {
                if self.focused_field == FocusedField::PushCheckbox {
                    self.push_to_remote = !self.push_to_remote;
                    CreateTagKeyAction::Nothing
                } else {
                    self.handle_input(code)
                }
            },
            _ => self.handle_input(code),
        }
    }

    /// Submits the texts of the two fields: a name that is empty once
    /// trimmed is refused with an error; else a job creates the tag, with
    /// the trimmed message when there is one.
    pub fn submit(&self, commit_hash: &CommitHash, tag_name: &str, message: &str) -> (r: Result<CreateTagJob, AppEvent>)
        ensures
            match r {
                Ok(job) => trim_ws(tag_name@).len() > 0 && job.tag_name@ == trim_ws(tag_name@) && job.commit_hash
                    == *commit_hash && job.push_to_remote == self.push_to_remote && if trim_ws(message@).len() == 0 {
                    job.message is None
                } else {
                    job.message matches Some(m) && m@ == trim_ws(message@)
                },
                Err(e) => trim_ws(tag_name@).len() == 0 && (e matches AppEvent::NotifyError(m) && m@
                    == "Tag name cannot be empty"@),
            },
    {
        let name = trim_white_space(tag_name);
        if name.as_str().unicode_len() == 0 {
            return Err(AppEvent::NotifyError(String::from_str("Tag name cannot be empty")));
        }
        let m = trim_white_space(message);
        let msg = if m.as_str().unicode_len() == 0 {
            None
        } else {
            Some(m)
        };
        Ok(CreateTagJob { commit_hash: commit_hash.clone(), tag_name: name, message: msg, push_to_remote: self.push_to_remote })
    }
}

impl CreateTagJob {
    /// Stage 2 exists when the tag is pushed.
    pub open spec fn has_stage(&self, stage: int) -> bool {
        stage == 1 || (stage == 2 && self.push_to_remote)
    }

    /// The first git operation: creating the tag.
    pub fn first(&self) -> (op: RefOperation)
        ensures
            op matches RefOperation::CreateTag { name, hash, message } && name@ == self.tag_name@ && hash
                == self.commit_hash && message == self.message,
    {
        RefOperation::CreateTag {
            name: self.tag_name.clone(),
            hash: self.commit_hash.clone(),
            message: match &self.message {
                Some(m) => Some(m.clone()),
                None => None,
            },
        }
    }

    /// What follows once the operation of `stage` ended with `result`: an
    /// error is reported and the dialog stays; a created tag is pushed when
    /// asked; at the end the tag is added to the commit, success reported
    /// and the dialog closed.
    pub fn step(&self, stage: usize, result: Result<(), String>) -> (s: RefJobStep)
        requires
            self.has_stage(stage as int),
        ensures
            match result {
                Err(e) => s matches RefJobStep::Done(evs) && evs@.len() == 1 && (evs@[0] matches AppEvent::NotifyError(m)
                    && m@ == e@),
                Ok(()) => if stage == 1 && self.push_to_remote {
                    s matches RefJobStep::Run(op) && (op matches RefOperation::PushTag { name } && name@ == self.tag_name@)
                } else {
                    s matches RefJobStep::Done(evs) && evs@.len() == 3 && (evs@[0] matches AppEvent::AddTagToCommit {
                        commit_hash,
                        tag_name,
                    } && commit_hash == self.commit_hash && tag_name@ == self.tag_name@) && (evs@[1] matches AppEvent::NotifySuccess(
                        m,
                    ) && m@ == created_message(self.tag_name@, self.push_to_remote)) && evs@[2] is CloseCreateTag
                },
            },
    {
        let mut evs: Vec<AppEvent> = Vec::new();
        match result {
            Err(e) => {
                evs.push(AppEvent::NotifyError(e));
                RefJobStep::Done(evs)
            },
            Ok(()) => {
                if stage == 1 && self.push_to_remote {
                    return RefJobStep::Run(RefOperation::PushTag { name: self.tag_name.clone() });
                }
                let mut m = String::from_str("Tag '");
                m.append(self.tag_name.as_str());
                if self.push_to_remote {
                    m.append("' created and pushed to origin");
                } else {
                    m.append("' created");
                }
                evs.push(AppEvent::AddTagToCommit { commit_hash: self.commit_hash.clone(), tag_name: self.tag_name.clone() });
                evs.push(AppEvent::NotifySuccess(m));
                evs.push(AppEvent::CloseCreateTag);
                RefJobStep::Done(evs)
            },
        }
    }
}

} // verus!
