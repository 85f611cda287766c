use vstd::prelude::*;

use crate::event::{AppEvent, UserEvent};
use crate::git::{RefOperation, RefType};

verus! {

/// What a job that changes refs asks for next: one more git operation, or
/// the events that end it.
#[derive(Debug)]
pub enum RefJobStep {
    Run(RefOperation),
    Done(Vec<AppEvent>),
}

/// The dialog that confirms deleting a ref, with its two check boxes.
#[derive(Debug)]
pub struct DeleteRefDialog {
    pub ref_name: String,
    pub ref_type: RefType,
    pub delete_from_remote: bool,
    pub force_delete: bool,
}

/// A deletion under way in the background.
#[derive(Debug)]
pub struct DeleteRefJob {
    pub ref_name: String,
    pub ref_type: RefType,
    pub delete_from_remote: bool,
    pub force_delete: bool,
}

/// The notice shown while a ref is being deleted.
pub open spec fn delete_ref_pending(t: RefType, name: Seq<char>, remote: bool, force: bool) -> Seq<char> {
    match t {
        RefType::Tag => if remote {
            "Deleting tag '"@ + name + "' from local and remote..."@
        } else {
            "Deleting tag '"@ + name + "'..."@
        },
        RefType::Branch => if force {
            "Force deleting branch '"@ + name + "'..."@
        } else {
            "Deleting branch '"@ + name + "'..."@
        },
        RefType::RemoteBranch => "Deleting remote branch '"@ + name + "'..."@,
    }
}

/// The notice shown once a ref is deleted.
pub open spec fn delete_ref_success(t: RefType, name: Seq<char>, remote: bool) -> Seq<char> {
    match t {
        RefType::Tag => if remote {
            "Tag '"@ + name + "' deleted from local and remote"@
        } else {
            "Tag '"@ + name + "' deleted locally"@
        },
        RefType::Branch => "Branch '"@ + name + "' deleted"@,
        RefType::RemoteBranch => "Remote branch '"@ + name + "' deleted"@,
    }
}

/// The error shown when the local tag went but the remote one did not.
pub open spec fn remote_tag_failure(e: Seq<char>) -> Seq<char> {
    "Local tag deleted, but failed to delete from remote: "@ + e
}

/// `op` deletes `name` as `t` asks, at `stage` (the first operation is 1).
pub open spec fn delete_ref_operation(op: RefOperation, t: RefType, name: Seq<char>, force: bool, stage: int) -> bool {
    match t {
        RefType::Tag => if stage == 1 {
            op matches RefOperation::DeleteTag { name: n } && n@ == name
        } else {
            op matches RefOperation::DeleteRemoteTag { name: n } && n@ == name
        },
        RefType::Branch => if force {
            op matches RefOperation::DeleteBranchForce { name: n } && n@ == name
        } else {
            op matches RefOperation::DeleteBranch { name: n } && n@ == name
        },
        RefType::RemoteBranch => op matches RefOperation::DeleteRemoteBranch { name: n } && n@ == name,
    }
}

/// The events that end a job that failed with `msg`.
pub open spec fn failed_events(evs: Seq<AppEvent>, msg: Seq<char>) -> bool {
    &&& evs.len() == 2
    &&& evs[0] is HidePendingOverlay
    &&& evs[1] matches AppEvent::NotifyError(m) && m@ == msg
}

/// The events that end a deletion of `name` that went through.
pub open spec fn deleted_events(evs: Seq<AppEvent>, name: Seq<char>, msg: Seq<char>) -> bool {
    &&& evs.len() == 3
    &&& evs[0] matches AppEvent::RemoveRefFromList { ref_name } && ref_name@ == name
    &&& evs[1] matches AppEvent::NotifySuccess(m) && m@ == msg
    &&& evs[2] is HidePendingOverlay
}

/// `s` followed by `t` followed by `u`.
fn concat3(s: &str, t: &str, u: &str) -> (r: String)
    ensures
        r@ == s@ + t@ + u@,
{
    let mut r = String::from_str(s);
    r.append(t);
    r.append(u);
    r
}

impl DeleteRefJob {
    /// The job is at `stage`, a stage it has.
    pub open spec fn has_stage(&self, stage: int) -> bool {
        stage == 1 || (stage == 2 && self.ref_type == RefType::Tag && self.delete_from_remote)
    }

    /// The first git operation of the job.
    pub fn first(&self) -> (op: RefOperation)
        ensures
            delete_ref_operation(op, self.ref_type, self.ref_name@, self.force_delete, 1),
    {
        let name = self.ref_name.clone();
        match self.ref_type {
            RefType::Tag => RefOperation::DeleteTag { name },
            RefType::Branch => if self.force_delete {
                RefOperation::DeleteBranchForce { name }
            } else {
                RefOperation::DeleteBranch { name }
            },
            RefType::RemoteBranch => RefOperation::DeleteRemoteBranch { name },
        }
    }

    /// What follows once the operation of `stage` ended with `result`: on an
    /// error the job stops and reports it; a tag deleted locally is then
    /// deleted from the remote when asked; else the ref leaves the list and
    /// success is reported.
    pub fn step(&self, stage: usize, result: Result<(), String>) -> (s: RefJobStep)
        requires
            self.has_stage(stage as int),
        ensures
            match result {
                Err(e) => s matches RefJobStep::Done(evs) && failed_events(
                    evs@,
                    if stage == 2 { remote_tag_failure(e@) } else { e@ },
                ),
                Ok(()) => if stage == 1 && self.ref_type == RefType::Tag && self.delete_from_remote {
                    s matches RefJobStep::Run(op) && delete_ref_operation(op, self.ref_type, self.ref_name@, self.force_delete, 2)
                } else {
                    s matches RefJobStep::Done(evs) && deleted_events(
                        evs@,
                        self.ref_name@,
                        delete_ref_success(self.ref_type, self.ref_name@, self.delete_from_remote),
                    )
                },
            },
    {
        match result {
            Err(e) => {
                let msg = if stage == 2 {
                    let mut m = String::from_str("Local tag deleted, but failed to delete from remote: ");
                    m.append(e.as_str());
                    m
                } else {
                    e
                };
                let mut evs: Vec<AppEvent> = Vec::new();
                evs.push(AppEvent::HidePendingOverlay);
                evs.push(AppEvent::NotifyError(msg));
                RefJobStep::Done(evs)
            },
            Ok(()) => {
                if stage == 1 && self.ref_type == RefType::Tag && self.delete_from_remote {
                    return RefJobStep::Run(RefOperation::DeleteRemoteTag { name: self.ref_name.clone() });
                }
                let name = self.ref_name.as_str();
                let msg = match self.ref_type {
                    RefType::Tag => if self.delete_from_remote {
                        concat3("Tag '", name, "' deleted from local and remote")
                    } else {
                        concat3("Tag '", name, "' deleted locally")
                    },
                    RefType::Branch => concat3("Branch '", name, "' deleted"),
                    RefType::RemoteBranch => concat3("Remote branch '", name, "' deleted"),
                };
                let mut evs: Vec<AppEvent> = Vec::new();
                evs.push(AppEvent::RemoveRefFromList { ref_name: self.ref_name.clone() });
                evs.push(AppEvent::NotifySuccess(msg));
                evs.push(AppEvent::HidePendingOverlay);
                RefJobStep::Done(evs)
            },
        }
    }
}

impl DeleteRefDialog {
    /// A remote branch is deleted from its remote; nothing is forced.
    pub fn new(ref_name: String, ref_type: RefType) -> (d: DeleteRefDialog)
        ensures
            d.ref_name == ref_name,
            d.ref_type == ref_type,
            d.delete_from_remote == (ref_type == RefType::RemoteBranch),
            !d.force_delete,
    {
        DeleteRefDialog { ref_name, ref_type, delete_from_remote: ref_type == RefType::RemoteBranch, force_delete: false }
    }

    /// Handles a key: Esc closes the dialog, Enter starts the deletion (the
    /// dialog closes and a notice shows while it runs), the arrow keys tick
    /// the dialog's check box (from the remote for a tag, forced for a
    /// branch).
    pub fn handle_event(&mut self, event: UserEvent) -> (r: (Vec<AppEvent>, Option<DeleteRefJob>))
        ensures
            final(self).ref_name == old(self).ref_name,
            final(self).ref_type == old(self).ref_type,
            match event {
                UserEvent::Cancel => *final(self) == *old(self) && r.0@.len() == 1 && r.0@[0] is CloseDeleteRef
                    && r.1 is None,
                UserEvent::Confirm => *final(self) == *old(self) && r.0@.len() == 2 && (r.0@[0] matches AppEvent::ShowPendingOverlay { message }
                    && message@ == delete_ref_pending(old(self).ref_type, old(self).ref_name@, old(self).delete_from_remote, old(self).force_delete))
                    && r.0@[1] is CloseDeleteRef && (r.1 matches Some(job) && job.ref_name@ == old(self).ref_name@
                    && job.ref_type == old(self).ref_type && job.delete_from_remote == old(self).delete_from_remote
                    && job.force_delete == old(self).force_delete),
                UserEvent::NavigateRight | UserEvent::NavigateLeft | UserEvent::NavigateDown => r.0@.len() == 0 && r.1 is None
                    && final(self).delete_from_remote == (if old(self).ref_type == RefType::Tag {
                        !old(self).delete_from_remote
                    } else {
                        old(self).delete_from_remote
                    }) && final(self).force_delete == (if old(self).ref_type == RefType::Branch {
                        !old(self).force_delete
                    } else {
                        old(self).force_delete
                    }),
                _ => *final(self) == *old(self) && r.0@.len() == 0 && r.1 is None,
            },
    {
        let mut evs: Vec<AppEvent> = Vec::new();
        match event {
            UserEvent::Cancel => {
                evs.push(AppEvent::CloseDeleteRef);
                (evs, None)
            },
            UserEvent::Confirm => {
                let name = self.ref_name.as_str();
                let pending = match self.ref_type {
                    RefType::Tag => if self.delete_from_remote {
                        concat3("Deleting tag '", name, "' from local and remote...")
                    } else {
                        concat3("Deleting tag '", name, "'...")
                    },
                    RefType::Branch => if self.force_delete {
                        concat3("Force deleting branch '", name, "'...")
                    } else {
                        concat3("Deleting branch '", name, "'...")
                    },
                    RefType::RemoteBranch => concat3("Deleting remote branch '", name, "'..."),
                };
                evs.push(AppEvent::ShowPendingOverlay { message: pending });
                evs.push(AppEvent::CloseDeleteRef);
                let job = DeleteRefJob {
                    ref_name: self.ref_name.clone(),
                    ref_type: self.ref_type,
                    delete_from_remote: self.delete_from_remote,
                    force_delete: self.force_delete,
                };
                (evs, Some(job))
            },
            UserEvent::NavigateRight | UserEvent::NavigateLeft | UserEvent::NavigateDown => {
                match self.ref_type {
                    RefType::Tag => {
                        self.delete_from_remote = !self.delete_from_remote;
                    },
                    RefType::Branch => {
                        self.force_delete = !self.force_delete;
                    },
                    RefType::RemoteBranch => {},
                }
                (evs, None)
            },
            _ => (evs, None),
        }
    }
}

} // verus!
