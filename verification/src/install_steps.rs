//! The steps of installing the Ollama runtime that touch the file system,
//! as a state machine: replacing the installed copy with a staged one while
//! keeping a backup to restore, and the messages of failed commands.

use vstd::prelude::*;
use crate::text::{concat2, concat3, decimal, decimal_string};

verus! {

/// What the application is asked to do to the folders next.
pub enum ReplaceAction {
    /// Remove the backup left by an earlier install.
    RemoveBackup,
    /// Move the installed copy to the backup place.
    MoveInstalledToBackup,
    /// Move the staged copy to the installed place.
    MoveStagedToInstalled,
    /// Move the backup back to the installed place.
    RestoreBackup,
    /// Remove the backup of the replaced copy.
    RemoveOldCopy,
    /// Stop, with the outcome of the replacement.
    Done(Result<(), String>),
}

/// Which step the replacement waits for.
pub enum ReplaceStage {
    RemovingBackup,
    MovingInstalled,
    Swapping,
    Restoring { swap_error: String },
    RemovingOldCopy,
    Finished,
}

/// Replacing an installed folder with a staged one.
pub struct DirectoryReplacement {
    stage: ReplaceStage,
    had_install: bool,
}

/// Whether `r` ends the replacement with the error `message`.
pub open spec fn fails_with(r: ReplaceAction, message: Seq<char>) -> bool {
    r matches ReplaceAction::Done(Err(e)) && e@ == message
}

impl DirectoryReplacement {
    /// The step the replacement waits for.
    pub closed spec fn stage(&self) -> ReplaceStage {
        self.stage
    }

    /// Whether there was an installed copy to keep.
    pub closed spec fn had_install(&self) -> bool {
        self.had_install
    }

    fn after_backup(&mut self) -> (r: ReplaceAction)
        ensures
            final(self).had_install() == old(self).had_install(),
            old(self).had_install() ==> (final(self).stage() is MovingInstalled
                && r is MoveInstalledToBackup),
            !old(self).had_install() ==> (final(self).stage() is Swapping
                && r is MoveStagedToInstalled),
    {
        if self.had_install {
            self.stage = ReplaceStage::MovingInstalled;
            ReplaceAction::MoveInstalledToBackup
        } else {
            self.stage = ReplaceStage::Swapping;
            ReplaceAction::MoveStagedToInstalled
        }
    }

    /// Starts a replacement: an old backup is removed first; an installed
    /// copy is moved aside before the staged one takes its place.
    pub fn start(backup_exists: bool, installed_exists: bool) -> (r: (DirectoryReplacement, ReplaceAction))
        ensures
            r.0.had_install() == installed_exists,
            backup_exists ==> (r.0.stage() is RemovingBackup && r.1 is RemoveBackup),
            !backup_exists && installed_exists ==> (r.0.stage() is MovingInstalled
                && r.1 is MoveInstalledToBackup),
            !backup_exists && !installed_exists ==> (r.0.stage() is Swapping
                && r.1 is MoveStagedToInstalled),
    {
        let mut replacement = DirectoryReplacement {
            stage: ReplaceStage::RemovingBackup,
            had_install: installed_exists,
        };
        if backup_exists {
            (replacement, ReplaceAction::RemoveBackup)
        } else {
            let action = replacement.after_backup();
            (replacement, action)
        }
    }

    /// Takes the outcome of the last step. A failed swap over an installed
    /// copy is followed by restoring that copy; the backup is removed only
    /// after a successful swap.
    pub fn on_done(&mut self, outcome: Result<(), String>) -> (r: ReplaceAction)
        requires
            !(old(self).stage() is Finished),
        ensures
            final(self).had_install() == old(self).had_install(),
            r is RemoveOldCopy ==> (old(self).stage() is Swapping && outcome is Ok
                && old(self).had_install()),
            r is RestoreBackup ==> (old(self).stage() is Swapping && outcome is Err
                && old(self).had_install()),
            match old(self).stage() {
                ReplaceStage::RemovingBackup => match outcome {
                    Err(e) => final(self).stage() is Finished && fails_with(
                        r,
                        "Could not remove the previous Ollama backup: "@ + e@,
                    ),
                    Ok(_) => if old(self).had_install() {
                        r is MoveInstalledToBackup
                    } else {
                        r is MoveStagedToInstalled
                    },
                },
                ReplaceStage::MovingInstalled => match outcome {
                    Err(e) => final(self).stage() is Finished && fails_with(
                        r,
                        "Could not move the existing Ollama install: "@ + e@,
                    ),
                    Ok(_) => final(self).stage() is Swapping && r is MoveStagedToInstalled,
                },
                ReplaceStage::Swapping => match outcome {
                    Ok(_) => if old(self).had_install() {
                        final(self).stage() is RemovingOldCopy && r is RemoveOldCopy
                    } else {
                        final(self).stage() is Finished && r matches ReplaceAction::Done(Ok(_))
                    },
                    Err(e) => if old(self).had_install() {
                        final(self).stage() matches ReplaceStage::Restoring { swap_error }
                            && swap_error@ == e@ && r is RestoreBackup
                    } else {
                        final(self).stage() is Finished && fails_with(
                            r,
                            "Could not install Ollama: "@ + e@,
                        )
                    },
                },
                ReplaceStage::Restoring { swap_error } => final(self).stage() is Finished
                    && match outcome {
                    Ok(_) => fails_with(r, "Could not install Ollama: "@ + swap_error@),
                    Err(e) => fails_with(
                        r,
                        "Could not install Ollama: "@ + swap_error@
                            + "; restoring the previous install also failed: "@ + e@,
                    ),
                },
                ReplaceStage::RemovingOldCopy => final(self).stage() is Finished && match outcome {
                    Ok(_) => r matches ReplaceAction::Done(Ok(_)),
                    Err(e) => fails_with(
                        r,
                        "Ollama was installed but the old copy could not be removed: "@ + e@,
                    ),
                },
                ReplaceStage::Finished => false,
            },
    {
        let mut stage = ReplaceStage::Finished;
        std::mem::swap(&mut stage, &mut self.stage);
        match stage {
            ReplaceStage::RemovingBackup => match outcome {
                Err(e) => ReplaceAction::Done(
                    Err(concat2("Could not remove the previous Ollama backup: ", e.as_str())),
                ),
                Ok(_) => self.after_backup(),
            },
            ReplaceStage::MovingInstalled => match outcome {
                Err(e) => ReplaceAction::Done(
                    Err(concat2("Could not move the existing Ollama install: ", e.as_str())),
                ),
                Ok(_) => {
                    self.stage = ReplaceStage::Swapping;
                    ReplaceAction::MoveStagedToInstalled
                },
            },
            ReplaceStage::Swapping => match outcome {
                Ok(_) => if self.had_install {
                    self.stage = ReplaceStage::RemovingOldCopy;
                    ReplaceAction::RemoveOldCopy
                } else {
                    ReplaceAction::Done(Ok(()))
                },
                Err(e) => if self.had_install {
                    self.stage = ReplaceStage::Restoring { swap_error: e };
                    ReplaceAction::RestoreBackup
                } else {
                    ReplaceAction::Done(Err(concat2("Could not install Ollama: ", e.as_str())))
                },
            },
            ReplaceStage::Restoring { swap_error } => match outcome {
                Ok(_) => ReplaceAction::Done(
                    Err(concat2("Could not install Ollama: ", swap_error.as_str())),
                ),
                Err(e) => {
                    let head = concat3(
                        "Could not install Ollama: ",
                        swap_error.as_str(),
                        "; restoring the previous install also failed: ",
                    );
                    ReplaceAction::Done(Err(concat2(head.as_str(), e.as_str())))
                },
            },
            ReplaceStage::RemovingOldCopy => match outcome {
                Ok(_) => ReplaceAction::Done(Ok(())),
                Err(e) => ReplaceAction::Done(
                    Err(
                        concat2(
                            "Ollama was installed but the old copy could not be removed: ",
                            e.as_str(),
                        ),
                    ),
                ),
            },
            ReplaceStage::Finished => ReplaceAction::Done(Ok(())),
        }
    }
}

/// The decimal text of a signed number.
pub open spec fn signed_decimal(n: int) -> Seq<char> {
    if n < 0 {
        "-"@ + decimal((-n) as nat)
    } else {
        decimal(n as nat)
    }
}

/// How an exit status is named: its code, or that there was none.
pub open spec fn exit_code_text(code: Option<i32>) -> Seq<char> {
    match code {
        Some(c) => signed_decimal(c as int),
        None => "without an exit code"@,
    }
}

fn code_text(code: Option<i32>) -> (r: String)
    ensures
        r@ == exit_code_text(code),
{
    match code {
        Some(c) => if c < 0 {
            let magnitude = decimal_string((-(c as i64)) as u128);
            concat2("-", magnitude.as_str())
        } else {
            decimal_string(c as u128)
        },
        None => String::from_str("without an exit code"),
    }
}

/// The error of an install command that did not succeed: `action`, then
/// its exit status.
pub fn command_failure(action: &str, code: Option<i32>) -> (r: String)
    ensures
        r@ == action@ + ": process exited with status "@ + exit_code_text(code) + "."@,
{
    let status = code_text(code);
    let head = concat3(action, ": process exited with status ", status.as_str());
    concat2(head.as_str(), ".")
}

/// The error of a Windows installer that did not succeed.
pub fn installer_failure(code: Option<i32>) -> (r: String)
    ensures
        r@ == "The Ollama installer exited with status "@ + exit_code_text(code) + "."@,
{
    let status = code_text(code);
    concat3("The Ollama installer exited with status ", status.as_str(), ".")
}

} // verus!
