use vstd::prelude::*;

verus! {

/// The template collection that the mirror is cloned from.
pub const TEMPLATE_REPOSITORY: &'static str = "https://github.com/github/gitignore.git";

/// What has to be done so that the mirror exists.
#[derive(PartialEq, Eq, Structural, Clone, Copy, Debug)]
pub enum MirrorAction {
    /// Something is at the mirror's path already; it is used as it is.
    Keep,
    /// Create the directory, then clone the collection into it.
    CreateAndClone,
}

/// Why the mirror could not be set up.
pub enum SyncError {
    /// The directory at this path could not be created.
    CreateDir { path: String },
    /// This clone command failed.
    Clone { command: String },
}

/// The action for a path, given whether anything exists there.
pub open spec fn action_for(present: bool) -> MirrorAction {
    if present {
        MirrorAction::Keep
    } else {
        MirrorAction::CreateAndClone
    }
}

/// Whether something is at the path once the action has succeeded.
pub open spec fn present_after(present: bool, action: MirrorAction) -> bool {
    present || action is CreateAndClone
}

/// How many clones the action performs.
pub open spec fn clones(action: MirrorAction) -> nat {
    if action is CreateAndClone {
        1
    } else {
        0
    }
}

/// Decides how to make sure the mirror exists: an existing entry is kept
/// without looking inside; otherwise the collection is cloned.
pub fn mirror_action(present: bool) -> (r: MirrorAction)
    ensures
        r == action_for(present),
{
    if present {
        MirrorAction::Keep
    } else {
        MirrorAction::CreateAndClone
    }
}

/// Setting up the mirror twice for one path clones at most once, and the
/// second time does nothing.
pub proof fn lemma_mirror_idempotent(present: bool)
    ensures
        action_for(present_after(present, action_for(present))) == MirrorAction::Keep,
        clones(action_for(present)) + clones(action_for(present_after(present, action_for(present))))
            <= 1,
{
}

/// The arguments to `git` that clone the collection into `path`.
pub fn clone_args(path: &str) -> (r: Vec<String>)
    ensures
        r@.len() == 3,
        r@[0]@ == "clone"@,
        r@[1]@ == TEMPLATE_REPOSITORY@,
        r@[2]@ == path@,
{
    let mut r: Vec<String> = Vec::new();
    r.push(String::from_str("clone"));
    r.push(String::from_str(TEMPLATE_REPOSITORY));
    r.push(String::from_str(path));
    r
}

/// The clone command as a user would type it.
pub fn clone_command(path: &str) -> (r: String)
    ensures
        r@ == "git clone "@ + TEMPLATE_REPOSITORY@ + " "@ + path@,
{
    let mut r = String::from_str("git clone ");
    r.append(TEMPLATE_REPOSITORY);
    r.append(" ");
    r.append(path);
    r
}

impl SyncError {
    /// The text that reports the error.
    pub fn message(&self) -> (r: String)
        ensures
            self matches SyncError::CreateDir { path } ==> r@ == "Failed to create "@ + path@
                + "."@,
            self matches SyncError::Clone { command } ==> r@
                == "Failed to clone gitignore repository.\nExecuted command: `"@ + command@
                + "`"@,
    {
        match self {
            SyncError::CreateDir { path } => {
                let mut r = String::from_str("Failed to create ");
                r.append(path.as_str());
                r.append(".");
                r
            },
            SyncError::Clone { command } => {
                let mut r = String::from_str(
                    "Failed to clone gitignore repository.\nExecuted command: `",
                );
                r.append(command.as_str());
                r.append("`");
                r
            },
        }
    }
}

} // verus!
