//! The `commit-msg` hook that hands each new commit message to the linter.

use crate::text::{contains, occurs_at, occurs_in};
use vstd::prelude::*;
use vstd::string::*;

verus! {

/// The hook script up to the path of the linter.
pub open spec fn script_head() -> Seq<char> {
    "#!/bin/sh\n\
# Git commit-msg hook installed by cargo-commitlint\n\
# This hook validates commit messages according to Conventional Commits specification\n\
\n\
COMMIT_MSG_FILE=\"$1\"\n\
\n\
# Read commit message and pass to cargo-commitlint via stdin\n\
cat \"$COMMIT_MSG_FILE\" | "@
}

/// The hook script after the path of the linter.
pub open spec fn script_tail() -> Seq<char> {
    " check\n\
\n\
# Exit with the same code as cargo-commitlint\n\
exit $?\n"@
}

/// The hook script that runs the linter at `binary_path`.
pub open spec fn hook_script(binary_path: Seq<char>) -> Seq<char> {
    script_head() + binary_path + script_tail()
}

/// The name by which a hook of this linter is known.
pub open spec fn hook_mark() -> Seq<char> {
    "cargo-commitlint"@
}

/// Every hook script that `generate_hook_script` writes is known to
/// `is_own_hook`, whatever the path of the linter is.
pub proof fn lemma_own_hook_is_known(binary_path: Seq<char>)
    ensures
        occurs_in(hook_mark(), hook_script(binary_path)),
{
    reveal_strlit("cargo-commitlint");
    reveal_strlit(
        "#!/bin/sh\n\
# Git commit-msg hook installed by cargo-commitlint\n\
# This hook validates commit messages according to Conventional Commits specification\n\
\n\
COMMIT_MSG_FILE=\"$1\"\n\
\n\
# Read commit message and pass to cargo-commitlint via stdin\n\
cat \"$COMMIT_MSG_FILE\" | ",
    );
    let script = hook_script(binary_path);
    assert(script.subrange(45, 45 + hook_mark().len() as int) =~= hook_mark());
    assert(occurs_at(hook_mark(), script, 45));
}

/// Writes and recognizes the hook script.
pub struct HookInstaller;

impl HookInstaller {
    /// The text of a `commit-msg` hook: a shell script that pipes the
    /// message file into `binary_path check` and exits as the linter did.
    pub fn generate_hook_script(binary_path: &str) -> (script: String)
        ensures
            script@ == hook_script(binary_path@),
    {
        let mut script = String::from_str(
            "#!/bin/sh\n\
# Git commit-msg hook installed by cargo-commitlint\n\
# This hook validates commit messages according to Conventional Commits specification\n\
\n\
COMMIT_MSG_FILE=\"$1\"\n\
\n\
# Read commit message and pass to cargo-commitlint via stdin\n\
cat \"$COMMIT_MSG_FILE\" | ",
        );
        script.append(binary_path);
        script.append(
            " check\n\
\n\
# Exit with the same code as cargo-commitlint\n\
exit $?\n",
        );
        script
    }

    /// Whether `content`, the text of an installed hook, is a hook of this
    /// linter: it is where it holds the linter's name. Only such a hook may
    /// be removed.
    pub fn is_own_hook(content: &str) -> (own: bool)
        ensures
            own == occurs_in(hook_mark(), content@),
    {
        contains(content, "cargo-commitlint")
    }
}

} // verus!
