use cargo_commitlint::hook::HookInstaller;

#[test]
fn test_hook_script_generation() {
    let path = "/usr/local/bin/cargo-commitlint";
    let script = HookInstaller::generate_hook_script(path);
    assert!(script.contains("cargo-commitlint"));
    assert!(script.contains("/usr/local/bin/cargo-commitlint"));
}

#[test]
fn hook_script_is_spelled_out() {
    let script = HookInstaller::generate_hook_script("/opt/bin/lint");
    let expected = "#!/bin/sh\n# Git commit-msg hook installed by cargo-commitlint\n# This hook validates commit messages according to Conventional Commits specification\n\nCOMMIT_MSG_FILE=\"$1\"\n\n# Read commit message and pass to cargo-commitlint via stdin\ncat \"$COMMIT_MSG_FILE\" | /opt/bin/lint check\n\n# Exit with the same code as cargo-commitlint\nexit $?\n";
    assert_eq!(script, expected);
}

#[test]
fn own_hooks_are_recognized() {
    assert!(HookInstaller::is_own_hook(&HookInstaller::generate_hook_script("")));
    assert!(HookInstaller::is_own_hook(&HookInstaller::generate_hook_script("/x/y")));
    assert!(HookInstaller::is_own_hook("cargo-commitlint"));
    assert!(HookInstaller::is_own_hook("#!/bin/sh\nexec cargo-commitlint check\n"));
    assert!(!HookInstaller::is_own_hook("#!/bin/sh\nexec cargo-commitlin check\n"));
    assert!(!HookInstaller::is_own_hook("#!/bin/sh\nexec cargo commitlint\n"));
    assert!(!HookInstaller::is_own_hook(""));
}
