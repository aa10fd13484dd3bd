use git_tool::{
    AppsCommand, Error, GitCheckout, GitSwitch, NewCommand, NewFolder, ServicesCommand,
    ShellInitCommand,
};

#[test]
fn command_names() {
    assert_eq!(AppsCommand {}.name(), "apps");
    assert_eq!(NewCommand {}.name(), "new");
    assert_eq!(ServicesCommand {}.name(), "services");
    assert_eq!(ShellInitCommand {}.name(), "shell-init");
}

#[test]
fn switch_creates_only_missing_branches() {
    let switch = GitSwitch {
        branch: String::from("main"),
        create_if_missing: true,
    };
    assert!(switch.should_create(false));
    assert!(!switch.should_create(true));

    let no_create = GitSwitch {
        branch: String::from("main"),
        create_if_missing: false,
    };
    assert!(!no_create.should_create(false));
    assert!(!no_create.should_create(true));
}

#[test]
fn task_values_carry_their_settings() {
    let checkout = GitCheckout { branch: "test" };
    assert_eq!(checkout.branch, "test");
    let _folder = NewFolder {};
}

#[test]
fn error_messages_name_the_failure() {
    let limited = Error::rate_limited();
    assert!(matches!(limited, Error::UserActionable { .. }));
    assert!(limited.message().contains("rate limited"));

    let loop_error = Error::RedirectLoop {
        location: String::from("https://example.com/artifact"),
    };
    assert!(loop_error.message().contains("https://example.com/artifact"));

    let transport = Error::Transport {
        message: String::from("connection reset"),
    };
    assert_eq!(transport.message(), "transport failure: connection reset");
}
