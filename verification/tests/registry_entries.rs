use git_tool::registry::TreeNode;
use git_tool::{Error, GitHubRegistry};

fn node(node_type: &str, path: &str) -> TreeNode {
    TreeNode {
        node_type: String::from(node_type),
        path: String::from(path),
    }
}

#[test]
fn entries_are_blobs_under_the_registry() {
    let registry = GitHubRegistry;
    let entries = registry.entries_from_tree(vec![
        node("blob", "registry/apps/bash.yaml"),
        node("blob", "registry/services/github.yaml"),
        node("tree", "registry/apps"),
        node("blob", "docs/readme.md"),
        node("blob", "registry/apps/notes.txt"),
    ]);
    assert_ne!(entries.len(), 0);
    assert!(entries.iter().any(|i| i == "apps/bash"));
    assert_eq!(entries, vec!["apps/bash", "services/github"]);
}

#[test]
fn entry_urls_name_the_entry() {
    let registry = GitHubRegistry;
    assert_eq!(
        registry.entry_url("apps/bash"),
        "https://raw.githubusercontent.com/SierraSoftworks/git-tool/main/registry/apps/bash.yaml"
    );
    assert_eq!(
        registry.entries_url(),
        "https://api.github.com/repos/SierraSoftworks/git-tool/git/trees/main?recursive=true"
    );
}

#[test]
fn entry_fetch_errors_classify_by_status() {
    let registry = GitHubRegistry;
    assert!(matches!(
        registry.entry_fetch_error(404, String::new()),
        Error::UserActionable { .. }
    ));
    assert!(matches!(
        registry.entry_fetch_error(429, String::new()),
        Error::UserActionable { .. }
    ));
    match registry.entry_fetch_error(500, String::from("tree unavailable")) {
        Error::Unavailable { status, body } => {
            assert_eq!(status, 500);
            assert_eq!(body, "tree unavailable");
        }
        other => panic!("expected the status to be kept, got {:?}", other),
    }
}
