//! The registry of shareable configuration snippets hosted alongside the
//! tool: which tree entries are registry entries, and where one entry lives.
//!
//! The transport fetches the repository tree and single entries; deciding
//! which tree nodes count and deriving entry names happens here.

use crate::errors::Error;
use crate::strutil::{ends_with_str, eq_str, starts_with_str, substring_copy};
use vstd::prelude::*;
use vstd::string::{StrSliceExecFns, StringExecFns};

verus! {

/// Lists and fetches entries of the tool's configuration registry.
pub struct GitHubRegistry;

/// One node of the repository tree listing, as delivered by the transport.
#[derive(Debug, Clone, PartialEq, Eq)]
pub struct TreeNode {
    /// The node's kind tag; registry entries are `blob` nodes.
    pub node_type: String,
    /// The node's path within the repository.
    pub path: String,
}

/// The mathematical value of a `TreeNode`.
pub struct TreeNodeView {
    pub node_type: Seq<char>,
    pub path: Seq<char>,
}

impl View for TreeNode {
    type V = TreeNodeView;

    open spec fn view(&self) -> TreeNodeView {
        TreeNodeView { node_type: self.node_type@, path: self.path@ }
    }
}

/// The directory all registry entries live under.
pub open spec fn registry_prefix() -> Seq<char> {
    seq!['r', 'e', 'g', 'i', 's', 't', 'r', 'y', '/']
}

/// The extension all registry entries carry.
pub open spec fn yaml_suffix() -> Seq<char> {
    seq!['.', 'y', 'a', 'm', 'l']
}

/// A tree node names a registry entry when it is a blob under the registry
/// directory with the registry extension; the entry's name is the path with
/// both stripped.
pub open spec fn entry_filter() -> spec_fn(TreeNodeView) -> Option<Seq<char>> {
    |n: TreeNodeView|
        if n.node_type == seq!['b', 'l', 'o', 'b'] && registry_prefix().is_prefix_of(n.path)
            && yaml_suffix().is_suffix_of(n.path) && n.path.len() >= registry_prefix().len()
            + yaml_suffix().len() {
            Some(n.path.subrange(registry_prefix().len() as int, n.path.len() - yaml_suffix().len()))
        } else {
            None
        }
}

/// The entry names of a tree listing.
pub open spec fn spec_entries(nodes: Seq<TreeNodeView>) -> Seq<Seq<char>> {
    nodes.filter_map(entry_filter())
}

impl GitHubRegistry {
    /// Where the registry's tree listing is fetched from.
    pub fn entries_url(&self) -> (r: String)
        ensures
            r@
                == "https://api.github.com/repos/SierraSoftworks/git-tool/git/trees/main?recursive=true"@,
    {
        "https://api.github.com/repos/SierraSoftworks/git-tool/git/trees/main?recursive=true".to_owned()
    }

    /// Where one registry entry is fetched from.
    pub fn entry_url(&self, id: &str) -> (r: String)
        ensures
            r@ == "https://raw.githubusercontent.com/SierraSoftworks/git-tool/main/registry/"@
                + id@ + ".yaml"@,
    {
        let mut u = "https://raw.githubusercontent.com/SierraSoftworks/git-tool/main/registry/".to_owned();
        u.append(id);
        u.append(".yaml");
        u
    }

    /// The registry entry names of a tree listing: every blob under the
    /// registry directory with the registry extension, stripped of both.
    pub fn entries_from_tree(&self, nodes: Vec<TreeNode>) -> (r: Vec<String>)
        ensures
            r@.map_values(|s: String| s@) == spec_entries(nodes@.map_values(|n: TreeNode| n@)),
    {
        let ghost nodes_v: Seq<TreeNodeView> = nodes@.map_values(|n: TreeNode| n@);
        let ghost f = entry_filter();
        let mut out: Vec<String> = Vec::new();
        let n = nodes.len();
        let mut i: usize = 0;
        assert(nodes_v.take(0).filter_map(f) =~= Seq::<Seq<char>>::empty());
        while i < n
            invariant
                i <= n,
                n == nodes@.len(),
                nodes_v == nodes@.map_values(|n: TreeNode| n@),
                f == entry_filter(),
                out@.map_values(|s: String| s@) == nodes_v.take(i as int).filter_map(f),
            decreases n - i,
        {
            proof {
                nodes_v.lemma_filter_map_take_succ(f, i as int);
                assert(nodes_v[i as int] == nodes@[i as int]@);
                reveal_strlit("blob");
                assert("blob"@ =~= seq!['b', 'l', 'o', 'b']);
                reveal_strlit("registry/");
                assert("registry/"@ =~= registry_prefix());
                reveal_strlit(".yaml");
                assert(".yaml"@ =~= yaml_suffix());
            }
            let node = &nodes[i];
            let plen: usize = 9;
            let slen: usize = 5;
            let len = node.path.as_str().unicode_len();
            if eq_str(node.node_type.as_str(), "blob") && starts_with_str(
                node.path.as_str(),
                "registry/",
            ) && ends_with_str(node.path.as_str(), ".yaml") && len >= plen + slen {
                let name = substring_copy(node.path.as_str(), plen, len - slen);
                out.push(name);
                proof {
                    assert(out@.map_values(|s: String| s@) =~= nodes_v.take(i as int + 1).filter_map(
                        f,
                    ));
                }
            } else {
                proof {
                    assert(out@.map_values(|s: String| s@) =~= nodes_v.take(i as int + 1).filter_map(
                        f,
                    ));
                }
            }
            i += 1;
        }
        proof {
            assert(nodes_v.take(n as int) =~= nodes_v);
        }
        out
    }

    /// Classifies a non-success entry fetch: a missing entry and throttling
    /// are the user's to act on, anything else is an unexpected status kept
    /// with its body.
    pub fn entry_fetch_error(&self, status: u16, body: String) -> (r: Error)
        requires
            status != 200,
        ensures
            status == 404 ==> r is UserActionable,
            status == 429 ==> r is UserActionable,
            !(status == 404 || status == 429) ==> (r matches Error::Unavailable {
                status: s,
                body: b,
            } && s == status && b@ == body@),
    {
        if status == 404 {
            Error::UserActionable {
                message: "the requested entry is not in the registry".to_owned(),
                advice: "check the entry name against the registry listing".to_owned(),
            }
        } else if status == 429 {
            Error::rate_limited()
        } else {
            Error::Unavailable { status, body }
        }
    }
}

/// Every name derived from a tree listing comes from a blob under the registry
/// directory with the registry extension.
pub proof fn lemma_entry_from_registry_blob(nodes: Seq<TreeNodeView>, name: Seq<char>)
    requires
        spec_entries(nodes).contains(name),
    ensures
        exists|n: TreeNodeView|
            #[trigger] nodes.contains(n) && n.node_type == seq!['b', 'l', 'o', 'b']
                && registry_prefix().is_prefix_of(n.path) && yaml_suffix().is_suffix_of(n.path),
{
    let f = entry_filter();
    nodes.lemma_filter_map_contains(f, name);
    let t = choose|t: TreeNodeView| #[trigger] nodes.contains(t) && f(t) == Some(name);
    assert(nodes.contains(t) && t.node_type == seq!['b', 'l', 'o', 'b']
        && registry_prefix().is_prefix_of(t.path) && yaml_suffix().is_suffix_of(t.path));
}

} // verus!
