//! Paths inside the workspace, read component by component: which requested
//! paths may be resolved at all, and whether a resolved path stays inside
//! the workspace folder.

use vstd::prelude::*;
use crate::text::{concat2, str_eq};

verus! {

/// A component of a requested path, as `std::path::Component` names them.
pub enum PathComponent {
    Prefix(String),
    RootDir,
    CurDir,
    ParentDir,
    Normal(String),
}

/// Whether a component leaves the workspace or starts from outside it.
pub open spec fn escapes(c: PathComponent) -> bool {
    c is Prefix || c is RootDir || c is ParentDir
}

/// What a requested path gives before it is resolved: an empty path, an
/// absolute one and one with `..` are refused.
pub open spec fn spec_check_relative_request(components: Seq<PathComponent>) -> Result<(), Seq<char>> {
    if components.len() == 0 || exists|i: int| 0 <= i < components.len() && escapes(components[i]) {
        Err("Path must be relative to the workspace and cannot contain '..'"@)
    } else {
        Ok(())
    }
}

/// Checks a requested path before it is resolved inside the workspace.
pub fn check_relative_request(components: &Vec<PathComponent>) -> (r: Result<(), String>)
    ensures
        match r {
            Ok(_) => spec_check_relative_request(components@) is Ok,
            Err(e) => spec_check_relative_request(components@) == Err::<(), Seq<char>>(e@),
        },
{
    let n = components.len();
    let mut i: usize = 0;
    if n == 0 {
        return Err(String::from_str("Path must be relative to the workspace and cannot contain '..'"));
    }
    while i < n
        invariant
            n == components@.len(),
            0 < n,
            i <= n,
            forall|k: int| 0 <= k < i ==> !escapes(components@[k]),
        decreases n - i,
    {
        match &components[i] {
            PathComponent::Prefix(_) | PathComponent::RootDir | PathComponent::ParentDir => {
                assert(escapes(components@[i as int]));
                return Err(
                    String::from_str("Path must be relative to the workspace and cannot contain '..'"),
                );
            },
            _ => {},
        }
        i = i + 1;
    }
    Ok(())
}

/// The texts of a sequence of path components.
pub open spec fn texts(components: Seq<String>) -> Seq<Seq<char>> {
    components.map_values(|c: String| c@)
}

/// Whether `path` starts with all components of `root` (`Path::starts_with`).
pub open spec fn within(root: Seq<String>, path: Seq<String>) -> bool {
    root.len() <= path.len() && forall|i: int| 0 <= i < root.len() ==> root[i]@ == path[i]@
}

/// Whether `path` lies in the folder `root`; both are given by the texts of
/// their components.
pub fn starts_with_components(root: &Vec<String>, path: &Vec<String>) -> (r: bool)
    ensures
        r == within(root@, path@),
{
    let n = root.len();
    if n > path.len() {
        return false;
    }
    let mut i: usize = 0;
    while i < n
        invariant
            n == root@.len(),
            n <= path@.len(),
            i <= n,
            forall|k: int| 0 <= k < i ==> root@[k]@ == path@[k]@,
        decreases n - i,
    {
        if !str_eq(root[i].as_str(), path[i].as_str()) {
            return false;
        }
        i = i + 1;
    }
    true
}

/// Hands back a resolved path that lies in the workspace folder, or refuses it.
pub fn ensure_within_workspace(root: &Vec<String>, path: Vec<String>) -> (r: Result<
    Vec<String>,
    String,
>)
    ensures
        within(root@, path@) ==> (r matches Ok(p) && p@ == path@),
        !within(root@, path@) ==> (r matches Err(e) && e@ == "Path escapes the workspace folder"@),
{
    if starts_with_components(root, &path) {
        Ok(path)
    } else {
        Err(String::from_str("Path escapes the workspace folder"))
    }
}

/// The components of a resolved path below the workspace folder.
pub fn strip_workspace_root(root: &Vec<String>, path: &Vec<String>) -> (r: Result<
    Vec<String>,
    String,
>)
    ensures
        within(root@, path@) ==> (r matches Ok(p) && texts(p@) == texts(path@.skip(root@.len() as int))),
        !within(root@, path@) ==> (r matches Err(e) && e@ == "Path escapes the workspace folder"@),
{
    if !starts_with_components(root, path) {
        return Err(String::from_str("Path escapes the workspace folder"));
    }
    let n = path.len();
    let start = root.len();
    let mut out: Vec<String> = Vec::new();
    let mut i: usize = start;
    while i < n
        invariant
            n == path@.len(),
            start <= i <= n,
            out@.len() == i - start,
            forall|k: int| 0 <= k < out@.len() ==> (#[trigger] out@[k])@ == path@[start + k]@,
        decreases n - i,
    {
        out.push(path[i].clone());
        i = i + 1;
    }
    proof {
        assert forall|k: int| 0 <= k < out@.len() implies #[trigger] texts(out@)[k] == texts(
            path@.skip(start as int),
        )[k] by {
            assert(out@[k]@ == path@[start + k]@);
        }
        assert(texts(out@) =~= texts(path@.skip(start as int)));
    }
    Ok(out)
}

/// The components joined by `/`.
pub open spec fn joined(parts: Seq<Seq<char>>) -> Seq<char>
    decreases parts.len(),
{
    if parts.len() == 0 {
        Seq::empty()
    } else if parts.len() == 1 {
        parts[0]
    } else {
        joined(parts.drop_last()) + "/"@ + parts.last()
    }
}

/// The text of a relative path, its components joined by `/`.
pub fn join_components(parts: &Vec<String>) -> (r: String)
    ensures
        r@ == joined(texts(parts@)),
{
    let n = parts.len();
    if n == 0 {
        return String::new();
    }
    let mut out = parts[0].clone();
    let mut i: usize = 1;
    proof {
        assert(texts(parts@.take(1)) =~= seq![parts@[0]@]);
    }
    while i < n
        invariant
            n == parts@.len(),
            1 <= i <= n,
            out@ == joined(texts(parts@.take(i as int))),
        decreases n - i,
    {
        let step = concat2(out.as_str(), "/");
        out = concat2(step.as_str(), parts[i].as_str());
        proof {
            assert(texts(parts@.take(i + 1)).drop_last() =~= texts(parts@.take(i as int)));
        }
        i = i + 1;
    }
    proof {
        assert(parts@.take(n as int) =~= parts@);
    }
    out
}

} // verus!
