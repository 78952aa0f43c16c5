use legion::workspace::{
    check_relative_request, ensure_within_workspace, join_components, strip_workspace_root,
    PathComponent,
};

fn components(path: &str) -> Vec<String> {
    path.split('/').map(str::to_owned).collect()
}

#[test]
fn refuses_empty_absolute_and_parent_paths() {
    let normal = vec![
        PathComponent::Normal("src".to_owned()),
        PathComponent::Normal("lib.rs".to_owned()),
    ];
    assert_eq!(check_relative_request(&normal), Ok(()));
    assert_eq!(check_relative_request(&vec![PathComponent::CurDir]), Ok(()));
    for refused in [
        vec![],
        vec![PathComponent::RootDir, PathComponent::Normal("etc".to_owned())],
        vec![PathComponent::Normal("a".to_owned()), PathComponent::ParentDir],
        vec![PathComponent::Prefix("C:".to_owned())],
    ] {
        assert_eq!(
            check_relative_request(&refused),
            Err("Path must be relative to the workspace and cannot contain '..'".to_owned())
        );
    }
}

#[test]
fn keeps_resolved_paths_inside_the_workspace() {
    let root = components("/w/project");
    assert_eq!(
        ensure_within_workspace(&root, components("/w/project/a/b")),
        Ok(components("/w/project/a/b"))
    );
    assert_eq!(
        ensure_within_workspace(&root, components("/w/projects/a")),
        Err("Path escapes the workspace folder".to_owned())
    );
    assert_eq!(
        strip_workspace_root(&root, &components("/w/project/a/b")),
        Ok(vec!["a".to_owned(), "b".to_owned()])
    );
    assert_eq!(join_components(&vec!["a".to_owned(), "b".to_owned()]), "a/b");
    assert_eq!(join_components(&Vec::new()), "");
}
