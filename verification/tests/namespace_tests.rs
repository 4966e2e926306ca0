use sdlc_cp_api::namespace::{parse_path, InMemoryNamespaceManager, NamespaceError};

#[test]
fn test_create_and_list_namespaces() {
    let mut manager = InMemoryNamespaceManager::new();
    manager.create_namespace("a/b/c").unwrap();
    manager.create_namespace("a/b/d").unwrap();

    let namespaces = manager.list_namespaces("a/b").unwrap();
    assert_eq!(namespaces.len(), 2);
    assert!(namespaces.contains(&"c".to_string()));
    assert!(namespaces.contains(&"d".to_string()));
}

#[test]
fn test_delete_namespace() {
    let mut manager = InMemoryNamespaceManager::new();
    manager.create_namespace("x/y/z").unwrap();
    manager.delete_namespace("x/y").unwrap();

    let result = manager.list_namespaces("x");
    assert!(result.unwrap().is_empty());
}

#[test]
fn test_search_namespaces() {
    let mut manager = InMemoryNamespaceManager::new();
    manager.create_namespace("search/test1").unwrap();
    manager.create_namespace("search/test2").unwrap();
    manager.create_namespace("other/test3").unwrap();

    let results = manager.search_namespaces("test").unwrap();
    assert_eq!(results.len(), 3);
    assert!(results.contains(&"search/test1".to_string()));
    assert!(results.contains(&"search/test2".to_string()));
    assert!(results.contains(&"other/test3".to_string()));
}

#[test]
fn test_parse_path_drops_empty_segments() {
    assert_eq!(parse_path("/a//b/"), vec!["a".to_string(), "b".to_string()]);
    assert_eq!(parse_path("a/b/c"), vec!["a".to_string(), "b".to_string(), "c".to_string()]);
    assert_eq!(parse_path(""), Vec::<String>::new());
    assert_eq!(parse_path("///"), Vec::<String>::new());
    assert_eq!(parse_path("single"), vec!["single".to_string()]);
}

#[test]
fn test_create_empty_path_is_invalid() {
    let mut manager = InMemoryNamespaceManager::new();
    assert_eq!(manager.create_namespace(""), Err(NamespaceError::InvalidPath));
    assert_eq!(manager.create_namespace("//"), Err(NamespaceError::InvalidPath));
}

#[test]
fn test_create_is_idempotent() {
    let mut manager = InMemoryNamespaceManager::new();
    manager.create_namespace("a/b").unwrap();
    manager.create_namespace("a/c").unwrap();
    let mut again = InMemoryNamespaceManager::new();
    again.create_namespace("a/b").unwrap();
    again.create_namespace("a/c").unwrap();
    // Re-creating existing namespaces leaves the directory value equal.
    again.create_namespace("a/b").unwrap();
    again.create_namespace("a").unwrap();
    assert_eq!(manager.root, again.root);
    let children = manager.list_namespaces("a").unwrap();
    assert_eq!(children, vec!["b".to_string(), "c".to_string()]);
}

#[test]
fn test_list_missing_namespace_is_not_found() {
    let manager = InMemoryNamespaceManager::new();
    assert_eq!(manager.list_namespaces("nope"), Err(NamespaceError::NotFound));
}

#[test]
fn test_list_root_namespaces() {
    let mut manager = InMemoryNamespaceManager::new();
    assert_eq!(manager.list_namespaces("").unwrap(), Vec::<String>::new());
    manager.create_namespace("alpha").unwrap();
    manager.create_namespace("beta/gamma").unwrap();
    assert_eq!(
        manager.list_namespaces("").unwrap(),
        vec!["alpha".to_string(), "beta".to_string()]
    );
}

#[test]
fn test_delete_missing_namespace_is_not_found() {
    let mut manager = InMemoryNamespaceManager::new();
    manager.create_namespace("a/b").unwrap();
    assert_eq!(manager.delete_namespace("a/c"), Err(NamespaceError::NotFound));
    assert_eq!(manager.delete_namespace(""), Err(NamespaceError::InvalidPath));
}

#[test]
fn test_delete_removes_whole_subtree() {
    let mut manager = InMemoryNamespaceManager::new();
    manager.create_namespace("a/b/c").unwrap();
    manager.create_namespace("a/z").unwrap();
    manager.delete_namespace("a/b").unwrap();
    assert_eq!(manager.list_namespaces("a/b"), Err(NamespaceError::NotFound));
    assert_eq!(manager.list_namespaces("a/b/c"), Err(NamespaceError::NotFound));
    assert_eq!(manager.list_namespaces("a").unwrap(), vec!["z".to_string()]);
}

#[test]
fn test_drill_down_returns_subtree() {
    let mut manager = InMemoryNamespaceManager::new();
    manager.create_namespace("a/b/c").unwrap();
    let node = manager.drill_down("a/b").unwrap();
    assert_eq!(node.name, "b");
    assert_eq!(node.children.len(), 1);
    assert_eq!(node.children[0].name, "c");
    assert_eq!(
        manager.drill_down("a/missing").err(),
        Some(NamespaceError::NotFound)
    );
}

#[test]
fn test_search_matches_inner_nodes() {
    let mut manager = InMemoryNamespaceManager::new();
    manager.create_namespace("team/api/v1").unwrap();
    manager.create_namespace("team/web").unwrap();
    let results = manager.search_namespaces("api").unwrap();
    assert_eq!(results, vec!["team/api".to_string()]);
    let all = manager.search_namespaces("").unwrap();
    assert_eq!(all.len(), 4);
    let none = manager.search_namespaces("zzz").unwrap();
    assert!(none.is_empty());
}
