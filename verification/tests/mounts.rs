use brazen::mounts::{Mount, MountManager, MountType};
use brazen::urls::parse_url;

fn dir_mount(name: &str, allowed: Vec<String>) -> Mount {
    Mount {
        name: name.to_string(),
        mount_type: MountType::FileSystem("/srv/data".to_string()),
        read_only: true,
        allowed_domains: allowed,
    }
}

#[test]
fn resolve_fs_target_denies_traversal() {
    let mut manager = MountManager::new();
    manager.add_mount(dir_mount("root", Vec::new()));
    let url = parse_url("brazen://fs/root/../secret.txt").unwrap();
    assert!(manager.resolve_fs_target(&url).is_none());
}

#[test]
fn resolve_fs_target_enforces_allowed_domains() {
    let mut manager = MountManager::new();
    manager.add_mount(dir_mount("root", vec!["example.com".to_string()]));
    let url = parse_url("brazen://fs/root/file.txt").unwrap();
    assert!(manager.resolve_fs_target_with_origin(&url, Some("https://example.com")).is_some());
    assert!(manager.resolve_fs_target_with_origin(&url, Some("https://evil.com")).is_none());
    assert!(manager.resolve_fs_target_with_origin(&url, None).is_none());
}

#[test]
fn resolve_fs_target_joins_path_under_mount() {
    let mut manager = MountManager::new();
    manager.add_mount(dir_mount("root", Vec::new()));
    let url = parse_url("brazen://fs/root/a/b.txt").unwrap();
    let (mount, path, rest) = manager.resolve_fs_target(&url).unwrap();
    assert_eq!(rest, vec!["a".to_string(), "b.txt".to_string()]);
    assert_eq!(mount.name, "root");
    assert_eq!(path, "/srv/data/a/b.txt");
    let (p, read_only) = manager.resolve_fs_request(&url).unwrap();
    assert_eq!(p, "/srv/data/a/b.txt");
    assert!(read_only);
}

#[test]
fn mounts_add_replace_and_remove() {
    let mut manager = MountManager::new();
    manager.add_mount(dir_mount("a", Vec::new()));
    manager.add_mount(dir_mount("b", Vec::new()));
    let mut replaced = dir_mount("a", Vec::new());
    replaced.read_only = false;
    manager.add_mount(replaced);
    let listed = manager.list_mounts();
    assert_eq!(listed.len(), 2);
    assert!(listed.iter().any(|m| m.name == "a" && !m.read_only));
    manager.remove_mount("a");
    let listed = manager.list_mounts();
    assert_eq!(listed.len(), 1);
    assert_eq!(listed[0].name, "b");
}

#[test]
fn special_hosts_are_recognized() {
    let manager = MountManager::new();
    assert!(manager.resolve_terminal_request(&parse_url("brazen://terminal/x").unwrap()));
    assert!(manager.resolve_tabs_request(&parse_url("brazen://tabs/").unwrap()));
    assert!(manager.resolve_mcp_request(&parse_url("brazen://mcp/tools").unwrap()));
    assert!(!manager.resolve_mcp_request(&parse_url("https://mcp/tools").unwrap()));
}
