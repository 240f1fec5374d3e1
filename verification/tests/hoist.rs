use ghd::hoist::{has_name, hoist_plan, FsStep};
use ghd::tree::Entry;
use ghd::ErrorKind;

fn hoist_file(name: &str) -> Entry {
    Entry::File { name: name.as_bytes().to_vec(), mode: 0o644 }
}

fn hoist_dir(name: &str, entries: Vec<Entry>) -> Entry {
    Entry::Directory { name: name.as_bytes().to_vec(), entries }
}

fn hoist_path(parts: &[&str]) -> Vec<Vec<u8>> {
    parts.iter().map(|part| part.as_bytes().to_vec()).collect()
}

fn hoist_name(name: &str) -> Vec<u8> {
    name.as_bytes().to_vec()
}

#[test]
fn has_name_looks_at_the_given_level_only() {
    let entries = vec![hoist_dir("bin", vec![hoist_file("tool")]), hoist_file("README.md")];
    assert!(has_name(&entries, &hoist_name("bin")));
    assert!(has_name(&entries, &hoist_name("README.md")));
    assert!(!has_name(&entries, &hoist_name("tool")));
    assert!(!has_name(&entries, &hoist_name("readme.md")));
    assert!(!has_name(&Vec::new(), &hoist_name("bin")));
}

#[test]
fn hoist_plan_is_empty_for_a_tree_that_is_not_wrapped() {
    assert_eq!(hoist_plan(&vec![]), Ok(vec![]));
    assert_eq!(hoist_plan(&vec![hoist_file("tool")]), Ok(vec![]));
    assert_eq!(hoist_plan(&vec![hoist_dir("bin", vec![]), hoist_file("README.md")]), Ok(vec![]));
    assert_eq!(hoist_plan(&vec![Entry::Other { name: b"link".to_vec() }]), Ok(vec![]));
}

#[test]
fn hoist_plan_renames_files_and_removes_the_wrapper() {
    let unpacked = vec![hoist_dir("tool-v1", vec![hoist_file("tool"), hoist_file("LICENSE")])];
    assert_eq!(
        hoist_plan(&unpacked),
        Ok(vec![
            FsStep::CreateDir { path: hoist_path(&[]) },
            FsStep::Rename { from: hoist_path(&["tool-v1", "tool"]), to: hoist_path(&["tool"]) },
            FsStep::Rename { from: hoist_path(&["tool-v1", "LICENSE"]), to: hoist_path(&["LICENSE"]) },
            FsStep::RemoveDir { path: hoist_path(&["tool-v1"]) },
        ])
    );
}

#[test]
fn hoist_plan_moves_a_directory_entry_by_entry() {
    let unpacked = vec![hoist_dir(
        "tool-v1.2.3",
        vec![
            hoist_dir("bin", vec![hoist_file("tool"), hoist_dir("share", vec![hoist_file("man")])]),
            hoist_file("README.md"),
        ],
    )];
    assert_eq!(
        hoist_plan(&unpacked),
        Ok(vec![
            FsStep::CreateDir { path: hoist_path(&[]) },
            FsStep::CreateDir { path: hoist_path(&["bin"]) },
            FsStep::Rename {
                from: hoist_path(&["tool-v1.2.3", "bin", "tool"]),
                to: hoist_path(&["bin", "tool"]),
            },
            FsStep::CreateDir { path: hoist_path(&["bin", "share"]) },
            FsStep::Rename {
                from: hoist_path(&["tool-v1.2.3", "bin", "share", "man"]),
                to: hoist_path(&["bin", "share", "man"]),
            },
            FsStep::RemoveDir { path: hoist_path(&["tool-v1.2.3", "bin", "share"]) },
            FsStep::RemoveDir { path: hoist_path(&["tool-v1.2.3", "bin"]) },
            FsStep::Rename {
                from: hoist_path(&["tool-v1.2.3", "README.md"]),
                to: hoist_path(&["README.md"]),
            },
            FsStep::RemoveDir { path: hoist_path(&["tool-v1.2.3"]) },
        ])
    );
}

#[test]
fn hoist_plan_of_an_empty_wrapper_only_removes_it() {
    assert_eq!(
        hoist_plan(&vec![hoist_dir("tool-v1", vec![])]),
        Ok(vec![
            FsStep::CreateDir { path: hoist_path(&[]) },
            FsStep::RemoveDir { path: hoist_path(&["tool-v1"]) },
        ])
    );
}

#[test]
fn hoist_plan_renames_what_is_neither_file_nor_directory() {
    let unpacked = vec![hoist_dir("w", vec![Entry::Other { name: b"link".to_vec() }])];
    assert_eq!(
        hoist_plan(&unpacked),
        Ok(vec![
            FsStep::CreateDir { path: hoist_path(&[]) },
            FsStep::Rename { from: hoist_path(&["w", "link"]), to: hoist_path(&["link"]) },
            FsStep::RemoveDir { path: hoist_path(&["w"]) },
        ])
    );
}

#[test]
fn hoist_plan_refuses_a_wrapper_that_holds_its_own_name() {
    let unpacked = vec![hoist_dir("tool", vec![hoist_file("tool"), hoist_file("README.md")])];
    assert_eq!(
        hoist_plan(&unpacked),
        Err(ErrorKind::IO(
            "path collision: the wrapping directory holds an entry of its own name"
                .to_string()
        ))
    );
    let nested = vec![hoist_dir("tool", vec![hoist_dir("tool", vec![hoist_file("x")])])];
    assert!(matches!(hoist_plan(&nested), Err(ErrorKind::IO(_))));
}

#[test]
fn hoist_plan_allows_the_name_of_the_wrapper_further_down() {
    let unpacked = vec![hoist_dir("tool", vec![hoist_dir("bin", vec![hoist_file("tool")])])];
    assert_eq!(
        hoist_plan(&unpacked),
        Ok(vec![
            FsStep::CreateDir { path: hoist_path(&[]) },
            FsStep::CreateDir { path: hoist_path(&["bin"]) },
            FsStep::Rename { from: hoist_path(&["tool", "bin", "tool"]), to: hoist_path(&["bin", "tool"]) },
            FsStep::RemoveDir { path: hoist_path(&["tool", "bin"]) },
            FsStep::RemoveDir { path: hoist_path(&["tool"]) },
        ])
    );
}

#[derive(Debug, Clone, PartialEq, Eq)]
enum Kind {
    Directory,
    Leaf,
}

/// Every path of `entries` below `base`, with what lies there.
fn disk_of(
    base: &[Vec<u8>],
    entries: &[Entry],
    disk: &mut std::collections::BTreeMap<Vec<Vec<u8>>, Kind>,
) {
    for entry in entries {
        let mut path = base.to_vec();
        path.push(entry.name().clone());
        match entry {
            Entry::Directory { entries, .. } => {
                disk.insert(path.clone(), Kind::Directory);
                disk_of(&path, entries, disk);
            }
            _ => {
                disk.insert(path, Kind::Leaf);
            }
        }
    }
}

fn is_dir(disk: &std::collections::BTreeMap<Vec<Vec<u8>>, Kind>, path: &[Vec<u8>]) -> bool {
    path.is_empty() || disk.get(path) == Some(&Kind::Directory)
}

/// Carries out `steps` on `disk`; `false` where a step cannot be done.
fn carry_out(
    disk: &mut std::collections::BTreeMap<Vec<Vec<u8>>, Kind>,
    steps: &[FsStep],
) -> bool {
    for step in steps {
        match step {
            FsStep::CreateDir { path } => {
                if path.is_empty() {
                    continue;
                }
                if !is_dir(disk, &path[..path.len() - 1]) || disk.get(path) == Some(&Kind::Leaf) {
                    return false;
                }
                disk.insert(path.clone(), Kind::Directory);
            }
            FsStep::Rename { from, to } => {
                if disk.get(from) != Some(&Kind::Leaf)
                    || to.is_empty()
                    || !is_dir(disk, &to[..to.len() - 1])
                    || disk.get(to) == Some(&Kind::Directory)
                {
                    return false;
                }
                disk.remove(from);
                disk.insert(to.clone(), Kind::Leaf);
            }
            FsStep::RemoveDir { path } => {
                if path.is_empty() || !is_dir(disk, path) {
                    return false;
                }
                disk.retain(|other, _| !other.starts_with(path));
            }
        }
    }
    true
}

#[test]
fn the_steps_leave_what_the_wrapper_held() {
    let held = || {
        vec![
            hoist_dir("bin", vec![hoist_file("tool"), hoist_dir("share", vec![hoist_file("man")])]),
            hoist_file("README.md"),
            hoist_dir("empty", vec![]),
            Entry::Other { name: b"latest".to_vec() },
        ]
    };
    let unpacked = vec![hoist_dir("tool-v1.2.3", held())];

    let mut disk = std::collections::BTreeMap::new();
    disk_of(&[], &unpacked, &mut disk);
    let steps = hoist_plan(&unpacked).unwrap();
    assert!(carry_out(&mut disk, &steps));

    let mut expected = std::collections::BTreeMap::new();
    disk_of(&[], &held(), &mut expected);
    assert_eq!(disk, expected);
    assert_eq!(disk.len(), 7);
}

#[test]
fn the_steps_for_an_unwrapped_tree_leave_the_disk_alone() {
    let unpacked = vec![hoist_dir("bin", vec![hoist_file("tool")]), hoist_file("README.md")];
    let mut disk = std::collections::BTreeMap::new();
    disk_of(&[], &unpacked, &mut disk);
    let before = disk.clone();
    let steps = hoist_plan(&unpacked).unwrap();
    assert!(carry_out(&mut disk, &steps));
    assert_eq!(disk, before);
}

#[test]
fn flattening_again_plans_nothing() {
    let unpacked = vec![hoist_dir("tool-v1", vec![hoist_file("tool"), hoist_file("LICENSE")])];
    assert!(!hoist_plan(&unpacked).unwrap().is_empty());
    let flat = ghd::tree::flatten(unpacked);
    assert_eq!(hoist_plan(&flat), Ok(vec![]));
}

#[test]
fn hoist_plan_moves_names_that_are_no_text() {
    let odd = vec![0x74, 0xff, 0x6c];
    let wrapper = vec![0xfe, 0x2d, 0x31];
    let unpacked = vec![Entry::Directory {
        name: wrapper.clone(),
        entries: vec![Entry::File { name: odd.clone(), mode: 0o755 }],
    }];
    assert_eq!(
        hoist_plan(&unpacked),
        Ok(vec![
            FsStep::CreateDir { path: vec![] },
            FsStep::Rename { from: vec![wrapper.clone(), odd.clone()], to: vec![odd] },
            FsStep::RemoveDir { path: vec![wrapper] },
        ])
    );
}

#[test]
fn hoist_plan_tells_names_apart_by_their_bytes() {
    let unpacked = vec![Entry::Directory {
        name: vec![0x74, 0xff],
        entries: vec![Entry::File { name: vec![0x74, 0xfe], mode: 0o644 }],
    }];
    assert!(hoist_plan(&unpacked).is_ok());
    let colliding = vec![Entry::Directory {
        name: vec![0x74, 0xff],
        entries: vec![Entry::File { name: vec![0x74, 0xff], mode: 0o644 }],
    }];
    assert!(matches!(hoist_plan(&colliding), Err(ErrorKind::IO(_))));
}
