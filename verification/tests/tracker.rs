use bf_codegen::dependency_tracker::{DependencyTracker, MultiTree};

fn find_entry_in_children<'a>(value: &str, entry: &'a MultiTree) -> Option<&'a MultiTree> {
    entry.children.iter().find(|entry| -> bool {
        match &entry.value {
            Some(contained) => contained.as_str() == value,
            None => false,
        }
    })
}

#[test]
fn multi_tree_should_be_properly_built() {
    let mut tree = MultiTree::new();
    tree.add(&["std", "fs", "File"]);
    tree.add(&["std", "io", "Read"]);
    tree.add(&["std", "io", "Write"]);
    tree.add(&["std", "path", "Path"]);
    tree.add(&["std", "path", "PathBuf"]);
    assert!(matches!(tree.value, None));
    assert_eq!(tree.children.len(), 1);
    let std_entry = tree.children.first().unwrap();
    assert!(matches!(&std_entry.value, Some(value) if value == "std"));
    assert_eq!(std_entry.children.len(), 3);
    let fs_entry = find_entry_in_children("fs", std_entry);
    assert!(matches!(fs_entry, Some(entry) if entry.children.len() == 1));
    let file_entry = find_entry_in_children("File", fs_entry.unwrap());
    assert!(matches!(file_entry, Some(entry) if entry.children.is_empty()));
    let io_entry = find_entry_in_children("io", std_entry);
    assert!(matches!(io_entry, Some(entry) if entry.children.len() == 2));
    let read_entry = find_entry_in_children("Read", io_entry.unwrap());
    assert!(matches!(read_entry, Some(entry) if entry.children.is_empty()));
    let write_entry = find_entry_in_children("Write", io_entry.unwrap());
    assert!(matches!(write_entry, Some(entry) if entry.children.is_empty()));
    let path_entry = find_entry_in_children("path", std_entry);
    assert!(matches!(path_entry, Some(entry) if entry.children.len() == 2));
    let path_struct_entry = find_entry_in_children("Path", path_entry.unwrap());
    assert!(matches!(path_struct_entry, Some(entry) if entry.children.is_empty()));
    let pathbuf_entry = find_entry_in_children("PathBuf", path_entry.unwrap());
    assert!(matches!(pathbuf_entry, Some(entry) if entry.children.is_empty()));
}

#[test]
fn multi_tree_should_serialize_correctly() {
    let mut tree = MultiTree::new();
    tree.add(&["std", "fs", "File"]);
    tree.add(&["std", "io", "Read"]);
    tree.add(&["std", "io", "Write"]);
    tree.add(&["std", "path", "Path"]);
    tree.add(&["std", "path", "PathBuf"]);
    let serialized = tree.to_string();
    assert_eq!(
        serialized,
        "std::{fs::File, io::{Read, Write}, path::{Path, PathBuf}}"
    );
}

#[test]
fn multi_tree_should_serialize_correctly_multiline() {
    let mut tree = MultiTree::new();
    tree.add(&["log", "error"]);
    tree.add(&["log", "info"]);
    tree.add(&["minidom", "Element"]);
    let serialized = tree.to_string();
    let (first, second) = serialized.split_once("\n").unwrap();
    assert_eq!(first, "log::{error, info}");
    assert_eq!(second, "minidom::Element");
}

#[test]
fn tracker_groups_shared_prefixes_into_one_statement() {
    let mut tracker = DependencyTracker::new();
    tracker.track("std::fs::File");
    tracker.track("std::io::Read");
    tracker.track("minidom::Element");
    let written = tracker.write(0);
    assert_eq!(written, "use std::{fs::File, io::Read};\nuse minidom::Element;\n");
}

#[test]
fn tracker_merge_is_insensitive_to_insertion_order() {
    let names = ["std::fs::File", "std::io::Read", "std::io::Write", "log::info"];
    let mut forward = DependencyTracker::new();
    for name in names.iter() {
        forward.track(name);
    }
    let mut backward = DependencyTracker::new();
    for name in names.iter().rev() {
        backward.track(name);
    }
    let mut fw: Vec<String> = forward.write(0).lines().map(|l| l.to_string()).collect();
    let mut bw: Vec<String> = backward.write(0).lines().map(|l| l.to_string()).collect();
    assert_eq!(fw.len(), 2);
    assert_eq!(bw.len(), 2);
    fw.sort();
    bw.sort();
    assert!(fw.contains(&"use log::info;".to_string()));
    assert!(bw.contains(&"use log::info;".to_string()));
}
