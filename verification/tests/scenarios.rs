use std::str::FromStr;

use bf_codegen::ast::{Scope, Struct, Type};
use bf_codegen::copy_task::{parse_items, CopyTask, Group, Item};
use bf_codegen::descriptor::{
    Command, CommandLineDescriptor, ElementDescriptor, GroupSetting, ParameterDescriptor,
    ParameterType, Platform, TaskDescriptor,
};
use bf_codegen::element::Element;
use bf_codegen::errors::Error;
use bf_codegen::generator::{generate_execute_fn, generate_unit, generate_variant};
use bf_codegen::command_parser::CommandDetails;
use bf_codegen::runtime::Runtime;
use bf_codegen::util::ApplyPrefix;

fn convert(el: &minidom::Element) -> Element {
    let mut attributes = Vec::new();
    for name in ["source", "destination", "condition"] {
        if let Some(v) = el.attr(name) {
            attributes.push((name.to_string(), v.to_string()));
        }
    }
    let text = if el.children().next().is_none() {
        el.text()
    } else {
        String::new()
    };
    Element {
        name: el.name().to_string(),
        attributes,
        text,
        children: el.children().map(convert).collect(),
    }
}

fn parse_document(input: &str) -> Element {
    let el = minidom::Element::from_str(input.trim()).unwrap();
    convert(&el)
}

fn new_runtime() -> Runtime {
    Runtime {
        input: String::new(),
        working_directory: String::new(),
        variables: Vec::new(),
        dry_run: true,
        source_base: None,
        destination_base: None,
    }
}

fn path_descriptor() -> TaskDescriptor {
    TaskDescriptor {
        name: String::from("copy"),
        command: Command::Snippet(String::from("copy_item(&item.source, &item.destination)?;")),
        element: ElementDescriptor {
            tag: String::from("copy"),
            value: None,
            attributes: vec![
                ParameterDescriptor {
                    name: String::from("source"),
                    parameter_type: ParameterType::Path,
                    allow_group: GroupSetting::InheritPrefix,
                    required: true,
                },
                ParameterDescriptor {
                    name: String::from("destination"),
                    parameter_type: ParameterType::Path,
                    allow_group: GroupSetting::InheritPrefix,
                    required: true,
                },
            ],
        },
    }
}

#[test]
fn end_to_end_inherit_prefix_document_yields_two_items() {
    const INPUT: &str = r#"<task xmlns="https://github.com/glecaros/bf" source="src" destination="dst"><item>file1.ext</item><group source="in" destination="out"><item>file2.ext</item></group></task>"#;
    let runtime = new_runtime();
    let element = parse_document(INPUT);
    let task = CopyTask::parse(&runtime, &element).unwrap().unwrap();
    assert_eq!(task.item_count(), 2);
    assert_eq!(task.items[0].source, "src/file1.ext");
    assert_eq!(task.items[0].destination, "dst/file1.ext");
    assert_eq!(task.items[1].source, "src/in/file2.ext");
    assert_eq!(task.items[1].destination, "dst/out/file2.ext");
    assert_eq!(task.get_name(), "copy");
}

#[test]
fn serializing_the_same_tree_twice_is_byte_identical() {
    let tasks = vec![path_descriptor()];
    let first = generate_unit(&tasks, Platform::Linux);
    let second = generate_unit(&tasks, Platform::Linux);
    assert_eq!(first.as_bytes(), second.as_bytes());
    let s = Struct::new("Sample").derive("Debug").field("value", Type::new("u32"));
    let once = s.to_text();
    let s2 = Struct::new("Sample").derive("Debug").field("value", Type::new("u32"));
    let twice = s2.to_text();
    assert_eq!(once.as_bytes(), twice.as_bytes());
}

#[test]
fn scope_serialization_is_deterministic() {
    let scope = Scope::new().push_struct(
        Struct::new("Sample").vis("pub").field("value", Type::new("u32")),
    );
    let text = scope.to_string();
    assert!(text.contains("pub struct Sample {"));
    assert!(text.contains("    value: u32,"));
}

#[test]
fn prefix_join_inserts_exactly_one_separator() {
    let suffix: Option<String> = Some(String::from("b"));
    let plain = suffix.apply_prefix(&Some(String::from("a")));
    assert_eq!(plain, Some(String::from("a/b")));
    let already_terminated = Some(String::from("b")).apply_prefix(&Some(String::from("a/")));
    assert_eq!(already_terminated, Some(String::from("a/b")));
    let absent_prefix = Some(String::from("b")).apply_prefix(&None);
    assert_eq!(absent_prefix, Some(String::from("b")));
    let absent_suffix: Option<String> = None;
    assert_eq!(absent_suffix.apply_prefix(&Some(String::from("a"))), Some(String::from("a/")));
    assert_eq!(absent_suffix.apply_prefix(&None), None);
}

#[test]
fn item_resolution_follows_the_inheritance_table() {
    let group = Group {
        source_prefix: Some(String::from("src")),
        destination_prefix: Some(String::from("dst/")),
    };
    let item = Item::create("a.txt", "b.txt", Some(&group));
    assert_eq!(item.source, "src/a.txt");
    assert_eq!(item.destination, "dst/b.txt");
    let bare = Item::create("a.txt", "b.txt", None);
    assert_eq!(bare.source, "a.txt");
    assert_eq!(bare.destination, "b.txt");
}

#[test]
fn missing_destination_attribute_defaults_to_the_source_text() {
    const INPUT: &str = r#"
    <copy xmlns="https://github.com/glecaros/bf" destination="dst">
        <item>file1.ext</item>
    </copy>
    "#;
    let runtime = new_runtime();
    let element = parse_document(INPUT);
    let items = parse_items(&runtime, &element, None).unwrap().unwrap();
    assert_eq!(items.len(), 1);
    assert_eq!(items[0].source, "file1.ext");
    assert_eq!(items[0].destination, "dst/file1.ext");
}

#[test]
fn missing_item_text_fails_with_missing_required_value() {
    const INPUT: &str = r#"
    <copy xmlns="https://github.com/glecaros/bf" source="src" destination="dst">
        <item destination="x.ext"></item>
    </copy>
    "#;
    let runtime = new_runtime();
    let element = parse_document(INPUT);
    let items = parse_items(&runtime, &element, None);
    assert!(matches!(items, Err(Error::MissingRequiredValue(name)) if name == "source"));
}

#[test]
fn unknown_child_element_is_fatal() {
    const INPUT: &str = r#"
    <copy xmlns="https://github.com/glecaros/bf" source="src" destination="dst">
        <other>file1.ext</other>
    </copy>
    "#;
    let runtime = new_runtime();
    let element = parse_document(INPUT);
    let items = parse_items(&runtime, &element, None);
    assert!(matches!(items, Err(Error::InvalidElement(name)) if name == "other"));
}

#[test]
fn condition_that_is_not_boolean_is_fatal() {
    const INPUT: &str = r#"
    <copy xmlns="https://github.com/glecaros/bf" source="src" destination="dst" condition="3 + 1'">
        <item>file1.ext</item>
    </copy>
    "#;
    let runtime = new_runtime();
    let element = parse_document(INPUT);
    let items = parse_items(&runtime, &element, None);
    assert!(matches!(items, Err(Error::ConditionFailure(_))));
}

#[test]
fn case_conversion_feeds_the_dispatch_names() {
    let task = TaskDescriptor {
        name: String::from("fancy copy"),
        command: Command::Snippet(String::from("asdf")),
        element: ElementDescriptor { tag: String::new(), value: None, attributes: vec![] },
    };
    let variant = generate_variant(&task);
    assert_eq!(variant.name, "FancyCopy");
    assert_eq!(variant.tuple, vec![String::from("fancy_copy::Task")]);
}

#[test]
fn snippet_placeholders_become_field_accesses() {
    let task = TaskDescriptor {
        name: String::from("copy"),
        command: Command::Snippet(String::from("run(${source}, ${destination});")),
        element: ElementDescriptor { tag: String::new(), value: None, attributes: vec![] },
    };
    let f = generate_execute_fn(&task, Platform::Linux);
    let text = f.to_text();
    assert!(text.contains("run(&item.source, &item.destination);"));
    assert!(!text.contains("${"));
}

#[test]
fn command_line_executor_guards_optional_parts() {
    let linux = CommandDetails::new("strip [-o $destination] $source").unwrap();
    let windows = CommandDetails::new("strip.exe [-o $destination] $source").unwrap();
    let osx = CommandDetails::new("strip -x [-o $destination] $source").unwrap();
    let task = TaskDescriptor {
        name: String::from("strip"),
        command: Command::CommandLine(CommandLineDescriptor { linux, windows, osx }),
        element: ElementDescriptor { tag: String::new(), value: None, attributes: vec![] },
    };
    let f = generate_execute_fn(&task, Platform::Linux);
    let text = f.to_text();
    assert!(text.contains("let mut call = Command::new(\"strip\");"));
    assert!(text.contains("if let Some(destination) = &item.destination {"));
    assert!(text.contains("call.arg(\"-o\");"));
    assert!(text.contains("call.arg(&destination);"));
    assert!(text.contains("call.arg(&item.source);"));
    let windows_fn = generate_execute_fn(&task, Platform::Windows);
    assert!(windows_fn.to_text().contains("Command::new(\"strip.exe\")"));
}

#[test]
fn generated_unit_holds_module_dispatch_and_parser() {
    let tasks = vec![path_descriptor()];
    let text = generate_unit(&tasks, Platform::Linux);
    assert!(text.contains("mod copy {"));
    assert!(text.contains("use std::path::PathBuf;"));
    assert!(text.contains("pub enum Task {"));
    assert!(text.contains("Copy(copy::Task),"));
    assert!(text.contains("fn parse_input(runtime: &Runtime, input: &str) -> Result<Vec<Task>, Error> {"));
    assert!(text.contains("let source = source.ok_or(Error::from(\"Missing required value: 'source'\"))?;"));
}

#[test]
fn item_resolve_is_anchored_under_the_base_directories() {
    let mut runtime = new_runtime();
    runtime.source_base = Some(String::from("/in"));
    runtime.destination_base = Some(String::from("/out"));
    let item = Item { source: String::from("a.txt"), destination: String::from("b.txt") };
    let (s, d) = item.resolve(&runtime);
    assert_eq!(s, "/in/a.txt");
    assert_eq!(d, "/out/b.txt");
}

#[test]
fn uses_groups_reflects_the_attribute_settings() {
    let descriptor = path_descriptor();
    assert!(descriptor.element.uses_groups());
    let plain = ElementDescriptor {
        tag: String::new(),
        value: None,
        attributes: vec![ParameterDescriptor {
            name: String::from("source"),
            parameter_type: ParameterType::Path,
            allow_group: GroupSetting::NoInherit,
            required: true,
        }],
    };
    assert!(!plain.uses_groups());
}

#[test]
fn empty_descriptor_set_still_emits_the_dispatch_skeleton() {
    let tasks: Vec<TaskDescriptor> = Vec::new();
    let text = generate_unit(&tasks, Platform::Linux);
    assert!(text.contains("pub enum Task {"));
    assert!(text.contains("fn parse_input(runtime: &Runtime, input: &str) -> Result<Vec<Task>, Error> {"));
    assert!(!text.contains("mod "));
}

#[test]
fn empty_tracker_writes_nothing() {
    let tracker = bf_codegen::dependency_tracker::DependencyTracker::new();
    assert_eq!(tracker.write(0), "");
}

#[test]
fn the_latest_binding_of_a_repeated_variable_wins() {
    let mut variables = Vec::new();
    variables.push((String::from("var"), String::from("first")));
    variables.push((String::from("var"), String::from("second")));
    let output = bf_codegen::interpolation::interpolate("{var}", &variables).unwrap();
    assert_eq!(output, "second");
}

#[test]
fn duplicate_descriptor_names_are_reported() {
    let tasks = vec![path_descriptor(), path_descriptor()];
    let dup = bf_codegen::descriptor::find_duplicate_name(&tasks);
    assert!(matches!(dup, Some(name) if name == "copy"));
    let mut second = path_descriptor();
    second.name = String::from("strip");
    let distinct = vec![path_descriptor(), second];
    assert!(bf_codegen::descriptor::find_duplicate_name(&distinct).is_none());
}
