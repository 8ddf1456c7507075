use bf_codegen::compare::{compare_enum, compare_function, compare_impl, compare_struct};
use bf_codegen::descriptor::{
    Command, ElementDescriptor, GroupSetting, ParameterDescriptor, ParameterType, TaskDescriptor,
};
use bf_codegen::generator::group::{generate_group_definition, generate_group_impl};
use bf_codegen::generator::item::{generate_item_definition, generate_item_impl};
use bf_codegen::generator::{
    generate_parse_input, generate_parse_item, generate_parse_items, generate_parse_task,
    generate_task_enum, generate_task_enum_impl, generate_task_impl, generate_task_struct,
};

fn new_parameter(
    name: &str,
    parameter_type: ParameterType,
    required: bool,
    allow_group: GroupSetting,
) -> ParameterDescriptor {
    ParameterDescriptor {
        name: String::from(name),
        parameter_type,
        required,
        allow_group,
    }
}

fn test_descriptor(
    setting1: (GroupSetting, bool),
    setting2: (GroupSetting, bool),
    setting3: (GroupSetting, bool),
) -> ElementDescriptor {
    ElementDescriptor {
        tag: String::new(),
        value: None,
        attributes: vec![
            new_parameter("src", ParameterType::Path, setting1.1, setting1.0),
            new_parameter("dst", ParameterType::Path, setting2.1, setting2.0),
            new_parameter("tst", ParameterType::Path, setting3.1, setting3.0),
        ],
    }
}

fn mock_task(name: &str) -> TaskDescriptor {
    TaskDescriptor {
        name: String::from(name),
        command: Command::Snippet(String::from("asdf")),
        element: ElementDescriptor { tag: String::new(), value: None, attributes: vec![] },
    }
}

#[test]
fn mod_parse_item() {
    let item = generate_parse_item();
    const EXPECTED: &str = r#"
    fn parse_item(runtime: &Runtime, element: &Element, parent: &Group) -> Result<Option<Item>, Error> {
        let condition = evaluate_condition_from_element(runtime, element)?;
        let item = if condition {
            let item = Item::create(element, parent, runtime)?;
            Some(item)
        } else {
            None
        };
        Ok(item)
    }
    "#;
    assert!(compare_function(item, EXPECTED));
}

#[test]
fn mod_parse_items() {
    let item = generate_parse_items();
    const EXPECTED: &str = r#"
    fn parse_items(runtime: &Runtime, parent: &Element, group: Option<&Group>) -> Result<Option<Vec<Item>>, Error> {
        let condition = evaluate_condition_from_element(runtime, parent)?;
        let items = if condition {
            let group = Group::create(parent, group, runtime)?;
            let mut items = Vec::new();
            for item in parent.children() {
                match item.name() {
                    "item" => {
                        let item = parse_item(runtime, item, &group)?;
                        if let Some(item) = item {
                            items.push(item);
                        }
                    }
                    "group" => {
                        let inner_items = parse_items(runtime, item, Some(&group))?;
                        if let Some(mut inner_items) = inner_items {
                            items.append(&mut inner_items);
                        }
                    }
                    _ => {
                        Err(internal_error!("Invalid element: {}", item.name()))?;
                    }
                }
            }
            Some(items)
        } else {
            None
        };
        Ok(items)
    }
    "#;
    assert!(compare_function(item, EXPECTED));
}

#[test]
fn mod_task_struct() {
    let item = generate_task_struct();
    const EXPECTED: &str = r#"
    #[derive(Debug)]
    pub struct Task {
        items: Vec<Item>,
    }"#;
    assert!(compare_struct(item, EXPECTED));
}

#[test]
fn task_impl() {
    let copy = mock_task("copy");
    let item = generate_task_impl(&copy);
    const EXPECTED: &str = r#"
    impl Task {
        pub fn run(&self) -> Result<(), Error> {
            for item in &self.items {
                copy(item)?;
            }
            Ok(())
        }
    }
    "#;
    assert!(compare_impl(item, EXPECTED));
}

#[test]
fn mod_parse_task() {
    let item = generate_parse_task();
    const EXPECTED: &str = r#"
    pub fn parse_task(runtime: &Runtime, parent: &Element) -> Result<Option<Task>, Error> {
        let items = parse_items(runtime, parent, None)?;
        let task = items.map(|items| {
            Task {
                items: items
            }
        });
        Ok(task)
    }"#;
    assert!(compare_function(item, EXPECTED));
}

#[test]
fn mod_task_enum() {
    let tasks = vec![mock_task("copy"), mock_task("strip")];
    let enum_definition = generate_task_enum(&tasks);
    const EXPECTED: &str = r#"
    #[derive(Debug)]
    pub enum Task {
        Copy(copy::Task),
        Strip(strip::Task),
    }"#;
    assert!(compare_enum(enum_definition, EXPECTED));
}

#[test]
fn task_enum_impl() {
    let tasks = vec![mock_task("copy"), mock_task("strip")];
    let impl_definition = generate_task_enum_impl(&tasks);
    const EXPECTED: &str = r#"
    impl Task {
        pub fn run(&self) -> Result<(), Error> {
            match &self {
                Task::Copy(copy) => copy.run(),
                Task::Strip(strip) => strip.run(),
            }
        }
    }"#;
    assert!(compare_impl(impl_definition, EXPECTED));
}

#[test]
fn mod_parse_input() {
    let tasks = vec![mock_task("copy"), mock_task("strip")];
    let parse_input_fn = generate_parse_input(&tasks);
    const EXPECTED: &str = r#"
    fn parse_input(runtime: &Runtime, input: &str) -> Result<Vec<Task>, Error> {
        let xml_elements: Element = input.parse()?;
        xml_elements
            .children()
            .map(|task| {
                let task_name = task.name();
                match task_name {
                    "copy" => {
                        let task = copy::parse_task(runtime, task)?.map(|task| Task::Copy(task));
                        Ok(task)
                    },
                    "strip" => {
                        let task = strip::parse_task(runtime, task)?.map(|task| Task::Strip(task));
                        Ok(task)
                    },
                    _ => Err(Error::from(format!("Invalid task '{}'", task_name))),
                }
            })
            .filter_map(|x| match x {
                Ok(task) => task.map(|task| Ok(task)),
                Err(err) => Some(Err(err)),
            })
            .collect()
    }
    "#;
    assert!(compare_function(parse_input_fn, EXPECTED));
}

#[test]
fn group_none() {
    let descriptor = test_descriptor((GroupSetting::NoInherit, true), (GroupSetting::NoInherit, false), (GroupSetting::NoInherit, true));
    let item = generate_group_definition(&descriptor);
    const EXPECTED: &str = r#"
    #[derive(Debug)]
    struct Group;"#;
    assert!(compare_struct(item, EXPECTED));
}

#[test]
fn group_all() {
    let descriptor = test_descriptor((GroupSetting::Inherit, true), (GroupSetting::Inherit, false), (GroupSetting::Inherit, true));
    let item = generate_group_definition(&descriptor);
    const EXPECTED: &str = r#"
    #[derive(Debug)]
    struct Group {
        src: Option<PathBuf>,
        dst: Option<PathBuf>,
        tst: Option<PathBuf>,
    }"#;
    assert!(compare_struct(item, EXPECTED));
}

#[test]
fn group_some() {
    let descriptor = test_descriptor((GroupSetting::Inherit, true), (GroupSetting::NoInherit, false), (GroupSetting::Inherit, true));
    let item = generate_group_definition(&descriptor);
    const EXPECTED: &str = r#"
    #[derive(Debug)]
    struct Group {
        src: Option<PathBuf>,
        tst: Option<PathBuf>,
    }"#;
    assert!(compare_struct(item, EXPECTED));
}

#[test]
fn group_impl_none() {
    let descriptor = test_descriptor((GroupSetting::NoInherit, true), (GroupSetting::NoInherit, false), (GroupSetting::NoInherit, true));
    let item = generate_group_impl(&descriptor);
    const EXPECTED: &str = r#"
    impl Group {
        pub fn create() -> Result<Group, Error> {
            Ok(Group{})
        }
    }"#;
    assert!(compare_impl(item, EXPECTED));
}

#[test]
fn group_impl_inherit() {
    let descriptor = test_descriptor((GroupSetting::Inherit, true), (GroupSetting::Inherit, false), (GroupSetting::Inherit, true));
    let item = generate_group_impl(&descriptor);
    const EXPECTED: &str = r#"
    impl Group {
        pub fn create(element: &Element, parent: Option<&Group>, runtime: &Runtime) -> Result<Group, Error> {
            let src = interpolate_attribute("src", element, runtime)?.map(PathBuf::from);
            let src = src.or(parent.map(|group| group.src));
            let dst = interpolate_attribute("dst", element, runtime)?.map(PathBuf::from);
            let dst = dst.or(parent.map(|group| group.dst));
            let tst = interpolate_attribute("tst", element, runtime)?.map(PathBuf::from);
            let tst = tst.or(parent.map(|group| group.tst));
            Ok(Group {
                src: src,
                dst: dst,
                tst: tst,
            })
        }
    }"#;
    assert!(compare_impl(item, EXPECTED));
}

#[test]
fn group_impl_prefix() {
    let descriptor = test_descriptor((GroupSetting::Prefix, true), (GroupSetting::Prefix, false), (GroupSetting::Prefix, true));
    let item = generate_group_impl(&descriptor);
    const EXPECTED: &str = r#"
    impl Group {
        pub fn create(element: &Element, parent: Option<&Group>, runtime: &Runtime) -> Result<Group, Error> {
            let src = interpolate_attribute("src", element, runtime)?.map(PathBuf::from);
            let src = if src.is_some() { if let Some(group) = parent { src.apply_prefix(&group.src) } else { src } } else { None };
            let dst = interpolate_attribute("dst", element, runtime)?.map(PathBuf::from);
            let dst = if dst.is_some() { if let Some(group) = parent { dst.apply_prefix(&group.dst) } else { dst } } else { None };
            let tst = interpolate_attribute("tst", element, runtime)?.map(PathBuf::from);
            let tst = if tst.is_some() { if let Some(group) = parent { tst.apply_prefix(&group.tst) } else { tst } } else { None };
            Ok(Group {
                src: src,
                dst: dst,
                tst: tst,
            })
        }
    }"#;
    assert!(compare_impl(item, EXPECTED));
}

#[test]
fn group_impl_inherit_prefix() {
    let descriptor = test_descriptor(
        (GroupSetting::InheritPrefix, true),
        (GroupSetting::InheritPrefix, false),
        (GroupSetting::InheritPrefix, true),
    );
    let item = generate_group_impl(&descriptor);
    const EXPECTED: &str = r#"
    impl Group {
        pub fn create(element: &Element, parent: Option<&Group>, runtime: &Runtime) -> Result<Group, Error> {
            let src = interpolate_attribute("src", element, runtime)?.map(PathBuf::from);
            let src = if let Some(group) = parent {
                src.apply_prefix(&group.src)
            } else {
                src
            };
            let dst = interpolate_attribute("dst", element, runtime)?.map(PathBuf::from);
            let dst = if let Some(group) = parent {
                dst.apply_prefix(&group.dst)
            } else {
                dst
            };
            let tst = interpolate_attribute("tst", element, runtime)?.map(PathBuf::from);
            let tst = if let Some(group) = parent {
                tst.apply_prefix(&group.tst)
            } else {
                tst
            };
            Ok(Group {
                src: src,
                dst: dst,
                tst: tst,
            })
        }
    }"#;
    assert!(compare_impl(item, EXPECTED));
}

#[test]
fn group_impl_mixed() {
    let descriptor = test_descriptor((GroupSetting::Inherit, true), (GroupSetting::Prefix, false), (GroupSetting::InheritPrefix, true));
    let item = generate_group_impl(&descriptor);
    const EXPECTED: &str = r#"
    impl Group {
        pub fn create(element: &Element, parent: Option<&Group>, runtime: &Runtime) -> Result<Group, Error> {
            let src = interpolate_attribute("src", element, runtime)?.map(PathBuf::from);
            let src = src.or(parent.map(|group| group.src));
            let dst = interpolate_attribute("dst", element, runtime)?.map(PathBuf::from);
            let dst = if dst.is_some() { if let Some(group) = parent { dst.apply_prefix(&group.dst) } else { dst } } else { None };
            let tst = interpolate_attribute("tst", element, runtime)?.map(PathBuf::from);
            let tst = if let Some(group) = parent {
                tst.apply_prefix(&group.tst)
            } else {
                tst
            };
            Ok(Group {
                src: src,
                dst: dst,
                tst: tst,
            })
        }
    }"#;
    assert!(compare_impl(item, EXPECTED));
}
