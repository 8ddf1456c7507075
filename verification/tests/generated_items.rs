use bf_codegen::compare::{compare_impl, compare_struct};
use bf_codegen::descriptor::{ElementDescriptor, GroupSetting, ParameterDescriptor, ParameterType};
use bf_codegen::generator::item::{generate_item_definition, generate_item_impl};

fn new_parameter(
    name: &str,
    parameter_type: ParameterType,
    required: bool,
    allow_group: GroupSetting,
) -> ParameterDescriptor {
    ParameterDescriptor {
        name: String::from(name),
        parameter_type,
        required,
        allow_group,
    }
}

fn test_descriptor(
    setting1: (GroupSetting, bool),
    setting2: (GroupSetting, bool),
    setting3: (GroupSetting, bool),
) -> ElementDescriptor {
    ElementDescriptor {
        tag: String::new(),
        value: None,
        attributes: vec![
            new_parameter("src", ParameterType::Path, setting1.1, setting1.0),
            new_parameter("dst", ParameterType::Path, setting2.1, setting2.0),
            new_parameter("tst", ParameterType::Path, setting3.1, setting3.0),
        ],
    }
}

#[test]
fn item_struct_all_required() {
    let descriptor = test_descriptor((GroupSetting::NoInherit, true), (GroupSetting::NoInherit, true), (GroupSetting::NoInherit, true));
    let item = generate_item_definition(&descriptor);
    const EXPECTED: &str = r#"
    struct Item {
        src: PathBuf,
        dst: PathBuf,
        tst: PathBuf,
    }"#;
    assert!(compare_struct(item, EXPECTED))
}

#[test]
fn item_struct_none_required() {
    let descriptor = test_descriptor((GroupSetting::NoInherit, false), (GroupSetting::NoInherit, false), (GroupSetting::NoInherit, false));
    let item = generate_item_definition(&descriptor);
    const EXPECTED: &str = r#"
    struct Item {
        src: Option<PathBuf>,
        dst: Option<PathBuf>,
        tst: Option<PathBuf>,
    }"#;
    assert!(compare_struct(item, EXPECTED))
}

#[test]
fn item_impl_required_no_group() {
    let descriptor = test_descriptor((GroupSetting::NoInherit, true), (GroupSetting::NoInherit, true), (GroupSetting::NoInherit, true));
    let item = generate_item_impl(&descriptor);
    const EXPECTED: &str = r#"
    impl Item {
        pub fn create(element: &Element, parent: &Group, runtime: &Runtime) -> Result<Item, Error> {
            let src = interpolate_attribute("src", element, runtime)?.map(PathBuf::from);
            let src = src.ok_or(Error::from("Missing required value: 'src'"))?;
            let dst = interpolate_attribute("dst", element, runtime)?.map(PathBuf::from);
            let dst = dst.ok_or(Error::from("Missing required value: 'dst'"))?;
            let tst = interpolate_attribute("tst", element, runtime)?.map(PathBuf::from);
            let tst = tst.ok_or(Error::from("Missing required value: 'tst'"))?;
            Ok(Item {
                src: src,
                dst: dst,
                tst: tst,
            })
        }
    }"#;
    assert!(compare_impl(item, EXPECTED));
}

#[test]
fn item_impl_required_inherit() {
    let descriptor = test_descriptor((GroupSetting::Inherit, true), (GroupSetting::Inherit, true), (GroupSetting::Inherit, true));
    let item = generate_item_impl(&descriptor);
    const EXPECTED: &str = r#"
    impl Item {
        pub fn create(element: &Element, parent: &Group, runtime: &Runtime) -> Result<Item, Error> {
            let src = interpolate_attribute("src", element, runtime)?.map(PathBuf::from);
            let src = src.or(parent.src);
            let src = src.ok_or(Error::from("Missing required value: 'src'"))?;
            let dst = interpolate_attribute("dst", element, runtime)?.map(PathBuf::from);
            let dst = dst.or(parent.dst);
            let dst = dst.ok_or(Error::from("Missing required value: 'dst'"))?;
            let tst = interpolate_attribute("tst", element, runtime)?.map(PathBuf::from);
            let tst = tst.or(parent.tst);
            let tst = tst.ok_or(Error::from("Missing required value: 'tst'"))?;
            Ok(Item {
                src: src,
                dst: dst,
                tst: tst,
            })
        }
    }"#;
    assert!(compare_impl(item, EXPECTED));
}

#[test]
fn item_impl_required_prefix() {
    let descriptor = test_descriptor((GroupSetting::Prefix, true), (GroupSetting::Prefix, true), (GroupSetting::Prefix, true));
    let item = generate_item_impl(&descriptor);
    const EXPECTED: &str = r#"
    impl Item {
        pub fn create(element: &Element, parent: &Group, runtime: &Runtime) -> Result<Item, Error> {
            let src = interpolate_attribute("src", element, runtime)?.map(PathBuf::from);
            let src = if let Some(src) = src {
                Some(src).apply_prefix(&parent.src)
            } else {
                src
            };
            let src = src.ok_or(Error::from("Missing required value: 'src'"))?;
            let dst = interpolate_attribute("dst", element, runtime)?.map(PathBuf::from);
            let dst = if let Some(dst) = dst {
                Some(dst).apply_prefix(&parent.dst)
            } else {
                dst
            };
            let dst = dst.ok_or(Error::from("Missing required value: 'dst'"))?;
            let tst = interpolate_attribute("tst", element, runtime)?.map(PathBuf::from);
            let tst = if let Some(tst) = tst {
                Some(tst).apply_prefix(&parent.tst)
            } else {
                tst
            };
            let tst = tst.ok_or(Error::from("Missing required value: 'tst'"))?;
            Ok(Item {
                src: src,
                dst: dst,
                tst: tst,
            })
        }
    }"#;
    assert!(compare_impl(item, EXPECTED));
}

#[test]
fn item_impl_required_inherit_prefix() {
    let descriptor = test_descriptor(
        (GroupSetting::InheritPrefix, true),
        (GroupSetting::InheritPrefix, true),
        (GroupSetting::InheritPrefix, true),
    );
    let item = generate_item_impl(&descriptor);
    const EXPECTED: &str = r#"
    impl Item {
        pub fn create(element: &Element, parent: &Group, runtime: &Runtime) -> Result<Item, Error> {
            let src = interpolate_attribute("src", element, runtime)?.map(PathBuf::from);
            let src = src.apply_prefix(&parent.src);
            let src = src.ok_or(Error::from("Missing required value: 'src'"))?;
            let dst = interpolate_attribute("dst", element, runtime)?.map(PathBuf::from);
            let dst = dst.apply_prefix(&parent.dst);
            let dst = dst.ok_or(Error::from("Missing required value: 'dst'"))?;
            let tst = interpolate_attribute("tst", element, runtime)?.map(PathBuf::from);
            let tst = tst.apply_prefix(&parent.tst);
            let tst = tst.ok_or(Error::from("Missing required value: 'tst'"))?;
            Ok(Item {
                src: src,
                dst: dst,
                tst: tst,
            })
        }
    }"#;
    assert!(compare_impl(item, EXPECTED));
}

#[test]
fn item_impl_not_required_no_group() {
    let descriptor = test_descriptor((GroupSetting::NoInherit, false), (GroupSetting::NoInherit, false), (GroupSetting::NoInherit, false));
    let item = generate_item_impl(&descriptor);
    const EXPECTED: &str = r#"
    impl Item {
        pub fn create(element: &Element, parent: &Group, runtime: &Runtime) -> Result<Item, Error> {
            let src = interpolate_attribute("src", element, runtime)?.map(PathBuf::from);
            let dst = interpolate_attribute("dst", element, runtime)?.map(PathBuf::from);
            let tst = interpolate_attribute("tst", element, runtime)?.map(PathBuf::from);
            Ok(Item {
                src: src,
                dst: dst,
                tst: tst,
            })
        }
    }"#;
    assert!(compare_impl(item, EXPECTED));
}

#[test]
fn item_impl_not_required_inherit() {
    let descriptor = test_descriptor((GroupSetting::Inherit, false), (GroupSetting::Inherit, false), (GroupSetting::Inherit, false));
    let item = generate_item_impl(&descriptor);
    const EXPECTED: &str = r#"
    impl Item {
        pub fn create(element: &Element, parent: &Group, runtime: &Runtime) -> Result<Item, Error> {
            let src = interpolate_attribute("src", element, runtime)?.map(PathBuf::from);
            let src = src.or(parent.src);
            let dst = interpolate_attribute("dst", element, runtime)?.map(PathBuf::from);
            let dst = dst.or(parent.dst);
            let tst = interpolate_attribute("tst", element, runtime)?.map(PathBuf::from);
            let tst = tst.or(parent.tst);
            Ok(Item {
                src: src,
                dst: dst,
                tst: tst,
            })
        }
    }"#;
    assert!(compare_impl(item, EXPECTED));
}

#[test]
fn item_impl_not_required_prefix() {
    let descriptor = test_descriptor((GroupSetting::Prefix, false), (GroupSetting::Prefix, false), (GroupSetting::Prefix, false));
    let item = generate_item_impl(&descriptor);
    const EXPECTED: &str = r#"
    impl Item {
        pub fn create(element: &Element, parent: &Group, runtime: &Runtime) -> Result<Item, Error> {
            let src = interpolate_attribute("src", element, runtime)?.map(PathBuf::from);
            let src = if let Some(src) = src {
                Some(src).apply_prefix(&parent.src)
            } else {
                src
            };
            let dst = interpolate_attribute("dst", element, runtime)?.map(PathBuf::from);
            let dst = if let Some(dst) = dst {
                Some(dst).apply_prefix(&parent.dst)
            } else {
                dst
            };
            let tst = interpolate_attribute("tst", element, runtime)?.map(PathBuf::from);
            let tst = if let Some(tst) = tst {
                Some(tst).apply_prefix(&parent.tst)
            } else {
                tst
            };
            Ok(Item {
                src: src,
                dst: dst,
                tst: tst,
            })
        }
    }"#;
    assert!(compare_impl(item, EXPECTED));
}

#[test]
fn item_impl_not_required_inherit_prefix() {
    let descriptor = test_descriptor(
        (GroupSetting::InheritPrefix, false),
        (GroupSetting::InheritPrefix, false),
        (GroupSetting::InheritPrefix, false),
    );
    let item = generate_item_impl(&descriptor);
    const EXPECTED: &str = r#"
    impl Item {
        pub fn create(element: &Element, parent: &Group, runtime: &Runtime) -> Result<Item, Error> {
            let src = interpolate_attribute("src", element, runtime)?.map(PathBuf::from);
            let src = src.apply_prefix(&parent.src);
            let dst = interpolate_attribute("dst", element, runtime)?.map(PathBuf::from);
            let dst = dst.apply_prefix(&parent.dst);
            let tst = interpolate_attribute("tst", element, runtime)?.map(PathBuf::from);
            let tst = tst.apply_prefix(&parent.tst);
            Ok(Item {
                src: src,
                dst: dst,
                tst: tst,
            })
        }
    }"#;
    assert!(compare_impl(item, EXPECTED));
}
