use std::str::FromStr;

use bf_codegen::copy_task::parse_items;
use bf_codegen::element::Element;
use bf_codegen::runtime::Runtime;

fn convert(el: &minidom::Element) -> Element {
    let mut attributes = Vec::new();
    for name in ["source", "destination", "condition"] {
        if let Some(v) = el.attr(name) {
            attributes.push((name.to_string(), v.to_string()));
        }
    }
    let text = if el.children().next().is_none() {
        el.text()
    } else {
        String::new()
    };
    Element {
        name: el.name().to_string(),
        attributes,
        text,
        children: el.children().map(convert).collect(),
    }
}

fn parse_document(input: &str) -> Element {
    let el = minidom::Element::from_str(input.trim()).unwrap();
    convert(&el)
}

fn new_runtime() -> Runtime {
    Runtime {
        input: String::new(),
        working_directory: String::new(),
        variables: Vec::new(),
        dry_run: true,
        source_base: None,
        destination_base: None,
    }
}

#[test]
fn parse_items_single_item() {
    const INPUT: &str = r#"
    <copy xmlns="https://github.com/glecaros/bf" source="src" destination="dst">
        <item>file1.ext</item>
    </copy>
    "#;
    let runtime = new_runtime();
    let element = parse_document(INPUT);
    let items = parse_items(&runtime, &element, None);
    assert!(matches!(items, Ok(Some(_))));
    let items = items.unwrap().unwrap();
    assert_eq!(items.len(), 1);
    let item = items.first().unwrap();
    assert_eq!(item.source, "src/file1.ext");
    assert_eq!(item.destination, "dst/file1.ext");
}

#[test]
fn parse_items_single_item_with_rename() {
    const INPUT: &str = r#"
    <copy xmlns="https://github.com/glecaros/bf" source="src" destination="dst">
        <item destination="newfile.ext">file1.ext</item>
    </copy>
    "#;
    let runtime = new_runtime();
    let element = parse_document(INPUT);
    let items = parse_items(&runtime, &element, None);
    assert!(matches!(items, Ok(Some(_))));
    let items = items.unwrap().unwrap();
    assert_eq!(items.len(), 1);
    let item = items.first().unwrap();
    assert_eq!(item.source, "src/file1.ext");
    assert_eq!(item.destination, "dst/newfile.ext");
}

#[test]
fn parse_items_single_item_with_fulfilled_condition_outer() {
    const INPUT: &str = r#"
    <copy xmlns="https://github.com/glecaros/bf" source="src" destination="dst" condition="var == 'value'">
        <item>file1.ext</item>
    </copy>
    "#;
    let mut runtime = new_runtime();
    runtime
        .variables
        .push((String::from("var"), String::from("value")));
    let element = parse_document(INPUT);
    let items = parse_items(&runtime, &element, None);
    assert!(matches!(items, Ok(Some(_))));
    let items = items.unwrap().unwrap();
    assert_eq!(items.len(), 1);
    let item = items.first().unwrap();
    assert_eq!(item.source, "src/file1.ext");
    assert_eq!(item.destination, "dst/file1.ext");
}

#[test]
fn parse_items_single_item_with_unfulfilled_condition_outer() {
    const INPUT: &str = r#"
    <copy xmlns="https://github.com/glecaros/bf" source="src" destination="dst" condition="var == 'value'">
        <item>file1.ext</item>
    </copy>
    "#;
    let runtime = new_runtime();
    let element = parse_document(INPUT);
    let items = parse_items(&runtime, &element, None);
    assert!(matches!(items, Ok(None)));
}

#[test]
fn parse_items_with_fulfilled_condition_inner() {
    const INPUT: &str = r#"
    <copy xmlns="https://github.com/glecaros/bf" source="src" destination="dst">
        <item condition="var == 'value'">file1.ext</item>
        <item>file2.ext</item>
    </copy>
    "#;
    let mut runtime = new_runtime();
    runtime
        .variables
        .push((String::from("var"), String::from("value")));
    let element = parse_document(INPUT);
    let items = parse_items(&runtime, &element, None);
    assert!(matches!(items, Ok(Some(_))));
    let items = items.unwrap().unwrap();
    assert_eq!(items.len(), 2);
    let mut items = items.iter();
    let item = items.next().unwrap();
    assert_eq!(item.source, "src/file1.ext");
    assert_eq!(item.destination, "dst/file1.ext");
    let item = items.next().unwrap();
    assert_eq!(item.source, "src/file2.ext");
    assert_eq!(item.destination, "dst/file2.ext");
}

#[test]
fn parse_items_with_unfulfilled_condition_inner() {
    const INPUT: &str = r#"
    <copy xmlns="https://github.com/glecaros/bf" source="src" destination="dst">
        <item condition="var == 'value'">file1.ext</item>
        <item>file2.ext</item>
    </copy>
    "#;
    let runtime = new_runtime();
    let element = parse_document(INPUT);
    let items = parse_items(&runtime, &element, None);
    assert!(matches!(items, Ok(Some(_))));
    let items = items.unwrap().unwrap();
    assert_eq!(items.len(), 1);
    let mut items = items.iter();
    let item = items.next().unwrap();
    assert_eq!(item.source, "src/file2.ext");
    assert_eq!(item.destination, "dst/file2.ext");
}

#[test]
fn parse_items_single_group() {
    const INPUT: &str = r#"
    <copy xmlns="https://github.com/glecaros/bf" source="src" destination="dst">
        <item>file1.ext</item>
        <group source="input_dir" destination="output_dir">
            <item>file2.ext</item>
        </group>
    </copy>
    "#;
    let runtime = new_runtime();
    let element = parse_document(INPUT);
    let items = parse_items(&runtime, &element, None);
    assert!(matches!(items, Ok(Some(_))));
    let items = items.unwrap().unwrap();
    assert_eq!(items.len(), 2);
    let mut items = items.iter();
    let item = items.next().unwrap();
    assert_eq!(item.source, "src/file1.ext");
    assert_eq!(item.destination, "dst/file1.ext");
    let item = items.next().unwrap();
    assert_eq!(item.source, "src/input_dir/file2.ext");
    assert_eq!(item.destination, "dst/output_dir/file2.ext");
}

#[test]
fn parse_items_single_group_with_fulfilled_condition() {
    const INPUT: &str = r#"
    <copy xmlns="https://github.com/glecaros/bf" source="src" destination="dst">
        <item>file1.ext</item>
        <group source="input_dir" destination="output_dir" condition="var == 'val'">
            <item>file2.ext</item>
        </group>
    </copy>
    "#;
    let mut runtime = new_runtime();
    runtime
        .variables
        .push((String::from("var"), String::from("val")));
    let element = parse_document(INPUT);
    let items = parse_items(&runtime, &element, None);
    assert!(matches!(items, Ok(Some(_))));
    let items = items.unwrap().unwrap();
    assert_eq!(items.len(), 2);
    let mut items = items.iter();
    let item = items.next().unwrap();
    assert_eq!(item.source, "src/file1.ext");
    assert_eq!(item.destination, "dst/file1.ext");
    let item = items.next().unwrap();
    assert_eq!(item.source, "src/input_dir/file2.ext");
    assert_eq!(item.destination, "dst/output_dir/file2.ext");
}

#[test]
fn parse_items_single_group_with_unfulfilled_condition() {
    const INPUT: &str = r#"
    <copy xmlns="https://github.com/glecaros/bf" source="src" destination="dst">
        <item>file1.ext</item>
        <group source="input_dir" destination="output_dir" condition="var == 'val'">
            <item>file2.ext</item>
        </group>
    </copy>
    "#;
    let runtime = new_runtime();
    let element = parse_document(INPUT);
    let items = parse_items(&runtime, &element, None);
    assert!(matches!(items, Ok(Some(_))));
    let items = items.unwrap().unwrap();
    assert_eq!(items.len(), 1);
    let mut items = items.iter();
    let item = items.next().unwrap();
    assert_eq!(item.source, "src/file1.ext");
    assert_eq!(item.destination, "dst/file1.ext");
}

#[test]
fn parse_items_nested_groups() {
    const INPUT: &str = r#"
    <copy xmlns="https://github.com/glecaros/bf" source="src" destination="dst">
        <item>file1.ext</item>
        <group source="input_dir" destination="output_dir">
            <item>file2.ext</item>
            <group source="i" destination="d">
                <item>file3.ext</item>
            </group>
        </group>
    </copy>
    "#;
    let runtime = new_runtime();
    let element = parse_document(INPUT);
    let items = parse_items(&runtime, &element, None);
    assert!(matches!(items, Ok(Some(_))));
    let items = items.unwrap().unwrap();
    assert_eq!(items.len(), 3);
    let mut items = items.iter();
    let item = items.next().unwrap();
    assert_eq!(item.source, "src/file1.ext");
    assert_eq!(item.destination, "dst/file1.ext");
    let item = items.next().unwrap();
    assert_eq!(item.source, "src/input_dir/file2.ext");
    assert_eq!(item.destination, "dst/output_dir/file2.ext");
    let item = items.next().unwrap();
    assert_eq!(item.source, "src/input_dir/i/file3.ext");
    assert_eq!(item.destination, "dst/output_dir/d/file3.ext");
}

#[test]
fn parse_items_nested_groups_with_fulfilled_inner_condition() {
    const INPUT: &str = r#"
    <copy xmlns="https://github.com/glecaros/bf" source="src" destination="dst">
        <item>file1.ext</item>
        <group source="input_dir" destination="output_dir">
            <item>file2.ext</item>
            <group source="i" destination="d" condition="var == 'val'">
                <item>file3.ext</item>
            </group>
        </group>
    </copy>
    "#;
    let mut runtime = new_runtime();
    runtime
        .variables
        .push((String::from("var"), String::from("val")));
    let element = parse_document(INPUT);
    let items = parse_items(&runtime, &element, None);
    assert!(matches!(items, Ok(Some(_))));
    let items = items.unwrap().unwrap();
    assert_eq!(items.len(), 3);
    let mut items = items.iter();
    let item = items.next().unwrap();
    assert_eq!(item.source, "src/file1.ext");
    assert_eq!(item.destination, "dst/file1.ext");
    let item = items.next().unwrap();
    assert_eq!(item.source, "src/input_dir/file2.ext");
    assert_eq!(item.destination, "dst/output_dir/file2.ext");
    let item = items.next().unwrap();
    assert_eq!(item.source, "src/input_dir/i/file3.ext");
    assert_eq!(item.destination, "dst/output_dir/d/file3.ext");
}

#[test]
fn parse_items_nested_groups_with_unfulfilled_inner_condition() {
    const INPUT: &str = r#"
    <copy xmlns="https://github.com/glecaros/bf" source="src" destination="dst">
        <item>file1.ext</item>
        <group source="input_dir" destination="output_dir">
            <item>file2.ext</item>
            <group source="i" destination="d" condition="var == 'val'">
                <item>file3.ext</item>
            </group>
        </group>
    </copy>
    "#;
    let runtime = new_runtime();
    let element = parse_document(INPUT);
    let items = parse_items(&runtime, &element, None);
    assert!(matches!(items, Ok(Some(_))));
    let items = items.unwrap().unwrap();
    assert_eq!(items.len(), 2);
    let mut items = items.iter();
    let item = items.next().unwrap();
    assert_eq!(item.source, "src/file1.ext");
    assert_eq!(item.destination, "dst/file1.ext");
    let item = items.next().unwrap();
    assert_eq!(item.source, "src/input_dir/file2.ext");
    assert_eq!(item.destination, "dst/output_dir/file2.ext");
}

#[test]
fn parse_items_nested_groups_with_fulfilled_outer_condition() {
    const INPUT: &str = r#"
    <copy xmlns="https://github.com/glecaros/bf" source="src" destination="dst">
        <item>file1.ext</item>
        <group source="input_dir" destination="output_dir" condition="var == 'val'">
            <item>file2.ext</item>
            <group source="i" destination="d">
                <item>file3.ext</item>
            </group>
        </group>
    </copy>
    "#;
    let mut runtime = new_runtime();
    runtime
        .variables
        .push((String::from("var"), String::from("val")));
    let element = parse_document(INPUT);
    let items = parse_items(&runtime, &element, None);
    assert!(matches!(items, Ok(Some(_))));
    let items = items.unwrap().unwrap();
    assert_eq!(items.len(), 3);
    let mut items = items.iter();
    let item = items.next().unwrap();
    assert_eq!(item.source, "src/file1.ext");
    assert_eq!(item.destination, "dst/file1.ext");
    let item = items.next().unwrap();
    assert_eq!(item.source, "src/input_dir/file2.ext");
    assert_eq!(item.destination, "dst/output_dir/file2.ext");
    let item = items.next().unwrap();
    assert_eq!(item.source, "src/input_dir/i/file3.ext");
    assert_eq!(item.destination, "dst/output_dir/d/file3.ext");
}

#[test]
fn parse_items_nested_groups_with_unfulfilled_outer_condition() {
    const INPUT: &str = r#"
    <copy xmlns="https://github.com/glecaros/bf" source="src" destination="dst">
        <item>file1.ext</item>
        <group source="input_dir" destination="output_dir" condition="var == 'val'">
            <item>file2.ext</item>
            <group source="i" destination="d">
                <item>file3.ext</item>
            </group>
        </group>
    </copy>
    "#;
    let runtime = new_runtime();
    let element = parse_document(INPUT);
    let items = parse_items(&runtime, &element, None);
    assert!(matches!(items, Ok(Some(_))));
    let items = items.unwrap().unwrap();
    assert_eq!(items.len(), 1);
    let mut items = items.iter();
    let item = items.next().unwrap();
    assert_eq!(item.source, "src/file1.ext");
    assert_eq!(item.destination, "dst/file1.ext");
}
