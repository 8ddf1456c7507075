use std::str::FromStr;

use bf_codegen::copy_task::parse_items;
use bf_codegen::element::Element;
use bf_codegen::runtime::Runtime;

fn convert(el: &minidom::Element) -> Element {
    let mut attributes = Vec::new();
    for name in ["source", "destination", "condition"] {
        if let Some(v) = el.attr(name) {
            attributes.push((name.to_string(), v.to_string()));
        }
    }
    let text = if el.children().next().is_none() {
        el.text()
    } else {
        String::new()
    };
    Element {
        name: el.name().to_string(),
        attributes,
        text,
        children: el.children().map(convert).collect(),
    }
}

fn parse_document(input: &str) -> Element {
    let el = minidom::Element::from_str(input.trim()).unwrap();
    convert(&el)
}

fn new_runtime() -> Runtime {
    Runtime {
        input: String::new(),
        working_directory: String::new(),
        variables: Vec::new(),
        dry_run: true,
        source_base: None,
        destination_base: None,
    }
}

const INTERPOLATION_INPUT: &str = r#"
<copy xmlns="https://github.com/glecaros/bf" source="src" destination="dst">
    <item>{name}.ext</item>
    <item destination="{new_name}.ext">file1.ext</item>
    <group source="input_dir" destination="{dir}">
        <item>file2.ext</item>
        <group source="{other_input}" destination="d">
            <item>file3.ext</item>
        </group>
    </group>
</copy>
"#;

const CONDITIONED_INPUT: &str = r#"
<copy xmlns="https://github.com/glecaros/bf" source="src" destination="dst">
    <item>{name}.ext</item>
    <item destination="{new_name}.ext">file1.ext</item>
    <group source="input_dir" destination="{dir}">
        <item>file2.ext</item>
        <group source="{other_input}" destination="d" condition="var == 'value'">
            <item>file3.ext</item>
        </group>
    </group>
</copy>
"#;

fn base_variables(runtime: &mut Runtime) {
    runtime
        .variables
        .push((String::from("name"), String::from("my_file")));
    runtime
        .variables
        .push((String::from("new_name"), String::from("some_name")));
    runtime
        .variables
        .push((String::from("dir"), String::from("my_dir")));
}

#[test]
fn parse_items_interpolation() {
    let mut runtime = new_runtime();
    base_variables(&mut runtime);
    runtime
        .variables
        .push((String::from("other_input"), String::from("secret")));
    let element = parse_document(INTERPOLATION_INPUT);
    let items = parse_items(&runtime, &element, None);
    assert!(matches!(items, Ok(Some(_))));
    let items = items.unwrap().unwrap();
    assert_eq!(items.len(), 4);
    let mut items = items.iter();
    let item = items.next().unwrap();
    assert_eq!(item.source, "src/my_file.ext");
    assert_eq!(item.destination, "dst/my_file.ext");
    let item = items.next().unwrap();
    assert_eq!(item.source, "src/file1.ext");
    assert_eq!(item.destination, "dst/some_name.ext");
    let item = items.next().unwrap();
    assert_eq!(item.source, "src/input_dir/file2.ext");
    assert_eq!(item.destination, "dst/my_dir/file2.ext");
    let item = items.next().unwrap();
    assert_eq!(item.source, "src/input_dir/secret/file3.ext");
    assert_eq!(item.destination, "dst/my_dir/d/file3.ext");
}

#[test]
fn parse_items_interpolation_with_fulfilled_condition() {
    let mut runtime = new_runtime();
    base_variables(&mut runtime);
    runtime
        .variables
        .push((String::from("other_input"), String::from("secret")));
    runtime
        .variables
        .push((String::from("var"), String::from("value")));
    let element = parse_document(CONDITIONED_INPUT);
    let items = parse_items(&runtime, &element, None);
    assert!(matches!(items, Ok(Some(_))));
    let items = items.unwrap().unwrap();
    assert_eq!(items.len(), 4);
    let mut items = items.iter();
    let item = items.next().unwrap();
    assert_eq!(item.source, "src/my_file.ext");
    assert_eq!(item.destination, "dst/my_file.ext");
    let item = items.next().unwrap();
    assert_eq!(item.source, "src/file1.ext");
    assert_eq!(item.destination, "dst/some_name.ext");
    let item = items.next().unwrap();
    assert_eq!(item.source, "src/input_dir/file2.ext");
    assert_eq!(item.destination, "dst/my_dir/file2.ext");
    let item = items.next().unwrap();
    assert_eq!(item.source, "src/input_dir/secret/file3.ext");
    assert_eq!(item.destination, "dst/my_dir/d/file3.ext");
}

#[test]
fn parse_items_interpolation_with_unfulfilled_condition() {
    const INPUT: &str = r#"
    <copy xmlns="https://github.com/glecaros/bf" source="src" destination="dst">
        <item>{name}.ext</item>
        <item destination="{new_name}.ext">file1.ext</item>
        <group source="input_dir" destination="{dir}">
            <item>file2.ext</item>
            <group source="{other_input}" destination="d" condition="val == 'value'">
                <item>file3.ext</item>
            </group>
        </group>
    </copy>
    "#;
    let mut runtime = new_runtime();
    base_variables(&mut runtime);
    runtime
        .variables
        .push((String::from("other_input"), String::from("secret")));
    let element = parse_document(INPUT);
    let items = parse_items(&runtime, &element, None);
    assert!(matches!(items, Ok(Some(_))));
    let items = items.unwrap().unwrap();
    assert_eq!(items.len(), 3);
    let mut items = items.iter();
    let item = items.next().unwrap();
    assert_eq!(item.source, "src/my_file.ext");
    assert_eq!(item.destination, "dst/my_file.ext");
    let item = items.next().unwrap();
    assert_eq!(item.source, "src/file1.ext");
    assert_eq!(item.destination, "dst/some_name.ext");
    let item = items.next().unwrap();
    assert_eq!(item.source, "src/input_dir/file2.ext");
    assert_eq!(item.destination, "dst/my_dir/file2.ext");
}

#[test]
fn parse_items_interpolation_with_missing_variable() {
    let mut runtime = new_runtime();
    base_variables(&mut runtime);
    let element = parse_document(INTERPOLATION_INPUT);
    let items = parse_items(&runtime, &element, None);
    assert!(matches!(items, Err(_)));
}

#[test]
fn parse_items_interpolation_with_missing_variable_fulfilled_condition() {
    let mut runtime = new_runtime();
    base_variables(&mut runtime);
    runtime
        .variables
        .push((String::from("var"), String::from("value")));
    let element = parse_document(CONDITIONED_INPUT);
    let items = parse_items(&runtime, &element, None);
    assert!(matches!(items, Err(_)));
}

#[test]
fn parse_items_interpolation_with_missing_variable_unfulfilled_condition() {
    let mut runtime = new_runtime();
    base_variables(&mut runtime);
    let element = parse_document(CONDITIONED_INPUT);
    let items = parse_items(&runtime, &element, None);
    assert!(matches!(items, Ok(Some(_))));
    let items = items.unwrap().unwrap();
    assert_eq!(items.len(), 3);
    let mut items = items.iter();
    let item = items.next().unwrap();
    assert_eq!(item.source, "src/my_file.ext");
    assert_eq!(item.destination, "dst/my_file.ext");
    let item = items.next().unwrap();
    assert_eq!(item.source, "src/file1.ext");
    assert_eq!(item.destination, "dst/some_name.ext");
    let item = items.next().unwrap();
    assert_eq!(item.source, "src/input_dir/file2.ext");
    assert_eq!(item.destination, "dst/my_dir/file2.ext");
}

#[test]
fn parse_items_interpolation_in_item_with_missing_variable() {
    const INPUT: &str = r#"
    <copy xmlns="https://github.com/glecaros/bf" source="src" destination="dst">
        <item>{name}.ext</item>
    </copy>
    "#;
    let runtime = new_runtime();
    let element = parse_document(INPUT);
    let items = parse_items(&runtime, &element, None);
    assert!(matches!(items, Err(_)));
}

#[test]
fn parse_items_interpolation_in_item_with_missing_variable_and_unfulfilled_condition() {
    const INPUT: &str = r#"
    <copy xmlns="https://github.com/glecaros/bf" source="src" destination="dst">
        <item condition="var == 'value'">{name}.ext</item>
    </copy>
    "#;
    let runtime = new_runtime();
    let element = parse_document(INPUT);
    let items = parse_items(&runtime, &element, None);
    assert!(matches!(items, Ok(Some(_))));
    let items = items.unwrap().unwrap();
    assert!(items.is_empty());
}
