use bf_codegen::errors::Error;
use bf_codegen::interpolation::interpolate;
use bf_codegen::runtime::Runtime;
use bf_codegen::util::evaluate_condition;

#[test]
fn single_variable_present_once() {
    let mut variables = Vec::new();
    variables.push((String::from("var"), String::from("value")));
    let output = interpolate("test_{var}_1", &variables);
    assert!(matches!(output, Ok(_)));
    if let Ok(output) = output {
        assert_eq!("test_value_1", &output);
    }
}

#[test]
fn single_variable_present_twice() {
    let mut variables = Vec::new();
    variables.push((String::from("var"), String::from("value")));
    let output = interpolate("test_{var}_some_{var}_2", &variables);
    assert!(matches!(output, Ok(_)));
    if let Ok(output) = output {
        assert_eq!("test_value_some_value_2", &output);
    }
}

#[test]
fn multiple_variables_present_once() {
    let mut variables = Vec::new();
    variables.push((String::from("var1"), String::from("value1")));
    variables.push((String::from("var2"), String::from("value2")));
    let output = interpolate("test_{var1}_some_{var2}_2", &variables);
    assert!(matches!(output, Ok(_)));
    if let Ok(output) = output {
        assert_eq!("test_value1_some_value2_2", &output);
    }
}

#[test]
fn multiple_variables_present_multiple_times() {
    let mut variables = Vec::new();
    variables.push((String::from("var1"), String::from("value1")));
    variables.push((String::from("var2"), String::from("value2")));
    let output = interpolate("{var2}_{var1}_some_{var1}{var2}_{var1}", &variables);
    assert!(matches!(output, Ok(_)));
    if let Ok(output) = output {
        assert_eq!("value2_value1_some_value1value2_value1", &output);
    }
}

#[test]
fn single_variable_not_present() {
    let variables = Vec::new();
    let output = interpolate("test_{var1}_some", &variables);
    assert!(matches!(output, Err(_)));
}

#[test]
fn missing_variable_is_named_in_the_error() {
    let variables = Vec::new();
    let output = interpolate("test_{var1}_some", &variables);
    assert!(matches!(output, Err(Error::InterpolationFailure(name)) if name == "var1"));
}

#[test]
fn text_that_only_resembles_a_placeholder_is_copied() {
    let variables = Vec::new();
    let output = interpolate("test_{1}_{_x}_{", &variables);
    assert!(matches!(output, Ok(out) if out == "test_{1}_{_x}_{"));
}

#[test]
fn evaluate_condition_no_condition() {
    let runtime = Runtime::default();
    let result = evaluate_condition(None, &runtime);
    assert!(matches!(result, Ok(_)));
    let result = result.unwrap();
    assert!(result);
}

#[test]
fn evaluate_condition_test_single_variable_present() {
    let mut runtime = Runtime::default();
    runtime
        .variables
        .push((String::from("var"), String::from("value")));
    const CONDITION: &str = "var == 'value'";
    let result = evaluate_condition(Some(CONDITION), &runtime);
    assert!(matches!(result, Ok(_)));
    let result = result.unwrap();
    assert!(result);
}

#[test]
fn evaluate_condition_test_single_variable_not_present() {
    let runtime = Runtime::default();
    const CONDITION: &str = "var == 'value'";
    let result = evaluate_condition(Some(CONDITION), &runtime);
    assert!(matches!(result, Ok(_)));
    let result = result.unwrap();
    assert!(!result);
}

#[test]
fn evaluate_condition_test_single_variable_wrong() {
    let mut runtime = Runtime::default();
    runtime
        .variables
        .push((String::from("var"), String::from("wrong")));
    const CONDITION: &str = "var == 'value'";
    let result = evaluate_condition(Some(CONDITION), &runtime);
    assert!(matches!(result, Ok(_)));
    let result = result.unwrap();
    assert!(!result);
}

#[test]
fn evaluate_condition_test_not_bool() {
    let runtime = Runtime::default();
    const CONDITION: &str = "3 + 1'";
    let result = evaluate_condition(Some(CONDITION), &runtime);
    assert!(matches!(result, Err(_)));
}

#[test]
fn evaluate_condition_rejects_empty_parentheses() {
    let runtime = Runtime::default();
    let result = evaluate_condition(Some("()"), &runtime);
    assert!(matches!(result, Err(Error::ConditionFailure(text)) if text == "()"));
}

#[test]
fn evaluate_condition_rejects_text_outside_the_vetted_grammar() {
    let runtime = Runtime::default();
    assert!(matches!(evaluate_condition(Some("é == 'x'"), &runtime), Err(_)));
    assert!(matches!(evaluate_condition(Some("min(1, 2) == 1"), &runtime), Err(_)));
    assert!(matches!(evaluate_condition(Some("!flag"), &runtime), Err(_)));
    assert!(matches!(evaluate_condition(Some("1 + 2 == 3"), &runtime), Err(_)));
    assert!(matches!(evaluate_condition(Some(""), &runtime), Err(_)));
}

#[test]
fn evaluate_condition_compound_operators_still_evaluate() {
    let mut runtime = Runtime::default();
    runtime
        .variables
        .push((String::from("var"), String::from("value")));
    runtime
        .variables
        .push((String::from("other"), String::from("x")));
    let both = evaluate_condition(Some("var == 'value' && other == 'x'"), &runtime);
    assert!(matches!(both, Ok(true)));
    let either = evaluate_condition(Some("var == 'wrong' || other == 'x'"), &runtime);
    assert!(matches!(either, Ok(true)));
    let negated = evaluate_condition(Some("var != 'value'"), &runtime);
    assert!(matches!(negated, Ok(false)));
}

#[test]
fn evaluate_condition_quoted_text_may_hold_operator_characters() {
    let mut runtime = Runtime::default();
    runtime
        .variables
        .push((String::from("var"), String::from("a && b")));
    let matched = evaluate_condition(Some("var == 'a && b'"), &runtime);
    assert!(matches!(matched, Ok(true)));
    let empty = evaluate_condition(Some("var == ''"), &runtime);
    assert!(matches!(empty, Ok(false)));
}

#[test]
fn evaluate_condition_numbers_and_booleans_evaluate() {
    let runtime = Runtime::default();
    assert!(matches!(evaluate_condition(Some("2 < 10"), &runtime), Ok(true)));
    assert!(matches!(evaluate_condition(Some("2 >= 10"), &runtime), Ok(false)));
    assert!(matches!(evaluate_condition(Some("true"), &runtime), Ok(true)));
    assert!(matches!(evaluate_condition(Some("false"), &runtime), Ok(false)));
}
