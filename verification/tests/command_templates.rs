use bf_codegen::command_parser::CommandDetails;
use bf_codegen::errors::GenError;

#[test]
fn new_command_with_single_optional() -> Result<(), GenError> {
    const INPUT: &str = "strip [-o $destination] $source";
    let details = CommandDetails::new(INPUT)?;
    assert_eq!("strip", details.command_name);
    assert_eq!(2, details.parts.len());
    let first = &details.parts[0];
    let second = &details.parts[1];
    assert!(first.optional);
    assert_eq!(&vec!["-o", "$destination"], &first.tokens);
    assert_eq!(&vec!["destination"], &first.dependencies);
    assert!(!second.optional);
    assert_eq!(&vec!["$source"], &second.tokens);
    assert_eq!(&vec!["source"], &second.dependencies);
    Ok(())
}

#[test]
fn new_command_with_optional_in_the_middle() -> Result<(), GenError> {
    const INPUT: &str = "strip -v [-o $destination] $source";
    let details = CommandDetails::new(INPUT)?;
    assert_eq!("strip", details.command_name);
    assert_eq!(3, details.parts.len());
    let first = &details.parts[0];
    let second = &details.parts[1];
    let third = &details.parts[2];
    assert!(!first.optional);
    assert_eq!(&vec!["-v"], &first.tokens);
    assert!(first.dependencies.is_empty());
    assert!(second.optional);
    assert_eq!(&vec!["-o", "$destination"], &second.tokens);
    assert_eq!(&vec!["destination"], &second.dependencies);
    assert!(!third.optional);
    assert_eq!(&vec!["$source"], &third.tokens);
    assert_eq!(&vec!["source"], &third.dependencies);
    Ok(())
}

#[test]
fn new_command_with_no_optional() -> Result<(), GenError> {
    const INPUT: &str = "strip -v $source";
    let details = CommandDetails::new(INPUT)?;
    assert_eq!("strip", details.command_name);
    assert_eq!(1, details.parts.len());
    let first = &details.parts[0];
    assert!(!first.optional);
    assert_eq!(&vec!["-v", "$source"], &first.tokens);
    assert_eq!(&vec!["source"], &first.dependencies);
    Ok(())
}

#[test]
fn split_command_parts_single_optional() -> Result<(), GenError> {
    const INPUT: &str = "strip [-o $destination] $source";
    let details = CommandDetails::new(INPUT)?;
    assert_eq!("strip", details.command_name);
    assert_eq!(2, details.parts.len());
    let first = &details.parts[0];
    let second = &details.parts[1];
    assert!(first.optional);
    assert_eq!(&vec!["-o", "$destination"], &first.tokens);
    assert_eq!(&vec!["destination"], &first.dependencies);
    assert!(!second.optional);
    assert_eq!(&vec!["$source"], &second.tokens);
    assert_eq!(&vec!["source"], &second.dependencies);
    Ok(())
}

#[test]
fn split_command_parts_optional_in_the_middle() -> Result<(), GenError> {
    const INPUT: &str = "strip -v [-o $destination] $source";
    let details = CommandDetails::new(INPUT)?;
    assert_eq!("strip", details.command_name);
    assert_eq!(3, details.parts.len());
    let first = &details.parts[0];
    let second = &details.parts[1];
    let third = &details.parts[2];
    assert!(!first.optional);
    assert_eq!(&vec!["-v"], &first.tokens);
    assert!(first.dependencies.is_empty());
    assert!(second.optional);
    assert_eq!(&vec!["-o", "$destination"], &second.tokens);
    assert_eq!(&vec!["destination"], &second.dependencies);
    assert!(!third.optional);
    assert_eq!(&vec!["$source"], &third.tokens);
    assert_eq!(&vec!["source"], &third.dependencies);
    Ok(())
}

#[test]
fn split_command_parts_no_optional() -> Result<(), GenError> {
    const INPUT: &str = "strip -v $source";
    let details = CommandDetails::new(INPUT)?;
    assert_eq!("strip", details.command_name);
    assert_eq!(1, details.parts.len());
    let first = &details.parts[0];
    assert!(!first.optional);
    assert_eq!(&vec!["-v", "$source"], &first.tokens);
    assert_eq!(&vec!["source"], &first.dependencies);
    Ok(())
}

#[test]
fn command2_new_command_with_single_optional() -> Result<(), GenError> {
    const INPUT: &str = "strip [-o $destination] $source";
    let details = CommandDetails::new(INPUT)?;
    assert_eq!("strip", details.command_name);
    assert_eq!(2, details.parts.len());
    let first = &details.parts[0];
    let second = &details.parts[1];
    assert!(first.optional);
    assert_eq!(&vec!["-o", "$destination"], &first.tokens);
    assert_eq!(&vec!["destination"], &first.dependencies);
    assert!(!second.optional);
    assert_eq!(&vec!["$source"], &second.tokens);
    assert_eq!(&vec!["source"], &second.dependencies);
    Ok(())
}

#[test]
fn command2_new_command_with_optional_in_the_middle() -> Result<(), GenError> {
    const INPUT: &str = "strip -v [-o $destination] $source";
    let details = CommandDetails::new(INPUT)?;
    assert_eq!("strip", details.command_name);
    assert_eq!(3, details.parts.len());
    let first = &details.parts[0];
    let second = &details.parts[1];
    let third = &details.parts[2];
    assert!(!first.optional);
    assert_eq!(&vec!["-v"], &first.tokens);
    assert!(first.dependencies.is_empty());
    assert!(second.optional);
    assert_eq!(&vec!["-o", "$destination"], &second.tokens);
    assert_eq!(&vec!["destination"], &second.dependencies);
    assert!(!third.optional);
    assert_eq!(&vec!["$source"], &third.tokens);
    assert_eq!(&vec!["source"], &third.dependencies);
    Ok(())
}

#[test]
fn command2_new_command_with_no_optional() -> Result<(), GenError> {
    const INPUT: &str = "strip -v $source";
    let details = CommandDetails::new(INPUT)?;
    assert_eq!("strip", details.command_name);
    assert_eq!(1, details.parts.len());
    let first = &details.parts[0];
    assert!(!first.optional);
    assert_eq!(&vec!["-v", "$source"], &first.tokens);
    assert_eq!(&vec!["source"], &first.dependencies);
    Ok(())
}

#[test]
fn command_without_any_space_is_malformed() {
    let details = CommandDetails::new("strip");
    assert!(matches!(details, Err(GenError::MalformedCommand)));
}

#[test]
fn command_with_unclosed_bracket_is_mismatched() {
    let details = CommandDetails::new("strip [-o $destination $source");
    assert!(matches!(details, Err(GenError::MismatchedBracket)));
}
