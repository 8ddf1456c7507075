use bf_codegen::module::Module;

#[test]
fn output_should_match_input_plus_use_stmt() {
    let mut module = Module::new();
    module.add_line("struct A {", &[]);
    module.add_line("    foo: PathBuf,", &["std::path::PathBuf"]);
    module.add_line("    bar: Option<PathBuf>,", &["std::path::PathBuf"]);
    module.add_line("}", &[]);
    let output = module.write(1);
    const EXPECTED: &str =
r#"    use std::path::PathBuf;
    struct A {
        foo: PathBuf,
        bar: Option<PathBuf>,
    }
"#;
    assert_eq!(EXPECTED, output);
}
