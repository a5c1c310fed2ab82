use disco_foundation::macros::{
    first_method, method_shape, name_segment, ParamKind,
    parse_capability_options, parse_task_options, plan_capability, plan_task, result_type_args,
    CapabilityOptions, MethodShape, OptionError, OptionToken, ReturnShape, TaskMacroError, TaskOptions,
};

fn word(s: &str) -> OptionToken {
    OptionToken::Word(s.to_string())
}

fn string(s: &str) -> OptionToken {
    OptionToken::Str(s.to_string())
}

fn no_capability_options() -> CapabilityOptions {
    CapabilityOptions { name: None, version: None, krate: None }
}

fn result_of(args: Vec<bool>) -> ReturnShape {
    ReturnShape::Path { last_ident: "Result".to_string(), type_args: Some(args) }
}

fn method(has_receiver: bool, first_typed: Option<usize>, ret: ReturnShape) -> MethodShape {
    MethodShape { has_receiver, first_typed, ret }
}

fn empty_options() -> TaskOptions {
    parse_task_options(&vec![]).unwrap()
}

#[test]
fn task_attribute_and_capability_derive() {
    // #[task(name = "multiply", idempotent)] on `impl MultiplyTask`
    let tokens = vec![word("name"), OptionToken::Equals, string("multiply"), OptionToken::Comma, word("idempotent")];
    let options = parse_task_options(&tokens).unwrap();
    let plan = plan_task(
        options,
        Some("MultiplyTask".to_string()),
        Some(method(false, Some(0), result_of(vec![true, true]))),
    )
    .unwrap();
    assert_eq!(plan.name, "multiply");
    assert!(plan.idempotent);
    assert!(!plan.cancellable);

    // #[capability(name = "gpu", version = 2)] on `GpuCapability`
    let tokens = vec![
        word("name"),
        OptionToken::Equals,
        string("gpu"),
        OptionToken::Comma,
        word("version"),
        OptionToken::Equals,
        OptionToken::Int("2".to_string()),
    ];
    let options = parse_capability_options(&tokens, no_capability_options()).unwrap();
    let plan = plan_capability(options, "GpuCapability".to_string());
    assert_eq!(plan.name, "gpu");
    assert_eq!(plan.version.parse::<u32>().unwrap(), 2);
}

#[test]
fn task_options_default_to_nothing() {
    let options = empty_options();
    assert_eq!(options.name, None);
    assert!(!options.idempotent);
    assert!(!options.cancellable);
    assert_eq!(options.krate, None);
}

#[test]
fn task_options_read_every_option() {
    let tokens = vec![
        word("cancellable"),
        word("idempotent"),
        OptionToken::Comma,
        word("crate"),
        OptionToken::Equals,
        OptionToken::PathSep,
        word("my_crate"),
        OptionToken::PathSep,
        word("inner"),
        OptionToken::Comma,
        word("name"),
        OptionToken::Equals,
        string("first"),
        word("name"),
        OptionToken::Equals,
        string("second"),
        OptionToken::Comma,
    ];
    let options = parse_task_options(&tokens).unwrap();
    assert!(options.idempotent);
    assert!(options.cancellable);
    assert_eq!(options.krate.as_deref(), Some("::my_crate::inner"));
    assert_eq!(options.name.as_deref(), Some("second"));
}

#[test]
fn task_options_errors_name_their_token() {
    assert_eq!(parse_task_options(&vec![OptionToken::Comma]).err(), Some(OptionError::ExpectedIdent(0)));
    assert_eq!(
        parse_task_options(&vec![word("idempotent"), word("retries")]).err(),
        Some(OptionError::UnknownTaskOption(1))
    );
    assert_eq!(parse_task_options(&vec![word("name")]).err(), Some(OptionError::ExpectedEquals(1)));
    assert_eq!(
        parse_task_options(&vec![word("name"), OptionToken::Equals, OptionToken::Int("3".to_string())]).err(),
        Some(OptionError::ExpectedStr(2))
    );
    assert_eq!(
        parse_task_options(&vec![word("crate"), OptionToken::Equals, OptionToken::Comma]).err(),
        Some(OptionError::ExpectedPath(2))
    );
}

#[test]
fn capability_options_need_commas_between_entries() {
    let tokens = vec![word("name"), OptionToken::Equals, string("gpu"), word("version")];
    assert_eq!(
        parse_capability_options(&tokens, no_capability_options()).err(),
        Some(OptionError::ExpectedComma(3))
    );
    let tokens = vec![word("flavour"), OptionToken::Equals, string("gpu")];
    assert_eq!(
        parse_capability_options(&tokens, no_capability_options()).err(),
        Some(OptionError::UnknownCapabilityKey(0))
    );
    let tokens = vec![word("version"), OptionToken::Equals, string("2")];
    assert_eq!(
        parse_capability_options(&tokens, no_capability_options()).err(),
        Some(OptionError::ExpectedInt(2))
    );
}

#[test]
fn capability_options_accumulate_over_attributes() {
    let first = vec![word("name"), OptionToken::Equals, string("gpu"), OptionToken::Comma];
    let second = vec![word("crate"), OptionToken::Equals, word("disco")];
    let options = parse_capability_options(&first, no_capability_options()).unwrap();
    let options = parse_capability_options(&second, options).unwrap();
    let plan = plan_capability(options, "GpuCapability".to_string());
    assert_eq!(plan.name, "gpu");
    assert_eq!(plan.version, "1u32");
    assert_eq!(plan.krate, "disco");
}

#[test]
fn capability_defaults_follow_the_type() {
    let plan = plan_capability(no_capability_options(), "Camera".to_string());
    assert_eq!(plan.name, "Camera");
    assert_eq!(plan.version, "1u32");
    assert_eq!(plan.krate, "::disco_foundation");
}

#[test]
fn result_type_args_finds_output_and_error() {
    assert_eq!(result_type_args(&result_of(vec![true, true])), Some((0, 1)));
    assert_eq!(result_type_args(&result_of(vec![false, true, false, true])), Some((1, 3)));
    assert_eq!(result_type_args(&result_of(vec![true])), None);
    assert_eq!(result_type_args(&ReturnShape::Default), None);
    assert_eq!(result_type_args(&ReturnShape::NotPath), None);
    let option = ReturnShape::Path { last_ident: "Option".to_string(), type_args: Some(vec![true, true]) };
    assert_eq!(result_type_args(&option), None);
    let bare = ReturnShape::Path { last_ident: "Result".to_string(), type_args: None };
    assert_eq!(result_type_args(&bare), None);
}

#[test]
fn plan_task_defaults_name_and_call_form() {
    let plan = plan_task(
        empty_options(),
        Some("Resize".to_string()),
        Some(method(true, Some(1), result_of(vec![true, true]))),
    )
    .unwrap();
    assert_eq!(plan.name, "Resize");
    assert!(plan.call_on_self);
    assert_eq!(plan.input_index, 1);
    assert_eq!((plan.output_arg, plan.error_arg), (0, 1));
    assert_eq!(plan.krate, "::disco_foundation");
    assert!(!plan.idempotent);
    assert!(!plan.cancellable);

    let plan = plan_task(empty_options(), None, Some(method(false, Some(0), result_of(vec![true, true])))).unwrap();
    assert_eq!(plan.name, "Task");
    assert!(!plan.call_on_self);
}

#[test]
fn plan_task_errors_come_in_order() {
    assert_eq!(plan_task(empty_options(), None, None).err(), Some(TaskMacroError::MissingMethod));
    assert_eq!(
        plan_task(empty_options(), None, Some(method(true, None, ReturnShape::Default))).err(),
        Some(TaskMacroError::BadReturn)
    );
    assert_eq!(
        plan_task(empty_options(), None, Some(method(true, None, result_of(vec![true, true])))).err(),
        Some(TaskMacroError::MissingInput)
    );
}

#[test]
fn method_shape_finds_receiver_and_input() {
    let params = vec![ParamKind::Receiver, ParamKind::Typed, ParamKind::Typed];
    let shape = method_shape(&params, ReturnShape::Default);
    assert!(shape.has_receiver);
    assert_eq!(shape.first_typed, Some(1));

    let shape = method_shape(&vec![ParamKind::Typed, ParamKind::Typed], ReturnShape::NotPath);
    assert!(!shape.has_receiver);
    assert_eq!(shape.first_typed, Some(0));

    let shape = method_shape(&vec![ParamKind::Receiver], ReturnShape::Default);
    assert!(shape.has_receiver);
    assert_eq!(shape.first_typed, None);
}

#[test]
fn first_method_skips_other_items() {
    assert_eq!(first_method(&vec![false, false, true, true]), Some(2));
    assert_eq!(first_method(&vec![false]), None);
    assert_eq!(first_method(&vec![]), None);
}

#[test]
fn name_segment_is_the_last_path_segment() {
    let path = vec!["crate".to_string(), "tasks".to_string(), "Resize".to_string()];
    assert_eq!(name_segment(Some(path)).as_deref(), Some("Resize"));
    assert_eq!(name_segment(Some(vec![])), None);
    assert_eq!(name_segment(None), None);
}
