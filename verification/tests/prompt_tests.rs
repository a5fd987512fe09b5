use lattice::prompts::{handle_get_prompt, handle_list_prompts, prompt_kind, PromptKind};

#[test]
fn test_list_prompts() {
    let prompts = handle_list_prompts();
    assert_eq!(prompts.len(), 5);

    let names: Vec<&str> = prompts.iter().map(|p| p.name.as_str()).collect();
    assert!(names.contains(&"analyze-portfolio"));
    assert!(names.contains(&"clean-data"));
    assert!(names.contains(&"create-dashboard"));
    assert!(names.contains(&"explain-formulas"));
    assert!(names.contains(&"financial-model"));
}

#[test]
fn test_get_prompt_analyze_portfolio() {
    let result = handle_get_prompt("analyze-portfolio", None, None).unwrap();
    let messages = &result.messages;
    assert!(!messages.is_empty());
    assert_eq!(messages[0].role, "user");
}

#[test]
fn test_get_prompt_clean_data_with_args() {
    let result = handle_get_prompt("clean-data", Some("Data"), Some("A1:F100")).unwrap();
    let text = &result.messages[0].text;
    assert!(text.contains("A1:F100"));
    assert!(text.contains("Data"));
}

#[test]
fn test_get_prompt_unknown() {
    let result = handle_get_prompt("nonexistent", None, None);
    assert!(result.is_err());
}

#[test]
fn test_get_prompt_create_dashboard() {
    let result = handle_get_prompt("create-dashboard", None, None).unwrap();
    assert_eq!(result.messages.len(), 1);
}

#[test]
fn test_get_prompt_explain_formulas() {
    let result = handle_get_prompt("explain-formulas", Some("Summary"), None).unwrap();
    let text = &result.messages[0].text;
    assert!(text.contains("Summary"));
}

#[test]
fn test_get_prompt_financial_model() {
    let result = handle_get_prompt("financial-model", None, None).unwrap();
    assert_eq!(result.messages.len(), 1);
}

#[test]
fn unknown_prompt_error_names_the_prompt() {
    let err = handle_get_prompt("nonexistent", None, None).unwrap_err();
    assert_eq!(err, (-32602, "Unknown prompt: nonexistent".to_string()));
}

#[test]
fn prompt_defaults_fill_the_text() {
    let p = handle_get_prompt("clean-data", None, None).unwrap();
    assert!(p.messages[0]
        .text
        .starts_with("Identify and fix data quality issues in the entire used range of the active sheet. Follow these steps:\n\n1. "));
    assert_eq!(p.description, "Identify and fix data quality issues");
    let d = handle_get_prompt("create-dashboard", Some("Sales"), None).unwrap();
    assert!(d.messages[0]
        .text
        .starts_with("Create a summary dashboard from the data in Sales. Follow these steps:"));
    assert!(d.messages[0].text.ends_with("8. Report what was created."));
}

#[test]
fn explain_prompt_names_the_formulas_resource() {
    let p = handle_get_prompt("explain-formulas", None, None).unwrap();
    assert!(p.messages[0].text.contains("`lattice://sheet/{}/formulas`"));
    assert!(p.messages[0].text.contains("in the active sheet."));
}

#[test]
fn portfolio_prompt_text_is_fixed() {
    let a = handle_get_prompt("analyze-portfolio", Some("Ignored"), Some("A1:B2")).unwrap();
    assert!(!a.messages[0].text.contains("Ignored"));
    assert!(a.messages[0].text.contains("4. Calculate portfolio metrics:\n   - Total portfolio value\n"));
}

#[test]
fn announced_prompts_are_served() {
    for info in handle_list_prompts() {
        assert!(prompt_kind(&info.name).is_some());
        assert!(handle_get_prompt(&info.name, None, None).is_ok());
        assert!(info.arguments.iter().all(|a| !a.required));
    }
    assert_eq!(prompt_kind("clean-data"), Some(PromptKind::CleanData));
    let list = handle_list_prompts();
    assert_eq!(list[1].arguments.len(), 2);
    assert_eq!(list[1].arguments[1].name, "range");
    assert_eq!(list[0].arguments.len(), 0);
}
