use drift_script_manager::errors::FailureKind;
use drift_script_manager::state::CreateTemplateData;
use drift_script_manager::template::{templates_from_names, EmbeddedTemplate, Template, TemplateError};

#[test]
fn test_is_not_unique() {
    let template_name: String = String::from("not unique");
    let existing_templates: Vec<Template> = vec![Template::Custom("not unique".to_string())];

    assert!(Template::is_unique(&template_name, &existing_templates).is_err())
}

#[test]
fn test_has_invalid_name_empty() {
    assert!(Template::has_valid_name(&String::new()).is_err())
}

#[test]
fn test_has_invalid_name_whitespace() {
    assert!(Template::has_valid_name(&String::from(" ")).is_err())
}

#[test]
fn test_has_valid_name() {
    assert!(Template::has_valid_name(&String::from("Valid")).is_ok())
}

#[test]
fn name_check_reports_each_error() {
    let existing = vec![Template::Embedded(EmbeddedTemplate::Default), Template::Custom("mine".to_string())];
    assert_eq!(Template::has_sufficient_info(&String::new(), &existing), Err(TemplateError::EmptyName));
    assert_eq!(Template::has_sufficient_info(&"   ".to_string(), &existing), Err(TemplateError::WhitespaceName));
    assert_eq!(Template::has_sufficient_info(&"default".to_string(), &existing), Err(TemplateError::NameTaken));
    assert_eq!(Template::has_sufficient_info(&"mine".to_string(), &existing), Err(TemplateError::NameTaken));
    assert_eq!(Template::has_sufficient_info(&"Mine".to_string(), &existing), Ok(()));
    assert_eq!(Template::has_sufficient_info(&" a ".to_string(), &existing), Ok(()));
}

#[test]
fn tab_only_name_is_not_whitespace_only() {
    // Only the space character counts as blank in a template name.
    assert_eq!(Template::has_valid_name(&"\t".to_string()), Ok(()));
}

#[test]
fn error_kinds_and_messages() {
    assert_eq!(TemplateError::EmptyName.kind(), FailureKind::InvalidData);
    assert_eq!(TemplateError::WhitespaceName.kind(), FailureKind::InvalidData);
    assert_eq!(TemplateError::NameTaken.kind(), FailureKind::AlreadyExists);
    assert_eq!(TemplateError::EditEmbedded.kind(), FailureKind::InvalidInput);
    assert_eq!(TemplateError::DeleteEmbedded.kind(), FailureKind::InvalidInput);
    assert_eq!(TemplateError::EmptyName.message(), "Template name cannot be empty");
    assert_eq!(TemplateError::WhitespaceName.message(), "Template name cannot consist of whitespace only");
    assert_eq!(TemplateError::NameTaken.message(), "A template with this name already exists");
    assert_eq!(TemplateError::EditEmbedded.message(), "Cannot Edit an Embedded template");
    assert_eq!(TemplateError::DeleteEmbedded.message(), "Cannot Delete an Embedded template");
}

#[test]
fn embedded_names_and_list() {
    assert_eq!(EmbeddedTemplate::Empty.name(), "empty");
    assert_eq!(EmbeddedTemplate::Default.name(), "default");
    assert_eq!(EmbeddedTemplate::all(), &[EmbeddedTemplate::Empty, EmbeddedTemplate::Default]);
    assert_eq!(Template::Embedded(EmbeddedTemplate::Default).name(), "default");
    assert_eq!(Template::Custom("My Template".to_string()).name(), "My Template");
}

#[test]
fn embedded_templates_cannot_be_edited_or_deleted() {
    let embedded = Template::Embedded(EmbeddedTemplate::Empty);
    assert_eq!(embedded.edit_custom_template(Template::Custom("x".to_string())), Err(TemplateError::EditEmbedded));
    assert_eq!(embedded.delete_custom_template(), Err(TemplateError::DeleteEmbedded));
}

#[test]
fn custom_templates_are_renamed_and_deleted_by_name() {
    let custom = Template::Custom("old".to_string());
    assert_eq!(
        custom.edit_custom_template(Template::Custom("new".to_string())),
        Ok(("old".to_string(), "new".to_string()))
    );
    assert_eq!(custom.delete_custom_template(), Ok("old".to_string()));
}

#[test]
fn create_custom_template_checks_the_name() {
    let existing = vec![Template::Custom("taken".to_string())];
    let mut data = CreateTemplateData::default();
    data.template_name = "taken".to_string();
    assert_eq!(Template::create_custom_template(&data, &existing), Err(TemplateError::NameTaken));
    data.template_name = "fresh".to_string();
    assert_eq!(Template::create_custom_template(&data, &existing), Ok("fresh".to_string()));
}

#[test]
fn created_name_is_then_taken() {
    let mut existing = vec![Template::Embedded(EmbeddedTemplate::Empty)];
    let name = "scripts".to_string();
    assert_eq!(Template::has_sufficient_info(&name, &existing), Ok(()));
    existing.push(Template::Custom(name.clone()));
    assert_eq!(Template::has_sufficient_info(&name, &existing), Err(TemplateError::NameTaken));
}

#[test]
fn custom_templates_are_sorted_by_name() {
    let names = vec!["b".to_string(), "B".to_string(), "a".to_string(), "ab".to_string(), "".to_string(), "é".to_string()];
    let mut expected = names.clone();
    expected.sort();
    let templates = templates_from_names(names);
    let got: Vec<Template> = expected.into_iter().map(Template::Custom).collect();
    assert_eq!(templates, got);
}
