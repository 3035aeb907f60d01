use jilo::yaml::Yaml;
use jilo::model::{Field, FieldValue, ModelError, Module};
use jilo::theme::{Area, Theme};

fn article_theme() -> Theme {
    let root = "/site/theme".to_string();
    let sources = vec![
        (
            "/site/theme/article".to_string(),
            "view: view.html\nfields:\n  title: string\n  rank: number\n  draft: boolean\n".to_string(),
        ),
        (
            "/site/theme/section".to_string(),
            "view: view.html\nareas:\n  body:\n    accept: with\n    components:\n      - /article\n  aside:\n    accept: without\n    components:\n      - /article\n".to_string(),
        ),
    ];
    Theme::from_sources(&root, &sources).unwrap()
}

#[test]
fn zero_values_per_field_type() {
    assert!(matches!(FieldValue::zero(&Field::String), FieldValue::String(s) if s.is_empty()));
    assert!(matches!(FieldValue::zero(&Field::Number), FieldValue::Number(0)));
    assert!(matches!(FieldValue::zero(&Field::Boolean), FieldValue::Boolean(false)));
    assert_eq!(FieldValue::Number(3).field_type(), Field::Number);
}

#[test]
fn set_field_checks_name_and_type() {
    let theme = article_theme();
    let mut page = theme.get_module_defaults("/article").unwrap();
    assert_eq!(
        page.set_field(&theme, "subtitle", FieldValue::String("x".to_string())),
        Err(ModelError::UnknownField)
    );
    assert_eq!(page.set_field(&theme, "title", FieldValue::Number(1)), Err(ModelError::InvalidValue));
    assert_eq!(page.set_field(&theme, "title", FieldValue::String("A Jilo Title".to_string())), Ok(()));
    assert_eq!(page.fields.len(), 3);
    let title = page.fields.iter().find(|f| f.0 == "title").unwrap();
    assert!(matches!(&title.1, FieldValue::String(s) if s == "A Jilo Title"));

    let mut orphan = Module::new("/missing");
    assert_eq!(orphan.set_field(&theme, "title", FieldValue::Boolean(true)), Err(ModelError::TemplateNotFound));
}

#[test]
fn insert_into_area_follows_policy() {
    let theme = article_theme();
    let mut section = theme.get_module_defaults("/section").unwrap();
    let article = theme.get_module_defaults("/article").unwrap();
    assert_eq!(
        section.insert_into_area(&theme, "footer", Module::new("/article")),
        Err(ModelError::UnknownArea)
    );
    assert_eq!(
        section.insert_into_area(&theme, "body", Module::new("/section")),
        Err(ModelError::AreaPolicyViolation)
    );
    assert_eq!(
        section.insert_into_area(&theme, "aside", Module::new("/article")),
        Err(ModelError::AreaPolicyViolation)
    );
    assert_eq!(section.insert_into_area(&theme, "body", article), Ok(()));
    assert_eq!(section.insert_into_area(&theme, "aside", Module::new("/section")), Ok(()));
    let body = section.areas.iter().find(|a| a.0 == "body").unwrap();
    assert_eq!(body.1.len(), 1);
    assert_eq!(body.1[0].template, "/article");
}

#[test]
fn area_policies_admit_as_declared() {
    let names = vec!["a".to_string()];
    assert!(Area::All.accepts("b"));
    assert!(Area::With(names.clone()).accepts("a"));
    assert!(!Area::With(names.clone()).accepts("b"));
    assert!(!Area::Without(names.clone()).accepts("a"));
    assert!(Area::Without(names).accepts("b"));
}

#[test]
fn field_values_from_yaml_nodes() {
    assert!(matches!(FieldValue::from_yaml(&Yaml::Str("x".to_string())), Ok(FieldValue::String(s)) if s == "x"));
    assert!(matches!(FieldValue::from_yaml(&Yaml::Int(-3)), Ok(FieldValue::Number(-3))));
    assert!(matches!(FieldValue::from_yaml(&Yaml::Bool(true)), Ok(FieldValue::Boolean(true))));
    assert_eq!(FieldValue::from_yaml(&Yaml::Null).err(), Some(ModelError::InvalidValue));
    assert_eq!(FieldValue::from_yaml(&Yaml::List(vec![])).err(), Some(ModelError::InvalidValue));
    assert_eq!(FieldValue::from_yaml(&Yaml::Other).err(), Some(ModelError::InvalidValue));
}
