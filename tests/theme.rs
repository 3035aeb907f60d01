use jilo::theme::Template;

#[test]
fn create_new_template() {
    let template_data = r#"
--- 
view: view.html
fields: 
  field_1: string
areas: 
  areas_1: 
    accept: without
    components: 
      - template_1
  areas_2: 
    accept: with
    components: 
      - template_1
  areas_3: 
    accept: all
        "#;

    let template = Template::parse(template_data).unwrap();

    assert_eq!(template.view, "view.html");
    assert_eq!(template.fields.len(), 1);
    assert_eq!(template.areas.len(), 3);
}

use jilo::model::FieldValue;
use jilo::theme::{Theme, ThemeError};

fn sources() -> Vec<(String, String)> {
    vec![
        ("/srv/theme/pages/section".to_string(), "view: view.html\nareas:\n  body:\n    accept: all\n".to_string()),
        (
            "/srv/theme/article".to_string(),
            "view: /abs/article.html\nfields:\n  title: string\n  count: number\n  shown: boolean\n".to_string(),
        ),
    ]
}

#[test]
fn theme_names_come_from_folders() {
    let theme = Theme::from_sources("/srv/theme", &sources()).unwrap();
    let mut names: Vec<&str> = theme.templates.iter().map(|t| t.0.as_str()).collect();
    names.sort();
    assert_eq!(names, vec!["/article", "/pages/section"]);
    let section = theme.get_template("/pages/section").unwrap();
    assert_eq!(section.view, "/srv/theme/pages/section/view.html");
    let article = theme.get_template("/article").unwrap();
    assert_eq!(article.view, "/abs/article.html");
}

#[test]
fn loading_twice_gives_the_same_names() {
    let first = Theme::from_sources("/srv/theme", &sources()).unwrap();
    let second = Theme::from_sources("/srv/theme", &sources()).unwrap();
    let mut a: Vec<String> = first.templates.iter().map(|t| t.0.clone()).collect();
    let mut b: Vec<String> = second.templates.iter().map(|t| t.0.clone()).collect();
    a.sort();
    b.sort();
    assert_eq!(a, b);
}

#[test]
fn theme_errors() {
    let outside = vec![("/elsewhere/x".to_string(), "view: v.html\n".to_string())];
    assert_eq!(Theme::from_sources("/srv/theme", &outside).err(), Some(ThemeError::RelativeName));
    let root_itself = vec![("/srv/theme".to_string(), "view: v.html\n".to_string())];
    assert_eq!(Theme::from_sources("/srv/theme", &root_itself).err(), Some(ThemeError::RelativeName));
    let mut broken = sources();
    broken.push(("/srv/theme/bad".to_string(), "fields:\n  a: string\n".to_string()));
    assert_eq!(Theme::from_sources("/srv/theme", &broken).err(), Some(ThemeError::ParseTemplate));
    let bad_type = vec![("/srv/theme/t".to_string(), "view: v.html\nfields:\n  a: date\n".to_string())];
    assert_eq!(Theme::from_sources("/srv/theme", &bad_type).err(), Some(ThemeError::ParseTemplate));
    let not_yaml = vec![("/srv/theme/t".to_string(), "view: [unclosed".to_string())];
    assert_eq!(Theme::from_sources("/srv/theme", &not_yaml).err(), Some(ThemeError::ParseTemplate));
}

#[test]
fn default_instance_has_zero_fields_and_empty_areas() {
    let theme = Theme::from_sources("/srv/theme", &sources()).unwrap();
    let article = theme.get_module_defaults("/article").unwrap();
    assert_eq!(article.template, "/article");
    assert_eq!(article.fields.len(), 3);
    assert!(matches!(&article.fields[0], (n, FieldValue::String(s)) if n == "title" && s.is_empty()));
    assert!(matches!(&article.fields[1], (n, FieldValue::Number(0)) if n == "count"));
    assert!(matches!(&article.fields[2], (n, FieldValue::Boolean(false)) if n == "shown"));
    assert!(article.areas.is_empty());
    let section = theme.get_module_defaults("/pages/section").unwrap();
    assert_eq!(section.areas.len(), 1);
    assert_eq!(section.areas[0].0, "body");
    assert!(section.areas[0].1.is_empty());
    assert!(theme.get_module_defaults("/nothing").is_err());
}

#[test]
fn repeated_field_names_are_refused() {
    let text = "view: v.html\nfields:\n  a: string\n  a: number\n";
    assert_eq!(Template::parse(text).err(), Some(ThemeError::ParseTemplate));
}
