use jilo::model::{FieldValue, ModelError, Module};
use jilo::render::{Bindings, Renderer};
use jilo::site::{default_theme, Cause, ErrorKind, Site, SiteBuilder};
use jilo::store::{IdGenerator, Storage, StoreError, YamlStorage};
use jilo::theme::Theme;

struct Counter {
    next: usize,
}

impl IdGenerator for Counter {
    fn generate_id(&mut self) -> String {
        self.next += 1;
        format!("id{}", self.next)
    }
}

#[derive(Default)]
struct Paths {
    written: Vec<String>,
}

impl Storage for Paths {
    fn write_file(&mut self, path: &str, _text: &str) -> Result<(), String> {
        self.written.push(path.to_string());
        Ok(())
    }

    fn remove_file(&mut self, _path: &str) -> Result<(), String> {
        Ok(())
    }
}

struct Names;

impl Renderer for Names {
    fn add_template(&mut self, _name: &str, _view: &str) -> Result<(), String> {
        Ok(())
    }

    fn render_template(&self, name: &str, bindings: &Bindings) -> Result<String, String> {
        let title = bindings.values.iter().find(|b| b.0 == "title");
        match title {
            Some((_, FieldValue::String(t))) => Ok(format!("{}:{}", name, t)),
            _ => Ok(name.to_string()),
        }
    }
}

fn site() -> Site<Paths, Names, Counter> {
    let theme = Theme::from_sources(
        "/th",
        &vec![("/th/article".to_string(), "view: v.html\nfields:\n  title: string\n".to_string())],
    )
    .unwrap();
    Site::new(theme, YamlStorage::new("/data".to_string()), Paths::default(), Names, Counter { next: 0 })
}

#[test]
fn create_page_trims_the_name() {
    let mut site = site();
    let id = site.create_page("\u{3000} first\t\n", "/article").unwrap();
    assert_eq!(id, "id1");
    let summary = site.summary();
    assert_eq!(summary.len(), 1);
    assert_eq!(summary[0].name, "first");
}

#[test]
fn create_page_errors() {
    let mut site = site();
    let e = site.create_page("   ", "/article").unwrap_err();
    assert_eq!(e.kind, ErrorKind::Create);
    assert!(matches!(e.cause, Cause::EmptyPageName));
    let e = site.create_page("x", "/nothing").unwrap_err();
    assert!(matches!(e.cause, Cause::Model(ModelError::TemplateNotFound)));
    site.create_page("x", "/article").unwrap();
    let e = site.create_page("x", "/article").unwrap_err();
    assert!(matches!(e.cause, Cause::Store(StoreError::DuplicatedName)));
    assert_eq!(site.summary().len(), 1);
}

#[test]
fn render_and_delete_through_the_site() {
    let mut site = site();
    let id = site.create_page("first", "/article").unwrap();
    assert_eq!(site.render_page("first").unwrap(), "/article:");
    let e = site.render_page("second").unwrap_err();
    assert_eq!(e.kind, ErrorKind::Render);
    assert!(matches!(e.cause, Cause::Store(StoreError::PageNotFound)));
    let m: Module = site.delete_page(&id).unwrap();
    assert_eq!(m.template, "/article");
    let e = site.delete_page(&id).unwrap_err();
    assert_eq!(e.kind, ErrorKind::Delete);
    assert!(matches!(e.cause, Cause::Store(StoreError::PageNotFound)));
    assert!(site.summary().is_empty());
}

#[test]
fn error_kinds_describe_themselves() {
    assert_eq!(ErrorKind::Create.as_str(), "Create Error");
    assert_eq!(ErrorKind::Delete.as_str(), "Delete Error");
    assert_eq!(ErrorKind::Render.as_str(), "Render Error");
    assert_eq!(default_theme(), "theme");
}

#[test]
fn builder_needs_every_part() {
    let theme = Theme::new();
    let partial: SiteBuilder<Paths, Names, Counter> = SiteBuilder::new().theme(theme).renderer(Names);
    assert!(partial.build().is_none());
    let full: SiteBuilder<Paths, Names, Counter> = SiteBuilder::new()
        .theme(Theme::new())
        .storage(YamlStorage::new("/d".to_string()), Paths::default())
        .renderer(Names)
        .ids(Counter { next: 0 });
    let site = full.build().unwrap();
    assert!(site.summary().is_empty());
}

#[test]
fn create_page() {
    let theme = Theme::from_sources(
        "./tests/test_site/theme",
        &vec![(
            "./tests/test_site/theme/pages/section".to_string(),
            "view: view.html\nareas:\n  body:\n    accept: all\n".to_string(),
        )],
    )
    .unwrap();
    let mut site = SiteBuilder::new()
        .renderer(Names)
        .storage(YamlStorage::new("./tests/test_site".to_string()), Paths::default())
        .theme(theme)
        .ids(Counter { next: 0 })
        .build()
        .unwrap();

    let id = site.create_page("first test", "/pages/section").unwrap();
    let summary = site.summary();

    assert_eq!(summary.len(), 1);

    site.delete_page(&id).unwrap();
}
