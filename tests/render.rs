use jilo::model::{FieldValue, Module};
use jilo::render::{bind_node, join_markup, Bindings, PageRenderer, RenderError, Renderer};
use jilo::store::{Random, Storage, YamlStorage};
use jilo::site::Site;
use jilo::tera_renderer::TeraRenderer;
use jilo::theme::Theme;

struct Echo {
    registered: Vec<String>,
}

impl Renderer for Echo {
    fn add_template(&mut self, name: &str, _view: &str) -> Result<(), String> {
        self.registered.push(name.to_string());
        Ok(())
    }

    fn render_template(&self, name: &str, bindings: &Bindings) -> Result<String, String> {
        if name == "broken" {
            return Err("cannot render".to_string());
        }
        let mut out = format!("[{}", name);
        for (k, v) in &bindings.values {
            let v = match v {
                FieldValue::String(s) => s.clone(),
                FieldValue::Number(n) => n.to_string(),
                FieldValue::Boolean(b) => b.to_string(),
            };
            out.push_str(&format!("|{}={}", k, v));
        }
        out.push(']');
        Ok(out)
    }
}

struct Discard;

impl Storage for Discard {
    fn write_file(&mut self, _path: &str, _text: &str) -> Result<(), String> {
        Ok(())
    }

    fn remove_file(&mut self, _path: &str) -> Result<(), String> {
        Ok(())
    }
}

#[test]
fn join_markup_concatenates_in_order() {
    assert_eq!(join_markup(&vec![]), "");
    assert_eq!(join_markup(&vec!["<a/>".to_string(), "<b/>".to_string()]), "<a/><b/>");
}

#[test]
fn bindings_hold_fields_then_areas() {
    let mut m = Module::new("section");
    m.fields.push(("n".to_string(), FieldValue::Number(4)));
    m.areas.push(("body".to_string(), vec![]));
    let b = bind_node(&m, &vec![vec!["x".to_string(), "y".to_string()]]);
    assert_eq!(b.values.len(), 2);
    assert!(matches!(&b.values[0], (k, FieldValue::Number(4)) if k == "n"));
    assert!(matches!(&b.values[1], (k, FieldValue::String(s)) if k == "body" && s == "xy"));
}

#[test]
fn area_children_render_in_order() {
    let mut root = Module::new("section");
    root.fields.push(("flag".to_string(), FieldValue::Boolean(true)));
    root.areas.push(("body".to_string(), vec![Module::new("a"), Module::new("b")]));
    let renderer = PageRenderer::new(Echo { registered: vec![] });
    let html = renderer.render_module(&root).unwrap();
    assert_eq!(html, "[section|flag=true|body=[a][b]]");
}

#[test]
fn render_failure_aborts_the_page() {
    let mut root = Module::new("section");
    root.areas.push(("body".to_string(), vec![Module::new("a"), Module::new("broken")]));
    let renderer = PageRenderer::new(Echo { registered: vec![] });
    assert!(matches!(renderer.render_module(&root), Err(RenderError::Render(_))));
}

#[test]
fn theme_views_register_once() {
    let theme = Theme::from_sources(
        "/t",
        &vec![("/t/a".to_string(), "view: a.html\n".to_string()), ("/t/b".to_string(), "view: b.html\n".to_string())],
    )
    .unwrap();
    let mut renderer = PageRenderer::new(Echo { registered: vec![] });
    renderer.load(&theme).unwrap();
    renderer.load(&theme).unwrap();
    let html = renderer.render_module(&Module::new("/a")).unwrap();
    assert_eq!(html, "[/a]");
}

#[test]
fn tera_view_files_that_are_missing_fail_to_load() {
    let theme = Theme::from_sources("/t", &vec![("/t/a".to_string(), "view: missing.html\n".to_string())]).unwrap();
    let mut renderer = PageRenderer::new(TeraRenderer::new());
    assert!(matches!(renderer.load(&theme), Err(RenderError::Load(_))));
}

/// Tera with its templates compiled up front, so that registering a view
/// file is not needed.
struct Preloaded(TeraRenderer);

impl Renderer for Preloaded {
    fn add_template(&mut self, _name: &str, _view: &str) -> Result<(), String> {
        Ok(())
    }

    fn render_template(&self, name: &str, bindings: &Bindings) -> Result<String, String> {
        self.0.render_template(name, bindings)
    }
}

#[test]
fn first_article_renders_its_title() {
    let theme = Theme::from_sources(
        "/site/theme",
        &vec![("/site/theme/article".to_string(), "view: view.html\nfields:\n  title: string\n".to_string())],
    )
    .unwrap();
    let mut page = theme.get_module_defaults("/article").unwrap();
    page.set_field(&theme, "title", FieldValue::String("A Jilo Title".to_string())).unwrap();
    let mut store = YamlStorage::new("/data".to_string());
    store.create_page("first", page, &mut Random::default(), &mut Discard).unwrap();

    let mut engine = TeraRenderer::new();
    engine.add_raw_template("/article", "<html><title>{{ title }}</title></html>").unwrap();
    let mut site = Site::new(theme, store, Discard, Preloaded(engine), Random::default());
    let html = site.render_page("first").unwrap();
    assert!(html.contains("<title>A Jilo Title</title>"));
}

#[test]
fn section_wraps_its_article() {
    let theme = Theme::from_sources(
        "/site/theme",
        &vec![
            ("/site/theme/article".to_string(), "view: view.html\nfields:\n  title: string\n".to_string()),
            (
                "/site/theme/section".to_string(),
                "view: view.html\nareas:\n  body:\n    accept: with\n    components:\n      - /article\n".to_string(),
            ),
        ],
    )
    .unwrap();
    let mut article = theme.get_module_defaults("/article").unwrap();
    article.set_field(&theme, "title", FieldValue::String("A Jilo Title".to_string())).unwrap();
    let mut section = theme.get_module_defaults("/section").unwrap();
    section.insert_into_area(&theme, "body", article).unwrap();

    let mut engine = TeraRenderer::new();
    engine.add_raw_template("/article", "<h1>{{ title }}</h1>").unwrap();
    engine.add_raw_template("/section", "<section class=\"wrapper\">{{ body }}</section>").unwrap();
    let renderer = PageRenderer::new(engine);
    let html = renderer.render_module(&section).unwrap();
    assert!(html.contains("<section class=\"wrapper\">"));
    assert!(html.contains("A Jilo Title"));
    assert_eq!(html, "<section class=\"wrapper\"><h1>A Jilo Title</h1></section>");
}

#[test]
fn tera_binds_native_types() {
    let mut engine = TeraRenderer::new();
    engine
        .add_raw_template("t", "{% if shown %}{{ count + 1 }}{% endif %}")
        .unwrap();
    let mut m = Module::new("t");
    m.fields.push(("shown".to_string(), FieldValue::Boolean(true)));
    m.fields.push(("count".to_string(), FieldValue::Number(41)));
    let html = PageRenderer::new(engine).render_module(&m).unwrap();
    assert_eq!(html, "42");
}

struct Refusing;

impl Renderer for Refusing {
    fn add_template(&mut self, _name: &str, _view: &str) -> Result<(), String> {
        Err("refused".to_string())
    }

    fn render_template(&self, _name: &str, _bindings: &Bindings) -> Result<String, String> {
        Err("refused".to_string())
    }
}

#[test]
fn an_empty_theme_always_loads() {
    let mut renderer = PageRenderer::new(Refusing);
    assert!(renderer.load(&Theme::new()).is_ok());
    let theme = Theme::from_sources("/t", &vec![("/t/a".to_string(), "view: a.html\n".to_string())]).unwrap();
    assert!(matches!(renderer.load(&theme), Err(RenderError::Load(_))));
}
