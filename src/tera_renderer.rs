use vstd::prelude::*;
use crate::model::FieldValue;
use crate::render::{Bindings, Renderer};

verus! {

#[verifier::external_type_specification]
#[verifier::external_body]
pub struct ExTera(tera::Tera);

#[verifier::external_type_specification]
#[verifier::external_body]
pub struct ExTeraContext(tera::Context);

#[verifier::external_type_specification]
#[verifier::external_body]
pub struct ExTeraError(tera::Error);

/// Relies on `Tera::default`: an engine with no templates.
#[verifier::external_body]
fn tera_default() -> tera::Tera {
    tera::Tera::default()
}

/// Relies on `Tera::add_template_file`: reads and compiles the view at
/// `path` under `name`.
#[verifier::external_body]
fn tera_add_template_file(tera: &mut tera::Tera, path: &str, name: &str) -> Result<(), tera::Error> {
    tera.add_template_file(path, Some(name))
}

/// Relies on `Tera::add_raw_template`: compiles `content` under `name`.
#[verifier::external_body]
fn tera_add_raw_template(tera: &mut tera::Tera, name: &str, content: &str) -> Result<(), tera::Error> {
    tera.add_raw_template(name, content)
}

/// Relies on `Tera::render`: renders the template `name` with `context`.
#[verifier::external_body]
fn tera_render(tera: &tera::Tera, name: &str, context: &tera::Context) -> Result<String, tera::Error> {
    tera.render(name, context)
}

/// Relies on `Context::new`: an empty context.
#[verifier::external_body]
fn context_new() -> tera::Context {
    tera::Context::new()
}

/// Relies on `Context::insert`: binds a string.
#[verifier::external_body]
fn context_insert_str(context: &mut tera::Context, key: &str, value: &str) {
    context.insert(key, value)
}

/// Relies on `Context::insert`: binds an integer.
#[verifier::external_body]
fn context_insert_i64(context: &mut tera::Context, key: &str, value: i64) {
    context.insert(key, &value)
}

/// Relies on `Context::insert`: binds a boolean.
#[verifier::external_body]
fn context_insert_bool(context: &mut tera::Context, key: &str, value: bool) {
    context.insert(key, &value)
}

/// Relies on the `Display` of `tera::Error`: a message for the error.
#[verifier::external_body]
fn tera_message(error: &tera::Error) -> String {
    format!("{}", error)
}

/// A template engine backed by Tera.
#[derive(Debug)]
pub struct TeraRenderer {
    tera: tera::Tera,
}

impl TeraRenderer {
    /// An engine with no templates.
    pub fn new() -> TeraRenderer {
        TeraRenderer { tera: tera_default() }
    }

    /// An engine over a Tera instance that was set up elsewhere (with filters
    /// or functions of its own).
    pub fn from_tera(tera: tera::Tera) -> TeraRenderer {
        TeraRenderer { tera }
    }

    /// Compiles the template text `content` under `name`.
    pub fn add_raw_template(&mut self, name: &str, content: &str) -> Result<(), String> {
        match tera_add_raw_template(&mut self.tera, name, content) {
            Ok(()) => Ok(()),
            Err(e) => Err(tera_message(&e)),
        }
    }
}

/// The Tera context that holds `bindings`, bound in order.
fn tera_context(bindings: &Bindings) -> tera::Context {
    let mut context = context_new();
    let mut i: usize = 0;
    while i < bindings.values.len()
        invariant
            i <= bindings.values@.len(),
        decreases bindings.values@.len() - i,
    {
        let name = bindings.values[i].0.as_str();
        match &bindings.values[i].1 {
            FieldValue::String(s) => context_insert_str(&mut context, name, s.as_str()),
            FieldValue::Number(n) => context_insert_i64(&mut context, name, *n),
            FieldValue::Boolean(b) => context_insert_bool(&mut context, name, *b),
        }
        i = i + 1;
    }
    context
}

impl Renderer for TeraRenderer {
    fn add_template(&mut self, name: &str, view: &str) -> Result<(), String> {
        match tera_add_template_file(&mut self.tera, view, name) {
            Ok(()) => Ok(()),
            Err(e) => Err(tera_message(&e)),
        }
    }

    fn render_template(&self, name: &str, bindings: &Bindings) -> Result<String, String> {
        let context = tera_context(bindings);
        match tera_render(&self.tera, name, &context) {
            Ok(html) => Ok(html),
            Err(e) => Err(tera_message(&e)),
        }
    }
}

} // verus!
