use vstd::prelude::*;
use crate::model::{FieldValue, Module};
use crate::theme::Theme;

verus! {

/// The values bound for one render of a template, in the order they were
/// bound; where a name is bound twice, the later binding wins.
#[derive(Debug)]
pub struct Bindings {
    pub values: Vec<(String, FieldValue)>,
}

impl Bindings {
    /// No bindings.
    pub fn new() -> (r: Bindings)
        ensures
            r.values@.len() == 0,
    {
        Bindings { values: Vec::new() }
    }

    /// Binds `value` under `name`, after all earlier bindings.
    pub fn insert(&mut self, name: String, value: FieldValue)
        ensures
            final(self).values@ == old(self).values@.push((name, value)),
    {
        self.values.push((name, value));
    }
}

/// Why rendering failed.
#[derive(Debug)]
pub enum RenderError {
    /// A template's view could not be registered with the engine.
    Load(String),
    /// The engine failed to render a template.
    Render(String),
}

/// A template engine: views are registered under template names, then
/// rendered by name with a set of bindings.
pub trait Renderer {
    /// Registers the view at path `view` under the template name `name`.
    fn add_template(&mut self, name: &str, view: &str) -> Result<(), String>;

    /// Renders the template `name` with `bindings`.
    fn render_template(&self, name: &str, bindings: &Bindings) -> Result<String, String>;
}

/// The markup of an area: the markup of its children, in order, with no
/// separator.
pub open spec fn concat(parts: Seq<String>) -> Seq<char>
    decreases parts.len(),
{
    if parts.len() == 0 {
        Seq::empty()
    } else {
        concat(parts.drop_last()) + parts.last()@
    }
}

/// Concatenates `parts` in order.
pub fn join_markup(parts: &Vec<String>) -> (r: String)
    ensures
        r@ == concat(parts@),
{
    let mut out = String::new();
    let mut i: usize = 0;
    while i < parts.len()
        invariant
            i <= parts@.len(),
            out@ == concat(parts@.subrange(0, i as int)),
        decreases parts@.len() - i,
    {
        proof {
            assert(parts@.subrange(0, i as int + 1).drop_last() =~= parts@.subrange(0, i as int));
        }
        out.append(parts[i].as_str());
        i = i + 1;
    }
    proof {
        assert(parts@.subrange(0, parts@.len() as int) =~= parts@);
    }
    out
}

/// `b` binds, in order, every field of `m` under its name with its value,
/// then every area of `m` under its name with the concatenated markup of its
/// children, `children[i]` holding the markup of the children of the `i`-th
/// area.
pub open spec fn node_bindings(b: Bindings, m: Module, children: Seq<Vec<String>>) -> bool {
    let nf = m.fields@.len();
    &&& children.len() == m.areas@.len()
    &&& b.values@.len() == nf + m.areas@.len()
    &&& forall|i: int| 0 <= i < nf ==> (#[trigger] b.values@[i]).0@ == m.fields@[i].0@ && b.values@[i].1 == m.fields@[i].1
    &&& forall|i: int| 0 <= i < m.areas@.len() ==> (#[trigger] b.values@[nf + i]).0@ == m.areas@[i].0@
        && (b.values@[nf + i].1 matches FieldValue::String(s) && s@ == concat(children[i]@))
}

/// The bindings for rendering `m`, given the markup of the children of each
/// of its areas.
pub fn bind_node(m: &Module, children: &Vec<Vec<String>>) -> (r: Bindings)
    requires
        children@.len() == m.areas@.len(),
    ensures
        node_bindings(r, *m, children@),
{
    let mut b = Bindings::new();
    let mut i: usize = 0;
    while i < m.fields.len()
        invariant
            i <= m.fields@.len(),
            b.values@.len() == i,
            forall|j: int| 0 <= j < i ==> (#[trigger] b.values@[j]).0@ == m.fields@[j].0@ && b.values@[j].1 == m.fields@[j].1,
        decreases m.fields@.len() - i,
    {
        b.insert(m.fields[i].0.clone(), m.fields[i].1.duplicate());
        i = i + 1;
    }
    let nf = m.fields.len();
    let mut i: usize = 0;
    while i < m.areas.len()
        invariant
            nf == m.fields@.len(),
            children@.len() == m.areas@.len(),
            i <= m.areas@.len(),
            b.values@.len() == nf + i,
            forall|j: int| 0 <= j < nf ==> (#[trigger] b.values@[j]).0@ == m.fields@[j].0@ && b.values@[j].1 == m.fields@[j].1,
            forall|j: int| 0 <= j < i ==> (#[trigger] b.values@[nf + j]).0@ == m.areas@[j].0@
                && (b.values@[nf + j].1 matches FieldValue::String(s) && s@ == concat(children@[j]@)),
        decreases m.areas@.len() - i,
    {
        let html = join_markup(&children[i]);
        b.insert(m.areas[i].0.clone(), FieldValue::String(html));
        i = i + 1;
    }
    b
}

/// Rendering a node whose area holds two children binds that area to the
/// markup of the first followed by the markup of the second.
pub proof fn lemma_area_binding_in_order(b: Bindings, m: Module, children: Seq<Vec<String>>, i: int)
    requires
        node_bindings(b, m, children),
        0 <= i < m.areas@.len(),
        children[i]@.len() == 2,
    ensures
        b.values@[m.fields@.len() + i].0@ == m.areas@[i].0@,
        b.values@[m.fields@.len() + i].1 matches FieldValue::String(s) && s@ == children[i]@[0]@ + children[i]@[1]@,
{
    let parts = children[i]@;
    assert(parts.drop_last().drop_last() =~= Seq::<String>::empty());
    assert(parts.drop_last().last() == parts[0]);
    assert(concat(parts.drop_last().drop_last()) == Seq::<char>::empty());
    assert(concat(parts.drop_last()) =~= parts[0]@);
    assert(b.values@[m.fields@.len() + i] == b.values@[m.fields@.len() as int + i]);
}

/// The name and view path of every template of `theme`, in order.
pub open spec fn views_match(views: Seq<(String, String)>, theme: Theme) -> bool {
    views.len() == theme.templates@.len() && forall|i: int|
        0 <= i < views.len() ==> (#[trigger] views[i]).0@ == theme.templates@[i].0@ && views[i].1@
            == theme.templates@[i].1.view@
}

/// Renders page instances with a template engine, registering a theme's
/// views with the engine once for as long as the theme stays the same.
#[derive(Debug)]
pub struct PageRenderer<R: Renderer> {
    engine: R,
    loaded: Option<Vec<(String, String)>>,
}

fn theme_views(theme: &Theme) -> (r: Vec<(String, String)>)
    ensures
        views_match(r@, *theme),
{
    let mut views: Vec<(String, String)> = Vec::new();
    let mut i: usize = 0;
    while i < theme.templates.len()
        invariant
            i <= theme.templates@.len(),
            views@.len() == i,
            forall|j: int| 0 <= j < i ==> (#[trigger] views@[j]).0@ == theme.templates@[j].0@ && views@[j].1@
                == theme.templates@[j].1.view@,
        decreases theme.templates@.len() - i,
    {
        views.push((theme.templates[i].0.clone(), theme.templates[i].1.view.clone()));
        i = i + 1;
    }
    views
}

fn same_views(a: &Vec<(String, String)>, b: &Vec<(String, String)>) -> (r: bool)
    ensures
        r <==> (a@.len() == b@.len() && forall|i: int| 0 <= i < a@.len() ==> (#[trigger] a@[i]).0@ == b@[i].0@ && a@[i].1@ == b@[i].1@),
{
    if a.len() != b.len() {
        return false;
    }
    let mut i: usize = 0;
    while i < a.len()
        invariant
            a@.len() == b@.len(),
            i <= a@.len(),
            forall|j: int| 0 <= j < i ==> (#[trigger] a@[j]).0@ == b@[j].0@ && a@[j].1@ == b@[j].1@,
        decreases a@.len() - i,
    {
        if a[i].0 != b[i].0 || a[i].1 != b[i].1 {
            return false;
        }
        i = i + 1;
    }
    true
}

impl<R: Renderer> PageRenderer<R> {
    /// The engine.
    pub closed spec fn engine(&self) -> R {
        self.engine
    }

    /// The views last registered in full, if the last registration succeeded.
    pub closed spec fn loaded(&self) -> Option<Seq<(String, String)>> {
        match self.loaded {
            Some(v) => Some(v@),
            None => None,
        }
    }

    /// A renderer over `engine`, with no theme registered yet.
    pub fn new(engine: R) -> (r: PageRenderer<R>)
        ensures
            r.engine() == engine,
            r.loaded() is None,
    {
        PageRenderer { engine, loaded: None }
    }

    /// Registers every template of `theme` with the engine, unless the views
    /// of this same theme were registered last.
    pub fn load(&mut self, theme: &Theme) -> (r: Result<(), RenderError>)
        ensures
            old(self).loaded() matches Some(v) ==> (views_match(v, *theme) ==> (r is Ok && *final(self) == *old(self))),
            theme.templates@.len() == 0 ==> r is Ok,
            r is Ok ==> (final(self).loaded() matches Some(v) && views_match(v, *theme)),
            r matches Err(e) ==> e is Load && final(self).loaded() is None,
    {
        let views = theme_views(theme);
        proof {
            if self.loaded is Some && views_match(self.loaded->Some_0@, *theme) {
                let v = self.loaded->Some_0@;
                assert forall|i: int| 0 <= i < v.len() implies (#[trigger] v[i]).0@ == views@[i].0@ && v[i].1@ == views@[i].1@ by {}
            }
        }
        let cached = match &self.loaded {
            Some(v) => same_views(v, &views),
            None => false,
        };
        assert((self.loaded() matches Some(v) && views_match(v, *theme)) ==> cached);
        if cached {
            return Ok(());
        }
        self.loaded = None;
        let mut i: usize = 0;
        while i < views.len()
            invariant
                i <= views@.len(),
                views_match(views@, *theme),
                self.loaded is None,
                !(old(self).loaded() matches Some(v) && views_match(v, *theme)),
            decreases views@.len() - i,
        {
            match self.engine.add_template(views[i].0.as_str(), views[i].1.as_str()) {
                Ok(()) => {},
                Err(message) => return Err(RenderError::Load(message)),
            }
            i = i + 1;
        }
        self.loaded = Some(views);
        Ok(())
    }

    /// Renders `module` depth first: the children of each area in order,
    /// their markup concatenated and bound under the area's name beside the
    /// module's fields, then the module's own template with those bindings.
    /// Fails on the first render that fails.
    pub fn render_module(&self, module: &Module) -> (r: Result<String, RenderError>)
        ensures
            r matches Err(e) ==> e is Render,
        decreases module,
    {
        let mut children: Vec<Vec<String>> = Vec::new();
        let mut i: usize = 0;
        while i < module.areas.len()
            invariant
                i <= module.areas@.len(),
                children@.len() == i,
            decreases module.areas@.len() - i,
        {
            let list = &module.areas[i].1;
            let mut parts: Vec<String> = Vec::new();
            let mut j: usize = 0;
            while j < list.len()
                invariant
                    j <= list@.len(),
                    list == module.areas@[i as int].1,
                    i < module.areas@.len(),
                decreases list@.len() - j,
            {
                proof {
                    assert(decreases_to!(module => module.areas@[i as int].1@[j as int]));
                }
                let html = match self.render_module(&list[j]) {
                    Ok(h) => h,
                    Err(e) => return Err(e),
                };
                parts.push(html);
                j = j + 1;
            }
            children.push(parts);
            i = i + 1;
        }
        let bindings = bind_node(module, &children);
        match self.engine.render_template(module.template.as_str(), &bindings) {
            Ok(html) => Ok(html),
            Err(message) => Err(RenderError::Render(message)),
        }
    }
}

} // verus!
