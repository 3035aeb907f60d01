use vstd::prelude::*;
use crate::model::{Module, ModelError};
use crate::render::{PageRenderer, RenderError, Renderer};
use crate::store::{IdGenerator, Page, PageRecord, Storage, StoreError, YamlStorage, has_id, has_name, without};
use crate::theme::{Theme, is_default_instance};

verus! {

/// The operation during which a site error arose.
#[derive(Debug, Clone, Copy, PartialEq, Eq, Structural)]
pub enum ErrorKind {
    Create,
    Delete,
    Render,
}

impl ErrorKind {
    /// A short description of the operation.
    pub fn as_str(&self) -> (r: &'static str)
        ensures
            *self == ErrorKind::Create ==> r@ == "Create Error"@,
            *self == ErrorKind::Delete ==> r@ == "Delete Error"@,
            *self == ErrorKind::Render ==> r@ == "Render Error"@,
    {
        match self {
            ErrorKind::Create => "Create Error",
            ErrorKind::Delete => "Delete Error",
            ErrorKind::Render => "Render Error",
        }
    }
}

/// What went wrong underneath a site operation.
#[derive(Debug)]
pub enum Cause {
    /// The page name is empty once surrounding whitespace is removed.
    EmptyPageName,
    Model(ModelError),
    Store(StoreError),
    Render(RenderError),
}

/// A failed site operation: which operation, and why.
#[derive(Debug)]
pub struct SiteError {
    pub kind: ErrorKind,
    pub cause: Cause,
}

/// `e` is the error of operation `kind` caused by the store error `se`.
pub open spec fn store_failure<T>(r: Result<T, SiteError>, kind: ErrorKind, se: StoreError) -> bool {
    r matches Err(e) && e.kind == kind && e.cause == Cause::Store(se)
}

/// `c` has the Unicode `White_Space` property.
pub open spec fn is_white_space(c: char) -> bool {
    ('\u{9}' <= c && c <= '\u{d}') || c == ' ' || c == '\u{85}' || c == '\u{a0}' || c == '\u{1680}'
        || ('\u{2000}' <= c && c <= '\u{200a}') || c == '\u{2028}' || c == '\u{2029}' || c == '\u{202f}'
        || c == '\u{205f}' || c == '\u{3000}'
}

/// `s` without its leading whitespace.
pub open spec fn trim_start_of(s: Seq<char>) -> Seq<char>
    decreases s.len(),
{
    if s.len() > 0 && is_white_space(s[0]) {
        trim_start_of(s.drop_first())
    } else {
        s
    }
}

/// `s` without its trailing whitespace.
pub open spec fn trim_end_of(s: Seq<char>) -> Seq<char>
    decreases s.len(),
{
    if s.len() > 0 && is_white_space(s.last()) {
        trim_end_of(s.drop_last())
    } else {
        s
    }
}

/// `s` without its leading and trailing whitespace.
pub open spec fn trim_of(s: Seq<char>) -> Seq<char> {
    trim_end_of(trim_start_of(s))
}

/// Relies on `str::trim`: the string without leading and trailing
/// characters of the Unicode `White_Space` property.
#[verifier::external_body]
fn trimmed(s: &str) -> (r: String)
    ensures
        r@ == trim_of(s@),
{
    s.trim().to_owned()
}

/// The folder name of a site's theme where its configuration names none.
pub fn default_theme() -> (r: String)
    ensures
        r@ == "theme"@,
{
    "theme".to_owned()
}

/// A site: a theme, a store of pages with the place it keeps its files, a
/// renderer, and a source of page ids.
pub struct Site<S: Storage, R: Renderer, G: IdGenerator> {
    theme: Theme,
    store: YamlStorage,
    storage: S,
    renderer: PageRenderer<R>,
    ids: G,
}

impl<S: Storage, R: Renderer, G: IdGenerator> Site<S, R, G> {
    /// The site's theme.
    pub closed spec fn theme(&self) -> Theme {
        self.theme
    }

    /// The pages of the site.
    pub closed spec fn records(&self) -> Seq<PageRecord> {
        self.store.records()
    }

    /// The place where the store keeps its files.
    pub closed spec fn storage(&self) -> S {
        self.storage
    }

    /// The source of page ids.
    pub closed spec fn ids(&self) -> G {
        self.ids
    }

    /// The template engine.
    pub closed spec fn engine(&self) -> R {
        self.renderer.engine()
    }

    /// The theme has unique template names, and the store unique ids and names.
    pub closed spec fn wf(&self) -> bool {
        self.theme.wf() && self.store.wf()
    }

    /// A site over the given parts.
    pub fn new(theme: Theme, store: YamlStorage, storage: S, engine: R, ids: G) -> (r: Site<S, R, G>)
        requires
            theme.wf(),
            store.wf(),
        ensures
            r.wf(),
            r.theme() == theme,
            r.records() == store.records(),
            r.storage() == storage,
            r.engine() == engine,
            r.ids() == ids,
    {
        Site { theme, store, storage, renderer: PageRenderer::new(engine), ids }
    }

    /// Creates a page named `name`, without its surrounding whitespace, as the
    /// default instance of `template`, and returns its id.
    pub fn create_page(&mut self, name: &str, template: &str) -> (r: Result<String, SiteError>)
        requires
            old(self).wf(),
        ensures
            final(self).wf(),
            final(self).theme() == old(self).theme(),
            r matches Err(e) ==> e.kind == ErrorKind::Create && final(self).records() == old(self).records(),
            trim_of(name@).len() == 0 ==> (r matches Err(e) && e.cause == Cause::EmptyPageName),
            r matches Err(e) && e.cause == Cause::EmptyPageName ==> trim_of(name@).len() == 0,
            r matches Err(e) && e.cause == Cause::Model(ModelError::TemplateNotFound)
                ==> old(self).theme().template(template@) is None,
            store_failure(r, ErrorKind::Create, StoreError::DuplicatedName) ==> has_name(old(self).records(), trim_of(name@)),
            r matches Err(e) && (e.cause == Cause::EmptyPageName || e.cause == Cause::Model(ModelError::TemplateNotFound)
                || e.cause == Cause::Store(StoreError::DuplicatedName)) ==> final(self).storage() == old(self).storage()
                && final(self).ids() == old(self).ids(),
            trim_of(name@).len() != 0 && old(self).theme().template(template@) is None
                ==> (r matches Err(e) && e.cause == Cause::Model(ModelError::TemplateNotFound)),
            trim_of(name@).len() != 0 && old(self).theme().template(template@) is Some
                && has_name(old(self).records(), trim_of(name@))
                ==> store_failure(r, ErrorKind::Create, StoreError::DuplicatedName),
            r matches Ok(id) ==> {
                &&& trim_of(name@).len() != 0
                &&& !has_name(old(self).records(), trim_of(name@))
                &&& !has_id(old(self).records(), id@)
                &&& final(self).records().len() == old(self).records().len() + 1
                &&& final(self).records().drop_last() == old(self).records()
                &&& final(self).records().last().id == id
                &&& final(self).records().last().name@ == trim_of(name@)
                &&& old(self).theme().template(template@) matches Some(t)
                    && is_default_instance(final(self).records().last().module, t, template@)
            },
    {
        let name = trimmed(name);
        if name.unicode_len() == 0 {
            return Err(SiteError { kind: ErrorKind::Create, cause: Cause::EmptyPageName });
        }
        let module = match self.theme.get_module_defaults(template) {
            Ok(m) => m,
            Err(e) => return Err(SiteError { kind: ErrorKind::Create, cause: Cause::Model(e) }),
        };
        match self.store.create_page(name.as_str(), module, &mut self.ids, &mut self.storage) {
            Ok(id) => Ok(id),
            Err(e) => Err(SiteError { kind: ErrorKind::Create, cause: Cause::Store(e) }),
        }
    }

    /// Deletes the page `id` and returns its instance.
    pub fn delete_page(&mut self, id: &str) -> (r: Result<Module, SiteError>)
        requires
            old(self).wf(),
        ensures
            final(self).wf(),
            final(self).theme() == old(self).theme(),
            !has_id(old(self).records(), id@) ==> store_failure(r, ErrorKind::Delete, StoreError::PageNotFound),
            store_failure(r, ErrorKind::Delete, StoreError::PageNotFound) ==> !has_id(old(self).records(), id@),
            !has_id(old(self).records(), id@) ==> final(self).storage() == old(self).storage(),
            final(self).ids() == old(self).ids(),
            final(self).engine() == old(self).engine(),
            r matches Err(e) ==> e.kind == ErrorKind::Delete && final(self).records() == old(self).records(),
            r matches Ok(m) ==> exists|i: int| 0 <= i < old(self).records().len()
                && (#[trigger] old(self).records()[i]).id@ == id@
                && old(self).records()[i].module == m
                && final(self).records() == without(old(self).records(), i),
    {
        let ghost before = self.store.records();
        match self.store.delete_page(id, &mut self.storage) {
            Ok(m) => {
                proof {
                    let i = choose|i: int| 0 <= i < before.len() && (#[trigger] before[i]).id@ == id@
                        && before[i].module == m && self.store.records() == without(before, i);
                    assert(before == old(self).records());
                    assert(self.records() == without(old(self).records(), i));
                    assert(0 <= i < old(self).records().len() && old(self).records()[i].id@ == id@
                        && old(self).records()[i].module == m);
                }
                Ok(m)
            },
            Err(e) => Err(SiteError { kind: ErrorKind::Delete, cause: Cause::Store(e) }),
        }
    }

    /// The id and name of every page, in the order they were created.
    pub fn summary(&self) -> (r: Vec<Page>)
        ensures
            r@.len() == self.records().len(),
            forall|i: int| 0 <= i < r@.len() ==> (#[trigger] r@[i]).id@ == self.records()[i].id@
                && r@[i].name@ == self.records()[i].name@,
    {
        self.store.summary()
    }

    /// Renders the page named `name`, registering the theme's views first
    /// where they are not registered yet.
    pub fn render_page(&mut self, name: &str) -> (r: Result<String, SiteError>)
        requires
            old(self).wf(),
        ensures
            final(self).wf(),
            final(self).theme() == old(self).theme(),
            final(self).records() == old(self).records(),
            !has_name(old(self).records(), name@) ==> store_failure(r, ErrorKind::Render, StoreError::PageNotFound),
            r matches Err(e) ==> e.kind == ErrorKind::Render && (has_name(old(self).records(), name@)
                ==> e.cause is Render),
    {
        let page = match self.store.get_page_by_name(name) {
            Ok(p) => p,
            Err(e) => return Err(SiteError { kind: ErrorKind::Render, cause: Cause::Store(e) }),
        };
        match self.renderer.load(&self.theme) {
            Ok(()) => {},
            Err(e) => return Err(SiteError { kind: ErrorKind::Render, cause: Cause::Render(e) }),
        }
        match self.renderer.render_module(page) {
            Ok(html) => Ok(html),
            Err(e) => Err(SiteError { kind: ErrorKind::Render, cause: Cause::Render(e) }),
        }
    }
}

/// Gathers the parts of a site; `build` makes the site once all are there.
pub struct SiteBuilder<S: Storage, R: Renderer, G: IdGenerator> {
    theme: Option<Theme>,
    store: Option<(YamlStorage, S)>,
    renderer: Option<R>,
    ids: Option<G>,
}

impl<S: Storage, R: Renderer, G: IdGenerator> SiteBuilder<S, R, G> {
    /// Every part given so far is well formed.
    pub closed spec fn wf(&self) -> bool {
        &&& self.theme matches Some(t) ==> t.wf()
        &&& self.store matches Some(st) ==> st.0.wf()
    }

    /// The theme given, if any.
    pub closed spec fn given_theme(&self) -> Option<Theme> {
        self.theme
    }

    /// The records of the store given, if any.
    pub closed spec fn given_records(&self) -> Option<Seq<PageRecord>> {
        match self.store {
            Some(st) => Some(st.0.records()),
            None => None,
        }
    }

    /// The place for the store's files given, if any.
    pub closed spec fn given_storage(&self) -> Option<S> {
        match self.store {
            Some(st) => Some(st.1),
            None => None,
        }
    }

    /// The template engine given, if any.
    pub closed spec fn given_engine(&self) -> Option<R> {
        self.renderer
    }

    /// The source of ids given, if any.
    pub closed spec fn given_ids(&self) -> Option<G> {
        self.ids
    }

    /// Whether a template engine was given.
    pub open spec fn has_renderer(&self) -> bool {
        self.given_engine() is Some
    }

    /// Whether a source of ids was given.
    pub open spec fn has_ids(&self) -> bool {
        self.given_ids() is Some
    }

    /// Every part has been given.
    pub open spec fn complete(&self) -> bool {
        self.given_theme() is Some && self.given_records() is Some && self.has_renderer() && self.has_ids()
    }

    /// A builder with no parts.
    pub fn new() -> (r: SiteBuilder<S, R, G>)
        ensures
            r.wf(),
            r.given_theme() is None,
            r.given_records() is None,
            r.given_storage() is None,
            r.given_engine() is None,
            r.given_ids() is None,
    {
        SiteBuilder { theme: None, store: None, renderer: None, ids: None }
    }

    /// Sets the theme.
    pub fn theme(self, theme: Theme) -> (r: SiteBuilder<S, R, G>)
        requires
            self.wf(),
            theme.wf(),
        ensures
            r.wf(),
            r.given_theme() == Some(theme),
            r.given_records() == self.given_records(),
            r.given_storage() == self.given_storage(),
            r.given_engine() == self.given_engine(),
            r.given_ids() == self.given_ids(),
    {
        SiteBuilder { theme: Some(theme), ..self }
    }

    /// Sets the store, with the place where it keeps its files.
    pub fn storage(self, store: YamlStorage, storage: S) -> (r: SiteBuilder<S, R, G>)
        requires
            self.wf(),
            store.wf(),
        ensures
            r.wf(),
            r.given_theme() == self.given_theme(),
            r.given_records() == Some(store.records()),
            r.given_storage() == Some(storage),
            r.given_engine() == self.given_engine(),
            r.given_ids() == self.given_ids(),
    {
        SiteBuilder { store: Some((store, storage)), ..self }
    }

    /// Sets the template engine.
    pub fn renderer(self, renderer: R) -> (r: SiteBuilder<S, R, G>)
        requires
            self.wf(),
        ensures
            r.wf(),
            r.given_theme() == self.given_theme(),
            r.given_records() == self.given_records(),
            r.given_storage() == self.given_storage(),
            r.given_engine() == Some(renderer),
            r.given_ids() == self.given_ids(),
    {
        SiteBuilder { renderer: Some(renderer), ..self }
    }

    /// Sets the source of page ids.
    pub fn ids(self, ids: G) -> (r: SiteBuilder<S, R, G>)
        requires
            self.wf(),
        ensures
            r.wf(),
            r.given_theme() == self.given_theme(),
            r.given_records() == self.given_records(),
            r.given_storage() == self.given_storage(),
            r.given_engine() == self.given_engine(),
            r.given_ids() == Some(ids),
    {
        SiteBuilder { ids: Some(ids), ..self }
    }

    /// The site, once every part has been given.
    pub fn build(self) -> (r: Option<Site<S, R, G>>)
        requires
            self.wf(),
        ensures
            r is Some <==> self.complete(),
            r matches Some(site) ==> site.wf() && self.given_theme() == Some(site.theme())
                && self.given_records() == Some(site.records()) && self.given_storage() == Some(site.storage())
                && self.given_engine() == Some(site.engine()) && self.given_ids() == Some(site.ids()),
    {
        match (self.theme, self.store, self.renderer, self.ids) {
            (Some(theme), Some((store, storage)), Some(renderer), Some(ids)) => Some(
                Site::new(theme, store, storage, renderer, ids),
            ),
            _ => None,
        }
    }
}

} // verus!
