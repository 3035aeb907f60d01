use vstd::prelude::*;
use crate::model::{Field, keys_distinct, FieldValue, Module, ModelError, is_zero_of, key_index, has_key, key_set, keys_unique, find_key, upsert};
use crate::yaml::{Yaml, is_key, lookup, get, parse_yaml, yaml_parsed};

verus! {

/// Which child templates an area admits.
#[derive(Debug)]
pub enum Area {
    All,
    Without(Vec<String>),
    With(Vec<String>),
}

/// Some name of `names` reads `t`.
pub open spec fn names_contain(names: Seq<String>, t: Seq<char>) -> bool {
    exists|i: int| 0 <= i < names.len() && #[trigger] names[i]@ == t
}

/// The area policy `a` admits children of template `t`.
pub open spec fn admits(a: Area, t: Seq<char>) -> bool {
    match a {
        Area::All => true,
        Area::With(names) => names_contain(names@, t),
        Area::Without(names) => !names_contain(names@, t),
    }
}

fn contains_name(names: &Vec<String>, t: &str) -> (r: bool)
    ensures
        r == names_contain(names@, t@),
{
    let wanted = t.to_owned();
    let mut i: usize = 0;
    while i < names.len()
        invariant
            i <= names@.len(),
            wanted@ == t@,
            forall|j: int| 0 <= j < i ==> names@[j]@ != t@,
        decreases names@.len() - i,
    {
        if names[i] == wanted {
            return true;
        }
        i = i + 1;
    }
    false
}

impl Area {
    /// Whether this area admits a child instance of `template`.
    pub fn accepts(&self, template: &str) -> (r: bool)
        ensures
            r == admits(*self, template@),
    {
        match self {
            Area::All => true,
            Area::With(names) => contains_name(names, template),
            Area::Without(names) => !contains_name(names, template),
        }
    }
}

/// The schema of one kind of page or component.
#[derive(Debug)]
pub struct Template {
    pub view: String,
    pub fields: Vec<(String, Field)>,
    pub areas: Vec<(String, Area)>,
}

/// Why a theme could not be loaded.
#[derive(Debug, Clone, Copy, PartialEq, Eq, Structural)]
pub enum ThemeError {
    /// A path is not representable as text.
    ParsePath,
    /// A path does not resolve.
    Canonicalize,
    /// A template folder does not lie strictly below the theme's root.
    RelativeName,
    /// A schema descriptor is not YAML or does not have the schema's shape.
    ParseTemplate,
}

/// The field type that a schema names: `string`, `number` or `boolean`.
pub open spec fn field_type_named(y: Yaml) -> Option<Field> {
    if is_key(y, "string"@) {
        Some(Field::String)
    } else if is_key(y, "number"@) {
        Some(Field::Number)
    } else if is_key(y, "boolean"@) {
        Some(Field::Boolean)
    } else {
        None
    }
}

/// The entries of an optional mapping section of a schema: absent or null
/// reads as empty; `None` where the section is something else.
pub open spec fn section(doc: Seq<(Yaml, Yaml)>, name: Seq<char>) -> Option<Seq<(Yaml, Yaml)>> {
    match lookup(doc, name) {
        None => Some(Seq::empty()),
        Some(Yaml::Null) => Some(Seq::empty()),
        Some(Yaml::Mapping(es)) => Some(es@),
        Some(_) => None,
    }
}

/// No two keys of a mapping are the same string.
pub open spec fn distinct_keys(es: Seq<(Yaml, Yaml)>) -> bool {
    forall|i: int, j: int| 0 <= i < es.len() && 0 <= j < es.len() && i != j && (#[trigger] es[i]).0 is Str
        && (#[trigger] es[j]).0 is Str ==> es[i].0->Str_0@ != es[j].0->Str_0@
}

/// Every entry of a `fields` section is a name with a known field type, and
/// no name comes twice.
pub open spec fn fields_valid(es: Seq<(Yaml, Yaml)>) -> bool {
    &&& forall|i: int| 0 <= i < es.len() ==> (#[trigger] es[i]).0 is Str && field_type_named(es[i].1) is Some
    &&& distinct_keys(es)
}

/// `fs` lists the entries of a `fields` section in order.
pub open spec fn fields_read(fs: Seq<(String, Field)>, es: Seq<(Yaml, Yaml)>) -> bool {
    fs.len() == es.len() && forall|i: int|
        0 <= i < es.len() ==> is_key((#[trigger] es[i]).0, fs[i].0@) && field_type_named(es[i].1)
            == Some(fs[i].1)
}

/// Every item of a component list is a string.
pub open spec fn names_valid(items: Seq<Yaml>) -> bool {
    forall|i: int| 0 <= i < items.len() ==> (#[trigger] items[i]) is Str
}

/// `ns` lists the strings of a component list in order.
pub open spec fn names_read(ns: Seq<String>, items: Seq<Yaml>) -> bool {
    ns.len() == items.len() && forall|i: int| 0 <= i < items.len() ==> is_key(#[trigger] items[i], ns[i]@)
}

/// The component list of an area's descriptor, where it is a list of strings.
pub open spec fn components(es: Seq<(Yaml, Yaml)>) -> Option<Seq<Yaml>> {
    match lookup(es, "components"@) {
        Some(Yaml::List(items)) => if names_valid(items@) {
            Some(items@)
        } else {
            None
        },
        _ => None,
    }
}

/// An area descriptor: `accept` is `all`, or `with` / `without` together with
/// a list of component names.
pub open spec fn area_valid(y: Yaml) -> bool {
    match y {
        Yaml::Mapping(es) => match lookup(es@, "accept"@) {
            Some(acc) => is_key(acc, "all"@) || ((is_key(acc, "with"@) || is_key(acc, "without"@))
                && components(es@) is Some),
            None => false,
        },
        _ => false,
    }
}

/// `a` is the policy that a valid area descriptor `y` states.
pub open spec fn area_read(a: Area, y: Yaml) -> bool {
    match y {
        Yaml::Mapping(es) => match lookup(es@, "accept"@) {
            Some(acc) => if is_key(acc, "all"@) {
                a is All
            } else if is_key(acc, "with"@) {
                a is With && names_read(a->With_0@, components(es@).unwrap())
            } else {
                a is Without && names_read(a->Without_0@, components(es@).unwrap())
            },
            None => false,
        },
        _ => false,
    }
}

/// Every entry of an `areas` section is a name with a valid descriptor, and
/// no name comes twice.
pub open spec fn areas_valid(es: Seq<(Yaml, Yaml)>) -> bool {
    &&& forall|i: int| 0 <= i < es.len() ==> (#[trigger] es[i]).0 is Str && area_valid(es[i].1)
    &&& distinct_keys(es)
}

/// `as_` lists the entries of an `areas` section in order.
pub open spec fn areas_read(as_: Seq<(String, Area)>, es: Seq<(Yaml, Yaml)>) -> bool {
    as_.len() == es.len() && forall|i: int|
        0 <= i < es.len() ==> is_key((#[trigger] es[i]).0, as_[i].0@) && area_read(as_[i].1, es[i].1)
}

/// A schema descriptor: a mapping with a string `view` and optional `fields`
/// and `areas` sections.
pub open spec fn template_valid(doc: Yaml) -> bool {
    match doc {
        Yaml::Mapping(es) => (lookup(es@, "view"@) matches Some(Yaml::Str(_)))
            && (section(es@, "fields"@) matches Some(fs) && fields_valid(fs))
            && (section(es@, "areas"@) matches Some(as_) && areas_valid(as_)),
        _ => false,
    }
}

/// `t` is the template that a valid descriptor `doc` states.
pub open spec fn template_read(t: Template, doc: Yaml) -> bool {
    match doc {
        Yaml::Mapping(es) => (lookup(es@, "view"@) matches Some(Yaml::Str(v)) && t.view@ == v@)
            && fields_read(t.fields@, section(es@, "fields"@).unwrap())
            && areas_read(t.areas@, section(es@, "areas"@).unwrap()),
        _ => false,
    }
}

fn read_field_type(y: &Yaml) -> (r: Option<Field>)
    ensures
        r == field_type_named(*y),
{
    match y {
        Yaml::Str(s) => {
            if *s == "string".to_owned() {
                Some(Field::String)
            } else if *s == "number".to_owned() {
                Some(Field::Number)
            } else if *s == "boolean".to_owned() {
                Some(Field::Boolean)
            } else {
                None
            }
        },
        _ => None,
    }
}

fn read_section<'a>(doc: &'a Vec<(Yaml, Yaml)>, name: &str, empty: &'a Vec<(Yaml, Yaml)>) -> (r: Option<&'a Vec<(Yaml, Yaml)>>)
    requires
        empty@.len() == 0,
    ensures
        match r {
            Some(es) => section(doc@, name@) == Some(es@),
            None => section(doc@, name@) is None,
        },
{
    match get(doc, name) {
        None => Some(empty),
        Some(Yaml::Null) => Some(empty),
        Some(Yaml::Mapping(es)) => Some(es),
        Some(_) => None,
    }
}

fn read_fields(es: &Vec<(Yaml, Yaml)>) -> (r: Option<Vec<(String, Field)>>)
    ensures
        match r {
            Some(fs) => fields_valid(es@) && fields_read(fs@, es@) && keys_unique(fs@),
            None => !fields_valid(es@),
        },
{
    let mut fs: Vec<(String, Field)> = Vec::new();
    let mut i: usize = 0;
    while i < es.len()
        invariant
            i <= es@.len(),
            fs@.len() == i,
            forall|j: int| 0 <= j < i ==> (#[trigger] es@[j]).0 is Str && field_type_named(es@[j].1) is Some,
            forall|j: int| 0 <= j < i ==> is_key((#[trigger] es@[j]).0, fs@[j].0@) && field_type_named(es@[j].1)
                == Some(fs@[j].1),
        decreases es@.len() - i,
    {
        let name = match &es[i].0 {
            Yaml::Str(s) => s.clone(),
            _ => return None,
        };
        let ty = match read_field_type(&es[i].1) {
            Some(t) => t,
            None => return None,
        };
        fs.push((name, ty));
        i = i + 1;
    }
    proof {
        assert forall|a: int, b: int| 0 <= a < es@.len() && 0 <= b < es@.len() && a != b
            implies #[trigger] fs@[a].0@ == #[trigger] fs@[b].0@ <==> (es@[a].0->Str_0@ == es@[b].0->Str_0@) by {
            assert(is_key(es@[a].0, fs@[a].0@));
            assert(is_key(es@[b].0, fs@[b].0@));
        }
    }
    if !keys_distinct(&fs) {
        return None;
    }
    Some(fs)
}

fn read_names(items: &Vec<Yaml>) -> (r: Option<Vec<String>>)
    ensures
        match r {
            Some(ns) => names_valid(items@) && names_read(ns@, items@),
            None => !names_valid(items@),
        },
{
    let mut ns: Vec<String> = Vec::new();
    let mut i: usize = 0;
    while i < items.len()
        invariant
            i <= items@.len(),
            ns@.len() == i,
            forall|j: int| 0 <= j < i ==> (#[trigger] items@[j]) is Str,
            forall|j: int| 0 <= j < i ==> is_key(#[trigger] items@[j], ns@[j]@),
        decreases items@.len() - i,
    {
        match &items[i] {
            Yaml::Str(s) => ns.push(s.clone()),
            _ => return None,
        }
        i = i + 1;
    }
    Some(ns)
}

fn read_components(es: &Vec<(Yaml, Yaml)>) -> (r: Option<Vec<String>>)
    ensures
        match r {
            Some(ns) => components(es@) matches Some(items) && names_read(ns@, items),
            None => components(es@) is None,
        },
{
    match get(es, "components") {
        Some(Yaml::List(items)) => read_names(items),
        _ => None,
    }
}

fn read_area(y: &Yaml) -> (r: Option<Area>)
    ensures
        match r {
            Some(a) => area_valid(*y) && area_read(a, *y),
            None => !area_valid(*y),
        },
{
    match y {
        Yaml::Mapping(es) => match get(es, "accept") {
            Some(acc) => {
                let (is_all, is_with, is_without) = match acc {
                    Yaml::Str(s) => (*s == "all".to_owned(), *s == "with".to_owned(), *s
                        == "without".to_owned()),
                    _ => (false, false, false),
                };
                if is_all {
                    Some(Area::All)
                } else if is_with {
                    match read_components(es) {
                        Some(ns) => Some(Area::With(ns)),
                        None => None,
                    }
                } else if is_without {
                    match read_components(es) {
                        Some(ns) => Some(Area::Without(ns)),
                        None => None,
                    }
                } else {
                    None
                }
            },
            None => None,
        },
        _ => None,
    }
}

fn read_areas(es: &Vec<(Yaml, Yaml)>) -> (r: Option<Vec<(String, Area)>>)
    ensures
        match r {
            Some(as_) => areas_valid(es@) && areas_read(as_@, es@) && keys_unique(as_@),
            None => !areas_valid(es@),
        },
{
    let mut as_: Vec<(String, Area)> = Vec::new();
    let mut i: usize = 0;
    while i < es.len()
        invariant
            i <= es@.len(),
            as_@.len() == i,
            forall|j: int| 0 <= j < i ==> (#[trigger] es@[j]).0 is Str && area_valid(es@[j].1),
            forall|j: int| 0 <= j < i ==> is_key((#[trigger] es@[j]).0, as_@[j].0@) && area_read(as_@[j].1, es@[j].1),
        decreases es@.len() - i,
    {
        let name = match &es[i].0 {
            Yaml::Str(s) => s.clone(),
            _ => return None,
        };
        let area = match read_area(&es[i].1) {
            Some(a) => a,
            None => return None,
        };
        as_.push((name, area));
        i = i + 1;
    }
    proof {
        assert forall|a: int, b: int| 0 <= a < es@.len() && 0 <= b < es@.len() && a != b
            implies #[trigger] as_@[a].0@ == #[trigger] as_@[b].0@ <==> (es@[a].0->Str_0@ == es@[b].0->Str_0@) by {
            assert(is_key(es@[a].0, as_@[a].0@));
            assert(is_key(es@[b].0, as_@[b].0@));
        }
    }
    if !keys_distinct(&as_) {
        return None;
    }
    Some(as_)
}

impl Template {
    /// No two fields share a name, and no two areas do.
    pub open spec fn wf(&self) -> bool {
        keys_unique(self.fields@) && keys_unique(self.areas@)
    }

    /// Reads a template from its schema descriptor's document.
    pub fn from_yaml(doc: &Yaml) -> (r: Result<Template, ThemeError>)
        ensures
            r is Ok <==> template_valid(*doc),
            r matches Ok(t) ==> t.wf(),
            match r {
                Ok(t) => template_read(t, *doc),
                Err(e) => e == ThemeError::ParseTemplate,
            },
    {
        let es = match doc {
            Yaml::Mapping(es) => es,
            _ => return Err(ThemeError::ParseTemplate),
        };
        let view = match get(es, "view") {
            Some(Yaml::Str(v)) => v.clone(),
            _ => return Err(ThemeError::ParseTemplate),
        };
        let empty: Vec<(Yaml, Yaml)> = Vec::new();
        let fields = match read_section(es, "fields", &empty) {
            Some(fs) => match read_fields(fs) {
                Some(f) => f,
                None => return Err(ThemeError::ParseTemplate),
            },
            None => return Err(ThemeError::ParseTemplate),
        };
        let areas = match read_section(es, "areas", &empty) {
            Some(as_) => match read_areas(as_) {
                Some(a) => a,
                None => return Err(ThemeError::ParseTemplate),
            },
            None => return Err(ThemeError::ParseTemplate),
        };
        Ok(Template { view, fields, areas })
    }

    /// Reads a template from the YAML text of its schema descriptor.
    pub fn parse(text: &str) -> (r: Result<Template, ThemeError>)
        ensures
            match yaml_parsed(text@) {
                Some(doc) => (r is Ok <==> template_valid(doc)) && (r matches Ok(t) ==> template_read(t, doc)),
                None => r is Err,
            },
            r matches Err(e) ==> e == ThemeError::ParseTemplate,
            r matches Ok(t) ==> t.wf(),
    {
        match parse_yaml(text) {
            Some(doc) => Template::from_yaml(&doc),
            None => Err(ThemeError::ParseTemplate),
        }
    }
}

/// The full set of templates of a site, by name.
#[derive(Debug)]
pub struct Theme {
    pub templates: Vec<(String, Template)>,
}

/// The name of the template whose folder is `dir`, below the theme's root
/// folder `root`: what follows `root` in `dir`, if `dir` starts with `root`
/// and goes on past it.
pub open spec fn relative_name(root: Seq<char>, dir: Seq<char>) -> Option<Seq<char>> {
    if root.len() < dir.len() && dir.subrange(0, root.len() as int) == root {
        Some(dir.subrange(root.len() as int, dir.len() as int))
    } else {
        None
    }
}

/// The path of a view named `view` in a template's folder `dir`: `view`
/// itself where it is absolute.
pub open spec fn joined_view(dir: Seq<char>, view: Seq<char>) -> Seq<char> {
    if view.len() > 0 && view[0] == '/' {
        view
    } else {
        dir + "/"@ + view
    }
}

/// A template folder `dir` with the text of its descriptor loads.
pub open spec fn source_loads(root: Seq<char>, dir: Seq<char>, text: Seq<char>) -> bool {
    relative_name(root, dir) is Some && (yaml_parsed(text) matches Some(doc) && template_valid(doc))
}

/// The error that a template folder that does not load gives.
pub open spec fn source_error(root: Seq<char>, dir: Seq<char>) -> ThemeError {
    if relative_name(root, dir) is None {
        ThemeError::RelativeName
    } else {
        ThemeError::ParseTemplate
    }
}

/// The set of template names of a theme.
pub open spec fn names_of(t: Theme) -> Set<Seq<char>> {
    key_set(t.templates@)
}

/// The set of template names that the first `n` folders of `sources` give.
pub open spec fn source_names(root: Seq<char>, sources: Seq<(String, String)>, n: int) -> Set<Seq<char>> {
    Set::new(|name: Seq<char>| exists|i: int| 0 <= i < n && relative_name(root, (#[trigger] sources[i]).0@) == Some(name))
}

/// `t` is the template that the valid descriptor `doc` in folder `dir`
/// states, with its view path joined to `dir`.
#[verifier::opaque]
pub open spec fn template_loaded(t: Template, dir: Seq<char>, doc: Yaml) -> bool {
    match doc {
        Yaml::Mapping(es) => (lookup(es@, "view"@) matches Some(Yaml::Str(v)) && t.view@ == joined_view(dir, v@))
            && fields_read(t.fields@, section(es@, "fields"@).unwrap())
            && areas_read(t.areas@, section(es@, "areas"@).unwrap()),
        _ => false,
    }
}

/// The `k`-th template of `t` is one that one of the first `n` folders of
/// `sources` gives.
pub open spec fn template_from_sources(t: Theme, k: int, root: Seq<char>, sources: Seq<(String, String)>, n: int) -> bool {
    exists|i: int|
        0 <= i < n && relative_name(root, (#[trigger] sources[i]).0@) == Some(t.templates@[k].0@)
            && (yaml_parsed(sources[i].1@) matches Some(doc) && template_loaded(t.templates@[k].1, sources[i].0@, doc))
}

/// `t` is a theme that the first `n` folders of `sources` give below `root`.
pub open spec fn theme_of_prefix(t: Theme, root: Seq<char>, sources: Seq<(String, String)>, n: int) -> bool {
    &&& t.wf()
    &&& names_of(t) == source_names(root, sources, n)
    &&& forall|k: int| 0 <= k < t.templates@.len() ==> #[trigger] template_from_sources(t, k, root, sources, n)
}

/// `t` is a theme that `sources` give below `root`: it has exactly their
/// names, and each of its templates is one that a folder of that name states.
pub open spec fn theme_of_sources(t: Theme, root: Seq<char>, sources: Seq<(String, String)>) -> bool {
    theme_of_prefix(t, root, sources, sources.len() as int)
}

/// Adding the template of the `n`-th folder to a theme of the first `n`
/// folders gives a theme of the first `n + 1`.
proof fn lemma_insert_source(
    old_theme: Theme,
    theme: Theme,
    name: Seq<char>,
    template: Template,
    root: Seq<char>,
    sources: Seq<(String, String)>,
    n: int,
)
    requires
        0 <= n < sources.len(),
        theme_of_prefix(old_theme, root, sources, n),
        theme.wf(),
        relative_name(root, sources[n].0@) == Some(name),
        yaml_parsed(sources[n].1@) matches Some(doc) && template_loaded(template, sources[n].0@, doc),
        names_of(theme) == names_of(old_theme).insert(name),
        forall|k: int| 0 <= k < theme.templates@.len() ==> (#[trigger] theme.templates@[k]).0@ == name
            ==> theme.templates@[k].1 == template,
        forall|k: int| 0 <= k < theme.templates@.len() ==> (#[trigger] theme.templates@[k]).0@ != name
            ==> exists|m: int| 0 <= m < old_theme.templates@.len() && old_theme.templates@[m] == theme.templates@[k],
    ensures
        theme_of_prefix(theme, root, sources, n + 1),
{
    assert(names_of(theme) =~= source_names(root, sources, n + 1)) by {
        assert forall|x: Seq<char>| #[trigger] source_names(root, sources, n + 1).contains(x) implies names_of(theme).contains(x) by {
            let w = choose|w: int| 0 <= w < n + 1 && relative_name(root, (#[trigger] sources[w]).0@) == Some(x);
            if w < n {
                assert(source_names(root, sources, n).contains(x));
            }
        }
        assert forall|x: Seq<char>| names_of(theme).contains(x) implies #[trigger] source_names(root, sources, n + 1).contains(x) by {
            if x != name {
                assert(names_of(old_theme).contains(x));
                assert(source_names(root, sources, n).contains(x));
                let w = choose|w: int| 0 <= w < n && relative_name(root, (#[trigger] sources[w]).0@) == Some(x);
                assert(0 <= w < n + 1 && relative_name(root, sources[w].0@) == Some(x));
            } else {
                assert(relative_name(root, sources[n].0@) == Some(x));
            }
        }
    }
    assert forall|k: int| 0 <= k < theme.templates@.len() implies #[trigger] template_from_sources(theme, k, root, sources, n + 1) by {
        if theme.templates@[k].0@ == name {
            assert(theme.templates@[k].1 == template);
            assert(relative_name(root, sources[n].0@) == Some(theme.templates@[k].0@));
        } else {
            let m = choose|m: int| 0 <= m < old_theme.templates@.len() && old_theme.templates@[m] == theme.templates@[k];
            assert(template_from_sources(old_theme, m, root, sources, n));
            let w = choose|w: int|
                0 <= w < n && relative_name(root, (#[trigger] sources[w]).0@) == Some(old_theme.templates@[m].0@)
                    && (yaml_parsed(sources[w].1@) matches Some(doc) && template_loaded(old_theme.templates@[m].1, sources[w].0@, doc));
            assert(0 <= w < n + 1);
        }
    }
}

fn relative_name_of(root: &str, dir: &str) -> (r: Option<String>)
    ensures
        match r {
            Some(n) => relative_name(root@, dir@) == Some(n@),
            None => relative_name(root@, dir@) is None,
        },
{
    let rl = root.unicode_len();
    let dl = dir.unicode_len();
    if rl >= dl {
        return None;
    }
    let mut i: usize = 0;
    while i < rl
        invariant
            rl == root@.len(),
            dl == dir@.len(),
            rl < dl,
            i <= rl,
            forall|j: int| 0 <= j < i ==> dir@[j] == root@[j],
        decreases rl - i,
    {
        if root.get_char(i) != dir.get_char(i) {
            proof {
                assert(dir@.subrange(0, rl as int)[i as int] != root@[i as int]);
            }
            return None;
        }
        i = i + 1;
    }
    proof {
        assert(dir@.subrange(0, rl as int) =~= root@);
    }
    Some(dir.substring_char(rl, dl).to_owned())
}

fn join_view(dir: &str, view: &str) -> (r: String)
    ensures
        r@ == joined_view(dir@, view@),
{
    if view.unicode_len() > 0 && view.get_char(0) == '/' {
        view.to_owned()
    } else {
        let mut p = dir.to_owned();
        p.append("/");
        p.append(view);
        p
    }
}

impl Theme {
    /// Template names are unique, and so are the field and area names of
    /// each template.
    pub open spec fn wf(&self) -> bool {
        &&& keys_unique(self.templates@)
        &&& forall|k: int| 0 <= k < self.templates@.len() ==> (#[trigger] self.templates@[k]).1.wf()
    }

    /// The template named `name`, if the theme has one.
    pub open spec fn template(&self, name: Seq<char>) -> Option<Template> {
        match key_index(self.templates@, name) {
            Some(i) => Some(self.templates@[i].1),
            None => None,
        }
    }

    /// A theme with no templates.
    pub fn new() -> (r: Theme)
        ensures
            r.wf(),
            r.templates@.len() == 0,
    {
        Theme { templates: Vec::new() }
    }

    /// Adds `template` under `name`, replacing a template of that name.
    pub fn insert(&mut self, name: String, template: Template)
        requires
            old(self).wf(),
            template.wf(),
        ensures
            final(self).wf(),
            names_of(*final(self)) == names_of(*old(self)).insert(name@),
            forall|k: int| 0 <= k < final(self).templates@.len() ==> (#[trigger] final(self).templates@[k]).0@ == name@
                ==> final(self).templates@[k].1 == template,
            forall|k: int| 0 <= k < final(self).templates@.len() ==> (#[trigger] final(self).templates@[k]).0@ != name@
                ==> exists|m: int| 0 <= m < old(self).templates@.len() && old(self).templates@[m] == final(self).templates@[k],
    {
        let ghost t = template;
        upsert(&mut self.templates, name, template);
        proof {
            assert forall|k: int| 0 <= k < self.templates@.len() implies (#[trigger] self.templates@[k]).1.wf() by {
                if self.templates@[k].0@ == name@ {
                    assert(self.templates@[k].1 == t);
                } else {
                    let m = choose|m: int| 0 <= m < old(self).templates@.len() && old(self).templates@[m] == self.templates@[k];
                    assert(old(self).templates@[m].1.wf());
                }
            }
        }
    }

    /// Builds the theme of a root folder from its template folders: for each,
    /// the folder's path and the text of its schema descriptor. Fails on the
    /// first folder that does not load; no partial theme is returned.
    #[verifier::rlimit(40)]
    pub fn from_sources(root: &str, sources: &Vec<(String, String)>) -> (r: Result<Theme, ThemeError>)
        ensures
            r is Ok <==> forall|i: int| 0 <= i < sources@.len() ==> source_loads(root@, (#[trigger] sources@[i]).0@, sources@[i].1@),
            match r {
                Ok(t) => theme_of_sources(t, root@, sources@),
                Err(e) => exists|i: int| 0 <= i < sources@.len() && !source_loads(root@, (#[trigger] sources@[i]).0@, sources@[i].1@)
                    && (forall|j: int| 0 <= j < i ==> source_loads(root@, (#[trigger] sources@[j]).0@, sources@[j].1@))
                    && e == source_error(root@, sources@[i].0@),
            },
    {
        let mut theme = Theme::new();
        let mut i: usize = 0;
        proof {
            assert(names_of(theme) =~= source_names(root@, sources@, 0));
        }
        while i < sources.len()
            invariant
                i <= sources@.len(),
                theme_of_prefix(theme, root@, sources@, i as int),
                forall|j: int| 0 <= j < i ==> source_loads(root@, (#[trigger] sources@[j]).0@, sources@[j].1@),
            decreases sources@.len() - i,
        {
            let dir = &sources[i].0;
            let name = match relative_name_of(root, dir.as_str()) {
                Some(n) => n,
                None => return Err(ThemeError::RelativeName),
            };
            let parsed = match Template::parse(sources[i].1.as_str()) {
                Ok(t) => t,
                Err(e) => return Err(e),
            };
            let Template { view, fields, areas } = parsed;
            let template = Template { view: join_view(dir.as_str(), view.as_str()), fields, areas };
            let ghost old_theme = theme;
            let ghost doc = yaml_parsed(sources@[i as int].1@).unwrap();
            assert(template_loaded(template, sources@[i as int].0@, doc)) by {
                reveal(template_loaded);
            }
            theme.insert(name, template);
            proof {
                lemma_insert_source(old_theme, theme, name@, template, root@, sources@, i as int);
            }
            i = i + 1;
        }
        Ok(theme)
    }

    /// The fields of `m`, followed by each field that its template declares
    /// and that it lacks, with its type's zero value.
    fn completed_fields(&self, m: &Module) -> (fields: Vec<(String, FieldValue)>)
        ensures
            fields_filled(*self, *m, fields@),
    {
        let mut fields: Vec<(String, FieldValue)> = Vec::new();
        let n0 = m.fields.len();
        let mut k: usize = 0;
        while k < n0
            invariant
                n0 == m.fields@.len(),
                k <= n0,
                fields@ == m.fields@.subrange(0, k as int),
            decreases n0 - k,
        {
            fields.push((m.fields[k].0.clone(), m.fields[k].1.duplicate()));
            proof {
                assert(fields@ =~= m.fields@.subrange(0, k as int + 1));
            }
            k = k + 1;
        }
        proof {
            assert(fields@.subrange(0, n0 as int) =~= m.fields@);
        }
        match self.get_template(m.template.as_str()) {
            Some(t) => {
                let mut d: usize = 0;
                while d < t.fields.len()
                    invariant
                        self.template(m.template@) == Some(*t),
                        n0 == m.fields@.len(),
                        d <= t.fields@.len(),
                        n0 <= fields@.len(),
                        fields@.subrange(0, n0 as int) == m.fields@,
                        forall|k: int| n0 <= k < fields@.len() ==> !has_key(m.fields@, (#[trigger] fields@[k]).0@)
                            && exists|e: int| 0 <= e < t.fields@.len() && t.fields@[e].0@ == fields@[k].0@
                                && is_zero_of(fields@[k].1, t.fields@[e].1),
                        forall|e: int| 0 <= e < d ==> has_key(fields@, (#[trigger] t.fields@[e]).0@),
                    decreases t.fields@.len() - d,
                {
                    let ghost before = fields@;
                    if find_key(&fields, t.fields[d].0.as_str()).is_none() {
                        proof {
                            assert forall|w: int| 0 <= w < m.fields@.len() implies m.fields@[w].0@ != t.fields@[d as int].0@ by {
                                assert(before.subrange(0, n0 as int)[w] == m.fields@[w]);
                                assert(before[w].0@ != t.fields@[d as int].0@);
                            }
                        }
                        fields.push((t.fields[d].0.clone(), FieldValue::zero(&t.fields[d].1)));
                        proof {
                            assert(fields@.subrange(0, n0 as int) =~= before.subrange(0, n0 as int));
                            assert forall|e: int| 0 <= e < d + 1 implies has_key(fields@, (#[trigger] t.fields@[e]).0@) by {
                                if e < d {
                                    let w = choose|w: int| 0 <= w < before.len() && #[trigger] before[w].0@ == t.fields@[e].0@;
                                    assert(fields@[w] == before[w]);
                                } else {
                                    assert(fields@[before.len() as int].0@ == t.fields@[e].0@);
                                }
                            }
                            assert forall|k: int| n0 <= k < fields@.len() implies !has_key(m.fields@, (#[trigger] fields@[k]).0@)
                                && exists|e: int| 0 <= e < t.fields@.len() && t.fields@[e].0@ == fields@[k].0@
                                    && is_zero_of(fields@[k].1, t.fields@[e].1) by {
                                if k < before.len() {
                                    assert(fields@[k] == before[k]);
                                } else {
                                    assert(t.fields@[d as int].0@ == fields@[k].0@);
                                }
                            }
                        }
                    }
                    d = d + 1;
                }
                proof {
                    let tt = self.template(m.template@).unwrap();
                    assert(tt == *t);
                    assert forall|k: int| n0 <= k < fields@.len() implies !has_key(m.fields@, (#[trigger] fields@[k]).0@)
                        && exists|e: int| 0 <= e < tt.fields@.len() && tt.fields@[e].0@ == fields@[k].0@
                            && is_zero_of(fields@[k].1, tt.fields@[e].1) by {
                    }
                }
            },
            None => {
                assert(fields@.len() == n0);
            },
        }
        fields
    }

    /// `m`, with each field that its template (and that of every nested
    /// instance) declares and that it lacks added with its type's zero value.
    pub fn fill_defaults(&self, m: &Module) -> (r: Module)
        ensures
            defaults_filled(*self, *m, r),
        decreases m,
    {
        let fields = self.completed_fields(m);
        let mut filled: Vec<(String, Vec<Module>)> = Vec::new();
        let mut i: usize = 0;
        while i < m.areas.len()
            invariant
                i <= m.areas@.len(),
                filled@.len() == i,
                forall|a: int| 0 <= a < i ==> (#[trigger] filled@[a]).0 == m.areas@[a].0
                    && filled@[a].1@.len() == m.areas@[a].1@.len() && forall|j: int| 0 <= j < filled@[a].1@.len()
                        ==> defaults_filled(*self, m.areas@[a].1@[j], #[trigger] filled@[a].1@[j]),
            decreases m.areas@.len() - i,
        {
            let kids = &m.areas[i].1;
            let mut done: Vec<Module> = Vec::new();
            let mut j: usize = 0;
            while j < kids.len()
                invariant
                    i < m.areas@.len(),
                    kids == m.areas@[i as int].1,
                    j <= kids@.len(),
                    done@.len() == j,
                    forall|l: int| 0 <= l < j ==> defaults_filled(*self, kids@[l], #[trigger] done@[l]),
                decreases kids@.len() - j,
            {
                proof {
                    assert(decreases_to!(m => m.areas@[i as int].1@[j as int]));
                }
                done.push(self.fill_defaults(&kids[j]));
                j = j + 1;
            }
            filled.push((m.areas[i].0.clone(), done));
            i = i + 1;
        }
        let r = Module { template: m.template.clone(), fields, areas: filled };
        proof {
            assert(forall|i: int| 0 <= i < r.areas@.len() ==> (#[trigger] r.areas@[i]).0 == m.areas@[i].0
                && r.areas@[i].1@.len() == m.areas@[i].1@.len() && forall|j: int| 0 <= j < r.areas@[i].1@.len()
                    ==> defaults_filled(*self, m.areas@[i].1@[j], #[trigger] r.areas@[i].1@[j]));
        }
        r
    }

    /// The template named `name`, if the theme has one.
    pub fn get_template(&self, name: &str) -> (r: Option<&Template>)
        ensures
            match r {
                Some(t) => self.template(name@) == Some(*t),
                None => self.template(name@) is None,
            },
    {
        match find_key(&self.templates, name) {
            Some(i) => Some(&self.templates[i].1),
            None => None,
        }
    }

    /// A fresh instance of the template `template_name`: each declared field
    /// holds its type's zero value, and each declared area is empty.
    pub fn get_module_defaults(&self, template_name: &str) -> (r: Result<Module, ModelError>)
        ensures
            match self.template(template_name@) {
                None => r == Err::<Module, ModelError>(ModelError::TemplateNotFound),
                Some(t) => r matches Ok(m) && is_default_instance(m, t, template_name@),
            },
            self.wf() ==> (r matches Ok(m) ==> m.wf()),
    {
        let template = match self.get_template(template_name) {
            Some(t) => t,
            None => return Err(ModelError::TemplateNotFound),
        };
        let mut fields: Vec<(String, FieldValue)> = Vec::new();
        let mut i: usize = 0;
        while i < template.fields.len()
            invariant
                i <= template.fields@.len(),
                fields@.len() == i,
                forall|j: int| 0 <= j < i ==> (#[trigger] fields@[j]).0@ == template.fields@[j].0@
                    && is_zero_of(fields@[j].1, template.fields@[j].1),
            decreases template.fields@.len() - i,
        {
            fields.push((template.fields[i].0.clone(), FieldValue::zero(&template.fields[i].1)));
            i = i + 1;
        }
        let mut areas: Vec<(String, Vec<Module>)> = Vec::new();
        let mut i: usize = 0;
        while i < template.areas.len()
            invariant
                i <= template.areas@.len(),
                areas@.len() == i,
                forall|j: int| 0 <= j < i ==> (#[trigger] areas@[j]).0@ == template.areas@[j].0@
                    && areas@[j].1@.len() == 0,
            decreases template.areas@.len() - i,
        {
            areas.push((template.areas[i].0.clone(), Vec::new()));
            i = i + 1;
        }
        proof {
            if self.wf() {
                assert(key_index(self.templates@, template_name@) is Some);
                let k = key_index(self.templates@, template_name@)->Some_0;
                assert(self.templates@[k].1.wf());
                assert(keys_unique(fields@));
                assert(keys_unique(areas@));
            }
        }
        Ok(Module { template: template_name.to_owned(), fields, areas })
    }
}

/// `fields` are the fields of `before`, followed by each field that the
/// template of `before` declares and that `before` lacks, with its type's
/// zero value.
pub open spec fn fields_filled(theme: Theme, before: Module, fields: Seq<(String, FieldValue)>) -> bool {
    &&& before.fields@.len() <= fields.len()
    &&& fields.subrange(0, before.fields@.len() as int) == before.fields@
    &&& forall|k: int| before.fields@.len() <= k < fields.len() ==> !has_key(before.fields@, (#[trigger] fields[k]).0@)
        && (theme.template(before.template@) matches Some(t) && exists|d: int| 0 <= d < t.fields@.len()
            && t.fields@[d].0@ == fields[k].0@ && is_zero_of(fields[k].1, t.fields@[d].1))
    &&& theme.template(before.template@) matches Some(t) ==> forall|d: int| 0 <= d < t.fields@.len()
        ==> has_key(fields, (#[trigger] t.fields@[d]).0@)
}

/// `after` is `before` with, in it and in every nested instance, each
/// field that the instance's template declares and that the instance lacks
/// added after its own fields with its type's zero value.
pub open spec fn defaults_filled(theme: Theme, before: Module, after: Module) -> bool
    decreases before,
{
    &&& after.template == before.template
    &&& fields_filled(theme, before, after.fields@)
    &&& after.areas@.len() == before.areas@.len()
    &&& forall|i: int| 0 <= i < after.areas@.len() ==> (#[trigger] after.areas@[i]).0 == before.areas@[i].0
        && after.areas@[i].1@.len() == before.areas@[i].1@.len() && forall|j: int| 0 <= j < after.areas@[i].1@.len()
            ==> defaults_filled(theme, before.areas@[i].1@[j], #[trigger] after.areas@[i].1@[j])
}

/// `m` is the default instance of template `t` named `name`: as many fields
/// as `t` declares, each holding its type's zero value, and an empty list for
/// each area that `t` declares.
pub open spec fn is_default_instance(m: Module, t: Template, name: Seq<char>) -> bool {
    &&& m.template@ == name
    &&& m.fields@.len() == t.fields@.len()
    &&& forall|i: int| 0 <= i < t.fields@.len() ==> (#[trigger] m.fields@[i]).0@ == t.fields@[i].0@
        && is_zero_of(m.fields@[i].1, t.fields@[i].1)
    &&& m.areas@.len() == t.areas@.len()
    &&& forall|i: int| 0 <= i < t.areas@.len() ==> (#[trigger] m.areas@[i]).0@ == t.areas@[i].0@
        && m.areas@[i].1@.len() == 0
}

/// Loading a theme twice from the same folders gives the same set of
/// template names.
pub proof fn lemma_theme_names_stable(
    root: Seq<char>,
    sources: Seq<(String, String)>,
    first: Theme,
    second: Theme,
)
    requires
        theme_of_sources(first, root, sources),
        theme_of_sources(second, root, sources),
    ensures
        names_of(first) == names_of(second),
{
}

} // verus!
