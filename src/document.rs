use vstd::prelude::*;
use crate::model::{FieldValue, ModelError, Module};
use crate::store::{Page, PageRecord};
use crate::yaml::{Yaml, is_key};

verus! {

/// `y` is the document of the field value `v`.
pub open spec fn field_doc(v: FieldValue, y: Yaml) -> bool {
    match v {
        FieldValue::String(s) => is_key(y, s@),
        FieldValue::Number(n) => y == Yaml::Int(n),
        FieldValue::Boolean(b) => y == Yaml::Bool(b),
    }
}

/// `doc` is the document of the page instance `m`: a mapping of `template`
/// to its template's name, `fields` to a mapping of each field to its value,
/// and `areas` to a mapping of each area to the list of its children's
/// documents, all in the instance's order.
pub open spec fn is_module_doc(m: Module, doc: Yaml) -> bool
    decreases m,
{
    match doc {
        Yaml::Mapping(es) => {
            &&& es@.len() == 3
            &&& is_key(es@[0].0, "template"@) && is_key(es@[0].1, m.template@)
            &&& is_key(es@[1].0, "fields"@)
            &&& (es@[1].1 matches Yaml::Mapping(fs) && fs@.len() == m.fields@.len() && forall|i: int|
                0 <= i < fs@.len() ==> is_key((#[trigger] fs@[i]).0, m.fields@[i].0@) && field_doc(m.fields@[i].1, fs@[i].1))
            &&& is_key(es@[2].0, "areas"@)
            &&& (es@[2].1 matches Yaml::Mapping(as_) && as_@.len() == m.areas@.len() && forall|i: int|
                0 <= i < as_@.len() ==> is_key((#[trigger] as_@[i]).0, m.areas@[i].0@) && (as_@[i].1 matches Yaml::List(ds)
                    && ds@.len() == m.areas@[i].1@.len() && forall|j: int|
                    0 <= j < ds@.len() ==> is_module_doc(m.areas@[i].1@[j], #[trigger] ds@[j])))
        },
        _ => false,
    }
}

fn str_node(s: &String) -> (r: Yaml)
    ensures
        is_key(r, s@),
{
    Yaml::Str(s.clone())
}

fn field_node(v: &FieldValue) -> (r: Yaml)
    ensures
        field_doc(*v, r),
{
    match v {
        FieldValue::String(s) => Yaml::Str(s.clone()),
        FieldValue::Number(n) => Yaml::Int(*n),
        FieldValue::Boolean(b) => Yaml::Bool(*b),
    }
}

fn key_node(k: &str) -> (r: Yaml)
    ensures
        is_key(r, k@),
{
    Yaml::Str(k.to_owned())
}

/// The document of the page instance `m`.
pub fn module_document(m: &Module) -> (r: Yaml)
    ensures
        is_module_doc(*m, r),
    decreases m,
{
    let mut fields: Vec<(Yaml, Yaml)> = Vec::new();
    let mut i: usize = 0;
    while i < m.fields.len()
        invariant
            i <= m.fields@.len(),
            fields@.len() == i,
            forall|k: int| 0 <= k < i ==> is_key((#[trigger] fields@[k]).0, m.fields@[k].0@) && field_doc(m.fields@[k].1, fields@[k].1),
        decreases m.fields@.len() - i,
    {
        fields.push((str_node(&m.fields[i].0), field_node(&m.fields[i].1)));
        i = i + 1;
    }
    let mut areas: Vec<(Yaml, Yaml)> = Vec::new();
    let mut i: usize = 0;
    while i < m.areas.len()
        invariant
            i <= m.areas@.len(),
            areas@.len() == i,
            forall|k: int| 0 <= k < i ==> is_key((#[trigger] areas@[k]).0, m.areas@[k].0@) && (areas@[k].1 matches Yaml::List(ds)
                && ds@.len() == m.areas@[k].1@.len() && forall|j: int|
                0 <= j < ds@.len() ==> is_module_doc(m.areas@[k].1@[j], #[trigger] ds@[j])),
        decreases m.areas@.len() - i,
    {
        let children = &m.areas[i].1;
        let mut docs: Vec<Yaml> = Vec::new();
        let mut j: usize = 0;
        while j < children.len()
            invariant
                j <= children@.len(),
                children == m.areas@[i as int].1,
                i < m.areas@.len(),
                docs@.len() == j,
                forall|l: int| 0 <= l < j ==> is_module_doc(children@[l], #[trigger] docs@[l]),
            decreases children@.len() - j,
        {
            proof {
                assert(decreases_to!(m => m.areas@[i as int].1@[j as int]));
            }
            docs.push(module_document(&children[j]));
            j = j + 1;
        }
        areas.push((str_node(&m.areas[i].0), Yaml::List(docs)));
        i = i + 1;
    }
    let mut entries: Vec<(Yaml, Yaml)> = Vec::new();
    entries.push((key_node("template"), str_node(&m.template)));
    entries.push((key_node("fields"), Yaml::Mapping(fields)));
    entries.push((key_node("areas"), Yaml::Mapping(areas)));
    let r = Yaml::Mapping(entries);
    r
}

/// `recs` without the record at `skip`, where `skip` is one of its positions.
pub open spec fn records_except(recs: Seq<PageRecord>, skip: int) -> Seq<PageRecord> {
    if 0 <= skip < recs.len() {
        recs.remove(skip)
    } else {
        recs
    }
}

/// The ids and names of `recs`, in order.
pub open spec fn record_entries(recs: Seq<PageRecord>) -> Seq<(Seq<char>, Seq<char>)> {
    recs.map_values(|r: PageRecord| (r.id@, r.name@))
}

/// The ids and names of `pages`, in order.
pub open spec fn page_entries(pages: Seq<Page>) -> Seq<(Seq<char>, Seq<char>)> {
    pages.map_values(|p: Page| (p.id@, p.name@))
}

/// `doc` is the index document of a store in `folder` whose pages have the
/// ids and names `entries`: a mapping of `folder` to the folder and `pages`
/// to a mapping of each id to its name, in order.
pub open spec fn is_index_doc(folder: Seq<char>, entries: Seq<(Seq<char>, Seq<char>)>, doc: Yaml) -> bool {
    match doc {
        Yaml::Mapping(es) => {
            &&& es@.len() == 2
            &&& is_key(es@[0].0, "folder"@) && is_key(es@[0].1, folder)
            &&& is_key(es@[1].0, "pages"@)
            &&& (es@[1].1 matches Yaml::Mapping(ps) && ps@.len() == entries.len() && forall|i: int|
                0 <= i < ps@.len() ==> is_key((#[trigger] ps@[i]).0, entries[i].0) && is_key(ps@[i].1, entries[i].1))
        },
        _ => false,
    }
}

/// The index document of `recs` in `folder`, leaving out the record at
/// `skip`.
pub fn index_document(folder: &String, recs: &Vec<PageRecord>, skip: usize) -> (r: Yaml)
    ensures
        is_index_doc(folder@, record_entries(records_except(recs@, skip as int)), r),
{
    let ghost kept = records_except(recs@, skip as int);
    let mut pages: Vec<(Yaml, Yaml)> = Vec::new();
    let mut i: usize = 0;
    while i < recs.len()
        invariant
            i <= recs@.len(),
            kept == records_except(recs@, skip as int),
            pages@.len() == if skip < i { i - 1 } else { i as int },
            forall|k: int| 0 <= k < pages@.len() ==> is_key((#[trigger] pages@[k]).0, kept[k].id@) && is_key(pages@[k].1, kept[k].name@),
        decreases recs@.len() - i,
    {
        if i != skip {
            pages.push((str_node(&recs[i].id), str_node(&recs[i].name)));
        }
        i = i + 1;
    }
    let mut entries: Vec<(Yaml, Yaml)> = Vec::new();
    entries.push((key_node("folder"), str_node(folder)));
    entries.push((key_node("pages"), Yaml::Mapping(pages)));
    Yaml::Mapping(entries)
}

impl FieldValue {
    /// The field value that a YAML node holds: a string, an integer or a
    /// boolean; any other node is an `InvalidValue`.
    pub fn from_yaml(y: &Yaml) -> (r: Result<FieldValue, ModelError>)
        ensures
            match r {
                Ok(v) => field_doc(v, *y),
                Err(e) => e == ModelError::InvalidValue && forall|v: FieldValue| !field_doc(v, *y),
            },
    {
        match y {
            Yaml::Str(s) => Ok(FieldValue::String(s.clone())),
            Yaml::Int(n) => Ok(FieldValue::Number(*n)),
            Yaml::Bool(b) => Ok(FieldValue::Boolean(*b)),
            _ => Err(ModelError::InvalidValue),
        }
    }
}

fn field_from_doc(y: &Yaml) -> (r: Option<FieldValue>)
    ensures
        match r {
            Some(v) => field_doc(v, *y),
            None => forall|v: FieldValue| !field_doc(v, *y),
        },
{
    match FieldValue::from_yaml(y) {
        Ok(v) => Some(v),
        Err(_) => None,
    }
}

fn key_is(y: &Yaml, k: &str) -> (r: bool)
    ensures
        r == is_key(*y, k@),
{
    match y {
        Yaml::Str(s) => *s == k.to_owned(),
        _ => false,
    }
}

fn read_fields(fs: &Vec<(Yaml, Yaml)>) -> (r: Option<Vec<(String, FieldValue)>>)
    ensures
        match r {
            Some(out) => out@.len() == fs@.len() && forall|i: int| 0 <= i < fs@.len() ==>
                is_key((#[trigger] fs@[i]).0, out@[i].0@) && field_doc(out@[i].1, fs@[i].1),
            None => exists|i: int| 0 <= i < fs@.len() && (!((#[trigger] fs@[i]).0 is Str) || forall|v: FieldValue| !field_doc(v, fs@[i].1)),
        },
{
    let mut out: Vec<(String, FieldValue)> = Vec::new();
    let mut i: usize = 0;
    while i < fs.len()
        invariant
            i <= fs@.len(),
            out@.len() == i,
            forall|k: int| 0 <= k < i ==> is_key((#[trigger] fs@[k]).0, out@[k].0@) && field_doc(out@[k].1, fs@[k].1),
        decreases fs@.len() - i,
    {
        let name = match &fs[i].0 {
            Yaml::Str(s) => s.clone(),
            _ => return None,
        };
        let value = match field_from_doc(&fs[i].1) {
            Some(v) => v,
            None => return None,
        };
        out.push((name, value));
        i = i + 1;
    }
    Some(out)
}

/// Reads a page instance back from its document.
pub fn module_from_document(doc: &Yaml) -> (r: Option<Module>)
    ensures
        match r {
            Some(m) => is_module_doc(m, *doc),
            None => forall|m: Module| !is_module_doc(m, *doc),
        },
    decreases doc,
{
    let es = match doc {
        Yaml::Mapping(es) => es,
        _ => return None,
    };
    if es.len() != 3 || !key_is(&es[0].0, "template") || !key_is(&es[1].0, "fields") || !key_is(&es[2].0, "areas") {
        return None;
    }
    let template = match &es[0].1 {
        Yaml::Str(s) => s.clone(),
        _ => return None,
    };
    let fields = match &es[1].1 {
        Yaml::Mapping(fs) => match read_fields(fs) {
            Some(f) => f,
            None => {
                proof {
                    assert forall|m: Module| !is_module_doc(m, *doc) by {
                        if is_module_doc(m, *doc) {
                            let k = choose|k: int| 0 <= k < fs@.len() && (!((#[trigger] fs@[k]).0 is Str) || forall|v: FieldValue| !field_doc(v, fs@[k].1));
                            assert(is_key(fs@[k].0, m.fields@[k].0@) && field_doc(m.fields@[k].1, fs@[k].1));
                        }
                    }
                }
                return None;
            },
        },
        _ => return None,
    };
    let as_ = match &es[2].1 {
        Yaml::Mapping(a) => a,
        _ => return None,
    };
    let mut areas: Vec<(String, Vec<Module>)> = Vec::new();
    let mut i: usize = 0;
    while i < as_.len()
        invariant
            es@.len() == 3,
            es@[2].1 == Yaml::Mapping(*as_),
            *doc == Yaml::Mapping(*es),
            i <= as_@.len(),
            areas@.len() == i,
            forall|k: int| 0 <= k < i ==> is_key((#[trigger] as_@[k]).0, areas@[k].0@) && (as_@[k].1 matches Yaml::List(ds)
                && ds@.len() == areas@[k].1@.len() && forall|j: int|
                0 <= j < ds@.len() ==> is_module_doc(areas@[k].1@[j], #[trigger] ds@[j])),
        decreases as_@.len() - i,
    {
        let name = match &as_[i].0 {
            Yaml::Str(s) => s.clone(),
            _ => return None,
        };
        let ds = match &as_[i].1 {
            Yaml::List(ds) => ds,
            _ => return None,
        };
        let mut children: Vec<Module> = Vec::new();
        let mut j: usize = 0;
        while j < ds.len()
            invariant
                es@.len() == 3,
                es@[2].1 == Yaml::Mapping(*as_),
                *doc == Yaml::Mapping(*es),
                i < as_@.len(),
                as_@[i as int].1 == Yaml::List(*ds),
                j <= ds@.len(),
                children@.len() == j,
                forall|l: int| 0 <= l < j ==> is_module_doc(children@[l], #[trigger] ds@[l]),
            decreases ds@.len() - j,
        {
            proof {
                assert(decreases_to!(*doc => (*doc)->Mapping_0));
                assert((*doc)->Mapping_0 == *es);
                assert(decreases_to!(*es => es@[2]));
                assert(decreases_to!(es@[2] => es@[2].1));
                assert(decreases_to!(es@[2].1 => es@[2].1->Mapping_0));
                assert(decreases_to!(*as_ => as_@[i as int]));
                assert(decreases_to!(as_@[i as int] => as_@[i as int].1));
                assert(decreases_to!(as_@[i as int].1 => as_@[i as int].1->List_0));
                assert(decreases_to!(*ds => ds@[j as int]));
                assert(decreases_to!(*doc => ds@[j as int]));
            }
            match module_from_document(&ds[j]) {
                Some(c) => children.push(c),
                None => {
                    proof {
                        assert forall|m: Module| !is_module_doc(m, *doc) by {
                            if is_module_doc(m, *doc) {
                                assert(is_module_doc(m.areas@[i as int].1@[j as int], ds@[j as int]));
                            }
                        }
                    }
                    return None;
                },
            }
            j = j + 1;
        }
        areas.push((name, children));
        i = i + 1;
    }
    Some(Module { template, fields, areas })
}

/// `a` and `b` are the same field value.
pub open spec fn same_value(a: FieldValue, b: FieldValue) -> bool {
    match (a, b) {
        (FieldValue::String(x), FieldValue::String(y)) => x@ == y@,
        (FieldValue::Number(x), FieldValue::Number(y)) => x == y,
        (FieldValue::Boolean(x), FieldValue::Boolean(y)) => x == y,
        _ => false,
    }
}

/// `a` and `b` are the same page instance: the same template, the same
/// fields with the same values, and the same areas holding the same children,
/// all in the same order.
pub open spec fn same_module(a: Module, b: Module) -> bool
    decreases a,
{
    &&& a.template@ == b.template@
    &&& a.fields@.len() == b.fields@.len()
    &&& forall|i: int| 0 <= i < a.fields@.len() ==> (#[trigger] a.fields@[i]).0@ == b.fields@[i].0@
        && same_value(a.fields@[i].1, b.fields@[i].1)
    &&& a.areas@.len() == b.areas@.len()
    &&& forall|i: int| 0 <= i < a.areas@.len() ==> (#[trigger] a.areas@[i]).0@ == b.areas@[i].0@
        && a.areas@[i].1@.len() == b.areas@[i].1@.len() && forall|j: int|
        0 <= j < a.areas@[i].1@.len() ==> same_module(#[trigger] a.areas@[i].1@[j], b.areas@[i].1@[j])
}

/// A page instance's document determines it: the instance read back from
/// the document written for a page instance is that same instance.
pub proof fn lemma_document_round_trip(m: Module, doc: Yaml, back: Module)
    requires
        is_module_doc(m, doc),
        is_module_doc(back, doc),
    ensures
        same_module(m, back),
    decreases m,
{
    let es = doc->Mapping_0;
    let fs = es@[1].1->Mapping_0;
    let as_ = es@[2].1->Mapping_0;
    assert forall|i: int| 0 <= i < m.fields@.len() implies (#[trigger] m.fields@[i]).0@ == back.fields@[i].0@
        && same_value(m.fields@[i].1, back.fields@[i].1) by {
        assert(is_key(fs@[i].0, m.fields@[i].0@) && field_doc(m.fields@[i].1, fs@[i].1));
        assert(is_key(fs@[i].0, back.fields@[i].0@) && field_doc(back.fields@[i].1, fs@[i].1));
    }
    assert forall|i: int| 0 <= i < m.areas@.len() implies (#[trigger] m.areas@[i]).0@ == back.areas@[i].0@
        && m.areas@[i].1@.len() == back.areas@[i].1@.len() && forall|j: int|
        0 <= j < m.areas@[i].1@.len() ==> same_module(#[trigger] m.areas@[i].1@[j], back.areas@[i].1@[j]) by {
        assert(is_key(as_@[i].0, m.areas@[i].0@));
        assert(is_key(as_@[i].0, back.areas@[i].0@));
        let ds = as_@[i].1->List_0;
        assert forall|j: int| 0 <= j < m.areas@[i].1@.len() implies same_module(#[trigger] m.areas@[i].1@[j], back.areas@[i].1@[j]) by {
            assert(is_module_doc(m.areas@[i].1@[j], ds@[j]));
            assert(is_module_doc(back.areas@[i].1@[j], ds@[j]));
            assert(decreases_to!(m => m.areas@[i].1@[j])) by {
                assert(decreases_to!(m => m.areas));
                assert(decreases_to!(m.areas => m.areas@[i]));
                assert(decreases_to!(m.areas@[i] => m.areas@[i].1));
                assert(decreases_to!(m.areas@[i].1 => m.areas@[i].1@[j]));
            }
            lemma_document_round_trip(m.areas@[i].1@[j], ds@[j], back.areas@[i].1@[j]);
        }
    }
}

/// Reads the folder and the ids and names of the pages from an index
/// document.
pub fn index_from_document(doc: &Yaml) -> (r: Option<(String, Vec<Page>)>)
    ensures
        match r {
            Some(found) => is_index_doc(found.0@, page_entries(found.1@), *doc),
            None => forall|f: Seq<char>, e: Seq<(Seq<char>, Seq<char>)>| !is_index_doc(f, e, *doc),
        },
{
    let es = match doc {
        Yaml::Mapping(es) => es,
        _ => return None,
    };
    if es.len() != 2 || !key_is(&es[0].0, "folder") || !key_is(&es[1].0, "pages") {
        return None;
    }
    let folder = match &es[0].1 {
        Yaml::Str(s) => s.clone(),
        _ => return None,
    };
    let ps = match &es[1].1 {
        Yaml::Mapping(ps) => ps,
        _ => return None,
    };
    let mut pages: Vec<Page> = Vec::new();
    let mut i: usize = 0;
    while i < ps.len()
        invariant
            i <= ps@.len(),
            pages@.len() == i,
            es@.len() == 2,
            es@[1].1 == Yaml::Mapping(*ps),
            *doc == Yaml::Mapping(*es),
            forall|k: int| 0 <= k < i ==> is_key((#[trigger] ps@[k]).0, pages@[k].id@) && is_key(ps@[k].1, pages@[k].name@),
        decreases ps@.len() - i,
    {
        let (id, name) = match (&ps[i].0, &ps[i].1) {
            (Yaml::Str(id), Yaml::Str(name)) => (id.clone(), name.clone()),
            _ => {
                proof {
                    assert forall|f: Seq<char>, e: Seq<(Seq<char>, Seq<char>)>| !is_index_doc(f, e, *doc) by {
                        if is_index_doc(f, e, *doc) {
                            assert(is_key(ps@[i as int].0, e[i as int].0) && is_key(ps@[i as int].1, e[i as int].1));
                        }
                    }
                }
                return None;
            },
        };
        pages.push(Page { id, name });
        i = i + 1;
    }
    Some((folder, pages))
}

} // verus!
