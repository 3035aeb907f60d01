use vstd::prelude::*;
use rand::Rng;
use crate::model::Module;
use crate::theme::{Theme, defaults_filled};
use crate::document::{index_document, module_document, module_from_document, index_from_document, is_module_doc, is_index_doc, page_entries};
use crate::yaml::{emit_yaml, parse_yaml, yaml_parsed};

verus! {

/// The id and name of a stored page.
#[derive(Debug)]
pub struct Page {
    pub id: String,
    pub name: String,
}

/// A stored page: its id, its unique name, and its instance.
#[derive(Debug)]
pub struct PageRecord {
    pub id: String,
    pub name: String,
    pub module: Module,
}

/// Why a store operation failed.
#[derive(Debug, Clone, Copy, PartialEq, Eq, Structural)]
pub enum StoreError {
    /// No page has the requested name or id.
    PageNotFound,
    /// A page of that name is already stored.
    DuplicatedName,
    /// A stored page or the index could not be read back.
    LoadError,
    /// A page file or the index could not be written.
    PersistError,
    /// A page file could not be removed.
    IoError,
    /// The id generator gave no id that is not in use.
    IdUnavailable,
}

/// A source of page ids.
pub trait IdGenerator {
    fn generate_id(&mut self) -> String;
}

/// The place where a store keeps its files.
pub trait Storage {
    /// Writes `text` to the file at `path`, replacing what it held.
    fn write_file(&mut self, path: &str, text: &str) -> Result<(), String>;

    /// Removes the file at `path`.
    fn remove_file(&mut self, path: &str) -> Result<(), String>;
}

/// The number of characters of a random id.
pub const ID_LENGTH: usize = 30;

/// How many ids a store draws before it gives up on finding one not in use.
pub const ID_ATTEMPTS: u32 = 16;

/// `c` is an ASCII letter or digit.
pub open spec fn is_alphanumeric(c: char) -> bool {
    ('a' <= c && c <= 'z') || ('A' <= c && c <= 'Z') || ('0' <= c && c <= '9')
}

/// Relies on rand's `Alphanumeric` distribution over the thread's generator:
/// each character is an ASCII letter or digit.
#[verifier::external_body]
fn random_alphanumeric(len: usize) -> (r: String)
    ensures
        r@.len() == len,
        forall|i: int| 0 <= i < r@.len() ==> is_alphanumeric(#[trigger] r@[i]),
{
    rand::thread_rng().sample_iter(&rand::distributions::Alphanumeric).take(len).map(char::from).collect()
}

/// A random id: `ID_LENGTH` ASCII letters and digits.
pub fn random_id() -> (r: String)
    ensures
        r@.len() == ID_LENGTH,
        forall|i: int| 0 <= i < r@.len() ==> is_alphanumeric(#[trigger] r@[i]),
{
    random_alphanumeric(ID_LENGTH)
}

/// Draws ids with `random_id`.
#[derive(Debug, Default)]
pub struct Random {}

impl IdGenerator for Random {
    fn generate_id(&mut self) -> String {
        random_id()
    }
}

/// Some record of `recs` has the id `id`.
pub open spec fn has_id(recs: Seq<PageRecord>, id: Seq<char>) -> bool {
    exists|i: int| 0 <= i < recs.len() && (#[trigger] recs[i]).id@ == id
}

/// Some record of `recs` has the name `name`.
pub open spec fn has_name(recs: Seq<PageRecord>, name: Seq<char>) -> bool {
    exists|i: int| 0 <= i < recs.len() && (#[trigger] recs[i]).name@ == name
}

/// No two records share an id, and no two share a name.
pub open spec fn records_wf(recs: Seq<PageRecord>) -> bool {
    forall|i: int, j: int|
        0 <= i < recs.len() && 0 <= j < recs.len() && i != j ==> (#[trigger] recs[i]).id@ != (#[trigger] recs[j]).id@
            && recs[i].name@ != recs[j].name@
}

/// The path of the file of page `id` in `folder`.
pub open spec fn page_path(folder: Seq<char>, id: Seq<char>) -> Seq<char> {
    folder + "/"@ + id + ".yml"@
}

/// `recs` with the record at `i` taken out.
pub open spec fn without(recs: Seq<PageRecord>, i: int) -> Seq<PageRecord> {
    recs.remove(i)
}

/// What creating a page named `name` with instance `module` does to the
/// records `before`, leaving `after`, where it returns `r`: a name in use,
/// and only that, gives `DuplicatedName`; any failure leaves the records as they were; a
/// success appends a record of a fresh id with that name and instance.
pub open spec fn create_outcome(
    before: Seq<PageRecord>,
    after: Seq<PageRecord>,
    name: Seq<char>,
    module: Module,
    r: Result<String, StoreError>,
) -> bool {
    &&& has_name(before, name) <==> r == Err::<String, StoreError>(StoreError::DuplicatedName)
    &&& r matches Err(e) ==> after == before && (e == StoreError::DuplicatedName || e == StoreError::IdUnavailable
        || e == StoreError::PersistError)
    &&& r matches Ok(id) ==> {
        &&& !has_name(before, name)
        &&& !has_id(before, id@)
        &&& after.len() == before.len() + 1
        &&& after.drop_last() == before
        &&& after.last().id == id
        &&& after.last().name@ == name
        &&& after.last().module == module
    }
}

/// What deleting the page `id` does to the records `before`, leaving
/// `after`, where it returns `r`: an unknown id, and only that, gives
/// `PageNotFound`; any
/// failure leaves the records as they were; a success takes out the record
/// of that id and returns its instance.
pub open spec fn delete_outcome(
    before: Seq<PageRecord>,
    after: Seq<PageRecord>,
    id: Seq<char>,
    r: Result<Module, StoreError>,
) -> bool {
    &&& !has_id(before, id) <==> r == Err::<Module, StoreError>(StoreError::PageNotFound)
    &&& r matches Err(e) ==> after == before && (e == StoreError::PageNotFound || e == StoreError::PersistError
        || e == StoreError::IoError)
    &&& r matches Ok(m) ==> exists|i: int| 0 <= i < before.len() && (#[trigger] before[i]).id@ == id
        && before[i].module == m && after == without(before, i)
}

/// Creating a page under a name, then creating another under the same name,
/// fails the second time with `DuplicatedName` and changes nothing.
pub proof fn lemma_create_twice_is_duplicate(
    s0: Seq<PageRecord>,
    s1: Seq<PageRecord>,
    s2: Seq<PageRecord>,
    name: Seq<char>,
    first: Module,
    second: Module,
    r1: Result<String, StoreError>,
    r2: Result<String, StoreError>,
)
    requires
        create_outcome(s0, s1, name, first, r1),
        r1 is Ok,
        create_outcome(s1, s2, name, second, r2),
    ensures
        r2 == Err::<String, StoreError>(StoreError::DuplicatedName),
        s2 == s1,
{
    assert(s1[s1.len() - 1].name@ == name);
}

/// Creating a page and then deleting it by the id it was given returns the
/// instance it was created with, and leaves the records as they were before.
pub proof fn lemma_create_delete_round_trip(
    s0: Seq<PageRecord>,
    s1: Seq<PageRecord>,
    s2: Seq<PageRecord>,
    name: Seq<char>,
    module: Module,
    id: String,
    deleted: Module,
)
    requires
        records_wf(s1),
        create_outcome(s0, s1, name, module, Ok(id)),
        delete_outcome(s1, s2, id@, Ok(deleted)),
    ensures
        deleted == module,
        s2 == s0,
{
    let i = choose|i: int| 0 <= i < s1.len() && (#[trigger] s1[i]).id@ == id@ && s1[i].module == deleted
        && s2 == without(s1, i);
    let last = s1.len() - 1;
    assert(s1[last].id@ == id@);
    if i != last {
        assert(s1[i].id@ != s1[last].id@);
    }
    assert(without(s1, last) =~= s1.drop_last());
}

/// The text of a page file holds the document of some page instance.
pub open spec fn body_loads(text: Seq<char>) -> bool {
    yaml_parsed(text) matches Some(doc) && exists|m: Module| is_module_doc(m, doc)
}

/// No two of `entries` share an id, and no two share a name.
pub open spec fn entries_unique(entries: Seq<(Seq<char>, Seq<char>)>) -> bool {
    forall|i: int, j: int|
        0 <= i < entries.len() && 0 <= j < entries.len() && i != j ==> (#[trigger] entries[i]).0 != (#[trigger] entries[j]).0
            && entries[i].1 != entries[j].1
}

/// Pages stored as YAML files in one folder, with an index of their ids and
/// names that is written to the same folder on every change.
#[derive(Debug)]
pub struct YamlStorage {
    folder: String,
    records: Vec<PageRecord>,
}

fn page_path_of(folder: &String, id: &str) -> (r: String)
    ensures
        r@ == page_path(folder@, id@),
{
    let mut p = folder.clone();
    p.append("/");
    p.append(id);
    p.append(".yml");
    p
}

impl YamlStorage {
    /// The stored records, in the order they were stored.
    pub closed spec fn records(&self) -> Seq<PageRecord> {
        self.records@
    }

    /// The folder that holds the page files and the index.
    pub closed spec fn folder(&self) -> Seq<char> {
        self.folder@
    }

    /// Ids are unique, and names are unique.
    pub open spec fn wf(&self) -> bool {
        records_wf(self.records())
    }

    /// An empty store over `folder`.
    pub fn new(folder: String) -> (r: YamlStorage)
        ensures
            r.wf(),
            r.records().len() == 0,
            r.folder() == folder@,
    {
        YamlStorage { folder, records: Vec::new() }
    }

    /// The path of the index file.
    pub fn index_file(&self) -> (r: String)
        ensures
            r@ == self.folder() + "/index.yaml"@,
    {
        let mut p = self.folder.clone();
        p.append("/index.yaml");
        p
    }

    /// The path of the file of page `id`.
    pub fn get_file(&self, id: &str) -> (r: String)
        ensures
            r@ == page_path(self.folder(), id@),
    {
        page_path_of(&self.folder, id)
    }

    /// The id and name of every stored page, in the order they were stored.
    pub fn summary(&self) -> (r: Vec<Page>)
        ensures
            r@.len() == self.records().len(),
            forall|i: int| 0 <= i < r@.len() ==> (#[trigger] r@[i]).id@ == self.records()[i].id@
                && r@[i].name@ == self.records()[i].name@,
    {
        let mut pages: Vec<Page> = Vec::new();
        let mut i: usize = 0;
        while i < self.records.len()
            invariant
                i <= self.records@.len(),
                pages@.len() == i,
                forall|j: int| 0 <= j < i ==> (#[trigger] pages@[j]).id@ == self.records@[j].id@
                    && pages@[j].name@ == self.records@[j].name@,
            decreases self.records@.len() - i,
        {
            pages.push(Page { id: self.records[i].id.clone(), name: self.records[i].name.clone() });
            i = i + 1;
        }
        pages
    }

    /// Whether a page has the id `id`.
    pub fn page_exists(&self, id: &str) -> (r: bool)
        ensures
            r == has_id(self.records(), id@),
    {
        self.find_id(id).is_some()
    }

    /// Whether a page has the name `name`.
    pub fn contains_name(&self, name: &str) -> (r: bool)
        ensures
            r == has_name(self.records(), name@),
    {
        self.find_name(name).is_some()
    }

    fn find_id(&self, id: &str) -> (r: Option<usize>)
        ensures
            match r {
                Some(i) => i < self.records().len() && self.records()[i as int].id@ == id@,
                None => !has_id(self.records(), id@),
            },
    {
        let wanted = id.to_owned();
        let mut i: usize = 0;
        while i < self.records.len()
            invariant
                i <= self.records@.len(),
                wanted@ == id@,
                forall|j: int| 0 <= j < i ==> (#[trigger] self.records@[j]).id@ != id@,
            decreases self.records@.len() - i,
        {
            if self.records[i].id == wanted {
                return Some(i);
            }
            i = i + 1;
        }
        None
    }

    fn find_name(&self, name: &str) -> (r: Option<usize>)
        ensures
            match r {
                Some(i) => i < self.records().len() && self.records()[i as int].name@ == name@,
                None => !has_name(self.records(), name@),
            },
    {
        let wanted = name.to_owned();
        let mut i: usize = 0;
        while i < self.records.len()
            invariant
                i <= self.records@.len(),
                wanted@ == name@,
                forall|j: int| 0 <= j < i ==> (#[trigger] self.records@[j]).name@ != name@,
            decreases self.records@.len() - i,
        {
            if self.records[i].name == wanted {
                return Some(i);
            }
            i = i + 1;
        }
        None
    }

    /// The instance of the page named `name`.
    pub fn get_page_by_name(&self, name: &str) -> (r: Result<&Module, StoreError>)
        ensures
            r is Err <==> !has_name(self.records(), name@),
            match r {
                Ok(m) => exists|i: int| 0 <= i < self.records().len() && (#[trigger] self.records()[i]).name@ == name@
                    && self.records()[i].module == *m,
                Err(e) => e == StoreError::PageNotFound,
            },
    {
        match self.find_name(name) {
            Some(i) => Ok(&self.records[i].module),
            None => Err(StoreError::PageNotFound),
        }
    }

    /// The position of the first of the ids `drawn` that is not in use.
    pub fn first_fresh(&self, drawn: &Vec<String>) -> (r: Option<usize>)
        ensures
            match r {
                Some(i) => i < drawn@.len() && !has_id(self.records(), drawn@[i as int]@)
                    && forall|j: int| 0 <= j < i ==> has_id(self.records(), (#[trigger] drawn@[j])@),
                None => forall|j: int| 0 <= j < drawn@.len() ==> has_id(self.records(), (#[trigger] drawn@[j])@),
            },
    {
        let mut i: usize = 0;
        while i < drawn.len()
            invariant
                i <= drawn@.len(),
                forall|j: int| 0 <= j < i ==> has_id(self.records(), (#[trigger] drawn@[j])@),
            decreases drawn@.len() - i,
        {
            if !self.page_exists(drawn[i].as_str()) {
                return Some(i);
            }
            i = i + 1;
        }
        None
    }

    /// Draws ids from `generator` until one is not in use, at most
    /// `ID_ATTEMPTS` times, and returns that first fresh id.
    pub fn get_uid<G: IdGenerator>(&self, generator: &mut G) -> (r: Option<String>)
        ensures
            r matches Some(id) ==> !has_id(self.records(), id@),
    {
        let mut drawn: Vec<String> = Vec::new();
        while drawn.len() < ID_ATTEMPTS as usize
            invariant
                drawn@.len() <= ID_ATTEMPTS,
                forall|j: int| 0 <= j < drawn@.len() ==> has_id(self.records(), (#[trigger] drawn@[j])@),
            decreases ID_ATTEMPTS - drawn@.len(),
        {
            drawn.push(generator.generate_id());
            match self.first_fresh(&drawn) {
                Some(i) => return Some(drawn[i].clone()),
                None => {},
            }
        }
        None
    }

    /// Adds a page that was read back from the folder.
    pub fn load_record(&mut self, id: String, name: String, module: Module) -> (r: Result<(), StoreError>)
        requires
            old(self).wf(),
        ensures
            final(self).wf(),
            final(self).folder() == old(self).folder(),
            has_name(old(self).records(), name@) ==> r == Err::<(), StoreError>(StoreError::DuplicatedName),
            !has_name(old(self).records(), name@) && has_id(old(self).records(), id@) ==> r == Err::<(), StoreError>(StoreError::LoadError),
            !has_name(old(self).records(), name@) && !has_id(old(self).records(), id@) ==> r is Ok,
            r is Err ==> final(self).records() == old(self).records(),
            r is Ok ==> final(self).records() == old(self).records().push(PageRecord { id, name, module }),
    {
        if self.contains_name(name.as_str()) {
            return Err(StoreError::DuplicatedName);
        }
        if self.page_exists(id.as_str()) {
            return Err(StoreError::LoadError);
        }
        self.records.push(PageRecord { id, name, module });
        Ok(())
    }

    /// Stores `module` under the new name `name`: draws an id that is not in
    /// use, writes the page's file, then the index. Where a write fails, the
    /// page's file is removed again and the store is left as it was.
    pub fn create_page<G: IdGenerator, S: Storage>(
        &mut self,
        name: &str,
        module: Module,
        generator: &mut G,
        storage: &mut S,
    ) -> (r: Result<String, StoreError>)
        requires
            old(self).wf(),
        ensures
            final(self).wf(),
            final(self).folder() == old(self).folder(),
            create_outcome(old(self).records(), final(self).records(), name@, module, r),
            has_name(old(self).records(), name@) ==> *final(storage) == *old(storage) && *final(generator) == *old(generator),
    {
        if self.contains_name(name) {
            return Err(StoreError::DuplicatedName);
        }
        let id = match self.get_uid(generator) {
            Some(id) => id,
            None => return Err(StoreError::IdUnavailable),
        };
        let path = self.get_file(id.as_str());
        let body = match emit_yaml(&module_document(&module)) {
            Some(text) => text,
            None => return Err(StoreError::PersistError),
        };
        if storage.write_file(path.as_str(), body.as_str()).is_err() {
            return Err(StoreError::PersistError);
        }
        let ghost before = self.records@;
        self.records.push(PageRecord { id: id.clone(), name: name.to_owned(), module });
        let index = match emit_yaml(&index_document(&self.folder, &self.records, self.records.len())) {
            Some(text) => Ok(text),
            None => Err(()),
        };
        let written = match index {
            Ok(text) => storage.write_file(self.index_file().as_str(), text.as_str()).is_ok(),
            Err(_) => false,
        };
        if !written {
            let _ = storage.remove_file(path.as_str());
            self.records.pop();
            proof {
                assert(self.records@ =~= before);
            }
            return Err(StoreError::PersistError);
        }
        proof {
            assert(self.records@.drop_last() =~= before);
            assert forall|i: int, j: int|
                0 <= i < self.records@.len() && 0 <= j < self.records@.len() && i != j
                implies (#[trigger] self.records@[i]).id@ != (#[trigger] self.records@[j]).id@
                    && self.records@[i].name@ != self.records@[j].name@ by {
                if i < before.len() && j < before.len() {
                    assert(before[i] == self.records@[i]);
                    assert(before[j] == self.records@[j]);
                } else if i < before.len() {
                    assert(before[i] == self.records@[i]);
                } else {
                    assert(before[j] == self.records@[j]);
                }
            }
        }
        Ok(id)
    }

    /// Deletes the page `id` and returns its instance: writes the index
    /// without it, then removes its file. Where the removal fails, the index
    /// is written back as it was and the store is left as it was.
    pub fn delete_page<S: Storage>(&mut self, id: &str, storage: &mut S) -> (r: Result<Module, StoreError>)
        requires
            old(self).wf(),
        ensures
            final(self).wf(),
            final(self).folder() == old(self).folder(),
            delete_outcome(old(self).records(), final(self).records(), id@, r),
            !has_id(old(self).records(), id@) ==> *final(storage) == *old(storage),
    {
        let i = match self.find_id(id) {
            Some(i) => i,
            None => return Err(StoreError::PageNotFound),
        };
        let index_file = self.index_file();
        let reduced = match emit_yaml(&index_document(&self.folder, &self.records, i)) {
            Some(text) => text,
            None => return Err(StoreError::PersistError),
        };
        if storage.write_file(index_file.as_str(), reduced.as_str()).is_err() {
            return Err(StoreError::PersistError);
        }
        let path = self.get_file(id);
        if storage.remove_file(path.as_str()).is_err() {
            if let Some(full) = emit_yaml(&index_document(&self.folder, &self.records, self.records.len())) {
                let _ = storage.write_file(index_file.as_str(), full.as_str());
            }
            return Err(StoreError::IoError);
        }
        let ghost before = self.records@;
        let record = self.records.remove(i);
        proof {
            assert forall|a: int, b: int|
                0 <= a < self.records@.len() && 0 <= b < self.records@.len() && a != b
                implies (#[trigger] self.records@[a]).id@ != (#[trigger] self.records@[b]).id@
                    && self.records@[a].name@ != self.records@[b].name@ by {
                let a2 = if a < i { a } else { a + 1 };
                let b2 = if b < i { b } else { b + 1 };
                assert(self.records@[a] == before[a2]);
                assert(self.records@[b] == before[b2]);
            }
            assert(before[i as int].id@ == id@);
        }
        Ok(record.module)
    }

    /// Reads the folder and the ids and names of the pages from the text of
    /// an index file.
    pub fn read_index(text: &str) -> (r: Result<(String, Vec<Page>), StoreError>)
        ensures
            match r {
                Ok(found) => yaml_parsed(text@) matches Some(doc) && is_index_doc(found.0@, page_entries(found.1@), doc),
                Err(e) => e == StoreError::LoadError && (yaml_parsed(text@) matches Some(doc) ==> forall|f: Seq<char>, en: Seq<(Seq<char>, Seq<char>)>|
                    !is_index_doc(f, en, doc)),
            },
    {
        match parse_yaml(text) {
            Some(doc) => match index_from_document(&doc) {
                Some(found) => Ok(found),
                None => Err(StoreError::LoadError),
            },
            None => Err(StoreError::LoadError),
        }
    }

    /// A store over `folder` holding the pages that were read back from it,
    /// each with the text of its page file; each field that a page's
    /// template declares and that its file lacks gets its type's zero value.
    pub fn load(folder: String, pages: Vec<(Page, String)>, theme: &Theme) -> (r: Result<YamlStorage, StoreError>)
        ensures
            r is Ok <==> (forall|i: int| 0 <= i < pages@.len() ==> body_loads((#[trigger] pages@[i]).1@))
                && entries_unique(page_entries(pages@.map_values(|p: (Page, String)| p.0))),
            match r {
                Ok(s) => {
                    &&& s.wf()
                    &&& s.folder() == folder@
                    &&& s.records().len() == pages@.len()
                    &&& forall|i: int| 0 <= i < pages@.len() ==> (#[trigger] s.records()[i]).id@ == pages@[i].0.id@
                        && s.records()[i].name@ == pages@[i].0.name@
                        && (yaml_parsed(pages@[i].1@) matches Some(doc) && exists|m: Module| is_module_doc(m, doc)
                            && defaults_filled(*theme, m, s.records()[i].module))
                },
                Err(e) => e == StoreError::LoadError,
            },
    {
        let ghost entries = page_entries(pages@.map_values(|p: (Page, String)| p.0));
        let ghost all = pages@;
        let mut store = YamlStorage::new(folder);
        let mut i: usize = 0;
        while i < pages.len()
            invariant
                all == pages@,
                i <= pages@.len(),
                store.wf(),
                store.folder() == folder@,
                store.records().len() == i,
                entries == page_entries(all.map_values(|p: (Page, String)| p.0)),
                forall|k: int| 0 <= k < i ==> body_loads((#[trigger] all[k]).1@),
                forall|k: int| 0 <= k < i ==> (#[trigger] store.records()[k]).id@ == all[k].0.id@
                    && store.records()[k].name@ == all[k].0.name@
                    && (yaml_parsed(all[k].1@) matches Some(doc) && exists|m: Module| is_module_doc(m, doc)
                        && defaults_filled(*theme, m, store.records()[k].module)),
            decreases pages@.len() - i,
        {
            let module = match parse_yaml(pages[i].1.as_str()) {
                Some(doc) => match module_from_document(&doc) {
                    Some(m) => theme.fill_defaults(&m),
                    None => {
                        proof {
                            assert(!body_loads(all[i as int].1@));
                        }
                        return Err(StoreError::LoadError);
                    },
                },
                None => {
                    proof {
                        assert(!body_loads(all[i as int].1@));
                    }
                    return Err(StoreError::LoadError);
                },
            };
            let ghost before = store.records();
            match store.load_record(pages[i].0.id.clone(), pages[i].0.name.clone(), module) {
                Ok(()) => {},
                Err(_) => {
                    proof {
                        if has_name(before, all[i as int].0.name@) {
                            let k = choose|k: int| 0 <= k < before.len() && (#[trigger] before[k]).name@ == all[i as int].0.name@;
                            assert(entries[k].1 == entries[i as int].1);
                        } else {
                            let k = choose|k: int| 0 <= k < before.len() && (#[trigger] before[k]).id@ == all[i as int].0.id@;
                            assert(entries[k].0 == entries[i as int].0);
                        }
                    }
                    return Err(StoreError::LoadError);
                },
            }
            proof {
                assert forall|k: int| 0 <= k < i + 1 implies (#[trigger] store.records()[k]).id@ == all[k].0.id@
                    && store.records()[k].name@ == all[k].0.name@
                    && (yaml_parsed(all[k].1@) matches Some(doc) && exists|m: Module| is_module_doc(m, doc)
                        && defaults_filled(*theme, m, store.records()[k].module)) by {
                    if k < i {
                        assert(store.records()[k] == before[k]);
                    }
                }
            }
            i = i + 1;
        }
        proof {
            assert forall|a: int, b: int| 0 <= a < entries.len() && 0 <= b < entries.len() && a != b
                implies (#[trigger] entries[a]).0 != (#[trigger] entries[b]).0 && entries[a].1 != entries[b].1 by {
                assert(store.records()[a].id@ != store.records()[b].id@);
            }
        }
        Ok(store)
    }
}

} // verus!
