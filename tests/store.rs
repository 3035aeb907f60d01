use jilo::model::Module;
use jilo::store::{IdGenerator, YamlStorage};

struct SimpleId {
    pub count: usize,
}

impl IdGenerator for SimpleId {
    fn generate_id(&mut self) -> String {
        self.count += 1;
        self.count.to_string()
    }
}

#[test]
fn yaml_storage_generate_ids() {
    let mut storage = YamlStorage::new("/home".to_string());
    let mut generator = SimpleId { count: 0 };
    let id = storage.get_uid(&mut generator).unwrap();

    assert_eq!(&id, "1");

    storage.load_record(id, "first".to_string(), Module::new("page")).unwrap();
    generator.count = 0;

    let id = storage.get_uid(&mut generator).unwrap();

    assert_eq!(&id, "2");
}

#[test]
fn yaml_store_generate_ids() {
    let mut storage = YamlStorage::new("/home".into());
    let mut generator = SimpleId { count: 0 };
    let id = storage.get_uid(&mut generator).unwrap();

    assert_eq!(&id, "1");

    storage.load_record(id, "first".to_string(), Module::new("page")).unwrap();
    generator.count = 0;

    let id = storage.get_uid(&mut generator).unwrap();

    assert_eq!(&id, "2");
}

use jilo::model::FieldValue;
use jilo::store::{Random, Storage, StoreError};

#[derive(Default)]
struct MemoryStorage {
    files: Vec<(String, String)>,
    writes: usize,
    refuse_index: bool,
}

impl MemoryStorage {
    fn read(&self, path: &str) -> Option<String> {
        self.files.iter().find(|f| f.0 == path).map(|f| f.1.clone())
    }
}

impl Storage for MemoryStorage {
    fn write_file(&mut self, path: &str, text: &str) -> Result<(), String> {
        if self.refuse_index && path.ends_with("index.yaml") {
            return Err("disk full".to_string());
        }
        self.writes += 1;
        self.files.retain(|f| f.0 != path);
        self.files.push((path.to_string(), text.to_string()));
        Ok(())
    }

    fn remove_file(&mut self, path: &str) -> Result<(), String> {
        let before = self.files.len();
        self.files.retain(|f| f.0 != path);
        if self.files.len() == before {
            Err("no such file".to_string())
        } else {
            Ok(())
        }
    }
}

fn typed_page() -> Module {
    let mut m = Module::new("article");
    m.fields.push(("title".to_string(), FieldValue::String("A Jilo Title".to_string())));
    m.fields.push(("rank".to_string(), FieldValue::Number(-7)));
    m.fields.push(("draft".to_string(), FieldValue::Boolean(true)));
    let mut child = Module::new("note");
    child.fields.push(("text".to_string(), FieldValue::String("inner".to_string())));
    m.areas.push(("body".to_string(), vec![child, Module::new("note")]));
    m
}

fn same(a: &Module, b: &Module) -> bool {
    format!("{:?}", a) == format!("{:?}", b)
}

#[test]
fn second_create_with_same_name_is_refused() {
    let mut store = YamlStorage::new("/data".to_string());
    let mut files = MemoryStorage::default();
    let id = store.create_page("x", Module::new("t1"), &mut Random::default(), &mut files).unwrap();
    let writes = files.writes;
    let files_before = files.files.len();
    let again = store.create_page("x", Module::new("t2"), &mut Random::default(), &mut files);
    assert_eq!(again, Err(StoreError::DuplicatedName));
    assert_eq!(files.writes, writes);
    assert_eq!(files.files.len(), files_before);
    let summary = store.summary();
    assert_eq!(summary.len(), 1);
    assert_eq!(summary[0].id, id);
    assert_eq!(summary[0].name, "x");
}

#[test]
fn create_then_delete_round_trips() {
    let mut store = YamlStorage::new("/data".to_string());
    let mut files = MemoryStorage::default();
    let id = store.create_page("first", typed_page(), &mut Random::default(), &mut files).unwrap();
    assert!(files.read(&store.get_file(&id)).is_some());
    let back = store.delete_page(&id, &mut files).unwrap();
    assert!(same(&back, &typed_page()));
    assert!(store.summary().is_empty());
    assert!(files.read(&store.get_file(&id)).is_none());
}

#[test]
fn deleting_an_unknown_id_changes_nothing() {
    let mut store = YamlStorage::new("/data".to_string());
    let mut files = MemoryStorage::default();
    store.create_page("first", Module::new("t"), &mut Random::default(), &mut files).unwrap();
    let writes = files.writes;
    assert_eq!(store.delete_page("nope", &mut files).err(), Some(StoreError::PageNotFound));
    assert_eq!(store.summary().len(), 1);
    assert_eq!(files.writes, writes);
}

#[test]
fn failed_index_write_leaves_no_page_file() {
    let mut store = YamlStorage::new("/data".to_string());
    let mut files = MemoryStorage { refuse_index: true, ..MemoryStorage::default() };
    let r = store.create_page("first", Module::new("t"), &mut Random::default(), &mut files);
    assert_eq!(r, Err(StoreError::PersistError));
    assert!(files.files.is_empty());
    assert!(store.summary().is_empty());
    assert!(!store.contains_name("first"));
}

#[test]
fn lookups_by_name_and_id() {
    let mut store = YamlStorage::new("/data".to_string());
    let mut files = MemoryStorage::default();
    let id = store.create_page("first", typed_page(), &mut Random::default(), &mut files).unwrap();
    assert!(store.page_exists(&id));
    assert!(!store.page_exists("other"));
    assert!(store.contains_name("first"));
    assert!(same(store.get_page_by_name("first").unwrap(), &typed_page()));
    assert_eq!(store.get_page_by_name("second").err(), Some(StoreError::PageNotFound));
    assert_eq!(store.get_file("abc"), "/data/abc.yml");
    assert_eq!(store.index_file(), "/data/index.yaml");
}

#[test]
fn pages_load_back_from_their_files() {
    let mut store = YamlStorage::new("/data".to_string());
    let mut files = MemoryStorage::default();
    let a = store.create_page("first", typed_page(), &mut Random::default(), &mut files).unwrap();
    let b = store.create_page("second", Module::new("empty"), &mut Random::default(), &mut files).unwrap();
    let index = files.read(&store.index_file()).unwrap();
    assert!(index.contains("first"));
    let (folder, pages) = YamlStorage::read_index(&index).unwrap();
    assert_eq!(folder, "/data");
    assert_eq!(pages.len(), 2);
    assert_eq!(pages[0].id, a);
    assert_eq!(pages[1].id, b);
    let with_bodies: Vec<_> = pages
        .into_iter()
        .map(|p| {
            let text = files.read(&store.get_file(&p.id)).unwrap();
            (p, text)
        })
        .collect();
    let loaded = YamlStorage::load(folder, with_bodies, &jilo::theme::Theme::new()).unwrap();
    assert!(same(loaded.get_page_by_name("first").unwrap(), &typed_page()));
    assert!(same(loaded.get_page_by_name("second").unwrap(), &Module::new("empty")));
}

#[test]
fn loading_rejects_bad_files() {
    assert_eq!(YamlStorage::read_index("pages: [").err(), Some(StoreError::LoadError));
    assert_eq!(YamlStorage::read_index("folder: /x\n").err(), Some(StoreError::LoadError));
    let page = |id: &str, name: &str| jilo::store::Page { id: id.to_string(), name: name.to_string() };
    let body = "template: t\nfields: {}\nareas: {}\n".to_string();
    let dup = vec![(page("1", "a"), body.clone()), (page("2", "a"), body.clone())];
    assert_eq!(YamlStorage::load("/x".to_string(), dup, &jilo::theme::Theme::new()).err(), Some(StoreError::LoadError));
    let bad = vec![(page("1", "a"), "template: t\n".to_string())];
    assert_eq!(YamlStorage::load("/x".to_string(), bad, &jilo::theme::Theme::new()).err(), Some(StoreError::LoadError));
    let good = vec![(page("1", "a"), body)];
    assert!(YamlStorage::load("/x".to_string(), good, &jilo::theme::Theme::new()).is_ok());
}

#[test]
fn random_ids_are_alphanumeric() {
    let mut generator = Random::default();
    let a = generator.generate_id();
    let b = generator.generate_id();
    assert_eq!(a.len(), 30);
    assert!(a.chars().all(|c| c.is_ascii_alphanumeric()));
    assert_ne!(a, b);
}

#[test]
fn fields_missing_on_disk_get_zero_values() {
    let theme = jilo::theme::Theme::from_sources(
        "/th",
        &vec![("/th/article".to_string(), "view: v.html\nfields:\n  title: string\n  rank: number\n".to_string())],
    )
    .unwrap();
    let page = jilo::store::Page { id: "1".to_string(), name: "first".to_string() };
    let body = "template: /article\nfields:\n  title: Hello\nareas:\n  body:\n  - template: /article\n    fields: {}\n    areas: {}\n".to_string();
    let store = YamlStorage::load("/x".to_string(), vec![(page, body)], &theme).unwrap();
    let m = store.get_page_by_name("first").unwrap();
    assert_eq!(m.fields.len(), 2);
    assert!(matches!(&m.fields[0], (n, FieldValue::String(s)) if n == "title" && s == "Hello"));
    assert!(matches!(&m.fields[1], (n, FieldValue::Number(0)) if n == "rank"));
    let child = &m.areas[0].1[0];
    assert_eq!(child.fields.len(), 2);
    assert!(matches!(&child.fields[0], (n, FieldValue::String(s)) if n == "title" && s.is_empty()));
}

#[test]
fn first_fresh_picks_the_first_unused_draw() {
    let mut store = YamlStorage::new("/data".to_string());
    store.load_record("a".to_string(), "one".to_string(), Module::new("t")).unwrap();
    store.load_record("b".to_string(), "two".to_string(), Module::new("t")).unwrap();
    let drawn = vec!["a".to_string(), "c".to_string(), "d".to_string()];
    assert_eq!(store.first_fresh(&drawn), Some(1));
    assert_eq!(store.first_fresh(&vec!["b".to_string(), "a".to_string()]), None);
    assert_eq!(store.first_fresh(&vec![]), None);
}

#[test]
fn random_id_is_thirty_letters_and_digits() {
    let id = jilo::store::random_id();
    assert_eq!(id.chars().count(), 30);
    assert!(id.chars().all(|c| c.is_ascii_alphanumeric()));
}

struct Same;

impl IdGenerator for Same {
    fn generate_id(&mut self) -> String {
        "a".to_string()
    }
}

#[test]
fn id_source_that_always_collides_gives_up() {
    let mut store = YamlStorage::new("/data".to_string());
    store.load_record("a".to_string(), "one".to_string(), Module::new("t")).unwrap();
    assert_eq!(store.get_uid(&mut Same), None);
    let mut files = MemoryStorage::default();
    assert_eq!(
        store.create_page("two", Module::new("t"), &mut Same, &mut files),
        Err(StoreError::IdUnavailable)
    );
    assert!(files.files.is_empty());
}
