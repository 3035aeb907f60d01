use vstd::prelude::*;
use crate::theme::{Theme, admits};

verus! {

/// The declared type of a template field.
#[derive(Debug, Clone, Copy, PartialEq, Eq, Structural)]
pub enum Field {
    String,
    Number,
    Boolean,
}

/// A value held by a field of a page instance.
#[derive(Debug)]
pub enum FieldValue {
    String(String),
    Number(i64),
    Boolean(bool),
}

/// The field type whose values carry the same tag as `v`.
pub open spec fn type_of(v: FieldValue) -> Field {
    match v {
        FieldValue::String(_) => Field::String,
        FieldValue::Number(_) => Field::Number,
        FieldValue::Boolean(_) => Field::Boolean,
    }
}

/// `v` is the zero value of the field type `f`: an empty string, `0` or `false`.
pub open spec fn is_zero_of(v: FieldValue, f: Field) -> bool {
    match v {
        FieldValue::String(s) => f == Field::String && s@.len() == 0,
        FieldValue::Number(n) => f == Field::Number && n == 0,
        FieldValue::Boolean(b) => f == Field::Boolean && !b,
    }
}

impl FieldValue {
    /// The zero value of a field type.
    pub fn zero(field: &Field) -> (r: FieldValue)
        ensures
            is_zero_of(r, *field),
    {
        match field {
            Field::String => FieldValue::String(String::new()),
            Field::Number => FieldValue::Number(0),
            Field::Boolean => FieldValue::Boolean(false),
        }
    }

    /// The field type that matches this value's tag.
    pub fn field_type(&self) -> (r: Field)
        ensures
            r == type_of(*self),
    {
        match self {
            FieldValue::String(_) => Field::String,
            FieldValue::Number(_) => Field::Number,
            FieldValue::Boolean(_) => Field::Boolean,
        }
    }

    /// A copy of this value.
    pub fn duplicate(&self) -> (r: FieldValue)
        ensures
            r == *self,
    {
        match self {
            FieldValue::String(s) => FieldValue::String(s.clone()),
            FieldValue::Number(n) => FieldValue::Number(*n),
            FieldValue::Boolean(b) => FieldValue::Boolean(*b),
        }
    }
}

/// Why an edit of a page instance, or the making of one, was refused.
#[derive(Debug, Clone, Copy, PartialEq, Eq, Structural)]
pub enum ModelError {
    /// The theme has no template of the requested name.
    TemplateNotFound,
    /// The instance's template declares no field of that name.
    UnknownField,
    /// The value's type is not the field's declared type.
    InvalidValue,
    /// The instance's template declares no area of that name.
    UnknownArea,
    /// The area's policy does not admit the child's template.
    AreaPolicyViolation,
}

/// A page instance: a template name, the values of its fields, and for each
/// area the ordered list of nested instances.
#[derive(Debug)]
pub struct Module {
    pub template: String,
    pub fields: Vec<(String, FieldValue)>,
    pub areas: Vec<(String, Vec<Module>)>,
}

/// The first index of `entries` whose key reads `key`, if any.
pub open spec fn key_index<T>(entries: Seq<(String, T)>, key: Seq<char>) -> Option<int> {
    if exists|i: int|
        0 <= i < entries.len() && #[trigger] entries[i].0@ == key && (forall|j: int| 0 <= j < i ==> entries[j].0@ != key)
    {
        let i = choose|i: int|
            0 <= i < entries.len() && #[trigger] entries[i].0@ == key && (forall|j: int|
                0 <= j < i ==> entries[j].0@ != key);
        Some(i)
    } else {
        None
    }
}

/// Some entry of `entries` has the key `key`.
pub open spec fn has_key<T>(entries: Seq<(String, T)>, key: Seq<char>) -> bool {
    exists|i: int| 0 <= i < entries.len() && #[trigger] entries[i].0@ == key
}

/// No two entries of `entries` share a key.
pub open spec fn keys_unique<T>(entries: Seq<(String, T)>) -> bool {
    forall|i: int, j: int|
        0 <= i < entries.len() && 0 <= j < entries.len() && i != j ==> #[trigger] entries[i].0@
            != #[trigger] entries[j].0@
}

/// Whether no two entries of `entries` share a key.
pub fn keys_distinct<T>(entries: &Vec<(String, T)>) -> (r: bool)
    ensures
        r == keys_unique(entries@),
{
    let mut i: usize = 0;
    while i < entries.len()
        invariant
            i <= entries@.len(),
            forall|a: int, b: int| 0 <= a < i && 0 <= b < entries@.len() && a != b ==> #[trigger] entries@[a].0@
                != #[trigger] entries@[b].0@,
        decreases entries@.len() - i,
    {
        let mut j: usize = 0;
        while j < entries.len()
            invariant
                i < entries@.len(),
                j <= entries@.len(),
                forall|a: int, b: int| 0 <= a < i && 0 <= b < entries@.len() && a != b ==> #[trigger] entries@[a].0@
                    != #[trigger] entries@[b].0@,
                forall|b: int| 0 <= b < j && b != i ==> entries@[i as int].0@ != #[trigger] entries@[b].0@,
            decreases entries@.len() - j,
        {
            if j != i && entries[i].0 == entries[j].0 {
                return false;
            }
            j = j + 1;
        }
        i = i + 1;
    }
    true
}

/// Finds the position of `key` among the keys of `entries`: its first occurrence.
pub fn find_key<T>(entries: &Vec<(String, T)>, key: &str) -> (r: Option<usize>)
    ensures
        match r {
            Some(i) => i < entries@.len() && key_index(entries@, key@) == Some(i as int)
                && entries@[i as int].0@ == key@,
            None => key_index(entries@, key@) is None && !has_key(entries@, key@),
        },
{
    let wanted = key.to_owned();
    let mut i: usize = 0;
    while i < entries.len()
        invariant
            i <= entries@.len(),
            wanted@ == key@,
            forall|j: int| 0 <= j < i ==> entries@[j].0@ != key@,
        decreases entries@.len() - i,
    {
        if entries[i].0 == wanted {
            proof {
                assert(entries@[i as int].0@ == key@);
                let k = choose|k: int|
                    0 <= k < entries@.len() && #[trigger] entries@[k].0@ == key@ && (forall|j: int|
                        0 <= j < k ==> entries@[j].0@ != key@);
                if k > i {
                    assert(entries@[i as int].0@ != key@);
                }
            }
            return Some(i);
        }
        i = i + 1;
    }
    None
}

/// The set of keys of `entries`.
pub open spec fn key_set<T>(entries: Seq<(String, T)>) -> Set<Seq<char>> {
    Set::new(|n: Seq<char>| has_key(entries, n))
}

/// Sets the value under `key`: replaces the entry of that key where there is
/// one, and adds an entry at the end where there is none.
#[verifier::rlimit(40)]
pub fn upsert<T>(entries: &mut Vec<(String, T)>, key: String, value: T)
    ensures
        keys_unique(old(entries)@) ==> keys_unique(final(entries)@),
        key_set(final(entries)@) == key_set(old(entries)@).insert(key@),
        keys_unique(old(entries)@) ==> forall|k: int| 0 <= k < final(entries)@.len() && (#[trigger] final(entries)@[k]).0@ == key@
            ==> final(entries)@[k].0 == key && final(entries)@[k].1 == value,
        forall|k: int| 0 <= k < final(entries)@.len() && (#[trigger] final(entries)@[k]).0@ != key@
            ==> exists|m: int| 0 <= m < old(entries)@.len() && old(entries)@[m] == final(entries)@[k],
        forall|m: int| 0 <= m < old(entries)@.len() && (#[trigger] old(entries)@[m]).0@ != key@
            ==> exists|k: int| 0 <= k < final(entries)@.len() && old(entries)@[m] == final(entries)@[k],
{
    let ghost before = entries@;
    match find_key(entries, key.as_str()) {
        Some(i) => {
            entries.set(i, (key, value));
            proof {
                assert forall|k: int| 0 <= k < before.len() && #[trigger] before[k].0@ != key@ implies entries@[k] == before[k] by {}
                assert(key_set(entries@) =~= key_set(before).insert(key@)) by {
                    assert forall|n: Seq<char>| key_set(before).insert(key@).contains(n) implies key_set(entries@).contains(n) by {
                        if n != key@ {
                            let m = choose|m: int| 0 <= m < before.len() && #[trigger] before[m].0@ == n;
                            assert(entries@[m].0@ == n);
                        } else {
                            assert(entries@[i as int].0@ == n);
                        }
                    }
                    assert forall|n: Seq<char>| key_set(entries@).contains(n) implies key_set(before).insert(key@).contains(n) by {
                        let m = choose|m: int| 0 <= m < entries@.len() && #[trigger] entries@[m].0@ == n;
                        if m != i {
                            assert(before[m].0@ == n);
                        }
                    }
                }
                if keys_unique(before) {
                    assert forall|a: int, b: int| 0 <= a < entries@.len() && 0 <= b < entries@.len() && a != b
                        implies #[trigger] entries@[a].0@ != #[trigger] entries@[b].0@ by {
                        assert(before[a].0@ != before[b].0@);
                    }
                }
                if keys_unique(before) {
                    assert forall|k: int| 0 <= k < entries@.len() && (#[trigger] entries@[k]).0@ == key@
                        implies entries@[k].0 == key && entries@[k].1 == value by {
                        if k != i {
                            assert(before[k].0@ == key@);
                            assert(before[k].0@ != before[i as int].0@);
                        }
                    }
                }
            }
        },
        None => {
            entries.push((key, value));
            proof {
                assert forall|k: int| 0 <= k < before.len() implies entries@[k] == before[k] by {}
                assert(key_set(entries@) =~= key_set(before).insert(key@)) by {
                    assert forall|n: Seq<char>| key_set(before).insert(key@).contains(n) implies key_set(entries@).contains(n) by {
                        if n != key@ {
                            let m = choose|m: int| 0 <= m < before.len() && #[trigger] before[m].0@ == n;
                            assert(entries@[m].0@ == n);
                        } else {
                            assert(entries@[before.len() as int].0@ == n);
                        }
                    }
                    assert forall|n: Seq<char>| key_set(entries@).contains(n) implies key_set(before).insert(key@).contains(n) by {
                        let m = choose|m: int| 0 <= m < entries@.len() && #[trigger] entries@[m].0@ == n;
                        if m < before.len() {
                            assert(before[m].0@ == n);
                        }
                    }
                }
                assert forall|m: int| 0 <= m < before.len() implies #[trigger] before[m] == entries@[m] by {}
            }
        },
    }
}

/// Appends `child` to the list under `area`, adding that list where there is
/// none.
fn append_child(areas: &mut Vec<(String, Vec<Module>)>, area: &str, child: Module)
    ensures
        keys_unique(old(areas)@) ==> keys_unique(final(areas)@),
        match key_index(old(areas)@, area@) {
            Some(i) => {
                &&& final(areas)@.len() == old(areas)@.len()
                &&& forall|j: int| 0 <= j < old(areas)@.len() && j != i ==> final(areas)@[j] == old(areas)@[j]
                &&& final(areas)@[i].0 == old(areas)@[i].0
                &&& final(areas)@[i].1@ == old(areas)@[i].1@.push(child)
            },
            None => {
                &&& final(areas)@.len() == old(areas)@.len() + 1
                &&& forall|j: int| 0 <= j < old(areas)@.len() ==> final(areas)@[j] == old(areas)@[j]
                &&& final(areas)@.last().0@ == area@
                &&& final(areas)@.last().1@ == seq![child]
            },
        },
{
    match find_key(areas, area) {
        Some(i) => {
            let ghost before = areas@;
            let (name, mut children) = areas.remove(i);
            children.push(child);
            areas.insert(i, (name, children));
            proof {
                if keys_unique(before) {
                    assert forall|a: int, b: int| 0 <= a < areas@.len() && 0 <= b < areas@.len() && a != b
                        implies #[trigger] areas@[a].0@ != #[trigger] areas@[b].0@ by {
                        assert(areas@[a].0 == before[a].0);
                        assert(areas@[b].0 == before[b].0);
                    }
                }
            }
        },
        None => {
            let ghost before = areas@;
            let mut children: Vec<Module> = Vec::new();
            children.push(child);
            areas.push((area.to_owned(), children));
            proof {
                if keys_unique(before) {
                    assert forall|a: int, b: int| 0 <= a < areas@.len() && 0 <= b < areas@.len() && a != b
                        implies #[trigger] areas@[a].0@ != #[trigger] areas@[b].0@ by {
                        if a < before.len() {
                            assert(areas@[a] == before[a]);
                        }
                        if b < before.len() {
                            assert(areas@[b] == before[b]);
                        }
                    }
                }
            }
        },
    }
}

impl Module {
    /// No two fields share a name, and no two areas do.
    pub open spec fn wf(&self) -> bool {
        keys_unique(self.fields@) && keys_unique(self.areas@)
    }

    /// An instance of `template` with no fields and no areas.
    pub fn new(template: &str) -> (r: Module)
        ensures
            r.wf(),
            r.template@ == template@,
            r.fields@.len() == 0,
            r.areas@.len() == 0,
    {
        Module { template: template.to_owned(), fields: Vec::new(), areas: Vec::new() }
    }

    /// Sets the field `name` to `value`. The field must be declared by the
    /// instance's template, with the type of `value`.
    pub fn set_field(&mut self, theme: &Theme, name: &str, value: FieldValue) -> (r: Result<(), ModelError>)
        ensures
            match theme.template(old(self).template@) {
                None => r == Err::<(), ModelError>(ModelError::TemplateNotFound),
                Some(t) => match key_index(t.fields@, name@) {
                    None => r == Err::<(), ModelError>(ModelError::UnknownField),
                    Some(k) => if t.fields@[k].1 != type_of(value) {
                        r == Err::<(), ModelError>(ModelError::InvalidValue)
                    } else {
                        r is Ok
                    },
                },
            },
            r is Err ==> *final(self) == *old(self),
            old(self).wf() ==> final(self).wf(),
            r is Ok ==> {
                &&& final(self).template == old(self).template
                &&& final(self).areas == old(self).areas
                &&& key_set(final(self).fields@) == key_set(old(self).fields@).insert(name@)
                &&& keys_unique(old(self).fields@) ==> keys_unique(final(self).fields@)
                &&& keys_unique(old(self).fields@) ==> forall|k: int| 0 <= k < final(self).fields@.len()
                    && (#[trigger] final(self).fields@[k]).0@ == name@ ==> final(self).fields@[k].1 == value
                &&& forall|k: int| 0 <= k < final(self).fields@.len() && (#[trigger] final(self).fields@[k]).0@ != name@
                    ==> exists|m: int| 0 <= m < old(self).fields@.len() && old(self).fields@[m] == final(self).fields@[k]
                &&& forall|m: int| 0 <= m < old(self).fields@.len() && (#[trigger] old(self).fields@[m]).0@ != name@
                    ==> exists|k: int| 0 <= k < final(self).fields@.len() && old(self).fields@[m] == final(self).fields@[k]
            },
    {
        let template = match theme.get_template(self.template.as_str()) {
            Some(t) => t,
            None => return Err(ModelError::TemplateNotFound),
        };
        let k = match find_key(&template.fields, name) {
            Some(k) => k,
            None => return Err(ModelError::UnknownField),
        };
        if template.fields[k].1 != value.field_type() {
            return Err(ModelError::InvalidValue);
        }
        upsert(&mut self.fields, name.to_owned(), value);
        Ok(())
    }

    /// Appends `child` to the area `area`. The area must be declared by the
    /// instance's template, and its policy must admit the child's template.
    pub fn insert_into_area(&mut self, theme: &Theme, area: &str, child: Module) -> (r: Result<(), ModelError>)
        ensures
            match theme.template(old(self).template@) {
                None => r == Err::<(), ModelError>(ModelError::TemplateNotFound),
                Some(t) => match key_index(t.areas@, area@) {
                    None => r == Err::<(), ModelError>(ModelError::UnknownArea),
                    Some(k) => if !admits(t.areas@[k].1, child.template@) {
                        r == Err::<(), ModelError>(ModelError::AreaPolicyViolation)
                    } else {
                        r is Ok
                    },
                },
            },
            r is Err ==> *final(self) == *old(self),
            old(self).wf() ==> final(self).wf(),
            r is Ok ==> {
                &&& final(self).template == old(self).template
                &&& final(self).fields == old(self).fields
                &&& match key_index(old(self).areas@, area@) {
                    Some(i) => {
                        &&& final(self).areas@.len() == old(self).areas@.len()
                        &&& forall|j: int| 0 <= j < old(self).areas@.len() && j != i ==> final(self).areas@[j] == old(self).areas@[j]
                        &&& final(self).areas@[i].0 == old(self).areas@[i].0
                        &&& final(self).areas@[i].1@ == old(self).areas@[i].1@.push(child)
                    },
                    None => {
                        &&& final(self).areas@.len() == old(self).areas@.len() + 1
                        &&& forall|j: int| 0 <= j < old(self).areas@.len() ==> final(self).areas@[j] == old(self).areas@[j]
                        &&& final(self).areas@.last().0@ == area@
                        &&& final(self).areas@.last().1@ == seq![child]
                    },
                }
            },
    {
        let template = match theme.get_template(self.template.as_str()) {
            Some(t) => t,
            None => return Err(ModelError::TemplateNotFound),
        };
        let k = match find_key(&template.areas, area) {
            Some(k) => k,
            None => return Err(ModelError::UnknownArea),
        };
        if !template.areas[k].1.accepts(child.template.as_str()) {
            return Err(ModelError::AreaPolicyViolation);
        }
        append_child(&mut self.areas, area, child);
        Ok(())
    }
}

} // verus!
