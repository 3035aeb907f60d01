use vstd::prelude::*;
use crate::model::{FieldValue, Module, has_key, key_index, keys_unique, type_of, is_zero_of};
use crate::theme::{Template, Theme, admits, defaults_filled, fields_filled, is_default_instance};

verus! {

/// The template `t` declares a field of the name of `f`, with the type of
/// its value.
pub open spec fn declares_field(t: Template, f: (String, FieldValue)) -> bool {
    exists|d: int| 0 <= d < t.fields@.len() && (#[trigger] t.fields@[d]).0@ == f.0@ && t.fields@[d].1 == type_of(f.1)
}

/// The area `a` of an instance of template `t` is declared by `t`, and each
/// of its children is of a template that the area's policy admits.
pub open spec fn area_admits(t: Template, a: (String, Vec<Module>)) -> bool {
    key_index(t.areas@, a.0@) matches Some(k) && forall|j: int| 0 <= j < a.1@.len()
        ==> admits(t.areas@[k].1, (#[trigger] a.1@[j]).template@)
}

/// `m` is an instance that `theme` allows: its template is in the theme,
/// each of its fields is declared by that template with the type of its
/// value, each of its areas is declared there and admits its children, and
/// each child is itself allowed.
#[verifier::opaque]
pub open spec fn conforms(theme: Theme, m: Module) -> bool
    decreases m,
{
    match theme.template(m.template@) {
        None => false,
        Some(t) => {
            &&& forall|i: int| 0 <= i < m.fields@.len() ==> declares_field(t, #[trigger] m.fields@[i])
            &&& forall|i: int| 0 <= i < m.areas@.len() ==> area_admits(t, #[trigger] m.areas@[i])
            &&& forall|i: int, j: int| 0 <= i < m.areas@.len() && 0 <= j < m.areas@[i].1@.len()
                ==> conforms(theme, #[trigger] m.areas@[i].1@[j])
        },
    }
}

/// The default instance of a template of the theme is allowed by the theme.
pub proof fn lemma_default_instance_conforms(theme: Theme, name: Seq<char>, m: Module)
    requires
        theme.template(name) matches Some(t) && is_default_instance(m, t, name),
    ensures
        conforms(theme, m),
{
    reveal(conforms);
    let t = theme.template(name)->Some_0;
    assert forall|i: int| 0 <= i < m.fields@.len() implies declares_field(t, #[trigger] m.fields@[i]) by {
        assert(t.fields@[i].0@ == m.fields@[i].0@);
    }
    assert forall|i: int| 0 <= i < m.areas@.len() implies area_admits(t, #[trigger] m.areas@[i]) by {
        assert(t.areas@[i].0@ == m.areas@[i].0@);
        assert(has_key(t.areas@, m.areas@[i].0@));
        lemma_first_key(t.areas@, m.areas@[i].0@);
    }
}

/// Where some entry has a key, `key_index` finds it.
proof fn lemma_first_key<T>(entries: Seq<(String, T)>, key: Seq<char>)
    requires
        has_key(entries, key),
    ensures
        key_index(entries, key) is Some,
    decreases entries.len(),
{
    if entries[0].0@ == key {
        assert(0 <= 0 < entries.len() && entries[0].0@ == key && forall|j: int| 0 <= j < 0 ==> entries[j].0@ != key);
    } else {
        let rest = entries.drop_first();
        let w = choose|w: int| 0 <= w < entries.len() && #[trigger] entries[w].0@ == key;
        assert(rest[w - 1].0@ == key);
        lemma_first_key(rest, key);
        let i = key_index(rest, key)->Some_0;
        lemma_key_index_hit(rest, key);
        assert(forall|j: int| 0 <= j < i ==> rest[j].0@ != key);
        assert(entries[i + 1].0@ == key);
        assert forall|j: int| 0 <= j < i + 1 implies entries[j].0@ != key by {
            if j > 0 {
                assert(entries[j] == rest[j - 1]);
            }
        }
    }
}

/// Where `key_index` finds a key, the entry there has that key.
proof fn lemma_key_index_hit<T>(entries: Seq<(String, T)>, key: Seq<char>)
    requires
        key_index(entries, key) is Some,
    ensures
        0 <= key_index(entries, key)->Some_0 < entries.len(),
        entries[key_index(entries, key)->Some_0].0@ == key,
        forall|j: int| 0 <= j < key_index(entries, key)->Some_0 ==> entries[j].0@ != key,
{
}

/// Setting a field that the template declares to a value of its type, as
/// `Module::set_field` does, keeps an allowed instance allowed.
pub proof fn lemma_set_field_conforms(theme: Theme, before: Module, after: Module, name: Seq<char>, value: FieldValue)
    requires
        conforms(theme, before),
        keys_unique(before.fields@),
        theme.template(before.template@) matches Some(t) && (key_index(t.fields@, name) matches Some(k)
            && t.fields@[k].1 == type_of(value)),
        after.template == before.template,
        after.areas == before.areas,
        forall|k: int| 0 <= k < after.fields@.len() && (#[trigger] after.fields@[k]).0@ == name
            ==> after.fields@[k].1 == value,
        forall|k: int| 0 <= k < after.fields@.len() && (#[trigger] after.fields@[k]).0@ != name
            ==> exists|m: int| 0 <= m < before.fields@.len() && before.fields@[m] == after.fields@[k],
    ensures
        conforms(theme, after),
{
    reveal(conforms);
    let t = theme.template(before.template@)->Some_0;
    let k = key_index(t.fields@, name)->Some_0;
    lemma_key_index_hit(t.fields@, name);
    assert forall|i: int| 0 <= i < after.fields@.len() implies declares_field(t, #[trigger] after.fields@[i]) by {
        if after.fields@[i].0@ == name {
            assert(t.fields@[k].0@ == after.fields@[i].0@);
        } else {
            let m = choose|m: int| 0 <= m < before.fields@.len() && before.fields@[m] == after.fields@[i];
            assert(declares_field(t, before.fields@[m]));
        }
    }
    assert forall|i: int| 0 <= i < after.areas@.len() implies area_admits(t, #[trigger] after.areas@[i]) by {
        assert(after.areas@[i] == before.areas@[i]);
    }
}

/// Appending a child that is allowed, and that the area's policy admits,
/// to an area that the template declares, as `Module::insert_into_area`
/// does, keeps an allowed instance allowed.
pub proof fn lemma_insert_into_area_conforms(theme: Theme, before: Module, after: Module, area: Seq<char>, child: Module)
    requires
        conforms(theme, before),
        conforms(theme, child),
        theme.template(before.template@) matches Some(t) && (key_index(t.areas@, area) matches Some(k)
            && admits(t.areas@[k].1, child.template@)),
        after.template == before.template,
        after.fields == before.fields,
        match key_index(before.areas@, area) {
            Some(i) => {
                &&& after.areas@.len() == before.areas@.len()
                &&& forall|j: int| 0 <= j < before.areas@.len() && j != i ==> after.areas@[j] == before.areas@[j]
                &&& after.areas@[i].0 == before.areas@[i].0
                &&& after.areas@[i].1@ == before.areas@[i].1@.push(child)
            },
            None => {
                &&& after.areas@.len() == before.areas@.len() + 1
                &&& forall|j: int| 0 <= j < before.areas@.len() ==> after.areas@[j] == before.areas@[j]
                &&& after.areas@.last().0@ == area
                &&& after.areas@.last().1@ == seq![child]
            },
        },
    ensures
        conforms(theme, after),
{
    reveal(conforms);
    let t = theme.template(before.template@)->Some_0;
    let k = key_index(t.areas@, area)->Some_0;
    assert forall|i: int| 0 <= i < after.fields@.len() implies declares_field(t, #[trigger] after.fields@[i]) by {
        assert(after.fields@[i] == before.fields@[i]);
    }
    match key_index(before.areas@, area) {
        Some(i) => {
            lemma_key_index_hit(before.areas@, area);
            assert forall|a: int| 0 <= a < after.areas@.len() implies area_admits(t, #[trigger] after.areas@[a]) by {
                if a != i {
                    assert(after.areas@[a] == before.areas@[a]);
                } else {
                    assert(area_admits(t, before.areas@[a]));
                    assert forall|j: int| 0 <= j < after.areas@[a].1@.len() implies admits(t.areas@[k].1, (#[trigger] after.areas@[a].1@[j]).template@) by {
                        if j < before.areas@[a].1@.len() {
                            assert(after.areas@[a].1@[j] == before.areas@[a].1@[j]);
                        }
                    }
                }
            }
            assert forall|a: int, j: int| 0 <= a < after.areas@.len() && 0 <= j < after.areas@[a].1@.len()
                implies conforms(theme, #[trigger] after.areas@[a].1@[j]) by {
                if a != i {
                    assert(after.areas@[a] == before.areas@[a]);
                    assert(conforms(theme, before.areas@[a].1@[j]));
                } else if j < before.areas@[a].1@.len() {
                    assert(after.areas@[a].1@[j] == before.areas@[a].1@[j]);
                    assert(conforms(theme, before.areas@[a].1@[j]));
                } else {
                    assert(after.areas@[a].1@[j] == child);
                }
            }
        },
        None => {
            let n = before.areas@.len() as int;
            assert forall|a: int| 0 <= a < after.areas@.len() implies area_admits(t, #[trigger] after.areas@[a]) by {
                if a < n {
                    assert(after.areas@[a] == before.areas@[a]);
                } else {
                    assert(after.areas@[a] == after.areas@.last());
                    assert forall|j: int| 0 <= j < after.areas@[a].1@.len() implies admits(t.areas@[k].1, (#[trigger] after.areas@[a].1@[j]).template@) by {
                        assert(after.areas@[a].1@[j] == child);
                    }
                }
            }
            assert forall|a: int, j: int| 0 <= a < after.areas@.len() && 0 <= j < after.areas@[a].1@.len()
                implies conforms(theme, #[trigger] after.areas@[a].1@[j]) by {
                if a < n {
                    assert(after.areas@[a] == before.areas@[a]);
                    assert(conforms(theme, before.areas@[a].1@[j]));
                } else {
                    assert(after.areas@[a] == after.areas@.last());
                    assert(after.areas@[a].1@[j] == child);
                }
            }
        },
    }
}

/// Filling in the fields that an instance lacks with zero values, as
/// `Theme::fill_defaults` does, keeps an allowed instance allowed.
pub proof fn lemma_fill_defaults_conforms(theme: Theme, before: Module, after: Module)
    requires
        conforms(theme, before),
        defaults_filled(theme, before, after),
    ensures
        conforms(theme, after),
    decreases before,
{
    reveal(conforms);
    let t = theme.template(before.template@)->Some_0;
    assert(fields_filled(theme, before, after.fields@));
    assert forall|i: int| 0 <= i < after.fields@.len() implies declares_field(t, #[trigger] after.fields@[i]) by {
        if i < before.fields@.len() {
            assert(after.fields@.subrange(0, before.fields@.len() as int)[i] == before.fields@[i]);
            assert(declares_field(t, before.fields@[i]));
        } else {
            let d = choose|d: int| 0 <= d < t.fields@.len() && t.fields@[d].0@ == after.fields@[i].0@
                && is_zero_of(after.fields@[i].1, t.fields@[d].1);
            assert(type_of(after.fields@[i].1) == t.fields@[d].1);
            assert(t.fields@[d].0@ == after.fields@[i].0@);
        }
    }
    assert forall|i: int| 0 <= i < after.areas@.len() implies area_admits(t, #[trigger] after.areas@[i]) by {
        assert(area_admits(t, before.areas@[i]));
        let k = key_index(t.areas@, before.areas@[i].0@)->Some_0;
        assert forall|j: int| 0 <= j < after.areas@[i].1@.len() implies admits(t.areas@[k].1, (#[trigger] after.areas@[i].1@[j]).template@) by {
            assert(defaults_filled(theme, before.areas@[i].1@[j], after.areas@[i].1@[j]));
            assert(admits(t.areas@[k].1, before.areas@[i].1@[j].template@));
        }
    }
    assert forall|i: int, j: int| 0 <= i < after.areas@.len() && 0 <= j < after.areas@[i].1@.len()
        implies conforms(theme, #[trigger] after.areas@[i].1@[j]) by {
        assert(defaults_filled(theme, before.areas@[i].1@[j], after.areas@[i].1@[j]));
        assert(conforms(theme, before.areas@[i].1@[j]));
        assert(decreases_to!(before => before.areas@[i].1@[j])) by {
            assert(decreases_to!(before => before.areas));
            assert(decreases_to!(before.areas => before.areas@[i]));
            assert(decreases_to!(before.areas@[i] => before.areas@[i].1));
            assert(decreases_to!(before.areas@[i].1 => before.areas@[i].1@[j]));
        }
        lemma_fill_defaults_conforms(theme, before.areas@[i].1@[j], after.areas@[i].1@[j]);
    }
}

} // verus!
