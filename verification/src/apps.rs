//! Installed applications and the models they register.

use vstd::prelude::*;
use crate::text::{concat3, owned, replace_char, replace_char_str, str_eq};

verus! {

/// An installed application configuration.
#[derive(Debug, Clone)]
pub struct AppConfig {
    /// Crate or package name.
    pub name: String,
    /// Human-readable label.
    pub label: String,
    /// Whether this app provides models.
    pub has_models: bool,
    /// URL prefix.
    pub url_prefix: String,
    /// Namespace for URL reversing.
    pub namespace: String,
    /// Verbose name for display.
    pub verbose_name: String,
}

impl AppConfig {
    /// The configuration of the app `name`: its label is the name with `_`
    /// read as spaces, its URL prefix the name with `_` read as `-` between
    /// slashes; it provides models.
    pub fn new(name: &str) -> (r: Self)
        ensures
            r.name@ == name@,
            r.label@ == replace_char(name@, '_', " "@),
            r.has_models,
            r.url_prefix@ == "/"@ + replace_char(name@, '_', "-"@) + "/"@,
            r.namespace@ == name@,
            r.verbose_name@ == r.label@,
    {
        let label = replace_char_str(name, '_', " ");
        let dashed = replace_char_str(name, '_', "-");
        AppConfig {
            name: owned(name),
            label: label.clone(),
            has_models: true,
            url_prefix: concat3("/", dashed.as_str(), "/"),
            namespace: owned(name),
            verbose_name: label,
        }
    }
}

/// The value under `key` in an association list (the first entry with it).
pub open spec fn assoc_get<V>(s: Seq<(Seq<char>, V)>, key: Seq<char>) -> Option<V>
    decreases s.len(),
{
    if s.len() == 0 {
        None
    } else if s[0].0 == key {
        Some(s[0].1)
    } else {
        assoc_get(s.drop_first(), key)
    }
}

/// An association list with `key` set to `value`: replaced in place when
/// present, added last otherwise.
pub open spec fn assoc_put<V>(s: Seq<(Seq<char>, V)>, key: Seq<char>, value: V) -> Seq<(Seq<char>, V)>
    decreases s.len(),
{
    if s.len() == 0 {
        seq![(key, value)]
    } else if s[0].0 == key {
        s.update(0, (key, value))
    } else {
        seq![s[0]] + assoc_put(s.drop_first(), key, value)
    }
}

/// The position of `key`, when present.
pub open spec fn assoc_index<V>(s: Seq<(Seq<char>, V)>, key: Seq<char>, i: int) -> bool {
    0 <= i <= s.len() && (forall|j: int| 0 <= j < i ==> s[j].0 != key) && (i < s.len() ==> s[i].0 == key)
}

pub proof fn lemma_assoc_at<V>(s: Seq<(Seq<char>, V)>, key: Seq<char>, value: V, i: int)
    requires
        assoc_index(s, key, i),
    ensures
        assoc_put(s, key, value) == if i < s.len() { s.update(i, (key, value)) } else { s.push((key, value)) },
        assoc_get(s, key) == if i < s.len() { Some(s[i].1) } else { None::<V> },
    decreases i,
{
    if i == 0 {
        if s.len() > 0 {
            assert(assoc_put(s, key, value) == s.update(0, (key, value)));
        } else {
            assert(seq![(key, value)] =~= s.push((key, value)));
        }
    } else {
        let t = s.drop_first();
        assert forall|j: int| 0 <= j < i - 1 implies t[j].0 != key by {
            assert(t[j] == s[j + 1]);
        }
        lemma_assoc_at(t, key, value, i - 1);
        assert(s[0].0 != key);
        if i < s.len() {
            assert(seq![s[0]] + t.update(i - 1, (key, value)) =~= s.update(i, (key, value)));
            assert(t[i - 1] == s[i]);
        } else {
            assert(seq![s[0]] + t.push((key, value)) =~= s.push((key, value)));
        }
    }
}

/// Reading a key back gives what was last put under it; other keys keep
/// their values; a key put twice appears once.
pub proof fn law_assoc_get_after_put<V>(s: Seq<(Seq<char>, V)>, key: Seq<char>, value: V, other: Seq<char>)
    ensures
        assoc_get(assoc_put(s, key, value), key) == Some(value),
        other != key ==> assoc_get(assoc_put(s, key, value), other) == assoc_get(s, other),
        assoc_put(assoc_put(s, key, value), key, value) == assoc_put(s, key, value),
    decreases s.len(),
{
    if s.len() == 0 {
        let t = seq![(key, value)];
        assert(t.drop_first() =~= Seq::<(Seq<char>, V)>::empty());
        if other != key {
            assert(assoc_get(t, other) == assoc_get(t.drop_first(), other));
        }
        assert(assoc_put(t, key, value) == t.update(0, (key, value)));
        assert(t.update(0, (key, value)) =~= t);
    } else if s[0].0 == key {
        let t = s.update(0, (key, value));
        assert(t[0] == (key, value));
        assert(t.drop_first() =~= s.drop_first());
        if other != key {
            assert(assoc_get(t, other) == assoc_get(t.drop_first(), other));
        }
        assert(assoc_put(t, key, value) == t.update(0, (key, value)));
        assert(t.update(0, (key, value)) =~= t);
    } else {
        law_assoc_get_after_put(s.drop_first(), key, value, other);
        let rest = assoc_put(s.drop_first(), key, value);
        let t = seq![s[0]] + rest;
        assert(t[0] == s[0]);
        assert(t.drop_first() =~= rest);
        if other != key && s[0].0 != other {
            assert(assoc_get(t, other) == assoc_get(t.drop_first(), other));
        }
        assert(assoc_put(t, key, value) == seq![t[0]] + assoc_put(t.drop_first(), key, value));
    }
}

/// The keys of a keyed list, as text.
pub open spec fn key_views<T>(v: Seq<(String, T)>) -> Seq<Seq<char>> {
    v.map_values(|p: (String, T)| p.0@)
}

/// The position of the first entry with key `key`, or the length when there
/// is none.
pub fn key_position<T>(v: &Vec<(String, T)>, key: &str) -> (i: usize)
    ensures
        i <= v@.len(),
        forall|j: int| 0 <= j < i ==> v@[j].0@ != key@,
        i < v@.len() ==> v@[i as int].0@ == key@,
{
    let mut i: usize = 0;
    while i < v.len()
        invariant
            i <= v@.len(),
            forall|j: int| 0 <= j < i ==> v@[j].0@ != key@,
        decreases v.len() - i,
    {
        if str_eq(v[i].0.as_str(), key) {
            return i;
        }
        i = i + 1;
    }
    i
}

/// `list` with `name` mapped to `table`: replaced in place, or added last.
fn put_model(list: &Vec<(String, &'static str)>, name: &str, table: &'static str) -> (r: Vec<(String, &'static str)>)
    ensures
        model_views(r@) == assoc_put(model_views(list@), name@, table@),
{
    let ghost s = model_views(list@);
    let mut r: Vec<(String, &'static str)> = Vec::new();
    let mut found = false;
    let mut i: usize = 0;
    while i < list.len()
        invariant
            i <= list.len(),
            s == model_views(list@),
            !found ==> model_views(r@) == s.take(i as int) && forall|j: int| 0 <= j < i ==> s[j].0 != name@,
            found ==> exists|k: int| 0 <= k < i && assoc_index(s, name@, k)
                && model_views(r@) == s.update(k, (name@, table@)).take(i as int),
        decreases list.len() - i,
    {
        let ghost before = r@;
        if !found && str_eq(list[i].0.as_str(), name) {
            r.push((owned(name), table));
            found = true;
            assert(assoc_index(s, name@, i as int));
            assert(model_views(r@) =~= model_views(before).push((name@, table@)));
            assert(model_views(r@) =~= s.update(i as int, (name@, table@)).take(i + 1));
        } else {
            r.push((list[i].0.clone(), list[i].1));
            proof {
                if found {
                    let k = choose|k: int| 0 <= k < i && assoc_index(s, name@, k)
                        && model_views(before) == s.update(k, (name@, table@)).take(i as int);
                    assert(model_views(r@) =~= s.update(k, (name@, table@)).take(i + 1));
                } else {
                    assert(model_views(r@) =~= s.take(i + 1));
                }
            }
        }
        i = i + 1;
    }
    if !found {
        let ghost before = r@;
        r.push((owned(name), table));
        assert(s.take(list.len() as int) =~= s);
        proof { lemma_assoc_at(s, name@, table@, list.len() as int); }
        assert(model_views(r@) =~= s.push((name@, table@)));
    } else {
        proof {
            let k = choose|k: int| 0 <= k < list.len() && assoc_index(s, name@, k)
                && model_views(r@) == s.update(k, (name@, table@)).take(list.len() as int);
            lemma_assoc_at(s, name@, table@, k);
            assert(s.update(k, (name@, table@)).take(list.len() as int) =~= s.update(k, (name@, table@)));
        }
    }
    r
}

fn app_config_mut(v: &mut Vec<(String, AppConfig)>, i: usize) -> (r: &mut AppConfig)
    requires
        i < old(v)@.len(),
    ensures
        *r == old(v)@[i as int].1,
        final(v)@ == old(v)@.update(i as int, (old(v)@[i as int].0, *final(r))),
{
    &mut v[i].1
}

/// Application registry: the installed apps and the models of each app.
#[derive(Debug)]
pub struct Registry {
    apps: Vec<(String, AppConfig)>,
    models: Vec<(String, Vec<(String, &'static str)>)>,
}

/// The views of stored apps.
pub open spec fn app_views(v: Seq<(String, AppConfig)>) -> Seq<(Seq<char>, AppConfig)> {
    v.map_values(|e: (String, AppConfig)| (e.0@, e.1))
}

/// The views of one app's models: name and table.
pub open spec fn model_views(v: Seq<(String, &'static str)>) -> Seq<(Seq<char>, Seq<char>)> {
    v.map_values(|e: (String, &'static str)| (e.0@, e.1@))
}

/// The views of stored models, by app.
pub open spec fn models_views(v: Seq<(String, Vec<(String, &'static str)>)>) -> Seq<(Seq<char>, Seq<(Seq<char>, Seq<char>)>)> {
    v.map_values(|e: (String, Vec<(String, &'static str)>)| (e.0@, model_views(e.1@)))
}

impl Registry {
    /// The installed apps by name, in the order they were first installed.
    pub closed spec fn installed(&self) -> Seq<(Seq<char>, AppConfig)> {
        app_views(self.apps@)
    }

    /// The registered models of each app: model name and table, in the order
    /// they were first registered.
    pub closed spec fn registered_models(&self) -> Seq<(Seq<char>, Seq<(Seq<char>, Seq<char>)>)> {
        models_views(self.models@)
    }

    /// An empty registry.
    pub fn new() -> (r: Self)
        ensures
            r.installed().len() == 0,
            r.registered_models().len() == 0,
    {
        let r = Registry { apps: Vec::new(), models: Vec::new() };
        assert(r.installed() =~= Seq::<(Seq<char>, AppConfig)>::empty());
        assert(r.registered_models() =~= Seq::<(Seq<char>, Seq<(Seq<char>, Seq<char>)>)>::empty());
        r
    }

    fn app_position(&self, name: &str) -> (i: usize)
        ensures
            assoc_index(self.installed(), name@, i as int),
    {
        let ghost s = self.installed();
        let mut i: usize = 0;
        while i < self.apps.len()
            invariant
                i <= self.apps.len(),
                s == self.installed(),
                forall|j: int| 0 <= j < i ==> s[j].0 != name@,
            decreases self.apps.len() - i,
        {
            if str_eq(self.apps[i].0.as_str(), name) {
                return i;
            }
            i = i + 1;
        }
        i
    }

    /// Installs `config` under its name, replacing an app of that name.
    pub fn register(&mut self, config: AppConfig)
        ensures
            final(self).installed() == assoc_put(old(self).installed(), config.name@, config),
            final(self).registered_models() == old(self).registered_models(),
    {
        let i = self.app_position(config.name.as_str());
        proof { lemma_assoc_at(self.installed(), config.name@, config, i as int); }
        let ghost before = self.installed();
        let name = config.name.clone();
        if i < self.apps.len() {
            self.apps.set(i, (name, config));
            assert(self.installed() =~= before.update(i as int, (config.name@, config)));
        } else {
            self.apps.push((name, config));
            assert(self.installed() =~= before.push((config.name@, config)));
        }
    }

    /// The app named `name`, if installed.
    pub fn get_app(&self, name: &str) -> (r: Option<&AppConfig>)
        ensures
            match assoc_get(self.installed(), name@) {
                Some(c) => r == Some(&c),
                None => r is None,
            },
    {
        let i = self.app_position(name);
        proof { lemma_assoc_at(self.installed(), name@, arbitrary(), i as int); }
        if i < self.apps.len() {
            Some(&self.apps[i].1)
        } else {
            None
        }
    }

    /// The app named `name`, if installed, to change in place.
    pub fn get_app_mut(&mut self, name: &str) -> (r: Option<&mut AppConfig>)
        ensures
            match assoc_get(old(self).installed(), name@) {
                Some(c) => r matches Some(m) && *m == c
                    && final(self).installed() == assoc_put(old(self).installed(), name@, *final(m)),
                None => r is None && final(self).installed() == old(self).installed(),
            },
            final(self).registered_models() == old(self).registered_models(),
    {
        let i = self.app_position(name);
        proof { lemma_assoc_at(self.installed(), name@, arbitrary(), i as int); }
        if i < self.apps.len() {
            let ghost before = self.installed();
            let m = app_config_mut(&mut self.apps, i);
            proof {
                lemma_assoc_at(before, name@, *final(m), i as int);
                assert(app_views(after_borrow(self.apps)@) =~= before.update(i as int, (name@, *final(m))));
            }
            Some(m)
        } else {
            None
        }
    }

    /// The installed apps, in the order they were first installed.
    pub fn get_apps(&self) -> (r: Vec<&AppConfig>)
        ensures
            r@.len() == self.installed().len(),
            forall|i: int| 0 <= i < r@.len() ==> *r@[i] == self.installed()[i].1,
    {
        let mut r: Vec<&AppConfig> = Vec::new();
        let mut i: usize = 0;
        while i < self.apps.len()
            invariant
                i <= self.apps.len(),
                r@.len() == i,
                forall|j: int| 0 <= j < i ==> *r@[j] == self.installed()[j].1,
            decreases self.apps.len() - i,
        {
            r.push(&self.apps[i].1);
            i = i + 1;
        }
        r
    }

    /// Whether an app named `name` is installed.
    pub fn is_app_installed(&self, name: &str) -> (r: bool)
        ensures
            r == (assoc_get(self.installed(), name@) is Some),
    {
        let i = self.app_position(name);
        proof { lemma_assoc_at(self.installed(), name@, arbitrary(), i as int); }
        i < self.apps.len()
    }

    fn models_position(&self, app_label: &str) -> (i: usize)
        ensures
            assoc_index(self.registered_models(), app_label@, i as int),
    {
        let ghost s = self.registered_models();
        let mut i: usize = 0;
        while i < self.models.len()
            invariant
                i <= self.models.len(),
                s == self.registered_models(),
                forall|j: int| 0 <= j < i ==> s[j].0 != app_label@,
            decreases self.models.len() - i,
        {
            if str_eq(self.models[i].0.as_str(), app_label) {
                return i;
            }
            i = i + 1;
        }
        i
    }

    /// Registers the model `model_name` of `app_label`, stored in `table`;
    /// a model registered again gets the new table.
    pub fn register_model(&mut self, app_label: &str, model_name: &str, table: &'static str)
        ensures
            final(self).registered_models() == assoc_put(old(self).registered_models(), app_label@,
                assoc_put(match assoc_get(old(self).registered_models(), app_label@) {
                    Some(ms) => ms,
                    None => Seq::empty(),
                }, model_name@, table@)),
            final(self).installed() == old(self).installed(),
    {
        let i = self.models_position(app_label);
        let ghost before = self.registered_models();
        proof { lemma_assoc_at(before, app_label@, Seq::empty(), i as int); }
        let empty: Vec<(String, &'static str)> = Vec::new();
        let current = if i < self.models.len() { &self.models[i].1 } else { &empty };
        assert(model_views(empty@) =~= Seq::<(Seq<char>, Seq<char>)>::empty());
        let list = put_model(current, model_name, table);
        let ghost entry_view = model_views(list@);
        proof { lemma_assoc_at(before, app_label@, entry_view, i as int); }
        if i < self.models.len() {
            self.models.set(i, (owned(app_label), list));
            assert(self.registered_models() =~= before.update(i as int, (app_label@, entry_view)));
        } else {
            self.models.push((owned(app_label), list));
            assert(self.registered_models() =~= before.push((app_label@, entry_view)));
        }
    }
}

impl Registry {
    /// The models of `app_label`: name and table, in the order first registered.
    pub fn get_models(&self, app_label: &str) -> (r: Vec<(&str, &str)>)
        ensures
            r@.map_values(|p: (&str, &str)| (p.0@, p.1@)) == match assoc_get(self.registered_models(), app_label@) {
                Some(ms) => ms,
                None => Seq::empty(),
            },
    {
        let i = self.models_position(app_label);
        proof { lemma_assoc_at(self.registered_models(), app_label@, Seq::empty(), i as int); }
        let mut r: Vec<(&str, &str)> = Vec::new();
        if i < self.models.len() {
            let list = &self.models[i].1;
            let ghost ms = model_views(list@);
            let mut k: usize = 0;
            while k < list.len()
                invariant
                    k <= list.len(),
                    ms == model_views(list@),
                    r@.map_values(|p: (&str, &str)| (p.0@, p.1@)) == ms.take(k as int),
                decreases list.len() - k,
            {
                let ghost before = r@;
                r.push((list[k].0.as_str(), list[k].1));
                assert(r@.map_values(|p: (&str, &str)| (p.0@, p.1@)) =~= before.map_values(|p: (&str, &str)| (p.0@, p.1@)).push(ms[k as int]));
                assert(ms.take(k + 1) =~= ms.take(k as int).push(ms[k as int]));
                k = k + 1;
            }
            assert(ms.take(list.len() as int) =~= ms);
        } else {
            assert(r@.map_values(|p: (&str, &str)| (p.0@, p.1@)) =~= Seq::<(Seq<char>, Seq<char>)>::empty());
        }
        r
    }
}

impl Default for Registry {
    fn default() -> (r: Self)
        ensures
            r.installed().len() == 0,
            r.registered_models().len() == 0,
    {
        Registry::new()
    }
}

} // verus!
