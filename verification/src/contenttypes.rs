//! Content types: a registry that numbers each `(app_label, model)` pair once.

use vstd::prelude::*;
use crate::text::{concat3, owned, str_eq};

verus! {

/// A registered model: its id, app label and model name.
#[derive(Debug, Clone)]
pub struct ContentType {
    pub id: i64,
    pub app_label: String,
    pub model: String,
}

/// What a content type holds: id, app label, model.
pub type ContentTypeView = (i64, Seq<char>, Seq<char>);

impl View for ContentType {
    type V = ContentTypeView;

    open spec fn view(&self) -> ContentTypeView {
        (self.id, self.app_label@, self.model@)
    }
}

impl ContentType {
    /// A content type with the given parts.
    pub fn new(id: i64, app_label: &str, model: &str) -> (r: Self)
        ensures
            r@ == (id, app_label@, model@),
    {
        ContentType { id, app_label: owned(app_label), model: owned(model) }
    }

    /// `app_label.model`.
    pub fn name(&self) -> (r: String)
        ensures
            r@ == self.app_label@ + "."@ + self.model@,
    {
        concat3(self.app_label.as_str(), ".", self.model.as_str())
    }

    /// The model name.
    pub fn model_class_name(&self) -> (r: &str)
        ensures
            r@ == self.model@,
    {
        self.model.as_str()
    }

    /// The app label.
    pub fn app_label(&self) -> (r: &str)
        ensures
            r@ == self.app_label@,
    {
        self.app_label.as_str()
    }

    fn duplicate(&self) -> (r: Self)
        ensures
            r@ == self@,
    {
        ContentType { id: self.id, app_label: self.app_label.clone(), model: self.model.clone() }
    }
}

/// The registry of content types, in registration order, and the next id to give.
pub struct ContentTypeManager {
    types: Vec<ContentType>,
    next_id: i64,
}

/// The views of a list of content types.
pub open spec fn type_views(v: Seq<ContentType>) -> Seq<ContentTypeView> {
    v.map_values(|c: ContentType| c@)
}

/// The registered type with the given app label and model.
pub open spec fn find_natural(s: Seq<ContentTypeView>, app_label: Seq<char>, model: Seq<char>) -> Option<ContentTypeView>
    decreases s.len(),
{
    if s.len() == 0 {
        None
    } else if s[0].1 == app_label && s[0].2 == model {
        Some(s[0])
    } else {
        find_natural(s.drop_first(), app_label, model)
    }
}

/// The registered type with the given id.
pub open spec fn find_id(s: Seq<ContentTypeView>, id: i64) -> Option<ContentTypeView>
    decreases s.len(),
{
    if s.len() == 0 {
        None
    } else if s[0].0 == id {
        Some(s[0])
    } else {
        find_id(s.drop_first(), id)
    }
}

proof fn lemma_find_natural_at(s: Seq<ContentTypeView>, app_label: Seq<char>, model: Seq<char>, i: int)
    requires
        0 <= i <= s.len(),
        forall|j: int| 0 <= j < i ==> !(s[j].1 == app_label && s[j].2 == model),
        i < s.len() ==> s[i].1 == app_label && s[i].2 == model,
    ensures
        find_natural(s, app_label, model) == (if i < s.len() { Some(s[i]) } else { None::<ContentTypeView> }),
    decreases i,
{
    if i > 0 {
        let t = s.drop_first();
        assert forall|j: int| 0 <= j < i - 1 implies !(t[j].1 == app_label && t[j].2 == model) by {
            assert(t[j] == s[j + 1]);
        }
        lemma_find_natural_at(t, app_label, model, i - 1);
    }
}

proof fn lemma_find_id_at(s: Seq<ContentTypeView>, id: i64, i: int)
    requires
        0 <= i <= s.len(),
        forall|j: int| 0 <= j < i ==> s[j].0 != id,
        i < s.len() ==> s[i].0 == id,
    ensures
        find_id(s, id) == (if i < s.len() { Some(s[i]) } else { None::<ContentTypeView> }),
    decreases i,
{
    if i > 0 {
        let t = s.drop_first();
        assert forall|j: int| 0 <= j < i - 1 implies t[j].0 != id by {
            assert(t[j] == s[j + 1]);
        }
        lemma_find_id_at(t, id, i - 1);
    }
}

proof fn lemma_find_natural_push(s: Seq<ContentTypeView>, e: ContentTypeView, app_label: Seq<char>, model: Seq<char>)
    requires
        find_natural(s, app_label, model) is None,
        e.1 == app_label && e.2 == model,
    ensures
        find_natural(s.push(e), app_label, model) == Some(e),
    decreases s.len(),
{
    if s.len() == 0 {
        assert(s.push(e)[0] == e);
    } else {
        lemma_find_natural_push(s.drop_first(), e, app_label, model);
        assert(s.push(e).drop_first() =~= s.drop_first().push(e));
    }
}

/// Registering `(app_label, model)` with the registered types `s` and next
/// id `next`: the type found, or a new one with the next id; then the types
/// and the next id afterwards.
pub open spec fn registered(s: Seq<ContentTypeView>, next: int, app_label: Seq<char>, model: Seq<char>)
    -> (ContentTypeView, Seq<ContentTypeView>, int)
{
    match find_natural(s, app_label, model) {
        Some(t) => (t, s, next),
        None => ((next as i64, app_label, model), s.push((next as i64, app_label, model)), next + 1),
    }
}

/// Registering the same pair twice gives the same content type, and the
/// second registration changes nothing.
pub proof fn law_register_twice(s: Seq<ContentTypeView>, next: int, app_label: Seq<char>, model: Seq<char>)
    ensures
        ({
            let (r1, s1, n1) = registered(s, next, app_label, model);
            let (r2, s2, n2) = registered(s1, n1, app_label, model);
            r2 == r1 && s2 == s1 && n2 == n1
        }),
{
    if find_natural(s, app_label, model) is None {
        lemma_find_natural_push(s, (next as i64, app_label, model), app_label, model);
    }
}

/// The ids run 1, 2, 3, ... in registration order, and the next id
/// follows the last.
pub open spec fn ids_in_order(s: Seq<ContentTypeView>, next: int) -> bool {
    &&& forall|i: int| 0 <= i < s.len() ==> (#[trigger] s[i]).0 == i + 1
    &&& next == s.len() + 1
}

/// Law: content types get the ids 1, 2, 3, ... in the order of their first
/// registration. An empty registry (next id 1) has this order, and each
/// registration keeps it.
pub proof fn law_ids_in_registration_order(s: Seq<ContentTypeView>, next: int, app_label: Seq<char>, model: Seq<char>)
    requires
        ids_in_order(s, next),
        next < i64::MAX,
    ensures
        ids_in_order(Seq::empty(), 1),
        ({
            let (r, s1, n1) = registered(s, next, app_label, model);
            ids_in_order(s1, n1)
        }),
{
    if find_natural(s, app_label, model) is None {
        let e = (next as i64, app_label, model);
        let s1 = s.push(e);
        assert forall|i: int| 0 <= i < s1.len() implies (#[trigger] s1[i]).0 == i + 1 by {
            if i < s.len() {
                assert(s1[i] == s[i]);
            }
        }
    }
}

proof fn lemma_find_natural_index(s: Seq<ContentTypeView>, app_label: Seq<char>, model: Seq<char>)
    ensures
        find_natural(s, app_label, model) matches Some(t) ==> exists|i: int| 0 <= i < s.len() && s[i] == t,
    decreases s.len(),
{
    if s.len() > 0 && !(s[0].1 == app_label && s[0].2 == model) {
        lemma_find_natural_index(s.drop_first(), app_label, model);
        if let Some(t) = find_natural(s, app_label, model) {
            let i = choose|i: int| 0 <= i < s.drop_first().len() && s.drop_first()[i] == t;
            assert(s[i + 1] == t);
        }
    } else if s.len() > 0 {
        assert(s[0] == find_natural(s, app_label, model)->0);
    }
}

/// Law: once a pair is registered, looking it up by the id it got, or by the
/// pair, gives the content type that the registration answered.
pub proof fn law_lookup_after_register(s: Seq<ContentTypeView>, next: int, app_label: Seq<char>, model: Seq<char>)
    requires
        ids_in_order(s, next),
        next < i64::MAX,
    ensures
        ({
            let (r, s1, n1) = registered(s, next, app_label, model);
            find_id(s1, r.0) == Some(r) && find_natural(s1, app_label, model) == Some(r)
        }),
{
    lemma_find_natural_index(s, app_label, model);
    match find_natural(s, app_label, model) {
        Some(t) => {
            let i = choose|i: int| 0 <= i < s.len() && s[i] == t;
            assert forall|j: int| 0 <= j < i implies s[j].0 != t.0 by {
                assert(s[j].0 == j + 1);
                assert(s[i].0 == i + 1);
            }
            lemma_find_id_at(s, t.0, i);
        },
        None => {
            let e = (next as i64, app_label, model);
            let s1 = s.push(e);
            assert forall|j: int| 0 <= j < s.len() implies s1[j].0 != e.0 by {
                assert(s1[j] == s[j]);
                assert(s[j].0 == j + 1);
            }
            assert(s1[s.len() as int] == e);
            lemma_find_id_at(s1, e.0, s.len() as int);
            lemma_find_natural_push(s, e, app_label, model);
        },
    }
}

proof fn lemma_find_natural_push_keeps(s: Seq<ContentTypeView>, e: ContentTypeView, app_label: Seq<char>, model: Seq<char>)
    requires
        find_natural(s, app_label, model) is Some,
    ensures
        find_natural(s.push(e), app_label, model) == find_natural(s, app_label, model),
    decreases s.len(),
{
    if !(s[0].1 == app_label && s[0].2 == model) {
        lemma_find_natural_push_keeps(s.drop_first(), e, app_label, model);
        assert(s.push(e).drop_first() =~= s.drop_first().push(e));
    }
    assert(s.push(e)[0] == s[0]);
}

/// The registered types and the next id after registering `pairs` in order,
/// starting from an empty registry.
pub open spec fn register_all(pairs: Seq<(Seq<char>, Seq<char>)>) -> (Seq<ContentTypeView>, int)
    decreases pairs.len(),
{
    if pairs.len() == 0 {
        (Seq::empty(), 1)
    } else {
        let (s, n) = register_all(pairs.drop_last());
        let (r, s1, n1) = registered(s, n, pairs.last().0, pairs.last().1);
        (s1, n1)
    }
}

/// What the registration of `pairs[k]` answers in that run.
pub open spec fn answer_at(pairs: Seq<(Seq<char>, Seq<char>)>, k: int) -> ContentTypeView {
    let (s, n) = register_all(pairs.take(k));
    registered(s, n, pairs[k].0, pairs[k].1).0
}

/// Law: registering any sequence of pairs on an empty registry gives the ids
/// 1, 2, 3, ... in order of first registration; every registration of a pair
/// answers the same content type, which looking up the pair or its id then
/// finds.
pub proof fn law_register_sequence(pairs: Seq<(Seq<char>, Seq<char>)>, k: int)
    requires
        pairs.len() + 1 < i64::MAX,
        0 <= k < pairs.len(),
    ensures
        ids_in_order(register_all(pairs).0, register_all(pairs).1),
        find_natural(register_all(pairs).0, pairs[k].0, pairs[k].1) == Some(answer_at(pairs, k)),
        find_id(register_all(pairs).0, answer_at(pairs, k).0) == Some(answer_at(pairs, k)),
    decreases pairs.len(),
{
    lemma_register_all_order(pairs);
    let (s, n) = register_all(pairs);
    if k == pairs.len() - 1 {
        assert(pairs.take(k) =~= pairs.drop_last());
        lemma_register_all_order(pairs.drop_last());
        let (s0, n0) = register_all(pairs.drop_last());
        law_lookup_after_register(s0, n0, pairs[k].0, pairs[k].1);
    } else {
        let prev = pairs.drop_last();
        assert(prev[k] == pairs[k]);
        assert(prev.take(k) =~= pairs.take(k));
        law_register_sequence(prev, k);
        lemma_register_all_order(prev);
        let (s0, n0) = register_all(prev);
        let a = answer_at(pairs, k);
        assert(answer_at(prev, k) == a);
        if find_natural(s0, pairs.last().0, pairs.last().1) is None {
            let e = (n0 as i64, pairs.last().0, pairs.last().1);
            lemma_find_natural_push_keeps(s0, e, pairs[k].0, pairs[k].1);
            lemma_find_id_push_keeps(s0, e, a.0);
        }
    }
}

proof fn lemma_find_id_push_keeps(s: Seq<ContentTypeView>, e: ContentTypeView, id: i64)
    requires
        find_id(s, id) is Some,
    ensures
        find_id(s.push(e), id) == find_id(s, id),
    decreases s.len(),
{
    if s[0].0 != id {
        lemma_find_id_push_keeps(s.drop_first(), e, id);
        assert(s.push(e).drop_first() =~= s.drop_first().push(e));
    }
    assert(s.push(e)[0] == s[0]);
}

proof fn lemma_register_all_order(pairs: Seq<(Seq<char>, Seq<char>)>)
    requires
        pairs.len() + 1 < i64::MAX,
    ensures
        ids_in_order(register_all(pairs).0, register_all(pairs).1),
        register_all(pairs).1 <= pairs.len() + 1,
    decreases pairs.len(),
{
    if pairs.len() > 0 {
        lemma_register_all_order(pairs.drop_last());
        let (s, n) = register_all(pairs.drop_last());
        law_ids_in_registration_order(s, n, pairs.last().0, pairs.last().1);
    }
}

impl ContentTypeManager {
    /// The registered types, in registration order.
    pub closed spec fn spec_types(&self) -> Seq<ContentTypeView> {
        type_views(self.types@)
    }

    /// The id the next new registration gets.
    pub closed spec fn spec_next_id(&self) -> i64 {
        self.next_id
    }

    /// Every registered id is below the next id.
    pub closed spec fn wf(&self) -> bool {
        forall|i: int| 0 <= i < self.types@.len() ==> (#[trigger] self.types@[i]).id < self.next_id
    }

    /// An empty registry whose first id is 1.
    pub fn new() -> (r: Self)
        ensures
            r.wf(),
            r.spec_types().len() == 0,
            r.spec_next_id() == 1,
    {
        ContentTypeManager { types: Vec::new(), next_id: 1 }
    }

    fn position_natural(&self, app_label: &str, model: &str) -> (r: usize)
        ensures
            r <= self.spec_types().len(),
            find_natural(self.spec_types(), app_label@, model@)
                == (if r < self.spec_types().len() { Some(self.spec_types()[r as int]) } else { None::<ContentTypeView> }),
    {
        let mut i: usize = 0;
        while i < self.types.len()
            invariant
                i <= self.types@.len(),
                forall|j: int| 0 <= j < i ==> !(self.spec_types()[j].1 == app_label@ && self.spec_types()[j].2 == model@),
            decreases self.types.len() - i,
        {
            if str_eq(self.types[i].app_label.as_str(), app_label) && str_eq(self.types[i].model.as_str(), model) {
                proof { lemma_find_natural_at(self.spec_types(), app_label@, model@, i as int); }
                return i;
            }
            i = i + 1;
        }
        proof { lemma_find_natural_at(self.spec_types(), app_label@, model@, i as int); }
        i
    }

    /// The content type for `(app_label, model)`: the one registered before,
    /// or a new one with the next id.
    pub fn register(&mut self, app_label: &str, model: &str) -> (r: ContentType)
        requires
            old(self).wf(),
            old(self).spec_next_id() < i64::MAX,
        ensures
            final(self).wf(),
            (r@, final(self).spec_types(), final(self).spec_next_id() as int)
                == registered(old(self).spec_types(), old(self).spec_next_id() as int, app_label@, model@),
            find_natural(final(self).spec_types(), app_label@, model@) == Some(r@),
    {
        let i = self.position_natural(app_label, model);
        if i < self.types.len() {
            return self.types[i].duplicate();
        }
        let id = self.next_id;
        self.next_id = self.next_id + 1;
        let ct = ContentType::new(id, app_label, model);
        let ghost before = self.types@;
        self.types.push(ct.duplicate());
        assert(type_views(self.types@) =~= type_views(before).push(ct@));
        proof { lemma_find_natural_push(type_views(before), ct@, app_label@, model@); }
        ct
    }

    /// The content type for `(app_label, model)`, if registered.
    pub fn get_for_model(&self, app_label: &str, model: &str) -> (r: Option<&ContentType>)
        ensures
            match find_natural(self.spec_types(), app_label@, model@) {
                Some(t) => r matches Some(c) && c@ == t,
                None => r is None,
            },
    {
        let i = self.position_natural(app_label, model);
        if i < self.types.len() {
            Some(&self.types[i])
        } else {
            None
        }
    }

    /// The content type with `id`, if registered.
    pub fn get_for_id(&self, id: i64) -> (r: Option<&ContentType>)
        ensures
            match find_id(self.spec_types(), id) {
                Some(t) => r matches Some(c) && c@ == t,
                None => r is None,
            },
    {
        let mut i: usize = 0;
        while i < self.types.len()
            invariant
                i <= self.types@.len(),
                forall|j: int| 0 <= j < i ==> self.spec_types()[j].0 != id,
            decreases self.types.len() - i,
        {
            if self.types[i].id == id {
                proof { lemma_find_id_at(self.spec_types(), id, i as int); }
                return Some(&self.types[i]);
            }
            i = i + 1;
        }
        proof { lemma_find_id_at(self.spec_types(), id, i as int); }
        None
    }

    /// Every registered content type, in registration order.
    pub fn get_all(&self) -> (r: Vec<&ContentType>)
        ensures
            r@.len() == self.spec_types().len(),
            forall|i: int| 0 <= i < r@.len() ==> r@[i]@ == self.spec_types()[i],
    {
        let mut r: Vec<&ContentType> = Vec::new();
        let mut i: usize = 0;
        while i < self.types.len()
            invariant
                i <= self.types@.len(),
                r@.len() == i,
                forall|j: int| 0 <= j < i ==> r@[j]@ == self.spec_types()[j],
            decreases self.types.len() - i,
        {
            r.push(&self.types[i]);
            i = i + 1;
        }
        r
    }

    /// Forgets every registration; ids keep counting from where they were.
    pub fn clear(&mut self)
        ensures
            final(self).wf(),
            final(self).spec_types().len() == 0,
            final(self).spec_next_id() == old(self).spec_next_id(),
    {
        self.types = Vec::new();
    }
}

/// The manager held in `registry`, if one was created.
pub fn get_content_type_manager(registry: &Option<ContentTypeManager>) -> (r: Option<&ContentTypeManager>)
    ensures
        match *registry {
            Some(m) => r == Some(&m),
            None => r is None,
        },
{
    match registry {
        Some(m) => Some(m),
        None => None,
    }
}

/// Registers `(app_label, model)` in `registry`, creating the registry on
/// first use.
pub fn register_content_type(registry: &mut Option<ContentTypeManager>, app_label: &str, model: &str) -> (r: ContentType)
    requires
        match *old(registry) {
            Some(m) => m.wf() && m.spec_next_id() < i64::MAX,
            None => true,
        },
    ensures
        *final(registry) matches Some(m) && m.wf() && find_natural(m.spec_types(), app_label@, model@) == Some(r@),
        match *old(registry) {
            Some(m) => match find_natural(m.spec_types(), app_label@, model@) {
                Some(t) => r@ == t,
                None => r@ == (m.spec_next_id(), app_label@, model@),
            },
            None => r@ == (1i64, app_label@, model@),
        },
{
    let mut m = match registry.take() {
        Some(m) => m,
        None => ContentTypeManager::new(),
    };
    let r = m.register(app_label, model);
    *registry = Some(m);
    r
}

/// A content type with id 0 that is not registered anywhere.
pub fn get_content_type(app_label: &str, model: &str) -> (r: ContentType)
    ensures
        r@ == (0i64, app_label@, model@),
{
    ContentType::new(0, app_label, model)
}

/// The content type registered for `(app_label, model)` in `registry`.
pub fn lookup_content_type(registry: &Option<ContentTypeManager>, app_label: &str, model: &str) -> (r: Option<ContentType>)
    ensures
        match *registry {
            Some(m) => match find_natural(m.spec_types(), app_label@, model@) {
                Some(t) => r matches Some(c) && c@ == t,
                None => r is None,
            },
            None => r is None,
        },
{
    match registry {
        Some(m) => match m.get_for_model(app_label, model) {
            Some(c) => Some(c.duplicate()),
            None => None,
        },
        None => None,
    }
}

} // verus!
