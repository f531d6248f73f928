//! Method identifiers and the registry that hands them out.
use vstd::prelude::*;

verus! {

/// Opaque method identifier, handed out by [`MethodRegistry`].
///
/// Process-local: two processes may assign different ids to the same
/// (service, method) pair.
#[derive(Debug, Clone, Copy, PartialEq, Eq, Hash, PartialOrd, Ord, Structural)]
pub struct MethodId(pub u64);

impl MethodId {
    /// The numeric value of the id.
    pub fn value(&self) -> (r: u64)
        ensures
            r == self.0,
    {
        self.0
    }
}

/// The method name that a service-only id stands for.
pub const SERVICE_WILDCARD: &'static str = "*";

/// A registered (service, method) pair.
#[derive(Debug)]
struct MethodEntry {
    service: String,
    method: String,
    id: u64,
}

/// A registered service.
#[derive(Debug)]
struct ServiceEntry {
    service: String,
    id: u64,
}

/// The abstract content of an entry: names and id.
pub struct EntryView {
    pub service: Seq<char>,
    pub method: Seq<char>,
    pub id: u64,
}

/// The abstract registry: the method entries, the service entries (with the
/// wildcard method name), and the next id to hand out.
pub struct RegistryView {
    pub methods: Seq<EntryView>,
    pub services: Seq<EntryView>,
    pub next_id: u64,
}

/// The id registered for (`service`, `method`) in `es`: the first match.
pub open spec fn find_id(es: Seq<EntryView>, service: Seq<char>, method: Seq<char>) -> Option<u64>
    decreases es.len(),
{
    if es.len() == 0 {
        None
    } else if es[0].service == service && es[0].method == method {
        Some(es[0].id)
    } else {
        find_id(es.drop_first(), service, method)
    }
}

/// The names registered for `id` in `es`: the first match.
pub open spec fn find_names(es: Seq<EntryView>, id: u64) -> Option<(Seq<char>, Seq<char>)>
    decreases es.len(),
{
    if es.len() == 0 {
        None
    } else if es[0].id == id {
        Some((es[0].service, es[0].method))
    } else {
        find_names(es.drop_first(), id)
    }
}

/// The names an id stands for in the registry `r`: a method's names, or a
/// service's name with the wildcard method.
pub open spec fn names_of(r: RegistryView, id: u64) -> Option<(Seq<char>, Seq<char>)> {
    match find_names(r.methods, id) {
        Some(n) => Some(n),
        None => find_names(r.services, id),
    }
}

/// The registry `r` after registering the method `service`::`method`:
/// unchanged when it is known, else with a new entry under the next id.
pub open spec fn with_method(r: RegistryView, service: Seq<char>, method: Seq<char>) -> RegistryView {
    match find_id(r.methods, service, method) {
        Some(_) => r,
        None => RegistryView {
            methods: r.methods.push(EntryView { service, method, id: r.next_id }),
            next_id: (r.next_id + 1) as u64,
            ..r
        },
    }
}

/// The registry `r` after registering the service `service`: unchanged
/// when it is known, else with a new entry under the next id.
pub open spec fn with_service(r: RegistryView, service: Seq<char>) -> RegistryView {
    match find_id(r.services, service, SERVICE_WILDCARD@) {
        Some(_) => r,
        None => RegistryView {
            services: r.services.push(EntryView { service, method: SERVICE_WILDCARD@, id: r.next_id }),
            next_id: (r.next_id + 1) as u64,
            ..r
        },
    }
}

/// The registry is well formed: every id is in `1..next_id` and is handed
/// out once, over methods and services together, and every service entry
/// has the wildcard method name.
pub open spec fn registry_wf(r: RegistryView) -> bool {
    let all = r.methods + r.services;
    &&& forall|i: int| 0 <= i < all.len() ==> 1 <= (#[trigger] all[i]).id < r.next_id
    &&& forall|i: int, j: int|
        #![trigger all[i], all[j]]
        0 <= i < all.len() && 0 <= j < all.len() && i != j ==> all[i].id != all[j].id
    &&& forall|i: int| 0 <= i < r.services.len() ==> (#[trigger] r.services[i]).method == SERVICE_WILDCARD@
    &&& r.next_id >= 1
}

/// Registry mapping (service, method) pairs, and services alone, to
/// compact numeric ids, with the reverse lookup. Ids come from one counter
/// starting at 1.
#[derive(Debug)]
pub struct MethodRegistry {
    methods: Vec<MethodEntry>,
    services: Vec<ServiceEntry>,
    next_id: u64,
}

impl View for MethodRegistry {
    type V = RegistryView;

    closed spec fn view(&self) -> RegistryView {
        RegistryView {
            methods: self.methods@.map_values(
                |e: MethodEntry| EntryView { service: e.service@, method: e.method@, id: e.id },
            ),
            services: self.services@.map_values(
                |e: ServiceEntry| EntryView { service: e.service@, method: SERVICE_WILDCARD@, id: e.id },
            ),
            next_id: self.next_id,
        }
    }
}

proof fn lemma_find_id_push(es: Seq<EntryView>, e: EntryView, service: Seq<char>, method: Seq<char>)
    ensures
        find_id(es.push(e), service, method) == match find_id(es, service, method) {
            Some(id) => Some(id),
            None => if e.service == service && e.method == method { Some(e.id) } else { None::<u64> },
        },
    decreases es.len(),
{
    let p = es.push(e);
    assert(p.len() > 0);
    if es.len() > 0 {
        assert(p[0] == es[0]);
        assert(p.drop_first() =~= es.drop_first().push(e));
        lemma_find_id_push(es.drop_first(), e, service, method);
        if !(es[0].service == service && es[0].method == method) {
            assert(find_id(p, service, method) == find_id(p.drop_first(), service, method));
            assert(find_id(es, service, method) == find_id(es.drop_first(), service, method));
        }
    } else {
        assert(es.push(e)[0] == e);
        assert(es.push(e).drop_first() =~= Seq::<EntryView>::empty());
    }
}

proof fn lemma_find_names_push(es: Seq<EntryView>, e: EntryView, id: u64)
    ensures
        find_names(es.push(e), id) == match find_names(es, id) {
            Some(n) => Some(n),
            None => if e.id == id { Some((e.service, e.method)) } else { None::<(Seq<char>, Seq<char>)> },
        },
    decreases es.len(),
{
    let p = es.push(e);
    assert(p.len() > 0);
    if es.len() > 0 {
        assert(p[0] == es[0]);
        assert(p.drop_first() =~= es.drop_first().push(e));
        lemma_find_names_push(es.drop_first(), e, id);
        if es[0].id != id {
            assert(find_names(p, id) == find_names(p.drop_first(), id));
            assert(find_names(es, id) == find_names(es.drop_first(), id));
        }
    } else {
        assert(es.push(e)[0] == e);
        assert(es.push(e).drop_first() =~= Seq::<EntryView>::empty());
    }
}

/// An id below every id of `es` is not registered in `es`.
proof fn lemma_find_names_fresh(es: Seq<EntryView>, id: u64)
    requires
        forall|i: int| 0 <= i < es.len() ==> (#[trigger] es[i]).id != id,
    ensures
        find_names(es, id) == None::<(Seq<char>, Seq<char>)>,
    decreases es.len(),
{
    if es.len() > 0 {
        assert(es[0].id != id);
        assert forall|i: int| 0 <= i < es.drop_first().len() implies (#[trigger] es.drop_first()[i]).id != id by {
            assert(es.drop_first()[i] == es[i + 1]);
        }
        lemma_find_names_fresh(es.drop_first(), id);
    }
}

/// A found id is the id of some entry with those names.
proof fn lemma_find_id_found(es: Seq<EntryView>, service: Seq<char>, method: Seq<char>)
    ensures
        match find_id(es, service, method) {
            Some(id) => exists|i: int|
                0 <= i < es.len() && (#[trigger] es[i]).service == service && es[i].method == method
                    && es[i].id == id,
            None => forall|i: int|
                0 <= i < es.len() ==> !((#[trigger] es[i]).service == service && es[i].method == method),
        },
    decreases es.len(),
{
    if es.len() > 0 {
        lemma_find_id_found(es.drop_first(), service, method);
        if !(es[0].service == service && es[0].method == method) {
            match find_id(es.drop_first(), service, method) {
                Some(id) => {
                    let i = choose|i: int|
                        0 <= i < es.drop_first().len() && (#[trigger] es.drop_first()[i]).service == service
                            && es.drop_first()[i].method == method && es.drop_first()[i].id == id;
                    assert(es[i + 1] == es.drop_first()[i]);
                },
                None => {
                    assert forall|i: int| 0 <= i < es.len() implies !((#[trigger] es[i]).service == service
                        && es[i].method == method) by {
                        if i > 0 {
                            assert(es[i] == es.drop_first()[i - 1]);
                        }
                    }
                },
            }
        }
    }
}

/// The names found for the id of entry `i` are the entry's, when ids are
/// distinct.
proof fn lemma_find_names_at(es: Seq<EntryView>, i: int)
    requires
        0 <= i < es.len(),
        forall|a: int, b: int| #![trigger es[a], es[b]] 0 <= a < es.len() && 0 <= b < es.len() && a != b ==> es[a].id != es[b].id,
    ensures
        find_names(es, es[i].id) == Some((es[i].service, es[i].method)),
    decreases es.len(),
{
    if i > 0 {
        assert(es[0].id != es[i].id);
        let t = es.drop_first();
        assert(t[i - 1] == es[i]);
        assert forall|a: int, b: int| #![trigger t[a], t[b]] 0 <= a < t.len() && 0 <= b < t.len() && a != b implies t[a].id != t[b].id by {
            assert(t[a] == es[a + 1] && t[b] == es[b + 1]);
        }
        lemma_find_names_at(t, i - 1);
    }
}

impl MethodRegistry {
    /// An empty registry; the first id handed out is 1.
    pub fn new() -> (r: MethodRegistry)
        ensures
            registry_wf(r@),
            r@.methods.len() == 0,
            r@.services.len() == 0,
            r@.next_id == 1,
    {
        let r = MethodRegistry { methods: Vec::new(), services: Vec::new(), next_id: 1 };
        assert(r@.methods + r@.services =~= Seq::<EntryView>::empty());
        r
    }

    /// The id of (`service`, `method`), registering the pair with the next
    /// id if it has none.
    pub fn get_or_register(&mut self, service: &str, method: &str) -> (id: MethodId)
        requires
            registry_wf(old(self)@),
            old(self)@.next_id < u64::MAX,
        ensures
            registry_wf(final(self)@),
            final(self)@.services == old(self)@.services,
            match find_id(old(self)@.methods, service@, method@) {
                Some(existing) => id.0 == existing && final(self)@ == old(self)@,
                None => {
                    &&& id.0 == old(self)@.next_id
                    &&& final(self)@.next_id == old(self)@.next_id + 1
                    &&& final(self)@.methods == old(self)@.methods.push(
                        EntryView { service: service@, method: method@, id: id.0 },
                    )
                },
            },
            find_id(final(self)@.methods, service@, method@) == Some(id.0),
            final(self)@ == with_method(old(self)@, service@, method@),
    {
        let ghost v0 = self@;
        let service_key = String::from_str(service);
        let method_key = String::from_str(method);
        let mut i: usize = 0;
        assert(v0.methods.skip(0) =~= v0.methods);
        while i < self.methods.len()
            invariant
                0 <= i <= v0.methods.len(),
                self@ == v0,
                v0 == old(self)@,
                registry_wf(v0),
                service_key@ == service@,
                method_key@ == method@,
                find_id(v0.methods, service@, method@) == find_id(v0.methods.skip(i as int), service@, method@),
            decreases v0.methods.len() - i,
        {
            let e = &self.methods[i];
            proof {
                assert(v0.methods.skip(i as int)[0] == v0.methods[i as int]);
                assert(v0.methods.skip(i as int).drop_first() =~= v0.methods.skip(i + 1));
            }
            if e.service == service_key && e.method == method_key {
                return MethodId(e.id);
            }
            i = i + 1;
        }
        proof {
            assert(v0.methods.skip(i as int).len() == 0);
        }
        let id = self.next_id;
        self.next_id = id + 1;
        self.methods.push(MethodEntry { service: service_key, method: method_key, id });
        proof {
            let v = self@;
            let e = EntryView { service: service@, method: method@, id };
            assert(v.methods =~= v0.methods.push(e));
            assert(v.services =~= v0.services);
            lemma_find_id_push(v0.methods, e, service@, method@);
            let all0 = v0.methods + v0.services;
            let all = v.methods + v.services;
            assert forall|k: int| 0 <= k < all.len() implies 1 <= (#[trigger] all[k]).id < v.next_id by {
                if k < v0.methods.len() {
                    assert(all[k] == all0[k]);
                } else if k > v0.methods.len() {
                    assert(all[k] == all0[k - 1]);
                }
            }
            assert forall|a: int, b: int|
                #![trigger all[a], all[b]]
                0 <= a < all.len() && 0 <= b < all.len() && a != b implies all[a].id != all[b].id by {
                let m = v0.methods.len() as int;
                let ia = if a < m { a } else if a == m { -1 } else { a - 1 };
                let ib = if b < m { b } else if b == m { -1 } else { b - 1 };
                if ia >= 0 {
                    assert(all[a] == all0[ia]);
                }
                if ib >= 0 {
                    assert(all[b] == all0[ib]);
                }
            }
            assert forall|k: int| 0 <= k < v.services.len() implies (#[trigger] v.services[k]).method == SERVICE_WILDCARD@ by {
                assert(v.services[k] == v0.services[k]);
            }
        }
        MethodId(id)
    }

    /// The id of the service-only key `service`, registering it with the
    /// next id if it has none. Its reverse lookup gives `service` and the
    /// wildcard method name.
    pub fn get_or_register_service(&mut self, service: &str) -> (id: MethodId)
        requires
            registry_wf(old(self)@),
            old(self)@.next_id < u64::MAX,
        ensures
            registry_wf(final(self)@),
            final(self)@.methods == old(self)@.methods,
            match find_id(old(self)@.services, service@, SERVICE_WILDCARD@) {
                Some(existing) => id.0 == existing && final(self)@ == old(self)@,
                None => {
                    &&& id.0 == old(self)@.next_id
                    &&& final(self)@.next_id == old(self)@.next_id + 1
                    &&& final(self)@.services == old(self)@.services.push(
                        EntryView { service: service@, method: SERVICE_WILDCARD@, id: id.0 },
                    )
                },
            },
            find_id(final(self)@.services, service@, SERVICE_WILDCARD@) == Some(id.0),
            final(self)@ == with_service(old(self)@, service@),
    {
        let ghost v0 = self@;
        let service_key = String::from_str(service);
        let mut i: usize = 0;
        assert(v0.services.skip(0) =~= v0.services);
        while i < self.services.len()
            invariant
                0 <= i <= v0.services.len(),
                self@ == v0,
                v0 == old(self)@,
                registry_wf(v0),
                service_key@ == service@,
                find_id(v0.services, service@, SERVICE_WILDCARD@) == find_id(
                    v0.services.skip(i as int),
                    service@,
                    SERVICE_WILDCARD@,
                ),
            decreases v0.services.len() - i,
        {
            let e = &self.services[i];
            proof {
                assert(v0.services.skip(i as int)[0] == v0.services[i as int]);
                assert(v0.services.skip(i as int).drop_first() =~= v0.services.skip(i + 1));
            }
            if e.service == service_key {
                return MethodId(e.id);
            }
            i = i + 1;
        }
        proof {
            assert(v0.services.skip(i as int).len() == 0);
        }
        let id = self.next_id;
        self.next_id = id + 1;
        self.services.push(ServiceEntry { service: service_key, id });
        proof {
            let v = self@;
            let e = EntryView { service: service@, method: SERVICE_WILDCARD@, id };
            assert(v.services =~= v0.services.push(e));
            assert(v.methods =~= v0.methods);
            lemma_find_id_push(v0.services, e, service@, SERVICE_WILDCARD@);
            let all0 = v0.methods + v0.services;
            let all = v.methods + v.services;
            assert(all =~= all0.push(e));
            assert forall|k: int| 0 <= k < all.len() implies 1 <= (#[trigger] all[k]).id < v.next_id by {
                if k < all0.len() {
                    assert(all[k] == all0[k]);
                }
            }
            assert forall|a: int, b: int|
                #![trigger all[a], all[b]]
                0 <= a < all.len() && 0 <= b < all.len() && a != b implies all[a].id != all[b].id by {
                if a < all0.len() {
                    assert(all[a] == all0[a]);
                }
                if b < all0.len() {
                    assert(all[b] == all0[b]);
                }
            }
            assert forall|k: int| 0 <= k < v.services.len() implies (#[trigger] v.services[k]).method == SERVICE_WILDCARD@ by {
                if k < v0.services.len() {
                    assert(v.services[k] == v0.services[k]);
                }
            }
        }
        MethodId(id)
    }

    /// The ids of (`service`, `method`) and of `service` alone, registering
    /// them if needed: the service first, then the method.
    pub fn get_or_register_with_service(&mut self, service: &str, method: &str) -> (r: (MethodId, MethodId))
        requires
            registry_wf(old(self)@),
            old(self)@.next_id < u64::MAX - 1,
        ensures
            registry_wf(final(self)@),
            find_id(final(self)@.methods, service@, method@) == Some(r.0.0),
            find_id(final(self)@.services, service@, SERVICE_WILDCARD@) == Some(r.1.0),
            final(self)@ == with_method(with_service(old(self)@, service@), service@, method@),
    {
        let service_id = self.get_or_register_service(service);
        let method_id = self.get_or_register(service, method);
        (method_id, service_id)
    }

    /// The (service, method) names of `id`: a method's names, or a
    /// service's name with the wildcard method.
    pub fn get_method_name(&self, id: MethodId) -> (r: Option<(String, String)>)
        ensures
            match r {
                Some((s, m)) => names_of(self@, id.0) == Some((s@, m@)),
                None => names_of(self@, id.0) == None::<(Seq<char>, Seq<char>)>,
            },
    {
        let ghost v = self@;
        let mut i: usize = 0;
        assert(v.methods.skip(0) =~= v.methods);
        while i < self.methods.len()
            invariant
                0 <= i <= v.methods.len(),
                self@ == v,
                find_names(v.methods, id.0) == find_names(v.methods.skip(i as int), id.0),
            decreases v.methods.len() - i,
        {
            let e = &self.methods[i];
            proof {
                assert(v.methods.skip(i as int)[0] == v.methods[i as int]);
                assert(v.methods.skip(i as int).drop_first() =~= v.methods.skip(i + 1));
            }
            if e.id == id.0 {
                return Some((e.service.clone(), e.method.clone()));
            }
            i = i + 1;
        }
        proof {
            assert(v.methods.skip(i as int).len() == 0);
        }
        let mut j: usize = 0;
        assert(v.services.skip(0) =~= v.services);
        while j < self.services.len()
            invariant
                0 <= j <= v.services.len(),
                self@ == v,
                find_names(v.methods, id.0) == None::<(Seq<char>, Seq<char>)>,
                find_names(v.services, id.0) == find_names(v.services.skip(j as int), id.0),
            decreases v.services.len() - j,
        {
            let e = &self.services[j];
            proof {
                assert(v.services.skip(j as int)[0] == v.services[j as int]);
                assert(v.services.skip(j as int).drop_first() =~= v.services.skip(j + 1));
            }
            if e.id == id.0 {
                return Some((e.service.clone(), String::from_str(SERVICE_WILDCARD)));
            }
            j = j + 1;
        }
        proof {
            assert(v.services.skip(j as int).len() == 0);
        }
        None
    }
}

/// The ids of the entries in `es` are distinct, given that those of the
/// whole registry are.
proof fn lemma_methods_distinct(r: RegistryView)
    requires
        registry_wf(r),
    ensures
        forall|a: int, b: int|
            #![trigger r.methods[a], r.methods[b]]
            0 <= a < r.methods.len() && 0 <= b < r.methods.len() && a != b ==> r.methods[a].id != r.methods[b].id,
{
    let all = r.methods + r.services;
    assert forall|a: int, b: int|
        #![trigger r.methods[a], r.methods[b]]
        0 <= a < r.methods.len() && 0 <= b < r.methods.len() && a != b implies r.methods[a].id != r.methods[b].id by {
        assert(all[a] == r.methods[a] && all[b] == r.methods[b]);
    }
}

/// Law: the name of a registered method's id is the method's name.
pub proof fn law_registered_id_names_its_method(r: RegistryView, service: Seq<char>, method: Seq<char>, id: u64)
    requires
        registry_wf(r),
        find_id(r.methods, service, method) == Some(id),
    ensures
        names_of(r, id) == Some((service, method)),
{
    lemma_find_id_found(r.methods, service, method);
    let i = choose|i: int|
        0 <= i < r.methods.len() && (#[trigger] r.methods[i]).service == service && r.methods[i].method == method
            && r.methods[i].id == id;
    lemma_methods_distinct(r);
    lemma_find_names_at(r.methods, i);
}

/// Law: distinct (service, method) pairs are registered under distinct ids.
pub proof fn law_distinct_methods_distinct_ids(
    r: RegistryView,
    s1: Seq<char>,
    m1: Seq<char>,
    s2: Seq<char>,
    m2: Seq<char>,
    id1: u64,
    id2: u64,
)
    requires
        registry_wf(r),
        find_id(r.methods, s1, m1) == Some(id1),
        find_id(r.methods, s2, m2) == Some(id2),
        (s1, m1) != (s2, m2),
    ensures
        id1 != id2,
{
    law_registered_id_names_its_method(r, s1, m1, id1);
    law_registered_id_names_its_method(r, s2, m2, id2);
}

/// Law: a service-only id is never the id of a method.
pub proof fn law_service_ids_differ_from_method_ids(
    r: RegistryView,
    service: Seq<char>,
    method: Seq<char>,
    other_service: Seq<char>,
    method_id: u64,
    service_id: u64,
)
    requires
        registry_wf(r),
        find_id(r.methods, service, method) == Some(method_id),
        find_id(r.services, other_service, SERVICE_WILDCARD@) == Some(service_id),
    ensures
        method_id != service_id,
{
    lemma_find_id_found(r.methods, service, method);
    lemma_find_id_found(r.services, other_service, SERVICE_WILDCARD@);
    let i = choose|i: int|
        0 <= i < r.methods.len() && (#[trigger] r.methods[i]).service == service && r.methods[i].method == method
            && r.methods[i].id == method_id;
    let j = choose|j: int|
        0 <= j < r.services.len() && (#[trigger] r.services[j]).service == other_service
            && r.services[j].method == SERVICE_WILDCARD@ && r.services[j].id == service_id;
    let all = r.methods + r.services;
    assert(all[i] == r.methods[i]);
    assert(all[r.methods.len() + j] == r.services[j]);
}

/// Law: registration is idempotent: registering a method (or a service)
/// that was just registered changes nothing, so the same names always get
/// the same id.
pub proof fn law_registration_is_idempotent(r: RegistryView, service: Seq<char>, method: Seq<char>)
    ensures
        with_method(with_method(r, service, method), service, method) == with_method(r, service, method),
        with_service(with_service(r, service), service) == with_service(r, service),
        find_id(with_method(r, service, method).methods, service, method) is Some,
{
    let e = EntryView { service, method, id: r.next_id };
    lemma_find_id_push(r.methods, e, service, method);
    let f = EntryView { service, method: SERVICE_WILDCARD@, id: r.next_id };
    lemma_find_id_push(r.services, f, service, SERVICE_WILDCARD@);
}

} // verus!
