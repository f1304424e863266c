use crate::keyed_uri::{uri_list_has, uri_list_contains, KeyedUri, KeyedUriView};
use crate::routing::{
    spec_contains_uri, spec_matches, RoutingDescriptor, RoutingDescriptorView, RoutingInfo,
};
use vstd::pervasive::VecAdditionalExecFns;
use vstd::prelude::*;

verus! {

/// The key of a router entry: a tenant OUI paired with one serving URI.
/// Two routers with the same OUI but different URIs are distinct entries.
#[derive(Debug)]
pub struct RouterKey {
    pub oui: u32,
    pub uri: KeyedUri,
}

/// The mathematical value of a [`RouterKey`].
#[verifier::ext_equal]
pub struct RouterKeyView {
    pub oui: u32,
    pub uri: KeyedUriView,
}

impl View for RouterKey {
    type V = RouterKeyView;

    open spec fn view(&self) -> RouterKeyView {
        RouterKeyView { oui: self.oui, uri: self.uri@ }
    }
}

impl RouterKey {
    /// An owned copy with the same value.
    pub fn duplicate(&self) -> (r: RouterKey)
        ensures
            r@ == self@,
    {
        let r = RouterKey { oui: self.oui, uri: self.uri.duplicate() };
        proof {
            assert(r@ =~= self@);
        }
        r
    }

    /// Identity equality over the OUI and both URI fields.
    pub fn same(&self, other: &RouterKey) -> (r: bool)
        ensures
            r == (self@ == other@),
    {
        let r = self.oui == other.oui && self.uri.same(&other.uri);
        proof {
            if r {
                assert(self@ =~= other@);
            }
        }
        r
    }
}

/// One admitted router: its key and the routing descriptor under which it
/// was most recently admitted.
#[derive(Debug)]
pub struct RouterEntry {
    pub key: RouterKey,
    pub routing: RoutingDescriptor,
}

/// The mathematical value of a [`RouterEntry`].
#[verifier::ext_equal]
pub struct RouterEntryView {
    pub key: RouterKeyView,
    pub routing: RoutingDescriptorView,
}

impl View for RouterEntry {
    type V = RouterEntryView;

    open spec fn view(&self) -> RouterEntryView {
        RouterEntryView { key: self.key@, routing: self.routing@ }
    }
}

/// The values of a list of router keys, element-wise.
pub open spec fn key_views(ks: Seq<RouterKey>) -> Seq<RouterKeyView> {
    ks.map_values(|x: RouterKey| x@)
}

/// The values of a list of router entries, element-wise.
pub open spec fn entry_views(es: Seq<RouterEntry>) -> Seq<RouterEntryView> {
    es.map_values(|e: RouterEntry| e@)
}

/// Whether the key list `ks` holds the key `k`.
pub open spec fn keys_has(ks: Seq<RouterKeyView>, k: RouterKeyView) -> bool {
    exists|t: int| 0 <= t < ks.len() && ks[t] == k
}

/// Whether one of the first `t` URIs of `us` has the value `u`.
pub open spec fn uri_pref_has(us: Seq<KeyedUri>, t: int, u: KeyedUriView) -> bool {
    exists|x: int| 0 <= x < t && x < us.len() && us[x]@ == u
}

/// Whether the registry value `s` holds an entry keyed `k` whose admitted
/// descriptor matches the routing information `ri`.
pub open spec fn reg_key_matches(s: Seq<RouterEntryView>, ri: RoutingInfo, k: RouterKeyView) -> bool {
    exists|i: int| 0 <= i < s.len() && s[i].key == k && spec_matches(s[i].routing, ri)
}

/// Whether the registry value `s` holds an entry keyed `k` whose URI
/// stands in the URI list `l`.
pub open spec fn reg_key_listed(s: Seq<RouterEntryView>, l: Seq<KeyedUri>, k: RouterKeyView) -> bool {
    exists|i: int| 0 <= i < s.len() && s[i].key == k && uri_list_has(l, s[i].key.uri)
}

/// Whether the registry value `s` holds an entry keyed `k`.
pub open spec fn reg_has_key(s: Seq<RouterEntryView>, k: RouterKeyView) -> bool {
    exists|i: int| 0 <= i < s.len() && s[i].key == k
}

/// A well-formed registry value: keys are unique, and every entry was
/// admitted by its own descriptor — the descriptor carries the key's OUI
/// and its URI list holds the key's URI.
pub open spec fn reg_wf(s: Seq<RouterEntryView>) -> bool {
    (forall|i: int, j: int| 0 <= i < j < s.len() ==> s[i].key != s[j].key) && (forall|i: int|
        0 <= i < s.len() ==> (#[trigger] s[i]).routing.oui == s[i].key.oui && spec_contains_uri(
            s[i].routing,
            s[i].key.uri,
        ))
}

/// Every router key present in a well-formed registry is admitted: its
/// own entry's descriptor carries the key's OUI and holds the key's URI
/// in its URI list.
pub proof fn lemma_registry_admitted(s: Seq<RouterEntryView>, k: RouterKeyView)
    requires
        reg_wf(s),
        reg_has_key(s, k),
    ensures
        exists|i: int|
            0 <= i < s.len() && (#[trigger] s[i]).key == k && s[i].routing.oui == k.oui
                && spec_contains_uri(s[i].routing, k.uri),
{
    let i = choose|i: int| 0 <= i < s.len() && s[i].key == k;
    assert(s[i].routing.oui == s[i].key.oui && spec_contains_uri(s[i].routing, s[i].key.uri));
}

/// Whether the sweep of a routing update carrying `d` removes the key `k`:
/// the key belongs to the update's OUI but its URI is no longer in the
/// descriptor's URI list.
pub open spec fn spec_swept(k: RouterKeyView, d: RoutingDescriptorView) -> bool {
    k.oui == d.oui && !spec_contains_uri(d, k.uri)
}

/// The registry value left after the sweep of a routing update carrying
/// `d`, in the original order.
pub open spec fn spec_sweep(s: Seq<RouterEntryView>, d: RoutingDescriptorView) -> Seq<
    RouterEntryView,
>
    decreases s.len(),
{
    if s.len() == 0 {
        Seq::empty()
    } else {
        let rest = spec_sweep(s.drop_first(), d);
        if spec_swept(s[0].key, d) {
            rest
        } else {
            seq![s[0]] + rest
        }
    }
}

/// The keys the sweep of a routing update carrying `d` removes, in the
/// original order.
pub open spec fn spec_stopped(s: Seq<RouterEntryView>, d: RoutingDescriptorView) -> Seq<
    RouterKeyView,
>
    decreases s.len(),
{
    if s.len() == 0 {
        Seq::empty()
    } else {
        let rest = spec_stopped(s.drop_first(), d);
        if spec_swept(s[0].key, d) {
            seq![s[0].key] + rest
        } else {
            rest
        }
    }
}

/// What the sweep does: it keeps exactly the entries whose keys are not
/// swept, it invents no entry, it preserves well-formedness, and the
/// stopped keys are exactly the swept ones.
pub proof fn lemma_sweep_props(s: Seq<RouterEntryView>, d: RoutingDescriptorView)
    ensures
        forall|i: int|
            0 <= i < spec_sweep(s, d).len() ==> s.contains(#[trigger] spec_sweep(s, d)[i])
                && !spec_swept(spec_sweep(s, d)[i].key, d),
        forall|k: RouterKeyView|
            #[trigger] reg_has_key(spec_sweep(s, d), k) <==> (reg_has_key(s, k) && !spec_swept(
                k,
                d,
            )),
        reg_wf(s) ==> reg_wf(spec_sweep(s, d)),
        forall|k: RouterKeyView|
            #[trigger] keys_has(spec_stopped(s, d), k) <==> (reg_has_key(s, k) && spec_swept(
                k,
                d,
            )),
    decreases s.len(),
{
    if s.len() == 0 {
        assert(forall|k: RouterKeyView| !reg_has_key(Seq::<RouterEntryView>::empty(), k));
    } else {
        let rest = s.drop_first();
        lemma_sweep_props(rest, d);
        assert(forall|i: int| 0 <= i < rest.len() ==> #[trigger] rest[i] == s[i + 1]);
        assert forall|e: RouterEntryView| rest.contains(e) implies s.contains(e) by {
            let i = choose|i: int| 0 <= i < rest.len() && rest[i] == e;
            assert(s[i + 1] == e);
        }
        assert forall|k: RouterKeyView| #[trigger]
            reg_has_key(s, k) implies s[0].key == k || reg_has_key(rest, k) by {
            let i = choose|i: int| 0 <= i < s.len() && s[i].key == k;
            if i > 0 {
                assert(rest[i - 1].key == k);
            }
        }
        assert forall|k: RouterKeyView| #[trigger] reg_has_key(rest, k) implies reg_has_key(
            s,
            k,
        ) by {
            let i = choose|i: int| 0 <= i < rest.len() && rest[i].key == k;
            assert(s[i + 1].key == k);
        }
        assert(reg_has_key(s, s[0].key));
        if reg_wf(s) {
            assert(forall|i: int, j: int| 0 <= i < j < rest.len() ==> rest[i].key != rest[j].key);
            assert(reg_wf(rest));
            assert(!reg_has_key(rest, s[0].key)) by {
                if reg_has_key(rest, s[0].key) {
                    let i = choose|i: int| 0 <= i < rest.len() && rest[i].key == s[0].key;
                    assert(s[0].key != s[i + 1].key);
                }
            }
        }
        if spec_swept(s[0].key, d) {
            assert(spec_sweep(s, d) == spec_sweep(rest, d));
            assert(spec_stopped(s, d) == seq![s[0].key] + spec_stopped(rest, d));
            assert forall|k: RouterKeyView|
                (reg_has_key(s, k) && spec_swept(k, d)) implies #[trigger] keys_has(
                spec_stopped(s, d),
                k,
            ) by {
                if k == s[0].key {
                    assert(spec_stopped(s, d)[0] == k);
                } else {
                    assert(reg_has_key(rest, k));
                    assert(keys_has(spec_stopped(rest, d), k));
                    let t = choose|t: int|
                        0 <= t < spec_stopped(rest, d).len() && spec_stopped(rest, d)[t] == k;
                    assert(spec_stopped(s, d)[t + 1] == k);
                }
            }
            assert forall|k: RouterKeyView| #[trigger]
                keys_has(spec_stopped(s, d), k) implies (reg_has_key(s, k) && spec_swept(
                k,
                d,
            )) by {
                let t = choose|t: int|
                    0 <= t < spec_stopped(s, d).len() && spec_stopped(s, d)[t] == k;
                if t == 0 {
                    assert(k == s[0].key);
                } else {
                    assert(spec_stopped(rest, d)[t - 1] == k);
                    assert(keys_has(spec_stopped(rest, d), k));
                }
            }
        } else {
            assert(spec_sweep(s, d) == seq![s[0]] + spec_sweep(rest, d));
            assert(spec_stopped(s, d) == spec_stopped(rest, d));
            let sw = spec_sweep(s, d);
            let swr = spec_sweep(rest, d);
            assert(sw[0] == s[0]);
            assert(forall|i: int| 0 < i < sw.len() ==> sw[i] == swr[i - 1]);
            assert forall|k: RouterKeyView| #[trigger]
                reg_has_key(sw, k) implies (reg_has_key(s, k) && !spec_swept(k, d)) by {
                let i = choose|i: int| 0 <= i < sw.len() && sw[i].key == k;
                if i > 0 {
                    assert(reg_has_key(swr, k));
                }
            }
            assert forall|k: RouterKeyView|
                (reg_has_key(s, k) && !spec_swept(k, d)) implies #[trigger] reg_has_key(
                sw,
                k,
            ) by {
                if k == s[0].key {
                    assert(sw[0].key == k);
                } else {
                    assert(reg_has_key(rest, k));
                    assert(reg_has_key(swr, k));
                    let i = choose|i: int| 0 <= i < swr.len() && swr[i].key == k;
                    assert(sw[i + 1].key == k);
                }
            }
            if reg_wf(s) {
                assert(reg_wf(swr));
                assert forall|i: int, j: int| 0 <= i < j < sw.len() implies sw[i].key
                    != sw[j].key by {
                    if i == 0 {
                        assert(reg_has_key(swr, sw[j].key));
                        assert(!reg_has_key(rest, s[0].key));
                    }
                }
                assert forall|i: int|
                    0 <= i < sw.len() implies (#[trigger] sw[i]).routing.oui == sw[i].key.oui
                    && spec_contains_uri(sw[i].routing, sw[i].key.uri) by {
                    assert(s.contains(sw[i]));
                    let j = choose|j: int| 0 <= j < s.len() && s[j] == sw[i];
                    assert(s[j].routing.oui == s[j].key.oui && spec_contains_uri(
                        s[j].routing,
                        s[j].key.uri,
                    ));
                }
            }
        }
    }
}

/// The router registry: the set of running router clients, keyed by
/// `(OUI, URI)`, each with the routing descriptor it was admitted under.
#[derive(Debug)]
pub struct RouterRegistry {
    pub entries: Vec<RouterEntry>,
}

impl View for RouterRegistry {
    type V = Seq<RouterEntryView>;

    open spec fn view(&self) -> Seq<RouterEntryView> {
        entry_views(self.entries@)
    }
}

impl RouterRegistry {
    /// The empty registry.
    pub fn new() -> (r: RouterRegistry)
        ensures
            r@ =~= Seq::<RouterEntryView>::empty(),
            reg_wf(r@),
    {
        RouterRegistry { entries: Vec::new() }
    }

    /// The number of admitted routers.
    pub fn len(&self) -> (n: usize)
        ensures
            n == self@.len(),
    {
        self.entries.len()
    }

    /// The position of the entry keyed `(oui, uri)`, if present.
    fn find(&self, oui: u32, uri: &KeyedUri) -> (r: Option<usize>)
        ensures
            match r {
                Some(i) => i < self@.len() && self@[i as int].key == (RouterKeyView {
                    oui,
                    uri: uri@,
                }),
                None => !reg_has_key(self@, RouterKeyView { oui, uri: uri@ }),
            },
    {
        let mut i: usize = 0;
        while i < self.entries.len()
            invariant
                i <= self@.len(),
                self@.len() == self.entries@.len(),
                forall|j: int|
                    0 <= j < i ==> self@[j].key != (RouterKeyView { oui, uri: uri@ }),
            decreases self@.len() - i,
        {
            let e = &self.entries[i];
            if e.key.oui == oui && e.key.uri.same(uri) {
                proof {
                    assert(self@[i as int].key =~= (RouterKeyView { oui, uri: uri@ }));
                }
                return Some(i);
            }
            proof {
                assert(self@[i as int].key != (RouterKeyView { oui, uri: uri@ }));
            }
            i += 1;
        }
        None
    }

    /// Whether an entry keyed `(oui, uri)` is present.
    pub fn contains_key(&self, oui: u32, uri: &KeyedUri) -> (r: bool)
        ensures
            r == reg_has_key(self@, RouterKeyView { oui, uri: uri@ }),
    {
        match self.find(oui, uri) {
            Some(_) => true,
            None => false,
        }
    }

    /// Reconciles the registry against one descriptor of a routing update:
    /// admits a router for every `(OUI, URI)` pair of the descriptor that
    /// is missing, refreshes the stored descriptor of the pairs already
    /// present, and sweeps the descriptor's OUI of every router whose URI
    /// left the URI list. Routers of other OUIs are untouched. Returns the
    /// keys of the admitted routers and of the swept ones, in that order.
    #[verifier::rlimit(60)]
    pub fn apply_descriptor(&mut self, d: &RoutingDescriptor) -> (r: (Vec<RouterKey>, Vec<
        RouterKey,
    >))
        requires
            reg_wf(old(self)@),
        ensures
            reg_wf(final(self)@),
            forall|k: RouterKeyView|
                #[trigger] reg_has_key(final(self)@, k) <==> if k.oui == d@.oui {
                    spec_contains_uri(d@, k.uri)
                } else {
                    reg_has_key(old(self)@, k)
                },
            forall|i: int|
                0 <= i < final(self)@.len() && (#[trigger] final(self)@[i]).key.oui == d@.oui
                    ==> final(self)@[i].routing == d@,
            forall|i: int|
                0 <= i < final(self)@.len() && (#[trigger] final(self)@[i]).key.oui != d@.oui
                    ==> old(self)@.contains(final(self)@[i]),
            forall|k: RouterKeyView|
                #[trigger] keys_has(key_views(r.0@), k) <==> (k.oui == d@.oui
                    && spec_contains_uri(d@, k.uri) && !reg_has_key(old(self)@, k)),
            forall|k: RouterKeyView|
                #[trigger] keys_has(key_views(r.1@), k) <==> (k.oui == d@.oui
                    && !spec_contains_uri(d@, k.uri) && reg_has_key(old(self)@, k)),
    {
        let ghost old_s = self@;
        let mut started: Vec<RouterKey> = Vec::new();
        let mut t: usize = 0;
        while t < d.uris.len()
            invariant
                t <= d.uris@.len(),
                reg_wf(old_s),
                reg_wf(self@),
                forall|k: RouterKeyView|
                    #[trigger] reg_has_key(self@, k) <==> (reg_has_key(old_s, k) || (k.oui == d@.oui
                        && uri_pref_has(d.uris@, t as int, k.uri))),
                forall|i: int|
                    0 <= i < self@.len() ==> old_s.contains(#[trigger] self@[i]) || (self@[i].key.oui
                        == d@.oui && self@[i].routing == d@),
                forall|i: int|
                    0 <= i < self@.len() && (#[trigger] self@[i]).key.oui == d@.oui && uri_pref_has(
                        d.uris@,
                        t as int,
                        self@[i].key.uri,
                    ) ==> self@[i].routing == d@,
                forall|k: RouterKeyView|
                    #[trigger] keys_has(key_views(started@), k) <==> (k.oui
                        == d@.oui && uri_pref_has(d.uris@, t as int, k.uri) && !reg_has_key(
                        old_s,
                        k,
                    )),
            decreases d.uris@.len() - t,
        {
            let u = &d.uris[t];
            let ghost kv = RouterKeyView { oui: d.oui, uri: u@ };
            proof {
                assert(d@.uris[t as int] == d.uris@[t as int]@);
                assert(spec_contains_uri(d@, u@));
                assert(uri_pref_has(d.uris@, t as int + 1, u@)) by {
                    assert(d.uris@[t as int]@ == u@);
                }
                assert(forall|k: KeyedUriView|
                    uri_pref_has(d.uris@, t as int, k) ==> #[trigger] uri_pref_has(
                        d.uris@,
                        t as int + 1,
                        k,
                    ));
                assert(forall|k: KeyedUriView|
                    #[trigger] uri_pref_has(d.uris@, t as int + 1, k) ==> uri_pref_has(
                        d.uris@,
                        t as int,
                        k,
                    ) || k == u@);
            }
            match self.find(d.oui, u) {
                Some(idx) => {
                    let ghost before = self@;
                    let fresh = RouterEntry {
                        key: RouterKey { oui: d.oui, uri: u.duplicate() },
                        routing: d.duplicate(),
                    };
                    proof {
                        assert(fresh@.key =~= kv);
                    }
                    self.entries.set(idx, fresh);
                    proof {
                        assert(self@ =~= before.update(idx as int, RouterEntryView {
                            key: kv,
                            routing: d@,
                        }));
                        assert(before[idx as int].key == kv);
                        assert forall|k: RouterKeyView| #[trigger]
                            reg_has_key(self@, k) implies reg_has_key(before, k) by {
                            let i = choose|i: int| 0 <= i < self@.len() && self@[i].key == k;
                            assert(before[i].key == k);
                        }
                        assert forall|k: RouterKeyView| #[trigger]
                            reg_has_key(before, k) implies reg_has_key(self@, k) by {
                            let i = choose|i: int| 0 <= i < before.len() && before[i].key == k;
                            assert(self@[i].key == k);
                        }
                        assert(reg_has_key(before, kv));
                        assert forall|k: RouterKeyView| #[trigger]
                            reg_has_key(self@, k) <==> (reg_has_key(old_s, k) || (k.oui == d@.oui
                            && uri_pref_has(d.uris@, t as int + 1, k.uri))) by {
                            assert(reg_has_key(before, k) <==> (reg_has_key(old_s, k) || (k.oui
                                == d@.oui && uri_pref_has(d.uris@, t as int, k.uri))));
                            if k.oui == d@.oui && uri_pref_has(d.uris@, t as int + 1, k.uri)
                                && !uri_pref_has(d.uris@, t as int, k.uri) {
                                let x = choose|x: int|
                                    0 <= x < t as int + 1 && x < d.uris@.len() && d.uris@[x]@
                                        == k.uri;
                                assert(x == t as int);
                                assert(k.uri == u@);
                                assert(k =~= kv);
                            }
                        }
                        assert forall|k: RouterKeyView| #[trigger]
                            keys_has(key_views(started@), k) <==> (k.oui == d@.oui && uri_pref_has(
                            d.uris@,
                            t as int + 1,
                            k.uri,
                        ) && !reg_has_key(old_s, k)) by {
                            assert(keys_has(key_views(started@), k) <==> (k.oui == d@.oui && uri_pref_has(
                                d.uris@,
                                t as int,
                                k.uri,
                            ) && !reg_has_key(old_s, k)));
                            if k.oui == d@.oui && uri_pref_has(d.uris@, t as int + 1, k.uri)
                                && !reg_has_key(old_s, k) && !uri_pref_has(
                                d.uris@,
                                t as int,
                                k.uri,
                            ) {
                                let x = choose|x: int|
                                    0 <= x < t as int + 1 && x < d.uris@.len() && d.uris@[x]@
                                        == k.uri;
                                assert(x == t as int);
                                assert(k.uri == u@);
                                assert(k =~= kv);
                                assert(reg_has_key(before, kv));
                            }
                        }
                    }
                },
                None => {
                    let key = RouterKey { oui: d.oui, uri: u.duplicate() };
                    let entry = RouterEntry {
                        key: RouterKey { oui: d.oui, uri: u.duplicate() },
                        routing: d.duplicate(),
                    };
                    let ghost before = self@;
                    let ghost started_pre = key_views(started@);
                    self.entries.push(entry);
                    started.push(key);
                    proof {
                        assert(self@ =~= before.push(RouterEntryView { key: kv, routing: d@ }));
                        assert(key_views(started@) =~= started_pre.push(kv));
                        assert forall|k: RouterKeyView| #[trigger]
                            reg_has_key(self@, k) implies reg_has_key(before, k) || k == kv by {
                            let i = choose|i: int| 0 <= i < self@.len() && self@[i].key == k;
                            if i < before.len() {
                                assert(before[i].key == k);
                            }
                        }
                        assert forall|k: RouterKeyView| #[trigger]
                            reg_has_key(before, k) implies reg_has_key(self@, k) by {
                            let i = choose|i: int| 0 <= i < before.len() && before[i].key == k;
                            assert(self@[i].key == k);
                        }
                        assert(reg_has_key(self@, kv)) by {
                            assert(self@[before.len() as int].key == kv);
                        }
                        assert forall|k: RouterKeyView| #[trigger]
                            keys_has(key_views(started@), k) implies keys_has(
                            started_pre,
                            k,
                        ) || k == kv by {
                            let sv = key_views(started@);
                            let i = choose|i: int| 0 <= i < sv.len() && sv[i] == k;
                            if i < started_pre.len() {
                                assert(started_pre[i] == k);
                            }
                        }
                        assert forall|k: RouterKeyView| #[trigger]
                            keys_has(started_pre, k) implies keys_has(
                            key_views(started@),
                            k,
                        ) by {
                            let i = choose|i: int|
                                0 <= i < started_pre.len() && started_pre[i] == k;
                            assert(key_views(started@)[i] == k);
                        }
                        assert(keys_has(key_views(started@), kv)) by {
                            assert(key_views(started@)[started_pre.len() as int]
                                == kv);
                        }
                        assert forall|i: int, j: int|
                            0 <= i < j < self@.len() implies self@[i].key != self@[j].key by {
                            if j == before.len() {
                                assert(!reg_has_key(before, kv));
                                assert(before[i].key != kv);
                            }
                        }
                        assert forall|k: RouterKeyView| #[trigger]
                            reg_has_key(self@, k) <==> (reg_has_key(old_s, k) || (k.oui == d@.oui
                            && uri_pref_has(d.uris@, t as int + 1, k.uri))) by {
                            assert(reg_has_key(before, k) <==> (reg_has_key(old_s, k) || (k.oui
                                == d@.oui && uri_pref_has(d.uris@, t as int, k.uri))));
                            if k.oui == d@.oui && uri_pref_has(d.uris@, t as int + 1, k.uri)
                                && !uri_pref_has(d.uris@, t as int, k.uri) {
                                let x = choose|x: int|
                                    0 <= x < t as int + 1 && x < d.uris@.len() && d.uris@[x]@
                                        == k.uri;
                                assert(x == t as int);
                                assert(k.uri == u@);
                                assert(k =~= kv);
                            }
                        }
                        assert forall|k: RouterKeyView| #[trigger]
                            keys_has(key_views(started@), k) <==> (k.oui == d@.oui && uri_pref_has(
                            d.uris@,
                            t as int + 1,
                            k.uri,
                        ) && !reg_has_key(old_s, k)) by {
                            assert(keys_has(started_pre, k) <==> (k.oui == d@.oui && uri_pref_has(
                                d.uris@,
                                t as int,
                                k.uri,
                            ) && !reg_has_key(old_s, k)));
                            if k.oui == d@.oui && uri_pref_has(d.uris@, t as int + 1, k.uri)
                                && !reg_has_key(old_s, k) && !uri_pref_has(
                                d.uris@,
                                t as int,
                                k.uri,
                            ) {
                                let x = choose|x: int|
                                    0 <= x < t as int + 1 && x < d.uris@.len() && d.uris@[x]@
                                        == k.uri;
                                assert(x == t as int);
                                assert(k.uri == u@);
                                assert(k =~= kv);
                            }
                        }
                    }
                },
            }
            t += 1;
        }
        let ghost mid = self@;
        proof {
            lemma_sweep_props(mid, d@);
            assert forall|u2: KeyedUriView| #[trigger]
                spec_contains_uri(d@, u2) implies uri_pref_has(
                d.uris@,
                d.uris@.len() as int,
                u2,
            ) by {
                let i = choose|i: int| 0 <= i < d@.uris.len() && d@.uris[i] == u2;
                assert(d.uris@[i]@ == u2);
            }
            assert forall|u2: KeyedUriView| #[trigger]
                uri_pref_has(d.uris@, d.uris@.len() as int, u2) implies spec_contains_uri(
                d@,
                u2,
            ) by {
                let i = choose|i: int| 0 <= i < d.uris@.len() && d.uris@[i]@ == u2;
                assert(d@.uris[i] == u2);
            }
        }
        let mut kept: Vec<RouterEntry> = Vec::new();
        let mut stopped: Vec<RouterKey> = Vec::new();
        while self.entries.len() > 0
            invariant
                spec_sweep(mid, d@) =~= entry_views(kept@) + spec_sweep(
                    self@,
                    d@,
                ),
                spec_stopped(mid, d@) =~= key_views(stopped@) + spec_stopped(
                    self@,
                    d@,
                ),
            decreases self@.len(),
        {
            let ghost cur = self@;
            let ghost kept_before = entry_views(kept@);
            let ghost stopped_before = key_views(stopped@);
            let e = self.entries.remove(0);
            proof {
                assert(cur[0] == e@);
                assert(self@ =~= cur.drop_first());
            }
            if e.key.oui == d.oui && !d.contains_uri(&e.key.uri) {
                proof {
                    assert(spec_swept(e@.key, d@));
                }
                stopped.push(e.key);
                proof {
                    assert(key_views(stopped@) =~= stopped_before.push(e@.key));
                    assert(spec_stopped(cur, d@) =~= seq![e@.key] + spec_stopped(
                        cur.drop_first(),
                        d@,
                    ));
                    assert(spec_sweep(cur, d@) =~= spec_sweep(cur.drop_first(), d@));
                }
            } else {
                proof {
                    assert(!spec_swept(e@.key, d@));
                }
                kept.push(e);
                proof {
                    assert(entry_views(kept@) =~= kept_before.push(e@));
                    assert(spec_sweep(cur, d@) =~= seq![e@] + spec_sweep(cur.drop_first(), d@));
                    assert(spec_stopped(cur, d@) =~= spec_stopped(cur.drop_first(), d@));
                }
            }
        }
        proof {
            assert(spec_sweep(self@, d@) =~= Seq::<RouterEntryView>::empty());
            assert(spec_stopped(self@, d@) =~= Seq::<RouterKeyView>::empty());
            assert(spec_sweep(mid, d@) =~= entry_views(kept@));
            assert(spec_stopped(mid, d@) =~= key_views(stopped@));
        }
        self.entries = kept;
        proof {
            assert(self@ == spec_sweep(mid, d@));
            assert forall|i: int|
                0 <= i < self@.len() && (#[trigger] self@[i]).key.oui == d@.oui implies self@[i].routing
                == d@ by {
                assert(mid.contains(self@[i]));
                let j = choose|j: int| 0 <= j < mid.len() && mid[j] == self@[i];
                assert(!spec_swept(self@[i].key, d@));
                assert(uri_pref_has(d.uris@, d.uris@.len() as int, mid[j].key.uri));
            }
            assert forall|i: int|
                0 <= i < self@.len() && (#[trigger] self@[i]).key.oui != d@.oui implies old(
                self,
            )@.contains(self@[i]) by {
                assert(mid.contains(self@[i]));
                let j = choose|j: int| 0 <= j < mid.len() && mid[j] == self@[i];
                assert(old_s.contains(mid[j]) || mid[j].key.oui == d@.oui);
            }
        }
        (started, stopped)
    }

    /// Removes the entry keyed like `k`, if present. Used when the router
    /// task for a freshly admitted key could not be constructed: the entry
    /// leaves the registry and the next routing update retries it.
    pub fn remove_key(&mut self, k: &RouterKey) -> (removed: bool)
        requires
            reg_wf(old(self)@),
        ensures
            reg_wf(final(self)@),
            removed == reg_has_key(old(self)@, k@),
            forall|k2: RouterKeyView|
                #[trigger] reg_has_key(final(self)@, k2) <==> (reg_has_key(old(self)@, k2) && k2
                    != k@),
            forall|i: int|
                0 <= i < final(self)@.len() ==> old(self)@.contains(#[trigger] final(self)@[i]),
    {
        match self.find(k.oui, &k.uri) {
            Some(idx) => {
                let ghost before = self@;
                proof {
                    assert(before[idx as int].key =~= k@);
                }
                self.entries.remove(idx);
                proof {
                    assert(self@ =~= before.remove(idx as int));
                    assert(forall|i: int|
                        0 <= i < idx ==> #[trigger] self@[i] == before[i]);
                    assert(forall|i: int|
                        idx <= i < self@.len() ==> #[trigger] self@[i] == before[i + 1]);
                    assert forall|i: int|
                        0 <= i < self@.len() implies before.contains(#[trigger] self@[i]) by {
                        if i < idx {
                            assert(self@[i] == before[i]);
                        } else {
                            assert(self@[i] == before[i + 1]);
                        }
                    }
                    assert forall|k2: RouterKeyView| #[trigger]
                        reg_has_key(self@, k2) implies (reg_has_key(before, k2) && k2 != k@) by {
                        let i = choose|i: int| 0 <= i < self@.len() && self@[i].key == k2;
                        if i < idx {
                            assert(before[i].key == k2);
                            assert(before[i].key != before[idx as int].key);
                        } else {
                            assert(before[i + 1].key == k2);
                            assert(before[idx as int].key != before[i + 1].key);
                        }
                    }
                    assert forall|k2: RouterKeyView|
                        (reg_has_key(before, k2) && k2 != k@) implies #[trigger] reg_has_key(
                        self@,
                        k2,
                    ) by {
                        let i = choose|i: int| 0 <= i < before.len() && before[i].key == k2;
                        if i < idx {
                            assert(self@[i].key == k2);
                        } else {
                            assert(i != idx);
                            assert(self@[i - 1].key == k2);
                        }
                    }
                }
                true
            },
            None => {
                proof {
                    assert(!reg_has_key(self@, k@));
                }
                false
            },
        }
    }

    /// The keys of the routers whose admitted descriptor matches the given
    /// routing information, in registry order and without repetition.
    pub fn matching_targets(&self, ri: &RoutingInfo) -> (ks: Vec<RouterKey>)
        requires
            reg_wf(self@),
        ensures
            forall|t: int|
                0 <= t < ks@.len() ==> reg_key_matches(self@, *ri, #[trigger] key_views(ks@)[t]),
            forall|i: int|
                0 <= i < self@.len() && spec_matches((#[trigger] self@[i]).routing, *ri)
                    ==> keys_has(key_views(ks@), self@[i].key),
            forall|t1: int, t2: int|
                0 <= t1 < t2 < ks@.len() ==> key_views(ks@)[t1] != key_views(ks@)[t2],
    {
        let mut ks: Vec<RouterKey> = Vec::new();
        let ghost mut idxs: Seq<int> = Seq::empty();
        let mut i: usize = 0;
        while i < self.entries.len()
            invariant
                i <= self@.len(),
                self@.len() == self.entries@.len(),
                reg_wf(self@),
                idxs.len() == ks@.len(),
                forall|t: int|
                    0 <= t < idxs.len() ==> 0 <= #[trigger] idxs[t] < i && key_views(ks@)[t]
                        == self@[idxs[t]].key && spec_matches(self@[idxs[t]].routing, *ri),
                forall|t1: int, t2: int| 0 <= t1 < t2 < idxs.len() ==> idxs[t1] < idxs[t2],
                forall|j: int|
                    0 <= j < i && spec_matches((#[trigger] self@[j]).routing, *ri) ==> keys_has(
                        key_views(ks@),
                        self@[j].key,
                    ),
            decreases self@.len() - i,
        {
            let e = &self.entries[i];
            if e.routing.matches_routing_info(ri) {
                let ghost kpre = key_views(ks@);
                ks.push(e.key.duplicate());
                proof {
                    assert(key_views(ks@) =~= kpre.push(self@[i as int].key));
                    idxs = idxs.push(i as int);
                    assert forall|j: int|
                        0 <= j < i + 1 && spec_matches(
                            (#[trigger] self@[j]).routing,
                            *ri,
                        ) implies keys_has(key_views(ks@), self@[j].key) by {
                        if j < i {
                            assert(keys_has(kpre, self@[j].key));
                            let t = choose|t: int| 0 <= t < kpre.len() && kpre[t] == self@[j].key;
                            assert(key_views(ks@)[t] == self@[j].key);
                        } else {
                            assert(key_views(ks@)[kpre.len() as int] == self@[j].key);
                        }
                    }
                }
            }
            i += 1;
        }
        proof {
            assert forall|t1: int, t2: int|
                0 <= t1 < t2 < ks@.len() implies key_views(ks@)[t1] != key_views(ks@)[t2] by {
                assert(idxs[t1] < idxs[t2]);
                assert(self@[idxs[t1]].key != self@[idxs[t2]].key);
            }
            assert forall|t: int| 0 <= t < ks@.len() implies reg_key_matches(
                self@,
                *ri,
                #[trigger] key_views(ks@)[t],
            ) by {
                let i0 = idxs[t];
                assert(0 <= i0 < self@.len() && key_views(ks@)[t] == self@[i0].key
                    && spec_matches(self@[i0].routing, *ri));
            }
        }
        ks
    }

    /// The keys of the routers whose URI stands in the given list, in
    /// registry order and without repetition.
    pub fn listed_targets(&self, list: &Vec<KeyedUri>) -> (ks: Vec<RouterKey>)
        requires
            reg_wf(self@),
        ensures
            forall|t: int|
                0 <= t < ks@.len() ==> reg_key_listed(self@, list@, #[trigger] key_views(ks@)[t]),
            forall|i: int|
                0 <= i < self@.len() && uri_list_has(list@, (#[trigger] self@[i]).key.uri)
                    ==> keys_has(key_views(ks@), self@[i].key),
            forall|t1: int, t2: int|
                0 <= t1 < t2 < ks@.len() ==> key_views(ks@)[t1] != key_views(ks@)[t2],
    {
        let mut ks: Vec<RouterKey> = Vec::new();
        let ghost mut idxs: Seq<int> = Seq::empty();
        let mut i: usize = 0;
        while i < self.entries.len()
            invariant
                i <= self@.len(),
                self@.len() == self.entries@.len(),
                reg_wf(self@),
                idxs.len() == ks@.len(),
                forall|t: int|
                    0 <= t < idxs.len() ==> 0 <= #[trigger] idxs[t] < i && key_views(ks@)[t]
                        == self@[idxs[t]].key && uri_list_has(list@, self@[idxs[t]].key.uri),
                forall|t1: int, t2: int| 0 <= t1 < t2 < idxs.len() ==> idxs[t1] < idxs[t2],
                forall|j: int|
                    0 <= j < i && uri_list_has(list@, (#[trigger] self@[j]).key.uri) ==> keys_has(
                        key_views(ks@),
                        self@[j].key,
                    ),
            decreases self@.len() - i,
        {
            let e = &self.entries[i];
            if uri_list_contains(list, &e.key.uri) {
                let ghost kpre = key_views(ks@);
                ks.push(e.key.duplicate());
                proof {
                    assert(key_views(ks@) =~= kpre.push(self@[i as int].key));
                    idxs = idxs.push(i as int);
                    assert forall|j: int|
                        0 <= j < i + 1 && uri_list_has(
                            list@,
                            (#[trigger] self@[j]).key.uri,
                        ) implies keys_has(key_views(ks@), self@[j].key) by {
                        if j < i {
                            assert(keys_has(kpre, self@[j].key));
                            let t = choose|t: int| 0 <= t < kpre.len() && kpre[t] == self@[j].key;
                            assert(key_views(ks@)[t] == self@[j].key);
                        } else {
                            assert(key_views(ks@)[kpre.len() as int] == self@[j].key);
                        }
                    }
                }
            }
            i += 1;
        }
        proof {
            assert forall|t1: int, t2: int|
                0 <= t1 < t2 < ks@.len() implies key_views(ks@)[t1] != key_views(ks@)[t2] by {
                assert(idxs[t1] < idxs[t2]);
                assert(self@[idxs[t1]].key != self@[idxs[t2]].key);
            }
            assert forall|t: int| 0 <= t < ks@.len() implies reg_key_listed(
                self@,
                list@,
                #[trigger] key_views(ks@)[t],
            ) by {
                let i0 = idxs[t];
                assert(0 <= i0 < self@.len() && key_views(ks@)[t] == self@[i0].key
                    && uri_list_has(list@, self@[i0].key.uri));
            }
        }
        ks
    }

    /// The keys of all admitted routers, in registry order.
    pub fn all_keys(&self) -> (ks: Vec<RouterKey>)
        ensures
            key_views(ks@).len() == self@.len(),
            forall|i: int| 0 <= i < self@.len() ==> #[trigger] key_views(ks@)[i] == self@[i].key,
    {
        let mut ks: Vec<RouterKey> = Vec::new();
        let mut i: usize = 0;
        while i < self.entries.len()
            invariant
                i <= self@.len(),
                self@.len() == self.entries@.len(),
                key_views(ks@).len() == i,
                forall|j: int| 0 <= j < i ==> #[trigger] key_views(ks@)[j] == self@[j].key,
            decreases self@.len() - i,
        {
            let ghost kpre = key_views(ks@);
            ks.push(self.entries[i].key.duplicate());
            proof {
                assert(key_views(ks@) =~= kpre.push(self@[i as int].key));
            }
            i += 1;
        }
        ks
    }
}

} // verus!
