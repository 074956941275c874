//! Object discovery: the fan-out of list queries over object kinds and
//! relations, the parsing of the identifiers they return, and the merge of
//! their answers into one result per object kind.

use vstd::prelude::*;
use crate::relation::{Relation, is_canonical, with_relation, lemma_canonical_members};
use crate::text::{chars_of, string_of, strip_prefix, split_chars, has_prefix, split_on};

verus! {

/// A kind of object that discovery lists.
#[derive(Clone, Copy, Debug, PartialEq, Eq, Structural)]
pub enum ObjectKind {
    Service,
    ServiceType,
    Resource,
}

/// The type name of a kind, as the authority spells it.
pub open spec fn kind_name(k: ObjectKind) -> Seq<char> {
    match k {
        ObjectKind::Service => "service"@,
        ObjectKind::ServiceType => "service_type"@,
        ObjectKind::Resource => "resource"@,
    }
}

/// What an identifier of a kind begins with: its type name and a colon.
pub open spec fn kind_prefix(k: ObjectKind) -> Seq<char> {
    match k {
        ObjectKind::Service => "service:"@,
        ObjectKind::ServiceType => "service_type:"@,
        ObjectKind::Resource => "resource:"@,
    }
}

/// How many `/`-separated segments the path of a kind has.
pub open spec fn segment_count(k: ObjectKind) -> nat {
    match k {
        ObjectKind::Service => 1,
        ObjectKind::ServiceType => 2,
        ObjectKind::Resource => 3,
    }
}

/// The fields of an identifier of kind `k`: for a service its whole path;
/// for the other kinds the segments of its path, where their number is the
/// kind's own. `None` for an identifier of another shape.
pub open spec fn object_segments(k: ObjectKind, id: Seq<char>) -> Option<Seq<Seq<char>>> {
    if has_prefix(id, kind_prefix(k)) {
        let path = id.skip(kind_prefix(k).len() as int);
        match k {
            ObjectKind::Service => Some(seq![path]),
            _ => if split_on(path, '/').len() == segment_count(k) {
                Some(split_on(path, '/'))
            } else {
                None
            },
        }
    } else {
        None
    }
}

/// The texts of a list of strings.
pub open spec fn texts(v: Seq<String>) -> Seq<Seq<char>> {
    v.map_values(|s: String| s@)
}

impl ObjectKind {
    /// The type name of the kind.
    pub fn name(&self) -> (r: String)
        ensures
            r@ == kind_name(*self),
    {
        match self {
            ObjectKind::Service => "service".to_owned(),
            ObjectKind::ServiceType => "service_type".to_owned(),
            ObjectKind::Resource => "resource".to_owned(),
        }
    }

    fn prefix(&self) -> (r: Vec<char>)
        ensures
            r@ == kind_prefix(*self),
    {
        match self {
            ObjectKind::Service => chars_of("service:"),
            ObjectKind::ServiceType => chars_of("service_type:"),
            ObjectKind::Resource => chars_of("resource:"),
        }
    }
}

/// Parses an identifier of kind `kind` into its fields; an identifier of
/// another shape gives `None`.
pub fn parse_object(kind: ObjectKind, id: &String) -> (r: Option<Vec<String>>)
    ensures
        r is Some <==> object_segments(kind, id@) is Some,
        r matches Some(v) ==> object_segments(kind, id@) == Some(texts(v@)),
{
    let text = chars_of(id.as_str());
    let prefix = kind.prefix();
    let path = match strip_prefix(&text, &prefix) {
        Some(p) => p,
        None => return None,
    };
    let mut out: Vec<String> = Vec::new();
    match kind {
        ObjectKind::Service => {
            out.push(string_of(&path));
            assert(texts(out@) =~= seq![path@]);
            Some(out)
        },
        _ => {
            let parts = split_chars(&path, '/');
            let want: usize = if kind == ObjectKind::ServiceType { 2 } else { 3 };
            if parts.len() != want {
                return None;
            }
            let mut i: usize = 0;
            while i < parts.len()
                invariant
                    0 <= i <= parts@.len(),
                    out@.len() == i,
                    forall|k: int| 0 <= k < i ==> #[trigger] out@[k]@ == parts@[k]@,
                decreases parts@.len() - i,
            {
                out.push(string_of(&parts[i]));
                i = i + 1;
            }
            assert(texts(out@) =~= split_on(path@, '/'));
            Some(out)
        },
    }
}

/// The answer to one list query of the fan-out: the kind and relation it
/// asked about, and either the identifiers the authority listed or the text
/// of its failure.
pub struct FanOutReply {
    pub kind: ObjectKind,
    pub relation: Relation,
    pub outcome: Result<Vec<String>, String>,
}

/// `reply` answers a query for `kind` and `rel` and lists `id`.
pub open spec fn delivers(reply: FanOutReply, kind: ObjectKind, rel: Relation, id: Seq<char>) -> bool {
    &&& reply.kind == kind
    &&& reply.relation == rel
    &&& reply.outcome is Ok
    &&& texts(reply.outcome->Ok_0@).contains(id)
}

/// The relations on `id` that some reply for `kind` grants.
pub open spec fn granted(replies: Seq<FanOutReply>, kind: ObjectKind, id: Seq<char>) -> Set<Relation> {
    Set::new(
        |r: Relation| exists|i: int| 0 <= i < replies.len() && #[trigger] delivers(replies[i], kind, r, id),
    )
}

/// What discovery finds of one kind: each well-formed identifier that some
/// reply lists, with the union of the relations granted on it.
pub open spec fn discovered(replies: Seq<FanOutReply>, kind: ObjectKind) -> Map<Seq<char>, Set<Relation>> {
    Map::new(
        |id: Seq<char>| object_segments(kind, id) is Some && granted(replies, kind, id) != Set::<Relation>::empty(),
        |id: Seq<char>| granted(replies, kind, id),
    )
}

/// One discovered object while replies are merged: its identifier, its
/// fields and the relations granted on it so far.
pub struct Entry {
    pub id: String,
    pub segments: Vec<String>,
    pub permissions: Vec<Relation>,
}

/// Some entry of `v` for `id` holds `r`.
pub open spec fn has_grant(v: Seq<Entry>, id: Seq<char>, r: Relation) -> bool {
    exists|i: int| 0 <= i < v.len() && v[i].id@ == id && #[trigger] v[i].permissions@.contains(r)
}

/// Entries of distinct identifiers, each well-formed for `kind`, each with a
/// non-empty canonical permission list.
pub open spec fn ledger_wf(v: Seq<Entry>, kind: ObjectKind) -> bool {
    &&& forall|i: int, j: int| 0 <= i < j < v.len() ==> v[i].id@ != v[j].id@
    &&& forall|i: int| 0 <= i < v.len() ==> object_segments(kind, #[trigger] v[i].id@) == Some(texts(v[i].segments@))
    &&& forall|i: int| 0 <= i < v.len() ==> is_canonical(#[trigger] v[i].permissions@) && v[i].permissions@.len() > 0
}

/// Records that `r` is granted on `id`, whose fields are `segments`: the
/// entry for `id` gains `r`, or a new entry for `id` holds `r` alone.
pub fn absorb(entries: &mut Vec<Entry>, kind: ObjectKind, id: &String, segments: Vec<String>, r: Relation)
    requires
        ledger_wf(old(entries)@, kind),
        object_segments(kind, id@) == Some(texts(segments@)),
    ensures
        ledger_wf(final(entries)@, kind),
        forall|x: Seq<char>, s: Relation| #[trigger] has_grant(final(entries)@, x, s)
            <==> has_grant(old(entries)@, x, s) || (x == id@ && s == r),
{
    let ghost v0 = entries@;
    let mut k: usize = 0;
    let mut found = false;
    while k < entries.len() && !found
        invariant
            entries@ == v0,
            0 <= k <= entries@.len(),
            found ==> k < entries@.len() && entries@[k as int].id@ == id@,
            forall|j: int| 0 <= j < k ==> entries@[j].id@ != id@,
        decreases entries@.len() - k + (if found { 0int } else { 1int }),
    {
        if entries[k].id == *id {
            found = true;
        } else {
            k = k + 1;
        }
    }
    if found {
        let mut e = entries.remove(k);
        let perms = with_relation(&e.permissions, r);
        let ghost before = e.permissions@;
        e.permissions = perms;
        entries.insert(k, e);
        assert(entries@ == v0.update(k as int, e));
        assert forall|x: Seq<char>, s: Relation| #[trigger] has_grant(entries@, x, s)
            <==> has_grant(v0, x, s) || (x == id@ && s == r) by {
            if has_grant(entries@, x, s) {
                let i = choose|i: int| 0 <= i < entries@.len() && entries@[i].id@ == x && #[trigger] entries@[i].permissions@.contains(s);
                if i == k {
                    assert(e.permissions@.to_set().contains(s));
                    if !(s == r) {
                        assert(before.to_set().contains(s));
                        assert(v0[i].permissions@.contains(s));
                    }
                } else {
                    assert(v0[i].permissions@.contains(s));
                }
            }
            if has_grant(v0, x, s) {
                let i = choose|i: int| 0 <= i < v0.len() && v0[i].id@ == x && #[trigger] v0[i].permissions@.contains(s);
                if i == k {
                    assert(before.to_set().contains(s));
                    assert(e.permissions@.to_set().contains(s));
                    assert(entries@[i].permissions@.contains(s));
                } else {
                    assert(entries@[i].permissions@.contains(s));
                }
            }
            if x == id@ && s == r {
                assert(e.permissions@.to_set().contains(s));
                assert(entries@[k as int].permissions@.contains(s));
            }
        }
    } else {
        let none: Vec<Relation> = Vec::new();
        let perms = with_relation(&none, r);
        proof {
            assert(none@.to_set() =~= Set::<Relation>::empty());
            lemma_canonical_members(Set::<Relation>::empty().insert(r));
        }
        let e = Entry { id: id.clone(), segments, permissions: perms };
        entries.push(e);
        assert(entries@ == v0.push(e));
        assert forall|x: Seq<char>, s: Relation| #[trigger] has_grant(entries@, x, s)
            <==> has_grant(v0, x, s) || (x == id@ && s == r) by {
            if has_grant(entries@, x, s) {
                let i = choose|i: int| 0 <= i < entries@.len() && entries@[i].id@ == x && #[trigger] entries@[i].permissions@.contains(s);
                if i == v0.len() {
                    assert(e.permissions@.to_set().contains(s));
                } else {
                    assert(v0[i].permissions@.contains(s));
                }
            }
            if has_grant(v0, x, s) {
                let i = choose|i: int| 0 <= i < v0.len() && v0[i].id@ == x && #[trigger] v0[i].permissions@.contains(s);
                assert(entries@[i].permissions@.contains(s));
            }
            if x == id@ && s == r {
                assert(e.permissions@.to_set().contains(s));
                assert(entries@[v0.len() as int].permissions@.contains(s));
            }
        }
    }
}

/// Records, under the reply's relation, each identifier of kind `kind` that
/// `reply` lists and that parses; a reply for another kind or a failed one
/// changes nothing.
pub fn absorb_reply(entries: &mut Vec<Entry>, kind: ObjectKind, reply: &FanOutReply)
    requires
        ledger_wf(old(entries)@, kind),
    ensures
        ledger_wf(final(entries)@, kind),
        forall|x: Seq<char>, s: Relation| #[trigger] has_grant(final(entries)@, x, s)
            <==> has_grant(old(entries)@, x, s) || (object_segments(kind, x) is Some && delivers(*reply, kind, s, x)),
{
    if reply.kind != kind {
        return;
    }
    let objects = match &reply.outcome {
        Ok(objects) => objects,
        Err(_) => return,
    };
    let ghost v0 = entries@;
    let ghost rel = reply.relation;
    let mut j: usize = 0;
    while j < objects.len()
        invariant
            0 <= j <= objects@.len(),
            reply.outcome == Ok::<Vec<String>, String>(*objects),
            reply.kind == kind,
            rel == reply.relation,
            ledger_wf(entries@, kind),
            forall|x: Seq<char>, s: Relation| #[trigger] has_grant(entries@, x, s)
                <==> has_grant(v0, x, s) || (object_segments(kind, x) is Some && s == rel
                    && exists|m: int| 0 <= m < j && #[trigger] objects@[m]@ == x),
        decreases objects@.len() - j,
    {
        let ghost before = entries@;
        match parse_object(kind, &objects[j]) {
            Some(segments) => absorb(entries, kind, &objects[j], segments, reply.relation),
            None => {},
        }
        proof {
            assert forall|x: Seq<char>, s: Relation| #[trigger] has_grant(entries@, x, s)
                <==> has_grant(v0, x, s) || (object_segments(kind, x) is Some && s == rel
                    && exists|m: int| 0 <= m < j + 1 && #[trigger] objects@[m]@ == x) by {
                if object_segments(kind, x) is Some && s == rel && x == objects@[j as int]@ {
                    assert(has_grant(entries@, x, s));
                }
                if exists|m: int| 0 <= m < j + 1 && #[trigger] objects@[m]@ == x {
                    let m = choose|m: int| 0 <= m < j + 1 && #[trigger] objects@[m]@ == x;
                    if m < j {
                        assert(exists|m: int| 0 <= m < j && #[trigger] objects@[m]@ == x);
                    }
                }
            }
        }
        j = j + 1;
    }
    proof {
        assert forall|x: Seq<char>, s: Relation| #[trigger] has_grant(entries@, x, s)
            <==> has_grant(v0, x, s) || (object_segments(kind, x) is Some && delivers(*reply, kind, s, x)) by {
            if exists|m: int| 0 <= m < objects@.len() && #[trigger] objects@[m]@ == x {
                let m = choose|m: int| 0 <= m < objects@.len() && #[trigger] objects@[m]@ == x;
                assert(texts(objects@)[m] == x);
            }
            if texts(objects@).contains(x) {
                let m = choose|m: int| 0 <= m < texts(objects@).len() && texts(objects@)[m] == x;
                assert(objects@[m]@ == x);
            }
        }
    }
}

/// Merges, for one kind, every reply in order.
pub fn collect_kind(replies: &Vec<FanOutReply>, kind: ObjectKind) -> (r: Vec<Entry>)
    ensures
        ledger_wf(r@, kind),
        forall|x: Seq<char>, s: Relation| #[trigger] has_grant(r@, x, s)
            <==> object_segments(kind, x) is Some && granted(replies@, kind, x).contains(s),
{
    let mut entries: Vec<Entry> = Vec::new();
    let mut i: usize = 0;
    while i < replies.len()
        invariant
            0 <= i <= replies@.len(),
            ledger_wf(entries@, kind),
            forall|x: Seq<char>, s: Relation| #[trigger] has_grant(entries@, x, s)
                <==> object_segments(kind, x) is Some
                    && exists|m: int| 0 <= m < i && #[trigger] delivers(replies@[m], kind, s, x),
        decreases replies@.len() - i,
    {
        absorb_reply(&mut entries, kind, &replies[i]);
        proof {
            assert forall|x: Seq<char>, s: Relation| #[trigger] has_grant(entries@, x, s)
                <==> object_segments(kind, x) is Some
                    && exists|m: int| 0 <= m < i + 1 && #[trigger] delivers(replies@[m], kind, s, x) by {
                if exists|m: int| 0 <= m < i + 1 && #[trigger] delivers(replies@[m], kind, s, x) {
                    let m = choose|m: int| 0 <= m < i + 1 && #[trigger] delivers(replies@[m], kind, s, x);
                    if m < i {
                        assert(exists|m: int| 0 <= m < i && #[trigger] delivers(replies@[m], kind, s, x));
                    }
                }
            }
        }
        i = i + 1;
    }
    entries
}

/// The map from identifier to granted relations that parallel lists of
/// identifiers and permission lists describe.
pub open spec fn grant_map(ids: Seq<Seq<char>>, perms: Seq<Seq<Relation>>) -> Map<Seq<char>, Set<Relation>> {
    Map::new(
        |id: Seq<char>| exists|i: int| 0 <= i < ids.len() && ids[i] == id,
        |id: Seq<char>|
            Set::new(|r: Relation| exists|i: int| 0 <= i < ids.len() && ids[i] == id && #[trigger] perms[i].contains(r)),
    )
}

pub open spec fn entry_ids(v: Seq<Entry>) -> Seq<Seq<char>> {
    v.map_values(|e: Entry| e.id@)
}

pub open spec fn entry_perms(v: Seq<Entry>) -> Seq<Seq<Relation>> {
    v.map_values(|e: Entry| e.permissions@)
}

/// A merged ledger for `kind` holds what discovery finds of that kind.
pub proof fn lemma_ledger_view(v: Seq<Entry>, replies: Seq<FanOutReply>, kind: ObjectKind)
    requires
        ledger_wf(v, kind),
        forall|x: Seq<char>, s: Relation| #[trigger] has_grant(v, x, s)
            <==> object_segments(kind, x) is Some && granted(replies, kind, x).contains(s),
    ensures
        grant_map(entry_ids(v), entry_perms(v)) == discovered(replies, kind),
        entry_ids(v).no_duplicates(),
{
    let g = grant_map(entry_ids(v), entry_perms(v));
    let d = discovered(replies, kind);
    assert forall|id: Seq<char>| g.contains_key(id) <==> d.contains_key(id) by {
        if g.contains_key(id) {
            let i = choose|i: int| 0 <= i < entry_ids(v).len() && entry_ids(v)[i] == id;
            let s = v[i].permissions@[0];
            assert(v[i].permissions@.contains(s));
            assert(has_grant(v, id, s));
            assert(granted(replies, kind, id).contains(s));
        }
        if d.contains_key(id) {
            if !(exists|s: Relation| granted(replies, kind, id).contains(s)) {
                assert(granted(replies, kind, id) =~= Set::<Relation>::empty());
            }
            let s = choose|s: Relation| granted(replies, kind, id).contains(s);
            assert(has_grant(v, id, s));
            let i = choose|i: int| 0 <= i < v.len() && v[i].id@ == id && #[trigger] v[i].permissions@.contains(s);
            assert(entry_ids(v)[i] == id);
        }
    }
    assert forall|id: Seq<char>| #[trigger] d.contains_key(id) implies g[id] == d[id] by {
        assert forall|s: Relation| g[id].contains(s) <==> d[id].contains(s) by {
            if g[id].contains(s) {
                let i = choose|i: int| 0 <= i < entry_ids(v).len() && entry_ids(v)[i] == id && #[trigger] entry_perms(v)[i].contains(s);
                assert(v[i].permissions@.contains(s));
                assert(has_grant(v, id, s));
            }
            if d[id].contains(s) {
                assert(has_grant(v, id, s));
                let i = choose|i: int| 0 <= i < v.len() && v[i].id@ == id && #[trigger] v[i].permissions@.contains(s);
                assert(entry_perms(v)[i].contains(s));
            }
        }
        assert(g[id] =~= d[id]);
    }
    assert(g =~= d);
}

/// A service that the principal can reach.
pub struct SharedService {
    pub id: String,
    pub name: String,
    pub shared_via: String,
    pub permissions: Vec<Relation>,
}

/// A service type that the principal can reach.
pub struct SharedServiceType {
    pub id: String,
    pub service_name: String,
    pub service_type: String,
    pub shared_via: String,
    pub permissions: Vec<Relation>,
}

/// A resource that the principal can reach.
pub struct SharedResource {
    pub id: String,
    pub service_name: String,
    pub service_type: String,
    pub resource_name: String,
    pub shared_via: String,
    pub permissions: Vec<Relation>,
}

/// How every discovered object was reached.
pub open spec fn parent_organization() -> Seq<char> {
    "parent_organization"@
}

impl SharedService {
    /// Its fields are those of its identifier; its permissions are canonical.
    pub open spec fn wf(&self) -> bool {
        &&& object_segments(ObjectKind::Service, self.id@) == Some(seq![self.name@])
        &&& self.shared_via@ == parent_organization()
        &&& is_canonical(self.permissions@)
        &&& self.permissions@.len() > 0
    }
}

impl SharedServiceType {
    /// Its fields are those of its identifier; its permissions are canonical.
    pub open spec fn wf(&self) -> bool {
        &&& object_segments(ObjectKind::ServiceType, self.id@) == Some(seq![self.service_name@, self.service_type@])
        &&& self.shared_via@ == parent_organization()
        &&& is_canonical(self.permissions@)
        &&& self.permissions@.len() > 0
    }
}

impl SharedResource {
    /// Its fields are those of its identifier; its permissions are canonical.
    pub open spec fn wf(&self) -> bool {
        &&& object_segments(ObjectKind::Resource, self.id@)
            == Some(seq![self.service_name@, self.service_type@, self.resource_name@])
        &&& self.shared_via@ == parent_organization()
        &&& is_canonical(self.permissions@)
        &&& self.permissions@.len() > 0
    }
}

/// Everything discovery found, one collection per kind.
pub struct SharedResourcesResponse {
    pub services: Vec<SharedService>,
    pub service_types: Vec<SharedServiceType>,
    pub resources: Vec<SharedResource>,
}

impl SharedResourcesResponse {
    pub open spec fn service_ids(&self) -> Seq<Seq<char>> {
        self.services@.map_values(|e: SharedService| e.id@)
    }

    pub open spec fn service_type_ids(&self) -> Seq<Seq<char>> {
        self.service_types@.map_values(|e: SharedServiceType| e.id@)
    }

    pub open spec fn resource_ids(&self) -> Seq<Seq<char>> {
        self.resources@.map_values(|e: SharedResource| e.id@)
    }

    /// Each service identifier with the relations granted on it.
    pub open spec fn services_view(&self) -> Map<Seq<char>, Set<Relation>> {
        grant_map(self.service_ids(), self.services@.map_values(|e: SharedService| e.permissions@))
    }

    /// Each service type identifier with the relations granted on it.
    pub open spec fn service_types_view(&self) -> Map<Seq<char>, Set<Relation>> {
        grant_map(self.service_type_ids(), self.service_types@.map_values(|e: SharedServiceType| e.permissions@))
    }

    /// Each resource identifier with the relations granted on it.
    pub open spec fn resources_view(&self) -> Map<Seq<char>, Set<Relation>> {
        grant_map(self.resource_ids(), self.resources@.map_values(|e: SharedResource| e.permissions@))
    }

    /// One record per identifier in each collection, each well-formed.
    pub open spec fn wf(&self) -> bool {
        &&& self.service_ids().no_duplicates()
        &&& self.service_type_ids().no_duplicates()
        &&& self.resource_ids().no_duplicates()
        &&& forall|i: int| 0 <= i < self.services@.len() ==> (#[trigger] self.services@[i]).wf()
        &&& forall|i: int| 0 <= i < self.service_types@.len() ==> (#[trigger] self.service_types@[i]).wf()
        &&& forall|i: int| 0 <= i < self.resources@.len() ==> (#[trigger] self.resources@[i]).wf()
    }

    /// The response holds exactly what `replies` let discovery find.
    pub open spec fn reports(&self, replies: Seq<FanOutReply>) -> bool {
        &&& self.wf()
        &&& self.services_view() == discovered(replies, ObjectKind::Service)
        &&& self.service_types_view() == discovered(replies, ObjectKind::ServiceType)
        &&& self.resources_view() == discovered(replies, ObjectKind::Resource)
    }
}

fn services_of(entries: Vec<Entry>) -> (out: Vec<SharedService>)
    requires
        ledger_wf(entries@, ObjectKind::Service),
    ensures
        out@.map_values(|e: SharedService| e.id@) == entry_ids(entries@),
        out@.map_values(|e: SharedService| e.permissions@) == entry_perms(entries@),
        forall|i: int| 0 <= i < out@.len() ==> (#[trigger] out@[i]).wf(),
{
    let ghost v0 = entries@;
    let mut entries = entries;
    let mut out: Vec<SharedService> = Vec::new();
    while entries.len() > 0
        invariant
            out@.len() + entries@.len() == v0.len(),
            entries@ == v0.subrange(out@.len() as int, v0.len() as int),
            ledger_wf(v0, ObjectKind::Service),
            forall|i: int| 0 <= i < out@.len() ==> (#[trigger] out@[i]).id@ == v0[i].id@
                && out@[i].permissions@ == v0[i].permissions@ && out@[i].wf(),
        decreases entries@.len(),
    {
        let e = entries.remove(0);
        assert(e == v0[out@.len() as int]);
        assert(object_segments(ObjectKind::Service, v0[out@.len() as int].id@) == Some(texts(e.segments@)));
        let ghost segs = e.segments@;
        assert(has_prefix(e.id@, kind_prefix(ObjectKind::Service)));
        assert(texts(segs) == seq![e.id@.skip(kind_prefix(ObjectKind::Service).len() as int)]);
        assert(texts(segs).len() == 1);
        assert(segs.len() == 1);
        let mut segments = e.segments;
        let name = segments.remove(0);
        let rec = SharedService { id: e.id, name, shared_via: "parent_organization".to_owned(), permissions: e.permissions };
        assert(seq![rec.name@] =~= texts(segs));
        out.push(rec);
        assert(entries@ =~= v0.subrange(out@.len() as int, v0.len() as int));
    }
    assert(out@.map_values(|e: SharedService| e.id@) =~= entry_ids(v0));
    assert(out@.map_values(|e: SharedService| e.permissions@) =~= entry_perms(v0));
    out
}

fn service_types_of(entries: Vec<Entry>) -> (out: Vec<SharedServiceType>)
    requires
        ledger_wf(entries@, ObjectKind::ServiceType),
    ensures
        out@.map_values(|e: SharedServiceType| e.id@) == entry_ids(entries@),
        out@.map_values(|e: SharedServiceType| e.permissions@) == entry_perms(entries@),
        forall|i: int| 0 <= i < out@.len() ==> (#[trigger] out@[i]).wf(),
{
    let ghost v0 = entries@;
    let mut entries = entries;
    let mut out: Vec<SharedServiceType> = Vec::new();
    while entries.len() > 0
        invariant
            out@.len() + entries@.len() == v0.len(),
            entries@ == v0.subrange(out@.len() as int, v0.len() as int),
            ledger_wf(v0, ObjectKind::ServiceType),
            forall|i: int| 0 <= i < out@.len() ==> (#[trigger] out@[i]).id@ == v0[i].id@
                && out@[i].permissions@ == v0[i].permissions@ && out@[i].wf(),
        decreases entries@.len(),
    {
        let e = entries.remove(0);
        assert(e == v0[out@.len() as int]);
        assert(object_segments(ObjectKind::ServiceType, v0[out@.len() as int].id@) == Some(texts(e.segments@)));
        let ghost segs = e.segments@;
        assert(has_prefix(e.id@, kind_prefix(ObjectKind::ServiceType)));
        assert(texts(segs).len() == 2);
        assert(segs.len() == 2);
        let mut segments = e.segments;
        let service_name = segments.remove(0);
        let service_type = segments.remove(0);
        let rec = SharedServiceType {
            id: e.id,
            service_name,
            service_type,
            shared_via: "parent_organization".to_owned(),
            permissions: e.permissions,
        };
        assert(seq![rec.service_name@, rec.service_type@] =~= texts(segs));
        out.push(rec);
        assert(entries@ =~= v0.subrange(out@.len() as int, v0.len() as int));
    }
    assert(out@.map_values(|e: SharedServiceType| e.id@) =~= entry_ids(v0));
    assert(out@.map_values(|e: SharedServiceType| e.permissions@) =~= entry_perms(v0));
    out
}

fn resources_of(entries: Vec<Entry>) -> (out: Vec<SharedResource>)
    requires
        ledger_wf(entries@, ObjectKind::Resource),
    ensures
        out@.map_values(|e: SharedResource| e.id@) == entry_ids(entries@),
        out@.map_values(|e: SharedResource| e.permissions@) == entry_perms(entries@),
        forall|i: int| 0 <= i < out@.len() ==> (#[trigger] out@[i]).wf(),
{
    let ghost v0 = entries@;
    let mut entries = entries;
    let mut out: Vec<SharedResource> = Vec::new();
    while entries.len() > 0
        invariant
            out@.len() + entries@.len() == v0.len(),
            entries@ == v0.subrange(out@.len() as int, v0.len() as int),
            ledger_wf(v0, ObjectKind::Resource),
            forall|i: int| 0 <= i < out@.len() ==> (#[trigger] out@[i]).id@ == v0[i].id@
                && out@[i].permissions@ == v0[i].permissions@ && out@[i].wf(),
        decreases entries@.len(),
    {
        let e = entries.remove(0);
        assert(e == v0[out@.len() as int]);
        assert(object_segments(ObjectKind::Resource, v0[out@.len() as int].id@) == Some(texts(e.segments@)));
        let ghost segs = e.segments@;
        assert(has_prefix(e.id@, kind_prefix(ObjectKind::Resource)));
        assert(texts(segs).len() == 3);
        assert(segs.len() == 3);
        let mut segments = e.segments;
        let service_name = segments.remove(0);
        let service_type = segments.remove(0);
        let resource_name = segments.remove(0);
        let rec = SharedResource {
            id: e.id,
            service_name,
            service_type,
            resource_name,
            shared_via: "parent_organization".to_owned(),
            permissions: e.permissions,
        };
        assert(seq![rec.service_name@, rec.service_type@, rec.resource_name@] =~= texts(segs));
        out.push(rec);
        assert(entries@ =~= v0.subrange(out@.len() as int, v0.len() as int));
    }
    assert(out@.map_values(|e: SharedResource| e.id@) =~= entry_ids(v0));
    assert(out@.map_values(|e: SharedResource| e.permissions@) =~= entry_perms(v0));
    out
}

/// Why discovery as a whole failed.
#[derive(Clone, Copy, Debug, PartialEq, Eq, Structural)]
pub enum DiscoveryError {
    /// No query of the fan-out got an answer from the authority.
    NoQuerySucceeded,
}

/// Some reply carries an answer.
pub open spec fn any_answered(replies: Seq<FanOutReply>) -> bool {
    exists|i: int| 0 <= i < replies.len() && (#[trigger] replies[i]).outcome is Ok
}

/// Merges the replies of a fan-out into one response: per kind, one record
/// per well-formed identifier listed, carrying every relation under which it
/// was listed. Failed replies are left out; only when none succeeded does
/// the merge fail.
pub fn merge_discovery(replies: &Vec<FanOutReply>) -> (r: Result<SharedResourcesResponse, DiscoveryError>)
    ensures
        r is Ok <==> any_answered(replies@),
        r matches Ok(resp) ==> resp.reports(replies@),
        r matches Err(e) ==> e == DiscoveryError::NoQuerySucceeded,
{
    let mut answered = false;
    let mut i: usize = 0;
    while i < replies.len()
        invariant
            0 <= i <= replies@.len(),
            answered <==> exists|m: int| 0 <= m < i && (#[trigger] replies@[m]).outcome is Ok,
        decreases replies@.len() - i,
    {
        if replies[i].outcome.is_ok() {
            answered = true;
        }
        i = i + 1;
    }
    if !answered {
        return Err(DiscoveryError::NoQuerySucceeded);
    }
    let services = collect_kind(replies, ObjectKind::Service);
    let service_types = collect_kind(replies, ObjectKind::ServiceType);
    let resources = collect_kind(replies, ObjectKind::Resource);
    proof {
        lemma_ledger_view(services@, replies@, ObjectKind::Service);
        lemma_ledger_view(service_types@, replies@, ObjectKind::ServiceType);
        lemma_ledger_view(resources@, replies@, ObjectKind::Resource);
    }
    let resp = SharedResourcesResponse {
        services: services_of(services),
        service_types: service_types_of(service_types),
        resources: resources_of(resources),
    };
    Ok(resp)
}

/// Every successful reply of `a` also stands in `b`, so `b` grants at least
/// what `a` grants.
proof fn lemma_granted_grows(a: Seq<FanOutReply>, b: Seq<FanOutReply>)
    requires
        forall|i: int| 0 <= i < a.len() && (#[trigger] a[i]).outcome is Ok ==> b.contains(a[i]),
    ensures
        forall|kind: ObjectKind, id: Seq<char>| #[trigger] granted(a, kind, id).subset_of(granted(b, kind, id)),
        any_answered(a) ==> any_answered(b),
{
    assert forall|kind: ObjectKind, id: Seq<char>| #[trigger] granted(a, kind, id).subset_of(granted(b, kind, id)) by {
        assert forall|r: Relation| granted(a, kind, id).contains(r) implies granted(b, kind, id).contains(r) by {
            let i = choose|i: int| 0 <= i < a.len() && #[trigger] delivers(a[i], kind, r, id);
            assert(b.contains(a[i]));
            let j = choose|j: int| 0 <= j < b.len() && b[j] == a[i];
            assert(delivers(b[j], kind, r, id));
        }
    }
    if any_answered(a) {
        let i = choose|i: int| 0 <= i < a.len() && (#[trigger] a[i]).outcome is Ok;
        let j = choose|j: int| 0 <= j < b.len() && b[j] == a[i];
        assert(b[j].outcome is Ok);
    }
}

/// The merge does not depend on the order of the replies: two fan-outs
/// whose replies are the same up to order find the same objects with the
/// same relations, and succeed or fail together.
pub proof fn lemma_merge_order_independent(a: Seq<FanOutReply>, b: Seq<FanOutReply>)
    requires
        a.to_multiset() == b.to_multiset(),
    ensures
        forall|kind: ObjectKind| #[trigger] discovered(a, kind) == discovered(b, kind),
        any_answered(a) == any_answered(b),
{
    a.to_multiset_ensures();
    b.to_multiset_ensures();
    assert forall|i: int| 0 <= i < a.len() && (#[trigger] a[i]).outcome is Ok implies b.contains(a[i]) by {
        assert(a.contains(a[i]));
        assert(a.to_multiset().count(a[i]) > 0);
        assert(b.to_multiset().count(a[i]) > 0);
    }
    assert forall|i: int| 0 <= i < b.len() && (#[trigger] b[i]).outcome is Ok implies a.contains(b[i]) by {
        assert(b.contains(b[i]));
        assert(b.to_multiset().count(b[i]) > 0);
        assert(a.to_multiset().count(b[i]) > 0);
    }
    lemma_granted_grows(a, b);
    lemma_granted_grows(b, a);
    assert forall|kind: ObjectKind| #[trigger] discovered(a, kind) == discovered(b, kind) by {
        assert forall|id: Seq<char>| granted(a, kind, id) == granted(b, kind, id) by {
            assert(granted(a, kind, id).subset_of(granted(b, kind, id)));
            assert(granted(b, kind, id).subset_of(granted(a, kind, id)));
            assert(granted(a, kind, id) =~= granted(b, kind, id));
        }
        assert(discovered(a, kind) =~= discovered(b, kind));
    }
}

/// A failed query leaves no trace: the merge finds what the other replies
/// give, and it still succeeds where some other reply was answered.
pub proof fn lemma_failed_reply_ignored(replies: Seq<FanOutReply>, k: int)
    requires
        0 <= k < replies.len(),
        replies[k].outcome is Err,
    ensures
        forall|kind: ObjectKind| #[trigger] discovered(replies, kind) == discovered(replies.remove(k), kind),
        any_answered(replies) == any_answered(replies.remove(k)),
{
    let rest = replies.remove(k);
    assert forall|i: int| 0 <= i < replies.len() && (#[trigger] replies[i]).outcome is Ok implies rest.contains(replies[i]) by {
        if i < k {
            assert(rest[i] == replies[i]);
        } else {
            assert(rest[i - 1] == replies[i]);
        }
    }
    assert forall|i: int| 0 <= i < rest.len() && (#[trigger] rest[i]).outcome is Ok implies replies.contains(rest[i]) by {
        if i < k {
            assert(replies[i] == rest[i]);
        } else {
            assert(replies[i + 1] == rest[i]);
        }
    }
    lemma_granted_grows(replies, rest);
    lemma_granted_grows(rest, replies);
    assert forall|kind: ObjectKind| #[trigger] discovered(replies, kind) == discovered(rest, kind) by {
        assert forall|id: Seq<char>| granted(replies, kind, id) == granted(rest, kind, id) by {
            assert(granted(replies, kind, id).subset_of(granted(rest, kind, id)));
            assert(granted(rest, kind, id).subset_of(granted(replies, kind, id)));
            assert(granted(replies, kind, id) =~= granted(rest, kind, id));
        }
        assert(discovered(replies, kind) =~= discovered(rest, kind));
    }
}

/// Partial results combine by union: the replies of two batches of queries
/// taken together grant on each object what either batch grants, and find
/// the objects that either finds.
pub proof fn lemma_merge_of_batches(a: Seq<FanOutReply>, b: Seq<FanOutReply>)
    ensures
        forall|kind: ObjectKind, id: Seq<char>| #[trigger] granted(a + b, kind, id)
            == granted(a, kind, id).union(granted(b, kind, id)),
        forall|kind: ObjectKind| #[trigger] discovered(a + b, kind).dom()
            == discovered(a, kind).dom().union(discovered(b, kind).dom()),
{
    let ab = a + b;
    assert forall|kind: ObjectKind, id: Seq<char>| #[trigger] granted(ab, kind, id)
        == granted(a, kind, id).union(granted(b, kind, id)) by {
        assert forall|r: Relation| granted(ab, kind, id).contains(r)
            <==> granted(a, kind, id).contains(r) || granted(b, kind, id).contains(r) by {
            if granted(ab, kind, id).contains(r) {
                let i = choose|i: int| 0 <= i < ab.len() && #[trigger] delivers(ab[i], kind, r, id);
                if i < a.len() {
                    assert(delivers(a[i], kind, r, id));
                } else {
                    assert(delivers(b[i - a.len()], kind, r, id));
                }
            }
            if granted(a, kind, id).contains(r) {
                let i = choose|i: int| 0 <= i < a.len() && #[trigger] delivers(a[i], kind, r, id);
                assert(delivers(ab[i], kind, r, id));
            }
            if granted(b, kind, id).contains(r) {
                let i = choose|i: int| 0 <= i < b.len() && #[trigger] delivers(b[i], kind, r, id);
                assert(delivers(ab[i + a.len()], kind, r, id));
            }
        }
        assert(granted(ab, kind, id) =~= granted(a, kind, id).union(granted(b, kind, id)));
    }
    assert forall|kind: ObjectKind| #[trigger] discovered(ab, kind).dom()
        == discovered(a, kind).dom().union(discovered(b, kind).dom()) by {
        assert forall|id: Seq<char>| discovered(ab, kind).dom().contains(id)
            <==> discovered(a, kind).dom().contains(id) || discovered(b, kind).dom().contains(id) by {
            let ga = granted(a, kind, id);
            let gb = granted(b, kind, id);
            assert(granted(ab, kind, id) == ga.union(gb));
            if ga != Set::<Relation>::empty() {
                if !(exists|r: Relation| ga.contains(r)) {
                    assert(ga =~= Set::<Relation>::empty());
                }
                let r = choose|r: Relation| ga.contains(r);
                assert(ga.union(gb).contains(r));
            }
            if gb != Set::<Relation>::empty() {
                if !(exists|r: Relation| gb.contains(r)) {
                    assert(gb =~= Set::<Relation>::empty());
                }
                let r = choose|r: Relation| gb.contains(r);
                assert(ga.union(gb).contains(r));
            }
            if ga == Set::<Relation>::empty() && gb == Set::<Relation>::empty() {
                assert(ga.union(gb) =~= Set::<Relation>::empty());
            }
        }
        assert(discovered(ab, kind).dom() =~= discovered(a, kind).dom().union(discovered(b, kind).dom()));
    }
}

} // verus!
