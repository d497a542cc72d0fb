use vstd::prelude::*;

verus! {

/// A key/value pair of strings, seen as character sequences.
pub open spec fn pair_view(p: (String, String)) -> (Seq<char>, Seq<char>) {
    (p.0@, p.1@)
}

/// A list of key/value pairs, seen as character sequences.
pub open spec fn pairs_view(v: Seq<(String, String)>) -> Seq<(Seq<char>, Seq<char>)> {
    v.map_values(|p: (String, String)| pair_view(p))
}

/// A list of strings, seen as character sequences.
pub open spec fn strings_view(v: Seq<String>) -> Seq<Seq<char>> {
    v.map_values(|s: String| s@)
}

/// The attribute map that a list of pairs denotes: a later pair overwrites
/// an earlier one with the same key.
pub open spec fn attrs_map(s: Seq<(Seq<char>, Seq<char>)>) -> Map<Seq<char>, Seq<char>>
    decreases s.len(),
{
    if s.len() == 0 {
        Map::empty()
    } else {
        attrs_map(s.drop_last()).insert(s.last().0, s.last().1)
    }
}

/// No key occurs twice in the list.
pub open spec fn keys_unique(s: Seq<(Seq<char>, Seq<char>)>) -> bool {
    forall|i: int, j: int| 0 <= i < j < s.len() ==> s[i].0 != s[j].0
}

/// With unique keys, the map holds exactly the listed pairs.
pub proof fn lemma_attrs_map_unique(s: Seq<(Seq<char>, Seq<char>)>)
    requires
        keys_unique(s),
    ensures
        forall|i: int|
            0 <= i < s.len() ==> #[trigger] attrs_map(s).contains_key(s[i].0) && attrs_map(s)[s[i].0]
                == s[i].1,
        forall|k: Seq<char>|
            #[trigger] attrs_map(s).contains_key(k) ==> exists|i: int| 0 <= i < s.len() && s[i].0 == k,
    decreases s.len(),
{
    if s.len() > 0 {
        let p = s.drop_last();
        assert(keys_unique(p));
        lemma_attrs_map_unique(p);
        assert(attrs_map(s) == attrs_map(p).insert(s.last().0, s.last().1));
        assert forall|i: int| 0 <= i < s.len() implies #[trigger] attrs_map(s).contains_key(s[i].0)
            && attrs_map(s)[s[i].0] == s[i].1 by {
            if i < s.len() - 1 {
                assert(p[i] == s[i]);
                assert(s[i].0 != s.last().0);
            }
        }
        assert forall|k: Seq<char>| #[trigger] attrs_map(s).contains_key(k) implies exists|i: int|
            0 <= i < s.len() && s[i].0 == k by {
            assert(attrs_map(s) == attrs_map(p).insert(s.last().0, s.last().1));
            if k != s.last().0 {
                assert(attrs_map(p).contains_key(k));
                let i = choose|i: int| 0 <= i < p.len() && p[i].0 == k;
                assert(p[i] == s[i]);
            } else {
                assert(s[s.len() - 1].0 == k);
            }
        }
    }
}

/// What a resolution event reports of one service instance.
#[derive(Clone, Debug)]
pub struct ResolvedService {
    pub fullname: String,
    pub hostname: String,
    pub port: u16,
    pub addresses: Vec<String>,
    pub properties: Vec<(String, String)>,
}

/// The model of a resolution event.
pub struct ResolvedView {
    pub fullname: Seq<char>,
    pub hostname: Seq<char>,
    pub port: u16,
    pub addresses: Seq<Seq<char>>,
    pub properties: Seq<(Seq<char>, Seq<char>)>,
}

impl View for ResolvedService {
    type V = ResolvedView;

    open spec fn view(&self) -> ResolvedView {
        ResolvedView {
            fullname: self.fullname@,
            hostname: self.hostname@,
            port: self.port,
            addresses: strings_view(self.addresses@),
            properties: pairs_view(self.properties@),
        }
    }
}

/// One discovered service instance.
#[derive(Clone, Debug)]
pub struct DiscoveredService {
    pub service_type: String,
    pub fullname: String,
    pub hostname: String,
    pub port: u16,
    pub ips: Vec<String>,
    pub txt_records: Vec<(String, String)>,
    pub last_seen: u64,
}

/// The model of a service record; its attributes form a map.
pub struct ServiceView {
    pub service_type: Seq<char>,
    pub fullname: Seq<char>,
    pub hostname: Seq<char>,
    pub port: u16,
    pub ips: Seq<Seq<char>>,
    pub txt_records: Map<Seq<char>, Seq<char>>,
    pub last_seen: u64,
}

impl View for DiscoveredService {
    type V = ServiceView;

    open spec fn view(&self) -> ServiceView {
        ServiceView {
            service_type: self.service_type@,
            fullname: self.fullname@,
            hostname: self.hostname@,
            port: self.port,
            ips: strings_view(self.ips@),
            txt_records: attrs_map(pairs_view(self.txt_records@)),
            last_seen: self.last_seen,
        }
    }
}

/// The record that a resolution event for a watched service type yields at time `now`.
pub open spec fn resolved_record(service_type: Seq<char>, info: ResolvedView, now: u64) -> ServiceView {
    ServiceView {
        service_type: service_type,
        fullname: info.fullname,
        hostname: info.hostname,
        port: info.port,
        ips: info.addresses,
        txt_records: attrs_map(info.properties),
        last_seen: now,
    }
}

/// Builds the attribute list of a record: one pair per key, the last value given for it.
pub fn collect_attributes(pairs: Vec<(String, String)>) -> (r: Vec<(String, String)>)
    ensures
        keys_unique(pairs_view(r@)),
        attrs_map(pairs_view(r@)) == attrs_map(pairs_view(pairs@)),
{
    let mut out: Vec<(String, String)> = Vec::new();
    let n = pairs.len();
    let mut i: usize = 0;
    while i < n
        invariant
            n == pairs@.len(),
            i <= n,
            keys_unique(pairs_view(out@)),
            attrs_map(pairs_view(out@)) == attrs_map(pairs_view(pairs@).take(i as int)),
        decreases n - i,
    {
        let key = pairs[i].0.clone();
        let val = pairs[i].1.clone();
        let ghost before = pairs_view(out@);
        proof {
            lemma_attrs_map_unique(before);
            let t = pairs_view(pairs@).take(i as int + 1);
            assert(t.drop_last() =~= pairs_view(pairs@).take(i as int));
        }
        let mut j: usize = 0;
        let mut found = false;
        while j < out.len() && !found
            invariant
                before == pairs_view(out@),
                j <= out@.len(),
                found ==> j < out@.len() && out@[j as int].0@ == key@,
                !found ==> forall|m: int| 0 <= m < j ==> out@[m].0@ != key@,
            decreases out@.len() - j + (if found { 0int } else { 1int }),
        {
            if out[j].0 == key {
                found = true;
            } else {
                j = j + 1;
            }
        }
        if found {
            assert(before[j as int].0 == key@);
            out.set(j, (key, val));
            proof {
                let after = pairs_view(out@);
                assert(after =~= before.update(j as int, (key@, val@)));
                assert(keys_unique(after));
                lemma_attrs_map_unique(after);
                let goal = attrs_map(before).insert(key@, val@);
                assert forall|k: Seq<char>| #[trigger] goal.contains_key(k) implies attrs_map(
                    after,
                ).contains_key(k) && attrs_map(after)[k] == goal[k] by {
                    if k != key@ {
                        let m = choose|m: int| 0 <= m < before.len() && before[m].0 == k;
                        assert(after[m] == before[m]);
                    } else {
                        assert(after[j as int] == (key@, val@));
                    }
                }
                assert forall|k: Seq<char>| #[trigger] attrs_map(after).contains_key(k) implies goal.contains_key(k) by {
                    let m = choose|m: int| 0 <= m < after.len() && after[m].0 == k;
                    if m != j {
                        assert(after[m] == before[m]);
                    }
                }
                assert(attrs_map(after) =~= goal);
            }
        } else {
            out.push((key, val));
            proof {
                let after = pairs_view(out@);
                assert(after =~= before.push((key@, val@)));
                assert(after.drop_last() =~= before);
            }
        }
        i = i + 1;
    }
    proof {
        assert(pairs_view(pairs@).take(n as int) =~= pairs_view(pairs@));
    }
    out
}

fn copy_strings(v: &Vec<String>) -> (r: Vec<String>)
    ensures
        strings_view(r@) == strings_view(v@),
{
    let mut out: Vec<String> = Vec::new();
    let mut i: usize = 0;
    while i < v.len()
        invariant
            i <= v@.len(),
            out@.len() == i,
            forall|m: int| 0 <= m < i ==> out@[m]@ == v@[m]@,
        decreases v@.len() - i,
    {
        out.push(v[i].clone());
        i = i + 1;
    }
    assert(strings_view(out@) =~= strings_view(v@));
    out
}

fn copy_pairs(v: &Vec<(String, String)>) -> (r: Vec<(String, String)>)
    ensures
        pairs_view(r@) == pairs_view(v@),
{
    let mut out: Vec<(String, String)> = Vec::new();
    let mut i: usize = 0;
    while i < v.len()
        invariant
            i <= v@.len(),
            out@.len() == i,
            forall|m: int| 0 <= m < i ==> pair_view(out@[m]) == pair_view(v@[m]),
        decreases v@.len() - i,
    {
        out.push((v[i].0.clone(), v[i].1.clone()));
        i = i + 1;
    }
    assert(pairs_view(out@) =~= pairs_view(v@));
    out
}

impl DiscoveredService {
    /// Attribute keys are unique.
    pub open spec fn wf(&self) -> bool {
        keys_unique(pairs_view(self.txt_records@))
    }

    /// Builds the record for a resolution event of a watched service type, seen at `now`.
    pub fn from_resolved(service_type: String, info: ResolvedService, now: u64) -> (r: Self)
        ensures
            r.wf(),
            r@ == resolved_record(service_type@, info@, now),
    {
        let ResolvedService { fullname, hostname, port, addresses, properties } = info;
        let txt_records = collect_attributes(properties);
        DiscoveredService {
            service_type,
            fullname,
            hostname,
            port,
            ips: addresses,
            txt_records,
            last_seen: now,
        }
    }

    /// A field-by-field copy of the record.
    pub fn copy_record(&self) -> (r: Self)
        ensures
            r@ == self@,
            r.wf() == self.wf(),
    {
        DiscoveredService {
            service_type: self.service_type.clone(),
            fullname: self.fullname.clone(),
            hostname: self.hostname.clone(),
            port: self.port,
            ips: copy_strings(&self.ips),
            txt_records: copy_pairs(&self.txt_records),
            last_seen: self.last_seen,
        }
    }
}

} // verus!
