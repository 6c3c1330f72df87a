//! Network interfaces: their labels, the selected one, and the signature of a list of them.
use vstd::prelude::*;
use crate::strsort::{lex_lt, lemma_lex_irrefl, lemma_lex_total, lemma_lex_trans, str_lt};
use crate::text::{append_str, str_eq};
use std::collections::hash_map::DefaultHasher;
use std::hash::Hasher;
use vstd::std_specs::hash::DefaultHasherAdditionalSpecFns;

verus! {

/// The kinds of network interface.
#[derive(Debug, Clone, Copy, PartialEq, Eq, Hash)]
pub enum InterfaceType {
    Wifi,
    Ethernet,
    Docker,
    Other,
}

/// The short label of an interface kind.
pub open spec fn short_label_of(t: InterfaceType) -> Seq<char> {
    match t {
        InterfaceType::Wifi => "WiFi"@,
        InterfaceType::Ethernet => "LAN"@,
        InterfaceType::Docker => "Docker"@,
        InterfaceType::Other => "Net"@,
    }
}

impl InterfaceType {
    /// The short label of the kind.
    pub fn short_label(self) -> (r: &'static str)
        ensures
            r@ == short_label_of(self),
    {
        match self {
            InterfaceType::Wifi => "WiFi",
            InterfaceType::Ethernet => "LAN",
            InterfaceType::Docker => "Docker",
            InterfaceType::Other => "Net",
        }
    }
}

/// A network interface with the subnet it is on.
#[derive(Debug, Clone, PartialEq, Eq, Hash)]
pub struct NetworkInterface {
    pub id: String,
    pub name: String,
    pub ip_range: String,
    pub iface_type: InterfaceType,
    pub local_ip: String,
}

/// An interface as plain values.
pub open spec fn iface_view(i: NetworkInterface) -> (Seq<char>, Seq<char>, Seq<char>, InterfaceType, Seq<char>) {
    (i.id@, i.name@, i.ip_range@, i.iface_type, i.local_ip@)
}

/// The plain values of a list of interfaces.
pub open spec fn iface_views(v: Seq<NetworkInterface>) -> Seq<
    (Seq<char>, Seq<char>, Seq<char>, InterfaceType, Seq<char>),
> {
    v.map_values(|i: NetworkInterface| iface_view(i))
}

impl NetworkInterface {
    /// The interface as the selector shows it: `[label] name (range)`.
    pub fn display_text(&self) -> (r: String)
        ensures
            r@ == seq!['['] + short_label_of(self.iface_type) + "] "@ + self.name@ + " ("@
                + self.ip_range@ + seq![')'],
    {
        let mut s = String::new();
        s.push('[');
        append_str(&mut s, self.iface_type.short_label());
        append_str(&mut s, "] ");
        append_str(&mut s, self.name.as_str());
        append_str(&mut s, " (");
        append_str(&mut s, self.ip_range.as_str());
        s.push(')');
        s
    }
}

/// The interface with id `selected_id`: the first one in the list.
pub fn select_by_id<'a>(interfaces: &'a [NetworkInterface], selected_id: Option<&str>) -> (r: Option<
    &'a NetworkInterface,
>)
    ensures
        match selected_id {
            None => r is None,
            Some(id) => match r {
                Some(x) => exists|i: int|
                    0 <= i < interfaces@.len() && interfaces@[i] == *x && x.id@ == id@ && forall|
                        j: int,
                    | 0 <= j < i ==> interfaces@[j].id@ != id@,
                None => forall|j: int| 0 <= j < interfaces@.len() ==> interfaces@[j].id@ != id@,
            },
        },
{
    let id = match selected_id {
        Some(id) => id,
        None => {
            return None;
        },
    };
    let mut i: usize = 0;
    while i < interfaces.len()
        invariant
            i <= interfaces@.len(),
            selected_id == Some(id),
            forall|j: int| 0 <= j < i ==> interfaces@[j].id@ != id@,
        decreases interfaces@.len() - i,
    {
        if str_eq(interfaces[i].id.as_str(), id) {
            return Some(&interfaces[i]);
        }
        i = i + 1;
    }
    None
}

/// `x` inserted into `t` after every element whose id does not sort after its own.
pub open spec fn ins_by_id(t: Seq<NetworkInterface>, x: NetworkInterface) -> Seq<NetworkInterface>
    decreases t.len(),
{
    if t.len() == 0 || lex_lt(x.id@, t[0].id@) {
        seq![x] + t
    } else {
        seq![t[0]] + ins_by_id(t.drop_first(), x)
    }
}

/// `v` sorted by id, keeping the order of equal ids: the order `sort_by` on the ids leaves.
pub open spec fn sorted_by_id(v: Seq<NetworkInterface>) -> Seq<NetworkInterface>
    decreases v.len(),
{
    if v.len() == 0 {
        v
    } else {
        ins_by_id(sorted_by_id(v.drop_last()), v.last())
    }
}

proof fn lemma_ins_by_id_at(t: Seq<NetworkInterface>, x: NetworkInterface, p: int)
    requires
        0 <= p <= t.len(),
        forall|i: int| 0 <= i < p ==> !lex_lt(x.id@, #[trigger] t[i].id@),
        p < t.len() ==> lex_lt(x.id@, t[p].id@),
    ensures
        ins_by_id(t, x) == t.take(p).push(x) + t.skip(p),
    decreases t.len(),
{
    if t.len() == 0 || lex_lt(x.id@, t[0].id@) {
        if p > 0 {
            assert(!lex_lt(x.id@, t[0].id@));
        }
        assert(t.take(p).push(x) + t.skip(p) =~= seq![x] + t);
    } else {
        let t1 = t.drop_first();
        assert forall|i: int| 0 <= i < p - 1 implies !lex_lt(x.id@, #[trigger] t1[i].id@) by {
            assert(t1[i] == t[i + 1]);
        }
        lemma_ins_by_id_at(t1, x, p - 1);
        assert(t.take(p).push(x) + t.skip(p) =~= seq![t[0]] + (t1.take(p - 1).push(x) + t1.skip(
            p - 1,
        )));
    }
}

/// A copy of an interface.
fn copy_interface(x: &NetworkInterface) -> (r: NetworkInterface)
    ensures
        r == *x,
{
    NetworkInterface {
        id: x.id.clone(),
        name: x.name.clone(),
        ip_range: x.ip_range.clone(),
        iface_type: x.iface_type,
        local_ip: x.local_ip.clone(),
    }
}

/// The interfaces sorted by id, equal ids in their given order.
pub fn sort_by_id(interfaces: &[NetworkInterface]) -> (r: Vec<NetworkInterface>)
    ensures
        r@ == sorted_by_id(interfaces@),
{
    let mut r: Vec<NetworkInterface> = Vec::new();
    let mut i: usize = 0;
    while i < interfaces.len()
        invariant
            i <= interfaces@.len(),
            r@ == sorted_by_id(interfaces@.take(i as int)),
        decreases interfaces@.len() - i,
    {
        let x = copy_interface(&interfaces[i]);
        proof {
            assert(interfaces@.take(i + 1).drop_last() =~= interfaces@.take(i as int));
            assert(interfaces@.take(i + 1).last() == x);
        }
        let mut p: usize = 0;
        while p < r.len() && !str_lt(x.id.as_str(), r[p].id.as_str())
            invariant
                p <= r@.len(),
                forall|k: int| 0 <= k < p ==> !lex_lt(x.id@, #[trigger] r@[k].id@),
            decreases r@.len() - p,
        {
            p = p + 1;
        }
        proof {
            lemma_ins_by_id_at(r@, x, p as int);
        }
        let ghost before = r@;
        r.insert(p, x);
        assert(r@ =~= before.take(p as int).push(x) + before.skip(p as int));
        i = i + 1;
    }
    assert(interfaces@.take(interfaces@.len() as int) =~= interfaces@);
    r
}

/// What `Hash::hash` writes into a hasher for a list of interfaces: the length of the list,
/// then each interface's fields in turn.
pub uninterp spec fn interfaces_hash_writes(
    v: Seq<(Seq<char>, Seq<char>, Seq<char>, InterfaceType, Seq<char>)>,
) -> Seq<Seq<u8>>;

/// `<[NetworkInterface] as Hash>::hash`, with `Hash` derived on the interface: it adds to the
/// hasher's writes those named `interfaces_hash_writes` of the interfaces, a function of their
/// fields alone; which bytes they are is not stated.
#[verifier::external_body]
fn hash_interfaces_into(interfaces: &[NetworkInterface], hasher: &mut DefaultHasher)
    ensures
        final(hasher)@ == old(hasher)@ + interfaces_hash_writes(iface_views(interfaces@)),
{
    std::hash::Hash::hash(interfaces, hasher)
}

/// The signature of a list of interfaces: what a fresh default hasher finishes with after
/// hashing the list sorted by id.
pub open spec fn signature_of(v: Seq<NetworkInterface>) -> u64 {
    DefaultHasher::spec_finish(interfaces_hash_writes(iface_views(sorted_by_id(v))))
}

/// A signature that changes when the set of interfaces changes: the hash of the list sorted
/// by id.
pub fn signature(interfaces: &[NetworkInterface]) -> (r: u64)
    ensures
        r == signature_of(interfaces@),
{
    let sorted = sort_by_id(interfaces);
    let mut hasher = DefaultHasher::new();
    hash_interfaces_into(sorted.as_slice(), &mut hasher);
    assert(hasher@ =~= interfaces_hash_writes(iface_views(sorted_by_id(interfaces@))));
    hasher.finish()
}

/// The ids of `t` strictly increase.
pub open spec fn ids_increasing(t: Seq<NetworkInterface>) -> bool {
    forall|i: int, j: int| 0 <= i < j < t.len() ==> lex_lt(#[trigger] t[i].id@, #[trigger] t[j].id@)
}

/// No two interfaces of `t` share an id.
pub open spec fn ids_distinct(t: Seq<NetworkInterface>) -> bool {
    forall|i: int, j: int| 0 <= i < j < t.len() ==> #[trigger] t[i].id@ != #[trigger] t[j].id@
}

proof fn lemma_ins_by_id_sorted(t: Seq<NetworkInterface>, x: NetworkInterface)
    requires
        ids_increasing(t),
        forall|i: int| 0 <= i < t.len() ==> #[trigger] t[i].id@ != x.id@,
    ensures
        ids_increasing(ins_by_id(t, x)),
        forall|y: NetworkInterface| #[trigger] ins_by_id(t, x).contains(y) <==> (t.contains(y) || y == x),
    decreases t.len(),
{
    if t.len() == 0 || lex_lt(x.id@, t[0].id@) {
        let r = seq![x] + t;
        assert forall|i: int, j: int| 0 <= i < j < r.len() implies lex_lt(#[trigger] r[i].id@, #[trigger] r[j].id@) by {
            if i == 0 {
                if j > 1 {
                    lemma_lex_trans(x.id@, t[0].id@, t[j - 1].id@);
                }
            } else {
                assert(r[i] == t[i - 1] && r[j] == t[j - 1]);
            }
        }
        assert forall|y: NetworkInterface| r.contains(y) <==> (t.contains(y) || y == x) by {
            if r.contains(y) {
                let k = choose|k: int| 0 <= k < r.len() && r[k] == y;
                if k > 0 {
                    assert(t[k - 1] == y);
                }
            }
            if t.contains(y) {
                let k = choose|k: int| 0 <= k < t.len() && t[k] == y;
                assert(r[k + 1] == y);
            }
            if y == x {
                assert(r[0] == y);
            }
        }
    } else {
        let t1 = t.drop_first();
        lemma_lex_total(x.id@, t[0].id@);
        assert(lex_lt(t[0].id@, x.id@));
        assert forall|i: int, j: int| 0 <= i < j < t1.len() implies lex_lt(#[trigger] t1[i].id@, #[trigger] t1[j].id@) by {
            assert(t1[i] == t[i + 1] && t1[j] == t[j + 1]);
        }
        assert forall|i: int| 0 <= i < t1.len() implies #[trigger] t1[i].id@ != x.id@ by {
            assert(t1[i] == t[i + 1]);
        }
        lemma_ins_by_id_sorted(t1, x);
        let r1 = ins_by_id(t1, x);
        let r = seq![t[0]] + r1;
        assert(ins_by_id(t, x) == r);
        assert forall|i: int, j: int| 0 <= i < j < r.len() implies lex_lt(#[trigger] r[i].id@, #[trigger] r[j].id@) by {
            if i == 0 {
                assert(r1.contains(r1[j - 1]));
                if r1[j - 1] == x {
                } else {
                    let k = choose|k: int| 0 <= k < t1.len() && t1[k] == r1[j - 1];
                    assert(t1[k] == t[k + 1]);
                }
            } else {
                assert(r[i] == r1[i - 1] && r[j] == r1[j - 1]);
            }
        }
        assert forall|y: NetworkInterface| r.contains(y) <==> (t.contains(y) || y == x) by {
            if r.contains(y) {
                let k = choose|k: int| 0 <= k < r.len() && r[k] == y;
                if k > 0 {
                    assert(r1.contains(r1[k - 1]));
                    if t1.contains(y) {
                        let m = choose|m: int| 0 <= m < t1.len() && t1[m] == y;
                        assert(t[m + 1] == y);
                    }
                }
            }
            if t.contains(y) {
                let k = choose|k: int| 0 <= k < t.len() && t[k] == y;
                if k == 0 {
                    assert(r[0] == y);
                } else {
                    assert(t1[k - 1] == y);
                    assert(t1.contains(y));
                    assert(r1.contains(y));
                    let m = choose|m: int| 0 <= m < r1.len() && r1[m] == y;
                    assert(r[m + 1] == y);
                }
            }
            if y == x {
                assert(r1.contains(x));
                let m = choose|m: int| 0 <= m < r1.len() && r1[m] == x;
                assert(r[m + 1] == y);
            }
        }
    }
}

/// Sorting a list of interfaces with distinct ids gives strictly increasing ids and the same
/// interfaces.
pub proof fn lemma_sorted_by_id(v: Seq<NetworkInterface>)
    requires
        ids_distinct(v),
    ensures
        ids_increasing(sorted_by_id(v)),
        forall|y: NetworkInterface| #[trigger] sorted_by_id(v).contains(y) <==> v.contains(y),
    decreases v.len(),
{
    if v.len() > 0 {
        let d = v.drop_last();
        assert forall|i: int, j: int| 0 <= i < j < d.len() implies #[trigger] d[i].id@ != #[trigger] d[j].id@ by {
            assert(d[i] == v[i] && d[j] == v[j]);
        }
        lemma_sorted_by_id(d);
        let s = sorted_by_id(d);
        assert forall|i: int| 0 <= i < s.len() implies #[trigger] s[i].id@ != v.last().id@ by {
            assert(s.contains(s[i]));
            let k = choose|k: int| 0 <= k < d.len() && d[k] == s[i];
            assert(d[k] == v[k]);
        }
        lemma_ins_by_id_sorted(s, v.last());
        assert forall|y: NetworkInterface| sorted_by_id(v).contains(y) <==> v.contains(y) by {
            if d.contains(y) {
                let k = choose|k: int| 0 <= k < d.len() && d[k] == y;
                assert(v[k] == y);
            }
            if v.contains(y) {
                let k = choose|k: int| 0 <= k < v.len() && v[k] == y;
                if k < v.len() - 1 {
                    assert(d[k] == y);
                }
            }
        }
    } else {
        assert forall|y: NetworkInterface| sorted_by_id(v).contains(y) <==> v.contains(y) by {}
    }
}

/// The interfaces after the first of a list with strictly increasing ids are those other
/// than the first.
proof fn lemma_rest_of_increasing(a: Seq<NetworkInterface>)
    requires
        ids_increasing(a),
        a.len() > 0,
    ensures
        forall|y: NetworkInterface| #[trigger] a.drop_first().contains(y) <==> (a.contains(y) && y != a[0]),
{
    assert forall|y: NetworkInterface| a.drop_first().contains(y) <==> (a.contains(y) && y != a[0]) by {
        if a.drop_first().contains(y) {
            let k = choose|k: int| 0 <= k < a.len() - 1 && a.drop_first()[k] == y;
            assert(a[k + 1] == y);
            assert(lex_lt(a[0].id@, a[k + 1].id@));
            lemma_lex_irrefl(a[0].id@);
        }
        if a.contains(y) && y != a[0] {
            let k = choose|k: int| 0 <= k < a.len() && a[k] == y;
            assert(a.drop_first()[k - 1] == y);
        }
    }
}

/// Two lists with strictly increasing ids and the same interfaces are the same list.
proof fn lemma_increasing_unique(a: Seq<NetworkInterface>, b: Seq<NetworkInterface>)
    requires
        ids_increasing(a),
        ids_increasing(b),
        forall|y: NetworkInterface| a.contains(y) <==> b.contains(y),
    ensures
        a == b,
    decreases a.len(),
{
    if a.len() == 0 {
        if b.len() > 0 {
            assert(b.contains(b[0]));
        }
        assert(a =~= b);
    } else {
        assert(a.contains(a[0]));
        assert(b.len() > 0);
        assert(b.contains(b[0]));
        let k = choose|k: int| 0 <= k < b.len() && b[k] == a[0];
        let m = choose|m: int| 0 <= m < a.len() && a[m] == b[0];
        if k > 0 {
            assert(lex_lt(b[0].id@, b[k].id@));
            if m > 0 {
                assert(lex_lt(a[0].id@, a[m].id@));
                lemma_lex_total(a[0].id@, b[0].id@);
            } else {
                lemma_lex_irrefl(a[0].id@);
            }
        }
        assert(a[0] == b[0]);
        lemma_rest_of_increasing(a);
        lemma_rest_of_increasing(b);
        let a1 = a.drop_first();
        let b1 = b.drop_first();
        assert forall|i: int, j: int| 0 <= i < j < a1.len() implies lex_lt(#[trigger] a1[i].id@, #[trigger] a1[j].id@) by {
            assert(a1[i] == a[i + 1] && a1[j] == a[j + 1]);
        }
        assert forall|i: int, j: int| 0 <= i < j < b1.len() implies lex_lt(#[trigger] b1[i].id@, #[trigger] b1[j].id@) by {
            assert(b1[i] == b[i + 1] && b1[j] == b[j + 1]);
        }
        assert forall|y: NetworkInterface| a1.contains(y) <==> b1.contains(y) by {
            assert(a1.contains(y) <==> (a.contains(y) && y != a[0]));
            assert(b1.contains(y) <==> (b.contains(y) && y != b[0]));
        }
        lemma_increasing_unique(a1, b1);
        assert(a =~= seq![a[0]] + a1);
        assert(b =~= seq![b[0]] + b1);
    }
}

/// The signature does not depend on the order of the interfaces where their ids are
/// distinct: a list and any reordering of it sort to the same list, so they hash alike.
pub proof fn lemma_signature_ignores_order(a: Seq<NetworkInterface>, b: Seq<NetworkInterface>)
    requires
        ids_distinct(a),
        ids_distinct(b),
        a.to_multiset() =~= b.to_multiset(),
    ensures
        sorted_by_id(a) == sorted_by_id(b),
        signature_of(a) == signature_of(b),
{
    broadcast use vstd::seq_lib::group_to_multiset_ensures;
    assert forall|y: NetworkInterface| a.contains(y) <==> b.contains(y) by {
        assert(a.contains(y) <==> a.to_multiset().count(y) > 0);
        assert(b.contains(y) <==> b.to_multiset().count(y) > 0);
    }
    assert forall|y: NetworkInterface| #[trigger] sorted_by_id(a).contains(y) <==> sorted_by_id(b).contains(y) by {
        lemma_sorted_by_id(a);
        lemma_sorted_by_id(b);
    }
    lemma_sorted_by_id(a);
    lemma_sorted_by_id(b);
    lemma_increasing_unique(sorted_by_id(a), sorted_by_id(b));
}

} // verus!
