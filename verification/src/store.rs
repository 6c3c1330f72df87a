//! The application configuration: saved credentials, passwords and tool paths.
use vstd::prelude::*;
use crate::text::{from_chars, str_eq, trim, trimmed, to_chars, append_str, trim_string, lemma_trim_idem};
use crate::strsort::{
    lex_lt, lemma_lex_irrefl, lemma_lex_total, lemma_lex_trans, str_lt, strs, sort_strs, dedup_adj,
    sort_strings, dedup_strings,
};
use crate::credential::{is_preset, is_preset_username, opt_view, username_from_id, username_of, contains_string};

verus! {

/// The (key, value) character sequences of a list of string pairs.
pub open spec fn pairs(v: Seq<(String, String)>) -> Seq<(Seq<char>, Seq<char>)> {
    v.map_values(|p: (String, String)| (p.0@, p.1@))
}

/// Keys strictly increasing: sorted, each key once.
pub open spec fn keys_increasing(m: Seq<(Seq<char>, Seq<char>)>) -> bool {
    forall|i: int, j: int| 0 <= i < j < m.len() ==> lex_lt(m[i].0, m[j].0)
}

/// The value stored under `k`.
pub open spec fn map_get(m: Seq<(Seq<char>, Seq<char>)>, k: Seq<char>) -> Option<Seq<char>>
    decreases m.len(),
{
    if m.len() == 0 {
        None
    } else if m[0].0 == k {
        Some(m[0].1)
    } else {
        map_get(m.drop_first(), k)
    }
}

/// `m` with `k` mapped to `v`: the entry replaced where `k` is present, else inserted at its
/// sorted place.
pub open spec fn map_insert(m: Seq<(Seq<char>, Seq<char>)>, k: Seq<char>, v: Seq<char>) -> Seq<
    (Seq<char>, Seq<char>),
>
    decreases m.len(),
{
    if m.len() == 0 {
        seq![(k, v)]
    } else if !lex_lt(m[0].0, k) {
        if m[0].0 == k {
            seq![(k, v)] + m.drop_first()
        } else {
            seq![(k, v)] + m
        }
    } else {
        seq![m[0]] + map_insert(m.drop_first(), k, v)
    }
}

/// `m` without the entries under `k`.
pub open spec fn map_remove(m: Seq<(Seq<char>, Seq<char>)>, k: Seq<char>) -> Seq<
    (Seq<char>, Seq<char>),
>
    decreases m.len(),
{
    if m.len() == 0 {
        m
    } else if m.last().0 == k {
        map_remove(m.drop_last(), k)
    } else {
        map_remove(m.drop_last(), k).push(m.last())
    }
}

proof fn lemma_map_insert_at(m: Seq<(Seq<char>, Seq<char>)>, k: Seq<char>, v: Seq<char>, p: int)
    requires
        0 <= p <= m.len(),
        forall|i: int| 0 <= i < p ==> lex_lt(#[trigger] m[i].0, k),
        p < m.len() ==> !lex_lt(m[p].0, k),
    ensures
        p < m.len() && m[p].0 == k ==> map_insert(m, k, v) == m.update(p, (k, v)),
        !(p < m.len() && m[p].0 == k) ==> map_insert(m, k, v) == m.take(p).push((k, v)) + m.skip(
            p,
        ),
    decreases m.len(),
{
    if m.len() == 0 {
        assert(m.take(p).push((k, v)) + m.skip(p) =~= seq![(k, v)]);
    } else if !lex_lt(m[0].0, k) {
        if p > 0 {
            assert(lex_lt(m[0].0, k));
        }
        if m[0].0 == k {
            assert(m.update(0, (k, v)) =~= seq![(k, v)] + m.drop_first());
        } else {
            assert(m.take(0).push((k, v)) + m.skip(0) =~= seq![(k, v)] + m);
        }
    } else {
        let m1 = m.drop_first();
        assert forall|i: int| 0 <= i < p - 1 implies lex_lt(#[trigger] m1[i].0, k) by {
            assert(m1[i] == m[i + 1]);
        }
        lemma_map_insert_at(m1, k, v, p - 1);
        if p < m.len() && m[p].0 == k {
            assert(m.update(p, (k, v)) =~= seq![m[0]] + m1.update(p - 1, (k, v)));
        } else {
            assert(m.take(p).push((k, v)) + m.skip(p) =~= seq![m[0]] + (m1.take(p - 1).push((k, v))
                + m1.skip(p - 1)));
        }
    }
}

/// Inserting keeps the keys sorted, and a read of `k` afterwards gives `v` while every other
/// key reads as before.
pub proof fn lemma_map_insert(m: Seq<(Seq<char>, Seq<char>)>, k: Seq<char>, v: Seq<char>)
    requires
        keys_increasing(m),
    ensures
        keys_increasing(map_insert(m, k, v)),
        forall|x: Seq<char>| #[trigger] map_get(map_insert(m, k, v), x) == if x == k {
            Some(v)
        } else {
            map_get(m, x)
        },
        forall|x: Seq<char>| (forall|i: int| 0 <= i < m.len() ==> lex_lt(#[trigger] m[i].0, x))
            && lex_lt(k, x) ==> forall|i: int|
            0 <= i < map_insert(m, k, v).len() ==> lex_lt(#[trigger] map_insert(m, k, v)[i].0, x),
    decreases m.len(),
{
    let r = map_insert(m, k, v);
    if m.len() == 0 {
        assert forall|x: Seq<char>| #[trigger] map_get(r, x) == if x == k {
            Some(v)
        } else {
            map_get(m, x)
        } by {
            assert(r =~= seq![(k, v)]);
            assert(r[0] == (k, v));
            assert(r.drop_first().len() == 0);
            assert(map_get(r.drop_first(), x) is None);
        }
    } else if !lex_lt(m[0].0, k) {
        lemma_lex_total(m[0].0, k);
        if m[0].0 == k {
            assert forall|i: int, j: int| 0 <= i < j < r.len() implies lex_lt(r[i].0, r[j].0) by {
                if i == 0 {
                    assert(r[i].0 == m[0].0);
                }
                assert(r[j] == m[j]);
                if i > 0 {
                    assert(r[i] == m[i]);
                }
            }
            assert forall|x: Seq<char>| #[trigger] map_get(r, x) == if x == k {
                Some(v)
            } else {
                map_get(m, x)
            } by {
                assert(r.drop_first() =~= m.drop_first());
            }
        } else {
            assert(lex_lt(k, m[0].0));
            assert forall|i: int, j: int| 0 <= i < j < r.len() implies lex_lt(r[i].0, r[j].0) by {
                assert(r[j] == m[j - 1]);
                if i > 0 {
                    assert(r[i] == m[i - 1]);
                } else if j > 1 {
                    lemma_lex_trans(k, m[0].0, m[j - 1].0);
                }
            }
            assert forall|x: Seq<char>| #[trigger] map_get(r, x) == if x == k {
                Some(v)
            } else {
                map_get(m, x)
            } by {
                assert(r.drop_first() =~= m);
            }
        }
        assert forall|x: Seq<char>| (forall|i: int| 0 <= i < m.len() ==> lex_lt(#[trigger] m[i].0, x))
            && lex_lt(k, x) implies forall|i: int|
            0 <= i < r.len() ==> lex_lt(#[trigger] r[i].0, x) by {
            assert forall|i: int| 0 <= i < r.len() implies lex_lt(#[trigger] r[i].0, x) by {
                if i > 0 {
                    if m[0].0 == k {
                        assert(r[i] == m[i]);
                    } else {
                        assert(r[i] == m[i - 1]);
                    }
                }
            }
        }
    } else {
        let m1 = m.drop_first();
        assert(keys_increasing(m1)) by {
            assert forall|i: int, j: int| 0 <= i < j < m1.len() implies lex_lt(m1[i].0, m1[j].0) by {
                assert(m1[i] == m[i + 1]);
                assert(m1[j] == m[j + 1]);
            }
        }
        lemma_map_insert(m1, k, v);
        let r1 = map_insert(m1, k, v);
        assert(r =~= seq![m[0]] + r1);
        assert forall|i: int| 0 <= i < r1.len() implies lex_lt(m[0].0, #[trigger] r1[i].0) by {
            assert forall|j: int| 0 <= j < m1.len() implies lex_lt(#[trigger] m1[j].0, m[0].0)
                == false by {
                assert(m1[j] == m[j + 1]);
                lemma_lex_total(m[0].0, m1[j].0);
            }
            // every key of r1 is k or a key of m1, each above m[0]
            lemma_map_insert_keys(m1, k, v, i);
            if r1[i].0 != k {
                let j = choose|j: int| 0 <= j < m1.len() && m1[j].0 == r1[i].0;
                assert(m1[j] == m[j + 1]);
            }
        }
        assert forall|i: int, j: int| 0 <= i < j < r.len() implies lex_lt(r[i].0, r[j].0) by {
            if i == 0 {
                assert(r[j] == r1[j - 1]);
            } else {
                assert(r[i] == r1[i - 1]);
                assert(r[j] == r1[j - 1]);
            }
        }
        assert forall|x: Seq<char>| #[trigger] map_get(r, x) == if x == k {
            Some(v)
        } else {
            map_get(m, x)
        } by {
            assert(r.drop_first() =~= r1);
            if x == k {
                assert(m[0].0 != k) by {
                    lemma_lex_irrefl(k);
                }
            }
            assert(map_get(r1, x) == if x == k {
                Some(v)
            } else {
                map_get(m1, x)
            });
        }
        assert forall|x: Seq<char>| (forall|i: int| 0 <= i < m.len() ==> lex_lt(#[trigger] m[i].0, x))
            && lex_lt(k, x) implies forall|i: int|
            0 <= i < r.len() ==> lex_lt(#[trigger] r[i].0, x) by {
            assert forall|i: int| 0 <= i < m1.len() implies lex_lt(#[trigger] m1[i].0, x) by {
                assert(m1[i] == m[i + 1]);
            }
            assert forall|i: int| 0 <= i < r.len() implies lex_lt(#[trigger] r[i].0, x) by {
                if i > 0 {
                    assert(r[i] == r1[i - 1]);
                }
            }
        }
    }
}

/// Every key of `map_insert(m, k, v)` is `k` or a key of `m`.
proof fn lemma_map_insert_keys(m: Seq<(Seq<char>, Seq<char>)>, k: Seq<char>, v: Seq<char>, i: int)
    requires
        0 <= i < map_insert(m, k, v).len(),
    ensures
        map_insert(m, k, v)[i].0 == k || exists|j: int| 0 <= j < m.len() && m[j].0 == map_insert(
            m,
            k,
            v,
        )[i].0,
    decreases m.len(),
{
    let r = map_insert(m, k, v);
    if m.len() == 0 {
    } else if !lex_lt(m[0].0, k) {
        if m[0].0 == k {
            if i > 0 {
                assert(r[i] == m[i]);
            }
        } else {
            if i > 0 {
                assert(r[i] == m[i - 1]);
            }
        }
    } else {
        if i == 0 {
            assert(r[0] == m[0]);
        } else {
            let m1 = m.drop_first();
            lemma_map_insert_keys(m1, k, v, i - 1);
            assert(r[i] == map_insert(m1, k, v)[i - 1]);
            if r[i].0 != k {
                let j = choose|j: int| 0 <= j < m1.len() && m1[j].0 == r[i].0;
                assert(m1[j] == m[j + 1]);
            }
        }
    }
}


/// `map_get` finds the first entry whose key is `k`.
pub proof fn lemma_map_get_at(m: Seq<(Seq<char>, Seq<char>)>, k: Seq<char>, i: int)
    requires
        0 <= i <= m.len(),
        forall|j: int| 0 <= j < i ==> #[trigger] m[j].0 != k,
        i < m.len() ==> m[i].0 == k,
    ensures
        map_get(m, k) == if i < m.len() {
            Some(m[i].1)
        } else {
            None::<Seq<char>>
        },
    decreases m.len(),
{
    if m.len() > 0 && i > 0 {
        let m1 = m.drop_first();
        assert forall|j: int| 0 <= j < i - 1 implies #[trigger] m1[j].0 != k by {
            assert(m1[j] == m[j + 1]);
        }
        assert(m[0].0 != k);
        lemma_map_get_at(m1, k, i - 1);
        if i < m.len() {
            assert(m1[i - 1] == m[i]);
        }
    }
}

/// Saved passwords keyed by user name: in key order, each key once.
#[derive(Debug, PartialEq, Eq)]
pub struct PasswordMap {
    entries: Vec<(String, String)>,
}

impl View for PasswordMap {
    type V = Seq<(Seq<char>, Seq<char>)>;

    closed spec fn view(&self) -> Seq<(Seq<char>, Seq<char>)> {
        pairs(self.entries@)
    }
}

impl Clone for PasswordMap {
    fn clone(&self) -> (r: PasswordMap)
        ensures
            r@ == self@,
    {
        proof {
            use_type_invariant(self);
        }
        let mut entries: Vec<(String, String)> = Vec::new();
        let mut i: usize = 0;
        while i < self.entries.len()
            invariant
                i <= self.entries@.len(),
                pairs(entries@) == pairs(self.entries@).take(i as int),
            decreases self.entries@.len() - i,
        {
            let ghost prev = entries@;
            let k = self.entries[i].0.clone();
            let v = self.entries[i].1.clone();
            let ghost kv = (k@, v@);
            assert(kv == pairs(self.entries@)[i as int]);
            entries.push((k, v));
            assert(pairs(entries@) =~= pairs(prev).push(kv));
            assert(pairs(entries@) =~= pairs(self.entries@).take(i + 1));
            i = i + 1;
        }
        assert(pairs(self.entries@).take(self.entries@.len() as int) =~= pairs(self.entries@));
        PasswordMap { entries }
    }
}

impl PasswordMap {
    #[verifier::type_invariant]
    spec fn well_formed(self) -> bool {
        keys_increasing(pairs(self.entries@))
    }

    /// A map with no entries.
    pub fn new() -> (r: PasswordMap)
        ensures
            r@ == Seq::<(Seq<char>, Seq<char>)>::empty(),
            keys_increasing(r@),
    {
        let r = PasswordMap { entries: Vec::new() };
        assert(pairs(r.entries@) =~= Seq::<(Seq<char>, Seq<char>)>::empty());
        r
    }

    /// The number of saved passwords.
    pub fn len(&self) -> (r: usize)
        ensures
            r == self@.len(),
    {
        self.entries.len()
    }

    /// Whether no password is saved.
    pub fn is_empty(&self) -> (r: bool)
        ensures
            r == (self@.len() == 0),
    {
        self.entries.len() == 0
    }

    /// The entries, in key order.
    pub fn entries(&self) -> (r: &Vec<(String, String)>)
        ensures
            pairs(r@) == self@,
            keys_increasing(self@),
    {
        proof {
            use_type_invariant(self);
        }
        &self.entries
    }

    /// The password saved for `key`.
    pub fn get(&self, key: &str) -> (r: Option<String>)
        ensures
            opt_view(r) == map_get(self@, key@),
    {
        let ghost m = pairs(self.entries@);
        let mut i: usize = 0;
        while i < self.entries.len()
            invariant
                i <= self.entries@.len(),
                m == pairs(self.entries@),
                forall|j: int| 0 <= j < i ==> #[trigger] m[j].0 != key@,
            decreases self.entries@.len() - i,
        {
            if str_eq(self.entries[i].0.as_str(), key) {
                proof {
                    lemma_map_get_at(m, key@, i as int);
                }
                return Some(self.entries[i].1.clone());
            }
            i = i + 1;
        }
        proof {
            lemma_map_get_at(m, key@, i as int);
        }
        None
    }

    /// Whether a password is saved for `key`.
    pub fn contains_key(&self, key: &str) -> (r: bool)
        ensures
            r == map_get(self@, key@) is Some,
    {
        self.get(key).is_some()
    }

    /// Saves `value` under `key`, replacing what was saved there.
    pub fn insert(&mut self, key: String, value: String)
        ensures
            final(self)@ == map_insert(old(self)@, key@, value@),
            keys_increasing(final(self)@),
    {
        proof {
            use_type_invariant(&*self);
        }
        let mut entries: Vec<(String, String)> = Vec::new();
        std::mem::swap(&mut entries, &mut self.entries);
        let ghost m = pairs(entries@);
        let mut p: usize = 0;
        while p < entries.len() && str_lt(entries[p].0.as_str(), key.as_str())
            invariant
                p <= entries@.len(),
                m == pairs(entries@),
                forall|i: int| 0 <= i < p ==> lex_lt(#[trigger] m[i].0, key@),
            decreases entries@.len() - p,
        {
            p = p + 1;
        }
        proof {
            lemma_map_insert_at(m, key@, value@, p as int);
            lemma_map_insert(m, key@, value@);
        }
        let ghost kv = (key@, value@);
        if p < entries.len() && str_eq(entries[p].0.as_str(), key.as_str()) {
            entries.set(p, (key, value));
            assert(pairs(entries@) =~= m.update(p as int, kv));
        } else {
            entries.insert(p, (key, value));
            assert(pairs(entries@) =~= m.take(p as int).push(kv) + m.skip(p as int));
        }
        self.entries = entries;
    }

    /// Forgets the password saved for `key`.
    pub fn remove(&mut self, key: &str)
        ensures
            final(self)@ == map_remove(old(self)@, key@),
            keys_increasing(final(self)@),
    {
        proof {
            use_type_invariant(&*self);
        }
        let mut entries: Vec<(String, String)> = Vec::new();
        std::mem::swap(&mut entries, &mut self.entries);
        let ghost m = pairs(entries@);
        let mut r: Vec<(String, String)> = Vec::new();
        let mut i: usize = 0;
        while i < entries.len()
            invariant
                i <= entries@.len(),
                m == pairs(entries@),
                keys_increasing(m),
                keys_increasing(pairs(r@)),
                pairs(r@) == map_remove(m.take(i as int), key@),
                forall|a: int, j: int|
                    0 <= a < r@.len() && i <= j < m.len() ==> lex_lt(
                        #[trigger] pairs(r@)[a].0,
                        #[trigger] m[j].0,
                    ),
            decreases entries@.len() - i,
        {
            let ghost prev = pairs(r@);
            proof {
                assert(m.take(i + 1).drop_last() =~= m.take(i as int));
                assert(m.take(i + 1).last() == m[i as int]);
            }
            if !str_eq(entries[i].0.as_str(), key) {
                let k = entries[i].0.clone();
                let v = entries[i].1.clone();
                r.push((k, v));
                proof {
                    assert(pairs(r@) =~= prev.push(m[i as int]));
                    assert forall|a: int, b: int|
                        0 <= a < b < pairs(r@).len() implies lex_lt(
                        pairs(r@)[a].0,
                        pairs(r@)[b].0,
                    ) by {
                        if b == pairs(r@).len() - 1 {
                            assert(lex_lt(prev[a].0, m[i as int].0));
                        } else {
                            assert(lex_lt(prev[a].0, prev[b].0));
                        }
                    }
                    assert forall|a: int, j: int|
                        0 <= a < r@.len() && i + 1 <= j < m.len() implies lex_lt(
                        #[trigger] pairs(r@)[a].0,
                        #[trigger] m[j].0,
                    ) by {
                        if a == r@.len() - 1 {
                            assert(lex_lt(m[i as int].0, m[j].0));
                        } else {
                            assert(pairs(r@)[a] == prev[a]);
                            assert(lex_lt(prev[a].0, m[j].0));
                        }
                    }
                }
            } else {
                proof {
                    assert forall|a: int, j: int|
                        0 <= a < r@.len() && i + 1 <= j < m.len() implies lex_lt(
                        #[trigger] pairs(r@)[a].0,
                        #[trigger] m[j].0,
                    ) by {
                        assert(lex_lt(prev[a].0, m[j].0));
                    }
                }
            }
            i = i + 1;
        }
        assert(m.take(entries@.len() as int) =~= m);
        self.entries = r;
    }
}


/// The tools whose program paths the configuration keeps.
#[derive(Debug, Clone, Copy, PartialEq, Eq, Hash)]
pub enum ToolKind {
    Vscode,
    Mobaxterm,
    VncViewer,
    RustDesk,
}

/// The name of a tool as the user reads it.
pub open spec fn tool_label(tool: ToolKind) -> Seq<char> {
    match tool {
        ToolKind::Vscode => "VS Code"@,
        ToolKind::Mobaxterm => "MobaXterm"@,
        ToolKind::VncViewer => "VNC Viewer"@,
        ToolKind::RustDesk => "RustDesk"@,
    }
}

impl ToolKind {
    /// The name of the tool as the user reads it.
    pub fn label(self) -> (r: &'static str)
        ensures
            r@ == tool_label(self),
    {
        match self {
            ToolKind::Vscode => "VS Code",
            ToolKind::Mobaxterm => "MobaXterm",
            ToolKind::VncViewer => "VNC Viewer",
            ToolKind::RustDesk => "RustDesk",
        }
    }
}

/// A path as it is kept: trimmed, and nothing where only whitespace was given.
pub open spec fn normalized_path(path: Option<Seq<char>>) -> Option<Seq<char>> {
    match path {
        Some(p) => if trim(p).len() > 0 {
            Some(trim(p))
        } else {
            None
        },
        None => None,
    }
}

/// The program paths chosen by the user, one per tool.
#[derive(Debug, Clone, PartialEq, Eq)]
pub struct AppPaths {
    pub vscode: Option<String>,
    pub mobaxterm: Option<String>,
    pub vncviewer: Option<String>,
    pub rustdesk: Option<String>,
}

impl AppPaths {
    /// The path kept for `tool`, as it is stored.
    pub open spec fn stored(self, tool: ToolKind) -> Option<Seq<char>> {
        match tool {
            ToolKind::Vscode => opt_view(self.vscode),
            ToolKind::Mobaxterm => opt_view(self.mobaxterm),
            ToolKind::VncViewer => opt_view(self.vncviewer),
            ToolKind::RustDesk => opt_view(self.rustdesk),
        }
    }

    /// The trimmed path for `tool`, where one that is not blank is kept.
    pub fn path_for(&self, tool: ToolKind) -> (r: Option<String>)
        ensures
            opt_view(r) == normalized_path(self.stored(tool)),
    {
        let value = match tool {
            ToolKind::Vscode => &self.vscode,
            ToolKind::Mobaxterm => &self.mobaxterm,
            ToolKind::VncViewer => &self.vncviewer,
            ToolKind::RustDesk => &self.rustdesk,
        };
        match value {
            Some(v) => {
                let t = trim_string(v.as_str());
                if t.unicode_len() > 0 {
                    Some(t)
                } else {
                    None
                }
            },
            None => None,
        }
    }

    /// The path for `tool` as a file path: the same text as `path_for`.
    pub fn path_buf_for(&self, tool: ToolKind) -> (r: Option<String>)
        ensures
            opt_view(r) == normalized_path(self.stored(tool)),
    {
        self.path_for(tool)
    }

    /// Keeps `path`, trimmed, for `tool`; a blank or absent path clears it.
    pub fn set_path(&mut self, tool: ToolKind, path: Option<String>)
        ensures
            final(self).stored(tool) == normalized_path(opt_view(path)),
            forall|other: ToolKind| other != tool ==> final(self).stored(other) == old(self).stored(other),
    {
        let normalized = match path {
            Some(v) => {
                let t = trim_string(v.as_str());
                if t.unicode_len() > 0 {
                    Some(t)
                } else {
                    None
                }
            },
            None => None,
        };
        match tool {
            ToolKind::Vscode => self.vscode = normalized,
            ToolKind::Mobaxterm => self.mobaxterm = normalized,
            ToolKind::VncViewer => self.vncviewer = normalized,
            ToolKind::RustDesk => self.rustdesk = normalized,
        }
    }
}

impl Default for AppPaths {
    fn default() -> (r: AppPaths)
        ensures
            r.vscode is None && r.mobaxterm is None && r.vncviewer is None && r.rustdesk is None,
    {
        AppPaths { vscode: None, mobaxterm: None, vncviewer: None, rustdesk: None }
    }
}

/// A path set for a tool reads back as it was set: keeping a path twice changes nothing.
pub proof fn lemma_path_reads_back(paths: AppPaths, tool: ToolKind, path: Option<Seq<char>>)
    requires
        paths.stored(tool) == normalized_path(path),
    ensures
        normalized_path(paths.stored(tool)) == normalized_path(path),
{
    match path {
        Some(p) => {
            lemma_trim_idem(p);
        },
        None => {},
    }
}

/// The saved credentials: the user's own names, the saved passwords and the hidden presets.
#[derive(Debug, Clone, PartialEq, Eq)]
pub struct CredentialConfig {
    pub usernames: Vec<String>,
    pub passwords: PasswordMap,
    pub removed_presets: Vec<String>,
}

impl Default for CredentialConfig {
    fn default() -> (r: CredentialConfig)
        ensures
            r.usernames@.len() == 0 && r.passwords@.len() == 0 && r.removed_presets@.len() == 0,
    {
        CredentialConfig {
            usernames: Vec::new(),
            passwords: PasswordMap::new(),
            removed_presets: Vec::new(),
        }
    }
}

/// The whole configuration file.
#[derive(Debug, Clone, PartialEq, Eq)]
pub struct AppConfig {
    pub credentials: CredentialConfig,
    pub app_paths: AppPaths,
}

impl Default for AppConfig {
    fn default() -> (r: AppConfig)
        ensures
            r.credentials.usernames@.len() == 0,
            r.credentials.passwords@.len() == 0,
            r.credentials.removed_presets@.len() == 0,
            r.app_paths.vscode is None && r.app_paths.mobaxterm is None,
            r.app_paths.vncviewer is None && r.app_paths.rustdesk is None,
    {
        AppConfig { credentials: CredentialConfig::default(), app_paths: AppPaths::default() }
    }
}

/// Why the configuration could not be read or written.
#[derive(Debug, Clone, PartialEq, Eq)]
pub enum StoreError {
    Io(String),
    Parse(String),
}

impl StoreError {
    /// The text of the error.
    pub fn message(&self) -> (r: String)
        ensures
            r@ == match self {
                StoreError::Io(m) => m@,
                StoreError::Parse(m) => m@,
            },
    {
        match self {
            StoreError::Io(m) => m.clone(),
            StoreError::Parse(m) => m.clone(),
        }
    }
}

/// The preset names of `s`, in order.
pub open spec fn keep_presets(s: Seq<Seq<char>>) -> Seq<Seq<char>>
    decreases s.len(),
{
    if s.len() == 0 {
        s
    } else if is_preset(s.last()) {
        keep_presets(s.drop_last()).push(s.last())
    } else {
        keep_presets(s.drop_last())
    }
}

/// `s` without any occurrence of `x`.
pub open spec fn remove_all(s: Seq<Seq<char>>, x: Seq<char>) -> Seq<Seq<char>>
    decreases s.len(),
{
    if s.len() == 0 {
        s
    } else if s.last() == x {
        remove_all(s.drop_last(), x)
    } else {
        remove_all(s.drop_last(), x).push(s.last())
    }
}

/// The hidden presets as they are kept: preset names only, sorted, each once.
pub open spec fn normalized_presets(s: Seq<Seq<char>>) -> Seq<Seq<char>> {
    dedup_adj(sort_strs(keep_presets(s)))
}

/// Keeps only the preset names, sorted, each once.
pub fn normalize_removed_presets(usernames: &mut Vec<String>)
    ensures
        strs(final(usernames)@) == normalized_presets(strs(old(usernames)@)),
{
    let mut kept: Vec<String> = Vec::new();
    let mut i: usize = 0;
    while i < usernames.len()
        invariant
            i <= usernames@.len(),
            usernames@ == old(usernames)@,
            strs(kept@) == keep_presets(strs(usernames@).take(i as int)),
        decreases usernames@.len() - i,
    {
        let ghost prev = kept@;
        proof {
            assert(strs(usernames@).take(i + 1).drop_last() =~= strs(usernames@).take(i as int));
            assert(strs(usernames@).take(i + 1).last() == usernames@[i as int]@);
        }
        if is_preset_username(usernames[i].as_str()) {
            kept.push(usernames[i].clone());
            assert(strs(kept@) =~= strs(prev).push(usernames@[i as int]@));
        }
        i = i + 1;
    }
    assert(strs(usernames@).take(usernames@.len() as int) =~= strs(usernames@));
    sort_strings(&mut kept);
    dedup_strings(&mut kept);
    *usernames = kept;
}

/// Removes every occurrence of `name`.
fn remove_string(list: &mut Vec<String>, name: &str)
    ensures
        strs(final(list)@) == remove_all(strs(old(list)@), name@),
{
    let mut kept: Vec<String> = Vec::new();
    let mut i: usize = 0;
    while i < list.len()
        invariant
            i <= list@.len(),
            list@ == old(list)@,
            strs(kept@) == remove_all(strs(list@).take(i as int), name@),
        decreases list@.len() - i,
    {
        let ghost prev = kept@;
        proof {
            assert(strs(list@).take(i + 1).drop_last() =~= strs(list@).take(i as int));
            assert(strs(list@).take(i + 1).last() == list@[i as int]@);
        }
        if !str_eq(list[i].as_str(), name) {
            kept.push(list[i].clone());
            assert(strs(kept@) =~= strs(prev).push(list@[i as int]@));
        }
        i = i + 1;
    }
    assert(strs(list@).take(list@.len() as int) =~= strs(list@));
    *list = kept;
}

/// A trimmed value, or nothing where it is blank or absent.
pub open spec fn nonblank(v: Option<Seq<char>>) -> Option<Seq<char>> {
    normalized_path(v)
}

/// The user names after adding `u`: a name that is neither a preset nor saved yet joins
/// them, and the list is sorted again.
pub open spec fn usernames_after_add(users: Seq<Seq<char>>, u: Seq<char>) -> Seq<Seq<char>> {
    if !is_preset(u) && !users.contains(u) {
        sort_strs(users.push(u))
    } else {
        users
    }
}

/// The passwords after saving `pw` for `u`: no password forgets the saved one.
pub open spec fn passwords_after_add(
    pws: Seq<(Seq<char>, Seq<char>)>,
    u: Seq<char>,
    pw: Option<Seq<char>>,
) -> Seq<(Seq<char>, Seq<char>)> {
    match pw {
        Some(p) => map_insert(pws, u, p),
        None => map_remove(pws, u),
    }
}

/// The hidden presets after saving `pw` for `u`: a preset given a password shows again.
pub open spec fn removed_after_add(removed: Seq<Seq<char>>, u: Seq<char>, pw: Option<Seq<char>>) -> Seq<
    Seq<char>,
> {
    normalized_presets(
        if pw is Some && is_preset(u) {
            remove_all(removed, u)
        } else {
            removed
        },
    )
}

/// Adds a credential to `config`: the trimmed user name with its trimmed password, where one
/// is given and not blank.
pub fn add_credential(config: AppConfig, username: &str, password: Option<&str>) -> (r: Result<
    AppConfig,
    StoreError,
>)
    ensures
        trim(username@).len() == 0 ==> (r matches Err(StoreError::Parse(m)) && m@
            == "credential username cannot be empty"@),
        trim(username@).len() > 0 ==> (r matches Ok(c) && {
            let u = trim(username@);
            let pw = nonblank(
                match password {
                    Some(p) => Some(p@),
                    None => None,
                },
            );
            &&& strs(c.credentials.usernames@) == usernames_after_add(
                strs(config.credentials.usernames@),
                u,
            )
            &&& c.credentials.passwords@ == passwords_after_add(config.credentials.passwords@, u, pw)
            &&& strs(c.credentials.removed_presets@) == removed_after_add(
                strs(config.credentials.removed_presets@),
                u,
                pw,
            )
            &&& c.app_paths == config.app_paths
        }),
{
    let name = trim_string(username);
    if name.unicode_len() == 0 {
        return Err(StoreError::Parse("credential username cannot be empty".to_owned()));
    }
    let pw: Option<String> = match password {
        Some(p) => {
            let t = trim_string(p);
            if t.unicode_len() > 0 {
                Some(t)
            } else {
                None
            }
        },
        None => None,
    };
    let mut config = config;
    let preset = is_preset_username(name.as_str());
    if !preset && !contains_string(&config.credentials.usernames, name.as_str()) {
        let ghost before = config.credentials.usernames@;
        config.credentials.usernames.push(name.clone());
        assert(strs(config.credentials.usernames@) =~= strs(before).push(name@));
        sort_strings(&mut config.credentials.usernames);
    }
    match pw {
        Some(p) => {
            config.credentials.passwords.insert(name.clone(), p);
            if preset {
                remove_string(&mut config.credentials.removed_presets, name.as_str());
            }
        },
        None => {
            config.credentials.passwords.remove(name.as_str());
        },
    }
    normalize_removed_presets(&mut config.credentials.removed_presets);
    Ok(config)
}


/// The message for a password update of a user name that is not saved.
pub open spec fn missing_credential_message(u: Seq<char>) -> Seq<char> {
    "credential `"@ + u + "` does not exist"@
}

/// Replaces the password of a saved credential with the trimmed `password`.
pub fn update_credential_password(config: AppConfig, username: &str, password: &str) -> (r: Result<
    AppConfig,
    StoreError,
>)
    ensures
        ({
            let u = trim(username@);
            let p = trim(password@);
            if u.len() == 0 {
                r matches Err(StoreError::Parse(m)) && m@ == "credential username cannot be empty"@
            } else if p.len() == 0 {
                r matches Err(StoreError::Parse(m)) && m@ == "credential password cannot be empty"@
            } else if !is_preset(u) && !strs(config.credentials.usernames@).contains(u) {
                r matches Err(StoreError::Parse(m)) && m@ == missing_credential_message(u)
            } else {
                r matches Ok(c) && {
                    &&& c.credentials.usernames == config.credentials.usernames
                    &&& c.credentials.passwords@ == map_insert(config.credentials.passwords@, u, p)
                    &&& strs(c.credentials.removed_presets@) == removed_after_add(
                        strs(config.credentials.removed_presets@),
                        u,
                        Some(p),
                    )
                    &&& c.app_paths == config.app_paths
                }
            }
        }),
{
    let name = trim_string(username);
    let pw = trim_string(password);
    if name.unicode_len() == 0 {
        return Err(StoreError::Parse("credential username cannot be empty".to_owned()));
    }
    if pw.unicode_len() == 0 {
        return Err(StoreError::Parse("credential password cannot be empty".to_owned()));
    }
    let preset = is_preset_username(name.as_str());
    if !preset && !contains_string(&config.credentials.usernames, name.as_str()) {
        let mut m = "credential `".to_owned();
        append_str(&mut m, name.as_str());
        append_str(&mut m, "` does not exist");
        return Err(StoreError::Parse(m));
    }
    let mut config = config;
    config.credentials.passwords.insert(name.clone(), pw);
    if preset {
        remove_string(&mut config.credentials.removed_presets, name.as_str());
    }
    normalize_removed_presets(&mut config.credentials.removed_presets);
    Ok(config)
}

/// Removes the credential with id `id`: a preset is hidden, a saved name is dropped, and its
/// password is forgotten either way.
pub fn remove_credential(config: AppConfig, id: &str) -> (r: Result<AppConfig, StoreError>)
    ensures
        ({
            let u = username_of(id@);
            let removed = strs(config.credentials.removed_presets@);
            if u.len() == 0 {
                r matches Err(StoreError::Parse(m)) && m@ == "credential id cannot be empty"@
            } else {
                r matches Ok(c) && {
                    &&& strs(c.credentials.usernames@) == if is_preset(u) {
                        strs(config.credentials.usernames@)
                    } else {
                        remove_all(strs(config.credentials.usernames@), u)
                    }
                    &&& c.credentials.passwords@ == map_remove(config.credentials.passwords@, u)
                    &&& strs(c.credentials.removed_presets@) == normalized_presets(
                        if is_preset(u) && !removed.contains(u) {
                            removed.push(u)
                        } else {
                            removed
                        },
                    )
                    &&& c.app_paths == config.app_paths
                }
            }
        }),
{
    let name = username_from_id(id);
    if name.unicode_len() == 0 {
        return Err(StoreError::Parse("credential id cannot be empty".to_owned()));
    }
    let mut config = config;
    if is_preset_username(name.as_str()) {
        if !contains_string(&config.credentials.removed_presets, name.as_str()) {
            let ghost before = config.credentials.removed_presets@;
            config.credentials.removed_presets.push(name.clone());
            assert(strs(config.credentials.removed_presets@) =~= strs(before).push(name@));
        }
    } else {
        remove_string(&mut config.credentials.usernames, name.as_str());
    }
    config.credentials.passwords.remove(name.as_str());
    normalize_removed_presets(&mut config.credentials.removed_presets);
    Ok(config)
}

/// Keeps `path` for `tool` in `config`, as `set_path` does, and hands the configuration back.
pub fn save_app_path(config: AppConfig, tool: ToolKind, path: Option<String>) -> (r: AppConfig)
    ensures
        r.app_paths.stored(tool) == normalized_path(opt_view(path)),
        forall|other: ToolKind| other != tool ==> r.app_paths.stored(other) == config.app_paths.stored(other),
        r.credentials == config.credentials,
{
    let mut config = config;
    config.app_paths.set_path(tool, path);
    config
}

/// `base` joined with the relative path `part`, with one `/` between them.
pub open spec fn path_join(base: Seq<char>, part: Seq<char>) -> Seq<char> {
    if part.len() > 0 && part[0] == '/' {
        part
    } else if base.len() == 0 || base.last() == '/' {
        base + part
    } else {
        base + seq!['/'] + part
    }
}

/// `base` joined with `part`, as `Path::join` joins on Unix: an absolute `part` replaces `base`.
pub fn join_path(base: &str, part: &str) -> (r: String)
    ensures
        r@ == path_join(base@, part@),
{
    let n = part.unicode_len();
    if n > 0 && part.get_char(0) == '/' {
        return part.to_owned();
    }
    let m = base.unicode_len();
    let mut r = base.to_owned();
    if m > 0 && base.get_char(m - 1) != '/' {
        r.push('/');
    }
    append_str(&mut r, part);
    r
}

/// The home directory: `HOME`, else `USERPROFILE`, else `HOMEDRIVE` joined with `HOMEPATH`
/// where both are set, else the current directory.
pub fn home_dir_from(
    home: Option<String>,
    user_profile: Option<String>,
    home_drive: Option<String>,
    home_path: Option<String>,
) -> (r: String)
    ensures
        r@ == match (home, user_profile, home_drive, home_path) {
            (Some(h), _, _, _) => h@,
            (None, Some(u), _, _) => u@,
            (None, None, Some(d), Some(p)) => path_join(d@, p@),
            _ => "."@,
        },
{
    match (home, user_profile, home_drive, home_path) {
        (Some(h), _, _, _) => h,
        (None, Some(u), _, _) => u,
        (None, None, Some(d), Some(p)) => join_path(d.as_str(), p.as_str()),
        _ => ".".to_owned(),
    }
}

/// The directory of the application's own files under `home`.
pub fn data_dir(home: &str) -> (r: String)
    ensures
        r@ == path_join(home@, ".lanscanner"@),
{
    join_path(home, ".lanscanner")
}

/// The configuration file under `home`.
pub fn config_path(home: &str) -> (r: String)
    ensures
        r@ == path_join(path_join(home@, ".lanscanner"@), "config.json"@),
{
    let d = data_dir(home);
    join_path(d.as_str(), "config.json")
}

/// The application's own known-hosts file under `home`.
pub fn known_hosts_path(home: &str) -> (r: String)
    ensures
        r@ == path_join(path_join(home@, ".lanscanner"@), "known_hosts"@),
{
    let d = data_dir(home);
    join_path(d.as_str(), "known_hosts")
}

/// The user's SSH directory under `home`.
pub fn system_ssh_dir(home: &str) -> (r: String)
    ensures
        r@ == path_join(home@, ".ssh"@),
{
    join_path(home, ".ssh")
}

/// The user's SSH client configuration under `home`.
pub fn system_ssh_config_path(home: &str) -> (r: String)
    ensures
        r@ == path_join(path_join(home@, ".ssh"@), "config"@),
{
    let d = system_ssh_dir(home);
    join_path(d.as_str(), "config")
}

/// The user's SSH known-hosts file under `home`.
pub fn system_known_hosts_path(home: &str) -> (r: String)
    ensures
        r@ == path_join(path_join(home@, ".ssh"@), "known_hosts"@),
{
    let d = system_ssh_dir(home);
    join_path(d.as_str(), "known_hosts")
}

/// A list of preset names only keeps every name.
pub proof fn lemma_keep_all_presets(s: Seq<Seq<char>>)
    requires
        forall|i: int| 0 <= i < s.len() ==> is_preset(#[trigger] s[i]),
    ensures
        keep_presets(s) == s,
    decreases s.len(),
{
    if s.len() > 0 {
        let t = s.drop_last();
        assert forall|i: int| 0 <= i < t.len() implies is_preset(#[trigger] t[i]) by {
            assert(t[i] == s[i]);
        }
        lemma_keep_all_presets(t);
        assert(is_preset(s[s.len() - 1]));
        assert(t.push(s.last()) =~= s);
    }
}

/// Inserting a key above every key of `m` adds it at the end.
pub proof fn lemma_map_insert_last(m: Seq<(Seq<char>, Seq<char>)>, k: Seq<char>, v: Seq<char>)
    requires
        forall|i: int| 0 <= i < m.len() ==> lex_lt(#[trigger] m[i].0, k),
    ensures
        map_insert(m, k, v) == m.push((k, v)),
{
    lemma_map_insert_at(m, k, v, m.len() as int);
    assert(m.take(m.len() as int).push((k, v)) + m.skip(m.len() as int) =~= m.push((k, v)));
}

} // verus!
