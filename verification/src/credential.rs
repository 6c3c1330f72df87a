//! Saved SSH credentials: the preset user names and the user's own.
use vstd::prelude::*;
use crate::text::{str_eq, split_once, split_once_chars, to_chars, from_chars, append_str, lemma_find_char, find_char};
use crate::strsort::{strs, sort_strs, dedup_adj, sort_strings, dedup_strings};
use crate::store::{AppConfig, map_get};

verus! {

/// The preset user names, in the order they are offered.
pub open spec fn preset_names() -> Seq<Seq<char>> {
    seq!["root"@, "admin"@, "pi"@, "jetson"@, "ubuntu"@, "sunrise"@]
}

/// Whether `s` is one of the preset user names.
pub open spec fn is_preset(s: Seq<char>) -> bool {
    preset_names().contains(s)
}

/// The preset user names.
pub fn preset_usernames() -> (r: Vec<String>)
    ensures
        strs(r@) == preset_names(),
{
    let mut r: Vec<String> = Vec::new();
    r.push("root".to_owned());
    r.push("admin".to_owned());
    r.push("pi".to_owned());
    r.push("jetson".to_owned());
    r.push("ubuntu".to_owned());
    r.push("sunrise".to_owned());
    assert(strs(r@) =~= preset_names());
    r
}

/// Whether `username` is one of the preset user names.
pub fn is_preset_username(username: &str) -> (r: bool)
    ensures
        r == is_preset(username@),
{
    let names = preset_usernames();
    let mut i: usize = 0;
    while i < names.len()
        invariant
            i <= names@.len(),
            strs(names@) == preset_names(),
            forall|j: int| 0 <= j < i ==> preset_names()[j] != username@,
        decreases names@.len() - i,
    {
        assert(strs(names@)[i as int] == names@[i as int]@);
        if str_eq(names[i].as_str(), username) {
            return true;
        }
        i = i + 1;
    }
    false
}

/// Whether `username` names a preset that the user may hide.
pub fn is_removable_preset(username: &str) -> (r: bool)
    ensures
        r == is_preset(username@),
{
    is_preset_username(username)
}

/// The id of a credential: its kind, a colon and the user name.
pub open spec fn id_of(username: Seq<char>, is_preset: bool) -> Seq<char> {
    (if is_preset {
        "preset"@
    } else {
        "custom"@
    }) + seq![':'] + username
}

/// The user name that an id names: what follows its first colon, or the whole id.
pub open spec fn username_of(id: Seq<char>) -> Seq<char> {
    match split_once(id, ':') {
        Some((_, rest)) => rest,
        None => id,
    }
}

/// The id of the credential for `username`.
pub fn credential_id(username: &str, is_preset: bool) -> (r: String)
    ensures
        r@ == id_of(username@, is_preset),
{
    let mut r = if is_preset {
        "preset".to_owned()
    } else {
        "custom".to_owned()
    };
    r.push(':');
    append_str(&mut r, username);
    r
}

/// The user name inside a credential id.
pub fn username_from_id(id: &str) -> (r: String)
    ensures
        r@ == username_of(id@),
{
    let v = to_chars(id);
    match split_once_chars(&v, ':') {
        Some((_, rest)) => from_chars(&rest),
        None => id.to_owned(),
    }
}

/// A user name reads back unchanged from the id made for it.
pub proof fn lemma_username_of_id(username: Seq<char>, is_preset: bool)
    ensures
        username_of(id_of(username, is_preset)) == username,
{
    reveal_strlit("preset");
    reveal_strlit("custom");
    let id = id_of(username, is_preset);
    assert(id[6] == ':');
    assert forall|j: int| 0 <= j < 6 implies id[j] != ':' by {}
    lemma_find_char(id, ':');
    match find_char(id, ':') {
        Some(k) => {
            assert(k == 6) by {
                if k < 6 {
                    assert(id[k as int] != ':');
                }
            }
            assert(id.skip(7) =~= username);
        },
        None => {
            assert(id[6] != ':');
        },
    }
}

/// A saved credential, as the device list offers it.
#[derive(Debug, Clone, PartialEq, Eq)]
pub struct Credential {
    pub id: String,
    pub username: String,
    pub password: Option<String>,
    pub is_preset: bool,
    pub can_delete: bool,
}

/// The character view of an optional string.
pub open spec fn opt_view(o: Option<String>) -> Option<Seq<char>> {
    match o {
        Some(s) => Some(s@),
        None => None,
    }
}

/// A credential as plain values: id, user name, password, preset, deletable.
pub open spec fn cred_view(c: Credential) -> (Seq<char>, Seq<char>, Option<Seq<char>>, bool, bool) {
    (c.id@, c.username@, opt_view(c.password), c.is_preset, c.can_delete)
}

/// The plain values of a list of credentials.
pub open spec fn cred_views(v: Seq<Credential>) -> Seq<
    (Seq<char>, Seq<char>, Option<Seq<char>>, bool, bool),
> {
    v.map_values(|c: Credential| cred_view(c))
}

/// The credential for `username` with the password saved for it in `passwords`.
pub open spec fn cred_entry(
    username: Seq<char>,
    is_preset: bool,
    passwords: Seq<(Seq<char>, Seq<char>)>,
) -> (Seq<char>, Seq<char>, Option<Seq<char>>, bool, bool) {
    (id_of(username, is_preset), username, map_get(passwords, username), is_preset, true)
}

/// The names of `names` that do not occur in `removed`, in order.
pub open spec fn not_removed(names: Seq<Seq<char>>, removed: Seq<Seq<char>>) -> Seq<Seq<char>>
    decreases names.len(),
{
    if names.len() == 0 {
        names
    } else if removed.contains(names.last()) {
        not_removed(names.drop_last(), removed)
    } else {
        not_removed(names.drop_last(), removed).push(names.last())
    }
}

/// The credentials of a preset list, each with its saved password.
pub open spec fn entries_for(
    names: Seq<Seq<char>>,
    is_preset: bool,
    passwords: Seq<(Seq<char>, Seq<char>)>,
) -> Seq<(Seq<char>, Seq<char>, Option<Seq<char>>, bool, bool)> {
    names.map_values(|u: Seq<char>| cred_entry(u, is_preset, passwords))
}

/// The preset credentials, none with a password.
pub fn preset_credentials() -> (r: Vec<Credential>)
    ensures
        cred_views(r@) == preset_names().map_values(
            |u: Seq<char>| (id_of(u, true), u, None::<Seq<char>>, true, true),
        ),
{
    let names = preset_usernames();
    let mut r: Vec<Credential> = Vec::new();
    let mut i: usize = 0;
    while i < names.len()
        invariant
            i <= names@.len(),
            strs(names@) == preset_names(),
            cred_views(r@) == preset_names().take(i as int).map_values(
                |u: Seq<char>| (id_of(u, true), u, None::<Seq<char>>, true, true),
            ),
        decreases names@.len() - i,
    {
        let ghost prev = r@;
        assert(strs(names@)[i as int] == names@[i as int]@);
        let c = Credential {
            id: credential_id(names[i].as_str(), true),
            username: names[i].clone(),
            password: None,
            is_preset: true,
            can_delete: true,
        };
        r.push(c);
        proof {
            assert(preset_names().take(i + 1) =~= preset_names().take(i as int).push(
                preset_names()[i as int],
            ));
            assert(cred_views(r@) =~= cred_views(prev).push(cred_view(c)));
            assert(preset_names().take(i + 1).map_values(
                |u: Seq<char>| (id_of(u, true), u, None::<Seq<char>>, true, true),
            ) =~= preset_names().take(i as int).map_values(
                |u: Seq<char>| (id_of(u, true), u, None::<Seq<char>>, true, true),
            ).push(cred_view(c)));
        }
        i = i + 1;
    }
    assert(preset_names().take(names@.len() as int) =~= preset_names());
    r
}

/// Whether `name` occurs in `list`.
pub fn contains_string(list: &Vec<String>, name: &str) -> (r: bool)
    ensures
        r == strs(list@).contains(name@),
{
    let mut i: usize = 0;
    while i < list.len()
        invariant
            i <= list@.len(),
            forall|j: int| 0 <= j < i ==> strs(list@)[j] != name@,
        decreases list@.len() - i,
    {
        if str_eq(list[i].as_str(), name) {
            assert(strs(list@)[i as int] == name@);
            return true;
        }
        i = i + 1;
    }
    false
}

/// The credentials that a configuration offers: the presets it has not hidden, then its
/// own user names sorted with each once, each with the password saved for it.
pub fn credentials_from_config(config: &AppConfig) -> (r: Vec<Credential>)
    ensures
        cred_views(r@) == entries_for(
            not_removed(preset_names(), strs(config.credentials.removed_presets@)),
            true,
            config.credentials.passwords@,
        ) + entries_for(
            dedup_adj(sort_strs(strs(config.credentials.usernames@))),
            false,
            config.credentials.passwords@,
        ),
{
    let ghost pw = config.credentials.passwords@;
    let ghost removed = strs(config.credentials.removed_presets@);
    let names = preset_usernames();
    let mut r: Vec<Credential> = Vec::new();
    let mut i: usize = 0;
    while i < names.len()
        invariant
            i <= names@.len(),
            strs(names@) == preset_names(),
            pw == config.credentials.passwords@,
            removed == strs(config.credentials.removed_presets@),
            cred_views(r@) == entries_for(not_removed(preset_names().take(i as int), removed), true, pw),
        decreases names@.len() - i,
    {
        let ghost prev = r@;
        let ghost u = names@[i as int]@;
        assert(strs(names@)[i as int] == u);
        proof {
            assert(preset_names().take(i + 1).drop_last() =~= preset_names().take(i as int));
            assert(preset_names().take(i + 1).last() == u);
        }
        if !contains_string(&config.credentials.removed_presets, names[i].as_str()) {
            let c = Credential {
                id: credential_id(names[i].as_str(), true),
                username: names[i].clone(),
                password: config.credentials.passwords.get(names[i].as_str()),
                is_preset: true,
                can_delete: true,
            };
            r.push(c);
            proof {
                assert(cred_views(r@) =~= cred_views(prev).push(cred_view(c)));
                assert(entries_for(not_removed(preset_names().take(i as int), removed).push(u), true, pw)
                    =~= entries_for(not_removed(preset_names().take(i as int), removed), true, pw).push(
                    cred_entry(u, true, pw),
                ));
            }
        }
        i = i + 1;
    }
    assert(preset_names().take(names@.len() as int) =~= preset_names());
    let ghost head = r@;
    let mut custom = config.credentials.usernames.clone();
    proof {
        assert(strs(custom@) =~= strs(config.credentials.usernames@)) by {
            assert forall|k: int| 0 <= k < custom@.len() implies custom@[k]@
                == config.credentials.usernames@[k]@ by {}
        }
    }
    sort_strings(&mut custom);
    dedup_strings(&mut custom);
    let ghost cs = strs(custom@);
    let mut j: usize = 0;
    while j < custom.len()
        invariant
            j <= custom@.len(),
            cs == strs(custom@),
            pw == config.credentials.passwords@,
            cred_views(r@) == cred_views(head) + entries_for(cs.take(j as int), false, pw),
        decreases custom@.len() - j,
    {
        let ghost prev = r@;
        assert(cs[j as int] == custom@[j as int]@);
        let c = Credential {
            id: credential_id(custom[j].as_str(), false),
            username: custom[j].clone(),
            password: config.credentials.passwords.get(custom[j].as_str()),
            is_preset: false,
            can_delete: true,
        };
        r.push(c);
        proof {
            assert(cred_views(r@) =~= cred_views(prev).push(cred_view(c)));
            assert(cs.take(j + 1) =~= cs.take(j as int).push(cs[j as int]));
            assert(entries_for(cs.take(j + 1), false, pw) =~= entries_for(cs.take(j as int), false, pw).push(
                cred_entry(cs[j as int], false, pw),
            ));
        }
        j = j + 1;
    }
    assert(cs.take(custom@.len() as int) =~= cs);
    r
}

/// The first credential for `username`.
pub fn find_by_username<'a>(credentials: &'a [Credential], username: &str) -> (r: Option<
    &'a Credential,
>)
    ensures
        match r {
            Some(c) => exists|i: int|
                0 <= i < credentials@.len() && credentials@[i] == *c && c.username@ == username@
                    && forall|j: int| 0 <= j < i ==> credentials@[j].username@ != username@,
            None => forall|j: int| 0 <= j < credentials@.len() ==> credentials@[j].username@
                != username@,
        },
{
    let mut i: usize = 0;
    while i < credentials.len()
        invariant
            i <= credentials@.len(),
            forall|j: int| 0 <= j < i ==> credentials@[j].username@ != username@,
        decreases credentials@.len() - i,
    {
        if str_eq(credentials[i].username.as_str(), username) {
            return Some(&credentials[i]);
        }
        i = i + 1;
    }
    None
}

} // verus!
