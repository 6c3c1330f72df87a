//! The configuration file: reading it from JSON text and writing it back.
use vstd::prelude::*;
use crate::credential::opt_view;
use crate::json::{
    Json, JsonValue, jview, jviews, mviews, obj_get, parse_document, parse_document_exec,
    lemma_jview_array, lemma_jview_object, lemma_key_index_at,
};
use crate::store::{
    AppConfig, AppPaths, CredentialConfig, PasswordMap, StoreError, keys_increasing, map_insert,
    normalized_presets, normalize_removed_presets, pairs,
};
use crate::strsort::{strs, sort_strs, dedup_adj, sort_strings, dedup_strings};
use crate::text::{append_str, join, str_eq};
use vstd::string::StringSliceAdditionalSpecFns;

verus! {

/// A configuration as plain values.
pub struct ConfigModel {
    pub usernames: Seq<Seq<char>>,
    pub passwords: Seq<(Seq<char>, Seq<char>)>,
    pub removed_presets: Seq<Seq<char>>,
    pub vscode: Option<Seq<char>>,
    pub mobaxterm: Option<Seq<char>>,
    pub vncviewer: Option<Seq<char>>,
    pub rustdesk: Option<Seq<char>>,
}

/// The plain values of a configuration.
pub open spec fn model_of(c: AppConfig) -> ConfigModel {
    ConfigModel {
        usernames: strs(c.credentials.usernames@),
        passwords: c.credentials.passwords@,
        removed_presets: strs(c.credentials.removed_presets@),
        vscode: opt_view(c.app_paths.vscode),
        mobaxterm: opt_view(c.app_paths.mobaxterm),
        vncviewer: opt_view(c.app_paths.vncviewer),
        rustdesk: opt_view(c.app_paths.rustdesk),
    }
}

/// The texts of a list of values, where every one is a string.
pub open spec fn strings_of(vs: Seq<Json>) -> Option<Seq<Seq<char>>>
    decreases vs.len(),
{
    if vs.len() == 0 {
        Some(Seq::empty())
    } else {
        match (strings_of(vs.drop_last()), vs.last()) {
            (Some(s), Json::Str(t)) => Some(s.push(t)),
            _ => None,
        }
    }
}

/// An array of strings, sorted, each once.
pub open spec fn string_list(v: Json) -> Option<Seq<Seq<char>>> {
    match v {
        Json::Arr(vs) => match strings_of(vs) {
            Some(s) => Some(dedup_adj(sort_strs(s))),
            None => None,
        },
        _ => None,
    }
}

/// An object whose values are all strings, as a map.
pub open spec fn string_map(ms: Seq<(Seq<char>, Json)>) -> Option<Seq<(Seq<char>, Seq<char>)>>
    decreases ms.len(),
{
    if ms.len() == 0 {
        Some(Seq::empty())
    } else {
        match (string_map(ms.drop_last()), ms.last().1) {
            (Some(m), Json::Str(t)) => Some(map_insert(m, ms.last().0, t)),
            _ => None,
        }
    }
}

/// A member that may be missing, `null` or a string.
pub open spec fn nullable(v: Option<Json>) -> Option<Option<Seq<char>>> {
    match v {
        None => Some(None),
        Some(Json::Null) => Some(None),
        Some(Json::Str(s)) => Some(Some(s)),
        _ => None,
    }
}

/// The configuration that a JSON document describes.
pub open spec fn config_from_json(doc: Json) -> Option<ConfigModel> {
    match doc {
        Json::Obj(root) => match obj_get(root, "credentials"@) {
            Some(Json::Obj(cred)) => {
                let users = match obj_get(cred, "usernames"@) {
                    None => Some(Seq::empty()),
                    Some(v) => string_list(v),
                };
                let pws = match obj_get(cred, "passwords"@) {
                    None => Some(Seq::empty()),
                    Some(Json::Obj(ms)) => string_map(ms),
                    Some(_) => None,
                };
                let removed = match obj_get(cred, "removed_presets"@) {
                    None => Some(Seq::empty()),
                    Some(v) => match string_list(v) {
                        Some(s) => Some(normalized_presets(s)),
                        None => None,
                    },
                };
                match obj_get(root, "app_paths"@) {
                    Some(Json::Obj(ap)) => {
                        let a = nullable(obj_get(ap, "vscode"@));
                        let m = nullable(obj_get(ap, "mobaxterm"@));
                        let n = nullable(obj_get(ap, "vncviewer"@));
                        let d = nullable(obj_get(ap, "rustdesk"@));
                        if users is Some && pws is Some && removed is Some && a is Some && m is Some
                            && n is Some && d is Some {
                            Some(
                                ConfigModel {
                                    usernames: users->0,
                                    passwords: pws->0,
                                    removed_presets: removed->0,
                                    vscode: a->0,
                                    mobaxterm: m->0,
                                    vncviewer: n->0,
                                    rustdesk: d->0,
                                },
                            )
                        } else {
                            None
                        }
                    },
                    _ => None,
                }
            },
            _ => None,
        },
        _ => None,
    }
}

/// The configuration in the UTF-8 bytes of a file.
pub open spec fn parse_config(b: Seq<u8>) -> Option<ConfigModel> {
    match parse_document(b) {
        Some(doc) => config_from_json(doc),
        None => None,
    }
}

proof fn lemma_strings_of_prefix(s: Seq<Json>, k: int)
    requires
        0 <= k <= s.len(),
        strings_of(s.take(k)) is None,
    ensures
        strings_of(s) is None,
    decreases s.len() - k,
{
    if k < s.len() {
        assert(s.take(k + 1).drop_last() =~= s.take(k));
        lemma_strings_of_prefix(s, k + 1);
    } else {
        assert(s.take(k) =~= s);
    }
}

proof fn lemma_string_map_prefix(s: Seq<(Seq<char>, Json)>, k: int)
    requires
        0 <= k <= s.len(),
        string_map(s.take(k)) is None,
    ensures
        string_map(s) is None,
    decreases s.len() - k,
{
    if k < s.len() {
        assert(s.take(k + 1).drop_last() =~= s.take(k));
        lemma_string_map_prefix(s, k + 1);
    } else {
        assert(s.take(k) =~= s);
    }
}

/// The value of the member with key `key`.
fn obj_get_exec<'a>(ms: &'a Vec<(String, JsonValue)>, key: &str) -> (r: Option<&'a JsonValue>)
    ensures
        match r {
            Some(v) => obj_get(mviews(ms@), key@) == Some(jview(*v)),
            None => obj_get(mviews(ms@), key@) is None,
        },
{
    let ghost m = mviews(ms@);
    let mut x: usize = 0;
    while x < ms.len()
        invariant
            x <= ms@.len(),
            m == mviews(ms@),
            forall|j: int| 0 <= j < x ==> #[trigger] m[j].0 != key@,
        decreases ms@.len() - x,
    {
        if str_eq(ms[x].0.as_str(), key) {
            proof {
                lemma_key_index_at(m, key@, x as int);
            }
            return Some(&ms[x].1);
        }
        x = x + 1;
    }
    proof {
        lemma_key_index_at(m, key@, x as int);
    }
    None
}

fn parse_error(message: &str) -> (r: StoreError)
    ensures
        r matches StoreError::Parse(m) && m@ == message@,
{
    StoreError::Parse(message.to_owned())
}

/// An array of strings, sorted, each once.
fn string_list_exec(v: &JsonValue) -> (r: Result<Vec<String>, StoreError>)
    ensures
        match r {
            Ok(l) => string_list(jview(*v)) == Some(strs(l@)),
            Err(e) => string_list(jview(*v)) is None && e is Parse,
        },
{
    match v {
        JsonValue::Array(values) => {
            proof {
                lemma_jview_array(*values);
            }
            let ghost js = jviews(values@);
            let mut out: Vec<String> = Vec::new();
            let mut i: usize = 0;
            while i < values.len()
                invariant
                    i <= values@.len(),
                    js == jviews(values@),
                    jview(*v) == Json::Arr(js),
                    strings_of(js.take(i as int)) == Some(strs(out@)),
                decreases values@.len() - i,
            {
                proof {
                    assert(js.take(i + 1).drop_last() =~= js.take(i as int));
                    assert(js.take(i + 1).last() == jview(values@[i as int]));
                }
                match &values[i] {
                    JsonValue::Str(s) => {
                        let ghost prev = out@;
                        out.push(s.clone());
                        assert(strs(out@) =~= strs(prev).push(s@));
                    },
                    _ => {
                        proof {
                            assert(!(jview(values@[i as int]) is Str));
                            assert(strings_of(js.take(i + 1)) is None);
                            lemma_strings_of_prefix(js, i + 1);
                        }
                        return Err(parse_error("config.credentials.usernames entries must be strings"));
                    },
                }
                i = i + 1;
            }
            assert(js.take(values@.len() as int) =~= js);
            sort_strings(&mut out);
            dedup_strings(&mut out);
            Ok(out)
        },
        _ => Err(parse_error("config.credentials.usernames must be an array")),
    }
}

/// An object whose values are all strings, as a password map.
fn string_map_exec(ms: &Vec<(String, JsonValue)>) -> (r: Result<PasswordMap, StoreError>)
    ensures
        match r {
            Ok(m) => string_map(mviews(ms@)) == Some(m@) && keys_increasing(m@),
            Err(e) => string_map(mviews(ms@)) is None && e is Parse,
        },
{
    let ghost mv = mviews(ms@);
    let mut out = PasswordMap::new();
    let mut i: usize = 0;
    while i < ms.len()
        invariant
            i <= ms@.len(),
            mv == mviews(ms@),
            string_map(mv.take(i as int)) == Some(out@),
            keys_increasing(out@),
        decreases ms@.len() - i,
    {
        proof {
            assert(mv.take(i + 1).drop_last() =~= mv.take(i as int));
            assert(mv.take(i + 1).last() == (ms@[i as int].0@, jview(ms@[i as int].1)));
        }
        match &ms[i].1 {
            JsonValue::Str(s) => {
                out.insert(ms[i].0.clone(), s.clone());
            },
            _ => {
                proof {
                    lemma_string_map_prefix(mv, i + 1);
                }
                return Err(parse_error("config.credentials.passwords values must be strings"));
            },
        }
        i = i + 1;
    }
    assert(mv.take(ms@.len() as int) =~= mv);
    Ok(out)
}

/// A member that may be missing, `null` or a string.
fn nullable_exec(v: Option<&JsonValue>) -> (r: Result<Option<String>, StoreError>)
    ensures
        match r {
            Ok(o) => nullable(
                match v {
                    Some(x) => Some(jview(*x)),
                    None => None,
                },
            ) == Some(opt_view(o)),
            Err(e) => nullable(
                match v {
                    Some(x) => Some(jview(*x)),
                    None => None,
                },
            ) is None && e is Parse,
        },
{
    match v {
        None => Ok(None),
        Some(JsonValue::Null) => Ok(None),
        Some(JsonValue::Str(s)) => Ok(Some(s.clone())),
        Some(_) => Err(parse_error("config.app_paths values must be a string or null")),
    }
}

impl AppConfig {
    /// Reads a configuration from the text of the configuration file.
    pub fn from_json_str(input: &str) -> (r: Result<AppConfig, StoreError>)
        ensures
            match r {
                Ok(c) => parse_config(input.spec_bytes()) == Some(model_of(c)) && keys_increasing(
                    c.credentials.passwords@,
                ),
                Err(e) => parse_config(input.spec_bytes()) is None && e is Parse,
            },
    {
        let bytes = input.as_bytes();
        let root = match parse_document_exec(bytes) {
            Ok(v) => v,
            Err(e) => {
                return Err(e);
            },
        };
        let root_members = match &root {
            JsonValue::Object(ms) => ms,
            _ => {
                return Err(parse_error("config root must be an object"));
            },
        };
        proof {
            lemma_jview_object(*root_members);
        }
        let cred_members = match obj_get_exec(root_members, "credentials") {
            Some(JsonValue::Object(ms)) => ms,
            _ => {
                return Err(parse_error("config.credentials must be an object"));
            },
        };
        proof {
            lemma_jview_object(*cred_members);
        }
        let usernames = match obj_get_exec(cred_members, "usernames") {
            None => {
                let l: Vec<String> = Vec::new();
                assert(strs(l@) =~= Seq::<Seq<char>>::empty());
                l
            },
            Some(v) => match string_list_exec(v) {
                Ok(l) => l,
                Err(e) => {
                    return Err(e);
                },
            },
        };
        let passwords = match obj_get_exec(cred_members, "passwords") {
            None => PasswordMap::new(),
            Some(JsonValue::Object(ms)) => match string_map_exec(ms) {
                Ok(m) => {
                    proof {
                        lemma_jview_object(*ms);
                    }
                    m
                },
                Err(e) => {
                    proof {
                        lemma_jview_object(*ms);
                    }
                    return Err(e);
                },
            },
            Some(_) => {
                return Err(parse_error("config.credentials.passwords must be an object"));
            },
        };
        let removed_presets = match obj_get_exec(cred_members, "removed_presets") {
            None => {
                let l: Vec<String> = Vec::new();
                assert(strs(l@) =~= Seq::<Seq<char>>::empty());
                l
            },
            Some(v) => match string_list_exec(v) {
                Ok(l) => {
                    let mut l = l;
                    normalize_removed_presets(&mut l);
                    l
                },
                Err(e) => {
                    return Err(e);
                },
            },
        };
        let path_members = match obj_get_exec(root_members, "app_paths") {
            Some(JsonValue::Object(ms)) => ms,
            _ => {
                return Err(parse_error("config.app_paths must be an object"));
            },
        };
        proof {
            lemma_jview_object(*path_members);
        }
        let vscode = match nullable_exec(obj_get_exec(path_members, "vscode")) {
            Ok(o) => o,
            Err(e) => {
                return Err(e);
            },
        };
        let mobaxterm = match nullable_exec(obj_get_exec(path_members, "mobaxterm")) {
            Ok(o) => o,
            Err(e) => {
                return Err(e);
            },
        };
        let vncviewer = match nullable_exec(obj_get_exec(path_members, "vncviewer")) {
            Ok(o) => o,
            Err(e) => {
                return Err(e);
            },
        };
        let rustdesk = match nullable_exec(obj_get_exec(path_members, "rustdesk")) {
            Ok(o) => o,
            Err(e) => {
                return Err(e);
            },
        };
        Ok(
            AppConfig {
                credentials: CredentialConfig { usernames, passwords, removed_presets },
                app_paths: AppPaths { vscode, mobaxterm, vncviewer, rustdesk },
            },
        )
    }
}


/// A control character: general category `Cc`, which `char::is_control` tests.
pub open spec fn is_control(c: char) -> bool {
    (c as u32) < 0x20 || (0x7f <= (c as u32) && (c as u32) <= 0x9f)
}

/// The lowercase hexadecimal digit for `n`, below 16.
pub open spec fn hex_char(n: u32) -> char {
    if n < 10 {
        ((n + 48) as u8) as char
    } else {
        ((n + 87) as u8) as char
    }
}

/// How one character is written inside a JSON string.
pub open spec fn escape_char(c: char) -> Seq<char> {
    if c == '"' {
        seq!['\\', '"']
    } else if c == '\\' {
        seq!['\\', '\\']
    } else if c == '\n' {
        seq!['\\', 'n']
    } else if c == '\r' {
        seq!['\\', 'r']
    } else if c == '\t' {
        seq!['\\', 't']
    } else if c == '\u{08}' {
        seq!['\\', 'b']
    } else if c == '\u{0C}' {
        seq!['\\', 'f']
    } else if is_control(c) {
        let v = c as u32;
        seq![
            '\\',
            'u',
            hex_char((v / 4096) % 16),
            hex_char((v / 256) % 16),
            hex_char((v / 16) % 16),
            hex_char(v % 16),
        ]
    } else {
        seq![c]
    }
}

/// `s` as it is written inside a JSON string.
pub open spec fn escape_json(s: Seq<char>) -> Seq<char>
    decreases s.len(),
{
    if s.len() == 0 {
        Seq::empty()
    } else {
        escape_json(s.drop_last()) + escape_char(s.last())
    }
}

/// `s` as a JSON string.
pub open spec fn quoted(s: Seq<char>) -> Seq<char> {
    seq!['"'] + escape_json(s) + seq!['"']
}

/// A path as JSON: a string, or `null`.
pub open spec fn nullable_text(o: Option<Seq<char>>) -> Seq<char> {
    match o {
        Some(s) => quoted(s),
        None => "null"@,
    }
}

/// A list of names as a JSON array, one per line.
pub open spec fn list_block(l: Seq<Seq<char>>) -> Seq<char> {
    if l.len() == 0 {
        "[]"@
    } else {
        "[\n"@ + join(l.map_values(|s: Seq<char>| "      "@ + quoted(s)), ",\n"@) + "\n    ]"@
    }
}

/// The passwords as a JSON object, one member per line.
pub open spec fn map_block(m: Seq<(Seq<char>, Seq<char>)>) -> Seq<char> {
    if m.len() == 0 {
        "{}"@
    } else {
        "{\n"@ + join(
            m.map_values(|p: (Seq<char>, Seq<char>)| "      "@ + quoted(p.0) + ": "@ + quoted(p.1)),
            ",\n"@,
        ) + "\n    }"@
    }
}

/// The text of the configuration file for `m`.
pub open spec fn config_json(m: ConfigModel) -> Seq<char> {
    "{\n  \"credentials\": {\n    \"usernames\": "@ + list_block(m.usernames)
        + ",\n    \"passwords\": "@ + map_block(m.passwords) + ",\n    \"removed_presets\": "@
        + list_block(m.removed_presets) + "\n  },\n  \"app_paths\": {\n    \"vscode\": "@
        + nullable_text(m.vscode) + ",\n    \"mobaxterm\": "@ + nullable_text(m.mobaxterm)
        + ",\n    \"vncviewer\": "@ + nullable_text(m.vncviewer) + ",\n    \"rustdesk\": "@
        + nullable_text(m.rustdesk) + "\n  }\n}\n"@
}

pub(crate) fn hex_char_exec(n: u32) -> (r: char)
    requires
        n < 16,
    ensures
        r == hex_char(n),
{
    if n < 10 {
        ((n + 48) as u8) as char
    } else {
        ((n + 87) as u8) as char
    }
}

/// Appends `c` as it is written inside a JSON string.
fn push_escaped(out: &mut String, c: char)
    ensures
        final(out)@ == old(out)@ + escape_char(c),
{
    let ghost before = out@;
    if c == '"' {
        out.push('\\');
        out.push('"');
    } else if c == '\\' {
        out.push('\\');
        out.push('\\');
    } else if c == '\n' {
        out.push('\\');
        out.push('n');
    } else if c == '\r' {
        out.push('\\');
        out.push('r');
    } else if c == '\t' {
        out.push('\\');
        out.push('t');
    } else if c == '\u{08}' {
        out.push('\\');
        out.push('b');
    } else if c == '\u{0C}' {
        out.push('\\');
        out.push('f');
    } else {
        let v = c as u32;
        if v < 0x20 || (0x7f <= v && v <= 0x9f) {
            out.push('\\');
            out.push('u');
            out.push(hex_char_exec((v / 4096) % 16));
            out.push(hex_char_exec((v / 256) % 16));
            out.push(hex_char_exec((v / 16) % 16));
            out.push(hex_char_exec(v % 16));
        } else {
            out.push(c);
        }
    }
    assert(out@ =~= before + escape_char(c));
}

/// `s` as it is written inside a JSON string.
pub fn escape_json_exec(s: &str) -> (r: String)
    ensures
        r@ == escape_json(s@),
{
    let n = s.unicode_len();
    let mut out = String::new();
    let mut i: usize = 0;
    while i < n
        invariant
            n == s@.len(),
            i <= n,
            out@ == escape_json(s@.take(i as int)),
        decreases n - i,
    {
        let c = s.get_char(i);
        proof {
            assert(s@.take(i + 1).drop_last() =~= s@.take(i as int));
        }
        push_escaped(&mut out, c);
        i = i + 1;
    }
    assert(s@.take(n as int) =~= s@);
    out
}

/// Appends `s` as a JSON string.
fn push_quoted(out: &mut String, s: &str)
    ensures
        final(out)@ == old(out)@ + quoted(s@),
{
    let ghost before = out@;
    out.push('"');
    let e = escape_json_exec(s);
    append_str(out, e.as_str());
    out.push('"');
    assert(out@ =~= before + quoted(s@));
}

/// Appends the rendered items, separated by a comma and a line break.
fn push_joined(out: &mut String, items: &Vec<String>)
    ensures
        final(out)@ == old(out)@ + join(strs(items@), ",\n"@),
{
    let ghost before = out@;
    let ghost it = strs(items@);
    let mut i: usize = 0;
    while i < items.len()
        invariant
            i <= items@.len(),
            it == strs(items@),
            out@ == before + join(it.take(i as int), ",\n"@),
        decreases items@.len() - i,
    {
        let ghost mid = out@;
        proof {
            assert(it.take(i + 1).drop_last() =~= it.take(i as int));
            assert(it.take(i + 1).last() == items@[i as int]@);
        }
        if i > 0 {
            append_str(out, ",\n");
        } else {
            assert(it.take(1)[0] == items@[0]@);
            assert(join(it.take(0), ",\n"@) =~= Seq::<char>::empty());
        }
        append_str(out, items[i].as_str());
        assert(out@ =~= before + join(it.take(i + 1), ",\n"@));
        i = i + 1;
    }
    assert(it.take(items@.len() as int) =~= it);
}

/// Appends a list of names as a JSON array, one per line.
fn push_list_block(out: &mut String, l: &Vec<String>)
    ensures
        final(out)@ == old(out)@ + list_block(strs(l@)),
{
    let ghost before = out@;
    if l.len() == 0 {
        append_str(out, "[]");
        return;
    }
    let mut items: Vec<String> = Vec::new();
    let mut i: usize = 0;
    while i < l.len()
        invariant
            i <= l@.len(),
            strs(items@) == strs(l@).take(i as int).map_values(|s: Seq<char>| "      "@ + quoted(s)),
        decreases l@.len() - i,
    {
        let mut item = "      ".to_owned();
        push_quoted(&mut item, l[i].as_str());
        let ghost prev = items@;
        items.push(item);
        proof {
            assert(strs(l@).take(i + 1) =~= strs(l@).take(i as int).push(l@[i as int]@));
            assert(strs(items@) =~= strs(prev).push(item@));
            assert(strs(l@).take(i + 1).map_values(|s: Seq<char>| "      "@ + quoted(s))
                =~= strs(l@).take(i as int).map_values(|s: Seq<char>| "      "@ + quoted(s)).push(
                "      "@ + quoted(l@[i as int]@),
            ));
        }
        i = i + 1;
    }
    assert(strs(l@).take(l@.len() as int) =~= strs(l@));
    append_str(out, "[\n");
    push_joined(out, &items);
    append_str(out, "\n    ]");
    assert(out@ =~= before + list_block(strs(l@)));
}

/// Appends the passwords as a JSON object, one member per line.
fn push_map_block(out: &mut String, m: &PasswordMap)
    ensures
        final(out)@ == old(out)@ + map_block(m@),
{
    let ghost before = out@;
    let entries = m.entries();
    if entries.len() == 0 {
        append_str(out, "{}");
        return;
    }
    let ghost mv = pairs(entries@);
    let mut items: Vec<String> = Vec::new();
    let mut i: usize = 0;
    while i < entries.len()
        invariant
            i <= entries@.len(),
            mv == pairs(entries@),
            strs(items@) == mv.take(i as int).map_values(
                |p: (Seq<char>, Seq<char>)| "      "@ + quoted(p.0) + ": "@ + quoted(p.1),
            ),
        decreases entries@.len() - i,
    {
        let mut item = "      ".to_owned();
        push_quoted(&mut item, entries[i].0.as_str());
        append_str(&mut item, ": ");
        push_quoted(&mut item, entries[i].1.as_str());
        let ghost prev = items@;
        items.push(item);
        proof {
            assert(mv.take(i + 1) =~= mv.take(i as int).push(mv[i as int]));
            assert(strs(items@) =~= strs(prev).push(item@));
            assert(mv.take(i + 1).map_values(
                |p: (Seq<char>, Seq<char>)| "      "@ + quoted(p.0) + ": "@ + quoted(p.1),
            ) =~= mv.take(i as int).map_values(
                |p: (Seq<char>, Seq<char>)| "      "@ + quoted(p.0) + ": "@ + quoted(p.1),
            ).push("      "@ + quoted(mv[i as int].0) + ": "@ + quoted(mv[i as int].1)));
        }
        i = i + 1;
    }
    assert(mv.take(entries@.len() as int) =~= mv);
    append_str(out, "{\n");
    push_joined(out, &items);
    append_str(out, "\n    }");
    assert(out@ =~= before + map_block(m@));
}

/// Appends a path as JSON: a string, or `null`.
fn push_nullable(out: &mut String, o: &Option<String>)
    ensures
        final(out)@ == old(out)@ + nullable_text(opt_view(*o)),
{
    match o {
        Some(s) => push_quoted(out, s.as_str()),
        None => append_str(out, "null"),
    }
}

impl AppConfig {
    /// The text of the configuration file for this configuration.
    pub fn to_json_string(&self) -> (r: String)
        ensures
            r@ == config_json(model_of(*self)),
    {
        let mut out = String::new();
        append_str(&mut out, "{\n  \"credentials\": {\n    \"usernames\": ");
        push_list_block(&mut out, &self.credentials.usernames);
        append_str(&mut out, ",\n    \"passwords\": ");
        push_map_block(&mut out, &self.credentials.passwords);
        append_str(&mut out, ",\n    \"removed_presets\": ");
        push_list_block(&mut out, &self.credentials.removed_presets);
        append_str(&mut out, "\n  },\n  \"app_paths\": {\n    \"vscode\": ");
        push_nullable(&mut out, &self.app_paths.vscode);
        append_str(&mut out, ",\n    \"mobaxterm\": ");
        push_nullable(&mut out, &self.app_paths.mobaxterm);
        append_str(&mut out, ",\n    \"vncviewer\": ");
        push_nullable(&mut out, &self.app_paths.vncviewer);
        append_str(&mut out, ",\n    \"rustdesk\": ");
        push_nullable(&mut out, &self.app_paths.rustdesk);
        append_str(&mut out, "\n  }\n}\n");
        assert(out@ =~= config_json(model_of(*self)));
        out
    }
}

} // verus!
