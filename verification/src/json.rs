//! The JSON subset of the configuration file: `null`, strings, arrays and objects, read from
//! UTF-8 bytes one byte at a time.
use vstd::prelude::*;
use crate::store::StoreError;

verus! {

/// A JSON value as plain values. An object lists each key once, in the order in which the keys
/// first appeared; a repeated key keeps the value given last.
pub enum Json {
    Null,
    Str(Seq<char>),
    Arr(Seq<Json>),
    Obj(Seq<(Seq<char>, Json)>),
}

/// A parsed JSON value.
#[derive(Debug)]
pub enum JsonValue {
    Null,
    Str(String),
    Array(Vec<JsonValue>),
    Object(Vec<(String, JsonValue)>),
}

/// The plain value of a parsed JSON value.
pub open spec fn jview(v: JsonValue) -> Json
    decreases v,
{
    match v {
        JsonValue::Null => Json::Null,
        JsonValue::Str(s) => Json::Str(s@),
        JsonValue::Array(vs) => Json::Arr(
            Seq::new(
                vs@.len(),
                |i: int|
                    if 0 <= i < vs@.len() {
                        jview(vs@[i])
                    } else {
                        Json::Null
                    },
            ),
        ),
        JsonValue::Object(ms) => Json::Obj(
            Seq::new(
                ms@.len(),
                |i: int|
                    if 0 <= i < ms@.len() {
                        (ms@[i].0@, jview(ms@[i].1))
                    } else {
                        (Seq::empty(), Json::Null)
                    },
            ),
        ),
    }
}

/// The plain values of a list of parsed values.
pub open spec fn jviews(vs: Seq<JsonValue>) -> Seq<Json> {
    Seq::new(vs.len(), |i: int| jview(vs[i]))
}

/// The plain values of a list of object members.
pub open spec fn mviews(ms: Seq<(String, JsonValue)>) -> Seq<(Seq<char>, Json)> {
    Seq::new(ms.len(), |i: int| (ms[i].0@, jview(ms[i].1)))
}

/// The view of an array value is the array of the views of its items.
pub proof fn lemma_jview_array(vs: Vec<JsonValue>)
    ensures
        jview(JsonValue::Array(vs)) == Json::Arr(jviews(vs@)),
{
    let a = jview(JsonValue::Array(vs));
    assert(a is Arr);
    assert(a->Arr_0.len() == vs@.len());
    assert forall|i: int| 0 <= i < vs@.len() implies a->Arr_0[i] == jview(vs@[i]) by {}
    assert(a->Arr_0 =~= jviews(vs@));
}

/// The view of an object value is the object of its members' views.
pub proof fn lemma_jview_object(ms: Vec<(String, JsonValue)>)
    ensures
        jview(JsonValue::Object(ms)) == Json::Obj(mviews(ms@)),
{
    let a = jview(JsonValue::Object(ms));
    assert(a is Obj);
    assert(a->Obj_0.len() == ms@.len());
    assert forall|i: int| 0 <= i < ms@.len() implies a->Obj_0[i] == (ms@[i].0@, jview(ms@[i].1)) by {}
    assert(a->Obj_0 =~= mviews(ms@));
}

/// The index of the member with key `k`.
pub open spec fn key_index(m: Seq<(Seq<char>, Json)>, k: Seq<char>) -> Option<int>
    decreases m.len(),
{
    if m.len() == 0 {
        None
    } else if m[0].0 == k {
        Some(0)
    } else {
        match key_index(m.drop_first(), k) {
            Some(x) => Some(x + 1),
            None => None,
        }
    }
}

/// `key_index` finds the first member named `k`, and none where no member is.
pub proof fn lemma_key_index(m: Seq<(Seq<char>, Json)>, k: Seq<char>)
    ensures
        match key_index(m, k) {
            Some(x) => 0 <= x < m.len() && m[x].0 == k && forall|j: int| 0 <= j < x ==> m[j].0 != k,
            None => forall|j: int| 0 <= j < m.len() ==> m[j].0 != k,
        },
    decreases m.len(),
{
    if m.len() > 0 && m[0].0 != k {
        lemma_key_index(m.drop_first(), k);
        match key_index(m.drop_first(), k) {
            Some(x) => {
                assert forall|j: int| 0 <= j < x + 1 implies m[j].0 != k by {
                    if j > 0 {
                        assert(m[j] == m.drop_first()[j - 1]);
                    }
                }
            },
            None => {
                assert forall|j: int| 0 <= j < m.len() implies m[j].0 != k by {
                    if j > 0 {
                        assert(m[j] == m.drop_first()[j - 1]);
                    }
                }
            },
        }
    }
}

/// The first member named `k` is at `x` when none before it is named so.
pub proof fn lemma_key_index_at(m: Seq<(Seq<char>, Json)>, k: Seq<char>, x: int)
    requires
        0 <= x <= m.len(),
        forall|j: int| 0 <= j < x ==> #[trigger] m[j].0 != k,
        x < m.len() ==> m[x].0 == k,
    ensures
        key_index(m, k) == if x < m.len() {
            Some(x)
        } else {
            None::<int>
        },
{
    lemma_key_index(m, k);
    match key_index(m, k) {
        Some(y) => {
            if y < x {
                assert(m[y].0 != k);
            }
            if x < y {
                assert(m[x].0 != k);
            }
        },
        None => {
            if x < m.len() {
                assert(m[x].0 != k);
            }
        },
    }
}

/// `m` with `v` under `k`: the member with key `k` takes the new value where there is one,
/// else the member is added at the end.
pub open spec fn obj_put(m: Seq<(Seq<char>, Json)>, k: Seq<char>, v: Json) -> Seq<(Seq<char>, Json)> {
    match key_index(m, k) {
        Some(x) => m.update(x, (k, v)),
        None => m.push((k, v)),
    }
}

/// The value of the member with key `k`.
pub open spec fn obj_get(m: Seq<(Seq<char>, Json)>, k: Seq<char>) -> Option<Json> {
    match key_index(m, k) {
        Some(x) => Some(m[x].1),
        None => None,
    }
}

/// The whitespace that JSON allows between tokens.
pub open spec fn is_json_ws(c: u8) -> bool {
    c == 0x20u8 || c == 0x0au8 || c == 0x0du8 || c == 0x09u8
}

/// The first position at or after `i` that does not hold whitespace.
pub open spec fn skip_ws(b: Seq<u8>, i: int) -> int
    decreases b.len() - i,
{
    if 0 <= i < b.len() && is_json_ws(b[i]) {
        skip_ws(b, i + 1)
    } else {
        i
    }
}

/// Skipping white space stays in the text and stops at a byte that is not white space.
pub proof fn lemma_skip_ws(b: Seq<u8>, i: int)
    requires
        0 <= i <= b.len(),
    ensures
        i <= skip_ws(b, i) <= b.len(),
        skip_ws(b, i) < b.len() ==> !is_json_ws(b[skip_ws(b, i)]),
        forall|j: int| i <= j < skip_ws(b, i) ==> is_json_ws(#[trigger] b[j]),
    decreases b.len() - i,
{
    if i < b.len() && is_json_ws(b[i]) {
        lemma_skip_ws(b, i + 1);
    }
}

/// The value of one hexadecimal digit.
pub open spec fn hex_digit_value(c: u8) -> Option<u32> {
    if 0x30u8 <= c <= 0x39u8 {
        Some((c - 0x30u8) as u32)
    } else if 0x61u8 <= c <= 0x66u8 {
        Some((c - 0x61u8 + 10) as u32)
    } else if 0x41u8 <= c <= 0x46u8 {
        Some((c - 0x41u8 + 10) as u32)
    } else {
        None
    }
}

/// The number in the four bytes at `i`, read as `u32::from_str_radix` reads base 16: four
/// digits, or a `+` and three digits.
pub open spec fn hex4(b: Seq<u8>, i: int) -> Option<u32> {
    if i < 0 || i + 4 > b.len() {
        None
    } else {
        let d0 = hex_digit_value(b[i]);
        let d1 = hex_digit_value(b[i + 1]);
        let d2 = hex_digit_value(b[i + 2]);
        let d3 = hex_digit_value(b[i + 3]);
        if d1 is Some && d2 is Some && d3 is Some {
            if b[i] == 0x2bu8 {
                Some((d1->0 * 256 + d2->0 * 16 + d3->0) as u32)
            } else if d0 is Some {
                Some((d0->0 * 4096 + d1->0 * 256 + d2->0 * 16 + d3->0) as u32)
            } else {
                None
            }
        } else {
            None
        }
    }
}

/// Whether `v` is the code point of a character: not a surrogate, at most `0x10FFFF`.
pub open spec fn is_scalar_value(v: u32) -> bool {
    v < 0xD800 || (0xE000 <= v && v <= 0x10FFFF)
}

/// The character that a one-letter escape stands for.
pub open spec fn escaped(e: u8) -> Option<char> {
    if e == 0x22u8 {
        Some('"')
    } else if e == 0x5cu8 {
        Some('\\')
    } else if e == 0x2fu8 {
        Some('/')
    } else if e == 0x62u8 {
        Some('\u{08}')
    } else if e == 0x66u8 {
        Some('\u{0C}')
    } else if e == 0x6eu8 {
        Some('\n')
    } else if e == 0x72u8 {
        Some('\r')
    } else if e == 0x74u8 {
        Some('\t')
    } else {
        None
    }
}

/// `r` with `c` put in front of its text.
pub open spec fn cons(c: char, r: Option<(Seq<char>, int)>) -> Option<(Seq<char>, int)> {
    match r {
        Some((s, e)) => Some((seq![c] + s, e)),
        None => None,
    }
}

/// The text of a string whose body starts at `i`, and the position after its closing quote.
/// Each byte that is not part of an escape stands for the character with that number.
pub open spec fn str_body(b: Seq<u8>, i: int) -> Option<(Seq<char>, int)>
    decreases b.len() - i,
{
    if i < 0 || i >= b.len() {
        None
    } else if b[i] == 0x22u8 {
        Some((Seq::empty(), i + 1))
    } else if b[i] == 0x5cu8 {
        if i + 1 >= b.len() {
            None
        } else if b[i + 1] == 0x75u8 {
            match hex4(b, i + 2) {
                Some(cp) => if is_scalar_value(cp) {
                    cons(cp as char, str_body(b, i + 6))
                } else {
                    None
                },
                None => None,
            }
        } else {
            match escaped(b[i + 1]) {
                Some(c) => cons(c, str_body(b, i + 2)),
                None => None,
            }
        }
    } else {
        cons(b[i] as char, str_body(b, i + 1))
    }
}

/// A string body that is read ends after where it began, within the text.
pub proof fn lemma_str_body_end(b: Seq<u8>, i: int)
    ensures
        str_body(b, i) matches Some((s, e)) ==> i < e <= b.len(),
    decreases b.len() - i,
{
    if 0 <= i < b.len() && b[i] != 0x22u8 {
        if b[i] == 0x5cu8 {
            if i + 1 < b.len() {
                if b[i + 1] == 0x75u8 {
                    if hex4(b, i + 2) is Some {
                        lemma_str_body_end(b, i + 6);
                    }
                } else {
                    lemma_str_body_end(b, i + 2);
                }
            }
        } else {
            lemma_str_body_end(b, i + 1);
        }
    }
}

/// A string starting with its opening quote at `i`.
pub open spec fn parse_string(b: Seq<u8>, i: int) -> Option<(Seq<char>, int)> {
    if 0 <= i < b.len() && b[i] == 0x22u8 {
        str_body(b, i + 1)
    } else {
        None
    }
}

/// The value after any whitespace at `i`, and the position after it.
pub open spec fn parse_value(b: Seq<u8>, i: int) -> Option<(Json, int)>
    decreases b.len() - i, 0int,
{
    if 0 <= i <= b.len() {
        let j = skip_ws(b, i);
        proof {
            lemma_skip_ws(b, i);
        }
        if j >= b.len() {
            None
        } else if b[j] == 0x7bu8 {
            parse_object(b, j + 1)
        } else if b[j] == 0x5bu8 {
            parse_array(b, j + 1)
        } else if b[j] == 0x22u8 {
            match str_body(b, j + 1) {
                Some((s, e)) => Some((Json::Str(s), e)),
                None => None,
            }
        } else if b[j] == 0x6eu8 {
            if j + 4 <= b.len() && b[j + 1] == 0x75u8 && b[j + 2] == 0x6cu8 && b[j + 3] == 0x6cu8 {
                Some((Json::Null, j + 4))
            } else {
                None
            }
        } else {
            None
        }
    } else {
        None
    }
}

/// An object whose opening brace stands just before `i`.
pub open spec fn parse_object(b: Seq<u8>, i: int) -> Option<(Json, int)>
    decreases b.len() - i, 2int,
{
    if 0 <= i <= b.len() {
        let j = skip_ws(b, i);
        proof {
            lemma_skip_ws(b, i);
        }
        if j < b.len() && b[j] == 0x7du8 {
            Some((Json::Obj(Seq::empty()), j + 1))
        } else {
            parse_members(b, j, Seq::empty())
        }
    } else {
        None
    }
}

/// The members of an object from `i` on, after the members `acc` read before them.
pub open spec fn parse_members(b: Seq<u8>, i: int, acc: Seq<(Seq<char>, Json)>) -> Option<
    (Json, int),
>
    decreases b.len() - i, 1int,
{
    if 0 <= i <= b.len() {
        let j = skip_ws(b, i);
        proof {
            lemma_skip_ws(b, i);
            lemma_str_body_end(b, j + 1);
        }
        match parse_string(b, j) {
            Some((key, k)) => {
                let k2 = skip_ws(b, k);
                proof {
                    lemma_skip_ws(b, k);
                }
                if k2 < b.len() && b[k2] == 0x3au8 {
                    match parse_value(b, k2 + 1) {
                        Some((v, e)) => {
                            let e2 = skip_ws(b, e);
                            let acc2 = obj_put(acc, key, v);
                            // `i <= e2` always holds: a member ends after it starts.
                            if 0 <= e2 < b.len() && b[e2] == 0x2cu8 && i <= e2 {
                                parse_members(b, e2 + 1, acc2)
                            } else if 0 <= e2 < b.len() && b[e2] == 0x7du8 {
                                Some((Json::Obj(acc2), e2 + 1))
                            } else {
                                None
                            }
                        },
                        None => None,
                    }
                } else {
                    None
                }
            },
            None => None,
        }
    } else {
        None
    }
}

/// An array whose opening bracket stands just before `i`.
pub open spec fn parse_array(b: Seq<u8>, i: int) -> Option<(Json, int)>
    decreases b.len() - i, 2int,
{
    if 0 <= i <= b.len() {
        let j = skip_ws(b, i);
        proof {
            lemma_skip_ws(b, i);
        }
        if j < b.len() && b[j] == 0x5du8 {
            Some((Json::Arr(Seq::empty()), j + 1))
        } else {
            parse_elements(b, j, Seq::empty())
        }
    } else {
        None
    }
}

/// The elements of an array from `i` on, after the elements `acc` read before them.
pub open spec fn parse_elements(b: Seq<u8>, i: int, acc: Seq<Json>) -> Option<(Json, int)>
    decreases b.len() - i, 1int,
{
    if 0 <= i <= b.len() {
        match parse_value(b, i) {
            Some((v, e)) => {
                let e2 = skip_ws(b, e);
                // `i <= e2` always holds: an element ends after it starts.
                if 0 <= e2 < b.len() && b[e2] == 0x2cu8 && i <= e2 {
                    parse_elements(b, e2 + 1, acc.push(v))
                } else if 0 <= e2 < b.len() && b[e2] == 0x5du8 {
                    Some((Json::Arr(acc.push(v)), e2 + 1))
                } else {
                    None
                }
            },
            None => None,
        }
    } else {
        None
    }
}

/// A whole document: one value with nothing but whitespace around it.
pub open spec fn parse_document(b: Seq<u8>) -> Option<Json> {
    match parse_value(b, 0) {
        Some((v, e)) => if skip_ws(b, e) == b.len() {
            Some(v)
        } else {
            None
        },
        None => None,
    }
}

/// The character whose code point is `v`: `char::from_u32`, which refuses surrogates and
/// numbers above `0x10FFFF`.
#[verifier::external_body]
fn char_from_u32(v: u32) -> (r: Option<char>)
    ensures
        r matches Some(c) ==> c == v as char && is_scalar_value(v),
        r is None ==> !is_scalar_value(v),
{
    char::from_u32(v)
}

fn parse_error(message: &str) -> (r: StoreError)
    ensures
        r matches StoreError::Parse(m) && m@ == message@,
{
    StoreError::Parse(message.to_owned())
}

fn skip_ws_exec(b: &[u8], i: usize) -> (j: usize)
    requires
        i <= b@.len(),
    ensures
        j == skip_ws(b@, i as int),
        i <= j <= b@.len(),
{
    proof {
        lemma_skip_ws(b@, i as int);
    }
    let mut j = i;
    while j < b.len() && (b[j] == 0x20u8 || b[j] == 0x0au8 || b[j] == 0x0du8 || b[j] == 0x09u8)
        invariant
            i <= j <= b@.len(),
            skip_ws(b@, i as int) == skip_ws(b@, j as int),
        decreases b@.len() - j,
    {
        j = j + 1;
    }
    j
}

fn hex_digit_exec(c: u8) -> (r: Option<u32>)
    ensures
        r == hex_digit_value(c),
{
    if 0x30u8 <= c && c <= 0x39u8 {
        Some((c - 0x30u8) as u32)
    } else if 0x61u8 <= c && c <= 0x66u8 {
        Some((c - 0x61u8 + 10) as u32)
    } else if 0x41u8 <= c && c <= 0x46u8 {
        Some((c - 0x41u8 + 10) as u32)
    } else {
        None
    }
}

fn hex4_exec(b: &[u8], i: usize) -> (r: Option<u32>)
    ensures
        r == hex4(b@, i as int),
{
    if i > b.len() || b.len() - i < 4 {
        return None;
    }
    let d0 = hex_digit_exec(b[i]);
    let d1 = hex_digit_exec(b[i + 1]);
    let d2 = hex_digit_exec(b[i + 2]);
    let d3 = hex_digit_exec(b[i + 3]);
    match (d1, d2, d3) {
        (Some(x1), Some(x2), Some(x3)) => {
            if b[i] == 0x2bu8 {
                Some(x1 * 256 + x2 * 16 + x3)
            } else {
                match d0 {
                    Some(x0) => Some(x0 * 4096 + x1 * 256 + x2 * 16 + x3),
                    None => None,
                }
            }
        },
        _ => None,
    }
}

fn escaped_exec(e: u8) -> (r: Option<char>)
    ensures
        r == escaped(e),
{
    if e == 0x22u8 {
        Some('"')
    } else if e == 0x5cu8 {
        Some('\\')
    } else if e == 0x2fu8 {
        Some('/')
    } else if e == 0x62u8 {
        Some('\u{08}')
    } else if e == 0x66u8 {
        Some('\u{0C}')
    } else if e == 0x6eu8 {
        Some('\n')
    } else if e == 0x72u8 {
        Some('\r')
    } else if e == 0x74u8 {
        Some('\t')
    } else {
        None
    }
}

/// `r` with `prefix` put in front of its text.
pub open spec fn prefixed(prefix: Seq<char>, r: Option<(Seq<char>, int)>) -> Option<(Seq<char>, int)> {
    match r {
        Some((s, e)) => Some((prefix + s, e)),
        None => None,
    }
}

/// Reads the string whose opening quote is at `i`.
pub fn parse_string_exec(b: &[u8], i: usize) -> (r: Result<(String, usize), StoreError>)
    ensures
        match r {
            Ok((s, e)) => parse_string(b@, i as int) == Some((s@, e as int)) && i < e <= b@.len(),
            Err(err) => parse_string(b@, i as int) is None && err is Parse,
        },
{
    if i >= b.len() {
        return Err(parse_error("unexpected end of config"));
    }
    if b[i] != 0x22u8 {
        return Err(parse_error("expected '\"'"));
    }
    let mut out = String::new();
    let mut p = i + 1;
    assert(out@ + Seq::<char>::empty() =~= Seq::<char>::empty());
    proof {
        assert(prefixed(out@, str_body(b@, p as int)) == str_body(b@, p as int)) by {
            match str_body(b@, p as int) {
                Some((s, e)) => {
                    assert(out@ + s =~= s);
                },
                None => {},
            }
        }
    }
    while p < b.len()
        invariant
            i < p <= b@.len(),
            parse_string(b@, i as int) == prefixed(out@, str_body(b@, p as int)),
        decreases b@.len() - p,
    {
        let c = b[p];
        let ghost before = out@;
        if c == 0x22u8 {
            assert(out@ + Seq::<char>::empty() =~= out@);
            return Ok((out, p + 1));
        } else if c == 0x5cu8 {
            if p + 1 >= b.len() {
                return Err(parse_error("unterminated escape sequence"));
            }
            let e = b[p + 1];
            if e == 0x75u8 {
                match hex4_exec(b, p + 2) {
                    Some(cp) => match char_from_u32(cp) {
                        Some(ch) => {
                            out.push(ch);
                            proof {
                                match str_body(b@, p + 6) {
                                    Some((s, e2)) => {
                                        assert(before + (seq![ch] + s) =~= out@ + s);
                                    },
                                    None => {},
                                }
                            }
                            p = p + 6;
                        },
                        None => {
                            return Err(parse_error("invalid unicode escape in config"));
                        },
                    },
                    None => {
                        return Err(parse_error("unicode escape must be hexadecimal"));
                    },
                }
            } else {
                match escaped_exec(e) {
                    Some(ch) => {
                        out.push(ch);
                        proof {
                            match str_body(b@, p + 2) {
                                Some((s, e2)) => {
                                    assert(before + (seq![ch] + s) =~= out@ + s);
                                },
                                None => {},
                            }
                        }
                        p = p + 2;
                    },
                    None => {
                        return Err(parse_error("unsupported string escape in config"));
                    },
                }
            }
        } else {
            let ch = c as char;
            out.push(ch);
            proof {
                match str_body(b@, p + 1) {
                    Some((s, e2)) => {
                        assert(before + (seq![ch] + s) =~= out@ + s);
                    },
                    None => {},
                }
            }
            p = p + 1;
        }
    }
    Err(parse_error("unterminated JSON string"))
}


/// Puts `v` under `key`, as `obj_put` does.
fn obj_put_exec(members: &mut Vec<(String, JsonValue)>, key: String, v: JsonValue)
    ensures
        mviews(final(members)@) == obj_put(mviews(old(members)@), key@, jview(v)),
{
    let ghost m = mviews(members@);
    let mut x: usize = 0;
    while x < members.len()
        invariant
            x <= members@.len(),
            m == mviews(members@),
            members@ == old(members)@,
            forall|j: int| 0 <= j < x ==> #[trigger] m[j].0 != key@,
        decreases members@.len() - x,
    {
        if crate::text::str_eq(members[x].0.as_str(), key.as_str()) {
            proof {
                lemma_key_index_at(m, key@, x as int);
            }
            let ghost kv = (key@, jview(v));
            members.set(x, (key, v));
            assert(mviews(members@) =~= m.update(x as int, kv));
            return;
        }
        x = x + 1;
    }
    proof {
        lemma_key_index_at(m, key@, x as int);
    }
    let ghost kv = (key@, jview(v));
    members.push((key, v));
    assert(mviews(members@) =~= m.push(kv));
}

/// Reads the value after any whitespace at `i`.
pub fn parse_value_exec(b: &[u8], i: usize) -> (r: Result<(JsonValue, usize), StoreError>)
    requires
        i <= b@.len(),
    ensures
        match r {
            Ok((v, e)) => parse_value(b@, i as int) == Some((jview(v), e as int)) && i < e <= b@.len(),
            Err(err) => parse_value(b@, i as int) is None && err is Parse,
        },
    decreases b@.len() - i, 0int,
{
    let j = skip_ws_exec(b, i);
    if j >= b.len() {
        return Err(parse_error("unexpected end of config"));
    }
    let c = b[j];
    if c == 0x7bu8 {
        parse_object_exec(b, j + 1)
    } else if c == 0x5bu8 {
        parse_array_exec(b, j + 1)
    } else if c == 0x22u8 {
        match parse_string_exec(b, j) {
            Ok((s, e)) => Ok((JsonValue::Str(s), e)),
            Err(err) => Err(err),
        }
    } else if c == 0x6eu8 {
        if b.len() - j >= 4 && b[j + 1] == 0x75u8 && b[j + 2] == 0x6cu8 && b[j + 3] == 0x6cu8 {
            Ok((JsonValue::Null, j + 4))
        } else {
            Err(parse_error("invalid JSON literal"))
        }
    } else {
        Err(parse_error("unsupported JSON token"))
    }
}

/// Reads an object whose opening brace stands just before `i`.
fn parse_object_exec(b: &[u8], i: usize) -> (r: Result<(JsonValue, usize), StoreError>)
    requires
        i <= b@.len(),
        i > 0,
    ensures
        match r {
            Ok((v, e)) => parse_object(b@, i as int) == Some((jview(v), e as int)) && i < e <= b@.len(),
            Err(err) => parse_object(b@, i as int) is None && err is Parse,
        },
    decreases b@.len() - i, 2int,
{
    let j = skip_ws_exec(b, i);
    if j < b.len() && b[j] == 0x7du8 {
        let members: Vec<(String, JsonValue)> = Vec::new();
        proof {
            lemma_jview_object(members);
            assert(mviews(members@) =~= Seq::<(Seq<char>, Json)>::empty());
        }
        return Ok((JsonValue::Object(members), j + 1));
    }
    let mut members: Vec<(String, JsonValue)> = Vec::new();
    assert(mviews(members@) =~= Seq::<(Seq<char>, Json)>::empty());
    let mut pos = j;
    loop
        invariant
            i <= pos <= b@.len(),
            parse_object(b@, i as int) == parse_members(b@, pos as int, mviews(members@)),
        decreases b@.len() - pos,
    {
        let p = skip_ws_exec(b, pos);
        let (key, k) = match parse_string_exec(b, p) {
            Ok(x) => x,
            Err(err) => {
                return Err(err);
            },
        };
        let k2 = skip_ws_exec(b, k);
        if !(k2 < b.len() && b[k2] == 0x3au8) {
            return Err(parse_error("expected ':'"));
        }
        let (v, e) = match parse_value_exec(b, k2 + 1) {
            Ok(x) => x,
            Err(err) => {
                return Err(err);
            },
        };
        let e2 = skip_ws_exec(b, e);
        obj_put_exec(&mut members, key, v);
        if e2 < b.len() && b[e2] == 0x2cu8 {
            pos = e2 + 1;
        } else if e2 < b.len() && b[e2] == 0x7du8 {
            proof {
                lemma_jview_object(members);
            }
            return Ok((JsonValue::Object(members), e2 + 1));
        } else {
            return Err(parse_error("expected ',' or '}' while parsing object"));
        }
    }
}

/// Reads an array whose opening bracket stands just before `i`.
fn parse_array_exec(b: &[u8], i: usize) -> (r: Result<(JsonValue, usize), StoreError>)
    requires
        i <= b@.len(),
        i > 0,
    ensures
        match r {
            Ok((v, e)) => parse_array(b@, i as int) == Some((jview(v), e as int)) && i < e <= b@.len(),
            Err(err) => parse_array(b@, i as int) is None && err is Parse,
        },
    decreases b@.len() - i, 2int,
{
    let j = skip_ws_exec(b, i);
    if j < b.len() && b[j] == 0x5du8 {
        let values: Vec<JsonValue> = Vec::new();
        proof {
            lemma_jview_array(values);
            assert(jviews(values@) =~= Seq::<Json>::empty());
        }
        return Ok((JsonValue::Array(values), j + 1));
    }
    let mut values: Vec<JsonValue> = Vec::new();
    assert(jviews(values@) =~= Seq::<Json>::empty());
    let mut pos = j;
    loop
        invariant
            i <= pos <= b@.len(),
            parse_array(b@, i as int) == parse_elements(b@, pos as int, jviews(values@)),
        decreases b@.len() - pos,
    {
        let (v, e) = match parse_value_exec(b, pos) {
            Ok(x) => x,
            Err(err) => {
                return Err(err);
            },
        };
        let e2 = skip_ws_exec(b, e);
        let ghost prev = jviews(values@);
        let ghost jv = jview(v);
        values.push(v);
        assert(jviews(values@) =~= prev.push(jv));
        if e2 < b.len() && b[e2] == 0x2cu8 {
            pos = e2 + 1;
        } else if e2 < b.len() && b[e2] == 0x5du8 {
            proof {
                lemma_jview_array(values);
            }
            return Ok((JsonValue::Array(values), e2 + 1));
        } else {
            return Err(parse_error("expected ',' or ']' while parsing array"));
        }
    }
}

/// Reads a whole document.
pub fn parse_document_exec(b: &[u8]) -> (r: Result<JsonValue, StoreError>)
    ensures
        match r {
            Ok(v) => parse_document(b@) == Some(jview(v)),
            Err(err) => parse_document(b@) is None && err is Parse,
        },
{
    let (v, e) = match parse_value_exec(b, 0) {
        Ok(x) => x,
        Err(err) => {
            return Err(err);
        },
    };
    let end = skip_ws_exec(b, e);
    if end != b.len() {
        return Err(parse_error("unexpected trailing content in config"));
    }
    Ok(v)
}

} // verus!
