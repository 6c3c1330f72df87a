//! Reading back what was written: the configuration text parses to the configuration it was
//! made from.
use vstd::prelude::*;
use crate::config_file::{
    ConfigModel, config_json,
    escape_char, escape_json, hex_char, is_control, quoted, nullable_text, list_block, map_block,
};
use crate::json::{
    Json, cons, escaped, hex4, hex_digit_value, is_json_ws, is_scalar_value, parse_string,
    parse_value, skip_ws, str_body,
};

verus! {

/// The bytes of a text whose characters are all ASCII.
pub open spec fn bytes_of(t: Seq<char>) -> Seq<u8> {
    t.map_values(|c: char| c as u8)
}

/// `t` stands in `b` at position `i`.
pub open spec fn text_at(b: Seq<u8>, i: int, t: Seq<char>) -> bool {
    0 <= i && i + t.len() <= b.len() && b.subrange(i, i + t.len()) == bytes_of(t)
}

/// Characters that the configuration writer keeps readable: below `0xA0`.
pub open spec fn writable(s: Seq<char>) -> bool {
    forall|k: int| 0 <= k < s.len() ==> (#[trigger] s[k] as u32) < 0xA0
}

proof fn lemma_text_at_split(b: Seq<u8>, i: int, t1: Seq<char>, t2: Seq<char>)
    requires
        text_at(b, i, t1 + t2),
    ensures
        text_at(b, i, t1),
        text_at(b, i + t1.len(), t2),
{
    assert(b.subrange(i, i + t1.len()) =~= bytes_of(t1)) by {
        assert forall|k: int| 0 <= k < t1.len() implies b.subrange(i, i + t1.len())[k] == bytes_of(
            t1,
        )[k] by {
            assert(b.subrange(i, i + (t1 + t2).len())[k] == bytes_of(t1 + t2)[k]);
        }
    }
    assert(b.subrange(i + t1.len(), i + t1.len() + t2.len()) =~= bytes_of(t2)) by {
        assert forall|k: int| 0 <= k < t2.len() implies b.subrange(
            i + t1.len(),
            i + t1.len() + t2.len(),
        )[k] == bytes_of(t2)[k] by {
            assert(b.subrange(i, i + (t1 + t2).len())[t1.len() + k] == bytes_of(t1 + t2)[t1.len()
                + k]);
        }
    }
}

proof fn lemma_text_at_byte(b: Seq<u8>, i: int, t: Seq<char>, k: int)
    requires
        text_at(b, i, t),
        0 <= k < t.len(),
    ensures
        b[i + k] == t[k] as u8,
{
    assert(b.subrange(i, i + t.len())[k] == bytes_of(t)[k]);
}

/// `escape_json` read from the front.
proof fn lemma_escape_front(c: char, t: Seq<char>)
    ensures
        escape_json(seq![c] + t) == escape_char(c) + escape_json(t),
    decreases t.len(),
{
    let u = seq![c] + t;
    if t.len() == 0 {
        assert(u =~= seq![c]);
        assert(u.drop_last() =~= Seq::<char>::empty());
        assert(u.last() == c);
        assert(escape_json(u.drop_last()) =~= Seq::<char>::empty());
        assert(escape_json(u) == escape_json(u.drop_last()) + escape_char(u.last()));
        assert(escape_json(t) =~= Seq::<char>::empty());
        assert(Seq::<char>::empty() + escape_char(c) =~= escape_char(c) + Seq::<char>::empty());
    } else {
        lemma_escape_front(c, t.drop_last());
        assert(u.drop_last() =~= seq![c] + t.drop_last());
        assert(u.last() == t.last());
        assert(escape_json(u) == escape_json(u.drop_last()) + escape_char(u.last()));
        assert(escape_char(c) + escape_json(t.drop_last()) + escape_char(t.last()) =~= escape_char(c)
            + escape_json(t));
    }
}

/// The bytes of one written character read back as that character.
proof fn lemma_str_body_char(b: Seq<u8>, i: int, c: char, rest: Seq<char>, e: int)
    requires
        (c as u32) < 0xA0,
        text_at(b, i, escape_char(c)),
        str_body(b, i + escape_char(c).len()) == Some((rest, e)),
    ensures
        str_body(b, i) == Some((seq![c] + rest, e)),
{
    let n = escape_char(c).len();
    let v = c as u32;
    if c == '"' || c == '\\' || c == '\n' || c == '\r' || c == '\t' || c == '\u{08}' || c == '\u{0C}' {
        lemma_text_at_byte(b, i, escape_char(c), 0);
        lemma_text_at_byte(b, i, escape_char(c), 1);
        assert(b[i] == 0x5cu8);
        assert(escaped(b[i + 1]) == Some(c));
        assert(str_body(b, i) == cons(c, str_body(b, i + 2)));
    } else if is_control(c) {
        let e4 = escape_char(c);
        assert(e4.len() == 6);
        lemma_text_at_byte(b, i, e4, 0);
        lemma_text_at_byte(b, i, e4, 1);
        lemma_text_at_byte(b, i, e4, 2);
        lemma_text_at_byte(b, i, e4, 3);
        lemma_text_at_byte(b, i, e4, 4);
        lemma_text_at_byte(b, i, e4, 5);
        let d0 = (v / 4096) % 16;
        let d1 = (v / 256) % 16;
        let d2 = (v / 16) % 16;
        let d3 = v % 16;
        assert(d0 == 0 && d1 == 0);
        assert(hex_digit_value(hex_char(d0) as u8) == Some(d0));
        assert(hex_digit_value(hex_char(d1) as u8) == Some(d1));
        assert(hex_digit_value(hex_char(d2) as u8) == Some(d2));
        assert(hex_digit_value(hex_char(d3) as u8) == Some(d3));
        assert(d2 * 16 + d3 == v);
        assert(hex4(b, i + 2) == Some(v));
        assert(is_scalar_value(v));
        assert((v as char) == c);
        assert(str_body(b, i) == cons(c, str_body(b, i + 6)));
    } else {
        assert(escape_char(c) == seq![c]);
        lemma_text_at_byte(b, i, escape_char(c), 0);
        assert(0x20 <= v < 0x7f);
        assert(b[i] == c as u8);
        assert((b[i] as char) == c);
        assert(str_body(b, i) == cons(c, str_body(b, i + 1)));
    }
}

/// A written string body, followed by its closing quote, reads back as the string.
proof fn lemma_str_body_written(b: Seq<u8>, i: int, s: Seq<char>)
    requires
        writable(s),
        text_at(b, i, escape_json(s) + seq!['"']),
    ensures
        str_body(b, i) == Some((s, i + escape_json(s).len() + 1)),
    decreases s.len(),
{
    if s.len() == 0 {
        assert(escape_json(s) =~= Seq::<char>::empty());
        lemma_text_at_byte(b, i, escape_json(s) + seq!['"'], 0);
        assert(s =~= Seq::<char>::empty());
    } else {
        let c = s[0];
        let rest = s.drop_first();
        assert(s =~= seq![c] + rest);
        lemma_escape_front(c, rest);
        assert(escape_json(s) + seq!['"'] =~= escape_char(c) + (escape_json(rest) + seq!['"']));
        lemma_text_at_split(b, i, escape_char(c), escape_json(rest) + seq!['"']);
        assert(writable(rest)) by {
            assert forall|k: int| 0 <= k < rest.len() implies (#[trigger] rest[k] as u32) < 0xA0 by {
                assert(rest[k] == s[k + 1]);
            }
        }
        assert((c as u32) < 0xA0) by {
            assert(s[0] == c);
        }
        lemma_str_body_written(b, i + escape_char(c).len(), rest);
        lemma_str_body_char(
            b,
            i,
            c,
            rest,
            i + escape_char(c).len() + escape_json(rest).len() + 1,
        );
    }
}

/// A written string reads back as the string.
pub proof fn lemma_parse_quoted(b: Seq<u8>, i: int, s: Seq<char>)
    requires
        writable(s),
        text_at(b, i, quoted(s)),
    ensures
        parse_string(b, i) == Some((s, i + quoted(s).len())),
{
    assert(quoted(s) =~= seq!['"'] + (escape_json(s) + seq!['"']));
    lemma_text_at_split(b, i, seq!['"'], escape_json(s) + seq!['"']);
    lemma_text_at_byte(b, i, seq!['"'], 0);
    lemma_str_body_written(b, i + 1, s);
}


/// `skip_ws` passes over whitespace that stands at `i`, up to the byte after it.
proof fn lemma_skip_written_ws(b: Seq<u8>, i: int, w: Seq<char>)
    requires
        text_at(b, i, w),
        forall|k: int| 0 <= k < w.len() ==> #[trigger] w[k] == ' ' || w[k] == '\n',
        i + w.len() == b.len() || !is_json_ws(b[i + w.len()]),
    ensures
        skip_ws(b, i) == i + w.len(),
    decreases w.len(),
{
    if w.len() > 0 {
        lemma_text_at_byte(b, i, w, 0);
        assert(w =~= seq![w[0]] + w.drop_first());
        lemma_text_at_split(b, i, seq![w[0]], w.drop_first());
        assert forall|k: int| 0 <= k < w.drop_first().len() implies #[trigger] w.drop_first()[k]
            == ' ' || w.drop_first()[k] == '\n' by {
            assert(w.drop_first()[k] == w[k + 1]);
        }
        lemma_skip_written_ws(b, i + 1, w.drop_first());
    }
}

/// `join` read from the front.
pub proof fn lemma_join_front(xs: Seq<Seq<char>>, sep: Seq<char>)
    requires
        xs.len() >= 1,
    ensures
        crate::text::join(xs, sep) == if xs.len() == 1 {
            xs[0]
        } else {
            xs[0] + sep + crate::text::join(xs.drop_first(), sep)
        },
    decreases xs.len(),
{
    if xs.len() == 2 {
        assert(xs.drop_last() =~= seq![xs[0]]);
        assert(xs.drop_first() =~= seq![xs[1]]);
        assert(crate::text::join(xs.drop_last(), sep) == xs[0]);
        assert(crate::text::join(xs.drop_first(), sep) == xs[1]);
        assert(crate::text::join(xs, sep) == crate::text::join(xs.drop_last(), sep) + sep + xs.last());
    } else if xs.len() > 2 {
        lemma_join_front(xs.drop_last(), sep);
        let dl = xs.drop_last();
        let df = xs.drop_first();
        assert(dl.drop_first() =~= df.drop_last());
        assert(dl[0] == xs[0]);
        assert(df.last() == xs.last());
        assert(crate::text::join(xs, sep) == crate::text::join(dl, sep) + sep + xs.last());
        assert(crate::text::join(df, sep) == crate::text::join(df.drop_last(), sep) + sep + df.last());
        assert(crate::text::join(dl, sep) == xs[0] + sep + crate::text::join(df.drop_last(), sep));
        assert(xs[0] + sep + crate::text::join(df.drop_last(), sep) + sep + xs.last() =~= xs[0] + sep
            + (crate::text::join(df.drop_last(), sep) + sep + df.last()));
    }
}

/// The elements of a written list from its first string on, with the closing bracket.
pub open spec fn elems_text(l: Seq<Seq<char>>) -> Seq<char>
    decreases l.len(),
{
    if l.len() <= 1 {
        quoted(l[0]) + "\n    ]"@
    } else {
        quoted(l[0]) + ",\n      "@ + elems_text(l.drop_first())
    }
}

proof fn lemma_list_block_front(l: Seq<Seq<char>>)
    requires
        l.len() >= 1,
    ensures
        crate::text::join(l.map_values(|s: Seq<char>| "      "@ + quoted(s)), ",\n"@) + "\n    ]"@
            == "      "@ + elems_text(l),
    decreases l.len(),
{
    let items = l.map_values(|s: Seq<char>| "      "@ + quoted(s));
    lemma_join_front(items, ",\n"@);
    assert(items[0] == "      "@ + quoted(l[0]));
    if l.len() == 1 {
        assert(elems_text(l) == quoted(l[0]) + "\n    ]"@);
        assert(crate::text::join(items, ",\n"@) == items[0]);
        assert("      "@ + quoted(l[0]) + "\n    ]"@ =~= "      "@ + (quoted(l[0]) + "\n    ]"@));
    } else {
        let rest = l.drop_first();
        lemma_list_block_front(rest);
        assert(items.drop_first() =~= rest.map_values(|s: Seq<char>| "      "@ + quoted(s)));
        reveal_strlit(",\n");
        reveal_strlit(",\n      ");
        reveal_strlit("      ");
        assert(",\n"@ + "      "@ =~= ",\n      "@);
        assert(elems_text(l) == quoted(l[0]) + ",\n      "@ + elems_text(rest));
        let jr = crate::text::join(items.drop_first(), ",\n"@);
        assert(jr + "\n    ]"@ == "      "@ + elems_text(rest));
        assert(crate::text::join(items, ",\n"@) == items[0] + ",\n"@ + jr);
        assert(items[0] + ",\n"@ + jr + "\n    ]"@ =~= "      "@ + quoted(l[0]) + ",\n"@ + (jr
            + "\n    ]"@));
        assert("      "@ + quoted(l[0]) + ",\n"@ + ("      "@ + elems_text(rest)) =~= "      "@ + (
        quoted(l[0]) + (",\n"@ + "      "@) + elems_text(rest)));
    }
}

/// The JSON strings of a list of texts.
pub open spec fn str_values(l: Seq<Seq<char>>) -> Seq<Json> {
    l.map_values(|s: Seq<char>| Json::Str(s))
}

/// All the texts of a list are writable.
pub open spec fn all_writable(l: Seq<Seq<char>>) -> bool {
    forall|k: int| 0 <= k < l.len() ==> writable(#[trigger] l[k])
}

proof fn lemma_parse_elems(b: Seq<u8>, p: int, l: Seq<Seq<char>>, acc: Seq<Json>)
    requires
        l.len() >= 1,
        all_writable(l),
        0 <= p <= b.len(),
        text_at(b, skip_ws(b, p), elems_text(l)),
    ensures
        crate::json::parse_elements(b, p, acc) == Some(
            (Json::Arr(acc + str_values(l)), skip_ws(b, p) + elems_text(l).len()),
        ),
    decreases l.len(),
{
    let q = skip_ws(b, p);
    crate::json::lemma_skip_ws(b, p);
    let l0 = l[0];
    assert(writable(l0));
    reveal_strlit("\n    ]");
    reveal_strlit(",\n      ");
    if l.len() == 1 {
        assert(elems_text(l) == quoted(l0) + "\n    ]"@);
        lemma_text_at_split(b, q, quoted(l0), "\n    ]"@);
        lemma_parse_quoted(b, q, l0);
        lemma_text_at_byte(b, q, quoted(l0), 0);
        let e = q + quoted(l0).len();
        assert("\n    ]"@ =~= "\n    "@ + seq![']']) by {
            reveal_strlit("\n    ");
        }
        lemma_text_at_split(b, e, "\n    "@, seq![']']);
        lemma_text_at_byte(b, e + 5, seq![']'], 0);
        reveal_strlit("\n    ");
        lemma_skip_written_ws(b, e, "\n    "@);
        assert(parse_value(b, p) == Some((Json::Str(l0), e)));
        assert(acc.push(Json::Str(l0)) =~= acc + str_values(l));
    } else {
        let rest = l.drop_first();
        assert(elems_text(l) == quoted(l0) + ",\n      "@ + elems_text(rest));
        lemma_text_at_split(b, q, quoted(l0) + ",\n      "@, elems_text(rest));
        lemma_text_at_split(b, q, quoted(l0), ",\n      "@);
        lemma_parse_quoted(b, q, l0);
        lemma_text_at_byte(b, q, quoted(l0), 0);
        let e = q + quoted(l0).len();
        assert(",\n      "@ =~= seq![','] + "\n      "@) by {
            reveal_strlit("\n      ");
        }
        lemma_text_at_split(b, e, seq![','], "\n      "@);
        lemma_text_at_byte(b, e, seq![','], 0);
        assert(skip_ws(b, e) == e);
        reveal_strlit("\n      ");
        assert(elems_text(rest)[0] == '"') by {
            assert(quoted(rest[0])[0] == '"');
            if rest.len() <= 1 {
                assert(elems_text(rest) == quoted(rest[0]) + "\n    ]"@);
            } else {
                assert(elems_text(rest) == quoted(rest[0]) + ",\n      "@ + elems_text(
                    rest.drop_first(),
                ));
            }
        }
        lemma_text_at_byte(b, e + 8, elems_text(rest), 0);
        lemma_skip_written_ws(b, e + 1, "\n      "@);
        assert(parse_value(b, p) == Some((Json::Str(l0), e)));
        assert forall|k: int| 0 <= k < rest.len() implies writable(#[trigger] rest[k]) by {
            assert(rest[k] == l[k + 1]);
        }
        lemma_parse_elems(b, e + 1, rest, acc.push(Json::Str(l0)));
        assert(acc.push(Json::Str(l0)) + str_values(rest) =~= acc + str_values(l));
    }
}


/// A written list of strings reads back as the array of those strings.
proof fn lemma_parse_list_block(b: Seq<u8>, i: int, l: Seq<Seq<char>>)
    requires
        all_writable(l),
        text_at(b, i, list_block(l)),
    ensures
        parse_value(b, i) == Some((Json::Arr(str_values(l)), i + list_block(l).len())),
{
    reveal_strlit("[]");
    reveal_strlit("[\n");
    reveal_strlit("      ");
    lemma_text_at_byte(b, i, list_block(l), 0);
    assert(skip_ws(b, i) == i);
    if l.len() == 0 {
        lemma_text_at_byte(b, i, list_block(l), 1);
        assert(skip_ws(b, i + 1) == i + 1);
        assert(str_values(l) =~= Seq::<Json>::empty());
    } else {
        lemma_list_block_front(l);
        let w = "\n      "@;
        reveal_strlit("\n      ");
        let j = crate::text::join(l.map_values(|s: Seq<char>| "      "@ + quoted(s)), ",\n"@);
        assert(list_block(l) == "[\n"@ + j + "\n    ]"@);
        assert("[\n"@ + j + "\n    ]"@ =~= "[\n"@ + (j + "\n    ]"@));
        assert("[\n"@ + ("      "@ + elems_text(l)) =~= seq!['['] + w + elems_text(l));
        lemma_text_at_split(b, i, seq!['['] + w, elems_text(l));
        lemma_text_at_split(b, i, seq!['['], w);
        assert(elems_text(l)[0] == '"') by {
            assert(quoted(l[0])[0] == '"');
            if l.len() <= 1 {
                assert(elems_text(l) == quoted(l[0]) + "\n    ]"@);
            } else {
                assert(elems_text(l) == quoted(l[0]) + ",\n      "@ + elems_text(l.drop_first()));
            }
        }
        lemma_text_at_byte(b, i + 8, elems_text(l), 0);
        lemma_skip_written_ws(b, i + 1, w);
        crate::json::lemma_skip_ws(b, i + 8);
        assert(skip_ws(b, i + 8) == i + 8);
        lemma_parse_elems(b, i + 8, l, Seq::empty());
        assert(Seq::<Json>::empty() + str_values(l) =~= str_values(l));
    }
}

/// The members of a written password map from its first key on, with the closing brace.
pub open spec fn members_text(m: Seq<(Seq<char>, Seq<char>)>) -> Seq<char>
    decreases m.len(),
{
    let head = quoted(m[0].0) + ": "@ + quoted(m[0].1);
    if m.len() <= 1 {
        head + "\n    }"@
    } else {
        head + ",\n      "@ + members_text(m.drop_first())
    }
}

proof fn lemma_map_block_front(m: Seq<(Seq<char>, Seq<char>)>)
    requires
        m.len() >= 1,
    ensures
        crate::text::join(
            m.map_values(|p: (Seq<char>, Seq<char>)| "      "@ + quoted(p.0) + ": "@ + quoted(p.1)),
            ",\n"@,
        ) + "\n    }"@ == "      "@ + members_text(m),
    decreases m.len(),
{
    let items = m.map_values(
        |p: (Seq<char>, Seq<char>)| "      "@ + quoted(p.0) + ": "@ + quoted(p.1),
    );
    lemma_join_front(items, ",\n"@);
    let head = quoted(m[0].0) + ": "@ + quoted(m[0].1);
    assert(items[0] =~= "      "@ + head);
    if m.len() == 1 {
        assert(members_text(m) == head + "\n    }"@);
        assert(crate::text::join(items, ",\n"@) == items[0]);
        assert("      "@ + head + "\n    }"@ =~= "      "@ + (head + "\n    }"@));
    } else {
        let rest = m.drop_first();
        lemma_map_block_front(rest);
        assert(items.drop_first() =~= rest.map_values(
            |p: (Seq<char>, Seq<char>)| "      "@ + quoted(p.0) + ": "@ + quoted(p.1),
        ));
        reveal_strlit(",\n");
        reveal_strlit(",\n      ");
        reveal_strlit("      ");
        assert(",\n"@ + "      "@ =~= ",\n      "@);
        assert(members_text(m) == head + ",\n      "@ + members_text(rest));
        let jr = crate::text::join(items.drop_first(), ",\n"@);
        assert(jr + "\n    }"@ == "      "@ + members_text(rest));
        assert(crate::text::join(items, ",\n"@) == items[0] + ",\n"@ + jr);
        assert(items[0] + ",\n"@ + jr + "\n    }"@ =~= "      "@ + head + ",\n"@ + (jr
            + "\n    }"@));
        assert("      "@ + head + ",\n"@ + ("      "@ + members_text(rest)) =~= "      "@ + (head
            + (",\n"@ + "      "@) + members_text(rest)));
    }
}

/// The JSON members of a password map.
pub open spec fn str_members(m: Seq<(Seq<char>, Seq<char>)>) -> Seq<(Seq<char>, Json)> {
    m.map_values(|p: (Seq<char>, Seq<char>)| (p.0, Json::Str(p.1)))
}

/// Every key and password of a map is writable.
pub open spec fn map_writable(m: Seq<(Seq<char>, Seq<char>)>) -> bool {
    forall|k: int| 0 <= k < m.len() ==> writable(#[trigger] m[k].0) && writable(m[k].1)
}

/// A written member `"key": "value"` followed by `tail` reads back as the key and the string.
proof fn lemma_member_head(b: Seq<u8>, q: int, k0: Seq<char>, v0: Seq<char>, tail: Seq<char>)
    requires
        writable(k0),
        writable(v0),
        text_at(b, q, quoted(k0) + (": "@ + (quoted(v0) + tail))),
    ensures
        parse_string(b, q) == Some((k0, q + quoted(k0).len())),
        skip_ws(b, q + quoted(k0).len()) == q + quoted(k0).len(),
        q + quoted(k0).len() < b.len(),
        b[q + quoted(k0).len()] == 0x3au8,
        parse_value(b, q + quoted(k0).len() + 1) == Some(
            (Json::Str(v0), q + quoted(k0).len() + 2 + quoted(v0).len()),
        ),
        text_at(b, q + quoted(k0).len() + 2 + quoted(v0).len(), tail),
{
    reveal_strlit(": ");
    lemma_text_at_split(b, q, quoted(k0), ": "@ + (quoted(v0) + tail));
    lemma_parse_quoted(b, q, k0);
    let k = q + quoted(k0).len();
    lemma_text_at_split(b, k, ": "@, quoted(v0) + tail);
    lemma_text_at_byte(b, k, ": "@, 0);
    lemma_text_at_byte(b, k, ": "@, 1);
    assert(skip_ws(b, k) == k);
    let vq = k + 2;
    lemma_text_at_split(b, vq, quoted(v0), tail);
    lemma_parse_quoted(b, vq, v0);
    lemma_text_at_byte(b, vq, quoted(v0), 0);
    assert(skip_ws(b, vq) == vq);
    assert(skip_ws(b, k + 1) == vq);
}

/// `parse_members` over a written member: it reads the key and the string, then goes on at what
/// follows them.
proof fn lemma_members_unfold(
    b: Seq<u8>,
    p: int,
    k0: Seq<char>,
    v0: Seq<char>,
    tail: Seq<char>,
    acc: Seq<(Seq<char>, Json)>,
)
    requires
        writable(k0),
        writable(v0),
        0 <= p <= b.len(),
        text_at(b, skip_ws(b, p), quoted(k0) + (": "@ + (quoted(v0) + tail))),
    ensures
        ({
            let e = skip_ws(b, p) + quoted(k0).len() + 2 + quoted(v0).len();
            let e2 = skip_ws(b, e);
            let acc2 = crate::json::obj_put(acc, k0, Json::Str(v0));
            &&& text_at(b, e, tail)
            &&& crate::json::parse_members(b, p, acc) == if 0 <= e2 < b.len() && b[e2] == 0x2cu8
                && p <= e2 {
                crate::json::parse_members(b, e2 + 1, acc2)
            } else if 0 <= e2 < b.len() && b[e2] == 0x7du8 {
                Some((Json::Obj(acc2), e2 + 1))
            } else {
                None
            }
        }),
{
    let q = skip_ws(b, p);
    crate::json::lemma_skip_ws(b, p);
    lemma_member_head(b, q, k0, v0, tail);
}

/// Keys that are fresh before a map stay fresh, with its first key added, before the rest.
proof fn lemma_fresh_keys_rest(
    m: Seq<(Seq<char>, Seq<char>)>,
    acc: Seq<(Seq<char>, Json)>,
    v: Json,
)
    requires
        m.len() >= 2,
        crate::store::keys_increasing(m),
        forall|a: int, j: int| 0 <= a < acc.len() && 0 <= j < m.len() ==> #[trigger] acc[a].0 != #[trigger] m[j].0,
    ensures
        crate::store::keys_increasing(m.drop_first()),
        forall|a: int, j: int|
            0 <= a < acc.push((m[0].0, v)).len() && 0 <= j < m.drop_first().len()
                ==> #[trigger] acc.push((m[0].0, v))[a].0 != #[trigger] m.drop_first()[j].0,
{
    let rest = m.drop_first();
    let acc2 = acc.push((m[0].0, v));
    assert forall|x: int, y: int| 0 <= x < y < rest.len() implies crate::strsort::lex_lt(
        rest[x].0,
        rest[y].0,
    ) by {
        assert(rest[x] == m[x + 1]);
        assert(rest[y] == m[y + 1]);
    }
    assert forall|a: int, j: int| 0 <= a < acc2.len() && 0 <= j < rest.len() implies #[trigger] acc2[a].0
        != #[trigger] rest[j].0 by {
        assert(rest[j] == m[j + 1]);
        if a < acc.len() {
            assert(acc2[a] == acc[a]);
        } else {
            assert(crate::strsort::lex_lt(m[0].0, m[j + 1].0));
            if m[0].0 == rest[j].0 {
                crate::strsort::lemma_lex_irrefl(m[0].0);
            }
        }
    }
}

/// What follows the first member of a written password map.
pub open spec fn members_tail(m: Seq<(Seq<char>, Seq<char>)>) -> Seq<char> {
    if m.len() <= 1 {
        "\n    }"@
    } else {
        ",\n      "@ + members_text(m.drop_first())
    }
}

proof fn lemma_members_text_split(m: Seq<(Seq<char>, Seq<char>)>)
    requires
        m.len() >= 1,
    ensures
        members_text(m) == quoted(m[0].0) + (": "@ + (quoted(m[0].1) + members_tail(m))),
        members_text(m)[0] == '"',
{
    let head = quoted(m[0].0) + ": "@ + quoted(m[0].1);
    if m.len() <= 1 {
        assert(members_text(m) == head + "\n    }"@);
    } else {
        assert(members_text(m) == head + ",\n      "@ + members_text(m.drop_first()));
    }
    assert(members_text(m) =~= quoted(m[0].0) + (": "@ + (quoted(m[0].1) + members_tail(m))));
    assert(quoted(m[0].0)[0] == '"');
}

/// The last member of a written map, then its closing brace.
proof fn lemma_members_last(
    b: Seq<u8>,
    p: int,
    k0: Seq<char>,
    v0: Seq<char>,
    acc: Seq<(Seq<char>, Json)>,
)
    requires
        writable(k0),
        writable(v0),
        0 <= p <= b.len(),
        text_at(b, skip_ws(b, p), quoted(k0) + (": "@ + (quoted(v0) + "\n    }"@))),
    ensures
        crate::json::parse_members(b, p, acc) == Some(
            (
                Json::Obj(crate::json::obj_put(acc, k0, Json::Str(v0))),
                skip_ws(b, p) + quoted(k0).len() + 2 + quoted(v0).len() + 6,
            ),
        ),
{
    lemma_members_unfold(b, p, k0, v0, "\n    }"@, acc);
    let e = skip_ws(b, p) + quoted(k0).len() + 2 + quoted(v0).len();
    reveal_strlit("\n    }");
    reveal_strlit("\n    ");
    assert("\n    }"@ =~= "\n    "@ + seq!['}']);
    lemma_text_at_split(b, e, "\n    "@, seq!['}']);
    lemma_text_at_byte(b, e + 5, seq!['}'], 0);
    lemma_skip_written_ws(b, e, "\n    "@);
}

/// A member of a written map that more members follow.
proof fn lemma_members_more(
    b: Seq<u8>,
    p: int,
    k0: Seq<char>,
    v0: Seq<char>,
    more: Seq<char>,
    acc: Seq<(Seq<char>, Json)>,
)
    requires
        writable(k0),
        writable(v0),
        0 <= p <= b.len(),
        more.len() >= 1,
        more[0] == '"',
        text_at(b, skip_ws(b, p), quoted(k0) + (": "@ + (quoted(v0) + (",\n      "@ + more)))),
    ensures
        ({
            let e = skip_ws(b, p) + quoted(k0).len() + 2 + quoted(v0).len();
            &&& crate::json::parse_members(b, p, acc) == crate::json::parse_members(
                b,
                e + 1,
                crate::json::obj_put(acc, k0, Json::Str(v0)),
            )
            &&& e + 1 <= b.len()
            &&& skip_ws(b, e + 1) == e + 8
            &&& text_at(b, e + 8, more)
        }),
{
    crate::json::lemma_skip_ws(b, p);
    lemma_members_unfold(b, p, k0, v0, ",\n      "@ + more, acc);
    let e = skip_ws(b, p) + quoted(k0).len() + 2 + quoted(v0).len();
    reveal_strlit(",\n      ");
    reveal_strlit("\n      ");
    assert(",\n      "@ =~= seq![','] + "\n      "@);
    lemma_text_at_split(b, e, ",\n      "@, more);
    lemma_text_at_split(b, e, seq![','], "\n      "@);
    lemma_text_at_byte(b, e, seq![','], 0);
    assert(skip_ws(b, e) == e);
    lemma_text_at_byte(b, e + 8, more, 0);
    lemma_skip_written_ws(b, e + 1, "\n      "@);
}

proof fn lemma_put_fresh(acc: Seq<(Seq<char>, Json)>, k: Seq<char>, v: Json)
    requires
        forall|a: int| 0 <= a < acc.len() ==> #[trigger] acc[a].0 != k,
    ensures
        crate::json::obj_put(acc, k, v) == acc.push((k, v)),
{
    crate::json::lemma_key_index(acc, k);
}

proof fn lemma_parse_members_written(
    b: Seq<u8>,
    p: int,
    m: Seq<(Seq<char>, Seq<char>)>,
    acc: Seq<(Seq<char>, Json)>,
)
    requires
        m.len() >= 1,
        map_writable(m),
        crate::store::keys_increasing(m),
        forall|a: int, j: int| 0 <= a < acc.len() && 0 <= j < m.len() ==> #[trigger] acc[a].0 != #[trigger] m[j].0,
        0 <= p <= b.len(),
        text_at(b, skip_ws(b, p), members_text(m)),
    ensures
        crate::json::parse_members(b, p, acc) == Some(
            (Json::Obj(acc + str_members(m)), skip_ws(b, p) + members_text(m).len()),
        ),
    decreases m.len(),
{
    let k0 = m[0].0;
    let v0 = m[0].1;
    assert(writable(k0) && writable(v0));
    lemma_members_text_split(m);
    assert forall|a: int| 0 <= a < acc.len() implies #[trigger] acc[a].0 != k0 by {
        assert(acc[a].0 != m[0].0);
    }
    lemma_put_fresh(acc, k0, Json::Str(v0));
    let acc2 = acc.push((k0, Json::Str(v0)));
    if m.len() == 1 {
        assert(members_tail(m) == "\n    }"@);
        lemma_members_last(b, p, k0, v0, acc);
        reveal_strlit(": ");
        reveal_strlit("\n    }");
        assert(acc2 =~= acc + str_members(m));
    } else {
        let rest = m.drop_first();
        assert(members_tail(m) == ",\n      "@ + members_text(rest));
        lemma_members_text_split(rest);
        lemma_members_more(b, p, k0, v0, members_text(rest), acc);
        let e = skip_ws(b, p) + quoted(k0).len() + 2 + quoted(v0).len();
        assert(map_writable(rest)) by {
            assert forall|j: int| 0 <= j < rest.len() implies writable(#[trigger] rest[j].0)
                && writable(rest[j].1) by {
                assert(rest[j] == m[j + 1]);
            }
        }
        lemma_fresh_keys_rest(m, acc, Json::Str(v0));
        lemma_parse_members_written(b, e + 1, rest, acc2);
        assert(acc2 + str_members(rest) =~= acc + str_members(m));
        reveal_strlit(": ");
        reveal_strlit(",\n      ");
    }
}

/// A character that stands for itself in a JSON string.
pub open spec fn plain(s: Seq<char>) -> bool {
    forall|k: int| 0 <= k < s.len() ==> ' ' <= #[trigger] s[k] <= '~' && s[k] != '"' && s[k] != '\\'
}

proof fn lemma_escape_plain(s: Seq<char>)
    requires
        plain(s),
    ensures
        escape_json(s) == s,
        quoted(s) == seq!['"'] + s + seq!['"'],
        writable(s),
    decreases s.len(),
{
    if s.len() > 0 {
        let t = s.drop_last();
        assert(plain(t)) by {
            assert forall|k: int| 0 <= k < t.len() implies ' ' <= #[trigger] t[k] <= '~' && t[k] != '"' && t[k] != '\\' by {
                assert(t[k] == s[k]);
            }
        }
        lemma_escape_plain(t);
        let c = s[s.len() - 1];
        assert(escape_char(c) == seq![c]);
        assert(t + seq![c] =~= s);
    }
}

/// A written password map reads back as the object of its entries.
proof fn lemma_parse_map_block(b: Seq<u8>, i: int, m: Seq<(Seq<char>, Seq<char>)>)
    requires
        map_writable(m),
        crate::store::keys_increasing(m),
        text_at(b, i, map_block(m)),
    ensures
        parse_value(b, i) == Some((Json::Obj(str_members(m)), i + map_block(m).len())),
{
    reveal_strlit("{}");
    reveal_strlit("{\n");
    reveal_strlit("      ");
    lemma_text_at_byte(b, i, map_block(m), 0);
    assert(skip_ws(b, i) == i);
    if m.len() == 0 {
        lemma_text_at_byte(b, i, map_block(m), 1);
        assert(skip_ws(b, i + 1) == i + 1);
        assert(str_members(m) =~= Seq::<(Seq<char>, Json)>::empty());
    } else {
        lemma_map_block_front(m);
        let w = "\n      "@;
        reveal_strlit("\n      ");
        let j = crate::text::join(
            m.map_values(|p: (Seq<char>, Seq<char>)| "      "@ + quoted(p.0) + ": "@ + quoted(p.1)),
            ",\n"@,
        );
        assert(map_block(m) == "{\n"@ + j + "\n    }"@);
        assert("{\n"@ + j + "\n    }"@ =~= "{\n"@ + (j + "\n    }"@));
        assert("{\n"@ + ("      "@ + members_text(m)) =~= seq!['{'] + w + members_text(m));
        lemma_text_at_split(b, i, seq!['{'] + w, members_text(m));
        lemma_text_at_split(b, i, seq!['{'], w);
        lemma_members_text_split(m);
        lemma_text_at_byte(b, i + 8, members_text(m), 0);
        lemma_skip_written_ws(b, i + 1, w);
        crate::json::lemma_skip_ws(b, i + 8);
        lemma_parse_members_written(b, i + 8, m, Seq::empty());
        assert(Seq::<(Seq<char>, Json)>::empty() + str_members(m) =~= str_members(m));
    }
}

/// The JSON value of a path that may be missing.
pub open spec fn nullable_json(o: Option<Seq<char>>) -> Json {
    match o {
        Some(s) => Json::Str(s),
        None => Json::Null,
    }
}

/// A path that may be missing, and whose text is writable.
pub open spec fn nullable_writable(o: Option<Seq<char>>) -> bool {
    match o {
        Some(s) => writable(s),
        None => true,
    }
}

/// A written path, or `null`, reads back as what was written.
proof fn lemma_parse_nullable(b: Seq<u8>, i: int, o: Option<Seq<char>>)
    requires
        nullable_writable(o),
        text_at(b, i, nullable_text(o)),
    ensures
        parse_value(b, i) == Some((nullable_json(o), i + nullable_text(o).len())),
{
    match o {
        Some(s) => {
            lemma_parse_quoted(b, i, s);
            lemma_text_at_byte(b, i, quoted(s), 0);
            assert(skip_ws(b, i) == i);
        },
        None => {
            reveal_strlit("null");
            lemma_text_at_byte(b, i, "null"@, 0);
            lemma_text_at_byte(b, i, "null"@, 1);
            lemma_text_at_byte(b, i, "null"@, 2);
            lemma_text_at_byte(b, i, "null"@, 3);
            assert(skip_ws(b, i) == i);
        },
    }
}

/// Whitespace before a value is passed over.
proof fn lemma_parse_value_ws(b: Seq<u8>, x: int)
    requires
        0 <= x < b.len(),
        is_json_ws(b[x]),
    ensures
        parse_value(b, x) == parse_value(b, x + 1),
{
    assert(skip_ws(b, x) == skip_ws(b, x + 1));
}

/// Text made of spaces and line breaks only.
pub open spec fn blank(w: Seq<char>) -> bool {
    forall|k: int| 0 <= k < w.len() ==> #[trigger] w[k] == ' ' || w[k] == '\n'
}

/// One member, `"key": value`, of an object read from `p` on.
proof fn lemma_member_value(
    b: Seq<u8>,
    p: int,
    key: Seq<char>,
    v: Json,
    ve: int,
    acc: Seq<(Seq<char>, Json)>,
)
    requires
        0 <= p <= b.len(),
        writable(key),
        text_at(b, skip_ws(b, p), quoted(key) + ": "@),
        parse_value(b, skip_ws(b, p) + quoted(key).len() + 2) == Some((v, ve)),
        skip_ws(b, p) + quoted(key).len() + 2 <= ve,
    ensures
        crate::json::parse_members(b, p, acc) == ({
            let e2 = skip_ws(b, ve);
            let acc2 = crate::json::obj_put(acc, key, v);
            if 0 <= e2 < b.len() && b[e2] == 0x2cu8 && p <= e2 {
                crate::json::parse_members(b, e2 + 1, acc2)
            } else if 0 <= e2 < b.len() && b[e2] == 0x7du8 {
                Some((Json::Obj(acc2), e2 + 1))
            } else {
                None
            }
        }),
{
    let q = skip_ws(b, p);
    crate::json::lemma_skip_ws(b, p);
    reveal_strlit(": ");
    lemma_text_at_split(b, q, quoted(key), ": "@);
    lemma_parse_quoted(b, q, key);
    let k = q + quoted(key).len();
    lemma_text_at_byte(b, k, ": "@, 0);
    lemma_text_at_byte(b, k, ": "@, 1);
    assert(skip_ws(b, k) == k);
    lemma_parse_value_ws(b, k + 1);
}

/// A member that a comma, blank text and the next key follow.
proof fn lemma_member_comma(
    b: Seq<u8>,
    p: int,
    key: Seq<char>,
    v: Json,
    ve: int,
    ws: Seq<char>,
    acc: Seq<(Seq<char>, Json)>,
)
    requires
        0 <= p <= b.len(),
        writable(key),
        text_at(b, skip_ws(b, p), quoted(key) + ": "@),
        parse_value(b, skip_ws(b, p) + quoted(key).len() + 2) == Some((v, ve)),
        skip_ws(b, p) + quoted(key).len() + 2 <= ve,
        text_at(b, ve, seq![','] + ws),
        blank(ws),
        ve + 1 + ws.len() < b.len(),
        b[ve + 1 + ws.len()] == 0x22u8,
    ensures
        crate::json::parse_members(b, p, acc) == crate::json::parse_members(
            b,
            ve + 1,
            crate::json::obj_put(acc, key, v),
        ),
        skip_ws(b, ve + 1) == ve + 1 + ws.len(),
{
    crate::json::lemma_skip_ws(b, p);
    lemma_member_value(b, p, key, v, ve, acc);
    lemma_text_at_split(b, ve, seq![','], ws);
    lemma_text_at_byte(b, ve, seq![','], 0);
    assert(skip_ws(b, ve) == ve);
    lemma_skip_written_ws(b, ve + 1, ws);
}

/// The last member of an object, then blank text and the closing brace.
proof fn lemma_member_close(
    b: Seq<u8>,
    p: int,
    key: Seq<char>,
    v: Json,
    ve: int,
    ws: Seq<char>,
    acc: Seq<(Seq<char>, Json)>,
)
    requires
        0 <= p <= b.len(),
        writable(key),
        text_at(b, skip_ws(b, p), quoted(key) + ": "@),
        parse_value(b, skip_ws(b, p) + quoted(key).len() + 2) == Some((v, ve)),
        skip_ws(b, p) + quoted(key).len() + 2 <= ve,
        text_at(b, ve, ws + seq!['}']),
        blank(ws),
    ensures
        crate::json::parse_members(b, p, acc) == Some(
            (Json::Obj(crate::json::obj_put(acc, key, v)), ve + ws.len() + 1),
        ),
{
    lemma_member_value(b, p, key, v, ve, acc);
    lemma_text_at_split(b, ve, ws, seq!['}']);
    lemma_text_at_byte(b, ve + ws.len(), seq!['}'], 0);
    lemma_skip_written_ws(b, ve, ws);
}

/// An opening brace, blank text, then the first key.
proof fn lemma_object_open(b: Seq<u8>, i: int, ws: Seq<char>)
    requires
        text_at(b, i, seq!['{'] + ws),
        blank(ws),
        i + 1 + ws.len() < b.len(),
        b[i + 1 + ws.len()] == 0x22u8,
    ensures
        parse_value(b, i) == crate::json::parse_members(b, i + 1 + ws.len(), Seq::empty()),
        skip_ws(b, i + 1 + ws.len()) == i + 1 + ws.len(),
{
    lemma_text_at_split(b, i, seq!['{'], ws);
    lemma_text_at_byte(b, i, seq!['{'], 0);
    assert(skip_ws(b, i) == i);
    lemma_skip_written_ws(b, i + 1, ws);
}

/// Every text of a configuration is writable.
pub open spec fn model_writable(m: ConfigModel) -> bool {
    &&& all_writable(m.usernames)
    &&& map_writable(m.passwords)
    &&& all_writable(m.removed_presets)
    &&& nullable_writable(m.vscode)
    &&& nullable_writable(m.mobaxterm)
    &&& nullable_writable(m.vncviewer)
    &&& nullable_writable(m.rustdesk)
}

/// The members of the written `credentials` object.
pub open spec fn cred_members(m: ConfigModel) -> Seq<(Seq<char>, Json)> {
    seq![
        ("usernames"@, Json::Arr(str_values(m.usernames))),
        ("passwords"@, Json::Obj(str_members(m.passwords))),
        ("removed_presets"@, Json::Arr(str_values(m.removed_presets))),
    ]
}

/// The members of the written `app_paths` object.
pub open spec fn path_members(m: ConfigModel) -> Seq<(Seq<char>, Json)> {
    seq![
        ("vscode"@, nullable_json(m.vscode)),
        ("mobaxterm"@, nullable_json(m.mobaxterm)),
        ("vncviewer"@, nullable_json(m.vncviewer)),
        ("rustdesk"@, nullable_json(m.rustdesk)),
    ]
}

/// The key names of the configuration file, each written as itself.
proof fn lemma_key_names()
    ensures
        quoted("credentials"@) == seq!['"'] + "credentials"@ + seq!['"'],
        quoted("usernames"@) == seq!['"'] + "usernames"@ + seq!['"'],
        quoted("passwords"@) == seq!['"'] + "passwords"@ + seq!['"'],
        quoted("removed_presets"@) == seq!['"'] + "removed_presets"@ + seq!['"'],
        quoted("app_paths"@) == seq!['"'] + "app_paths"@ + seq!['"'],
        quoted("vscode"@) == seq!['"'] + "vscode"@ + seq!['"'],
        quoted("mobaxterm"@) == seq!['"'] + "mobaxterm"@ + seq!['"'],
        quoted("vncviewer"@) == seq!['"'] + "vncviewer"@ + seq!['"'],
        quoted("rustdesk"@) == seq!['"'] + "rustdesk"@ + seq!['"'],
        writable("credentials"@),
        writable("usernames"@),
        writable("passwords"@),
        writable("removed_presets"@),
        writable("app_paths"@),
        writable("vscode"@),
        writable("mobaxterm"@),
        writable("vncviewer"@),
        writable("rustdesk"@),
        "credentials"@.len() == 11,
        "usernames"@.len() == 9,
        "passwords"@.len() == 9,
        "removed_presets"@.len() == 15,
        "app_paths"@.len() == 9,
        "vscode"@.len() == 6,
        "mobaxterm"@.len() == 9,
        "vncviewer"@.len() == 9,
        "rustdesk"@.len() == 8,
        "usernames"@ != "passwords"@,
        "usernames"@ != "removed_presets"@,
        "passwords"@ != "removed_presets"@,
        "credentials"@ != "app_paths"@,
        "vscode"@ != "mobaxterm"@,
        "vscode"@ != "vncviewer"@,
        "vscode"@ != "rustdesk"@,
        "mobaxterm"@ != "vncviewer"@,
        "mobaxterm"@ != "rustdesk"@,
        "vncviewer"@ != "rustdesk"@,
        blank("\n  "@),
        blank("\n    "@),
        blank("\n"@),
        "\n  "@.len() == 3,
        "\n    "@.len() == 5,
        "\n"@.len() == 1,
{
    reveal_strlit("credentials");
    reveal_strlit("usernames");
    reveal_strlit("passwords");
    reveal_strlit("removed_presets");
    reveal_strlit("app_paths");
    reveal_strlit("vscode");
    reveal_strlit("mobaxterm");
    reveal_strlit("vncviewer");
    reveal_strlit("rustdesk");
    reveal_strlit("\n  ");
    reveal_strlit("\n    ");
    reveal_strlit("\n");
    lemma_escape_plain("credentials"@);
    lemma_escape_plain("usernames"@);
    lemma_escape_plain("passwords"@);
    lemma_escape_plain("removed_presets"@);
    lemma_escape_plain("app_paths"@);
    lemma_escape_plain("vscode"@);
    lemma_escape_plain("mobaxterm"@);
    lemma_escape_plain("vncviewer"@);
    lemma_escape_plain("rustdesk"@);
    assert("usernames"@[0] != "passwords"@[0]);
    assert("usernames"@[0] != "removed_presets"@[0]);
    assert("passwords"@[0] != "removed_presets"@[0]);
    assert("vscode"@[1] != "vncviewer"@[1]);
}

/// The first character of a quoted key.
proof fn lemma_key_start(b: Seq<u8>, i: int, key: Seq<char>)
    requires
        text_at(b, i, quoted(key) + ": "@),
    ensures
        i < b.len(),
        b[i] == 0x22u8,
{
    lemma_text_at_byte(b, i, quoted(key) + ": "@, 0);
}

/// The first member of the written `credentials` object.
pub open spec fn cred_first(m: ConfigModel) -> Seq<(Seq<char>, Json)> {
    seq![("usernames"@, Json::Arr(str_values(m.usernames)))]
}

/// The first two members of the written `credentials` object.
pub open spec fn cred_two(m: ConfigModel) -> Seq<(Seq<char>, Json)> {
    cred_first(m).push(("passwords"@, Json::Obj(str_members(m.passwords))))
}

proof fn lemma_cred_usernames(b: Seq<u8>, i: int, m: ConfigModel)
    requires
        all_writable(m.usernames),
        text_at(b, i, seq!['{'] + "\n    "@),
        text_at(b, i + 6, quoted("usernames"@) + ": "@),
        text_at(b, i + 19, list_block(m.usernames)),
        text_at(b, i + 19 + list_block(m.usernames).len(), seq![','] + "\n    "@),
        text_at(b, i + 25 + list_block(m.usernames).len(), quoted("passwords"@) + ": "@),
    ensures
        parse_value(b, i) == crate::json::parse_members(
            b,
            i + 20 + list_block(m.usernames).len(),
            cred_first(m),
        ),
        skip_ws(b, i + 20 + list_block(m.usernames).len()) == i + 25 + list_block(
            m.usernames,
        ).len(),
{
    lemma_key_names();
    let u = list_block(m.usernames).len();
    lemma_key_start(b, i + 6, "usernames"@);
    lemma_object_open(b, i, "\n    "@);
    lemma_parse_list_block(b, i + 19, m.usernames);
    lemma_key_start(b, i + 25 + u, "passwords"@);
    lemma_member_comma(
        b,
        i + 6,
        "usernames"@,
        Json::Arr(str_values(m.usernames)),
        i + 19 + u,
        "\n    "@,
        Seq::empty(),
    );
    lemma_put_fresh(Seq::empty(), "usernames"@, Json::Arr(str_values(m.usernames)));
    assert(Seq::<(Seq<char>, Json)>::empty().push(("usernames"@, Json::Arr(str_values(m.usernames))))
        =~= cred_first(m));
}

proof fn lemma_cred_passwords(b: Seq<u8>, x: int, m: ConfigModel)
    requires
        map_writable(m.passwords),
        0 <= x <= b.len(),
        crate::store::keys_increasing(m.passwords),
        skip_ws(b, x) == x + 5,
        text_at(b, x + 5, quoted("passwords"@) + ": "@),
        text_at(b, x + 18, map_block(m.passwords)),
        text_at(b, x + 18 + map_block(m.passwords).len(), seq![','] + "\n    "@),
        text_at(b, x + 24 + map_block(m.passwords).len(), quoted("removed_presets"@) + ": "@),
    ensures
        crate::json::parse_members(b, x, cred_first(m)) == crate::json::parse_members(
            b,
            x + 19 + map_block(m.passwords).len(),
            cred_two(m),
        ),
        skip_ws(b, x + 19 + map_block(m.passwords).len()) == x + 24 + map_block(
            m.passwords,
        ).len(),
{
    lemma_key_names();
    let pw = map_block(m.passwords).len();
    lemma_parse_map_block(b, x + 18, m.passwords);
    lemma_key_start(b, x + 24 + pw, "removed_presets"@);
    lemma_member_comma(
        b,
        x,
        "passwords"@,
        Json::Obj(str_members(m.passwords)),
        x + 18 + pw,
        "\n    "@,
        cred_first(m),
    );
    lemma_put_fresh(cred_first(m), "passwords"@, Json::Obj(str_members(m.passwords)));
}

proof fn lemma_cred_removed(b: Seq<u8>, y: int, m: ConfigModel)
    requires
        all_writable(m.removed_presets),
        0 <= y <= b.len(),
        skip_ws(b, y) == y + 5,
        text_at(b, y + 5, quoted("removed_presets"@) + ": "@),
        text_at(b, y + 24, list_block(m.removed_presets)),
        text_at(b, y + 24 + list_block(m.removed_presets).len(), "\n  "@ + seq!['}']),
    ensures
        crate::json::parse_members(b, y, cred_two(m)) == Some(
            (Json::Obj(cred_members(m)), y + 28 + list_block(m.removed_presets).len()),
        ),
{
    lemma_key_names();
    let r = list_block(m.removed_presets).len();
    lemma_parse_list_block(b, y + 24, m.removed_presets);
    lemma_member_close(
        b,
        y,
        "removed_presets"@,
        Json::Arr(str_values(m.removed_presets)),
        y + 24 + r,
        "\n  "@,
        cred_two(m),
    );
    lemma_put_fresh(cred_two(m), "removed_presets"@, Json::Arr(str_values(m.removed_presets)));
    assert(cred_two(m).push(("removed_presets"@, Json::Arr(str_values(m.removed_presets))))
        =~= cred_members(m));
}

/// The written `credentials` object reads back as its three members.
proof fn lemma_parse_credentials(b: Seq<u8>, i: int, m: ConfigModel)
    requires
        model_writable(m),
        crate::store::keys_increasing(m.passwords),
        text_at(b, i, seq!['{'] + "\n    "@),
        text_at(b, i + 6, quoted("usernames"@) + ": "@),
        text_at(b, i + 19, list_block(m.usernames)),
        text_at(b, i + 19 + list_block(m.usernames).len(), seq![','] + "\n    "@),
        text_at(b, i + 25 + list_block(m.usernames).len(), quoted("passwords"@) + ": "@),
        text_at(b, i + 38 + list_block(m.usernames).len(), map_block(m.passwords)),
        text_at(
            b,
            i + 38 + list_block(m.usernames).len() + map_block(m.passwords).len(),
            seq![','] + "\n    "@,
        ),
        text_at(
            b,
            i + 44 + list_block(m.usernames).len() + map_block(m.passwords).len(),
            quoted("removed_presets"@) + ": "@,
        ),
        text_at(
            b,
            i + 63 + list_block(m.usernames).len() + map_block(m.passwords).len(),
            list_block(m.removed_presets),
        ),
        text_at(
            b,
            i + 63 + list_block(m.usernames).len() + map_block(m.passwords).len() + list_block(
                m.removed_presets,
            ).len(),
            "\n  "@ + seq!['}'],
        ),
    ensures
        parse_value(b, i) == Some(
            (
                Json::Obj(cred_members(m)),
                i + 67 + list_block(m.usernames).len() + map_block(m.passwords).len() + list_block(
                    m.removed_presets,
                ).len(),
            ),
        ),
{
    let u = list_block(m.usernames).len();
    let pw = map_block(m.passwords).len();
    lemma_cred_usernames(b, i, m);
    lemma_text_at_byte(b, i + 25 + u, quoted("passwords"@) + ": "@, 0);
    lemma_cred_passwords(b, i + 20 + u, m);
    lemma_text_at_byte(b, i + 44 + u + pw, quoted("removed_presets"@) + ": "@, 0);
    lemma_cred_removed(b, i + 39 + u + pw, m);
}

/// A path member that a comma, a line break with indentation and the next key follow.
proof fn lemma_nullable_comma(
    b: Seq<u8>,
    x: int,
    k: int,
    key: Seq<char>,
    o: Option<Seq<char>>,
    acc: Seq<(Seq<char>, Json)>,
)
    requires
        0 <= x <= k,
        writable(key),
        nullable_writable(o),
        skip_ws(b, x) == k,
        text_at(b, k, quoted(key) + ": "@),
        text_at(b, k + quoted(key).len() + 2, nullable_text(o)),
        text_at(b, k + quoted(key).len() + 2 + nullable_text(o).len(), seq![','] + "\n    "@),
        k + quoted(key).len() + nullable_text(o).len() + 8 < b.len(),
        b[k + quoted(key).len() + nullable_text(o).len() + 8] == 0x22u8,
        forall|a: int| 0 <= a < acc.len() ==> #[trigger] acc[a].0 != key,
    ensures
        crate::json::parse_members(b, x, acc) == crate::json::parse_members(
            b,
            k + quoted(key).len() + 3 + nullable_text(o).len(),
            acc.push((key, nullable_json(o))),
        ),
        skip_ws(b, k + quoted(key).len() + 3 + nullable_text(o).len()) == k + quoted(key).len()
            + 8 + nullable_text(o).len(),
{
    lemma_key_names();
    let vs = k + quoted(key).len() + 2;
    lemma_parse_nullable(b, vs, o);
    lemma_member_comma(b, x, key, nullable_json(o), vs + nullable_text(o).len(), "\n    "@, acc);
    lemma_put_fresh(acc, key, nullable_json(o));
}

/// The last path member, then the closing brace.
proof fn lemma_nullable_close(
    b: Seq<u8>,
    x: int,
    k: int,
    key: Seq<char>,
    o: Option<Seq<char>>,
    acc: Seq<(Seq<char>, Json)>,
)
    requires
        0 <= x <= k,
        writable(key),
        nullable_writable(o),
        skip_ws(b, x) == k,
        text_at(b, k, quoted(key) + ": "@),
        text_at(b, k + quoted(key).len() + 2, nullable_text(o)),
        text_at(b, k + quoted(key).len() + 2 + nullable_text(o).len(), "\n  "@ + seq!['}']),
        forall|a: int| 0 <= a < acc.len() ==> #[trigger] acc[a].0 != key,
    ensures
        crate::json::parse_members(b, x, acc) == Some(
            (
                Json::Obj(acc.push((key, nullable_json(o)))),
                k + quoted(key).len() + 6 + nullable_text(o).len(),
            ),
        ),
{
    lemma_key_names();
    let vs = k + quoted(key).len() + 2;
    lemma_parse_nullable(b, vs, o);
    lemma_member_close(b, x, key, nullable_json(o), vs + nullable_text(o).len(), "\n  "@, acc);
    lemma_put_fresh(acc, key, nullable_json(o));
}

/// The written `app_paths` object reads back as its four members.
#[verifier::rlimit(30)]
proof fn lemma_parse_app_paths(b: Seq<u8>, i: int, m: ConfigModel)
    requires
        model_writable(m),
        text_at(b, i, seq!['{'] + "\n    "@),
        text_at(b, i + 6, quoted("vscode"@) + ": "@),
        text_at(b, i + 16, nullable_text(m.vscode)),
        text_at(b, i + 16 + nullable_text(m.vscode).len(), seq![','] + "\n    "@),
        text_at(b, i + 22 + nullable_text(m.vscode).len(), quoted("mobaxterm"@) + ": "@),
        text_at(b, i + 35 + nullable_text(m.vscode).len(), nullable_text(m.mobaxterm)),
        text_at(
            b,
            i + 35 + nullable_text(m.vscode).len() + nullable_text(m.mobaxterm).len(),
            seq![','] + "\n    "@,
        ),
        text_at(
            b,
            i + 41 + nullable_text(m.vscode).len() + nullable_text(m.mobaxterm).len(),
            quoted("vncviewer"@) + ": "@,
        ),
        text_at(
            b,
            i + 54 + nullable_text(m.vscode).len() + nullable_text(m.mobaxterm).len(),
            nullable_text(m.vncviewer),
        ),
        text_at(
            b,
            i + 54 + nullable_text(m.vscode).len() + nullable_text(m.mobaxterm).len()
                + nullable_text(m.vncviewer).len(),
            seq![','] + "\n    "@,
        ),
        text_at(
            b,
            i + 60 + nullable_text(m.vscode).len() + nullable_text(m.mobaxterm).len()
                + nullable_text(m.vncviewer).len(),
            quoted("rustdesk"@) + ": "@,
        ),
        text_at(
            b,
            i + 72 + nullable_text(m.vscode).len() + nullable_text(m.mobaxterm).len()
                + nullable_text(m.vncviewer).len(),
            nullable_text(m.rustdesk),
        ),
        text_at(
            b,
            i + 72 + nullable_text(m.vscode).len() + nullable_text(m.mobaxterm).len()
                + nullable_text(m.vncviewer).len() + nullable_text(m.rustdesk).len(),
            "\n  "@ + seq!['}'],
        ),
    ensures
        parse_value(b, i) == Some(
            (
                Json::Obj(path_members(m)),
                i + 76 + nullable_text(m.vscode).len() + nullable_text(m.mobaxterm).len()
                    + nullable_text(m.vncviewer).len() + nullable_text(m.rustdesk).len(),
            ),
        ),
{
    lemma_key_names();
    let a = nullable_text(m.vscode).len();
    let mo = nullable_text(m.mobaxterm).len();
    let vn = nullable_text(m.vncviewer).len();
    lemma_key_start(b, i + 6, "vscode"@);
    lemma_object_open(b, i, "\n    "@);
    lemma_key_start(b, i + 22 + a, "mobaxterm"@);
    lemma_nullable_comma(b, i + 6, i + 6, "vscode"@, m.vscode, Seq::empty());
    let a1 = Seq::<(Seq<char>, Json)>::empty().push(("vscode"@, nullable_json(m.vscode)));
    lemma_key_start(b, i + 41 + a + mo, "vncviewer"@);
    assert forall|x: int| 0 <= x < a1.len() implies #[trigger] a1[x].0 != "mobaxterm"@ by {
        assert(a1[x].0 == "vscode"@);
    }
    lemma_nullable_comma(b, i + 17 + a, i + 22 + a, "mobaxterm"@, m.mobaxterm, a1);
    let a2 = a1.push(("mobaxterm"@, nullable_json(m.mobaxterm)));
    lemma_key_start(b, i + 60 + a + mo + vn, "rustdesk"@);
    assert forall|x: int| 0 <= x < a2.len() implies #[trigger] a2[x].0 != "vncviewer"@ by {
        if x == 0 {
            assert(a2[x].0 == "vscode"@);
        } else {
            assert(a2[x].0 == "mobaxterm"@);
        }
    }
    lemma_nullable_comma(b, i + 36 + a + mo, i + 41 + a + mo, "vncviewer"@, m.vncviewer, a2);
    let a3 = a2.push(("vncviewer"@, nullable_json(m.vncviewer)));
    assert forall|x: int| 0 <= x < a3.len() implies #[trigger] a3[x].0 != "rustdesk"@ by {
        if x == 0 {
            assert(a3[x].0 == "vscode"@);
        } else if x == 1 {
            assert(a3[x].0 == "mobaxterm"@);
        } else {
            assert(a3[x].0 == "vncviewer"@);
        }
    }
    lemma_nullable_close(b, i + 55 + a + mo + vn, i + 60 + a + mo + vn, "rustdesk"@, m.rustdesk, a3);
    assert(a3.push(("rustdesk"@, nullable_json(m.rustdesk))) =~= path_members(m));
}

/// A comma, a line break with indentation, and the next key.
proof fn lemma_sep_key(b: Seq<u8>, i: int, key: Seq<char>)
    requires
        text_at(b, i, seq![','] + "\n    "@ + (quoted(key) + ": "@)),
    ensures
        text_at(b, i, seq![','] + "\n    "@),
        text_at(b, i + 6, quoted(key) + ": "@),
{
    lemma_key_names();
    lemma_text_at_split(b, i, seq![','] + "\n    "@, quoted(key) + ": "@);
}

/// The pieces of the text of the configuration file, each at its place.
#[verifier::rlimit(40)]
proof fn lemma_config_pieces(m: ConfigModel)
    ensures
        ({
            let b = bytes_of(config_json(m));
            let u: int = list_block(m.usernames).len() as int;
            let pw: int = map_block(m.passwords).len() as int;
            let r: int = list_block(m.removed_presets).len() as int;
            let a: int = nullable_text(m.vscode).len() as int;
            let mo: int = nullable_text(m.mobaxterm).len() as int;
            let vn: int = nullable_text(m.vncviewer).len() as int;
            let rd: int = nullable_text(m.rustdesk).len() as int;
            &&& b.len() == 182 + u + pw + r + a + mo + vn + rd
            &&& text_at(b, 0, "{\n  \"credentials\": {\n    \"usernames\": "@)
            &&& text_at(b, 38, list_block(m.usernames))
            &&& text_at(b, 38 + u, ",\n    \"passwords\": "@)
            &&& text_at(b, 57 + u, map_block(m.passwords))
            &&& text_at(b, 57 + u + pw, ",\n    \"removed_presets\": "@)
            &&& text_at(b, 82 + u + pw, list_block(m.removed_presets))
            &&& text_at(b, 82 + u + pw + r, "\n  },\n  \"app_paths\": {\n    \"vscode\": "@)
            &&& text_at(b, 119 + u + pw + r, nullable_text(m.vscode))
            &&& text_at(b, 119 + u + pw + r + a, ",\n    \"mobaxterm\": "@)
            &&& text_at(b, 138 + u + pw + r + a, nullable_text(m.mobaxterm))
            &&& text_at(b, 138 + u + pw + r + a + mo, ",\n    \"vncviewer\": "@)
            &&& text_at(b, 157 + u + pw + r + a + mo, nullable_text(m.vncviewer))
            &&& text_at(b, 157 + u + pw + r + a + mo + vn, ",\n    \"rustdesk\": "@)
            &&& text_at(b, 175 + u + pw + r + a + mo + vn, nullable_text(m.rustdesk))
            &&& text_at(b, 175 + u + pw + r + a + mo + vn + rd, "\n  }\n}\n"@)
        }),
{
    let b = bytes_of(config_json(m));
    reveal_strlit("{\n  \"credentials\": {\n    \"usernames\": ");
    reveal_strlit(",\n    \"passwords\": ");
    reveal_strlit(",\n    \"removed_presets\": ");
    reveal_strlit("\n  },\n  \"app_paths\": {\n    \"vscode\": ");
    reveal_strlit(",\n    \"mobaxterm\": ");
    reveal_strlit(",\n    \"vncviewer\": ");
    reveal_strlit(",\n    \"rustdesk\": ");
    reveal_strlit("\n  }\n}\n");
    let t1 = "{\n  \"credentials\": {\n    \"usernames\": "@;
    let t2 = t1 + list_block(m.usernames);
    let t3 = t2 + ",\n    \"passwords\": "@;
    let t4 = t3 + map_block(m.passwords);
    let t5 = t4 + ",\n    \"removed_presets\": "@;
    let t6 = t5 + list_block(m.removed_presets);
    let t7 = t6 + "\n  },\n  \"app_paths\": {\n    \"vscode\": "@;
    let t8 = t7 + nullable_text(m.vscode);
    let t9 = t8 + ",\n    \"mobaxterm\": "@;
    let t10 = t9 + nullable_text(m.mobaxterm);
    let t11 = t10 + ",\n    \"vncviewer\": "@;
    let t12 = t11 + nullable_text(m.vncviewer);
    let t13 = t12 + ",\n    \"rustdesk\": "@;
    let t14 = t13 + nullable_text(m.rustdesk);
    let t15 = t14 + "\n  }\n}\n"@;
    assert(config_json(m) == t15);
    assert(text_at(b, 0, t15)) by {
        assert(b.subrange(0, b.len() as int) =~= b);
    }
    lemma_text_at_split(b, 0, t14, "\n  }\n}\n"@);
    lemma_text_at_split(b, 0, t13, nullable_text(m.rustdesk));
    lemma_text_at_split(b, 0, t12, ",\n    \"rustdesk\": "@);
    lemma_text_at_split(b, 0, t11, nullable_text(m.vncviewer));
    lemma_text_at_split(b, 0, t10, ",\n    \"vncviewer\": "@);
    lemma_text_at_split(b, 0, t9, nullable_text(m.mobaxterm));
    lemma_text_at_split(b, 0, t8, ",\n    \"mobaxterm\": "@);
    lemma_text_at_split(b, 0, t7, nullable_text(m.vscode));
    lemma_text_at_split(b, 0, t6, "\n  },\n  \"app_paths\": {\n    \"vscode\": "@);
    lemma_text_at_split(b, 0, t5, list_block(m.removed_presets));
    lemma_text_at_split(b, 0, t4, ",\n    \"removed_presets\": "@);
    lemma_text_at_split(b, 0, t3, map_block(m.passwords));
    lemma_text_at_split(b, 0, t2, ",\n    \"passwords\": "@);
    lemma_text_at_split(b, 0, t1, list_block(m.usernames));
}

/// The written literal pieces, each as the keys and punctuation it is made of.
proof fn lemma_literal_parts()
    ensures
        "{\n  \"credentials\": {\n    \"usernames\": "@ == seq!['{'] + "\n  "@ + (quoted(
            "credentials"@,
        ) + ": "@) + (seq!['{'] + "\n    "@) + (quoted("usernames"@) + ": "@),
        ",\n    \"passwords\": "@ == seq![','] + "\n    "@ + (quoted("passwords"@) + ": "@),
        ",\n    \"removed_presets\": "@ == seq![','] + "\n    "@ + (quoted("removed_presets"@)
            + ": "@),
        "\n  },\n  \"app_paths\": {\n    \"vscode\": "@ == "\n  "@ + seq!['}'] + (seq![',']
            + "\n  "@) + (quoted("app_paths"@) + ": "@) + (seq!['{'] + "\n    "@) + (quoted(
            "vscode"@,
        ) + ": "@),
        ",\n    \"mobaxterm\": "@ == seq![','] + "\n    "@ + (quoted("mobaxterm"@) + ": "@),
        ",\n    \"vncviewer\": "@ == seq![','] + "\n    "@ + (quoted("vncviewer"@) + ": "@),
        ",\n    \"rustdesk\": "@ == seq![','] + "\n    "@ + (quoted("rustdesk"@) + ": "@),
        "\n  }\n}\n"@ == "\n  "@ + seq!['}'] + ("\n"@ + seq!['}']) + "\n"@,
{
    lemma_key_names();
    reveal_strlit("{\n  \"credentials\": {\n    \"usernames\": ");
    reveal_strlit(",\n    \"passwords\": ");
    reveal_strlit(",\n    \"removed_presets\": ");
    reveal_strlit("\n  },\n  \"app_paths\": {\n    \"vscode\": ");
    reveal_strlit(",\n    \"mobaxterm\": ");
    reveal_strlit(",\n    \"vncviewer\": ");
    reveal_strlit(",\n    \"rustdesk\": ");
    reveal_strlit("\n  }\n}\n");
    reveal_strlit("credentials");
    reveal_strlit("usernames");
    reveal_strlit("passwords");
    reveal_strlit("removed_presets");
    reveal_strlit("app_paths");
    reveal_strlit("vscode");
    reveal_strlit("mobaxterm");
    reveal_strlit("vncviewer");
    reveal_strlit("rustdesk");
    reveal_strlit("\n  ");
    reveal_strlit("\n    ");
    reveal_strlit("\n");
    reveal_strlit(": ");
    assert("{\n  \"credentials\": {\n    \"usernames\": "@ =~= seq!['{'] + "\n  "@ + (quoted(
        "credentials"@,
    ) + ": "@) + (seq!['{'] + "\n    "@) + (quoted("usernames"@) + ": "@));
    assert(",\n    \"passwords\": "@ =~= seq![','] + "\n    "@ + (quoted("passwords"@) + ": "@));
    assert(",\n    \"removed_presets\": "@ =~= seq![','] + "\n    "@ + (quoted(
        "removed_presets"@,
    ) + ": "@));
    assert("\n  },\n  \"app_paths\": {\n    \"vscode\": "@ =~= "\n  "@ + seq!['}'] + (seq![
        ',',
    ] + "\n  "@) + (quoted("app_paths"@) + ": "@) + (seq!['{'] + "\n    "@) + (quoted("vscode"@)
        + ": "@));
    assert(",\n    \"mobaxterm\": "@ =~= seq![','] + "\n    "@ + (quoted("mobaxterm"@) + ": "@));
    assert(",\n    \"vncviewer\": "@ =~= seq![','] + "\n    "@ + (quoted("vncviewer"@) + ": "@));
    assert(",\n    \"rustdesk\": "@ =~= seq![','] + "\n    "@ + (quoted("rustdesk"@) + ": "@));
    assert("\n  }\n}\n"@ =~= "\n  "@ + seq!['}'] + ("\n"@ + seq!['}']) + "\n"@);
}

/// The JSON document that the configuration file holds.
pub open spec fn config_doc(m: ConfigModel) -> Json {
    Json::Obj(
        seq![("credentials"@, Json::Obj(cred_members(m))), ("app_paths"@, Json::Obj(path_members(m)))],
    )
}

/// The places of the keys and punctuation inside the configuration text.
#[verifier::rlimit(40)]
proof fn lemma_config_places(m: ConfigModel)
    ensures
        ({
            let b = bytes_of(config_json(m));
            let x: int = list_block(m.usernames).len() + map_block(m.passwords).len() + list_block(
                m.removed_presets,
            ).len() as int;
            let u: int = list_block(m.usernames).len() as int;
            let pw: int = map_block(m.passwords).len() as int;
            let a: int = nullable_text(m.vscode).len() as int;
            let mo: int = nullable_text(m.mobaxterm).len() as int;
            let vn: int = nullable_text(m.vncviewer).len() as int;
            let y: int = a + mo + vn + nullable_text(m.rustdesk).len();
            &&& b.len() == 182 + x + y
            &&& text_at(b, 0, seq!['{'] + "\n  "@)
            &&& text_at(b, 4, quoted("credentials"@) + ": "@)
            &&& text_at(b, 19, seq!['{'] + "\n    "@)
            &&& text_at(b, 25, quoted("usernames"@) + ": "@)
            &&& text_at(b, 38, list_block(m.usernames))
            &&& text_at(b, 38 + u, seq![','] + "\n    "@)
            &&& text_at(b, 44 + u, quoted("passwords"@) + ": "@)
            &&& text_at(b, 57 + u, map_block(m.passwords))
            &&& text_at(b, 57 + u + pw, seq![','] + "\n    "@)
            &&& text_at(b, 63 + u + pw, quoted("removed_presets"@) + ": "@)
            &&& text_at(b, 82 + u + pw, list_block(m.removed_presets))
            &&& text_at(b, 82 + x, "\n  "@ + seq!['}'])
            &&& text_at(b, 86 + x, seq![','] + "\n  "@)
            &&& text_at(b, 90 + x, quoted("app_paths"@) + ": "@)
            &&& text_at(b, 103 + x, seq!['{'] + "\n    "@)
            &&& text_at(b, 109 + x, quoted("vscode"@) + ": "@)
            &&& text_at(b, 119 + x, nullable_text(m.vscode))
            &&& text_at(b, 119 + x + a, seq![','] + "\n    "@)
            &&& text_at(b, 125 + x + a, quoted("mobaxterm"@) + ": "@)
            &&& text_at(b, 138 + x + a, nullable_text(m.mobaxterm))
            &&& text_at(b, 138 + x + a + mo, seq![','] + "\n    "@)
            &&& text_at(b, 144 + x + a + mo, quoted("vncviewer"@) + ": "@)
            &&& text_at(b, 157 + x + a + mo, nullable_text(m.vncviewer))
            &&& text_at(b, 157 + x + a + mo + vn, seq![','] + "\n    "@)
            &&& text_at(b, 163 + x + a + mo + vn, quoted("rustdesk"@) + ": "@)
            &&& text_at(b, 175 + x + a + mo + vn, nullable_text(m.rustdesk))
            &&& text_at(b, 175 + x + y, "\n  "@ + seq!['}'])
            &&& text_at(b, 179 + x + y, "\n"@ + seq!['}'])
            &&& text_at(b, 181 + x + y, "\n"@)
        }),
{
    let b = bytes_of(config_json(m));
    let u: int = list_block(m.usernames).len() as int;
    let pw: int = map_block(m.passwords).len() as int;
    let r: int = list_block(m.removed_presets).len() as int;
    let x: int = u + pw + r;
    let a: int = nullable_text(m.vscode).len() as int;
    let mo: int = nullable_text(m.mobaxterm).len() as int;
    let vn: int = nullable_text(m.vncviewer).len() as int;
    let rd: int = nullable_text(m.rustdesk).len() as int;
    let y: int = a + mo + vn + rd;
    lemma_config_pieces(m);
    lemma_literal_parts();
    lemma_key_names();
    reveal_strlit(": ");
    let h1 = seq!['{'] + "\n  "@;
    let h2 = quoted("credentials"@) + ": "@;
    let h3 = seq!['{'] + "\n    "@;
    let h4 = quoted("usernames"@) + ": "@;
    lemma_text_at_split(b, 0, h1 + h2 + h3, h4);
    lemma_text_at_split(b, 0, h1 + h2, h3);
    lemma_text_at_split(b, 0, h1, h2);
    lemma_sep_key(b, 38 + u, "passwords"@);
    lemma_sep_key(b, 57 + u + pw, "removed_presets"@);
    let d1 = "\n  "@ + seq!['}'];
    let d2 = seq![','] + "\n  "@;
    let d3 = quoted("app_paths"@) + ": "@;
    let d4 = seq!['{'] + "\n    "@;
    let d5 = quoted("vscode"@) + ": "@;
    lemma_text_at_split(b, 82 + x, d1 + d2 + d3 + d4, d5);
    lemma_text_at_split(b, 82 + x, d1 + d2 + d3, d4);
    lemma_text_at_split(b, 82 + x, d1 + d2, d3);
    lemma_text_at_split(b, 82 + x, d1, d2);
    lemma_sep_key(b, 119 + x + a, "mobaxterm"@);
    lemma_sep_key(b, 138 + x + a + mo, "vncviewer"@);
    lemma_sep_key(b, 157 + x + a + mo + vn, "rustdesk"@);
    lemma_text_at_split(b, 175 + x + y, "\n  "@ + seq!['}'] + ("\n"@ + seq!['}']), "\n"@);
    lemma_text_at_split(b, 175 + x + y, "\n  "@ + seq!['}'], "\n"@ + seq!['}']);
}

/// The pieces of the `credentials` object, each at its place from `i` on.
pub open spec fn cred_placed(b: Seq<u8>, i: int, m: ConfigModel) -> bool {
    let u: int = list_block(m.usernames).len() as int;
    let pw: int = map_block(m.passwords).len() as int;
    let r: int = list_block(m.removed_presets).len() as int;
    &&& text_at(b, i, seq!['{'] + "\n    "@)
    &&& text_at(b, i + 6, quoted("usernames"@) + ": "@)
    &&& text_at(b, i + 19, list_block(m.usernames))
    &&& text_at(b, i + 19 + u, seq![','] + "\n    "@)
    &&& text_at(b, i + 25 + u, quoted("passwords"@) + ": "@)
    &&& text_at(b, i + 38 + u, map_block(m.passwords))
    &&& text_at(b, i + 38 + u + pw, seq![','] + "\n    "@)
    &&& text_at(b, i + 44 + u + pw, quoted("removed_presets"@) + ": "@)
    &&& text_at(b, i + 63 + u + pw, list_block(m.removed_presets))
    &&& text_at(b, i + 63 + u + pw + r, "\n  "@ + seq!['}'])
}

/// The pieces of the `app_paths` object, each at its place from `i` on.
pub open spec fn paths_placed(b: Seq<u8>, i: int, m: ConfigModel) -> bool {
    let a: int = nullable_text(m.vscode).len() as int;
    let mo: int = nullable_text(m.mobaxterm).len() as int;
    let vn: int = nullable_text(m.vncviewer).len() as int;
    let rd: int = nullable_text(m.rustdesk).len() as int;
    &&& text_at(b, i, seq!['{'] + "\n    "@)
    &&& text_at(b, i + 6, quoted("vscode"@) + ": "@)
    &&& text_at(b, i + 16, nullable_text(m.vscode))
    &&& text_at(b, i + 16 + a, seq![','] + "\n    "@)
    &&& text_at(b, i + 22 + a, quoted("mobaxterm"@) + ": "@)
    &&& text_at(b, i + 35 + a, nullable_text(m.mobaxterm))
    &&& text_at(b, i + 35 + a + mo, seq![','] + "\n    "@)
    &&& text_at(b, i + 41 + a + mo, quoted("vncviewer"@) + ": "@)
    &&& text_at(b, i + 54 + a + mo, nullable_text(m.vncviewer))
    &&& text_at(b, i + 54 + a + mo + vn, seq![','] + "\n    "@)
    &&& text_at(b, i + 60 + a + mo + vn, quoted("rustdesk"@) + ": "@)
    &&& text_at(b, i + 72 + a + mo + vn, nullable_text(m.rustdesk))
    &&& text_at(b, i + 72 + a + mo + vn + rd, "\n  "@ + seq!['}'])
}

/// The root object up to its `app_paths` member.
proof fn lemma_root_credentials(b: Seq<u8>, m: ConfigModel, x: int)
    requires
        model_writable(m),
        crate::store::keys_increasing(m.passwords),
        x == list_block(m.usernames).len() + map_block(m.passwords).len() + list_block(
            m.removed_presets,
        ).len(),
        text_at(b, 0, seq!['{'] + "\n  "@),
        text_at(b, 4, quoted("credentials"@) + ": "@),
        cred_placed(b, 19, m),
        text_at(b, 86 + x, seq![','] + "\n  "@),
        text_at(b, 90 + x, quoted("app_paths"@) + ": "@),
    ensures
        parse_value(b, 0) == crate::json::parse_members(
            b,
            87 + x,
            seq![("credentials"@, Json::Obj(cred_members(m)))],
        ),
        skip_ws(b, 87 + x) == 90 + x,
{
    lemma_key_names();
    lemma_key_start(b, 4, "credentials"@);
    lemma_object_open(b, 0, "\n  "@);
    lemma_parse_credentials(b, 19, m);
    lemma_key_start(b, 90 + x, "app_paths"@);
    lemma_member_comma(
        b,
        4,
        "credentials"@,
        Json::Obj(cred_members(m)),
        86 + x,
        "\n  "@,
        Seq::empty(),
    );
    lemma_put_fresh(Seq::empty(), "credentials"@, Json::Obj(cred_members(m)));
    assert(Seq::<(Seq<char>, Json)>::empty().push(("credentials"@, Json::Obj(cred_members(m))))
        =~= seq![("credentials"@, Json::Obj(cred_members(m)))]);
}

/// The `app_paths` member that closes the root object.
proof fn lemma_root_app_paths(b: Seq<u8>, m: ConfigModel, x: int, y: int)
    requires
        model_writable(m),
        0 <= 87 + x <= b.len(),
        y == nullable_text(m.vscode).len() + nullable_text(m.mobaxterm).len()
            + nullable_text(m.vncviewer).len() + nullable_text(m.rustdesk).len(),
        skip_ws(b, 87 + x) == 90 + x,
        text_at(b, 90 + x, quoted("app_paths"@) + ": "@),
        paths_placed(b, 103 + x, m),
        text_at(b, 179 + x + y, "\n"@ + seq!['}']),
    ensures
        crate::json::parse_members(
            b,
            87 + x,
            seq![("credentials"@, Json::Obj(cred_members(m)))],
        ) == Some((config_doc(m), 181 + x + y)),
{
    lemma_key_names();
    let r1 = seq![("credentials"@, Json::Obj(cred_members(m)))];
    lemma_parse_app_paths(b, 103 + x, m);
    lemma_member_close(b, 87 + x, "app_paths"@, Json::Obj(path_members(m)), 179 + x + y, "\n"@, r1);
    assert forall|k: int| 0 <= k < r1.len() implies #[trigger] r1[k].0 != "app_paths"@ by {
        assert(r1[k].0 == "credentials"@);
    }
    lemma_put_fresh(r1, "app_paths"@, Json::Obj(path_members(m)));
    assert(r1.push(("app_paths"@, Json::Obj(path_members(m)))) =~= seq![
        ("credentials"@, Json::Obj(cred_members(m))),
        ("app_paths"@, Json::Obj(path_members(m))),
    ]);
}

/// The layout of the configuration text: the root keys and the two objects, each at its place.
#[verifier::spinoff_prover]
#[verifier::rlimit(40)]
proof fn lemma_config_layout(m: ConfigModel)
    ensures
        ({
            let b = bytes_of(config_json(m));
            let x: int = list_block(m.usernames).len() + map_block(m.passwords).len() + list_block(
                m.removed_presets,
            ).len() as int;
            let y: int = nullable_text(m.vscode).len() + nullable_text(m.mobaxterm).len()
                + nullable_text(m.vncviewer).len() + nullable_text(m.rustdesk).len() as int;
            &&& b.len() == 182 + x + y
            &&& text_at(b, 0, seq!['{'] + "\n  "@)
            &&& text_at(b, 4, quoted("credentials"@) + ": "@)
            &&& cred_placed(b, 19, m)
            &&& text_at(b, 86 + x, seq![','] + "\n  "@)
            &&& text_at(b, 90 + x, quoted("app_paths"@) + ": "@)
            &&& paths_placed(b, 103 + x, m)
            &&& text_at(b, 179 + x + y, "\n"@ + seq!['}'])
            &&& text_at(b, 181 + x + y, "\n"@)
        }),
{
    lemma_config_places(m);
}

/// The text of a configuration reads back as its JSON document.
#[verifier::spinoff_prover]
proof fn lemma_parse_config_text(m: ConfigModel)
    requires
        model_writable(m),
        crate::store::keys_increasing(m.passwords),
    ensures
        crate::json::parse_document(bytes_of(config_json(m))) == Some(config_doc(m)),
{
    let b = bytes_of(config_json(m));
    let x: int = list_block(m.usernames).len() + map_block(m.passwords).len() + list_block(
        m.removed_presets,
    ).len() as int;
    let y: int = nullable_text(m.vscode).len() + nullable_text(m.mobaxterm).len()
        + nullable_text(m.vncviewer).len() + nullable_text(m.rustdesk).len() as int;
    lemma_config_layout(m);
    lemma_root_credentials(b, m, x);
    lemma_root_app_paths(b, m, x, y);
    lemma_key_names();
    lemma_skip_written_ws(b, 181 + x + y, "\n"@);
}

/// Names strictly increasing: sorted, each once.
pub open spec fn names_increasing(l: Seq<Seq<char>>) -> bool {
    forall|i: int, j: int| 0 <= i < j < l.len() ==> crate::strsort::lex_lt(#[trigger] l[i], #[trigger] l[j])
}

/// A configuration in the form that reading leaves it in: user names sorted and each once,
/// passwords keyed in increasing order, hidden presets sorted, each once and preset names only.
pub open spec fn stored_form(m: ConfigModel) -> bool {
    &&& names_increasing(m.usernames)
    &&& crate::store::keys_increasing(m.passwords)
    &&& names_increasing(m.removed_presets)
    &&& forall|i: int| 0 <= i < m.removed_presets.len() ==> crate::credential::is_preset(
        #[trigger] m.removed_presets[i],
    )
}

proof fn lemma_strings_of_values(l: Seq<Seq<char>>)
    ensures
        crate::config_file::strings_of(str_values(l)) == Some(l),
    decreases l.len(),
{
    if l.len() > 0 {
        lemma_strings_of_values(l.drop_last());
        assert(str_values(l).drop_last() =~= str_values(l.drop_last()));
        assert(l.drop_last().push(l.last()) =~= l);
    } else {
        assert(str_values(l) =~= Seq::<Json>::empty());
        assert(l =~= Seq::<Seq<char>>::empty());
    }
}

proof fn lemma_string_map_members(m: Seq<(Seq<char>, Seq<char>)>)
    requires
        crate::store::keys_increasing(m),
    ensures
        crate::config_file::string_map(str_members(m)) == Some(m),
    decreases m.len(),
{
    if m.len() > 0 {
        let t = m.drop_last();
        assert(crate::store::keys_increasing(t)) by {
            assert forall|i: int, j: int| 0 <= i < j < t.len() implies crate::strsort::lex_lt(
                t[i].0,
                t[j].0,
            ) by {
                assert(t[i] == m[i] && t[j] == m[j]);
            }
        }
        lemma_string_map_members(t);
        assert(str_members(m).drop_last() =~= str_members(t));
        assert forall|i: int| 0 <= i < t.len() implies crate::strsort::lex_lt(
            #[trigger] t[i].0,
            m.last().0,
        ) by {
            assert(t[i] == m[i]);
        }
        crate::store::lemma_map_insert_last(t, m.last().0, m.last().1);
        assert(t.push((m.last().0, m.last().1)) =~= m);
    } else {
        assert(str_members(m) =~= Seq::<(Seq<char>, Json)>::empty());
        assert(m =~= Seq::<(Seq<char>, Seq<char>)>::empty());
    }
}

/// An array of written names reads back as the names, when they are sorted and each once.
proof fn lemma_string_list_values(l: Seq<Seq<char>>)
    requires
        names_increasing(l),
    ensures
        crate::config_file::string_list(Json::Arr(str_values(l))) == Some(l),
{
    lemma_strings_of_values(l);
    crate::strsort::lemma_increasing_fixed(l);
}

/// The JSON document of a configuration in stored form describes that configuration.
proof fn lemma_config_from_doc(m: ConfigModel)
    requires
        stored_form(m),
    ensures
        crate::config_file::config_from_json(config_doc(m)) == Some(m),
{
    lemma_key_names();
    let root = seq![("credentials"@, Json::Obj(cred_members(m))), ("app_paths"@, Json::Obj(path_members(m)))];
    let cred = cred_members(m);
    let paths = path_members(m);
    crate::json::lemma_key_index_at(root, "credentials"@, 0);
    crate::json::lemma_key_index_at(root, "app_paths"@, 1);
    crate::json::lemma_key_index_at(cred, "usernames"@, 0);
    crate::json::lemma_key_index_at(cred, "passwords"@, 1);
    crate::json::lemma_key_index_at(cred, "removed_presets"@, 2);
    crate::json::lemma_key_index_at(paths, "vscode"@, 0);
    crate::json::lemma_key_index_at(paths, "mobaxterm"@, 1);
    crate::json::lemma_key_index_at(paths, "vncviewer"@, 2);
    crate::json::lemma_key_index_at(paths, "rustdesk"@, 3);
    lemma_string_list_values(m.usernames);
    lemma_string_list_values(m.removed_presets);
    lemma_string_map_members(m.passwords);
    crate::store::lemma_keep_all_presets(m.removed_presets);
    crate::strsort::lemma_increasing_fixed(m.removed_presets);
}

proof fn lemma_ascii_concat(a: Seq<char>, b: Seq<char>)
    requires
        vstd::utf8::is_ascii_chars(a),
        vstd::utf8::is_ascii_chars(b),
    ensures
        vstd::utf8::is_ascii_chars(a + b),
{
    assert forall|i: int| 0 <= i < (a + b).len() implies '\0' <= #[trigger] (a + b)[i] <= '\u{7f}' by {
        if i < a.len() {
            assert((a + b)[i] == a[i]);
        } else {
            assert((a + b)[i] == b[i - a.len()]);
        }
    }
}

proof fn lemma_escape_char_ascii(c: char)
    requires
        (c as u32) < 0xA0,
    ensures
        vstd::utf8::is_ascii_chars(escape_char(c)),
{
    let e = escape_char(c);
    if is_control(c) && !(c == '"' || c == '\\' || c == '\n' || c == '\r' || c == '\t' || c
        == '\u{08}' || c == '\u{0C}') {
        let v = c as u32;
        assert(e.len() == 6);
        assert forall|i: int| 0 <= i < 6 implies '\0' <= #[trigger] e[i] <= '\u{7f}' by {
            if i >= 2 {
                let n = if i == 2 {
                    (v / 4096) % 16
                } else if i == 3 {
                    (v / 256) % 16
                } else if i == 4 {
                    (v / 16) % 16
                } else {
                    v % 16
                };
                assert(e[i] == hex_char(n));
                assert(n < 16);
            }
        }
    }
}

/// A writable text is written in ASCII.
proof fn lemma_escape_ascii(s: Seq<char>)
    requires
        writable(s),
    ensures
        vstd::utf8::is_ascii_chars(escape_json(s)),
        vstd::utf8::is_ascii_chars(quoted(s)),
    decreases s.len(),
{
    if s.len() > 0 {
        let t = s.drop_last();
        assert forall|k: int| 0 <= k < t.len() implies (#[trigger] t[k] as u32) < 0xA0 by {
            assert(t[k] == s[k]);
        }
        lemma_escape_ascii(t);
        assert((s[s.len() - 1] as u32) < 0xA0);
        lemma_escape_char_ascii(s.last());
        lemma_ascii_concat(escape_json(t), escape_char(s.last()));
    }
    lemma_ascii_concat(seq!['"'], escape_json(s));
    lemma_ascii_concat(seq!['"'] + escape_json(s), seq!['"']);
}

proof fn lemma_join_ascii(parts: Seq<Seq<char>>, sep: Seq<char>)
    requires
        forall|k: int| 0 <= k < parts.len() ==> vstd::utf8::is_ascii_chars(#[trigger] parts[k]),
        vstd::utf8::is_ascii_chars(sep),
    ensures
        vstd::utf8::is_ascii_chars(crate::text::join(parts, sep)),
    decreases parts.len(),
{
    if parts.len() == 1 {
        assert(vstd::utf8::is_ascii_chars(parts[0]));
    } else if parts.len() > 1 {
        let t = parts.drop_last();
        assert forall|k: int| 0 <= k < t.len() implies vstd::utf8::is_ascii_chars(#[trigger] t[k]) by {
            assert(t[k] == parts[k]);
        }
        lemma_join_ascii(t, sep);
        assert(vstd::utf8::is_ascii_chars(parts[parts.len() - 1]));
        lemma_ascii_concat(crate::text::join(t, sep), sep);
        lemma_ascii_concat(crate::text::join(t, sep) + sep, parts.last());
    }
}

/// The fixed pieces of the configuration text are ASCII.
proof fn lemma_literals_ascii()
    ensures
        vstd::utf8::is_ascii_chars("[]"@),
        vstd::utf8::is_ascii_chars("[\n"@),
        vstd::utf8::is_ascii_chars("      "@),
        vstd::utf8::is_ascii_chars(",\n"@),
        vstd::utf8::is_ascii_chars("\n    ]"@),
        vstd::utf8::is_ascii_chars("{}"@),
        vstd::utf8::is_ascii_chars("{\n"@),
        vstd::utf8::is_ascii_chars(": "@),
        vstd::utf8::is_ascii_chars("\n    }"@),
        vstd::utf8::is_ascii_chars("null"@),
        vstd::utf8::is_ascii_chars("{\n  \"credentials\": {\n    \"usernames\": "@),
        vstd::utf8::is_ascii_chars(",\n    \"passwords\": "@),
        vstd::utf8::is_ascii_chars(",\n    \"removed_presets\": "@),
        vstd::utf8::is_ascii_chars("\n  },\n  \"app_paths\": {\n    \"vscode\": "@),
        vstd::utf8::is_ascii_chars(",\n    \"mobaxterm\": "@),
        vstd::utf8::is_ascii_chars(",\n    \"vncviewer\": "@),
        vstd::utf8::is_ascii_chars(",\n    \"rustdesk\": "@),
        vstd::utf8::is_ascii_chars("\n  }\n}\n"@),
{
    reveal_strlit("[]");
    reveal_strlit("[\n");
    reveal_strlit("      ");
    reveal_strlit(",\n");
    reveal_strlit("\n    ]");
    reveal_strlit("{}");
    reveal_strlit("{\n");
    reveal_strlit(": ");
    reveal_strlit("\n    }");
    reveal_strlit("null");
    reveal_strlit("{\n  \"credentials\": {\n    \"usernames\": ");
    reveal_strlit(",\n    \"passwords\": ");
    reveal_strlit(",\n    \"removed_presets\": ");
    reveal_strlit("\n  },\n  \"app_paths\": {\n    \"vscode\": ");
    reveal_strlit(",\n    \"mobaxterm\": ");
    reveal_strlit(",\n    \"vncviewer\": ");
    reveal_strlit(",\n    \"rustdesk\": ");
    reveal_strlit("\n  }\n}\n");
}

proof fn lemma_list_block_ascii(l: Seq<Seq<char>>)
    requires
        all_writable(l),
    ensures
        vstd::utf8::is_ascii_chars(list_block(l)),
{
    lemma_literals_ascii();
    if l.len() > 0 {
        let items = l.map_values(|s: Seq<char>| "      "@ + quoted(s));
        assert forall|k: int| 0 <= k < items.len() implies vstd::utf8::is_ascii_chars(
            #[trigger] items[k],
        ) by {
            assert(writable(l[k]));
            lemma_escape_ascii(l[k]);
            lemma_ascii_concat("      "@, quoted(l[k]));
        }
        lemma_join_ascii(items, ",\n"@);
        lemma_ascii_concat("[\n"@, crate::text::join(items, ",\n"@));
        lemma_ascii_concat("[\n"@ + crate::text::join(items, ",\n"@), "\n    ]"@);
    }
}

proof fn lemma_map_block_ascii(m: Seq<(Seq<char>, Seq<char>)>)
    requires
        map_writable(m),
    ensures
        vstd::utf8::is_ascii_chars(map_block(m)),
{
    lemma_literals_ascii();
    if m.len() > 0 {
        let items = m.map_values(
            |p: (Seq<char>, Seq<char>)| "      "@ + quoted(p.0) + ": "@ + quoted(p.1),
        );
        assert forall|k: int| 0 <= k < items.len() implies vstd::utf8::is_ascii_chars(
            #[trigger] items[k],
        ) by {
            assert(writable(m[k].0) && writable(m[k].1));
            lemma_escape_ascii(m[k].0);
            lemma_escape_ascii(m[k].1);
            lemma_ascii_concat("      "@, quoted(m[k].0));
            lemma_ascii_concat("      "@ + quoted(m[k].0), ": "@);
            lemma_ascii_concat("      "@ + quoted(m[k].0) + ": "@, quoted(m[k].1));
        }
        lemma_join_ascii(items, ",\n"@);
        lemma_ascii_concat("{\n"@, crate::text::join(items, ",\n"@));
        lemma_ascii_concat("{\n"@ + crate::text::join(items, ",\n"@), "\n    }"@);
    }
}

proof fn lemma_nullable_ascii(o: Option<Seq<char>>)
    requires
        nullable_writable(o),
    ensures
        vstd::utf8::is_ascii_chars(nullable_text(o)),
{
    lemma_literals_ascii();
    if let Some(s) = o {
        lemma_escape_ascii(s);
    }
}

/// The text of a configuration whose texts are writable is ASCII.
#[verifier::rlimit(30)]
proof fn lemma_config_ascii(m: ConfigModel)
    requires
        model_writable(m),
    ensures
        vstd::utf8::is_ascii_chars(config_json(m)),
{
    lemma_literals_ascii();
    lemma_list_block_ascii(m.usernames);
    lemma_map_block_ascii(m.passwords);
    lemma_list_block_ascii(m.removed_presets);
    lemma_nullable_ascii(m.vscode);
    lemma_nullable_ascii(m.mobaxterm);
    lemma_nullable_ascii(m.vncviewer);
    lemma_nullable_ascii(m.rustdesk);
    let t1 = "{\n  \"credentials\": {\n    \"usernames\": "@;
    let t2 = t1 + list_block(m.usernames);
    let t3 = t2 + ",\n    \"passwords\": "@;
    let t4 = t3 + map_block(m.passwords);
    let t5 = t4 + ",\n    \"removed_presets\": "@;
    let t6 = t5 + list_block(m.removed_presets);
    let t7 = t6 + "\n  },\n  \"app_paths\": {\n    \"vscode\": "@;
    let t8 = t7 + nullable_text(m.vscode);
    let t9 = t8 + ",\n    \"mobaxterm\": "@;
    let t10 = t9 + nullable_text(m.mobaxterm);
    let t11 = t10 + ",\n    \"vncviewer\": "@;
    let t12 = t11 + nullable_text(m.vncviewer);
    let t13 = t12 + ",\n    \"rustdesk\": "@;
    let t14 = t13 + nullable_text(m.rustdesk);
    lemma_ascii_concat(t1, list_block(m.usernames));
    lemma_ascii_concat(t2, ",\n    \"passwords\": "@);
    lemma_ascii_concat(t3, map_block(m.passwords));
    lemma_ascii_concat(t4, ",\n    \"removed_presets\": "@);
    lemma_ascii_concat(t5, list_block(m.removed_presets));
    lemma_ascii_concat(t6, "\n  },\n  \"app_paths\": {\n    \"vscode\": "@);
    lemma_ascii_concat(t7, nullable_text(m.vscode));
    lemma_ascii_concat(t8, ",\n    \"mobaxterm\": "@);
    lemma_ascii_concat(t9, nullable_text(m.mobaxterm));
    lemma_ascii_concat(t10, ",\n    \"vncviewer\": "@);
    lemma_ascii_concat(t11, nullable_text(m.vncviewer));
    lemma_ascii_concat(t12, ",\n    \"rustdesk\": "@);
    lemma_ascii_concat(t13, nullable_text(m.rustdesk));
    lemma_ascii_concat(t14, "\n  }\n}\n"@);
}

/// Writing a configuration and reading the file back gives the same configuration. This holds
/// for every configuration in the form that reading leaves it in (user names sorted and each
/// once, passwords keyed in increasing order, hidden presets sorted, each once and preset names
/// only), whose texts hold no character from U+00A0 on: the reader takes each byte of the file
/// that is not part of an escape for the character with that number.
pub proof fn lemma_config_round_trip(m: ConfigModel)
    requires
        stored_form(m),
        model_writable(m),
    ensures
        crate::config_file::parse_config(vstd::utf8::encode_utf8(config_json(m))) == Some(m),
{
    let t = config_json(m);
    lemma_config_ascii(m);
    vstd::utf8::is_ascii_chars_encode_utf8(t);
    assert(vstd::utf8::encode_utf8(t) =~= bytes_of(t));
    lemma_parse_config_text(m);
    lemma_config_from_doc(m);
}

} // verus!
