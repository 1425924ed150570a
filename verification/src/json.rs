//! The JSON documents this crate exchanges with its backends.
//!
//! `Json` is the executable document; its view is the mathematical
//! `JsonModel`.  `render_model` is the exact definition of the wire text of
//! a model, and `render_to` produces exactly that text.
use vstd::prelude::*;
use vstd::string::StrSliceExecFns;
use vstd::string::StringExecFns;

pub mod parse;

verus! {

/// A JSON document as this crate builds and reads it.  A number is carried
/// as its wire lexeme (for instance `1024` or `0.63`), so integer and
/// fractional values share one exact representation.
#[derive(Debug)]
pub enum Json {
    Null,
    Bool(bool),
    Num(String),
    Str(String),
    Arr(Vec<Json>),
    Obj(Vec<(String, Json)>),
}

/// The mathematical shape of a JSON document: what `Json` means.
#[verifier::ext_equal]
pub enum JsonModel {
    Null,
    Bool(bool),
    Num(Seq<char>),
    Str(Seq<char>),
    Arr(Seq<JsonModel>),
    Obj(Seq<(Seq<char>, JsonModel)>),
}

/// The models of the first `i` elements of an array, in order.
pub open spec fn model_items(items: Seq<Json>, i: int) -> Seq<JsonModel>
    decreases items, i,
    when 0 <= i <= items.len()
{
    if i <= 0 {
        Seq::empty()
    } else {
        model_items(items, i - 1).push(json_model(items[i - 1]))
    }
}

/// The models of the first `i` members of an object, in order.
pub open spec fn model_members(members: Seq<(String, Json)>, i: int) -> Seq<
    (Seq<char>, JsonModel),
>
    decreases members, i,
    when 0 <= i <= members.len()
{
    if i <= 0 {
        Seq::empty()
    } else {
        model_members(members, i - 1).push((members[i - 1].0@, json_model(members[i - 1].1)))
    }
}

/// The model of a document.
pub open spec fn json_model(v: Json) -> JsonModel
    decreases v, 0int,
{
    match v {
        Json::Null => JsonModel::Null,
        Json::Bool(b) => JsonModel::Bool(b),
        Json::Num(s) => JsonModel::Num(s@),
        Json::Str(s) => JsonModel::Str(s@),
        Json::Arr(items) => JsonModel::Arr(model_items(items@, items@.len() as int)),
        Json::Obj(members) => JsonModel::Obj(model_members(members@, members@.len() as int)),
    }
}

impl View for Json {
    type V = JsonModel;

    open spec fn view(&self) -> JsonModel {
        json_model(*self)
    }
}

pub proof fn lemma_model_items_props(items: Seq<Json>, i: int)
    requires
        0 <= i <= items.len(),
    ensures
        model_items(items, i).len() == i,
        forall|j: int| 0 <= j < i ==> model_items(items, i)[j] == json_model(items[j]),
    decreases i,
{
    if i > 0 {
        lemma_model_items_props(items, i - 1);
    }
}

pub proof fn lemma_model_members_props(members: Seq<(String, Json)>, i: int)
    requires
        0 <= i <= members.len(),
    ensures
        model_members(members, i).len() == i,
        forall|j: int|
            0 <= j < i ==> model_members(members, i)[j] == (
                members[j].0@,
                json_model(members[j].1),
            ),
    decreases i,
{
    if i > 0 {
        lemma_model_members_props(members, i - 1);
    }
}

/// The character for a single decimal digit.
pub open spec fn digit_char(d: nat) -> char {
    ((('0' as u32) + d) as char)
}

/// The character for a single lowercase hexadecimal digit.
pub open spec fn hex_char(d: nat) -> char {
    if d < 10 {
        digit_char(d)
    } else {
        ((('a' as u32) + (d - 10)) as char)
    }
}

/// The decimal rendering of a natural number, most significant digit first.
pub open spec fn dec_digits(n: nat) -> Seq<char>
    decreases n,
{
    if n < 10 {
        seq![digit_char(n)]
    } else {
        dec_digits(n / 10) + seq![digit_char(n % 10)]
    }
}

/// How one character appears inside a JSON string literal.
pub open spec fn escape_char(c: char) -> Seq<char> {
    if c == '"' {
        seq!['\\', '"']
    } else if c == '\\' {
        seq!['\\', '\\']
    } else if c == '\u{8}' {
        seq!['\\', 'b']
    } else if c == '\u{c}' {
        seq!['\\', 'f']
    } else if c == '\n' {
        seq!['\\', 'n']
    } else if c == '\r' {
        seq!['\\', 'r']
    } else if c == '\t' {
        seq!['\\', 't']
    } else if (c as u32) < 0x20 {
        seq!['\\', 'u', '0', '0', hex_char(((c as u32) / 16) as nat), hex_char(
            ((c as u32) % 16) as nat,
        )]
    } else {
        seq![c]
    }
}

/// The escaped form of the first `i` characters of a string body.
pub open spec fn escape_upto(s: Seq<char>, i: int) -> Seq<char>
    decreases i,
{
    if i <= 0 {
        Seq::empty()
    } else {
        escape_upto(s, i - 1) + escape_char(s[i - 1])
    }
}

/// The body of a JSON string literal for the given text.
pub open spec fn escape_string(s: Seq<char>) -> Seq<char> {
    escape_upto(s, s.len() as int)
}

/// The wire text of a JSON document: compact, members in order.
pub open spec fn render_model(m: JsonModel) -> Seq<char>
    decreases m, 0int,
{
    match m {
        JsonModel::Null => "null"@,
        JsonModel::Bool(b) => if b {
            "true"@
        } else {
            "false"@
        },
        JsonModel::Num(s) => s,
        JsonModel::Str(s) => seq!['"'] + escape_string(s) + seq!['"'],
        JsonModel::Arr(items) => seq!['['] + render_items(items, items.len() as int) + seq![']'],
        JsonModel::Obj(members) => seq!['{'] + render_members(members, members.len() as int)
            + seq!['}'],
    }
}

/// The comma-separated renderings of the first `i` elements of an array.
pub open spec fn render_items(items: Seq<JsonModel>, i: int) -> Seq<char>
    decreases items, i,
    when 0 <= i <= items.len()
{
    if i <= 0 {
        Seq::empty()
    } else if i == 1 {
        render_model(items[0])
    } else {
        render_items(items, i - 1) + seq![','] + render_model(items[i - 1])
    }
}

/// The comma-separated renderings of the first `i` members of an object.
pub open spec fn render_members(members: Seq<(Seq<char>, JsonModel)>, i: int) -> Seq<char>
    decreases members, i,
    when 0 <= i <= members.len()
{
    if i <= 0 {
        Seq::empty()
    } else if i == 1 {
        render_member(members[0])
    } else {
        render_members(members, i - 1) + seq![','] + render_member(members[i - 1])
    }
}

/// One `"key":value` member.
pub open spec fn render_member(member: (Seq<char>, JsonModel)) -> Seq<char>
    decreases member, 1int,
{
    seq!['"'] + escape_string(member.0) + seq!['"', ':'] + render_model(member.1)
}

/// Appends one lowercase hexadecimal digit to `out`.
fn append_hex_digit(d: u32, out: &mut String)
    requires
        d < 16,
    ensures
        final(out)@ == old(out)@ + seq![hex_char(d as nat)],
{
    let table = "0123456789abcdef";
    proof {
        reveal_strlit("0123456789abcdef");
    }
    let piece = table.substring_char(d as usize, d as usize + 1);
    out.append(piece);
    proof {
        assert(piece@ =~= seq![hex_char(d as nat)]);
        assert(out@ =~= old(out)@ + seq![hex_char(d as nat)]);
    }
}

/// Appends the decimal rendering of `n` to `out`.
pub fn append_dec(n: u64, out: &mut String)
    ensures
        final(out)@ == old(out)@ + dec_digits(n as nat),
    decreases n,
{
    if n >= 10 {
        append_dec(n / 10, out);
    }
    let d = (n % 10) as usize;
    let table = "0123456789";
    proof {
        reveal_strlit("0123456789");
    }
    let piece = table.substring_char(d, d + 1);
    out.append(piece);
    proof {
        assert(piece@ =~= seq![digit_char((n % 10) as nat)]);
        if n < 10 {
            assert(out@ =~= old(out)@ + dec_digits(n as nat));
        } else {
            assert(out@ =~= old(out)@ + dec_digits(n as nat));
        }
    }
}

/// Appends one decimal digit character to `out`.
pub fn append_digit(d: u64, out: &mut String)
    requires
        d < 10,
    ensures
        final(out)@ == old(out)@ + seq![digit_char(d as nat)],
{
    let table = "0123456789";
    proof {
        reveal_strlit("0123456789");
    }
    let piece = table.substring_char(d as usize, d as usize + 1);
    out.append(piece);
    proof {
        assert(piece@ =~= seq![digit_char(d as nat)]);
        assert(out@ =~= old(out)@ + seq![digit_char(d as nat)]);
    }
}

/// The decimal rendering of a machine integer.
pub fn dec_string(n: u64) -> (r: String)
    ensures
        r@ == dec_digits(n as nat),
{
    let mut out = String::new();
    append_dec(n, &mut out);
    proof {
        assert(out@ =~= dec_digits(n as nat));
    }
    out
}

/// Appends the escaped form of the string body `s` to `out`.
fn append_escaped(s: &str, out: &mut String)
    ensures
        final(out)@ == old(out)@ + escape_string(s@),
{
    let n = s.unicode_len();
    let mut i: usize = 0;
    while i < n
        invariant
            n == s@.len(),
            i <= n,
            out@ == old(out)@ + escape_upto(s@, i as int),
        decreases n - i,
    {
        let c = s.get_char(i);
        let u = c as u32;
        if c == '"' {
            out.append("\\\"");
            proof {
                reveal_strlit("\\\"");
                assert(out@ =~= old(out)@ + escape_upto(s@, i + 1));
            }
        } else if c == '\\' {
            out.append("\\\\");
            proof {
                reveal_strlit("\\\\");
                assert(out@ =~= old(out)@ + escape_upto(s@, i + 1));
            }
        } else if u == 0x8 {
            out.append("\\b");
            proof {
                reveal_strlit("\\b");
                assert(c == '\u{8}') by {
                    vstd::utf8::char_u32_cast(c, 0x8);
                };
                assert(out@ =~= old(out)@ + escape_upto(s@, i + 1));
            }
        } else if u == 0xc {
            out.append("\\f");
            proof {
                reveal_strlit("\\f");
                assert(c == '\u{c}') by {
                    vstd::utf8::char_u32_cast(c, 0xc);
                };
                assert(out@ =~= old(out)@ + escape_upto(s@, i + 1));
            }
        } else if c == '\n' {
            out.append("\\n");
            proof {
                reveal_strlit("\\n");
                assert(out@ =~= old(out)@ + escape_upto(s@, i + 1));
            }
        } else if c == '\r' {
            out.append("\\r");
            proof {
                reveal_strlit("\\r");
                assert(out@ =~= old(out)@ + escape_upto(s@, i + 1));
            }
        } else if c == '\t' {
            out.append("\\t");
            proof {
                reveal_strlit("\\t");
                assert(out@ =~= old(out)@ + escape_upto(s@, i + 1));
            }
        } else if u < 0x20 {
            out.append("\\u00");
            append_hex_digit(u / 16, out);
            append_hex_digit(u % 16, out);
            proof {
                reveal_strlit("\\u00");
                assert(out@ =~= old(out)@ + escape_upto(s@, i + 1));
            }
        } else {
            let piece = s.substring_char(i, i + 1);
            out.append(piece);
            proof {
                assert(piece@ =~= seq![s@[i as int]]);
                assert(escape_char(s@[i as int]) =~= seq![s@[i as int]]);
                assert(out@ =~= old(out)@ + escape_upto(s@, i + 1));
            }
        }
        i = i + 1;
    }
}

/// Appends the wire text of `v` to `out`: exactly `render_model(v@)`.
#[verifier::loop_isolation(false)]
pub fn render_to(v: &Json, out: &mut String)
    ensures
        final(out)@ == old(out)@ + render_model(v@),
    decreases *v,
{
    match v {
        Json::Null => {
            out.append("null");
        },
        Json::Bool(b) => {
            if *b {
                out.append("true");
            } else {
                out.append("false");
            }
        },
        Json::Num(s) => {
            out.append(s.as_str());
        },
        Json::Str(s) => {
            out.append("\"");
            append_escaped(s.as_str(), out);
            out.append("\"");
            proof {
                reveal_strlit("\"");
                assert(out@ =~= old(out)@ + render_model(v@));
            }
        },
        Json::Arr(items) => {
            out.append("[");
            let ghost ms = model_items(items@, items@.len() as int);
            proof {
                lemma_model_items_props(items@, items@.len() as int);
            }
            let n = items.len();
            let mut j: usize = 0;
            proof {
                reveal_strlit("[");
                assert(out@ =~= old(out)@ + seq!['['] + render_items(ms, 0));
            }
            while j < n
                invariant
                    j <= n,
                    out@ == old(out)@ + seq!['['] + render_items(ms, j as int),
                decreases n - j,
            {
                if j > 0 {
                    out.append(",");
                    proof {
                        reveal_strlit(",");
                    }
                }
                proof {
                    assert(*items == v->Arr_0);
                    assert(decreases_to!(*v => v->Arr_0));
                    assert(decreases_to!(*items => items@));
                    assert(decreases_to!(items@ => items@[j as int]));
                    assert(decreases_to!(*v => items@[j as int]));
                }
                render_to(&items[j], out);
                proof {
                    assert(items[j as int]@ == ms[j as int]);
                    assert(out@ =~= old(out)@ + seq!['['] + render_items(ms, j + 1));
                }
                j = j + 1;
            }
            out.append("]");
            proof {
                reveal_strlit("]");
                assert(v@ == JsonModel::Arr(ms));
                assert(ms.len() == n);
                assert(render_model(v@) == seq!['['] + render_items(ms, ms.len() as int) + seq![
                    ']',
                ]);
                assert(out@ =~= old(out)@ + render_model(v@));
            }
        },
        Json::Obj(members) => {
            out.append("{");
            let ghost ms = model_members(members@, members@.len() as int);
            proof {
                lemma_model_members_props(members@, members@.len() as int);
            }
            let n = members.len();
            let mut j: usize = 0;
            proof {
                reveal_strlit("{");
                assert(out@ =~= old(out)@ + seq!['{'] + render_members(ms, 0));
            }
            while j < n
                invariant
                    j <= n,
                    out@ == old(out)@ + seq!['{'] + render_members(ms, j as int),
                decreases n - j,
            {
                if j > 0 {
                    out.append(",");
                    proof {
                        reveal_strlit(",");
                    }
                }
                out.append("\"");
                append_escaped(members[j].0.as_str(), out);
                out.append("\":");
                proof {
                    reveal_strlit("\"");
                    reveal_strlit("\":");
                    assert(*members == v->Obj_0);
                    assert(decreases_to!(*v => v->Obj_0));
                    assert(decreases_to!(*members => members@));
                    assert(decreases_to!(members@ => members@[j as int]));
                    assert(decreases_to!(members@[j as int] => members@[j as int].1));
                    assert(decreases_to!(*v => members@[j as int].1));
                }
                render_to(&members[j].1, out);
                proof {
                    assert(members[j as int].1@ == ms[j as int].1);
                    assert(members[j as int].0@ == ms[j as int].0);
                    assert(render_member(ms[j as int]) =~= seq!['"'] + escape_string(
                        ms[j as int].0,
                    ) + seq!['"', ':'] + render_model(ms[j as int].1));
                    assert(out@ =~= old(out)@ + seq!['{'] + render_members(ms, j + 1));
                }
                j = j + 1;
            }
            out.append("}");
            proof {
                reveal_strlit("}");
                assert(v@ == JsonModel::Obj(ms));
                assert(ms.len() == n);
                assert(render_model(v@) == seq!['{'] + render_members(ms, ms.len() as int) + seq![
                    '}',
                ]);
                assert(out@ =~= old(out)@ + render_model(v@));
            }
        },
    }
}

/// The wire text of `v`.
pub fn render_string(v: &Json) -> (r: String)
    ensures
        r@ == render_model(v@),
{
    let mut out = String::new();
    render_to(v, &mut out);
    proof {
        assert(out@ =~= render_model(v@));
    }
    out
}

} // verus!
