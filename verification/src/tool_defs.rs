//! The tools offered to the model, in the Messages API `tools` format: each
//! tool's name, description and input schema, written out as JSON text.

use vstd::prelude::*;
use crate::text::push_char;
use crate::tools::{Tool, tool_name, tool_named};

verus! {

/// A scalar argument of a tool.
#[derive(Debug, Clone, PartialEq)]
pub enum Leaf {
    /// A string, limited to `choices` when there are any.
    Text { description: Option<String>, choices: Vec<String> },
    Integer { description: Option<String> },
    Boolean { description: Option<String> },
    Number { description: Option<String> },
}

/// An argument of a tool.
#[derive(Debug, Clone, PartialEq)]
pub enum Prop {
    Scalar(Leaf),
    /// An array of integers.
    IntegerList { description: String },
    /// An array of objects with the given fields.
    Records { description: String, fields: Vec<(String, Leaf)>, required: Vec<String> },
    /// An object with the given fields.
    Record { description: String, fields: Vec<(String, Leaf)> },
}

/// A tool as offered to the model.
#[derive(Debug, Clone, PartialEq)]
pub struct ToolDef {
    pub name: String,
    pub description: String,
    pub properties: Vec<(String, Prop)>,
    pub required: Vec<String>,
}

// ── JSON text ───────────────────────────────────────────────────────────────

pub open spec fn hex_digit(n: int) -> char {
    if n < 10 {
        (('0' as int) + n) as char
    } else {
        (('a' as int) + n - 10) as char
    }
}

/// A character as it stands inside a JSON string.
pub open spec fn escaped_char(c: char) -> Seq<char> {
    if c == '"' {
        seq!['\\', '"']
    } else if c == '\\' {
        seq!['\\', '\\']
    } else if c == '\n' {
        seq!['\\', 'n']
    } else if c == '\r' {
        seq!['\\', 'r']
    } else if c == '\t' {
        seq!['\\', 't']
    } else if (c as u32) < 0x20 {
        seq!['\\', 'u', '0', '0', hex_digit(((c as u32) / 16) as int), hex_digit(((c as u32) % 16) as int)]
    } else {
        seq![c]
    }
}

pub open spec fn escaped(s: Seq<char>) -> Seq<char>
    decreases s.len(),
{
    if s.len() == 0 {
        Seq::empty()
    } else {
        escaped(s.drop_last()) + escaped_char(s.last())
    }
}

/// A JSON string literal.
pub open spec fn json_str(s: Seq<char>) -> Seq<char> {
    seq!['"'] + escaped(s) + seq!['"']
}

/// A JSON array of strings.
pub open spec fn json_strs(ss: Seq<String>) -> Seq<char> {
    seq!['['] + str_items(ss) + seq![']']
}

pub open spec fn str_items(ss: Seq<String>) -> Seq<char>
    decreases ss.len(),
{
    if ss.len() == 0 {
        Seq::empty()
    } else if ss.len() == 1 {
        json_str(ss[0]@)
    } else {
        str_items(ss.drop_last()) + seq![','] + json_str(ss.last()@)
    }
}

/// `,"description":"…"` when there is a description.
pub open spec fn desc_member(d: Option<String>) -> Seq<char> {
    match d {
        Some(s) => ",\"description\":"@ + json_str(s@),
        None => Seq::empty(),
    }
}

pub open spec fn leaf_json(l: Leaf) -> Seq<char> {
    match l {
        Leaf::Text { description, choices } => "{\"type\":\"string\""@ + (if choices@.len() > 0 {
            ",\"enum\":"@ + json_strs(choices@)
        } else {
            Seq::empty()
        }) + desc_member(description) + seq!['}'],
        Leaf::Integer { description } => "{\"type\":\"integer\""@ + desc_member(description) + seq!['}'],
        Leaf::Boolean { description } => "{\"type\":\"boolean\""@ + desc_member(description) + seq!['}'],
        Leaf::Number { description } => "{\"type\":\"number\""@ + desc_member(description) + seq!['}'],
    }
}

/// The members `"name":schema` of an object's properties.
pub open spec fn leaf_members(fs: Seq<(String, Leaf)>) -> Seq<char>
    decreases fs.len(),
{
    if fs.len() == 0 {
        Seq::empty()
    } else if fs.len() == 1 {
        json_str(fs[0].0@) + seq![':'] + leaf_json(fs[0].1)
    } else {
        leaf_members(fs.drop_last()) + seq![','] + json_str(fs.last().0@) + seq![':'] + leaf_json(fs.last().1)
    }
}

/// `,"required":[…]` when something is required.
pub open spec fn required_member(req: Seq<String>) -> Seq<char> {
    if req.len() > 0 {
        ",\"required\":"@ + json_strs(req)
    } else {
        Seq::empty()
    }
}

pub open spec fn prop_json(p: Prop) -> Seq<char> {
    match p {
        Prop::Scalar(l) => leaf_json(l),
        Prop::IntegerList { description } => "{\"type\":\"array\",\"items\":{\"type\":\"integer\"},\"description\":"@
            + json_str(description@) + seq!['}'],
        Prop::Records { description, fields, required } => "{\"type\":\"array\",\"description\":"@ + json_str(
            description@,
        ) + ",\"items\":{\"type\":\"object\",\"properties\":{"@ + leaf_members(fields@) + seq!['}']
            + required_member(required@) + "}}"@,
        Prop::Record { description, fields } => "{\"type\":\"object\",\"description\":"@ + json_str(description@)
            + ",\"properties\":{"@ + leaf_members(fields@) + "}}"@,
    }
}

pub open spec fn prop_members(ps: Seq<(String, Prop)>) -> Seq<char>
    decreases ps.len(),
{
    if ps.len() == 0 {
        Seq::empty()
    } else if ps.len() == 1 {
        json_str(ps[0].0@) + seq![':'] + prop_json(ps[0].1)
    } else {
        prop_members(ps.drop_last()) + seq![','] + json_str(ps.last().0@) + seq![':'] + prop_json(ps.last().1)
    }
}

/// One tool as a JSON object.
pub open spec fn tool_json(t: ToolDef) -> Seq<char> {
    "{\"name\":"@ + json_str(t.name@) + ",\"description\":"@ + json_str(t.description@)
        + ",\"input_schema\":{\"type\":\"object\",\"properties\":{"@ + prop_members(t.properties@) + seq!['}']
        + required_member(t.required@) + "}}"@
}

pub open spec fn tool_items(ts: Seq<ToolDef>) -> Seq<char>
    decreases ts.len(),
{
    if ts.len() == 0 {
        Seq::empty()
    } else if ts.len() == 1 {
        tool_json(ts[0])
    } else {
        tool_items(ts.drop_last()) + seq![','] + tool_json(ts.last())
    }
}

/// The tools as a JSON array.
pub open spec fn tools_json(ts: Seq<ToolDef>) -> Seq<char> {
    seq!['['] + tool_items(ts) + seq![']']
}

fn hex_digit_exec(n: u32) -> (c: char)
    requires
        n < 16,
    ensures
        c == hex_digit(n as int),
{
    if n < 10 {
        let b: u8 = 48 + n as u8;
        assert(b as char == (('0' as int) + n) as char);
        b as char
    } else {
        let b: u8 = 87 + n as u8;
        assert(b as char == (('a' as int) + n - 10) as char);
        b as char
    }
}

fn push_escaped(out: &mut String, s: &str)
    ensures
        final(out)@ == old(out)@ + escaped(s@),
{
    let ghost start = out@;
    let cs = crate::text::chars_of(s);
    let mut i: usize = 0;
    while i < cs.len()
        invariant
            i <= cs.len(),
            cs@ == s@,
            out@ == start + escaped(cs@.take(i as int)),
        decreases cs.len() - i,
    {
        let c = cs[i];
        let ghost before = out@;
        if c == '"' {
            push_char(out, '\\');
            push_char(out, '"');
        } else if c == '\\' {
            push_char(out, '\\');
            push_char(out, '\\');
        } else if c == '\n' {
            push_char(out, '\\');
            push_char(out, 'n');
        } else if c == '\r' {
            push_char(out, '\\');
            push_char(out, 'r');
        } else if c == '\t' {
            push_char(out, '\\');
            push_char(out, 't');
        } else if (c as u32) < 0x20 {
            push_char(out, '\\');
            push_char(out, 'u');
            push_char(out, '0');
            push_char(out, '0');
            push_char(out, hex_digit_exec((c as u32) / 16));
            push_char(out, hex_digit_exec((c as u32) % 16));
        } else {
            push_char(out, c);
        }
        assert(out@ =~= before + escaped_char(c));
        proof {
            assert(cs@.take(i + 1).drop_last() =~= cs@.take(i as int));
            assert(cs@.take(i + 1).last() == cs@[i as int]);
        }
        i += 1;
        assert(out@ =~= start + escaped(cs@.take(i as int)));
    }
    assert(cs@.take(cs.len() as int) =~= cs@);
}

fn push_json_str(out: &mut String, s: &str)
    ensures
        final(out)@ == old(out)@ + json_str(s@),
{
    let ghost start = out@;
    push_char(out, '"');
    push_escaped(out, s);
    push_char(out, '"');
    assert(out@ =~= start + json_str(s@));
}

fn push_json_strs(out: &mut String, ss: &Vec<String>)
    ensures
        final(out)@ == old(out)@ + json_strs(ss@),
{
    let ghost start = out@;
    push_char(out, '[');
    let mut i: usize = 0;
    while i < ss.len()
        invariant
            i <= ss.len(),
            out@ == start + seq!['['] + str_items(ss@.take(i as int)),
        decreases ss.len() - i,
    {
        proof {
            assert(ss@.take(i + 1).drop_last() =~= ss@.take(i as int));
            assert(ss@.take(i + 1).last() == ss@[i as int]);
        }
        if i > 0 {
            push_char(out, ',');
        }
        push_json_str(out, ss[i].as_str());
        i += 1;
        assert(out@ =~= start + seq!['['] + str_items(ss@.take(i as int)));
    }
    assert(ss@.take(ss.len() as int) =~= ss@);
    push_char(out, ']');
    assert(out@ =~= start + json_strs(ss@));
}

fn push_desc_member(out: &mut String, d: &Option<String>)
    ensures
        final(out)@ == old(out)@ + desc_member(*d),
{
    let ghost start = out@;
    match d {
        Some(s) => {
            out.append(",\"description\":");
            push_json_str(out, s.as_str());
        },
        None => {},
    }
    assert(out@ =~= start + desc_member(*d));
}

fn push_leaf(out: &mut String, l: &Leaf)
    ensures
        final(out)@ == old(out)@ + leaf_json(*l),
{
    let ghost start = out@;
    match l {
        Leaf::Text { description, choices } => {
            out.append("{\"type\":\"string\"");
            if choices.len() > 0 {
                out.append(",\"enum\":");
                push_json_strs(out, choices);
            }
            push_desc_member(out, description);
        },
        Leaf::Integer { description } => {
            out.append("{\"type\":\"integer\"");
            push_desc_member(out, description);
        },
        Leaf::Boolean { description } => {
            out.append("{\"type\":\"boolean\"");
            push_desc_member(out, description);
        },
        Leaf::Number { description } => {
            out.append("{\"type\":\"number\"");
            push_desc_member(out, description);
        },
    }
    push_char(out, '}');
    assert(out@ =~= start + leaf_json(*l));
}

fn push_leaf_members(out: &mut String, fs: &Vec<(String, Leaf)>)
    ensures
        final(out)@ == old(out)@ + leaf_members(fs@),
{
    let ghost start = out@;
    let mut i: usize = 0;
    while i < fs.len()
        invariant
            i <= fs.len(),
            out@ == start + leaf_members(fs@.take(i as int)),
        decreases fs.len() - i,
    {
        proof {
            assert(fs@.take(i + 1).drop_last() =~= fs@.take(i as int));
            assert(fs@.take(i + 1).last() == fs@[i as int]);
        }
        if i > 0 {
            push_char(out, ',');
        }
        push_json_str(out, fs[i].0.as_str());
        push_char(out, ':');
        push_leaf(out, &fs[i].1);
        i += 1;
        assert(out@ =~= start + leaf_members(fs@.take(i as int)));
    }
    assert(fs@.take(fs.len() as int) =~= fs@);
}

fn push_required_member(out: &mut String, req: &Vec<String>)
    ensures
        final(out)@ == old(out)@ + required_member(req@),
{
    let ghost start = out@;
    if req.len() > 0 {
        out.append(",\"required\":");
        push_json_strs(out, req);
    }
    assert(out@ =~= start + required_member(req@));
}

fn push_prop(out: &mut String, p: &Prop)
    ensures
        final(out)@ == old(out)@ + prop_json(*p),
{
    let ghost start = out@;
    match p {
        Prop::Scalar(l) => push_leaf(out, l),
        Prop::IntegerList { description } => {
            out.append("{\"type\":\"array\",\"items\":{\"type\":\"integer\"},\"description\":");
            push_json_str(out, description.as_str());
            push_char(out, '}');
        },
        Prop::Records { description, fields, required } => {
            out.append("{\"type\":\"array\",\"description\":");
            push_json_str(out, description.as_str());
            out.append(",\"items\":{\"type\":\"object\",\"properties\":{");
            push_leaf_members(out, fields);
            push_char(out, '}');
            push_required_member(out, required);
            out.append("}}");
        },
        Prop::Record { description, fields } => {
            out.append("{\"type\":\"object\",\"description\":");
            push_json_str(out, description.as_str());
            out.append(",\"properties\":{");
            push_leaf_members(out, fields);
            out.append("}}");
        },
    }
    assert(out@ =~= start + prop_json(*p));
}

#[verifier::rlimit(40)]
fn push_tool(out: &mut String, t: &ToolDef)
    ensures
        final(out)@ == old(out)@ + tool_json(*t),
{
    let ghost start = out@;
    out.append("{\"name\":");
    push_json_str(out, t.name.as_str());
    out.append(",\"description\":");
    push_json_str(out, t.description.as_str());
    out.append(",\"input_schema\":{\"type\":\"object\",\"properties\":{");
    let ghost mid = out@;
    let mut i: usize = 0;
    while i < t.properties.len()
        invariant
            i <= t.properties.len(),
            out@ == mid + prop_members(t.properties@.take(i as int)),
        decreases t.properties.len() - i,
    {
        proof {
            assert(t.properties@.take(i + 1).drop_last() =~= t.properties@.take(i as int));
            assert(t.properties@.take(i + 1).last() == t.properties@[i as int]);
        }
        if i > 0 {
            push_char(out, ',');
        }
        push_json_str(out, t.properties[i].0.as_str());
        push_char(out, ':');
        push_prop(out, &t.properties[i].1);
        i += 1;
        assert(out@ =~= mid + prop_members(t.properties@.take(i as int)));
    }
    assert(t.properties@.take(t.properties.len() as int) =~= t.properties@);
    push_char(out, '}');
    push_required_member(out, &t.required);
    out.append("}}");
    assert(out@ =~= start + tool_json(*t));
}

/// The tools as the JSON array sent with every model request.
pub fn tools_json_text(tools: &Vec<ToolDef>) -> (r: String)
    ensures
        r@ == tools_json(tools@),
{
    let mut out = String::new();
    push_char(&mut out, '[');
    let mut i: usize = 0;
    while i < tools.len()
        invariant
            i <= tools.len(),
            out@ == seq!['['] + tool_items(tools@.take(i as int)),
        decreases tools.len() - i,
    {
        proof {
            assert(tools@.take(i + 1).drop_last() =~= tools@.take(i as int));
            assert(tools@.take(i + 1).last() == tools@[i as int]);
        }
        if i > 0 {
            push_char(&mut out, ',');
        }
        push_tool(&mut out, &tools[i]);
        i += 1;
        assert(out@ =~= seq!['['] + tool_items(tools@.take(i as int)));
    }
    assert(tools@.take(tools.len() as int) =~= tools@);
    push_char(&mut out, ']');
    assert(out@ =~= tools_json(tools@));
    out
}

// ── the tools offered ───────────────────────────────────────────────────────

/// The names of an object's properties.
pub open spec fn prop_names(ps: Seq<(String, Prop)>) -> Seq<Seq<char>> {
    ps.map_values(|p: (String, Prop)| p.0@)
}

pub open spec fn field_names(fs: Seq<(String, Leaf)>) -> Seq<Seq<char>> {
    fs.map_values(|f: (String, Leaf)| f.0@)
}

/// Every required argument of a tool is one of its declared properties, and
/// the same holds inside each array of objects.
pub open spec fn well_declared(t: ToolDef) -> bool {
    &&& forall|k: int| 0 <= k < t.required@.len() ==> prop_names(t.properties@).contains(#[trigger] t.required@[k]@)
    &&& forall|j: int| 0 <= j < t.properties@.len() ==> records_declared(#[trigger] t.properties@[j].1)
}

pub open spec fn records_declared(p: Prop) -> bool {
    p matches Prop::Records { fields, required, .. } ==> forall|k: int|
        0 <= k < required@.len() ==> field_names(fields@).contains(#[trigger] required@[k]@)
}

fn st(s: &str) -> (r: String)
    ensures
        r@ == s@,
{
    String::from_str(s)
}

/// A scalar argument as plain values.
#[verifier::ext_equal]
pub enum LeafSpec {
    Text { description: Option<Seq<char>>, choices: Seq<Seq<char>> },
    Integer { description: Option<Seq<char>> },
    Boolean { description: Option<Seq<char>> },
    Number { description: Option<Seq<char>> },
}

/// An argument as plain values.
#[verifier::ext_equal]
pub enum PropSpec {
    Scalar(LeafSpec),
    IntegerList { description: Seq<char> },
    Records { description: Seq<char>, fields: Seq<(Seq<char>, LeafSpec)>, required: Seq<Seq<char>> },
    Record { description: Seq<char>, fields: Seq<(Seq<char>, LeafSpec)> },
}

/// A tool as plain values.
#[verifier::ext_equal]
pub struct ToolSpec {
    pub name: Seq<char>,
    pub description: Seq<char>,
    pub properties: Seq<(Seq<char>, PropSpec)>,
    pub required: Seq<Seq<char>>,
}

/// The texts of a list of names.
pub open spec fn names_of(v: Seq<String>) -> Seq<Seq<char>> {
    v.map_values(|s: String| s@)
}

pub open spec fn opt_text(d: Option<String>) -> Option<Seq<char>> {
    match d {
        Some(s) => Some(s@),
        None => None,
    }
}

pub open spec fn leaf_view(l: Leaf) -> LeafSpec {
    match l {
        Leaf::Text { description, choices } => LeafSpec::Text {
            description: opt_text(description),
            choices: names_of(choices@),
        },
        Leaf::Integer { description } => LeafSpec::Integer { description: opt_text(description) },
        Leaf::Boolean { description } => LeafSpec::Boolean { description: opt_text(description) },
        Leaf::Number { description } => LeafSpec::Number { description: opt_text(description) },
    }
}

pub open spec fn leaves_view(fs: Seq<(String, Leaf)>) -> Seq<(Seq<char>, LeafSpec)> {
    fs.map_values(|f: (String, Leaf)| (f.0@, leaf_view(f.1)))
}

pub open spec fn prop_view(p: Prop) -> PropSpec {
    match p {
        Prop::Scalar(l) => PropSpec::Scalar(leaf_view(l)),
        Prop::IntegerList { description } => PropSpec::IntegerList { description: description@ },
        Prop::Records { description, fields, required } => PropSpec::Records {
            description: description@,
            fields: leaves_view(fields@),
            required: names_of(required@),
        },
        Prop::Record { description, fields } => PropSpec::Record {
            description: description@,
            fields: leaves_view(fields@),
        },
    }
}

pub open spec fn props_view(ps: Seq<(String, Prop)>) -> Seq<(Seq<char>, PropSpec)> {
    ps.map_values(|p: (String, Prop)| (p.0@, prop_view(p.1)))
}

/// A tool as plain values.
pub open spec fn tool_view(t: ToolDef) -> ToolSpec {
    ToolSpec {
        name: t.name@,
        description: t.description@,
        properties: props_view(t.properties@),
        required: names_of(t.required@),
    }
}

/// The names of the entries flagged as required, in order.
pub open spec fn flagged_keys<A>(fs: Seq<(Seq<char>, A, bool)>) -> Seq<Seq<char>>
    decreases fs.len(),
{
    if fs.len() == 0 {
        Seq::empty()
    } else {
        flagged_keys(fs.drop_last()) + if fs.last().2 {
            seq![fs.last().0]
        } else {
            Seq::empty()
        }
    }
}

/// The entries without their flags.
pub open spec fn unflagged<A>(fs: Seq<(Seq<char>, A, bool)>) -> Seq<(Seq<char>, A)> {
    fs.map_values(|f: (Seq<char>, A, bool)| (f.0, f.1))
}

/// An array of objects with the given fields, those flagged required.
pub open spec fn records_spec(description: Seq<char>, fs: Seq<(Seq<char>, LeafSpec, bool)>) -> PropSpec {
    PropSpec::Records { description, fields: unflagged(fs), required: flagged_keys(fs) }
}

/// A tool with the given properties, those flagged required.
pub open spec fn tool_spec(name: Seq<char>, description: Seq<char>, ps: Seq<(Seq<char>, PropSpec, bool)>) -> ToolSpec {
    ToolSpec { name, description, properties: unflagged(ps), required: flagged_keys(ps) }
}

pub open spec fn flagged_leaves_view(fs: Seq<(String, Leaf, bool)>) -> Seq<(Seq<char>, LeafSpec, bool)> {
    fs.map_values(|f: (String, Leaf, bool)| (f.0@, leaf_view(f.1), f.2))
}

pub open spec fn flagged_props_view(ps: Seq<(String, Prop, bool)>) -> Seq<(Seq<char>, PropSpec, bool)> {
    ps.map_values(|p: (String, Prop, bool)| (p.0@, prop_view(p.1), p.2))
}

/// An array of objects whose fields are flagged when required.
fn records(description: String, fields: Vec<(String, Leaf, bool)>) -> (r: Prop)
    ensures
        prop_view(r) == records_spec(description@, flagged_leaves_view(fields@)),
        records_declared(r),
{
    let ghost all = flagged_leaves_view(fields@);
    let mut rest = fields;
    let mut fs: Vec<(String, Leaf)> = Vec::new();
    let mut req: Vec<String> = Vec::new();
    let ghost mut at: Seq<int> = Seq::empty();
    let ghost mut n: int = 0;
    while rest.len() > 0
        invariant
            0 <= n <= all.len(),
            all.len() == n + rest@.len(),
            forall|j: int| 0 <= j < rest@.len() ==> all[n + j] == (#[trigger] rest@[j].0@, leaf_view(rest@[j].1), rest@[j].2),
            leaves_view(fs@) == unflagged(all.take(n)),
            names_of(req@) == flagged_keys(all.take(n)),
            at.len() == req@.len(),
            forall|k: int| 0 <= k < req@.len() ==> 0 <= #[trigger] at[k] < fs@.len() && fs@[at[k]].0@ == req@[k]@,
        decreases rest.len(),
    {
        let ghost before = rest@;
        let (name, leaf, flag) = rest.remove(0);
        proof {
            assert(all[n] == (before[0].0@, leaf_view(before[0].1), before[0].2));
            assert forall|j: int| 0 <= j < rest@.len() implies all[n + 1 + j] == (#[trigger] rest@[j].0@, leaf_view(rest@[j].1), rest@[j].2) by {
                assert(rest@[j] == before[j + 1]);
            }
            assert(all.take(n + 1).drop_last() =~= all.take(n));
            assert(all.take(n + 1).last() == all[n]);
        }
        if flag {
            let copy = name.clone();
            req.push(copy);
            proof {
                at = at.push(fs@.len() as int);
                assert(names_of(req@) =~= flagged_keys(all.take(n + 1)));
            }
        } else {
            proof {
                assert(names_of(req@) =~= flagged_keys(all.take(n + 1)));
            }
        }
        let ghost old_fs = fs@;
        fs.push((name, leaf));
        proof {
            assert(leaves_view(fs@) =~= leaves_view(old_fs).push((all[n].0, all[n].1)));
            assert(unflagged(all.take(n + 1)) =~= unflagged(all.take(n)).push((all[n].0, all[n].1)));
            assert(leaves_view(fs@) =~= unflagged(all.take(n + 1)));
            n = n + 1;
        }
    }
    proof {
        assert(all.take(n) =~= all);
        assert forall|k: int| 0 <= k < req@.len() implies field_names(fs@).contains(#[trigger] req@[k]@) by {
            assert(field_names(fs@)[at[k]] == req@[k]@);
        }
    }
    Prop::Records { description, fields: fs, required: req }
}

/// A tool whose properties are flagged when required.
fn tool(name: &str, description: &str, props: Vec<(String, Prop, bool)>) -> (r: ToolDef)
    requires
        forall|j: int| 0 <= j < props@.len() ==> records_declared(#[trigger] props@[j].1),
    ensures
        r.name@ == name@,
        tool_view(r) == tool_spec(name@, description@, flagged_props_view(props@)),
        well_declared(r),
{
    let ghost all = flagged_props_view(props@);
    let mut rest = props;
    let mut ps: Vec<(String, Prop)> = Vec::new();
    let mut req: Vec<String> = Vec::new();
    let ghost mut at: Seq<int> = Seq::empty();
    let ghost mut n: int = 0;
    while rest.len() > 0
        invariant
            0 <= n <= all.len(),
            all.len() == n + rest@.len(),
            forall|j: int| 0 <= j < rest@.len() ==> all[n + j] == (#[trigger] rest@[j].0@, prop_view(rest@[j].1), rest@[j].2),
            props_view(ps@) == unflagged(all.take(n)),
            names_of(req@) == flagged_keys(all.take(n)),
            forall|j: int| 0 <= j < rest@.len() ==> records_declared(#[trigger] rest@[j].1),
            forall|j: int| 0 <= j < ps@.len() ==> records_declared(#[trigger] ps@[j].1),
            at.len() == req@.len(),
            forall|k: int| 0 <= k < req@.len() ==> 0 <= #[trigger] at[k] < ps@.len() && ps@[at[k]].0@ == req@[k]@,
        decreases rest.len(),
    {
        let ghost rest0 = rest@;
        let (name, prop, flag) = rest.remove(0);
        assert(records_declared(rest0[0].1));
        proof {
            assert(all[n] == (rest0[0].0@, prop_view(rest0[0].1), rest0[0].2));
            assert forall|j: int| 0 <= j < rest@.len() implies all[n + 1 + j] == (#[trigger] rest@[j].0@, prop_view(rest@[j].1), rest@[j].2) by {
                assert(rest@[j] == rest0[j + 1]);
            }
            assert(all.take(n + 1).drop_last() =~= all.take(n));
            assert(all.take(n + 1).last() == all[n]);
        }
        if flag {
            let copy = name.clone();
            req.push(copy);
            proof {
                at = at.push(ps@.len() as int);
                assert(names_of(req@) =~= flagged_keys(all.take(n + 1)));
            }
        } else {
            proof {
                assert(names_of(req@) =~= flagged_keys(all.take(n + 1)));
            }
        }
        let ghost old_ps = ps@;
        ps.push((name, prop));
        proof {
            assert(props_view(ps@) =~= props_view(old_ps).push((all[n].0, all[n].1)));
            assert(unflagged(all.take(n + 1)) =~= unflagged(all.take(n)).push((all[n].0, all[n].1)));
            assert(props_view(ps@) =~= unflagged(all.take(n + 1)));
            n = n + 1;
            assert forall|j: int| 0 <= j < rest@.len() implies records_declared(#[trigger] rest@[j].1) by {
                assert(rest@[j] == rest0[j + 1]);
            }
        }
    }
    proof {
        assert(all.take(n) =~= all);
        assert forall|k: int| 0 <= k < req@.len() implies prop_names(ps@).contains(#[trigger] req@[k]@) by {
            assert(prop_names(ps@)[at[k]] == req@[k]@);
        }
    }
    ToolDef { name: st(name), description: st(description), properties: ps, required: req }
}

/// The tools offered to the model, in the order they are listed.
pub open spec fn offered_tools() -> Seq<Tool> {
    seq![Tool::CreateTodo, Tool::ListTodos, Tool::CompleteTodo, Tool::CreateReminder, Tool::ListReminders, Tool::CancelReminder, Tool::GetPortfolioSummary, Tool::SearchMemory, Tool::Remember, Tool::CreateEvent, Tool::ListEvents, Tool::CancelEvent, Tool::RejectReview, Tool::ListAccounts, Tool::CreateAccount, Tool::ListPendingReviews, Tool::ConfirmReview, Tool::ListInstruments, Tool::ListProjects, Tool::CreateProject, Tool::CreateTask, Tool::ListTasks, Tool::CompleteTask, Tool::DraftProposal, Tool::ListClients, Tool::CreateInvoice, Tool::CaptureToInbox, Tool::ListInbox, Tool::ResolveInbox, Tool::ListEmails, Tool::ReadEmail, Tool::DraftReply, Tool::CashflowSummary]
}

/// Each offered tool's name, description and arguments, each argument
/// flagged when the tool requires it.
pub open spec fn tool_entry(t: Tool) -> (Seq<char>, Seq<char>, Seq<(Seq<char>, PropSpec, bool)>) {
    match t {
        Tool::CreateTodo => (
            "create_todo"@,
            "Create a todo item for the user. Use when the user mentions a task they need to do."@,
            seq![
            ("title"@, PropSpec::Scalar(LeafSpec::Text { description: Some("Short task title in the user's words"@), choices: seq![] }), true),
            ("notes"@, PropSpec::Scalar(LeafSpec::Text { description: Some("Optional extra detail"@), choices: seq![] }), false),
            ("due_at"@, PropSpec::Scalar(LeafSpec::Text { description: Some("Optional deadline, RFC3339 with +07:00 offset, e.g. 2026-06-12T09:00:00+07:00"@), choices: seq![] }), false),
        ],
        ),
        Tool::ListTodos => (
            "list_todos"@,
            "List the user's open todos with ids, titles, and due dates."@,
            seq![],
        ),
        Tool::CompleteTodo => (
            "complete_todo"@,
            "Mark a todo as done. Look up the id with list_todos first if unsure."@,
            seq![
            ("id"@, PropSpec::Scalar(LeafSpec::Integer { description: Some("Todo id"@) }), true),
        ],
        ),
        Tool::CreateReminder => (
            "create_reminder"@,
            "Schedule a reminder message to be sent to the user at a specific time, optionally recurring."@,
            seq![
            ("message"@, PropSpec::Scalar(LeafSpec::Text { description: Some("What to remind the user about"@), choices: seq![] }), true),
            ("remind_at"@, PropSpec::Scalar(LeafSpec::Text { description: Some("When to fire, RFC3339 with +07:00 offset, must be in the future, e.g. 2026-06-12T09:00:00+07:00"@), choices: seq![] }), true),
            ("recurrence"@, PropSpec::Scalar(LeafSpec::Text { description: Some("Repeat pattern, default none"@), choices: seq!["none"@, "daily"@, "weekly"@, "monthly"@] }), false),
            ("todo_id"@, PropSpec::Scalar(LeafSpec::Integer { description: Some("Optional todo this reminder belongs to (get the id from list_todos)"@) }), false),
        ],
        ),
        Tool::ListReminders => (
            "list_reminders"@,
            "List the user's pending reminders with ids, messages, and times."@,
            seq![],
        ),
        Tool::CancelReminder => (
            "cancel_reminder"@,
            "Cancel a pending reminder. Look up the id with list_reminders first if unsure."@,
            seq![
            ("id"@, PropSpec::Scalar(LeafSpec::Integer { description: Some("Reminder id"@) }), true),
        ],
        ),
        Tool::GetPortfolioSummary => (
            "get_portfolio_summary"@,
            "Get the user's current investment portfolio snapshot: net worth, P&L, XIRR, allocation, holdings. Use for any finance/portfolio question."@,
            seq![],
        ),
        Tool::SearchMemory => (
            "search_memory"@,
            "Search the owner's long-term memory (facts learned from past conversations and notes). Use for recall questions like 'kapan aku bilang soal X?' or when past context would change the answer."@,
            seq![
            ("query"@, PropSpec::Scalar(LeafSpec::Text { description: Some("What to look for, in natural language"@), choices: seq![] }), true),
        ],
        ),
        Tool::Remember => (
            "remember"@,
            "Save an explicit note to the owner's long-term memory. Use when the user asks you to remember something ('ingat ya ...', 'catat: ...' when it is a fact rather than a task)."@,
            seq![
            ("note"@, PropSpec::Scalar(LeafSpec::Text { description: Some("The fact to remember, as a standalone sentence"@), choices: seq![] }), true),
        ],
        ),
        Tool::CreateEvent => (
            "create_event"@,
            "Create an agenda event — something the owner attends or that has a time and place (meeting, appointment, dinner). Prefer this over create_reminder even when phrased as 'ingetin aku meeting besok jam 2'; use create_reminder only for standalone nudges with no agenda entry. A reminder fires 30 minutes before by default."@,
            seq![
            ("title"@, PropSpec::Scalar(LeafSpec::Text { description: Some("What the event is"@), choices: seq![] }), true),
            ("start_at"@, PropSpec::Scalar(LeafSpec::Text { description: Some("Start time, RFC3339 with +07:00 offset, must be in the future, e.g. 2026-06-13T14:00:00+07:00"@), choices: seq![] }), true),
            ("location"@, PropSpec::Scalar(LeafSpec::Text { description: Some("Optional place"@), choices: seq![] }), false),
            ("notes"@, PropSpec::Scalar(LeafSpec::Text { description: Some("Optional extra detail"@), choices: seq![] }), false),
            ("remind_minutes_before"@, PropSpec::Scalar(LeafSpec::Integer { description: Some("Minutes before start to remind; default 30; 0 disables the reminder"@) }), false),
        ],
        ),
        Tool::ListEvents => (
            "list_events"@,
            "List scheduled agenda events in a time range. Default: the next 7 days. Use for 'besok ada apa?', 'jadwal minggu ini'."@,
            seq![
            ("from"@, PropSpec::Scalar(LeafSpec::Text { description: Some("Range start, RFC3339 with +07:00; default now"@), choices: seq![] }), false),
            ("to"@, PropSpec::Scalar(LeafSpec::Text { description: Some("Range end (exclusive), RFC3339 with +07:00; default from + 7 days"@), choices: seq![] }), false),
        ],
        ),
        Tool::CancelEvent => (
            "cancel_event"@,
            "Cancel a scheduled agenda event (its pre-event reminder is cancelled too). Look up the id with list_events first if unsure."@,
            seq![
            ("id"@, PropSpec::Scalar(LeafSpec::Integer { description: Some("Event id"@) }), true),
        ],
        ),
        Tool::RejectReview => (
            "reject_review"@,
            "Reject (discard) a pending ingest review item so it is not turned into a transaction. Get the id from list_pending_reviews."@,
            seq![
            ("review_id"@, PropSpec::Scalar(LeafSpec::Integer { description: Some("Review item id"@) }), true),
        ],
        ),
        Tool::ListAccounts => (
            "list_accounts"@,
            "List the owner's investment accounts (id, name, type). Use before create_account to reuse an existing account, and to find an account_id for confirm_review."@,
            seq![],
        ),
        Tool::CreateAccount => (
            "create_account"@,
            "Create a new investment account (e.g. a broker like Nanovest the owner doesn't have yet). Always ask the user to confirm before calling — this writes data."@,
            seq![
            ("name"@, PropSpec::Scalar(LeafSpec::Text { description: Some("Account name, e.g. Nanovest"@), choices: seq![] }), true),
            ("account_type"@, PropSpec::Scalar(LeafSpec::Text { description: Some("Type, e.g. broker, exchange, bank"@), choices: seq![] }), true),
            ("native_currency"@, PropSpec::Scalar(LeafSpec::Text { description: Some("ISO currency code, e.g. IDR or USD"@), choices: seq![] }), true),
            ("institution"@, PropSpec::Scalar(LeafSpec::Text { description: Some("Optional institution name"@), choices: seq![] }), false),
            ("note"@, PropSpec::Scalar(LeafSpec::Text { description: Some("Optional note"@), choices: seq![] }), false),
        ],
        ),
        Tool::ListPendingReviews => (
            "list_pending_reviews"@,
            "List ingest review items awaiting confirmation (from photos/PDFs the owner sent). Each line shows the review id, type, instrument, account, amounts, date, and flags items whose account or instrument isn't recognized yet. Use when the user asks to enter/confirm a transaction they sent."@,
            seq![],
        ),
        Tool::ConfirmReview => (
            "confirm_review"@,
            "Confirm a pending review item, turning it into a transaction. The account/instrument shown is only a guess read from the photo — pass account_id and/or instrument_id both to fill in anything flagged 'belum dikenali' AND to override a wrongly-detected account/instrument the owner corrects (e.g. the photo reads one broker but the holding is in another). You do NOT need the item to show 'belum dikenali' to override it (create the account first with create_account if needed). Always ask the user to confirm before calling — this writes a transaction."@,
            seq![
            ("review_id"@, PropSpec::Scalar(LeafSpec::Integer { description: Some("Review item id from list_pending_reviews"@) }), true),
            ("account_id"@, PropSpec::Scalar(LeafSpec::Integer { description: Some("Optional account id to set when the item's account is unknown"@) }), false),
            ("instrument_id"@, PropSpec::Scalar(LeafSpec::Integer { description: Some("Optional instrument id to set when the item's instrument is unknown"@) }), false),
        ],
        ),
        Tool::ListInstruments => (
            "list_instruments"@,
            "List the owner's known instruments (id, symbol, name, type). Use to find an instrument_id for confirm_review when a review item's instrument shows 'belum dikenali' but the instrument may already exist under a slightly different name. If it genuinely doesn't exist, tell the user to add it in the web UI → Data (instruments can't be created from chat)."@,
            seq![],
        ),
        Tool::ListProjects => (
            "list_projects"@,
            "List the owner's freelance projects (ClickUp lists). Use to find which project a task belongs to, and before create_project to avoid duplicates."@,
            seq![],
        ),
        Tool::CreateProject => (
            "create_project"@,
            "Create a new freelance project (a ClickUp list) in the configured space. Always ask the user to confirm before calling — this creates data in ClickUp."@,
            seq![
            ("name"@, PropSpec::Scalar(LeafSpec::Text { description: Some("Project name, e.g. PT AIS"@), choices: seq![] }), true),
        ],
        ),
        Tool::CreateTask => (
            "create_task"@,
            "Add a task to a freelance project (ClickUp). Pass the project name; if you don't know which project the user means and there is more than one, ask first. If the named project doesn't exist, offer to create it with create_project before retrying."@,
            seq![
            ("project"@, PropSpec::Scalar(LeafSpec::Text { description: Some("Project (ClickUp list) name the task belongs to"@), choices: seq![] }), true),
            ("title"@, PropSpec::Scalar(LeafSpec::Text { description: Some("What the task is"@), choices: seq![] }), true),
            ("due"@, PropSpec::Scalar(LeafSpec::Text { description: Some("Optional due date, RFC3339 with +07:00 offset, e.g. 2026-06-14T17:00:00+07:00"@), choices: seq![] }), false),
            ("billable"@, PropSpec::Scalar(LeafSpec::Boolean { description: Some("Mark the task billable (sets the ClickUp Billable field, if it exists)"@) }), false),
            ("amount"@, PropSpec::Scalar(LeafSpec::Number { description: Some("Billable amount in IDR (sets the ClickUp Amount field, if it exists)"@) }), false),
        ],
        ),
        Tool::ListTasks => (
            "list_tasks"@,
            "List freelance tasks from ClickUp. Pass a project name to list that project's open tasks; or pass scope 'today' / 'overdue' to list due/overdue tasks across all projects. Default scope 'open' lists all open tasks."@,
            seq![
            ("project"@, PropSpec::Scalar(LeafSpec::Text { description: Some("Optional project (list) name to filter to"@), choices: seq![] }), false),
            ("scope"@, PropSpec::Scalar(LeafSpec::Text { description: Some("open (default), today (due today), or overdue"@), choices: seq!["open"@, "today"@, "overdue"@] }), false),
        ],
        ),
        Tool::CompleteTask => (
            "complete_task"@,
            "Mark a freelance task complete in ClickUp. Get the task_id from list_tasks (shown in brackets)."@,
            seq![
            ("task_id"@, PropSpec::Scalar(LeafSpec::Text { description: Some("ClickUp task id from list_tasks"@), choices: seq![] }), true),
        ],
        ),
        Tool::DraftProposal => (
            "draft_proposal"@,
            "Draft an Upwork job proposal in professional English from a job description the user pastes. Pulls the owner's skills and experience from long-term memory to tailor it. Returns the draft for the user to review and submit manually — it never submits anything. Use when the owner pastes a job and asks for a proposal."@,
            seq![
            ("job_text"@, PropSpec::Scalar(LeafSpec::Text { description: Some("The full Upwork job description the user pasted."@), choices: seq![] }), true),
            ("notes"@, PropSpec::Scalar(LeafSpec::Text { description: Some("Optional emphasis or constraints, e.g. 'emphasize React, bid $30/hr'."@), choices: seq![] }), false),
        ],
        ),
        Tool::ListClients => (
            "list_clients"@,
            "List saved invoice clients (name). Use to reuse an existing client before create_invoice."@,
            seq![],
        ),
        Tool::CreateInvoice => (
            "create_invoice"@,
            "Create and send a freelance invoice PDF over Telegram. Dictate the client and line items. If the client is new, first ask for their details (sub_name/website) and pass client_details. Echo the parsed items + total to the user before calling so they can catch typos."@,
            seq![
            ("client_name"@, PropSpec::Scalar(LeafSpec::Text { description: Some("Client name, e.g. PT AIS"@), choices: seq![] }), true),
            ("line_items"@, records_spec("Invoice lines"@, seq![
                ("title"@, LeafSpec::Text { description: Some("Bold line, e.g. Pengembangan Landing Page"@), choices: seq![] }, true),
                ("body"@, LeafSpec::Text { description: Some("Optional description paragraph"@), choices: seq![] }, false),
                ("qty"@, LeafSpec::Integer { description: Some("Quantity, default 1"@) }, false),
                ("amount"@, LeafSpec::Integer { description: Some("Line total in IDR (e.g. 10 juta -> 10000000)"@) }, true),
            ]), true),
            ("client_details"@, PropSpec::Record { description: "Only when the client is new"@, fields: seq![
                ("sub_name"@, LeafSpec::Text { description: None, choices: seq![] }),
                ("website"@, LeafSpec::Text { description: None, choices: seq![] }),
            ] }, false),
            ("due_days"@, PropSpec::Scalar(LeafSpec::Integer { description: Some("Override default due-in days"@) }), false),
        ],
        ),
        Tool::CaptureToInbox => (
            "capture_to_inbox"@,
            "Save a raw quick capture to the GTD inbox for later sorting. Use for vague/ambiguous dumps with no clear single action (e.g. 'inget beliin kado', 'ide fitur X')."@,
            seq![
            ("content"@, PropSpec::Scalar(LeafSpec::Text { description: Some("The raw captured text"@), choices: seq![] }), true),
        ],
        ),
        Tool::ListInbox => (
            "list_inbox"@,
            "List pending inbox captures with ids. Use for 'apa di inbox?' or before sorting."@,
            seq![],
        ),
        Tool::ResolveInbox => (
            "resolve_inbox"@,
            "Mark inbox items as sorted (after you created todos/events/tasks/notes from them) or dropped (discarded). Pass the item ids."@,
            seq![
            ("ids"@, PropSpec::IntegerList { description: "Inbox item ids to resolve"@ }, true),
            ("status"@, PropSpec::Scalar(LeafSpec::Text { description: Some("sorted (handled) or dropped (discarded)"@), choices: seq!["sorted"@, "dropped"@] }), true),
        ],
        ),
        Tool::ListEmails => (
            "list_emails"@,
            "List important unread Gmail (sender, subject, snippet, id). Use for 'ada email penting?'."@,
            seq![
            ("max"@, PropSpec::Scalar(LeafSpec::Integer { description: Some("Max emails, default 10"@) }), false),
        ],
        ),
        Tool::ReadEmail => (
            "read_email"@,
            "Read the full body of one email by id (from list_emails) to summarize it or to draft a reply."@,
            seq![
            ("id"@, PropSpec::Scalar(LeafSpec::Text { description: Some("Gmail message id"@), choices: seq![] }), true),
        ],
        ),
        Tool::DraftReply => (
            "draft_reply"@,
            "Create a Gmail DRAFT reply to an email (by id). You compose the body; the draft is saved in Gmail for the owner to review and send — it is NOT sent automatically."@,
            seq![
            ("id"@, PropSpec::Scalar(LeafSpec::Text { description: Some("Gmail message id to reply to"@), choices: seq![] }), true),
            ("body"@, PropSpec::Scalar(LeafSpec::Text { description: Some("Reply text you composed"@), choices: seq![] }), true),
        ],
        ),
        Tool::CashflowSummary => (
            "cashflow_summary"@,
            "Monthly cashflow: money in, money out, net, top expense categories, and freelance invoiced that month. Use for 'bulan ini masuk/kepake/net berapa?'."@,
            seq![
            ("month"@, PropSpec::Scalar(LeafSpec::Text { description: Some("YYYY-MM; default current month"@), choices: seq![] }), false),
        ],
        ),
        _ => (Seq::empty(), Seq::empty(), Seq::empty()),
    }
}

/// The schema offered for a tool: its name, description, arguments and the
/// arguments it requires.
pub open spec fn tool_schema(t: Tool) -> ToolSpec {
    let e = tool_entry(t);
    tool_spec(e.0, e.1, e.2)
}

/// The offered tools from position 0 on: todos and reminders.
fn offered_group_0() -> (r: Vec<ToolDef>)
    ensures
        r@.len() == 6,
        forall|i: int| 0 <= i < r@.len() ==> (#[trigger] r@[i]).name@ == tool_name(offered_tools()[0 + i]),
        forall|i: int| 0 <= i < r@.len() ==> tool_view(#[trigger] r@[i]) == tool_schema(offered_tools()[0 + i]),
        forall|i: int| 0 <= i < r@.len() ==> well_declared(#[trigger] r@[i]),
{
    let mut defs: Vec<ToolDef> = Vec::new();
    let ps = vec![
            (st("title"), Prop::Scalar(Leaf::Text { description: Some(st("Short task title in the user's words")), choices: vec![] }), true),
            (st("notes"), Prop::Scalar(Leaf::Text { description: Some(st("Optional extra detail")), choices: vec![] }), false),
            (st("due_at"), Prop::Scalar(Leaf::Text { description: Some(st("Optional deadline, RFC3339 with +07:00 offset, e.g. 2026-06-12T09:00:00+07:00")), choices: vec![] }), false),
        ];
    proof {
        assert(flagged_props_view(ps@) =~~= tool_entry(Tool::CreateTodo).2);
    }
    defs.push(tool(
        "create_todo",
        "Create a todo item for the user. Use when the user mentions a task they need to do.",
        ps,
    ));
    let ps = vec![];
    proof {
        assert(flagged_props_view(ps@) =~~= tool_entry(Tool::ListTodos).2);
    }
    defs.push(tool(
        "list_todos",
        "List the user's open todos with ids, titles, and due dates.",
        ps,
    ));
    let ps = vec![
            (st("id"), Prop::Scalar(Leaf::Integer { description: Some(st("Todo id")) }), true),
        ];
    proof {
        assert(flagged_props_view(ps@) =~~= tool_entry(Tool::CompleteTodo).2);
    }
    defs.push(tool(
        "complete_todo",
        "Mark a todo as done. Look up the id with list_todos first if unsure.",
        ps,
    ));
    let ps = vec![
            (st("message"), Prop::Scalar(Leaf::Text { description: Some(st("What to remind the user about")), choices: vec![] }), true),
            (st("remind_at"), Prop::Scalar(Leaf::Text { description: Some(st("When to fire, RFC3339 with +07:00 offset, must be in the future, e.g. 2026-06-12T09:00:00+07:00")), choices: vec![] }), true),
            (st("recurrence"), Prop::Scalar(Leaf::Text { description: Some(st("Repeat pattern, default none")), choices: vec![st("none"), st("daily"), st("weekly"), st("monthly")] }), false),
            (st("todo_id"), Prop::Scalar(Leaf::Integer { description: Some(st("Optional todo this reminder belongs to (get the id from list_todos)")) }), false),
        ];
    proof {
        assert(flagged_props_view(ps@) =~~= tool_entry(Tool::CreateReminder).2);
    }
    defs.push(tool(
        "create_reminder",
        "Schedule a reminder message to be sent to the user at a specific time, optionally recurring.",
        ps,
    ));
    let ps = vec![];
    proof {
        assert(flagged_props_view(ps@) =~~= tool_entry(Tool::ListReminders).2);
    }
    defs.push(tool(
        "list_reminders",
        "List the user's pending reminders with ids, messages, and times.",
        ps,
    ));
    let ps = vec![
            (st("id"), Prop::Scalar(Leaf::Integer { description: Some(st("Reminder id")) }), true),
        ];
    proof {
        assert(flagged_props_view(ps@) =~~= tool_entry(Tool::CancelReminder).2);
    }
    defs.push(tool(
        "cancel_reminder",
        "Cancel a pending reminder. Look up the id with list_reminders first if unsure.",
        ps,
    ));
    defs
}

/// The offered tools from position 6 on: the portfolio summary, memory and events.
fn offered_group_1() -> (r: Vec<ToolDef>)
    ensures
        r@.len() == 6,
        forall|i: int| 0 <= i < r@.len() ==> (#[trigger] r@[i]).name@ == tool_name(offered_tools()[6 + i]),
        forall|i: int| 0 <= i < r@.len() ==> tool_view(#[trigger] r@[i]) == tool_schema(offered_tools()[6 + i]),
        forall|i: int| 0 <= i < r@.len() ==> well_declared(#[trigger] r@[i]),
{
    let mut defs: Vec<ToolDef> = Vec::new();
    let ps = vec![];
    proof {
        assert(flagged_props_view(ps@) =~~= tool_entry(Tool::GetPortfolioSummary).2);
    }
    defs.push(tool(
        "get_portfolio_summary",
        "Get the user's current investment portfolio snapshot: net worth, P&L, XIRR, allocation, holdings. Use for any finance/portfolio question.",
        ps,
    ));
    let ps = vec![
            (st("query"), Prop::Scalar(Leaf::Text { description: Some(st("What to look for, in natural language")), choices: vec![] }), true),
        ];
    proof {
        assert(flagged_props_view(ps@) =~~= tool_entry(Tool::SearchMemory).2);
    }
    defs.push(tool(
        "search_memory",
        "Search the owner's long-term memory (facts learned from past conversations and notes). Use for recall questions like 'kapan aku bilang soal X?' or when past context would change the answer.",
        ps,
    ));
    let ps = vec![
            (st("note"), Prop::Scalar(Leaf::Text { description: Some(st("The fact to remember, as a standalone sentence")), choices: vec![] }), true),
        ];
    proof {
        assert(flagged_props_view(ps@) =~~= tool_entry(Tool::Remember).2);
    }
    defs.push(tool(
        "remember",
        "Save an explicit note to the owner's long-term memory. Use when the user asks you to remember something ('ingat ya ...', 'catat: ...' when it is a fact rather than a task).",
        ps,
    ));
    let ps = vec![
            (st("title"), Prop::Scalar(Leaf::Text { description: Some(st("What the event is")), choices: vec![] }), true),
            (st("start_at"), Prop::Scalar(Leaf::Text { description: Some(st("Start time, RFC3339 with +07:00 offset, must be in the future, e.g. 2026-06-13T14:00:00+07:00")), choices: vec![] }), true),
            (st("location"), Prop::Scalar(Leaf::Text { description: Some(st("Optional place")), choices: vec![] }), false),
            (st("notes"), Prop::Scalar(Leaf::Text { description: Some(st("Optional extra detail")), choices: vec![] }), false),
            (st("remind_minutes_before"), Prop::Scalar(Leaf::Integer { description: Some(st("Minutes before start to remind; default 30; 0 disables the reminder")) }), false),
        ];
    proof {
        assert(flagged_props_view(ps@) =~~= tool_entry(Tool::CreateEvent).2);
    }
    defs.push(tool(
        "create_event",
        "Create an agenda event — something the owner attends or that has a time and place (meeting, appointment, dinner). Prefer this over create_reminder even when phrased as 'ingetin aku meeting besok jam 2'; use create_reminder only for standalone nudges with no agenda entry. A reminder fires 30 minutes before by default.",
        ps,
    ));
    let ps = vec![
            (st("from"), Prop::Scalar(Leaf::Text { description: Some(st("Range start, RFC3339 with +07:00; default now")), choices: vec![] }), false),
            (st("to"), Prop::Scalar(Leaf::Text { description: Some(st("Range end (exclusive), RFC3339 with +07:00; default from + 7 days")), choices: vec![] }), false),
        ];
    proof {
        assert(flagged_props_view(ps@) =~~= tool_entry(Tool::ListEvents).2);
    }
    defs.push(tool(
        "list_events",
        "List scheduled agenda events in a time range. Default: the next 7 days. Use for 'besok ada apa?', 'jadwal minggu ini'.",
        ps,
    ));
    let ps = vec![
            (st("id"), Prop::Scalar(Leaf::Integer { description: Some(st("Event id")) }), true),
        ];
    proof {
        assert(flagged_props_view(ps@) =~~= tool_entry(Tool::CancelEvent).2);
    }
    defs.push(tool(
        "cancel_event",
        "Cancel a scheduled agenda event (its pre-event reminder is cancelled too). Look up the id with list_events first if unsure.",
        ps,
    ));
    defs
}

/// The offered tools from position 12 on: review rejection, accounts, the review queue and instruments.
fn offered_group_2() -> (r: Vec<ToolDef>)
    ensures
        r@.len() == 6,
        forall|i: int| 0 <= i < r@.len() ==> (#[trigger] r@[i]).name@ == tool_name(offered_tools()[12 + i]),
        forall|i: int| 0 <= i < r@.len() ==> tool_view(#[trigger] r@[i]) == tool_schema(offered_tools()[12 + i]),
        forall|i: int| 0 <= i < r@.len() ==> well_declared(#[trigger] r@[i]),
{
    let mut defs: Vec<ToolDef> = Vec::new();
    let ps = vec![
            (st("review_id"), Prop::Scalar(Leaf::Integer { description: Some(st("Review item id")) }), true),
        ];
    proof {
        assert(flagged_props_view(ps@) =~~= tool_entry(Tool::RejectReview).2);
    }
    defs.push(tool(
        "reject_review",
        "Reject (discard) a pending ingest review item so it is not turned into a transaction. Get the id from list_pending_reviews.",
        ps,
    ));
    let ps = vec![];
    proof {
        assert(flagged_props_view(ps@) =~~= tool_entry(Tool::ListAccounts).2);
    }
    defs.push(tool(
        "list_accounts",
        "List the owner's investment accounts (id, name, type). Use before create_account to reuse an existing account, and to find an account_id for confirm_review.",
        ps,
    ));
    let ps = vec![
            (st("name"), Prop::Scalar(Leaf::Text { description: Some(st("Account name, e.g. Nanovest")), choices: vec![] }), true),
            (st("account_type"), Prop::Scalar(Leaf::Text { description: Some(st("Type, e.g. broker, exchange, bank")), choices: vec![] }), true),
            (st("native_currency"), Prop::Scalar(Leaf::Text { description: Some(st("ISO currency code, e.g. IDR or USD")), choices: vec![] }), true),
            (st("institution"), Prop::Scalar(Leaf::Text { description: Some(st("Optional institution name")), choices: vec![] }), false),
            (st("note"), Prop::Scalar(Leaf::Text { description: Some(st("Optional note")), choices: vec![] }), false),
        ];
    proof {
        assert(flagged_props_view(ps@) =~~= tool_entry(Tool::CreateAccount).2);
    }
    defs.push(tool(
        "create_account",
        "Create a new investment account (e.g. a broker like Nanovest the owner doesn't have yet). Always ask the user to confirm before calling — this writes data.",
        ps,
    ));
    let ps = vec![];
    proof {
        assert(flagged_props_view(ps@) =~~= tool_entry(Tool::ListPendingReviews).2);
    }
    defs.push(tool(
        "list_pending_reviews",
        "List ingest review items awaiting confirmation (from photos/PDFs the owner sent). Each line shows the review id, type, instrument, account, amounts, date, and flags items whose account or instrument isn't recognized yet. Use when the user asks to enter/confirm a transaction they sent.",
        ps,
    ));
    let ps = vec![
            (st("review_id"), Prop::Scalar(Leaf::Integer { description: Some(st("Review item id from list_pending_reviews")) }), true),
            (st("account_id"), Prop::Scalar(Leaf::Integer { description: Some(st("Optional account id to set when the item's account is unknown")) }), false),
            (st("instrument_id"), Prop::Scalar(Leaf::Integer { description: Some(st("Optional instrument id to set when the item's instrument is unknown")) }), false),
        ];
    proof {
        assert(flagged_props_view(ps@) =~~= tool_entry(Tool::ConfirmReview).2);
    }
    defs.push(tool(
        "confirm_review",
        "Confirm a pending review item, turning it into a transaction. The account/instrument shown is only a guess read from the photo — pass account_id and/or instrument_id both to fill in anything flagged 'belum dikenali' AND to override a wrongly-detected account/instrument the owner corrects (e.g. the photo reads one broker but the holding is in another). You do NOT need the item to show 'belum dikenali' to override it (create the account first with create_account if needed). Always ask the user to confirm before calling — this writes a transaction.",
        ps,
    ));
    let ps = vec![];
    proof {
        assert(flagged_props_view(ps@) =~~= tool_entry(Tool::ListInstruments).2);
    }
    defs.push(tool(
        "list_instruments",
        "List the owner's known instruments (id, symbol, name, type). Use to find an instrument_id for confirm_review when a review item's instrument shows 'belum dikenali' but the instrument may already exist under a slightly different name. If it genuinely doesn't exist, tell the user to add it in the web UI → Data (instruments can't be created from chat).",
        ps,
    ));
    defs
}

/// The offered tools from position 18 on: ClickUp projects and tasks, proposals.
fn offered_group_3() -> (r: Vec<ToolDef>)
    ensures
        r@.len() == 6,
        forall|i: int| 0 <= i < r@.len() ==> (#[trigger] r@[i]).name@ == tool_name(offered_tools()[18 + i]),
        forall|i: int| 0 <= i < r@.len() ==> tool_view(#[trigger] r@[i]) == tool_schema(offered_tools()[18 + i]),
        forall|i: int| 0 <= i < r@.len() ==> well_declared(#[trigger] r@[i]),
{
    let mut defs: Vec<ToolDef> = Vec::new();
    let ps = vec![];
    proof {
        assert(flagged_props_view(ps@) =~~= tool_entry(Tool::ListProjects).2);
    }
    defs.push(tool(
        "list_projects",
        "List the owner's freelance projects (ClickUp lists). Use to find which project a task belongs to, and before create_project to avoid duplicates.",
        ps,
    ));
    let ps = vec![
            (st("name"), Prop::Scalar(Leaf::Text { description: Some(st("Project name, e.g. PT AIS")), choices: vec![] }), true),
        ];
    proof {
        assert(flagged_props_view(ps@) =~~= tool_entry(Tool::CreateProject).2);
    }
    defs.push(tool(
        "create_project",
        "Create a new freelance project (a ClickUp list) in the configured space. Always ask the user to confirm before calling — this creates data in ClickUp.",
        ps,
    ));
    let ps = vec![
            (st("project"), Prop::Scalar(Leaf::Text { description: Some(st("Project (ClickUp list) name the task belongs to")), choices: vec![] }), true),
            (st("title"), Prop::Scalar(Leaf::Text { description: Some(st("What the task is")), choices: vec![] }), true),
            (st("due"), Prop::Scalar(Leaf::Text { description: Some(st("Optional due date, RFC3339 with +07:00 offset, e.g. 2026-06-14T17:00:00+07:00")), choices: vec![] }), false),
            (st("billable"), Prop::Scalar(Leaf::Boolean { description: Some(st("Mark the task billable (sets the ClickUp Billable field, if it exists)")) }), false),
            (st("amount"), Prop::Scalar(Leaf::Number { description: Some(st("Billable amount in IDR (sets the ClickUp Amount field, if it exists)")) }), false),
        ];
    proof {
        assert(flagged_props_view(ps@) =~~= tool_entry(Tool::CreateTask).2);
    }
    defs.push(tool(
        "create_task",
        "Add a task to a freelance project (ClickUp). Pass the project name; if you don't know which project the user means and there is more than one, ask first. If the named project doesn't exist, offer to create it with create_project before retrying.",
        ps,
    ));
    let ps = vec![
            (st("project"), Prop::Scalar(Leaf::Text { description: Some(st("Optional project (list) name to filter to")), choices: vec![] }), false),
            (st("scope"), Prop::Scalar(Leaf::Text { description: Some(st("open (default), today (due today), or overdue")), choices: vec![st("open"), st("today"), st("overdue")] }), false),
        ];
    proof {
        assert(flagged_props_view(ps@) =~~= tool_entry(Tool::ListTasks).2);
    }
    defs.push(tool(
        "list_tasks",
        "List freelance tasks from ClickUp. Pass a project name to list that project's open tasks; or pass scope 'today' / 'overdue' to list due/overdue tasks across all projects. Default scope 'open' lists all open tasks.",
        ps,
    ));
    let ps = vec![
            (st("task_id"), Prop::Scalar(Leaf::Text { description: Some(st("ClickUp task id from list_tasks")), choices: vec![] }), true),
        ];
    proof {
        assert(flagged_props_view(ps@) =~~= tool_entry(Tool::CompleteTask).2);
    }
    defs.push(tool(
        "complete_task",
        "Mark a freelance task complete in ClickUp. Get the task_id from list_tasks (shown in brackets).",
        ps,
    ));
    let ps = vec![
            (st("job_text"), Prop::Scalar(Leaf::Text { description: Some(st("The full Upwork job description the user pasted.")), choices: vec![] }), true),
            (st("notes"), Prop::Scalar(Leaf::Text { description: Some(st("Optional emphasis or constraints, e.g. 'emphasize React, bid $30/hr'.")), choices: vec![] }), false),
        ];
    proof {
        assert(flagged_props_view(ps@) =~~= tool_entry(Tool::DraftProposal).2);
    }
    defs.push(tool(
        "draft_proposal",
        "Draft an Upwork job proposal in professional English from a job description the user pastes. Pulls the owner's skills and experience from long-term memory to tailor it. Returns the draft for the user to review and submit manually — it never submits anything. Use when the owner pastes a job and asks for a proposal.",
        ps,
    ));
    defs
}

/// The offered tools from position 24 on: clients, invoices, the inbox and listing email.
fn offered_group_4() -> (r: Vec<ToolDef>)
    ensures
        r@.len() == 6,
        forall|i: int| 0 <= i < r@.len() ==> (#[trigger] r@[i]).name@ == tool_name(offered_tools()[24 + i]),
        forall|i: int| 0 <= i < r@.len() ==> tool_view(#[trigger] r@[i]) == tool_schema(offered_tools()[24 + i]),
        forall|i: int| 0 <= i < r@.len() ==> well_declared(#[trigger] r@[i]),
{
    let mut defs: Vec<ToolDef> = Vec::new();
    let ps = vec![];
    proof {
        assert(flagged_props_view(ps@) =~~= tool_entry(Tool::ListClients).2);
    }
    defs.push(tool(
        "list_clients",
        "List saved invoice clients (name). Use to reuse an existing client before create_invoice.",
        ps,
    ));
    let lines = vec![
        (st("title"), Leaf::Text { description: Some(st("Bold line, e.g. Pengembangan Landing Page")), choices: vec![] }, true),
        (st("body"), Leaf::Text { description: Some(st("Optional description paragraph")), choices: vec![] }, false),
        (st("qty"), Leaf::Integer { description: Some(st("Quantity, default 1")) }, false),
        (st("amount"), Leaf::Integer { description: Some(st("Line total in IDR (e.g. 10 juta -> 10000000)")) }, true),
    ];
    proof {
        assert(flagged_leaves_view(lines@) =~~= seq![
            ("title"@, LeafSpec::Text { description: Some("Bold line, e.g. Pengembangan Landing Page"@), choices: seq![] }, true),
            ("body"@, LeafSpec::Text { description: Some("Optional description paragraph"@), choices: seq![] }, false),
            ("qty"@, LeafSpec::Integer { description: Some("Quantity, default 1"@) }, false),
            ("amount"@, LeafSpec::Integer { description: Some("Line total in IDR (e.g. 10 juta -> 10000000)"@) }, true),
        ]);
    }
    let line_items = records(st("Invoice lines"), lines);
    let ps = vec![
            (st("client_name"), Prop::Scalar(Leaf::Text { description: Some(st("Client name, e.g. PT AIS")), choices: vec![] }), true),
            (st("line_items"), line_items, true),
            (st("client_details"), Prop::Record { description: st("Only when the client is new"), fields: vec![
                (st("sub_name"), Leaf::Text { description: None, choices: vec![] }),
                (st("website"), Leaf::Text { description: None, choices: vec![] }),
            ] }, false),
            (st("due_days"), Prop::Scalar(Leaf::Integer { description: Some(st("Override default due-in days")) }), false),
        ];
    proof {
        assert(flagged_props_view(ps@) =~~= tool_entry(Tool::CreateInvoice).2);
    }
    defs.push(tool(
        "create_invoice",
        "Create and send a freelance invoice PDF over Telegram. Dictate the client and line items. If the client is new, first ask for their details (sub_name/website) and pass client_details. Echo the parsed items + total to the user before calling so they can catch typos.",
        ps,
    ));
    let ps = vec![
            (st("content"), Prop::Scalar(Leaf::Text { description: Some(st("The raw captured text")), choices: vec![] }), true),
        ];
    proof {
        assert(flagged_props_view(ps@) =~~= tool_entry(Tool::CaptureToInbox).2);
    }
    defs.push(tool(
        "capture_to_inbox",
        "Save a raw quick capture to the GTD inbox for later sorting. Use for vague/ambiguous dumps with no clear single action (e.g. 'inget beliin kado', 'ide fitur X').",
        ps,
    ));
    let ps = vec![];
    proof {
        assert(flagged_props_view(ps@) =~~= tool_entry(Tool::ListInbox).2);
    }
    defs.push(tool(
        "list_inbox",
        "List pending inbox captures with ids. Use for 'apa di inbox?' or before sorting.",
        ps,
    ));
    let ps = vec![
            (st("ids"), Prop::IntegerList { description: st("Inbox item ids to resolve") }, true),
            (st("status"), Prop::Scalar(Leaf::Text { description: Some(st("sorted (handled) or dropped (discarded)")), choices: vec![st("sorted"), st("dropped")] }), true),
        ];
    proof {
        assert(flagged_props_view(ps@) =~~= tool_entry(Tool::ResolveInbox).2);
    }
    defs.push(tool(
        "resolve_inbox",
        "Mark inbox items as sorted (after you created todos/events/tasks/notes from them) or dropped (discarded). Pass the item ids.",
        ps,
    ));
    let ps = vec![
            (st("max"), Prop::Scalar(Leaf::Integer { description: Some(st("Max emails, default 10")) }), false),
        ];
    proof {
        assert(flagged_props_view(ps@) =~~= tool_entry(Tool::ListEmails).2);
    }
    defs.push(tool(
        "list_emails",
        "List important unread Gmail (sender, subject, snippet, id). Use for 'ada email penting?'.",
        ps,
    ));
    defs
}

/// The offered tools from position 30 on: reading and answering email, the cashflow summary.
fn offered_group_5() -> (r: Vec<ToolDef>)
    ensures
        r@.len() == 3,
        forall|i: int| 0 <= i < r@.len() ==> (#[trigger] r@[i]).name@ == tool_name(offered_tools()[30 + i]),
        forall|i: int| 0 <= i < r@.len() ==> tool_view(#[trigger] r@[i]) == tool_schema(offered_tools()[30 + i]),
        forall|i: int| 0 <= i < r@.len() ==> well_declared(#[trigger] r@[i]),
{
    let mut defs: Vec<ToolDef> = Vec::new();
    let ps = vec![
            (st("id"), Prop::Scalar(Leaf::Text { description: Some(st("Gmail message id")), choices: vec![] }), true),
        ];
    proof {
        assert(flagged_props_view(ps@) =~~= tool_entry(Tool::ReadEmail).2);
    }
    defs.push(tool(
        "read_email",
        "Read the full body of one email by id (from list_emails) to summarize it or to draft a reply.",
        ps,
    ));
    let ps = vec![
            (st("id"), Prop::Scalar(Leaf::Text { description: Some(st("Gmail message id to reply to")), choices: vec![] }), true),
            (st("body"), Prop::Scalar(Leaf::Text { description: Some(st("Reply text you composed")), choices: vec![] }), true),
        ];
    proof {
        assert(flagged_props_view(ps@) =~~= tool_entry(Tool::DraftReply).2);
    }
    defs.push(tool(
        "draft_reply",
        "Create a Gmail DRAFT reply to an email (by id). You compose the body; the draft is saved in Gmail for the owner to review and send — it is NOT sent automatically.",
        ps,
    ));
    let ps = vec![
            (st("month"), Prop::Scalar(Leaf::Text { description: Some(st("YYYY-MM; default current month")), choices: vec![] }), false),
        ];
    proof {
        assert(flagged_props_view(ps@) =~~= tool_entry(Tool::CashflowSummary).2);
    }
    defs.push(tool(
        "cashflow_summary",
        "Monthly cashflow: money in, money out, net, top expense categories, and freelance invoiced that month. Use for 'bulan ini masuk/kepake/net berapa?'.",
        ps,
    ));
    defs
}

/// All assistant tools in Messages-API `tools` format: each offered tool
/// with its schema (`tool_schema`: description, arguments with their types
/// and descriptions, and the arguments it requires); every one is a tool the
/// dispatcher runs, and every argument a tool requires is one it declares.
pub fn definitions() -> (r: Vec<ToolDef>)
    ensures
        r@.len() == offered_tools().len(),
        forall|i: int| 0 <= i < r@.len() ==> tool_view(#[trigger] r@[i]) == tool_schema(offered_tools()[i]),
        forall|i: int| 0 <= i < r@.len() ==> (#[trigger] r@[i]).name@ == tool_name(offered_tools()[i]),
        forall|i: int| 0 <= i < r@.len() ==> tool_named((#[trigger] r@[i]).name@) == Some(offered_tools()[i]),
        forall|i: int| 0 <= i < r@.len() ==> well_declared(#[trigger] r@[i]),
{
    let mut defs: Vec<ToolDef> = Vec::new();
    let mut g = offered_group_0();
    let ghost gv = g@;
    defs.append(&mut g);
    assert forall|i: int| 0 <= i < defs@.len() implies (#[trigger] defs@[i]).name@ == tool_name(offered_tools()[i])
        && well_declared(defs@[i]) && tool_view(defs@[i]) == tool_schema(offered_tools()[i]) by {
        assert(defs@[i] == gv[i]);
    }
    let mut g = offered_group_1();
    let ghost gv = g@;
    defs.append(&mut g);
    assert forall|i: int| 6 <= i < defs@.len() implies (#[trigger] defs@[i]).name@ == tool_name(offered_tools()[i])
        && well_declared(defs@[i]) && tool_view(defs@[i]) == tool_schema(offered_tools()[i]) by {
        assert(defs@[i] == gv[i - 6]);
    }
    let mut g = offered_group_2();
    let ghost gv = g@;
    defs.append(&mut g);
    assert forall|i: int| 12 <= i < defs@.len() implies (#[trigger] defs@[i]).name@ == tool_name(offered_tools()[i])
        && well_declared(defs@[i]) && tool_view(defs@[i]) == tool_schema(offered_tools()[i]) by {
        assert(defs@[i] == gv[i - 12]);
    }
    let mut g = offered_group_3();
    let ghost gv = g@;
    defs.append(&mut g);
    assert forall|i: int| 18 <= i < defs@.len() implies (#[trigger] defs@[i]).name@ == tool_name(offered_tools()[i])
        && well_declared(defs@[i]) && tool_view(defs@[i]) == tool_schema(offered_tools()[i]) by {
        assert(defs@[i] == gv[i - 18]);
    }
    let mut g = offered_group_4();
    let ghost gv = g@;
    defs.append(&mut g);
    assert forall|i: int| 24 <= i < defs@.len() implies (#[trigger] defs@[i]).name@ == tool_name(offered_tools()[i])
        && well_declared(defs@[i]) && tool_view(defs@[i]) == tool_schema(offered_tools()[i]) by {
        assert(defs@[i] == gv[i - 24]);
    }
    let mut g = offered_group_5();
    let ghost gv = g@;
    defs.append(&mut g);
    assert forall|i: int| 30 <= i < defs@.len() implies (#[trigger] defs@[i]).name@ == tool_name(offered_tools()[i])
        && well_declared(defs@[i]) && tool_view(defs@[i]) == tool_schema(offered_tools()[i]) by {
        assert(defs@[i] == gv[i - 30]);
    }
    proof {
        assert forall|i: int| 0 <= i < defs@.len() implies tool_named((#[trigger] defs@[i]).name@) == Some(
            offered_tools()[i],
        ) by {
            crate::tools::lemma_each_tool_is_found_by_its_name(offered_tools()[i]);
        }
    }
    defs
}

} // verus!
