//! The on-disk form of the mode configuration: a JSON object
//! `{"default_mode": <string>, "modes": {<name>: <instruction>, ...}}`.
//!
//! Rendering and parsing are defined here as specs over character
//! sequences, with verified executable counterparts. The parser accepts
//! the two members in either order, arbitrary JSON whitespace, and the
//! common string escapes; anything else is a corrupt config.

use vstd::prelude::*;
use crate::config::{pairs_view, unique_names, ConfigModel, PromptsConfig};
use crate::error::PipelineError;
use crate::text::{chars_of, string_of};

verus! {

// ------------------------------------------------------------------
// Rendering
// ------------------------------------------------------------------

/// How one character appears inside a rendered JSON string: quote,
/// backslash and the common control characters are escaped, everything
/// else stands for itself.
pub open spec fn escape_char(c: char) -> Seq<char> {
    if c == '"' {
        seq!['\\', '"']
    } else if c == '\\' {
        seq!['\\', '\\']
    } else if c == '\n' {
        seq!['\\', 'n']
    } else if c == '\t' {
        seq!['\\', 't']
    } else if c == '\r' {
        seq!['\\', 'r']
    } else {
        seq![c]
    }
}

/// The body of a rendered JSON string: each character escaped in turn.
pub open spec fn escaped(s: Seq<char>) -> Seq<char>
    decreases s.len(),
{
    if s.len() == 0 {
        Seq::<char>::empty()
    } else {
        escaped(s.drop_last()) + escape_char(s.last())
    }
}

/// A rendered JSON string: the escaped body between double quotes.
pub open spec fn quoted(s: Seq<char>) -> Seq<char> {
    seq!['"'] + escaped(s) + seq!['"']
}

/// One rendered mode entry: `"name":"instruction"`.
pub open spec fn rendered_entry(p: (Seq<char>, Seq<char>)) -> Seq<char> {
    quoted(p.0) + seq![':'] + quoted(p.1)
}

/// The rendered mode entries, comma-separated, in configuration order.
pub open spec fn rendered_entries(ms: Seq<(Seq<char>, Seq<char>)>) -> Seq<char>
    decreases ms.len(),
{
    if ms.len() == 0 {
        Seq::<char>::empty()
    } else if ms.len() == 1 {
        rendered_entry(ms[0])
    } else {
        rendered_entries(ms.drop_last()) + seq![','] + rendered_entry(ms.last())
    }
}

/// The rendered configuration, compact, members in their canonical order.
pub open spec fn rendered_config(m: ConfigModel) -> Seq<char> {
    "{\"default_mode\":"@ + quoted(m.default_mode) + ",\"modes\":{"@ + rendered_entries(m.modes)
        + "}}"@
}

/// Append `add` to `out`.
pub(crate) fn append_chars(out: &mut Vec<char>, add: &Vec<char>)
    ensures
        final(out)@ == old(out)@ + add@,
{
    let mut i: usize = 0;
    while i < add.len()
        invariant
            i <= add@.len(),
            out@ == old(out)@ + add@.take(i as int),
        decreases add@.len() - i,
    {
        out.push(add[i]);
        proof {
            assert(old(out)@ + add@.take(i as int + 1) =~= (old(out)@ + add@.take(i as int)).push(
                add@[i as int],
            ));
        }
        i = i + 1;
    }
    proof {
        assert(add@.take(add@.len() as int) =~= add@);
    }
}

/// Append the escaped body of `s` to `out`.
fn push_escaped(out: &mut Vec<char>, s: &Vec<char>)
    ensures
        final(out)@ == old(out)@ + escaped(s@),
{
    let mut i: usize = 0;
    while i < s.len()
        invariant
            i <= s@.len(),
            out@ == old(out)@ + escaped(s@.take(i as int)),
        decreases s@.len() - i,
    {
        let c = s[i];
        proof {
            assert(s@.take(i as int + 1).drop_last() =~= s@.take(i as int));
            assert(s@.take(i as int + 1).last() == s@[i as int]);
        }
        if c == '"' {
            out.push('\\');
            out.push('"');
        } else if c == '\\' {
            out.push('\\');
            out.push('\\');
        } else if c == '\n' {
            out.push('\\');
            out.push('n');
        } else if c == '\t' {
            out.push('\\');
            out.push('t');
        } else if c == '\r' {
            out.push('\\');
            out.push('r');
        } else {
            out.push(c);
        }
        proof {
            assert(out@ =~= old(out)@ + escaped(s@.take(i as int + 1)));
        }
        i = i + 1;
    }
    proof {
        assert(s@.take(s@.len() as int) =~= s@);
    }
}

/// Append the rendered JSON string for `s` to `out`.
pub(crate) fn push_quoted(out: &mut Vec<char>, s: &Vec<char>)
    ensures
        final(out)@ == old(out)@ + quoted(s@),
{
    out.push('"');
    push_escaped(out, s);
    out.push('"');
    proof {
        assert(out@ =~= old(out)@ + quoted(s@));
    }
}

/// Render a configuration to its on-disk JSON text.
pub fn render_config(c: &PromptsConfig) -> (r: String)
    ensures
        r@ == rendered_config(c@),
{
    let mut out: Vec<char> = Vec::new();
    let head = chars_of("{\"default_mode\":");
    append_chars(&mut out, &head);
    let dm = chars_of(c.default_mode.as_str());
    push_quoted(&mut out, &dm);
    let mid = chars_of(",\"modes\":{");
    append_chars(&mut out, &mid);
    let ghost prefix: Seq<char> = out@;
    let mut i: usize = 0;
    while i < c.modes.len()
        invariant
            i <= c.modes@.len(),
            c@.modes.len() == c.modes@.len(),
            out@ == prefix + rendered_entries(c@.modes.take(i as int)),
        decreases c.modes@.len() - i,
    {
        if i > 0 {
            out.push(',');
        }
        let name = chars_of(c.modes[i].0.as_str());
        push_quoted(&mut out, &name);
        out.push(':');
        let ins = chars_of(c.modes[i].1.as_str());
        push_quoted(&mut out, &ins);
        proof {
            assert(c@.modes.take(i as int + 1).drop_last() =~= c@.modes.take(i as int));
            assert(c@.modes.take(i as int + 1).last() == c@.modes[i as int]);
            assert(out@ =~= prefix + rendered_entries(c@.modes.take(i as int + 1)));
        }
        i = i + 1;
    }
    out.push('}');
    out.push('}');
    proof {
        reveal_strlit("}}");
        assert("}}"@ =~= seq!['}', '}']);
        assert(c@.modes.take(c@.modes.len() as int) =~= c@.modes);
        assert(out@ =~= rendered_config(c@));
    }
    string_of(&out)
}

// ------------------------------------------------------------------
// Parsing: specification
// ------------------------------------------------------------------

/// The whitespace JSON allows between tokens.
pub open spec fn is_json_ws(c: char) -> bool {
    c == ' ' || c == '\t' || c == '\n' || c == '\r'
}

/// The first position at or after `i` that does not hold JSON whitespace.
pub open spec fn skip_ws_spec(s: Seq<char>, i: int) -> int
    decreases s.len() - i,
{
    if 0 <= i < s.len() && is_json_ws(s[i]) {
        skip_ws_spec(s, i + 1)
    } else {
        i
    }
}

/// What a backslash escape stands for, if it is one the format accepts.
pub open spec fn unescaped_char(c: char) -> Option<char> {
    if c == '"' {
        Some('"')
    } else if c == '\\' {
        Some('\\')
    } else if c == '/' {
        Some('/')
    } else if c == 'n' {
        Some('\n')
    } else if c == 't' {
        Some('\t')
    } else if c == 'r' {
        Some('\r')
    } else if c == 'b' {
        Some('\u{0008}')
    } else if c == 'f' {
        Some('\u{000c}')
    } else {
        None
    }
}

/// Parse the body of a JSON string starting right after the opening quote:
/// the decoded characters and the position right after the closing quote.
/// Unescaped control characters and unknown escapes are refused.
pub open spec fn string_body_spec(s: Seq<char>, i: int) -> Option<(Seq<char>, int)>
    decreases s.len() - i,
{
    if i < 0 || i >= s.len() {
        None
    } else if s[i] == '"' {
        Some((Seq::<char>::empty(), i + 1))
    } else if s[i] == '\\' {
        if i + 1 >= s.len() {
            None
        } else {
            match unescaped_char(s[i + 1]) {
                Some(c) => match string_body_spec(s, i + 2) {
                    Some(p) => Some((seq![c] + p.0, p.1)),
                    None => None,
                },
                None => None,
            }
        }
    } else if (s[i] as u32) < 32 {
        None
    } else {
        match string_body_spec(s, i + 1) {
            Some(p) => Some((seq![s[i]] + p.0, p.1)),
            None => None,
        }
    }
}

/// Parse a JSON string whose opening quote stands at `i`.
pub open spec fn string_spec(s: Seq<char>, i: int) -> Option<(Seq<char>, int)> {
    if 0 <= i < s.len() && s[i] == '"' {
        string_body_spec(s, i + 1)
    } else {
        None
    }
}

/// Skipping whitespace never moves backwards nor past the end.
pub proof fn lemma_skip_ws_bounds(s: Seq<char>, i: int)
    requires
        0 <= i <= s.len(),
    ensures
        i <= skip_ws_spec(s, i) <= s.len(),
    decreases s.len() - i,
{
    if i < s.len() && is_json_ws(s[i]) {
        lemma_skip_ws_bounds(s, i + 1);
    }
}

/// A parsed string body ends after its opening position and within the
/// input.
pub proof fn lemma_string_body_advances(s: Seq<char>, i: int)
    ensures
        string_body_spec(s, i) matches Some(p) ==> i < p.1 <= s.len(),
    decreases s.len() - i,
{
    if 0 <= i < s.len() {
        lemma_string_body_advances(s, i + 1);
        if i + 1 < s.len() {
            lemma_string_body_advances(s, i + 2);
        }
    }
}

/// A parsed string ends at least two characters after its opening quote
/// and within the input.
pub proof fn lemma_string_advances(s: Seq<char>, i: int)
    ensures
        string_spec(s, i) matches Some(p) ==> i + 1 < p.1 <= s.len(),
{
    lemma_string_body_advances(s, i + 1);
}

/// Parse the entries of the modes object, starting at the first key (all
/// whitespace before it already skipped), up to and including the closing
/// brace. Yields the entries in text order.
pub open spec fn entries_spec(s: Seq<char>, i: int) -> Option<(Seq<(Seq<char>, Seq<char>)>, int)>
    decreases s.len() - i,
    via entries_spec_dec
{
    match string_spec(s, i) {
        None => None,
        Some((k, j)) => {
            let j2 = skip_ws_spec(s, j);
            if !(j2 < s.len() && s[j2] == ':') {
                None
            } else {
                let j3 = skip_ws_spec(s, j2 + 1);
                match string_spec(s, j3) {
                    None => None,
                    Some((v, j4)) => {
                        let j5 = skip_ws_spec(s, j4);
                        if j5 < s.len() && s[j5] == '}' {
                            Some((seq![(k, v)], j5 + 1))
                        } else if j5 < s.len() && s[j5] == ',' {
                            let j6 = skip_ws_spec(s, j5 + 1);
                            match entries_spec(s, j6) {
                                Some((rest, j7)) => Some((seq![(k, v)] + rest, j7)),
                                None => None,
                            }
                        } else {
                            None
                        }
                    },
                }
            }
        },
    }
}

#[via_fn]
proof fn entries_spec_dec(s: Seq<char>, i: int) {
    match string_spec(s, i) {
        None => {},
        Some((k, j)) => {
            lemma_string_advances(s, i);
            let j2 = skip_ws_spec(s, j);
            lemma_skip_ws_bounds(s, j);
            if j2 < s.len() && s[j2] == ':' {
                let j3 = skip_ws_spec(s, j2 + 1);
                lemma_skip_ws_bounds(s, j2 + 1);
                match string_spec(s, j3) {
                    None => {},
                    Some((v, j4)) => {
                        lemma_string_advances(s, j3);
                        let j5 = skip_ws_spec(s, j4);
                        lemma_skip_ws_bounds(s, j4);
                        if j5 < s.len() && s[j5] == ',' {
                            lemma_skip_ws_bounds(s, j5 + 1);
                        }
                    },
                }
            }
        },
    }
}

/// The position right after a parsed entry list is within the input.
pub proof fn lemma_entries_bounds(s: Seq<char>, i: int)
    ensures
        entries_spec(s, i) matches Some(p) ==> p.1 <= s.len(),
    decreases s.len() - i,
{
    match string_spec(s, i) {
        None => {},
        Some((k, j)) => {
            lemma_string_advances(s, i);
            let j2 = skip_ws_spec(s, j);
            lemma_skip_ws_bounds(s, j);
            if j2 < s.len() && s[j2] == ':' {
                let j3 = skip_ws_spec(s, j2 + 1);
                lemma_skip_ws_bounds(s, j2 + 1);
                match string_spec(s, j3) {
                    None => {},
                    Some((v, j4)) => {
                        lemma_string_advances(s, j3);
                        let j5 = skip_ws_spec(s, j4);
                        lemma_skip_ws_bounds(s, j4);
                        if j5 < s.len() && s[j5] == ',' {
                            lemma_skip_ws_bounds(s, j5 + 1);
                            lemma_entries_bounds(s, skip_ws_spec(s, j5 + 1));
                        }
                    },
                }
            }
        },
    }
}

/// Parse the modes object whose opening brace stands at `i`: possibly
/// empty, entries in text order.
pub open spec fn modes_spec(s: Seq<char>, i: int) -> Option<(Seq<(Seq<char>, Seq<char>)>, int)> {
    if !(0 <= i < s.len() && s[i] == '{') {
        None
    } else {
        let j = skip_ws_spec(s, i + 1);
        if j < s.len() && s[j] == '}' {
            Some((Seq::<(Seq<char>, Seq<char>)>::empty(), j + 1))
        } else {
            entries_spec(s, j)
        }
    }
}

/// One parsed top-level member: the default mode name, or the mode list.
pub ghost enum MemberVal {
    Dm(Seq<char>),
    Modes(Seq<(Seq<char>, Seq<char>)>),
}

/// Parse one top-level member starting at `i` (whitespace, key, colon,
/// value). Only the two known keys are accepted.
pub open spec fn member_spec(s: Seq<char>, i: int) -> Option<(MemberVal, int)> {
    let j = skip_ws_spec(s, i);
    match string_spec(s, j) {
        None => None,
        Some((key, j2)) => {
            let j3 = skip_ws_spec(s, j2);
            if !(j3 < s.len() && s[j3] == ':') {
                None
            } else {
                let j4 = skip_ws_spec(s, j3 + 1);
                if key == "default_mode"@ {
                    match string_spec(s, j4) {
                        Some((v, j5)) => Some((MemberVal::Dm(v), j5)),
                        None => None,
                    }
                } else if key == "modes"@ {
                    match modes_spec(s, j4) {
                        Some((ms, j5)) => Some((MemberVal::Modes(ms), j5)),
                        None => None,
                    }
                } else {
                    None
                }
            }
        },
    }
}

/// Parse a whole configuration text: a single JSON object holding exactly
/// the `default_mode` member and the `modes` member, in either order, with
/// unique mode names, and nothing but whitespace after it.
pub open spec fn config_spec(s: Seq<char>) -> Option<ConfigModel> {
    let i0 = skip_ws_spec(s, 0);
    if !(i0 < s.len() && s[i0] == '{') {
        None
    } else {
        match member_spec(s, i0 + 1) {
            None => None,
            Some((m1, j)) => {
                let j2 = skip_ws_spec(s, j);
                if !(j2 < s.len() && s[j2] == ',') {
                    None
                } else {
                    match member_spec(s, j2 + 1) {
                        None => None,
                        Some((m2, j3)) => {
                            let j4 = skip_ws_spec(s, j3);
                            if !(j4 < s.len() && s[j4] == '}') {
                                None
                            } else if skip_ws_spec(s, j4 + 1) != s.len() {
                                None
                            } else {
                                match (m1, m2) {
                                    (MemberVal::Dm(d), MemberVal::Modes(ms)) => if unique_names(
                                        ms,
                                    ) {
                                        Some(ConfigModel { default_mode: d, modes: ms })
                                    } else {
                                        None
                                    },
                                    (MemberVal::Modes(ms), MemberVal::Dm(d)) => if unique_names(
                                        ms,
                                    ) {
                                        Some(ConfigModel { default_mode: d, modes: ms })
                                    } else {
                                        None
                                    },
                                    _ => None,
                                }
                            }
                        },
                    }
                }
            },
        }
    }
}

// ------------------------------------------------------------------
// Rendering parses back: the round trip
// ------------------------------------------------------------------

/// The characters the renderer writes in a way the parser reads back:
/// everything but the control characters that have no escape of their own.
pub open spec fn renderable_char(c: char) -> bool {
    (c as u32) >= 32 || c == '\n' || c == '\t' || c == '\r'
}

/// A string the renderer can round-trip.
pub open spec fn renderable(s: Seq<char>) -> bool {
    forall|k: int| 0 <= k < s.len() ==> renderable_char(s[k])
}

/// Escaping can also be unfolded from the front.
proof fn lemma_escaped_unfold_first(s: Seq<char>)
    requires
        s.len() > 0,
    ensures
        escaped(s) == escape_char(s[0]) + escaped(s.drop_first()),
    decreases s.len(),
{
    if s.len() == 1 {
        assert(s.drop_last() =~= Seq::<char>::empty());
        assert(s.drop_first() =~= Seq::<char>::empty());
        assert(escaped(s) =~= escape_char(s[0]) + escaped(s.drop_first()));
    } else {
        lemma_escaped_unfold_first(s.drop_last());
        assert(s.drop_last()[0] == s[0]);
        assert(s.drop_last().drop_first() =~= s.drop_first().drop_last());
        assert(s.drop_first().last() == s.last());
        assert(escaped(s) =~= escape_char(s[0]) + escaped(s.drop_first()));
    }
}

/// A subrange of a matched region matches the region's own subrange.
proof fn lemma_sub_subrange(t: Seq<char>, i: int, u: Seq<char>, a: int, b: int)
    requires
        0 <= i,
        i + u.len() <= t.len(),
        t.subrange(i, i + u.len()) == u,
        0 <= a <= b <= u.len(),
    ensures
        t.subrange(i + a, i + b) == u.subrange(a, b),
{
    assert forall|j: int| 0 <= j < b - a implies t.subrange(i + a, i + b)[j] == u.subrange(a, b)[j]
    by {
        assert(u[a + j] == t.subrange(i, i + u.len())[a + j]);
    }
    assert(t.subrange(i + a, i + b) =~= u.subrange(a, b));
}

/// One character of a matched region.
proof fn lemma_sub_char(t: Seq<char>, i: int, u: Seq<char>, a: int)
    requires
        0 <= i,
        i + u.len() <= t.len(),
        t.subrange(i, i + u.len()) == u,
        0 <= a < u.len(),
    ensures
        t[i + a] == u[a],
{
    assert(u[a] == t.subrange(i, i + u.len())[a]);
}

/// Parsing an escaped body followed by a closing quote yields back the
/// original characters and stops right after the quote.
proof fn lemma_parse_escaped_body(t: Seq<char>, i: int, s: Seq<char>)
    requires
        renderable(s),
        0 <= i,
        i + escaped(s).len() < t.len(),
        t.subrange(i, i + escaped(s).len()) == escaped(s),
        t[i + escaped(s).len()] == '"',
    ensures
        string_body_spec(t, i) == Some((s, i + escaped(s).len() + 1)),
    decreases s.len(),
{
    if s.len() == 0 {
        assert(t[i] == '"');
        assert(s =~= Seq::<char>::empty());
    } else {
        let c = s[0];
        let s1 = s.drop_first();
        lemma_escaped_unfold_first(s);
        let e = escape_char(c);
        assert(renderable(s1)) by {
            assert(forall|k: int| 0 <= k < s1.len() ==> s1[k] == s[k + 1]);
        }
        let i1 = i + e.len();
        assert(escaped(s).len() == e.len() + escaped(s1).len());
        lemma_sub_subrange(t, i, escaped(s), e.len() as int, escaped(s).len() as int);
        assert((escape_char(c) + escaped(s1)).subrange(
            e.len() as int,
            escaped(s).len() as int,
        ) =~= escaped(s1));
        lemma_sub_char(t, i, escaped(s), 0);
        assert(t[i] == e[0]);
        if c == '"' || c == '\\' || c == '\n' || c == '\t' || c == '\r' {
            assert(e.len() == 2);
            lemma_sub_char(t, i, escaped(s), 1);
            assert(t[i] == '\\');
            assert(t[i + 1] == e[1]);
            assert(unescaped_char(t[i + 1]) == Some(c));
            lemma_parse_escaped_body(t, i + 2, s1);
            assert(seq![c] + s1 =~= s);
        } else {
            assert(e =~= seq![c]);
            assert(t[i] == c);
            assert(t[i] != '"' && t[i] != '\\');
            assert((c as u32) >= 32);
            lemma_parse_escaped_body(t, i + 1, s1);
            assert(seq![c] + s1 =~= s);
        }
    }
}

/// Parsing a rendered JSON string yields back the original characters and
/// stops right after its closing quote.
proof fn lemma_parse_quoted(t: Seq<char>, i: int, s: Seq<char>)
    requires
        renderable(s),
        0 <= i,
        i + quoted(s).len() <= t.len(),
        t.subrange(i, i + quoted(s).len()) == quoted(s),
    ensures
        string_spec(t, i) == Some((s, i + quoted(s).len())),
{
    lemma_sub_char(t, i, quoted(s), 0);
    assert(t[i] == '"');
    lemma_sub_subrange(t, i, quoted(s), 1, 1 + escaped(s).len() as int);
    assert((seq!['"'] + escaped(s) + seq!['"']).subrange(
        1,
        1 + escaped(s).len() as int,
    ) =~= escaped(s));
    lemma_sub_char(t, i, quoted(s), 1 + escaped(s).len() as int);
    assert(t[i + 1 + escaped(s).len()] == '"');
    lemma_parse_escaped_body(t, i + 1, s);
}

/// Escaping a string in which no character needs an escape leaves it as
/// it is.
proof fn lemma_escaped_plain(s: Seq<char>)
    requires
        forall|k: int| 0 <= k < s.len() ==> escape_char(#[trigger] s[k]) == seq![s[k]],
    ensures
        escaped(s) == s,
    decreases s.len(),
{
    if s.len() > 0 {
        lemma_escaped_plain(s.drop_last());
        assert(escaped(s) =~= s);
    }
}

/// Entries the renderer can round-trip: every name and instruction is
/// renderable.
pub open spec fn renderable_entries(ms: Seq<(Seq<char>, Seq<char>)>) -> bool {
    forall|k: int|
        0 <= k < ms.len() ==> renderable((#[trigger] ms[k]).0) && renderable(ms[k].1)
}

/// Entry rendering can also be unfolded from the front.
proof fn lemma_entries_unfold_first(ms: Seq<(Seq<char>, Seq<char>)>)
    requires
        ms.len() > 1,
    ensures
        rendered_entries(ms) == rendered_entry(ms[0]) + seq![','] + rendered_entries(
            ms.drop_first(),
        ),
    decreases ms.len(),
{
    reveal_with_fuel(rendered_entries, 3);
    if ms.len() == 2 {
        assert(ms.drop_last()[0] == ms[0]);
        assert(ms.drop_first().len() == 1);
        assert(ms.drop_first()[0] == ms[1]);
        assert(rendered_entries(ms) =~= rendered_entry(ms[0]) + seq![','] + rendered_entries(
            ms.drop_first(),
        ));
    } else {
        lemma_entries_unfold_first(ms.drop_last());
        assert(ms.drop_last()[0] == ms[0]);
        assert(ms.drop_last().drop_first() =~= ms.drop_first().drop_last());
        assert(ms.drop_first().last() == ms.last());
        assert(rendered_entries(ms) =~= rendered_entry(ms[0]) + seq![','] + rendered_entries(
            ms.drop_first(),
        ));
    }
}

/// A rendered entry list opens with the quote of its first name.
proof fn lemma_entries_starts_with_quote(ms: Seq<(Seq<char>, Seq<char>)>)
    requires
        ms.len() > 0,
    ensures
        rendered_entries(ms).len() > 0,
        rendered_entries(ms)[0] == '"',
    decreases ms.len(),
{
    if ms.len() > 1 {
        lemma_entries_unfold_first(ms);
    }
    assert(rendered_entry(ms[0])[0] == '"');
}

/// Parsing rendered entries followed by the closing brace yields back the
/// entries, in order, and stops right after the brace.
proof fn lemma_parse_rendered_entries(t: Seq<char>, i: int, ms: Seq<(Seq<char>, Seq<char>)>)
    requires
        renderable_entries(ms),
        ms.len() > 0,
        0 <= i,
        i + rendered_entries(ms).len() < t.len(),
        t.subrange(i, i + rendered_entries(ms).len()) == rendered_entries(ms),
        t[i + rendered_entries(ms).len()] == '}',
    ensures
        entries_spec(t, i) == Some((ms, i + rendered_entries(ms).len() + 1)),
    decreases ms.len(),
{
    let k = ms[0].0;
    let v = ms[0].1;
    let e = rendered_entry(ms[0]);
    let u = rendered_entries(ms);
    if ms.len() > 1 {
        lemma_entries_unfold_first(ms);
    }
    let lk = quoted(k).len() as int;
    let lv = quoted(v).len() as int;
    assert(e.len() == lk + 1 + lv);
    lemma_sub_subrange(t, i, u, 0, lk);
    assert(u.subrange(0, lk) =~= quoted(k));
    lemma_parse_quoted(t, i, k);
    let p1 = i + lk;
    lemma_sub_char(t, i, u, lk);
    assert(u[lk] == ':');
    let p2 = p1 + 1;
    lemma_sub_subrange(t, i, u, lk + 1, lk + 1 + lv);
    assert(u.subrange(lk + 1, lk + 1 + lv) =~= quoted(v));
    lemma_parse_quoted(t, p2, v);
    let p3 = p2 + lv;
    if ms.len() == 1 {
        assert(p3 == i + u.len());
        assert(ms[0] == (k, v));
        assert(seq![(k, v)] =~= ms);
    } else {
        lemma_sub_char(t, i, u, e.len() as int);
        assert(u[e.len() as int] == ',');
        let rest = ms.drop_first();
        assert(renderable_entries(rest)) by {
            assert(forall|x: int| 0 <= x < rest.len() ==> rest[x] == ms[x + 1]);
        }
        lemma_sub_subrange(t, i, u, e.len() as int + 1, u.len() as int);
        assert(u.subrange(e.len() as int + 1, u.len() as int) =~= rendered_entries(rest));
        lemma_entries_starts_with_quote(rest);
        lemma_sub_char(t, p3 + 1, rendered_entries(rest), 0);
        lemma_parse_rendered_entries(t, p3 + 1, rest);
        assert(ms[0] == (k, v));
        assert(seq![(k, v)] + rest =~= ms);
    }
}

/// Parsing a rendered modes object yields back the entries and stops
/// right after its closing brace.
proof fn lemma_parse_rendered_modes(t: Seq<char>, i: int, ms: Seq<(Seq<char>, Seq<char>)>)
    requires
        renderable_entries(ms),
        0 <= i < t.len(),
        t[i] == '{',
        i + 1 + rendered_entries(ms).len() < t.len(),
        t.subrange(i + 1, i + 1 + rendered_entries(ms).len()) == rendered_entries(ms),
        t[i + 1 + rendered_entries(ms).len()] == '}',
    ensures
        modes_spec(t, i) == Some((ms, i + 2 + rendered_entries(ms).len())),
{
    if ms.len() == 0 {
        assert(t[i + 1] == '}');
        assert(ms =~= Seq::<(Seq<char>, Seq<char>)>::empty());
    } else {
        lemma_entries_starts_with_quote(ms);
        lemma_sub_char(t, i + 1, rendered_entries(ms), 0);
        assert(t[i + 1] == '"');
        lemma_parse_rendered_entries(t, i + 1, ms);
    }
}

/// A configuration the renderer can round-trip.
pub open spec fn renderable_config(m: ConfigModel) -> bool {
    renderable(m.default_mode) && renderable_entries(m.modes)
}

/// Rendering a configuration and parsing the text back yields the same
/// configuration: persisted defaults (or any rendered config) load again
/// as an equal config.
#[verifier::rlimit(100)]
pub proof fn lemma_config_round_trip(m: ConfigModel)
    requires
        unique_names(m.modes),
        renderable_config(m),
    ensures
        config_spec(rendered_config(m)) == Some(m),
{
    reveal_strlit("{\"default_mode\":");
    reveal_strlit(",\"modes\":{");
    reveal_strlit("}}");
    reveal_strlit("default_mode");
    reveal_strlit("modes");
    let lit1 = "{\"default_mode\":"@;
    let lit2 = ",\"modes\":{"@;
    let end = "}}"@;
    let dmk = "default_mode"@;
    let msk = "modes"@;
    let t = rendered_config(m);
    let qd = quoted(m.default_mode);
    let re = rendered_entries(m.modes);
    assert(forall|k: int| 0 <= k < dmk.len() ==> escape_char(#[trigger] dmk[k]) == seq![dmk[k]]);
    lemma_escaped_plain(dmk);
    assert(forall|k: int| 0 <= k < msk.len() ==> escape_char(#[trigger] msk[k]) == seq![msk[k]]);
    lemma_escaped_plain(msk);
    assert(renderable(dmk));
    assert(renderable(msk));
    assert(lit1 =~= seq!['{'] + quoted(dmk) + seq![':']);
    assert(lit2 =~= seq![','] + quoted(msk) + seq![':'] + seq!['{']);
    assert(lit1.len() == 16 && lit2.len() == 10 && end.len() == 2);
    assert(quoted(dmk).len() == 14 && quoted(msk).len() == 7);
    assert(t =~= lit1 + qd + (lit2 + re + end));
    assert(t.len() == 28 + qd.len() + re.len());
    // The region of each piece of the rendered text.
    assert(t.subrange(0, 16) =~= lit1);
    assert(t.subrange(16, 16 + qd.len() as int) =~= qd);
    let j: int = 16 + qd.len() as int;
    assert(t.subrange(j, j + 10) =~= lit2);
    assert(t.subrange(j + 10, j + 10 + re.len() as int) =~= re);
    assert(t[t.len() as int - 2] == '}' && t[t.len() as int - 1] == '}');
    // The object opens at 0.
    lemma_sub_char(t, 0, lit1, 0);
    assert(t[0] == '{');
    // First member: the default mode. Its key occupies lit1 after the
    // opening brace.
    lemma_sub_subrange(t, 0, lit1, 1, 15);
    assert(lit1.subrange(1, 15) =~= quoted(dmk));
    lemma_parse_quoted(t, 1, dmk);
    lemma_sub_char(t, 0, lit1, 15);
    assert(t[15] == ':');
    lemma_sub_char(t, 16, qd, 0);
    assert(qd[0] == '"');
    lemma_parse_quoted(t, 16, m.default_mode);
    assert(member_spec(t, 1) == Some((MemberVal::Dm(m.default_mode), j)));
    // The comma between the members.
    lemma_sub_char(t, j, lit2, 0);
    assert(t[j] == ',');
    // Second member: the modes. Its key occupies lit2 after the comma.
    lemma_sub_subrange(t, j, lit2, 1, 8);
    assert(lit2.subrange(1, 8) =~= quoted(msk));
    lemma_parse_quoted(t, j + 1, msk);
    lemma_sub_char(t, j, lit2, 8);
    assert(t[j + 8] == ':');
    lemma_sub_char(t, j, lit2, 9);
    assert(t[j + 9] == '{');
    assert(msk != dmk);
    lemma_parse_rendered_modes(t, j + 9, m.modes);
    assert(member_spec(t, j + 1) == Some((MemberVal::Modes(m.modes), t.len() as int - 1)));
    // The object closes and nothing but the end follows.
    assert(config_spec(t) == Some(ConfigModel { default_mode: m.default_mode, modes: m.modes }));
    assert(ConfigModel { default_mode: m.default_mode, modes: m.modes } =~= m);
}

/// The built-in defaults round-trip: the text persisted for a missing
/// config file loads again as the same configuration, so a second load
/// has no defaults to rewrite.
pub proof fn lemma_default_config_round_trip()
    ensures
        config_spec(rendered_config(crate::config::default_config_model()))
            == Some(crate::config::default_config_model()),
{
    let m = crate::config::default_config_model();
    crate::config::lemma_default_config_wf();
    reveal_strlit("tldr");
    reveal_strlit("bullets");
    reveal_strlit("direct");
    reveal_strlit("hebrew");
    reveal_strlit("spanish");
    reveal_strlit("Return a 2-sentence summary.");
    reveal_strlit("Return max 5 action-oriented bullets.");
    reveal_strlit("Rewrite, removing filler, max 120 chars.");
    reveal_strlit("Translate to Hebrew, keep formatting.");
    reveal_strlit("Translate to Spanish, keep formatting.");
    assert(renderable("tldr"@));
    assert(renderable("bullets"@));
    assert(renderable("direct"@));
    assert(renderable("hebrew"@));
    assert(renderable("spanish"@));
    assert(renderable("Return a 2-sentence summary."@));
    assert(renderable("Return max 5 action-oriented bullets."@));
    assert(renderable("Rewrite, removing filler, max 120 chars."@));
    assert(renderable("Translate to Hebrew, keep formatting."@));
    assert(renderable("Translate to Spanish, keep formatting."@));
    assert(renderable_entries(m.modes)) by {
        assert forall|k: int| 0 <= k < m.modes.len() implies renderable(
            (#[trigger] m.modes[k]).0,
        ) && renderable(m.modes[k].1) by {
            if k == 0 {
            } else if k == 1 {
            } else if k == 2 {
            } else if k == 3 {
            } else {
                assert(k == 4);
            }
        }
    }
    lemma_config_round_trip(m);
}

// ------------------------------------------------------------------
// Parsing: executable
// ------------------------------------------------------------------

/// Executable counterpart of [`is_json_ws`].
fn is_json_ws_char(c: char) -> (r: bool)
    ensures
        r == is_json_ws(c),
{
    c == ' ' || c == '\t' || c == '\n' || c == '\r'
}

/// Executable counterpart of [`skip_ws_spec`].
fn skip_ws(v: &Vec<char>, i: usize) -> (j: usize)
    requires
        i <= v@.len(),
    ensures
        i <= j <= v@.len(),
        j == skip_ws_spec(v@, i as int),
{
    let mut j = i;
    while j < v.len() && is_json_ws_char(v[j])
        invariant
            i <= j <= v@.len(),
            skip_ws_spec(v@, i as int) == skip_ws_spec(v@, j as int),
        decreases v@.len() - j,
    {
        j = j + 1;
    }
    j
}

/// Executable counterpart of [`unescaped_char`].
fn unescape_char(c: char) -> (r: Option<char>)
    ensures
        r == unescaped_char(c),
{
    if c == '"' {
        Some('"')
    } else if c == '\\' {
        Some('\\')
    } else if c == '/' {
        Some('/')
    } else if c == 'n' {
        Some('\n')
    } else if c == 't' {
        Some('\t')
    } else if c == 'r' {
        Some('\r')
    } else if c == 'b' {
        Some('\u{0008}')
    } else if c == 'f' {
        Some('\u{000c}')
    } else {
        None
    }
}

/// Executable counterpart of [`string_body_spec`].
fn parse_string_body(v: &Vec<char>, i: usize) -> (r: Option<(Vec<char>, usize)>)
    requires
        i <= v@.len(),
    ensures
        match (r, string_body_spec(v@, i as int)) {
            (Some(p), Some(q)) => p.0@ == q.0 && p.1 == q.1 && p.1 <= v@.len(),
            (None, None) => true,
            _ => false,
        },
    decreases v@.len() - i,
{
    proof {
        lemma_string_body_advances(v@, i as int);
    }
    if i >= v.len() {
        return None;
    }
    let c = v[i];
    if c == '"' {
        return Some((Vec::new(), i + 1));
    }
    if c == '\\' {
        if i + 1 >= v.len() {
            return None;
        }
        match unescape_char(v[i + 1]) {
            None => None,
            Some(u) => match parse_string_body(v, i + 2) {
                None => None,
                Some((mut t, j)) => {
                    t.insert(0, u);
                    proof {
                        let q = string_body_spec(v@, i as int).unwrap();
                        assert(t@ =~= q.0);
                    }
                    Some((t, j))
                },
            },
        }
    } else if (c as u32) < 32 {
        None
    } else {
        match parse_string_body(v, i + 1) {
            None => None,
            Some((mut t, j)) => {
                t.insert(0, c);
                proof {
                    let q = string_body_spec(v@, i as int).unwrap();
                    assert(t@ =~= q.0);
                }
                Some((t, j))
            },
        }
    }
}

/// Executable counterpart of [`string_spec`].
fn parse_string(v: &Vec<char>, i: usize) -> (r: Option<(Vec<char>, usize)>)
    requires
        i <= v@.len(),
    ensures
        match (r, string_spec(v@, i as int)) {
            (Some(p), Some(q)) => p.0@ == q.0 && p.1 == q.1 && i < p.1 <= v@.len(),
            (None, None) => true,
            _ => false,
        },
{
    proof {
        lemma_string_advances(v@, i as int);
    }
    if i < v.len() && v[i] == '"' {
        parse_string_body(v, i + 1)
    } else {
        None
    }
}

/// Whether two character vectors hold the same characters.
fn chars_eq(a: &Vec<char>, b: &Vec<char>) -> (r: bool)
    ensures
        r == (a@ == b@),
{
    if a.len() != b.len() {
        return false;
    }
    let mut i: usize = 0;
    while i < a.len()
        invariant
            a@.len() == b@.len(),
            i <= a@.len(),
            forall|j: int| 0 <= j < i ==> a@[j] == b@[j],
        decreases a@.len() - i,
    {
        if a[i] != b[i] {
            return false;
        }
        i = i + 1;
    }
    proof {
        assert(a@ =~= b@);
    }
    true
}

/// Executable counterpart of [`entries_spec`]; entries come back as
/// strings, in text order.
fn parse_entries(v: &Vec<char>, i: usize) -> (r: Option<(Vec<(String, String)>, usize)>)
    requires
        i <= v@.len(),
    ensures
        match (r, entries_spec(v@, i as int)) {
            (Some(p), Some(q)) => pairs_view(p.0@) == q.0 && p.1 == q.1 && p.1 <= v@.len(),
            (None, None) => true,
            _ => false,
        },
    decreases v@.len() - i,
{
    proof {
        lemma_entries_bounds(v@, i as int);
    }
    match parse_string(v, i) {
        None => None,
        Some((k, j)) => {
            let j2 = skip_ws(v, j);
            if !(j2 < v.len() && v[j2] == ':') {
                return None;
            }
            let j3 = skip_ws(v, j2 + 1);
            match parse_string(v, j3) {
                None => None,
                Some((val, j4)) => {
                    let j5 = skip_ws(v, j4);
                    if j5 < v.len() && v[j5] == '}' {
                        let ks = string_of(&k);
                        let vs = string_of(&val);
                        let mut one: Vec<(String, String)> = Vec::new();
                        one.push((ks, vs));
                        proof {
                            let q = entries_spec(v@, i as int).unwrap();
                            assert(pairs_view(one@) =~= q.0);
                        }
                        Some((one, j5 + 1))
                    } else if j5 < v.len() && v[j5] == ',' {
                        let j6 = skip_ws(v, j5 + 1);
                        match parse_entries(v, j6) {
                            None => None,
                            Some((mut rest, j7)) => {
                                let ks = string_of(&k);
                                let vs = string_of(&val);
                                rest.insert(0, (ks, vs));
                                proof {
                                    let q = entries_spec(v@, i as int).unwrap();
                                    assert(pairs_view(rest@) =~= q.0);
                                }
                                Some((rest, j7))
                            },
                        }
                    } else {
                        None
                    }
                },
            }
        },
    }
}

/// Executable counterpart of [`modes_spec`].
fn parse_modes(v: &Vec<char>, i: usize) -> (r: Option<(Vec<(String, String)>, usize)>)
    requires
        i <= v@.len(),
    ensures
        match (r, modes_spec(v@, i as int)) {
            (Some(p), Some(q)) => pairs_view(p.0@) == q.0 && p.1 == q.1 && p.1 <= v@.len(),
            (None, None) => true,
            _ => false,
        },
{
    if !(i < v.len() && v[i] == '{') {
        return None;
    }
    let j = skip_ws(v, i + 1);
    if j < v.len() && v[j] == '}' {
        let empty: Vec<(String, String)> = Vec::new();
        proof {
            let q = modes_spec(v@, i as int).unwrap();
            assert(pairs_view(empty@) =~= q.0);
        }
        Some((empty, j + 1))
    } else {
        parse_entries(v, j)
    }
}

/// One parsed top-level member.
enum ParsedMember {
    DefaultMode(String),
    ModeList(Vec<(String, String)>),
}

/// How a parsed member corresponds to its specification value.
spec fn member_matches(e: ParsedMember, g: MemberVal) -> bool {
    match (e, g) {
        (ParsedMember::DefaultMode(s), MemberVal::Dm(t)) => s@ == t,
        (ParsedMember::ModeList(ms), MemberVal::Modes(gs)) => pairs_view(ms@) == gs,
        _ => false,
    }
}

/// Executable counterpart of [`member_spec`].
fn parse_member(v: &Vec<char>, i: usize) -> (r: Option<(ParsedMember, usize)>)
    requires
        i <= v@.len(),
    ensures
        match (r, member_spec(v@, i as int)) {
            (Some(p), Some(q)) => member_matches(p.0, q.0) && p.1 == q.1 && p.1 <= v@.len(),
            (None, None) => true,
            _ => false,
        },
{
    let j = skip_ws(v, i);
    match parse_string(v, j) {
        None => None,
        Some((key, j2)) => {
            let j3 = skip_ws(v, j2);
            if !(j3 < v.len() && v[j3] == ':') {
                return None;
            }
            let j4 = skip_ws(v, j3 + 1);
            let dm_key = chars_of("default_mode");
            let modes_key = chars_of("modes");
            if chars_eq(&key, &dm_key) {
                match parse_string(v, j4) {
                    Some((val, j5)) => Some((ParsedMember::DefaultMode(string_of(&val)), j5)),
                    None => None,
                }
            } else if chars_eq(&key, &modes_key) {
                match parse_modes(v, j4) {
                    Some((ms, j5)) => Some((ParsedMember::ModeList(ms), j5)),
                    None => None,
                }
            } else {
                None
            }
        },
    }
}

/// Whether all mode names in the list are distinct.
fn names_unique(ms: &Vec<(String, String)>) -> (r: bool)
    ensures
        r == unique_names(pairs_view(ms@)),
{
    let n = ms.len();
    let mut i: usize = 0;
    while i < n
        invariant
            n == ms@.len(),
            i <= n,
            forall|a: int, b: int|
                0 <= a < b < n && a < i ==> (#[trigger] pairs_view(ms@)[a]).0
                    != (#[trigger] pairs_view(ms@)[b]).0,
        decreases n - i,
    {
        let mut j: usize = i + 1;
        while j < n
            invariant
                n == ms@.len(),
                i < n,
                i + 1 <= j <= n,
                forall|b: int| i < b < j ==> (#[trigger] pairs_view(ms@)[b]).0
                    != pairs_view(ms@)[i as int].0,
            decreases n - j,
        {
            if ms[i].0 == ms[j].0 {
                proof {
                    assert((pairs_view(ms@)[i as int]).0 == (pairs_view(ms@)[j as int]).0);
                }
                return false;
            }
            j = j + 1;
        }
        i = i + 1;
    }
    true
}

/// Parse a configuration text; anything the format does not accept is a
/// corrupt config.
pub fn parse_config(s: &str) -> (r: Result<PromptsConfig, PipelineError>)
    ensures
        match r {
            Ok(c) => config_spec(s@) == Some(c@) && c@.wf(),
            Err(e) => e == PipelineError::ConfigCorrupt && config_spec(s@) is None,
        },
{
    let v = chars_of(s);
    let i0 = skip_ws(&v, 0);
    if !(i0 < v.len() && v[i0] == '{') {
        return Err(PipelineError::ConfigCorrupt);
    }
    let m1 = match parse_member(&v, i0 + 1) {
        Some(p) => p,
        None => {
            return Err(PipelineError::ConfigCorrupt);
        },
    };
    let j2 = skip_ws(&v, m1.1);
    if !(j2 < v.len() && v[j2] == ',') {
        return Err(PipelineError::ConfigCorrupt);
    }
    let m2 = match parse_member(&v, j2 + 1) {
        Some(p) => p,
        None => {
            return Err(PipelineError::ConfigCorrupt);
        },
    };
    let j4 = skip_ws(&v, m2.1);
    if !(j4 < v.len() && v[j4] == '}') {
        return Err(PipelineError::ConfigCorrupt);
    }
    if skip_ws(&v, j4 + 1) != v.len() {
        return Err(PipelineError::ConfigCorrupt);
    }
    let (dm, modes) = match (m1.0, m2.0) {
        (ParsedMember::DefaultMode(d), ParsedMember::ModeList(ms)) => (d, ms),
        (ParsedMember::ModeList(ms), ParsedMember::DefaultMode(d)) => (d, ms),
        _ => {
            return Err(PipelineError::ConfigCorrupt);
        },
    };
    if !names_unique(&modes) {
        return Err(PipelineError::ConfigCorrupt);
    }
    let c = PromptsConfig { default_mode: dm, modes };
    Ok(c)
}

} // verus!
