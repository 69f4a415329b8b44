//! A small JSON tree, a renderer for it, and a parser, with the parser and
//! renderer related by round-trip lemmas on the shapes this service emits.
use vstd::prelude::*;

verus! {

broadcast use vstd::std_specs::vec::axiom_vec_index_decreases;

/// One `key: value` pair of a JSON object.
pub struct Member {
    pub key: String,
    pub value: Json,
}

/// A JSON document. Numbers keep their source text, so no precision is lost
/// and no floating point is involved.
pub enum Json {
    Null,
    Bool(bool),
    Num(String),
    Str(String),
    Arr(Vec<Json>),
    Obj(Vec<Member>),
}

/// The mathematical shape of a JSON document.
pub enum JsonV {
    Null,
    Bool(bool),
    Num(Seq<char>),
    Str(Seq<char>),
    Arr(Seq<JsonV>),
    Obj(Seq<(Seq<char>, JsonV)>),
}

impl View for Json {
    type V = JsonV;

    open spec fn view(&self) -> JsonV
        decreases *self, 0int,
    {
        match self {
            Json::Null => JsonV::Null,
            Json::Bool(b) => JsonV::Bool(*b),
            Json::Num(s) => JsonV::Num(s@),
            Json::Str(s) => JsonV::Str(s@),
            Json::Arr(v) => JsonV::Arr(jview_elems(v, 0)),
            Json::Obj(ms) => JsonV::Obj(jview_members(ms, 0)),
        }
    }
}

/// The views of the elements of `v` from position `i` on.
pub open spec fn jview_elems(v: &Vec<Json>, i: int) -> Seq<JsonV>
    decreases *v, v.len() - i,
{
    if i < 0 || i >= v.len() {
        Seq::empty()
    } else {
        seq![v[i]@] + jview_elems(v, i + 1)
    }
}

/// The views of the members of `ms` from position `i` on.
pub open spec fn jview_members(ms: &Vec<Member>, i: int) -> Seq<(Seq<char>, JsonV)>
    decreases *ms, ms.len() - i,
{
    if i < 0 || i >= ms.len() {
        Seq::empty()
    } else {
        seq![(ms[i].key@, ms[i].value@)] + jview_members(ms, i + 1)
    }
}

// ---------------------------------------------------------------------------
// Rendering (spec)
// ---------------------------------------------------------------------------

/// The lower-case hexadecimal digit for a value below sixteen.
pub open spec fn hex_digit(n: nat) -> char {
    if n == 0 { '0' } else if n == 1 { '1' } else if n == 2 { '2' } else if n == 3 { '3' }
    else if n == 4 { '4' } else if n == 5 { '5' } else if n == 6 { '6' } else if n == 7 { '7' }
    else if n == 8 { '8' } else if n == 9 { '9' } else if n == 10 { 'a' } else if n == 11 { 'b' }
    else if n == 12 { 'c' } else if n == 13 { 'd' } else if n == 14 { 'e' } else { 'f' }
}

/// How one character appears inside a rendered JSON string: quotes and
/// backslashes get a backslash escape, control characters become `\u00XX`,
/// and everything else stands as itself.
pub open spec fn spec_escape_char(c: char) -> Seq<char> {
    if c == '"' {
        seq!['\\', '"']
    } else if c == '\\' {
        seq!['\\', '\\']
    } else if (c as u32) < 32 {
        seq!['\\', 'u', '0', '0', hex_digit(((c as u32) / 16) as nat), hex_digit(
            ((c as u32) % 16) as nat,
        )]
    } else {
        seq![c]
    }
}

pub open spec fn spec_escape(s: Seq<char>) -> Seq<char>
    decreases s.len(),
{
    if s.len() == 0 {
        Seq::empty()
    } else {
        spec_escape_char(s[0]) + spec_escape(s.subrange(1, s.len() as int))
    }
}

pub open spec fn spec_render_string(s: Seq<char>) -> Seq<char> {
    seq!['"'] + spec_escape(s) + seq!['"']
}

pub open spec fn spec_render(j: JsonV) -> Seq<char>
    decreases j,
{
    match j {
        JsonV::Null => seq!['n', 'u', 'l', 'l'],
        JsonV::Bool(b) => if b {
            seq!['t', 'r', 'u', 'e']
        } else {
            seq!['f', 'a', 'l', 's', 'e']
        },
        JsonV::Num(s) => s,
        JsonV::Str(s) => spec_render_string(s),
        JsonV::Arr(a) => seq!['['] + spec_render_elems(a) + seq![']'],
        JsonV::Obj(ms) => seq!['{'] + spec_render_members(ms) + seq!['}'],
    }
}

pub open spec fn spec_render_elems(a: Seq<JsonV>) -> Seq<char>
    decreases a,
{
    if a.len() == 0 {
        Seq::empty()
    } else if a.len() == 1 {
        spec_render(a[0])
    } else {
        spec_render(a[0]) + seq![','] + spec_render_elems(a.subrange(1, a.len() as int))
    }
}

pub open spec fn spec_render_members(ms: Seq<(Seq<char>, JsonV)>) -> Seq<char>
    decreases ms,
{
    if ms.len() == 0 {
        Seq::empty()
    } else if ms.len() == 1 {
        spec_render_string(ms[0].0) + seq![':'] + spec_render(ms[0].1)
    } else {
        spec_render_string(ms[0].0) + seq![':'] + spec_render(ms[0].1) + seq![',']
            + spec_render_members(ms.subrange(1, ms.len() as int))
    }
}

// ---------------------------------------------------------------------------
// Parsing (spec)
// ---------------------------------------------------------------------------

pub open spec fn is_ws(c: char) -> bool {
    c == ' ' || c == '\t' || c == '\n' || c == '\r'
}

pub open spec fn skip_ws(s: Seq<char>) -> Seq<char>
    decreases s.len(),
{
    if s.len() > 0 && is_ws(s[0]) {
        skip_ws(s.subrange(1, s.len() as int))
    } else {
        s
    }
}

pub open spec fn spec_hex_val(c: char) -> Option<u8> {
    if '0' as u32 <= c as u32 && c as u32 <= '9' as u32 {
        Some((c as u32 - '0' as u32) as u8)
    } else if 'a' as u32 <= c as u32 && c as u32 <= 'f' as u32 {
        Some((c as u32 - 'a' as u32 + 10) as u8)
    } else if 'A' as u32 <= c as u32 && c as u32 <= 'F' as u32 {
        Some((c as u32 - 'A' as u32 + 10) as u8)
    } else {
        None
    }
}

/// The character a short backslash escape stands for.
pub open spec fn spec_unescape_code(c: char) -> Option<char> {
    if c == '"' { Some('"') } else if c == '\\' { Some('\\') } else if c == '/' { Some('/') }
    else if c == 'b' { Some('\u{08}') } else if c == 'f' { Some('\u{0C}') }
    else if c == 'n' { Some('\n') } else if c == 'r' { Some('\r') } else if c == 't' { Some('\t') }
    else { None }
}

/// Parses the rest of a JSON string after its opening quote; returns the
/// decoded content and the remainder after the closing quote. Only `\u00XX`
/// forms of the `\u` escape are accepted; raw characters below space are not.
pub open spec fn spec_parse_string_body(s: Seq<char>) -> Option<(Seq<char>, Seq<char>)>
    decreases s.len(),
{
    if s.len() == 0 {
        None
    } else if s[0] == '"' {
        Some((Seq::empty(), s.subrange(1, s.len() as int)))
    } else if s[0] == '\\' {
        if s.len() < 2 {
            None
        } else if s[1] == 'u' {
            if s.len() < 6 {
                None
            } else if s[2] == '0' && s[3] == '0' {
                match (spec_hex_val(s[4]), spec_hex_val(s[5])) {
                    (Some(h1), Some(h2)) => match spec_parse_string_body(
                        s.subrange(6, s.len() as int),
                    ) {
                        Some((cs, r)) => Some((seq![((h1 * 16 + h2) as u32) as char] + cs, r)),
                        None => None,
                    },
                    _ => None,
                }
            } else {
                None
            }
        } else {
            match spec_unescape_code(s[1]) {
                Some(c) => match spec_parse_string_body(s.subrange(2, s.len() as int)) {
                    Some((cs, r)) => Some((seq![c] + cs, r)),
                    None => None,
                },
                None => None,
            }
        }
    } else if (s[0] as u32) >= 32 {
        match spec_parse_string_body(s.subrange(1, s.len() as int)) {
            Some((cs, r)) => Some((seq![s[0]] + cs, r)),
            None => None,
        }
    } else {
        None
    }
}

pub open spec fn is_num_char(c: char) -> bool {
    ('0' as u32 <= c as u32 && c as u32 <= '9' as u32) || c == '-' || c == '+' || c == '.'
        || c == 'e' || c == 'E'
}

/// The length of the longest prefix made of number characters.
pub open spec fn num_len(s: Seq<char>) -> nat
    decreases s.len(),
{
    if s.len() > 0 && is_num_char(s[0]) {
        num_len(s.subrange(1, s.len() as int)) + 1
    } else {
        0
    }
}

/// Parses one JSON value, leading whitespace allowed; returns the value and
/// the remainder right after it.
pub open spec fn spec_parse_value(s: Seq<char>) -> Option<(JsonV, Seq<char>)>
    decreases s.len(), 0int,
{
    let t = skip_ws(s);
    if t.len() == 0 {
        None
    } else if t[0] == 'n' {
        if t.len() >= 4 && t[1] == 'u' && t[2] == 'l' && t[3] == 'l' {
            Some((JsonV::Null, t.subrange(4, t.len() as int)))
        } else {
            None
        }
    } else if t[0] == 't' {
        if t.len() >= 4 && t[1] == 'r' && t[2] == 'u' && t[3] == 'e' {
            Some((JsonV::Bool(true), t.subrange(4, t.len() as int)))
        } else {
            None
        }
    } else if t[0] == 'f' {
        if t.len() >= 5 && t[1] == 'a' && t[2] == 'l' && t[3] == 's' && t[4] == 'e' {
            Some((JsonV::Bool(false), t.subrange(5, t.len() as int)))
        } else {
            None
        }
    } else if t[0] == '"' {
        match spec_parse_string_body(t.subrange(1, t.len() as int)) {
            Some((cs, r)) => Some((JsonV::Str(cs), r)),
            None => None,
        }
    } else if t[0] == '[' {
        let u = skip_ws(t.subrange(1, t.len() as int));
        if u.len() > 0 && u[0] == ']' {
            Some((JsonV::Arr(Seq::empty()), u.subrange(1, u.len() as int)))
        } else if u.len() < s.len() {
            match spec_parse_elems(u) {
                Some((es, r)) => Some((JsonV::Arr(es), r)),
                None => None,
            }
        } else {
            None
        }
    } else if t[0] == '{' {
        let u = skip_ws(t.subrange(1, t.len() as int));
        if u.len() > 0 && u[0] == '}' {
            Some((JsonV::Obj(Seq::empty()), u.subrange(1, u.len() as int)))
        } else if u.len() < s.len() {
            match spec_parse_members(u) {
                Some((es, r)) => Some((JsonV::Obj(es), r)),
                None => None,
            }
        } else {
            None
        }
    } else if is_num_char(t[0]) && t[0] != '+' && t[0] != '.' && t[0] != 'e' && t[0] != 'E' {
        Some((JsonV::Num(t.subrange(0, num_len(t) as int)), t.subrange(num_len(t) as int, t.len() as int)))
    } else {
        None
    }
}

/// Parses a comma-separated list of values up to and including `]`.
pub open spec fn spec_parse_elems(s: Seq<char>) -> Option<(Seq<JsonV>, Seq<char>)>
    decreases s.len(), 1int,
{
    match spec_parse_value(s) {
        Some((v, r)) => {
            let w = skip_ws(r);
            if w.len() > 0 && w[0] == ']' {
                Some((seq![v], w.subrange(1, w.len() as int)))
            } else if w.len() > 0 && w[0] == ',' && w.len() <= s.len() {
                match spec_parse_elems(w.subrange(1, w.len() as int)) {
                    Some((es, r2)) => Some((seq![v] + es, r2)),
                    None => None,
                }
            } else {
                None
            }
        },
        None => None,
    }
}

/// Parses a comma-separated list of `"key": value` pairs up to and
/// including `}`.
pub open spec fn spec_parse_members(s: Seq<char>) -> Option<(Seq<(Seq<char>, JsonV)>, Seq<char>)>
    decreases s.len(), 1int,
{
    let t = skip_ws(s);
    if t.len() == 0 || t[0] != '"' {
        None
    } else {
        match spec_parse_string_body(t.subrange(1, t.len() as int)) {
            Some((k, r)) => {
                let w = skip_ws(r);
                if w.len() == 0 || w[0] != ':' {
                    None
                } else if w.len() <= s.len() {
                    match spec_parse_value(w.subrange(1, w.len() as int)) {
                        Some((v, r2)) => {
                            let w2 = skip_ws(r2);
                            if w2.len() > 0 && w2[0] == '}' {
                                Some((seq![(k, v)], w2.subrange(1, w2.len() as int)))
                            } else if w2.len() > 0 && w2[0] == ',' && w2.len() <= s.len() {
                                match spec_parse_members(w2.subrange(1, w2.len() as int)) {
                                    Some((ms, r3)) => Some((seq![(k, v)] + ms, r3)),
                                    None => None,
                                }
                            } else {
                                None
                            }
                        },
                        None => None,
                    }
                } else {
                    None
                }
            },
            None => None,
        }
    }
}

/// Parses a whole text: one value with nothing but whitespace after it.
pub open spec fn spec_parse_text(s: Seq<char>) -> Option<JsonV> {
    match spec_parse_value(s) {
        Some((v, r)) => if skip_ws(r).len() == 0 {
            Some(v)
        } else {
            None
        },
        None => None,
    }
}

// ---------------------------------------------------------------------------
// Small executable helpers
// ---------------------------------------------------------------------------

/// Relies on `String::push` from std: it appends exactly the given character.
#[verifier::external_body]
pub(crate) fn push_char(s: &mut String, c: char)
    ensures
        final(s)@ == old(s)@ + seq![c],
{
    s.push(c);
}

/// Relies on `char::from_u32` from std: every code below the surrogate
/// range is a character, with that code.
#[verifier::external_body]
fn char_from_code(n: u32) -> (c: char)
    requires
        n < 0xD800,
    ensures
        c == (n as char),
{
    char::from_u32(n).unwrap()
}

fn char_string(c: char) -> (r: String)
    ensures
        r@ == seq![c],
{
    let mut s = String::new();
    push_char(&mut s, c);
    proof {
        assert(s@ =~= seq![c]);
    }
    s
}

fn at(s: &[char], i: usize) -> (c: char)
    requires
        i < s@.len(),
    ensures
        c == s@[i as int],
{
    *vstd::slice::slice_index_get(s, i)
}

fn tail<'a>(s: &'a [char], i: usize) -> (r: &'a [char])
    requires
        i <= s@.len(),
    ensures
        r@ == s@.subrange(i as int, s@.len() as int),
{
    vstd::slice::slice_subrange(s, i, s.len())
}

fn is_ws_exec(c: char) -> (r: bool)
    ensures
        r == is_ws(c),
{
    c == ' ' || c == '\t' || c == '\n' || c == '\r'
}

fn is_num_char_exec(c: char) -> (r: bool)
    ensures
        r == is_num_char(c),
{
    ('0' <= c && c <= '9') || c == '-' || c == '+' || c == '.' || c == 'e' || c == 'E'
}

fn hex_val(c: char) -> (r: Option<u8>)
    ensures
        r == spec_hex_val(c),
        r matches Some(h) ==> h <= 15,
{
    if '0' <= c && c <= '9' {
        Some((c as u32 - '0' as u32) as u8)
    } else if 'a' <= c && c <= 'f' {
        Some((c as u32 - 'a' as u32 + 10) as u8)
    } else if 'A' <= c && c <= 'F' {
        Some((c as u32 - 'A' as u32 + 10) as u8)
    } else {
        None
    }
}

proof fn lemma_skip_ws_at(s: Seq<char>, i: int)
    requires
        0 <= i <= s.len(),
        forall|k: int| 0 <= k < i ==> is_ws(s[k]),
        i == s.len() || !is_ws(s[i]),
    ensures
        skip_ws(s) == s.subrange(i, s.len() as int),
    decreases i,
{
    if i == 0 {
        assert(s.subrange(0, s.len() as int) =~= s);
    } else {
        let s1 = s.subrange(1, s.len() as int);
        lemma_skip_ws_at(s1, i - 1);
        assert(s1.subrange(i - 1, s1.len() as int) =~= s.subrange(i, s.len() as int));
    }
}

fn exec_skip_ws<'a>(s: &'a [char]) -> (r: &'a [char])
    ensures
        r@ == skip_ws(s@),
        r@.len() <= s@.len(),
{
    let n = s.len();
    let mut i: usize = 0;
    while i < n && is_ws_exec(at(s, i))
        invariant
            0 <= i <= n,
            n == s@.len(),
            forall|k: int| 0 <= k < i ==> is_ws(s@[k]),
        decreases n - i,
    {
        i = i + 1;
    }
    proof {
        lemma_skip_ws_at(s@, i as int);
    }
    tail(s, i)
}

proof fn lemma_num_len_at(s: Seq<char>, i: int)
    requires
        0 <= i <= s.len(),
        forall|k: int| 0 <= k < i ==> is_num_char(s[k]),
        i == s.len() || !is_num_char(s[i]),
    ensures
        num_len(s) == i,
    decreases i,
{
    if i > 0 {
        let s1 = s.subrange(1, s.len() as int);
        lemma_num_len_at(s1, i - 1);
    }
}

fn count_num(s: &[char]) -> (n: usize)
    ensures
        n == num_len(s@),
        n <= s@.len(),
{
    let len = s.len();
    let mut i: usize = 0;
    while i < len && is_num_char_exec(at(s, i))
        invariant
            0 <= i <= len,
            len == s@.len(),
            forall|k: int| 0 <= k < i ==> is_num_char(s@[k]),
        decreases len - i,
    {
        i = i + 1;
    }
    proof {
        lemma_num_len_at(s@, i as int);
    }
    i
}

fn chars_to_string(s: &[char], from: usize, to: usize) -> (r: String)
    requires
        from <= to <= s@.len(),
    ensures
        r@ == s@.subrange(from as int, to as int),
    decreases to - from,
{
    let mut out = String::new();
    let mut i = from;
    while i < to
        invariant
            from <= i <= to <= s@.len(),
            out@ == s@.subrange(from as int, i as int),
        decreases to - i,
    {
        push_char(&mut out, at(s, i));
        i = i + 1;
        proof {
            assert(out@ =~= s@.subrange(from as int, i as int));
        }
    }
    proof {
        assert(out@ =~= s@.subrange(from as int, to as int));
    }
    out
}

// ---------------------------------------------------------------------------
// Parsing (exec)
// ---------------------------------------------------------------------------

/// Characterizes `jview_elems` element by element.
pub proof fn lemma_jview_elems(v: &Vec<Json>, i: int)
    requires
        0 <= i <= v.len(),
    ensures
        jview_elems(v, i).len() == v.len() - i,
        forall|k: int| 0 <= k < v.len() - i ==> jview_elems(v, i)[k] == v[i + k]@,
    decreases v.len() - i,
{
    if i < v.len() {
        lemma_jview_elems(v, i + 1);
        assert(jview_elems(v, i) == seq![v[i]@] + jview_elems(v, i + 1));
        assert forall|k: int| 0 <= k < v.len() - i implies jview_elems(v, i)[k] == v[i + k]@ by {
            if k > 0 {
                assert(jview_elems(v, i + 1)[k - 1] == v[i + 1 + (k - 1)]@);
            }
        }
    }
}

/// Characterizes `jview_members` member by member.
pub proof fn lemma_jview_members(ms: &Vec<Member>, i: int)
    requires
        0 <= i <= ms.len(),
    ensures
        jview_members(ms, i).len() == ms.len() - i,
        forall|k: int| 0 <= k < ms.len() - i ==> jview_members(ms, i)[k] == (
            ms[i + k].key@,
            ms[i + k].value@,
        ),
    decreases ms.len() - i,
{
    if i < ms.len() {
        lemma_jview_members(ms, i + 1);
        assert(jview_members(ms, i) == seq![(ms[i].key@, ms[i].value@)] + jview_members(
            ms,
            i + 1,
        ));
        assert forall|k: int|
            0 <= k < ms.len() - i implies jview_members(ms, i)[k] == (
            ms[i + k].key@,
            ms[i + k].value@,
        ) by {
            if k > 0 {
                assert(jview_members(ms, i + 1)[k - 1] == (
                    ms[i + 1 + (k - 1)].key@,
                    ms[i + 1 + (k - 1)].value@,
                ));
            }
        }
    }
}

fn parse_string_body<'a>(s: &'a [char]) -> (r: Option<(String, &'a [char])>)
    ensures
        match r {
            Some((c, rest)) => spec_parse_string_body(s@) == Some((c@, rest@)),
            None => spec_parse_string_body(s@) is None,
        },
    decreases s@.len(),
{
    if s.len() == 0 {
        return None;
    }
    let c0 = at(s, 0);
    if c0 == '"' {
        Some((String::new(), tail(s, 1)))
    } else if c0 == '\\' {
        if s.len() < 2 {
            return None;
        }
        let c1 = at(s, 1);
        if c1 == 'u' {
            if s.len() < 6 {
                return None;
            }
            if at(s, 2) == '0' && at(s, 3) == '0' {
                match (hex_val(at(s, 4)), hex_val(at(s, 5))) {
                    (Some(h1), Some(h2)) => match parse_string_body(tail(s, 6)) {
                        Some((cs, r)) => {
                            let ch = char_from_code(h1 as u32 * 16 + h2 as u32);
                            let mut out = char_string(ch);
                            out.append(cs.as_str());
                            Some((out, r))
                        },
                        None => None,
                    },
                    _ => None,
                }
            } else {
                None
            }
        } else {
            match unescape_code_exec(c1) {
                Some(c) => match parse_string_body(tail(s, 2)) {
                    Some((cs, r)) => {
                        let mut out = char_string(c);
                        out.append(cs.as_str());
                        Some((out, r))
                    },
                    None => None,
                },
                None => None,
            }
        }
    } else if c0 as u32 >= 32 {
        match parse_string_body(tail(s, 1)) {
            Some((cs, r)) => {
                let mut out = char_string(c0);
                out.append(cs.as_str());
                Some((out, r))
            },
            None => None,
        }
    } else {
        None
    }
}

fn unescape_code_exec(c: char) -> (r: Option<char>)
    ensures
        r == spec_unescape_code(c),
{
    if c == '"' { Some('"') } else if c == '\\' { Some('\\') } else if c == '/' { Some('/') }
    else if c == 'b' { Some('\u{08}') } else if c == 'f' { Some('\u{0C}') }
    else if c == 'n' { Some('\n') } else if c == 'r' { Some('\r') } else if c == 't' { Some('\t') }
    else { None }
}

fn parse_value<'a>(s: &'a [char]) -> (r: Option<(Json, &'a [char])>)
    ensures
        match r {
            Some((j, rest)) => spec_parse_value(s@) == Some((j@, rest@)),
            None => spec_parse_value(s@) is None,
        },
    decreases s@.len(), 0int,
{
    let t = exec_skip_ws(s);
    if t.len() == 0 {
        return None;
    }
    let c0 = at(t, 0);
    if c0 == 'n' {
        if t.len() >= 4 && at(t, 1) == 'u' && at(t, 2) == 'l' && at(t, 3) == 'l' {
            Some((Json::Null, tail(t, 4)))
        } else {
            None
        }
    } else if c0 == 't' {
        if t.len() >= 4 && at(t, 1) == 'r' && at(t, 2) == 'u' && at(t, 3) == 'e' {
            Some((Json::Bool(true), tail(t, 4)))
        } else {
            None
        }
    } else if c0 == 'f' {
        if t.len() >= 5 && at(t, 1) == 'a' && at(t, 2) == 'l' && at(t, 3) == 's' && at(t, 4)
            == 'e' {
            Some((Json::Bool(false), tail(t, 5)))
        } else {
            None
        }
    } else if c0 == '"' {
        match parse_string_body(tail(t, 1)) {
            Some((cs, r)) => Some((Json::Str(cs), r)),
            None => None,
        }
    } else if c0 == '[' {
        let u = exec_skip_ws(tail(t, 1));
        if u.len() > 0 && at(u, 0) == ']' {
            let es: Vec<Json> = Vec::new();
            proof {
                lemma_jview_elems(&es, 0);
                assert(jview_elems(&es, 0) =~= Seq::<JsonV>::empty());
            }
            Some((Json::Arr(es), tail(u, 1)))
        } else if u.len() < s.len() {
            match parse_elems(u) {
                Some((es, r)) => Some((Json::Arr(es), r)),
                None => None,
            }
        } else {
            None
        }
    } else if c0 == '{' {
        let u = exec_skip_ws(tail(t, 1));
        if u.len() > 0 && at(u, 0) == '}' {
            let ms: Vec<Member> = Vec::new();
            proof {
                lemma_jview_members(&ms, 0);
                assert(jview_members(&ms, 0) =~= Seq::<(Seq<char>, JsonV)>::empty());
            }
            Some((Json::Obj(ms), tail(u, 1)))
        } else if u.len() < s.len() {
            match parse_members(u) {
                Some((ms, r)) => Some((Json::Obj(ms), r)),
                None => None,
            }
        } else {
            None
        }
    } else if is_num_char_exec(c0) && c0 != '+' && c0 != '.' && c0 != 'e' && c0 != 'E' {
        let n = count_num(t);
        let lex = chars_to_string(t, 0, n);
        Some((Json::Num(lex), tail(t, n)))
    } else {
        None
    }
}

fn parse_elems<'a>(s: &'a [char]) -> (r: Option<(Vec<Json>, &'a [char])>)
    ensures
        match r {
            Some((es, rest)) => spec_parse_elems(s@) == Some((jview_elems(&es, 0), rest@)),
            None => spec_parse_elems(s@) is None,
        },
    decreases s@.len(), 1int,
{
    match parse_value(s) {
        None => None,
        Some((v, r)) => {
            let w = exec_skip_ws(r);
            if w.len() > 0 && at(w, 0) == ']' {
                let mut es: Vec<Json> = Vec::new();
                es.insert(0, v);
                proof {
                    lemma_jview_elems(&es, 0);
                    assert(jview_elems(&es, 0) =~= seq![es[0int]@]);
                }
                Some((es, tail(w, 1)))
            } else if w.len() > 0 && at(w, 0) == ',' && w.len() <= s.len() {
                match parse_elems(tail(w, 1)) {
                    Some((mut es, r2)) => {
                        let ghost es0 = es;
                        es.insert(0, v);
                        proof {
                            lemma_jview_elems(&es, 0);
                            lemma_jview_elems(&es0, 0);
                            assert(jview_elems(&es, 0) =~= seq![es[0int]@] + jview_elems(
                                &es0,
                                0,
                            ));
                        }
                        Some((es, r2))
                    },
                    None => None,
                }
            } else {
                None
            }
        },
    }
}

fn parse_members<'a>(s: &'a [char]) -> (r: Option<(Vec<Member>, &'a [char])>)
    ensures
        match r {
            Some((ms, rest)) => spec_parse_members(s@) == Some((jview_members(&ms, 0), rest@)),
            None => spec_parse_members(s@) is None,
        },
    decreases s@.len(), 1int,
{
    let t = exec_skip_ws(s);
    if t.len() == 0 {
        return None;
    }
    if at(t, 0) != '"' {
        return None;
    }
    match parse_string_body(tail(t, 1)) {
        None => None,
        Some((k, r)) => {
            let w = exec_skip_ws(r);
            if w.len() == 0 || at(w, 0) != ':' {
                None
            } else if w.len() <= s.len() {
                match parse_value(tail(w, 1)) {
                    None => None,
                    Some((v, r2)) => {
                        let w2 = exec_skip_ws(r2);
                        if w2.len() > 0 && at(w2, 0) == '}' {
                            let mut ms: Vec<Member> = Vec::new();
                            ms.insert(0, Member { key: k, value: v });
                            proof {
                                lemma_jview_members(&ms, 0);
                                assert(jview_members(&ms, 0) =~= seq![
                                    (ms[0int].key@, ms[0int].value@),
                                ]);
                            }
                            Some((ms, tail(w2, 1)))
                        } else if w2.len() > 0 && at(w2, 0) == ',' && w2.len() <= s.len() {
                            match parse_members(tail(w2, 1)) {
                                Some((mut ms, r3)) => {
                                    let ghost ms0 = ms;
                                    ms.insert(0, Member { key: k, value: v });
                                    proof {
                                        lemma_jview_members(&ms, 0);
                                        lemma_jview_members(&ms0, 0);
                                        assert(jview_members(&ms, 0) =~= seq![
                                            (ms[0int].key@, ms[0int].value@),
                                        ] + jview_members(&ms0, 0));
                                    }
                                    Some((ms, r3))
                                },
                                None => None,
                            }
                        } else {
                            None
                        }
                    },
                }
            } else {
                None
            }
        },
    }
}

// ---------------------------------------------------------------------------
// Rendering (exec)
// ---------------------------------------------------------------------------

fn hex_digit_exec(n: u8) -> (c: char)
    requires
        n <= 15,
    ensures
        c == hex_digit(n as nat),
{
    if n == 0 { '0' } else if n == 1 { '1' } else if n == 2 { '2' } else if n == 3 { '3' }
    else if n == 4 { '4' } else if n == 5 { '5' } else if n == 6 { '6' } else if n == 7 { '7' }
    else if n == 8 { '8' } else if n == 9 { '9' } else if n == 10 { 'a' } else if n == 11 { 'b' }
    else if n == 12 { 'c' } else if n == 13 { 'd' } else if n == 14 { 'e' } else { 'f' }
}

proof fn lemma_escape_snoc(a: Seq<char>, c: char)
    ensures
        spec_escape(a.push(c)) == spec_escape(a) + spec_escape_char(c),
    decreases a.len(),
{
    if a.len() == 0 {
        let s = a.push(c);
        assert(s[0] == c);
        assert(s.subrange(1, s.len() as int) =~= Seq::<char>::empty());
        assert(spec_escape(s.subrange(1, s.len() as int)) == Seq::<char>::empty());
        assert(spec_escape(a.push(c)) =~= spec_escape(a) + spec_escape_char(c));
    } else {
        let s = a.push(c);
        let a1 = a.subrange(1, a.len() as int);
        assert(s.len() == a.len() + 1);
        assert(s[0] == a[0]);
        assert(s.subrange(1, s.len() as int) =~= a1.push(c));
        lemma_escape_snoc(a1, c);
        assert(spec_escape(s) == spec_escape_char(a[0]) + spec_escape(a1.push(c)));
        assert(spec_escape(a) == spec_escape_char(a[0]) + spec_escape(a1));
        assert(spec_escape_char(a[0]) + (spec_escape(a1) + spec_escape_char(c)) =~= (
        spec_escape_char(a[0]) + spec_escape(a1)) + spec_escape_char(c));
    }
}

fn append_escaped(out: &mut String, s: &str)
    ensures
        final(out)@ == old(out)@ + spec_escape(s@),
{
    let n = s.unicode_len();
    let mut i: usize = 0;
    proof {
        assert(s@.subrange(0, 0) =~= Seq::<char>::empty());
        assert(out@ =~= out@ + spec_escape(s@.subrange(0, 0)));
    }
    while i < n
        invariant
            0 <= i <= n,
            n == s@.len(),
            out@ == old(out)@ + spec_escape(s@.subrange(0, i as int)),
        decreases n - i,
    {
        let c = s.get_char(i);
        if c == '"' {
            push_char(out, '\\');
            push_char(out, '"');
        } else if c == '\\' {
            push_char(out, '\\');
            push_char(out, '\\');
        } else if (c as u32) < 32 {
            let code = c as u32;
            push_char(out, '\\');
            push_char(out, 'u');
            push_char(out, '0');
            push_char(out, '0');
            push_char(out, hex_digit_exec((code / 16) as u8));
            push_char(out, hex_digit_exec((code % 16) as u8));
        } else {
            push_char(out, c);
        }
        proof {
            assert(s@.subrange(0, i + 1 as int) =~= s@.subrange(0, i as int).push(c));
            lemma_escape_snoc(s@.subrange(0, i as int), c);
            assert(out@ =~= old(out)@ + spec_escape(s@.subrange(0, i + 1 as int)));
        }
        i = i + 1;
    }
    proof {
        assert(s@.subrange(0, n as int) =~= s@);
    }
}

fn append_rendered_string(out: &mut String, s: &str)
    ensures
        final(out)@ == old(out)@ + spec_render_string(s@),
{
    push_char(out, '"');
    append_escaped(out, s);
    push_char(out, '"');
    proof {
        assert(out@ =~= old(out)@ + spec_render_string(s@));
    }
}

/// What one object member contributes to the rendering, aside from commas.
pub open spec fn spec_render_member(m: (Seq<char>, JsonV)) -> Seq<char> {
    spec_render_string(m.0) + seq![':'] + spec_render(m.1)
}

proof fn lemma_render_members_snoc(a: Seq<(Seq<char>, JsonV)>, m: (Seq<char>, JsonV))
    ensures
        a.len() == 0 ==> spec_render_members(a.push(m)) == spec_render_member(m),
        a.len() > 0 ==> spec_render_members(a.push(m)) == spec_render_members(a) + seq![',']
            + spec_render_member(m),
    decreases a.len(),
{
    let s = a.push(m);
    if a.len() == 0 {
        assert(s.len() == 1);
        assert(s[0] == m);
        assert(spec_render_members(s) =~= spec_render_member(m));
    } else {
        assert(s[0] == a[0]);
        assert(s.subrange(1, s.len() as int) =~= a.subrange(1, a.len() as int).push(m));
        lemma_render_members_snoc(a.subrange(1, a.len() as int), m);
        if a.len() == 1 {
            assert(spec_render_members(s) =~= spec_render_members(a) + seq![',']
                + spec_render_member(m));
        } else {
            assert(spec_render_members(s) =~= spec_render_members(a) + seq![',']
                + spec_render_member(m));
        }
    }
}

/// Renders an object whose member values are all booleans or strings, as the
/// service's own response and error bodies are.
pub fn render_flat_obj(ms: &Vec<Member>) -> (out: String)
    requires
        forall|i: int| 0 <= i < ms@.len() ==> (ms@[i].value is Bool || ms@[i].value is Str),
    ensures
        out@ == spec_render(JsonV::Obj(jview_members(ms, 0))),
{
    proof {
        lemma_jview_members(ms, 0);
    }
    let ghost msv = jview_members(ms, 0);
    let mut out = String::new();
    push_char(&mut out, '{');
    let n = ms.len();
    let mut i: usize = 0;
    proof {
        assert(msv.subrange(0, 0) =~= Seq::<(Seq<char>, JsonV)>::empty());
        assert(out@ =~= seq!['{'] + spec_render_members(msv.subrange(0, 0)));
    }
    while i < n
        invariant
            0 <= i <= n,
            n == ms@.len(),
            msv == jview_members(ms, 0),
            msv.len() == n,
            forall|k: int| 0 <= k < n ==> msv[k] == (ms@[k].key@, ms@[k].value@),
            forall|k: int| 0 <= k < ms@.len() ==> (ms@[k].value is Bool || ms@[k].value is Str),
            out@ == seq!['{'] + spec_render_members(msv.subrange(0, i as int)),
        decreases n - i,
    {
        if i > 0 {
            push_char(&mut out, ',');
        }
        let m = &ms[i];
        append_rendered_string(&mut out, m.key.as_str());
        push_char(&mut out, ':');
        match &m.value {
            Json::Bool(b) => {
                if *b {
                    out.append("true");
                    proof {
                        reveal_strlit("true");
                        assert("true"@ =~= seq!['t', 'r', 'u', 'e']);
                    }
                } else {
                    out.append("false");
                    proof {
                        reveal_strlit("false");
                        assert("false"@ =~= seq!['f', 'a', 'l', 's', 'e']);
                    }
                }
            },
            Json::Str(s) => {
                append_rendered_string(&mut out, s.as_str());
            },
            _ => {
                proof {
                    assert(false);
                }
            },
        }
        proof {
            assert(msv[i as int] == (ms@[i as int].key@, ms@[i as int].value@));
            assert(msv.subrange(0, i + 1 as int) =~= msv.subrange(0, i as int).push(
                msv[i as int],
            ));
            lemma_render_members_snoc(msv.subrange(0, i as int), msv[i as int]);
            assert(out@ =~= seq!['{'] + spec_render_members(msv.subrange(0, i + 1 as int)));
        }
        i = i + 1;
    }
    push_char(&mut out, '}');
    proof {
        assert(msv.subrange(0, n as int) =~= msv);
        assert(out@ =~= seq!['{'] + spec_render_members(msv) + seq!['}']);
    }
    out
}

// ---------------------------------------------------------------------------
// Round trip: parsing inverts rendering on the flat shapes this service emits
// ---------------------------------------------------------------------------

/// The values the service's own serialized objects hold.
pub open spec fn flat_value(j: JsonV) -> bool {
    j is Bool || j is Str
}

pub open spec fn flat_members(ms: Seq<(Seq<char>, JsonV)>) -> bool {
    forall|i: int| 0 <= i < ms.len() ==> flat_value(ms[i].1)
}

proof fn lemma_hex_val_digit(n: nat)
    requires
        n < 16,
    ensures
        spec_hex_val(hex_digit(n)) == Some(n as u8),
{
}

/// Parsing a string body undoes escaping, for every content.
pub proof fn lemma_parse_escape(s: Seq<char>, rest: Seq<char>)
    ensures
        spec_parse_string_body(spec_escape(s) + seq!['"'] + rest) == Some((s, rest)),
    decreases s.len(),
{
    let arg = spec_escape(s) + seq!['"'] + rest;
    if s.len() == 0 {
        assert(spec_escape(s) =~= Seq::<char>::empty());
        assert(arg[0] == '"');
        assert(arg.subrange(1, arg.len() as int) =~= rest);
        assert(s =~= Seq::<char>::empty());
    } else {
        let c = s[0];
        let s1 = s.subrange(1, s.len() as int);
        assert(spec_escape(s) == spec_escape_char(c) + spec_escape(s1));
        lemma_parse_escape(s1, rest);
        let arg1 = spec_escape(s1) + seq!['"'] + rest;
        assert(seq![c] + s1 =~= s);
        if c == '"' {
            assert(arg[0] == '\\');
            assert(arg[1] == '"');
            assert(arg.subrange(2, arg.len() as int) =~= arg1);
        } else if c == '\\' {
            assert(arg[0] == '\\');
            assert(arg[1] == '\\');
            assert(arg.subrange(2, arg.len() as int) =~= arg1);
        } else if (c as u32) < 32 {
            let code = c as u32;
            let h1 = hex_digit((code / 16) as nat);
            let h2 = hex_digit((code % 16) as nat);
            assert(arg[0] == '\\');
            assert(arg[1] == 'u');
            assert(arg[2] == '0');
            assert(arg[3] == '0');
            assert(arg[4] == h1);
            assert(arg[5] == h2);
            lemma_hex_val_digit((code / 16) as nat);
            lemma_hex_val_digit((code % 16) as nat);
            assert(arg.subrange(6, arg.len() as int) =~= arg1);
            assert((code / 16) * 16 + code % 16 == code) by (nonlinear_arith)
                requires
                    code < 32,
            ;
            let h1v = spec_hex_val(h1).unwrap();
            let h2v = spec_hex_val(h2).unwrap();
            let u: u32 = (h1v * 16 + h2v) as u32;
            assert(u == code);
            vstd::utf8::char_u32_cast(c, u);
            assert((u as char) == c);
        } else {
            assert(arg[0] == c);
            assert(arg.subrange(1, arg.len() as int) =~= arg1);
        }
    }
}

/// Parsing a rendered boolean or string value yields it back, whatever
/// follows it.
pub proof fn lemma_parse_render_flat(v: JsonV, rest: Seq<char>)
    requires
        flat_value(v),
    ensures
        spec_parse_value(spec_render(v) + rest) == Some((v, rest)),
{
    let arg = spec_render(v) + rest;
    match v {
        JsonV::Bool(b) => {
            if b {
                assert(arg[0] == 't');
                lemma_skip_ws_at(arg, 0);
                assert(arg[1] == 'r' && arg[2] == 'u' && arg[3] == 'e');
                assert(arg.subrange(4, arg.len() as int) =~= rest);
            } else {
                assert(arg[0] == 'f');
                lemma_skip_ws_at(arg, 0);
                assert(arg[1] == 'a' && arg[2] == 'l' && arg[3] == 's' && arg[4] == 'e');
                assert(arg.subrange(5, arg.len() as int) =~= rest);
            }
        },
        JsonV::Str(s) => {
            assert(arg[0] == '"');
            lemma_skip_ws_at(arg, 0);
            assert(arg.subrange(1, arg.len() as int) =~= spec_escape(s) + seq!['"'] + rest);
            lemma_parse_escape(s, rest);
        },
        _ => {},
    }
}

/// Parsing rendered members up to the closing brace yields them back.
#[verifier::rlimit(100)]
pub proof fn lemma_parse_render_members(ms: Seq<(Seq<char>, JsonV)>, rest: Seq<char>)
    requires
        ms.len() > 0,
        flat_members(ms),
    ensures
        spec_parse_members(spec_render_members(ms) + seq!['}'] + rest) == Some((ms, rest)),
    decreases ms.len(),
{
    let arg = spec_render_members(ms) + seq!['}'] + rest;
    let k = ms[0].0;
    let v = ms[0].1;
    assert(flat_value(v));
    if ms.len() == 1 {
        assert(spec_render_members(ms) == spec_render_string(k) + seq![':'] + spec_render(v));
        assert(arg[0] == '"');
        lemma_skip_ws_at(arg, 0);
        let after_key = seq![':'] + spec_render(v) + seq!['}'] + rest;
        assert(arg.subrange(1, arg.len() as int) =~= spec_escape(k) + seq!['"'] + after_key);
        lemma_parse_escape(k, after_key);
        lemma_skip_ws_at(after_key, 0);
        assert(after_key[0] == ':');
        let after_colon = spec_render(v) + (seq!['}'] + rest);
        assert(after_key.subrange(1, after_key.len() as int) =~= after_colon);
        lemma_parse_render_flat(v, seq!['}'] + rest);
        let r2 = seq!['}'] + rest;
        lemma_skip_ws_at(r2, 0);
        assert(r2[0] == '}');
        assert(r2.subrange(1, r2.len() as int) =~= rest);
        assert(ms =~= seq![(k, v)]);
    } else {
        let ms1 = ms.subrange(1, ms.len() as int);
        assert(ms1.len() > 0);
        assert(flat_members(ms1));
        assert(spec_render_members(ms) == spec_render_string(k) + seq![':'] + spec_render(v)
            + seq![','] + spec_render_members(ms1));
        assert(arg[0] == '"');
        lemma_skip_ws_at(arg, 0);
        let after_key = seq![':'] + spec_render(v) + seq![','] + spec_render_members(ms1)
            + seq!['}'] + rest;
        assert(arg.subrange(1, arg.len() as int) =~= spec_escape(k) + seq!['"'] + after_key);
        lemma_parse_escape(k, after_key);
        lemma_skip_ws_at(after_key, 0);
        assert(after_key[0] == ':');
        let tail_members = seq![','] + spec_render_members(ms1) + seq!['}'] + rest;
        assert(after_key.subrange(1, after_key.len() as int) =~= spec_render(v) + tail_members);
        lemma_parse_render_flat(v, tail_members);
        lemma_skip_ws_at(tail_members, 0);
        assert(tail_members[0] == ',');
        assert(tail_members.subrange(1, tail_members.len() as int) =~= spec_render_members(ms1)
            + seq!['}'] + rest);
        lemma_parse_render_members(ms1, rest);
        assert(seq![(k, v)] + ms1 =~= ms);
    }
}

/// Parsing a rendered flat object yields it back.
pub proof fn lemma_parse_render_obj(ms: Seq<(Seq<char>, JsonV)>)
    requires
        ms.len() > 0,
        flat_members(ms),
    ensures
        spec_parse_text(spec_render(JsonV::Obj(ms))) == Some(JsonV::Obj(ms)),
{
    let arg = spec_render(JsonV::Obj(ms));
    assert(arg == seq!['{'] + spec_render_members(ms) + seq!['}']);
    assert(arg[0] == '{');
    lemma_skip_ws_at(arg, 0);
    let inner = spec_render_members(ms) + seq!['}'] + Seq::<char>::empty();
    assert(arg.subrange(1, arg.len() as int) =~= inner);
    assert(spec_render_members(ms)[0] == '"');
    assert(inner[0] == '"');
    lemma_skip_ws_at(inner, 0);
    lemma_parse_render_members(ms, Seq::<char>::empty());
    assert(spec_parse_members(inner) == Some((ms, Seq::<char>::empty())));
    assert(skip_ws(Seq::<char>::empty()).len() == 0);
}

/// Parses a whole JSON text from characters.
pub fn parse_chars(s: &[char]) -> (r: Option<Json>)
    ensures
        match r {
            Some(j) => spec_parse_text(s@) == Some(j@),
            None => spec_parse_text(s@) is None,
        },
{
    match parse_value(s) {
        Some((j, rest)) => {
            let w = exec_skip_ws(rest);
            if w.len() == 0 {
                Some(j)
            } else {
                None
            }
        },
        None => None,
    }
}

/// Parses a whole JSON text.
pub fn parse_text(s: &str) -> (r: Option<Json>)
    ensures
        match r {
            Some(j) => spec_parse_text(s@) == Some(j@),
            None => spec_parse_text(s@) is None,
        },
{
    let n = s.unicode_len();
    let mut cs: Vec<char> = Vec::new();
    let mut i: usize = 0;
    while i < n
        invariant
            0 <= i <= n,
            n == s@.len(),
            cs@ == s@.subrange(0, i as int),
        decreases n - i,
    {
        cs.push(s.get_char(i));
        i = i + 1;
        proof {
            assert(cs@ =~= s@.subrange(0, i as int));
        }
    }
    proof {
        assert(cs@ =~= s@);
    }
    parse_chars(cs.as_slice())
}

} // verus!
