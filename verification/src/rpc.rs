//! Route metadata of the RPC methods: how a handler's signature maps to its route
//! description (path parameters, body type, TypeScript return type, camelCase name).
use vstd::prelude::*;
use crate::text::{
    chars_of, find_char_from, first_from, push_char, push_str, starts_with, str_eq,
    string_from_str, string_of_range, to_upper_char, upper_char,
};
use crate::store::contains_text;

verus! {

/// An RPC method registered by a service: HTTP method, route path and handler name.
#[derive(Debug, Clone, Copy)]
pub struct RpcMethodDescriptor {
    pub method: &'static str,
    pub path: &'static str,
    pub fn_name: &'static str,
}

// ───────────────────────── Names ─────────────────────────

/// `snake_case` to `camelCase` from position `i` on, with `up` telling whether the next
/// character is to be capitalised: each `_` is dropped and the character after it is
/// upper-cased (ASCII).
pub open spec fn camel_from(s: Seq<char>, i: int, up: bool) -> Seq<char>
    decreases s.len() - i,
{
    if i < 0 || i >= s.len() {
        Seq::empty()
    } else if s[i] == '_' {
        camel_from(s, i + 1, true)
    } else if up {
        seq![upper_char(s[i])] + camel_from(s, i + 1, false)
    } else {
        seq![s[i]] + camel_from(s, i + 1, false)
    }
}

pub open spec fn snake_to_camel_spec(s: Seq<char>) -> Seq<char> {
    camel_from(s, 0, false)
}

/// Converts a `snake_case` name to `camelCase`.
pub fn snake_to_camel(s: &str) -> (r: String)
    ensures
        r@ == snake_to_camel_spec(s@),
{
    let v = chars_of(s);
    let mut result = String::new();
    let mut up = false;
    let mut i: usize = 0;
    while i < v.len()
        invariant
            i <= v@.len(),
            v@ == s@,
            result@ + camel_from(s@, i as int, up) == camel_from(s@, 0, false),
        decreases v.len() - i,
    {
        let ch = v[i];
        let ghost before = result@;
        if ch == '_' {
            up = true;
        } else if up {
            push_char(&mut result, to_upper_char(ch));
            up = false;
            assert(result@ + camel_from(s@, i + 1, false) =~= before + camel_from(s@, i as int, true));
        } else {
            push_char(&mut result, ch);
            assert(result@ + camel_from(s@, i + 1, false) =~= before + camel_from(s@, i as int, false));
        }
        i += 1;
    }
    assert(result@ + camel_from(s@, i as int, up) =~= result@);
    result
}

/// `Name<Inner>` gives `Inner`: the text between the prefix `Name<` and a final `>`.
pub open spec fn generic_arg_spec(t: Seq<char>, name: Seq<char>) -> Option<Seq<char>> {
    let prefix = name.push('<');
    if starts_with(t, prefix) && t.len() > 0 && t.last() == '>' && prefix.len() <= t.len() - 1 {
        Some(t.subrange(prefix.len() as int, t.len() - 1))
    } else {
        None
    }
}

/// The argument of a one-argument generic type written as text.
pub fn extract_generic_arg(type_str: &str, generic_name: &str) -> (r: Option<String>)
    ensures
        match generic_arg_spec(type_str@, generic_name@) {
            Some(a) => r matches Some(s) && s@ == a,
            None => r is None,
        },
{
    let tv = chars_of(type_str);
    let mut prefix = string_from_str(generic_name);
    push_char(&mut prefix, '<');
    let pv = chars_of(prefix.as_str());
    let n = tv.len();
    if n > 0 && tv[n - 1] == '>' && crate::text::matches_at_exec(&tv, &pv, 0) {
        if pv.len() <= n - 1 {
            proof {
                assert(tv@.subrange(0, pv@.len() as int) =~= pv@);
            }
            return Some(string_of_range(&tv, pv.len(), n - 1));
        } else {
            return None;
        }
    }
    proof {
        if starts_with(tv@, pv@) {
            assert(crate::text::matches_at(tv@, pv@, 0));
        }
    }
    None
}

/// The TypeScript name of a DTO: the four model DTOs are renamed `...Model`; any other
/// name is kept.
pub open spec fn ts_type_spec(t: Seq<char>) -> Seq<char> {
    if t == "WorkspaceDto"@ {
        "WorkspaceModel"@
    } else if t == "FolderDto"@ {
        "FolderModel"@
    } else if t == "HttpRequestDefDto"@ {
        "HttpRequestDefModel"@
    } else if t == "EnvironmentDto"@ {
        "EnvironmentModel"@
    } else {
        t
    }
}

pub fn dto_to_ts_type(rust_type: &str) -> (r: String)
    ensures
        r@ == ts_type_spec(rust_type@),
{
    if str_eq(rust_type, "WorkspaceDto") {
        string_from_str("WorkspaceModel")
    } else if str_eq(rust_type, "FolderDto") {
        string_from_str("FolderModel")
    } else if str_eq(rust_type, "HttpRequestDefDto") {
        string_from_str("HttpRequestDefModel")
    } else if str_eq(rust_type, "EnvironmentDto") {
        string_from_str("EnvironmentModel")
    } else {
        string_from_str(rust_type)
    }
}

/// TypeScript return type of a handler whose return type is written `ty` (`None` when it
/// returns nothing): `ServiceResult<()>` is `void`, `ServiceResult<Vec<T>>` is `T[]`,
/// `ServiceResult<T>` is `T`, and any other type is itself, DTO names mapped.
pub open spec fn return_type_spec(ty: Option<Seq<char>>) -> Seq<char> {
    match ty {
        None => "void"@,
        Some(t) => match generic_arg_spec(t, "ServiceResult"@) {
            Some(inner) => if inner == "()"@ {
                "void"@
            } else {
                match generic_arg_spec(inner, "Vec"@) {
                    Some(e) => ts_type_spec(e) + "[]"@,
                    None => ts_type_spec(inner),
                }
            },
            None => ts_type_spec(t),
        },
    }
}

/// The TypeScript return type of a handler, from its return type as text.
pub fn extract_return_type(output: Option<&str>) -> (r: String)
    ensures
        r@ == return_type_spec(
            match output {
                Some(t) => Some(t@),
                None => None,
            },
        ),
{
    let type_str = match output {
        Some(t) => t,
        None => return string_from_str("void"),
    };
    match extract_generic_arg(type_str, "ServiceResult") {
        Some(inner) => {
            if str_eq(inner.as_str(), "()") {
                return string_from_str("void");
            }
            match extract_generic_arg(inner.as_str(), "Vec") {
                Some(e) => {
                    let mut s = dto_to_ts_type(e.as_str());
                    push_str(&mut s, "[]");
                    s
                },
                None => dto_to_ts_type(inner.as_str()),
            }
        },
        None => dto_to_ts_type(type_str),
    }
}

// ───────────────────────── Parameters ─────────────────────────

/// How a handler parameter is exposed.
#[derive(Debug, Clone, Copy, PartialEq, Eq, Structural)]
pub enum ParamKind {
    /// Supplied by the server (a database connection or a shared state reference).
    Injected,
    /// Taken from the route path.
    PathParam,
    /// The request body (a DTO type).
    Body,
    /// A plain value supplied by the server, not exposed.
    Hidden,
}

/// The Unicode `Uppercase` property of a character.
pub uninterp spec fn unicode_uppercase(c: char) -> bool;

/// `char::is_uppercase`. For ASCII it holds exactly of `A` to `Z`, as its documentation
/// states; other characters follow the Unicode tables, which are not stated here.
#[verifier::external_body]
fn is_uppercase(c: char) -> (r: bool)
    ensures
        r == unicode_uppercase(c),
        (c as u32) < 128 ==> (r <==> ('A' <= c && c <= 'Z')),
{
    c.is_uppercase()
}

/// Classification of a parameter by its type written without spaces: a database
/// connection or a reference is injected; `String` is a path parameter; a type whose
/// first character is upper case is the body; anything else is hidden.
pub open spec fn param_kind_spec(t: Seq<char>) -> ParamKind {
    if contains_text(t, "DatabaseConnection"@) || (t.len() > 0 && t[0] == '&') {
        ParamKind::Injected
    } else if t == "String"@ {
        ParamKind::PathParam
    } else if t.len() > 0 && unicode_uppercase(t[0]) {
        ParamKind::Body
    } else {
        ParamKind::Hidden
    }
}

fn contains_exec(s: &Vec<char>, p: &Vec<char>) -> (r: bool)
    ensures
        r == contains_text(s@, p@),
{
    if p.len() > s.len() {
        return false;
    }
    let last = s.len() - p.len();
    let mut i: usize = 0;
    while i < last
        invariant
            p@.len() <= s@.len(),
            last == s@.len() - p@.len(),
            i <= last,
            forall|j: int| 0 <= j < i ==> !#[trigger] crate::text::matches_at(s@, p@, j),
        decreases last - i,
    {
        if crate::text::matches_at_exec(s, p, i) {
            return true;
        }
        i += 1;
    }
    crate::text::matches_at_exec(s, p, last)
}

pub fn classify_param(type_str: &str) -> (r: ParamKind)
    ensures
        r == param_kind_spec(type_str@),
{
    let v = chars_of(type_str);
    let db = chars_of("DatabaseConnection");
    if contains_exec(&v, &db) || (v.len() > 0 && v[0] == '&') {
        ParamKind::Injected
    } else if str_eq(type_str, "String") {
        ParamKind::PathParam
    } else if v.len() > 0 && is_uppercase(v[0]) {
        ParamKind::Body
    } else {
        ParamKind::Hidden
    }
}

/// The names of the path parameters among a handler's parameters (given as name and
/// type text), in order.
pub open spec fn route_path_params(params: Seq<(String, String)>) -> Seq<Seq<char>>
    decreases params.len(),
{
    if params.len() == 0 {
        Seq::empty()
    } else {
        let rest = route_path_params(params.drop_last());
        if param_kind_spec(params.last().1@) is PathParam {
            rest.push(params.last().0@)
        } else {
            rest
        }
    }
}

/// The type of the last body parameter among a handler's parameters, if any.
pub open spec fn route_body_type(params: Seq<(String, String)>) -> Option<Seq<char>>
    decreases params.len(),
{
    if params.len() == 0 {
        None
    } else if param_kind_spec(params.last().1@) is Body {
        Some(params.last().1@)
    } else {
        route_body_type(params.drop_last())
    }
}

pub open spec fn string_views(v: Seq<String>) -> Seq<Seq<char>> {
    v.map_values(|s: String| s@)
}

pub open spec fn opt_string_view(o: Option<String>) -> Option<Seq<char>> {
    match o {
        Some(s) => Some(s@),
        None => None,
    }
}

/// The route description of a handler's parameters (each its name and its type text):
/// the names of the path parameters in order, and the type of the last body parameter.
pub fn route_params(params: &Vec<(String, String)>) -> (r: (Vec<String>, Option<String>))
    ensures
        string_views(r.0@) == route_path_params(params@),
        opt_string_view(r.1) == route_body_type(params@),
{
    let mut names: Vec<String> = Vec::new();
    let mut body: Option<String> = None;
    let mut i: usize = 0;
    assert(params@.take(0) =~= Seq::<(String, String)>::empty());
    assert(string_views(names@) =~= Seq::<Seq<char>>::empty());
    while i < params.len()
        invariant
            i <= params.len(),
            string_views(names@) == route_path_params(params@.take(i as int)),
            opt_string_view(body) == route_body_type(params@.take(i as int)),
        decreases params.len() - i,
    {
        let ghost before = names@;
        let kind = classify_param(params[i].1.as_str());
        assert(params@.take(i + 1).drop_last() =~= params@.take(i as int));
        assert(params@.take(i + 1).last() == params@[i as int]);
        match kind {
            ParamKind::PathParam => {
                names.push(string_from_str(params[i].0.as_str()));
                assert(string_views(names@) =~= string_views(before).push(params@[i as int].0@));
            },
            ParamKind::Body => {
                body = Some(string_from_str(params[i].1.as_str()));
            },
            _ => {},
        }
        i += 1;
    }
    assert(params@.take(params@.len() as int) =~= params@);
    (names, body)
}

/// `s.split(c)`: the pieces between occurrences of `c` from position `i` on.
pub open spec fn split_from(s: Seq<char>, c: char, i: int) -> Seq<Seq<char>>
    decreases s.len() - i,
{
    if i < 0 || i > s.len() {
        Seq::empty()
    } else {
        match first_from(s, i, c) {
            Some(k) => if i <= k < s.len() {
                seq![s.subrange(i, k)] + split_from(s, c, k + 1)
            } else {
                Seq::empty()
            },
            None => seq![s.subrange(i, s.len() as int)],
        }
    }
}

/// The names of the `{name}` segments of a route path, in order.
pub open spec fn brace_names(pieces: Seq<Seq<char>>) -> Seq<Seq<char>>
    decreases pieces.len(),
{
    if pieces.len() == 0 {
        Seq::empty()
    } else {
        let p = pieces[0];
        let rest = brace_names(pieces.drop_first());
        if p.len() >= 2 && p[0] == '{' && p.last() == '}' {
            seq![p.subrange(1, p.len() - 1)] + rest
        } else {
            rest
        }
    }
}

pub open spec fn path_param_names_spec(path: Seq<char>) -> Seq<Seq<char>> {
    brace_names(split_from(path, '/', 0))
}

/// The parameter names a route path declares with `{name}` segments.
pub fn path_param_names(path: &str) -> (r: Vec<String>)
    ensures
        r@.len() == path_param_names_spec(path@).len(),
        forall|i: int| 0 <= i < r@.len() ==> (#[trigger] r@[i])@ == path_param_names_spec(path@)[i],
{
    let v = chars_of(path);
    let ghost s = v@;
    let mut out: Vec<String> = Vec::new();
    let mut start: usize = 0;
    let mut done = false;
    while !done
        invariant
            start <= v@.len(),
            s == v@,
            s == path@,
            !done ==> brace_names(split_from(s, '/', 0)) == crate::platform::strings(out@)
                + brace_names(split_from(s, '/', start as int)),
            done ==> brace_names(split_from(s, '/', 0)) == crate::platform::strings(out@),
        decreases (if done { 0int } else { v.len() + 1 - start }),
    {
        let end = match find_char_from(&v, start, '/') {
            Some(k) => k,
            None => v.len(),
        };
        let ghost piece = s.subrange(start as int, end as int);
        let ghost before = crate::platform::strings(out@);
        let n = end - start;
        if n >= 2 && v[start] == '{' && v[end - 1] == '}' {
            out.push(string_of_range(&v, start + 1, end - 1));
            proof {
                assert(piece[0] == v@[start as int] && piece.last() == v@[end - 1]);
                assert(piece.subrange(1, piece.len() - 1) =~= s.subrange(start + 1, end - 1));
                assert(crate::platform::strings(out@) =~= before + seq![piece.subrange(1, piece.len() - 1)]);
            }
        } else {
            proof {
                if piece.len() >= 2 {
                    assert(piece[0] == v@[start as int] && piece.last() == v@[end - 1]);
                }
            }
        }
        proof {
            let rest = if end < s.len() { split_from(s, '/', end + 1) } else { Seq::empty() };
            assert(split_from(s, '/', start as int) == seq![piece] + rest);
            assert((seq![piece] + rest).drop_first() =~= rest);
            if end == s.len() {
                assert(brace_names(rest) == Seq::<Seq<char>>::empty());
            }
        }
        if end == v.len() {
            done = true;
        } else {
            start = end + 1;
        }
    }
    proof {
        assert forall|i: int| 0 <= i < out@.len() implies (#[trigger] out@[i])@ == path_param_names_spec(path@)[i] by {
            assert(crate::platform::strings(out@)[i] == out@[i]@);
        }
    }
    out
}

/// A camelCase name holds no underscore.
pub proof fn lemma_camel_has_no_underscore(s: Seq<char>, i: int, up: bool)
    ensures
        forall|k: int| 0 <= k < camel_from(s, i, up).len() ==> #[trigger] camel_from(s, i, up)[k] != '_',
    decreases s.len() - i,
{
    if 0 <= i < s.len() {
        lemma_camel_has_no_underscore(s, i + 1, true);
        lemma_camel_has_no_underscore(s, i + 1, false);
        if s[i] == '_' {
            assert(camel_from(s, i, up) == camel_from(s, i + 1, true));
        } else {
            let rest = camel_from(s, i + 1, false);
            let c = if up { upper_char(s[i]) } else { s[i] };
            assert(c != '_');
            assert(camel_from(s, i, up) == seq![c] + rest);
            assert forall|k: int| 0 <= k < camel_from(s, i, up).len() implies #[trigger] camel_from(s, i, up)[k] != '_' by {
                if k > 0 {
                    assert(camel_from(s, i, up)[k] == rest[k - 1]);
                }
            }
        }
    }
}

} // verus!
