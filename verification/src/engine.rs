//! The trusted boundary to the outside crates the engine leans on: the
//! template-rendering engine (tera), glob patterns, regular expressions, a
//! byte search, and UTF-8 decoding.  Each item's contract states only what
//! the outside source plainly shows.

use vstd::prelude::*;

use crate::errors::{new_error, Error, ErrorKind};
use crate::value::Value;
use crate::varmap::VarMap;

verus! {

#[verifier::external_type_specification]
#[verifier::external_body]
pub struct ExContext(tera::Context);

/// Relies on tera's Context::new: a fresh context, binding nothing.  Nothing
/// is claimed of it; the rendering engine is a black box.
#[verifier::external_body]
fn context_new() -> tera::Context {
    tera::Context::new()
}

/// Relies on tera's Context::insert: binds the key to the given string.
#[verifier::external_body]
fn context_insert_str(c: &mut tera::Context, key: &str, val: &String) {
    c.insert(key, val)
}

/// Relies on tera's Context::insert: binds the key to the given integer.
#[verifier::external_body]
fn context_insert_i64(c: &mut tera::Context, key: &str, val: i64) {
    c.insert(key, &val)
}

/// Relies on tera's Context::insert: binds the key to the given boolean.
#[verifier::external_body]
fn context_insert_bool(c: &mut tera::Context, key: &str, val: bool) {
    c.insert(key, &val)
}

/// Whether a text holds none of the engine's delimiters `{{`, `{%`, `{#`.
pub open spec fn no_tera_delims(s: Seq<char>) -> bool {
    forall|i: int|
        0 <= i && i + 1 < s.len() ==> !((#[trigger] s[i]) == '{' && (s[i + 1] == '{' || s[i + 1]
            == '%' || s[i + 1] == '#'))
}

/// Relies on tera's Tera::one_off with autoescape off.  The engine parses
/// everything outside `{{..}}`, `{%..%}` and `{#..#}` delimiters as raw text
/// and writes it back verbatim, so a template without delimiters renders to
/// itself and cannot fail.  A template may call functions (`get_env`) whose
/// result depends on more than the arguments, so nothing is claimed of other
/// outputs.
#[verifier::external_body]
fn tera_one_off(content: &str, ctx: &tera::Context) -> (r: Result<String, String>)
    ensures
        match r {
            Ok(s) => no_tera_delims(content@) ==> s@ == content@,
            Err(_) => !no_tera_delims(content@),
        },
{
    match tera::Tera::one_off(content, ctx, false) {
        Ok(s) => Ok(s),
        Err(e) => Err(e.to_string()),
    }
}

/// The view of an optional path.
pub open spec fn opt_str_view(o: Option<String>) -> Option<Seq<char>> {
    match o {
        Some(s) => Some(s@),
        None => None,
    }
}

/// Render a one-off template against the resolved variables.  A rendering
/// failure is tagged with the source path, when one is given.
pub fn render_one_off_template(content: &str, vars: &VarMap, path: Option<String>) -> (r: Result<
    String,
    Error,
>)
    ensures
        no_tera_delims(content@) ==> (r matches Ok(s) && s@ == content@),
        r matches Err(e) ==> (e.kind matches ErrorKind::Tera { msg: _, path: p } && opt_str_view(p)
            == opt_str_view(path)),
{
    let mut ctx = context_new();
    let n = vars.len();
    let mut i: usize = 0;
    while i < n
        invariant
            i <= n,
            n == vars.pairs().len(),
        decreases n - i,
    {
        let e = vars.entry_at(i);
        match &e.1 {
            Value::String(s) => context_insert_str(&mut ctx, e.0.as_str(), s),
            Value::Integer(v) => context_insert_i64(&mut ctx, e.0.as_str(), *v),
            Value::Boolean(b) => context_insert_bool(&mut ctx, e.0.as_str(), *b),
        }
        i += 1;
    }
    match tera_one_off(content, &ctx) {
        Ok(s) => Ok(s),
        Err(msg) => Err(new_error(ErrorKind::Tera { msg, path })),
    }
}

/// What compiling a glob pattern gives: success, or the description of the
/// syntax error.  Either depends on the pattern text alone.
pub uninterp spec fn glob_compile(pattern: Seq<char>) -> Result<(), Seq<char>>;

/// Whether a glob pattern compiles.
pub open spec fn glob_valid(pattern: Seq<char>) -> bool {
    glob_compile(pattern) is Ok
}

/// Whether a glob pattern matches a path.
pub uninterp spec fn glob_matches(pattern: Seq<char>, path: Seq<char>) -> bool;

/// Relies on glob's Pattern::new: whether compilation succeeds depends on
/// the pattern text alone.  On failure the error's description is returned.
#[verifier::external_body]
pub fn glob_check(pattern: &str) -> (r: Result<(), String>)
    ensures
        match r {
            Ok(_) => glob_compile(pattern@) is Ok,
            Err(e) => glob_compile(pattern@) matches Err(m) && m == e@,
        },
{
    match glob::Pattern::new(pattern) {
        Ok(_) => Ok(()),
        Err(e) => Err(e.to_string()),
    }
}

/// Relies on glob's Pattern::matches, a pure walk over the pattern and the
/// path; the pattern must be known to compile, so the unwrap cannot panic.
#[verifier::external_body]
pub fn glob_match(pattern: &str, path: &str) -> (r: bool)
    requires
        glob_valid(pattern@),
    ensures
        r == glob_matches(pattern@, path@),
{
    glob::Pattern::new(pattern).unwrap().matches(path)
}

/// Whether a regular expression compiles.
pub uninterp spec fn regex_valid(pattern: Seq<char>) -> bool;

/// Whether a regular expression matches somewhere in a text.
pub uninterp spec fn regex_matches(pattern: Seq<char>, text: Seq<char>) -> bool;

/// Relies on regex's Regex::new: whether compilation succeeds depends on the
/// pattern text alone (the crate's default limits are fixed).
#[verifier::external_body]
pub fn regex_check(pattern: &str) -> (r: bool)
    ensures
        r == regex_valid(pattern@),
{
    regex::Regex::new(pattern).is_ok()
}

/// Relies on regex's Regex::is_match, deterministic in the pattern and the
/// text; the pattern must be known to compile, so the unwrap cannot panic.
#[verifier::external_body]
pub fn regex_is_match(pattern: &str, text: &str) -> (r: bool)
    requires
        regex_valid(pattern@),
    ensures
        r == regex_matches(pattern@, text@),
{
    regex::Regex::new(pattern).unwrap().is_match(text)
}

/// Relies on memchr::memchr: the index of the first occurrence of the byte,
/// or nothing when the byte does not occur.
#[verifier::external_body]
pub fn find_byte(needle: u8, haystack: &[u8]) -> (r: Option<usize>)
    ensures
        match r {
            Some(i) => i < haystack@.len() && haystack@[i as int] == needle && forall|j: int|
                0 <= j < i ==> haystack@[j] != needle,
            None => forall|j: int| 0 <= j < haystack@.len() ==> haystack@[j] != needle,
        },
{
    memchr::memchr(needle, haystack)
}

#[verifier::external_type_specification]
#[verifier::external_body]
pub struct ExUtf8Error(core::str::Utf8Error);

/// Relies on std's str::from_utf8: succeeds exactly on valid UTF-8 and
/// decodes the given bytes.
pub assume_specification[ core::str::from_utf8 ](v: &[u8]) -> (r: Result<
    &str,
    core::str::Utf8Error,
>)
    ensures
        (r is Ok) == vstd::utf8::valid_utf8(v@),
        r matches Ok(s) ==> s@ == vstd::utf8::decode_utf8(v@),
;

} // verus!
