//! Small shared pieces of the adapters: the generated event
//! identifier and the wall clock (the two ingress defaults that come
//! from outside the pure logic), timestamp-field reading and
//! unit-normalizing, and the Markdown fragments the ingress
//! normalizers write.

use vstd::prelude::*;

verus! {

/// A lower-case hexadecimal digit.
pub open spec fn hex_lower(c: char) -> bool {
    (48 <= c as u32 <= 57) || (97 <= c as u32 <= 102)
}

/// The hyphenated lower-case text form of a version-4 UUID: 36
/// characters, hyphens at 8, 13, 18 and 23, hex digits elsewhere, the
/// version digit `4` at 14.
pub open spec fn is_uuid_string(s: Seq<char>) -> bool {
    &&& s.len() == 36
    &&& s[8] == '-'
    &&& s[13] == '-'
    &&& s[18] == '-'
    &&& s[23] == '-'
    &&& s[14] == '4'
    &&& forall|i: int|
        0 <= i < 36 && i != 8 && i != 13 && i != 18 && i != 23 ==> hex_lower(#[trigger] s[i])
}

/// Relies on `uuid::Uuid::new_v4` and its `Display` form: a fresh
/// random UUID whose version nibble is 4, written as 36 lower-case
/// hyphenated hexadecimal characters.  Nothing is promised about which
/// identifier comes back, only its shape.  The call aborts if the
/// operating system's randomness source fails, an environmental
/// failure of the same kind as running out of memory.
#[verifier::external_body]
pub fn new_event_id() -> (r: String)
    ensures
        is_uuid_string(r@),
{
    uuid::Uuid::new_v4().to_string()
}

/// Relies on `std::time::SystemTime::now` and `duration_since`: the
/// wall clock as Unix seconds, or 0 if the clock sits before the epoch.
/// Nothing is promised about which instant comes back, only that it is
/// not negative.
#[verifier::external_body]
pub fn now_timestamp() -> (r: i64)
    ensures
        r >= 0,
{
    std::time::SystemTime::now()
        .duration_since(std::time::UNIX_EPOCH)
        .map(|duration| duration.as_secs() as i64)
        .unwrap_or(0)
}

} // verus!

verus! {

/// What a timestamp-like JSON field yields: a native integer as it is,
/// a numeric string parsed as one.
pub open spec fn spec_value_to_i64(j: Option<crate::json::JsonSpec>) -> Option<i64> {
    match j {
        Some(crate::json::JsonSpec::Int(i)) => Some(i),
        Some(crate::json::JsonSpec::Str(s)) => crate::json_read::spec_parse_i64(s),
        _ => None,
    }
}

/// Reads a timestamp-like JSON value; executable twin of
/// `spec_value_to_i64`.
pub fn value_to_i64(v: &crate::json::Json) -> (r: Option<i64>)
    ensures
        r == spec_value_to_i64(Some(v@)),
{
    match v {
        crate::json::Json::Int(i) => Some(*i),
        crate::json::Json::Str(s) => crate::json_read::parse_i64_str(s.as_str()),
        _ => None,
    }
}

/// Milliseconds as whole seconds, rounded toward zero.
pub open spec fn spec_millis_to_secs(ms: int) -> int {
    if ms >= 0 {
        ms / 1000
    } else {
        -((-ms) / 1000)
    }
}

/// Executable twin of `spec_millis_to_secs`.
pub fn millis_to_secs(ms: i64) -> (r: i64)
    ensures
        r as int == spec_millis_to_secs(ms as int),
{
    if ms >= 0 {
        ((ms as u64) / 1000) as i64
    } else if ms == i64::MIN {
        -9223372036854775i64
    } else {
        -(((-ms) as u64 / 1000) as i64)
    }
}

} // verus!

verus! {

/// A Markdown body with `# {title}` prepended when there is a title:
/// the prefix rule shared by the egress builders whose target lacks a
/// native title slot.
pub open spec fn spec_titled(title: Option<Seq<char>>, md: Seq<char>) -> Seq<char> {
    match title {
        Some(t) => seq!['#', ' '] + t + seq!['\n', '\n'] + md,
        None => md,
    }
}

/// Executable twin of `spec_titled`.
pub fn titled_markdown(title: &Option<String>, md: &str) -> (r: String)
    ensures
        r@ == spec_titled(crate::models::view_opt(*title), md@),
{
    match title {
        Some(t) => {
            let mut out: Vec<char> = Vec::new();
            out.push('#');
            out.push(' ');
            crate::text::push_str_chars(&mut out, t.as_str());
            out.push('\n');
            out.push('\n');
            crate::text::push_str_chars(&mut out, md);
            proof {
                assert(out@ =~= seq!['#', ' '] + t@ + seq!['\n', '\n'] + md@);
            }
            crate::text::string_from_chars(&out)
        },
        None => crate::text::string_of(md),
    }
}

} // verus!

verus! {

/// The sequence of an optional string, or the empty sequence.
pub open spec fn str_or_empty(o: Option<Seq<char>>) -> Seq<char> {
    match o {
        Some(s) => s,
        None => Seq::empty(),
    }
}

/// `**t**`.
pub open spec fn md_bold(t: Seq<char>) -> Seq<char> {
    seq!['*', '*'] + t + seq!['*', '*']
}

/// `[label](url)`.
pub open spec fn md_link(label: Seq<char>, url: Seq<char>) -> Seq<char> {
    seq!['['] + label + seq![']', '('] + url + seq![')']
}

/// `![alt](url)`.
pub open spec fn md_image(alt: Seq<char>, url: Seq<char>) -> Seq<char> {
    seq!['!', '['] + alt + seq![']', '('] + url + seq![')']
}

/// Executable twin of `md_bold`.
pub fn md_bold_exec(t: &str) -> (r: String)
    ensures
        r@ == md_bold(t@),
{
    let mut out: Vec<char> = Vec::new();
    out.push('*');
    out.push('*');
    crate::text::push_str_chars(&mut out, t);
    out.push('*');
    out.push('*');
    proof {
        assert(out@ =~= md_bold(t@));
    }
    crate::text::string_from_chars(&out)
}

/// Executable twin of `md_link`.
pub fn md_link_exec(label: &str, url: &str) -> (r: String)
    ensures
        r@ == md_link(label@, url@),
{
    let mut out: Vec<char> = Vec::new();
    out.push('[');
    crate::text::push_str_chars(&mut out, label);
    out.push(']');
    out.push('(');
    crate::text::push_str_chars(&mut out, url);
    out.push(')');
    proof {
        assert(out@ =~= md_link(label@, url@));
    }
    crate::text::string_from_chars(&out)
}

/// Executable twin of `md_image`.
pub fn md_image_exec(alt: &str, url: &str) -> (r: String)
    ensures
        r@ == md_image(alt@, url@),
{
    let mut out: Vec<char> = Vec::new();
    out.push('!');
    out.push('[');
    crate::text::push_str_chars(&mut out, alt);
    out.push(']');
    out.push('(');
    crate::text::push_str_chars(&mut out, url);
    out.push(')');
    proof {
        assert(out@ =~= md_image(alt@, url@));
    }
    crate::text::string_from_chars(&out)
}

} // verus!
