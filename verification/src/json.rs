//! A small JSON document model.
//!
//! `Json` is the executable representation; its mathematical view is
//! `JsonSpec`, where strings are character sequences and collections are
//! `Seq`s.  Objects keep their members in order; a lookup takes the last
//! binding of a key, so that a later duplicate wins, as it does when a
//! JSON text is read into a map.

use vstd::prelude::*;

use crate::text::str_eq;

verus! {

broadcast use vstd::std_specs::vec::group_vec_axioms, vstd::seq::group_seq_axioms;

/// Mathematical model of a JSON document.
#[verifier::ext_equal]
pub enum JsonSpec {
    Null,
    Bool(bool),
    Int(i64),
    /// A numeric literal that does not fit `i64`, kept verbatim.
    Num(Seq<char>),
    Str(Seq<char>),
    Arr(Seq<JsonSpec>),
    Obj(Seq<(Seq<char>, JsonSpec)>),
}

/// Executable JSON document.
pub enum Json {
    Null,
    Bool(bool),
    Int(i64),
    /// A numeric literal that does not fit `i64`, kept verbatim.
    Num(String),
    Str(String),
    Arr(Vec<Json>),
    Obj(Vec<(String, Json)>),
}

/// The mathematical model of an executable JSON document.
pub open spec fn jview(j: Json) -> JsonSpec
    decreases j,
{
    match j {
        Json::Null => JsonSpec::Null,
        Json::Bool(b) => JsonSpec::Bool(b),
        Json::Int(i) => JsonSpec::Int(i),
        Json::Num(s) => JsonSpec::Num(s@),
        Json::Str(s) => JsonSpec::Str(s@),
        Json::Arr(v) => {
            proof {
                assert(decreases_to!(j => v));
                assert(decreases_to!(v => v@));
            }
            JsonSpec::Arr(jview_arr(v@))
        },
        Json::Obj(v) => {
            proof {
                assert(decreases_to!(j => v));
                assert(decreases_to!(v => v@));
            }
            JsonSpec::Obj(jview_obj(v@))
        },
    }
}

/// The models of the elements of an array, in order.
pub open spec fn jview_arr(v: Seq<Json>) -> Seq<JsonSpec>
    decreases v,
{
    if v.len() == 0 {
        Seq::empty()
    } else {
        proof {
            assert(decreases_to!(v => v[0]));
            assert(decreases_to!(v => v.drop_first()));
        }
        seq![jview(v[0])] + jview_arr(v.drop_first())
    }
}

/// The models of the members of an object, in order.
pub open spec fn jview_obj(v: Seq<(String, Json)>) -> Seq<(Seq<char>, JsonSpec)>
    decreases v,
{
    if v.len() == 0 {
        Seq::empty()
    } else {
        proof {
            assert(decreases_to!(v => v[0]));
            assert(decreases_to!(v[0] => v[0].1));
            assert(decreases_to!(v => v.drop_first()));
        }
        seq![(v[0].0@, jview(v[0].1))] + jview_obj(v.drop_first())
    }
}

pub broadcast proof fn lemma_jview_arr(v: Seq<Json>)
    ensures
        (#[trigger] jview_arr(v)).len() == v.len(),
        forall|i: int| 0 <= i < v.len() ==> jview_arr(v)[i] == jview(v[i]),
    decreases v.len(),
{
    if v.len() > 0 {
        lemma_jview_arr(v.drop_first());
    }
}

pub broadcast proof fn lemma_jview_obj(v: Seq<(String, Json)>)
    ensures
        (#[trigger] jview_obj(v)).len() == v.len(),
        forall|i: int| 0 <= i < v.len() ==> jview_obj(v)[i] == (v[i].0@, jview(v[i].1)),
    decreases v.len(),
{
    if v.len() > 0 {
        lemma_jview_obj(v.drop_first());
    }
}

impl View for Json {
    type V = JsonSpec;

    open spec fn view(&self) -> JsonSpec {
        jview(*self)
    }
}

/// The member list of an object document, for stating contracts.
pub open spec fn spec_members(j: JsonSpec) -> Seq<(Seq<char>, JsonSpec)> {
    match j {
        JsonSpec::Obj(members) => members,
        _ => Seq::empty(),
    }
}

/// The value of `key` in an object's member list: the last binding wins.
pub open spec fn spec_member(members: Seq<(Seq<char>, JsonSpec)>, key: Seq<char>) -> Option<
    JsonSpec,
>
    decreases members.len(),
{
    if members.len() == 0 {
        None
    } else if members.last().0 == key {
        Some(members.last().1)
    } else {
        spec_member(members.drop_last(), key)
    }
}

/// The value of `key` if the document is an object that has it.
pub open spec fn spec_get(j: JsonSpec, key: Seq<char>) -> Option<JsonSpec> {
    match j {
        JsonSpec::Obj(members) => spec_member(members, key),
        _ => None,
    }
}

/// The character sequence of a string document, if it is one.
pub open spec fn spec_as_str(j: Option<JsonSpec>) -> Option<Seq<char>> {
    match j {
        Some(JsonSpec::Str(s)) => Some(s),
        _ => None,
    }
}

/// The integer of an integer document, if it is one.
pub open spec fn spec_as_i64(j: Option<JsonSpec>) -> Option<i64> {
    match j {
        Some(JsonSpec::Int(i)) => Some(i),
        _ => None,
    }
}

impl Json {
    /// Looks `key` up in an object; `None` on any other document.
    pub fn get<'a>(&'a self, key: &str) -> (r: Option<&'a Json>)
        ensures
            match r {
                Some(v) => spec_get(self@, key@) == Some(v@),
                None => spec_get(self@, key@) is None,
            },
    {
        match self {
            Json::Obj(members) => {
                let ghost ms: Seq<(Seq<char>, JsonSpec)> = spec_members(self@);
                proof {
                    lemma_jview_obj(members@);
                    assert(self@ == JsonSpec::Obj(ms));
                    assert(ms.len() == members@.len());
                    assert(forall|k: int|
                        0 <= k < ms.len() ==> ms[k] == (members@[k].0@, members@[k].1@));
                }
                let n = members.len();
                let mut i = n;
                proof {
                    assert(ms.take(n as int) =~= ms);
                }
                while i > 0
                    invariant
                        i <= n,
                        n == members.len(),
                        ms.len() == n,
                        self@ == JsonSpec::Obj(ms),
                        forall|k: int| 0 <= k < ms.len() ==> ms[k] == (members@[k].0@, members@[k].1@),
                        spec_member(ms, key@) == spec_member(ms.take(i as int), key@),
                    decreases i,
                {
                    i = i - 1;
                    proof {
                        assert(ms.take(i + 1).last() == ms[i as int]);
                        assert(ms.take(i + 1).drop_last() =~= ms.take(i as int));
                    }
                    if str_eq(members[i].0.as_str(), key) {
                        proof {
                            assert(ms[i as int].0 == key@);
                            assert(spec_member(ms.take(i + 1), key@) == Some(ms[i as int].1));
                            assert(spec_member(ms, key@) == Some(ms[i as int].1));
                        }
                        return Some(&members[i].1);
                    }
                }
                proof {
                    assert(ms.take(0) =~= Seq::<(Seq<char>, JsonSpec)>::empty());
                }
                None
            },
            _ => None,
        }
    }

    /// The string slice held by a string document.
    pub fn as_str<'a>(&'a self) -> (r: Option<&'a str>)
        ensures
            match r {
                Some(s) => spec_as_str(Some(self@)) == Some(s@),
                None => spec_as_str(Some(self@)) is None,
            },
    {
        match self {
            Json::Str(s) => Some(s.as_str()),
            _ => None,
        }
    }

    /// The integer held by an integer document.
    pub fn as_i64(&self) -> (r: Option<i64>)
        ensures
            r == spec_as_i64(Some(self@)),
    {
        match self {
            Json::Int(i) => Some(*i),
            _ => None,
        }
    }
}

} // verus!


verus! {

/// The character of a single hexadecimal digit, lower case.
pub open spec fn hex_char(d: int) -> char {
    if d < 10 {
        crate::text::digit_char(d)
    } else if d == 10 {
        'a'
    } else if d == 11 {
        'b'
    } else if d == 12 {
        'c'
    } else if d == 13 {
        'd'
    } else if d == 14 {
        'e'
    } else {
        'f'
    }
}

/// Executable twin of `hex_char`.
pub fn hex_char_exec(d: u32) -> (r: char)
    requires
        d < 16,
    ensures
        r == hex_char(d as int),
{
    if d < 10 {
        crate::text::digit_char_exec(d as u64)
    } else if d == 10 {
        'a'
    } else if d == 11 {
        'b'
    } else if d == 12 {
        'c'
    } else if d == 13 {
        'd'
    } else if d == 14 {
        'e'
    } else {
        'f'
    }
}

/// How one character is written inside a JSON string literal.
pub open spec fn esc_char(c: char) -> Seq<char> {
    if c == '"' {
        seq!['\\', '"']
    } else if c == '\\' {
        seq!['\\', '\\']
    } else if c == '\n' {
        seq!['\\', 'n']
    } else if c == '\r' {
        seq!['\\', 'r']
    } else if c == '\t' {
        seq!['\\', 't']
    } else if c as u32 == 0x08 {
        seq!['\\', 'b']
    } else if c as u32 == 0x0c {
        seq!['\\', 'f']
    } else if (c as u32) < 0x20 {
        seq!['\\', 'u', '0', '0', hex_char(c as u32 as int / 16), hex_char(c as u32 as int % 16)]
    } else {
        seq![c]
    }
}

/// How a character sequence is written inside a JSON string literal.
pub open spec fn esc_chars(s: Seq<char>) -> Seq<char>
    decreases s.len(),
{
    if s.len() == 0 {
        Seq::empty()
    } else {
        esc_char(s[0]) + esc_chars(s.drop_first())
    }
}

/// The JSON text of a document: compact, members in order, strings
/// escaped as `esc_chars` says.
pub open spec fn json_text(j: JsonSpec) -> Seq<char>
    decreases j, 1int, 0int,
{
    match j {
        JsonSpec::Null => seq!['n', 'u', 'l', 'l'],
        JsonSpec::Bool(b) => if b {
            seq!['t', 'r', 'u', 'e']
        } else {
            seq!['f', 'a', 'l', 's', 'e']
        },
        JsonSpec::Int(i) => crate::text::dec_int(i as int),
        JsonSpec::Num(s) => s,
        JsonSpec::Str(s) => seq!['"'] + esc_chars(s) + seq!['"'],
        JsonSpec::Arr(items) => {
            proof {
                assert(decreases_to!(j => items));
            }
            seq!['['] + arr_text(items, 0) + seq![']']
        },
        JsonSpec::Obj(members) => {
            proof {
                assert(decreases_to!(j => members));
            }
            seq!['{'] + obj_text(members, 0) + seq!['}']
        },
    }
}

/// The JSON text of the array elements from `i` on, with the comma
/// that precedes every element but the first.
pub open spec fn arr_text(items: Seq<JsonSpec>, i: int) -> Seq<char>
    decreases items, 0int, items.len() - i,
{
    if i < 0 || i >= items.len() {
        Seq::empty()
    } else {
        proof {
            assert(decreases_to!(items => items[i]));
        }
        let sep: Seq<char> = if i > 0 {
            seq![',']
        } else {
            Seq::empty()
        };
        sep + json_text(items[i]) + arr_text(items, i + 1)
    }
}

/// The JSON text of the object members from `i` on.
pub open spec fn obj_text(members: Seq<(Seq<char>, JsonSpec)>, i: int) -> Seq<char>
    decreases members, 0int, members.len() - i,
{
    if i < 0 || i >= members.len() {
        Seq::empty()
    } else {
        proof {
            assert(decreases_to!(members => members[i]));
            assert(decreases_to!(members[i] => members[i].1));
        }
        let sep: Seq<char> = if i > 0 {
            seq![',']
        } else {
            Seq::empty()
        };
        sep + seq!['"'] + esc_chars(members[i].0) + seq!['"', ':'] + json_text(members[i].1)
            + obj_text(members, i + 1)
    }
}

/// Appends the escaped form of string content `s` to `out`.
fn write_esc(s: &str, out: &mut Vec<char>)
    ensures
        final(out)@ == old(out)@ + esc_chars(s@),
{
    let cs = crate::text::chars_of(s);
    let n = cs.len();
    let mut i: usize = 0;
    proof {
        assert(s@.skip(0) =~= s@);
    }
    while i < n
        invariant
            i <= n,
            n == cs@.len(),
            cs@ == s@,
            out@ + esc_chars(s@.skip(i as int)) == old(out)@ + esc_chars(s@),
        decreases n - i,
    {
        proof {
            assert(s@.skip(i as int).len() > 0);
            assert(s@.skip(i as int)[0] == s@[i as int]);
            assert(s@.skip(i as int).drop_first() =~= s@.skip(i + 1));
        }
        let ghost prev = out@;
        let c = cs[i];
        if c == '"' {
            out.push('\\');
            out.push('"');
        } else if c == '\\' {
            out.push('\\');
            out.push('\\');
        } else if c == '\n' {
            out.push('\\');
            out.push('n');
        } else if c == '\r' {
            out.push('\\');
            out.push('r');
        } else if c == '\t' {
            out.push('\\');
            out.push('t');
        } else if c as u32 == 0x08 {
            out.push('\\');
            out.push('b');
        } else if c as u32 == 0x0c {
            out.push('\\');
            out.push('f');
        } else if (c as u32) < 0x20 {
            out.push('\\');
            out.push('u');
            out.push('0');
            out.push('0');
            out.push(hex_char_exec((c as u32) / 16));
            out.push(hex_char_exec((c as u32) % 16));
        } else {
            out.push(c);
        }
        proof {
            assert(out@ =~= prev + esc_char(s@[i as int]));
            assert((prev + esc_char(s@[i as int])) + esc_chars(s@.skip(i + 1)) =~= prev + (esc_char(
                s@[i as int],
            ) + esc_chars(s@.skip(i + 1))));
        }
        i = i + 1;
    }
    proof {
        assert(esc_chars(s@.skip(n as int)) =~= Seq::<char>::empty());
        assert(out@ =~= old(out)@ + esc_chars(s@));
    }
}

} // verus!

verus! {

/// Appends the JSON text of `j` to `out`.
fn write_json(j: &Json, out: &mut Vec<char>)
    ensures
        final(out)@ == old(out)@ + json_text(j@),
    decreases j,
{
    match j {
        Json::Null => {
            crate::text::push_str_chars(out, "null");
            proof {
                reveal_strlit("null");
                assert("null"@ =~= seq!['n', 'u', 'l', 'l']);
            }
        },
        Json::Bool(b) => {
            if *b {
                crate::text::push_str_chars(out, "true");
                proof {
                    reveal_strlit("true");
                    assert("true"@ =~= seq!['t', 'r', 'u', 'e']);
                }
            } else {
                crate::text::push_str_chars(out, "false");
                proof {
                    reveal_strlit("false");
                    assert("false"@ =~= seq!['f', 'a', 'l', 's', 'e']);
                }
            }
        },
        Json::Int(i) => {
            crate::text::push_dec_i64(*i, out);
        },
        Json::Num(s) => {
            crate::text::push_str_chars(out, s.as_str());
        },
        Json::Str(s) => {
            let ghost prev = out@;
            out.push('"');
            write_esc(s.as_str(), out);
            out.push('"');
            proof {
                assert(out@ =~= prev + (seq!['"'] + esc_chars(s@) + seq!['"']));
            }
        },
        Json::Arr(v) => {
            let ghost prev = out@;
            let ghost items = jview_arr(v@);
            proof {
                lemma_jview_arr(v@);
                assert(j@ == JsonSpec::Arr(items));
            }
            out.push('[');
            let n = v.len();
            let mut i: usize = 0;
            while i < n
                invariant
                    i <= n,
                    n == v@.len(),
                    items == jview_arr(v@),
                    items.len() == n,
                    *j == Json::Arr(*v),
                    forall|k: int| 0 <= k < n ==> items[k] == jview(v@[k]),
                    out@ + arr_text(items, i as int) == prev + seq!['['] + arr_text(items, 0),
                decreases n - i,
            {
                let ghost mid = out@;
                if i > 0 {
                    out.push(',');
                }
                proof {
                    assert(decreases_to!(*j => j->Arr_0));
                    assert(j->Arr_0 == *v);
                    assert(decreases_to!(*v => v@));
                    assert(decreases_to!(v@ => v@[i as int]));
                }
                write_json(&v[i], out);
                proof {
                    let sep: Seq<char> = if i > 0 {
                        seq![',']
                    } else {
                        Seq::empty()
                    };
                    assert(out@ =~= mid + (sep + json_text(items[i as int])));
                    assert((mid + (sep + json_text(items[i as int]))) + arr_text(items, i + 1)
                        =~= mid + (sep + json_text(items[i as int]) + arr_text(items, i + 1)));
                }
                i = i + 1;
            }
            out.push(']');
            proof {
                assert(arr_text(items, n as int) =~= Seq::<char>::empty());
                assert(out@ + arr_text(items, n as int) =~= out@.drop_last() + arr_text(
                    items,
                    n as int,
                ) + seq![']']);
                assert(out@ =~= prev + (seq!['['] + arr_text(items, 0) + seq![']']));
            }
        },
        Json::Obj(v) => {
            let ghost prev = out@;
            let ghost members = jview_obj(v@);
            proof {
                lemma_jview_obj(v@);
                assert(j@ == JsonSpec::Obj(members));
            }
            out.push('{');
            let n = v.len();
            let mut i: usize = 0;
            while i < n
                invariant
                    i <= n,
                    n == v@.len(),
                    members == jview_obj(v@),
                    members.len() == n,
                    *j == Json::Obj(*v),
                    forall|k: int| 0 <= k < n ==> members[k] == (v@[k].0@, jview(v@[k].1)),
                    out@ + obj_text(members, i as int) == prev + seq!['{'] + obj_text(members, 0),
                decreases n - i,
            {
                let ghost mid = out@;
                if i > 0 {
                    out.push(',');
                }
                out.push('"');
                write_esc(v[i].0.as_str(), out);
                out.push('"');
                out.push(':');
                proof {
                    assert(decreases_to!(*j => j->Obj_0));
                    assert(j->Obj_0 == *v);
                    assert(decreases_to!(*v => v@));
                    assert(decreases_to!(v@ => v@[i as int]));
                    assert(decreases_to!(v@[i as int] => v@[i as int].1));
                }
                write_json(&v[i].1, out);
                proof {
                    let sep: Seq<char> = if i > 0 {
                        seq![',']
                    } else {
                        Seq::empty()
                    };
                    let piece = sep + seq!['"'] + esc_chars(members[i as int].0) + seq!['"', ':']
                        + json_text(members[i as int].1);
                    assert(out@ =~= mid + piece);
                    assert((mid + piece) + obj_text(members, i + 1) =~= mid + (piece + obj_text(
                        members,
                        i + 1,
                    )));
                }
                i = i + 1;
            }
            out.push('}');
            proof {
                assert(obj_text(members, n as int) =~= Seq::<char>::empty());
                assert(out@ =~= prev + (seq!['{'] + obj_text(members, 0) + seq!['}']));
            }
        },
    }
}

impl Json {
    /// The compact JSON text of this document.
    pub fn to_json_string(&self) -> (r: String)
        ensures
            r@ == json_text(self@),
    {
        let mut out: Vec<char> = Vec::new();
        write_json(self, &mut out);
        crate::text::string_from_chars(&out)
    }
}

} // verus!

verus! {

/// `o` if it holds a document, else `Null`: what a looked-up field
/// contributes to a rebuilt object.
pub open spec fn or_null(o: Option<JsonSpec>) -> JsonSpec {
    match o {
        Some(j) => j,
        None => JsonSpec::Null,
    }
}

impl Json {
    /// A structurally equal copy of this document.
    pub fn duplicate(&self) -> (r: Json)
        ensures
            r@ == self@,
        decreases self,
    {
        match self {
            Json::Null => Json::Null,
            Json::Bool(b) => Json::Bool(*b),
            Json::Int(i) => Json::Int(*i),
            Json::Num(s) => Json::Num(s.clone()),
            Json::Str(s) => Json::Str(s.clone()),
            Json::Arr(v) => {
                let n = v.len();
                let mut out: Vec<Json> = Vec::new();
                let mut i: usize = 0;
                while i < n
                    invariant
                        i <= n,
                        n == v@.len(),
                        *self == Json::Arr(*v),
                        out@.len() == i,
                        forall|k: int| 0 <= k < i ==> jview(out@[k]) == jview(v@[k]),
                    decreases n - i,
                {
                    proof {
                        assert(decreases_to!(*self => self->Arr_0));
                        assert(self->Arr_0 == *v);
                        assert(decreases_to!(*v => v@));
                        assert(decreases_to!(v@ => v@[i as int]));
                    }
                    let c = v[i].duplicate();
                    out.push(c);
                    i = i + 1;
                }
                proof {
                    lemma_jview_arr(out@);
                    lemma_jview_arr(v@);
                    assert(jview_arr(out@) =~= jview_arr(v@));
                }
                Json::Arr(out)
            },
            Json::Obj(v) => {
                let n = v.len();
                let mut out: Vec<(String, Json)> = Vec::new();
                let mut i: usize = 0;
                while i < n
                    invariant
                        i <= n,
                        n == v@.len(),
                        *self == Json::Obj(*v),
                        out@.len() == i,
                        forall|k: int|
                            0 <= k < i ==> out@[k].0@ == v@[k].0@ && jview(out@[k].1) == jview(
                                v@[k].1,
                            ),
                    decreases n - i,
                {
                    proof {
                        assert(decreases_to!(*self => self->Obj_0));
                        assert(self->Obj_0 == *v);
                        assert(decreases_to!(*v => v@));
                        assert(decreases_to!(v@ => v@[i as int]));
                        assert(decreases_to!(v@[i as int] => v@[i as int].1));
                    }
                    let k = v[i].0.clone();
                    let c = v[i].1.duplicate();
                    out.push((k, c));
                    i = i + 1;
                }
                proof {
                    lemma_jview_obj(out@);
                    lemma_jview_obj(v@);
                    assert(jview_obj(out@) =~= jview_obj(v@));
                }
                Json::Obj(out)
            },
        }
    }

    /// The string content of field `key`, if the document is an object
    /// holding a string there.
    pub fn get_str<'a>(&'a self, key: &str) -> (r: Option<&'a str>)
        ensures
            match r {
                Some(s) => spec_as_str(spec_get(self@, key@)) == Some(s@),
                None => spec_as_str(spec_get(self@, key@)) is None,
            },
    {
        match self.get(key) {
            Some(v) => v.as_str(),
            None => None,
        }
    }

    /// Field `key`'s document, or `Null`; a copy.
    pub fn get_or_null(&self, key: &str) -> (r: Json)
        ensures
            r@ == or_null(spec_get(self@, key@)),
    {
        match self.get(key) {
            Some(v) => v.duplicate(),
            None => Json::Null,
        }
    }
}

} // verus!

verus! {

/// Every numeric literal kept verbatim in the document is non-empty.
/// This holds of everything the reader produces and of every document
/// built from the constructors here with non-empty `Num` tokens.
pub open spec fn wf_num(j: JsonSpec) -> bool
    decreases j,
{
    match j {
        JsonSpec::Num(s) => s.len() > 0,
        JsonSpec::Arr(items) => {
            proof {
                assert(decreases_to!(j => items));
            }
            forall|i: int| 0 <= i < items.len() ==> wf_num(#[trigger] items[i])
        },
        JsonSpec::Obj(members) => {
            proof {
                assert(decreases_to!(j => members));
            }
            forall|i: int| 0 <= i < members.len() ==> wf_num(#[trigger] members[i].1)
        },
        _ => true,
    }
}

proof fn lemma_dec_digits_nonempty(n: nat)
    ensures
        crate::text::dec_digits(n).len() >= 1,
{
    if n >= 10 {
        assert(crate::text::dec_digits(n) == crate::text::dec_digits(n / 10) + seq![
            crate::text::digit_char((n % 10) as int),
        ]);
    }
}

/// The JSON text of a document is never empty.
pub proof fn lemma_json_text_nonempty(j: JsonSpec)
    requires
        wf_num(j),
    ensures
        json_text(j).len() > 0,
{
    match j {
        JsonSpec::Int(i) => {
            lemma_dec_digits_nonempty(if i < 0 {
                (-(i as int)) as nat
            } else {
                i as nat
            });
        },
        _ => {},
    }
}

} // verus!

verus! {

/// The value of `k2` inside the object at `k1`, if both are there.
pub open spec fn spec_get2(j: JsonSpec, k1: Seq<char>, k2: Seq<char>) -> Option<JsonSpec> {
    match spec_get(j, k1) {
        Some(v) => spec_get(v, k2),
        None => None,
    }
}

impl Json {
    /// Looks up `k2` inside the object at `k1`.
    pub fn get2<'a>(&'a self, k1: &str, k2: &str) -> (r: Option<&'a Json>)
        ensures
            match r {
                Some(v) => spec_get2(self@, k1@, k2@) == Some(v@),
                None => spec_get2(self@, k1@, k2@) is None,
            },
    {
        match self.get(k1) {
            Some(v) => v.get(k2),
            None => None,
        }
    }

    /// The string content of `k2` inside the object at `k1`.
    pub fn get2_str<'a>(&'a self, k1: &str, k2: &str) -> (r: Option<&'a str>)
        ensures
            match r {
                Some(s) => spec_as_str(spec_get2(self@, k1@, k2@)) == Some(s@),
                None => spec_as_str(spec_get2(self@, k1@, k2@)) is None,
            },
    {
        match self.get2(k1, k2) {
            Some(v) => v.as_str(),
            None => None,
        }
    }
}

} // verus!
