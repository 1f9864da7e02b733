//! Names in exported Selen programs: FlatZinc identifiers made into Rust
//! identifiers, and array members.

use vstd::prelude::*;
use crate::text::{
    chars_of, lowercase_text, str_eq, string_from_chars, to_lowercase, usize_text, nat_decimal,
};

verus! {

/// `s` with each `::` (left to right) replaced by `_`.
pub open spec fn replace_double_colon(s: Seq<char>) -> Seq<char>
    decreases s.len(),
{
    if s.len() == 0 {
        Seq::empty()
    } else if s.len() >= 2 && s[0] == ':' && s[1] == ':' {
        seq!['_'] + replace_double_colon(s.subrange(2, s.len() as int))
    } else {
        seq![s[0]] + replace_double_colon(s.drop_first())
    }
}

/// `.`, `-`, `[` and `]` become `_`.
pub open spec fn underscore_punct(c: char) -> char {
    if c == '.' || c == '-' || c == '[' || c == ']' {
        '_'
    } else {
        c
    }
}

/// A FlatZinc name as a Rust identifier: `::`, `.`, `-`, `[`, `]` replaced
/// by `_`, then lower-cased.
pub open spec fn sanitized(s: Seq<char>) -> Seq<char> {
    lowercase_text(replace_double_colon(s).map_values(|c: char| underscore_punct(c)))
}

/// Whether `s` contains `::`.
pub open spec fn has_double_colon(s: Seq<char>) -> bool {
    exists|i: int| 0 <= i < s.len() - 1 && #[trigger] s[i] == ':' && s[i + 1] == ':'
}

/// `s` starts with `p`.
pub open spec fn starts_with(s: Seq<char>, p: Seq<char>) -> bool {
    p.len() <= s.len() && s.subrange(0, p.len() as int) == p
}

/// The name of a variable in the output, or `None` for an introduced
/// (`X_INTRODUCED...`) or qualified (`::`) one.
pub open spec fn var_name_of(s: Seq<char>) -> Option<Seq<char>> {
    if starts_with(s, "X_INTRODUCED"@) || has_double_colon(s) {
        None
    } else {
        Some(sanitized(s))
    }
}

/// Sanitizes a FlatZinc name.
pub fn sanitize_name(name: &str) -> (r: String)
    ensures
        r@ == sanitized(name@),
{
    let v = chars_of(name);
    let ghost s = v@;
    let mut out: Vec<char> = Vec::new();
    let mut i: usize = 0;
    assert(s.subrange(0, s.len() as int) =~= s);
    assert(out@ + replace_double_colon(s.subrange(0, s.len() as int)).map_values(|c: char| underscore_punct(c))
        =~= replace_double_colon(s).map_values(|c: char| underscore_punct(c)));
    while i < v.len()
        invariant
            i <= v.len(),
            s == v@,
            out@ + replace_double_colon(s.subrange(i as int, s.len() as int)).map_values(|c: char| underscore_punct(c))
                == replace_double_colon(s).map_values(|c: char| underscore_punct(c)),
        decreases v.len() - i,
    {
        let ghost rest = s.subrange(i as int, s.len() as int);
        if i + 1 < v.len() && v[i] == ':' && v[i + 1] == ':' {
            out.push('_');
            proof {
                assert(rest.subrange(2, rest.len() as int) =~= s.subrange(i + 2, s.len() as int));
                assert(replace_double_colon(rest) == seq!['_'] + replace_double_colon(
                    s.subrange(i + 2, s.len() as int),
                ));
                assert((seq!['_'] + replace_double_colon(s.subrange(i + 2, s.len() as int))).map_values(
                    |c: char| underscore_punct(c),
                ) =~= seq!['_'] + replace_double_colon(s.subrange(i + 2, s.len() as int)).map_values(
                    |c: char| underscore_punct(c),
                ));
                assert(out@ + replace_double_colon(s.subrange(i + 2, s.len() as int)).map_values(
                    |c: char| underscore_punct(c),
                ) =~= replace_double_colon(s).map_values(|c: char| underscore_punct(c)));
            }
            i = i + 2;
        } else {
            let c = v[i];
            let d = if c == '.' || c == '-' || c == '[' || c == ']' { '_' } else { c };
            out.push(d);
            proof {
                assert(rest.drop_first() =~= s.subrange(i + 1, s.len() as int));
                assert(replace_double_colon(rest) == seq![c] + replace_double_colon(s.subrange(i + 1, s.len() as int)));
                assert((seq![c] + replace_double_colon(s.subrange(i + 1, s.len() as int))).map_values(
                    |c: char| underscore_punct(c),
                ) =~= seq![d] + replace_double_colon(s.subrange(i + 1, s.len() as int)).map_values(
                    |c: char| underscore_punct(c),
                ));
                assert(out@ + replace_double_colon(s.subrange(i + 1, s.len() as int)).map_values(
                    |c: char| underscore_punct(c),
                ) =~= replace_double_colon(s).map_values(|c: char| underscore_punct(c)));
            }
            i = i + 1;
        }
    }
    proof {
        assert(s.subrange(v.len() as int, s.len() as int) =~= Seq::<char>::empty());
        assert(replace_double_colon(Seq::<char>::empty()).map_values(|c: char| underscore_punct(c)) =~= Seq::<
            char,
        >::empty());
        assert(out@ =~= replace_double_colon(s).map_values(|c: char| underscore_punct(c)));
    }
    let t = string_from_chars(&out);
    to_lowercase(t.as_str())
}

fn starts_with_introduced(name: &str) -> (b: bool)
    ensures
        b == starts_with(name@, "X_INTRODUCED"@),
{
    let p = "X_INTRODUCED";
    proof {
        reveal_strlit("X_INTRODUCED");
    }
    let n = name.unicode_len();
    let m = p.unicode_len();
    if n < m {
        return false;
    }
    let mut i: usize = 0;
    while i < m
        invariant
            n == name@.len(),
            m == p@.len(),
            p@ == "X_INTRODUCED"@,
            m <= n,
            i <= m,
            forall|j: int| 0 <= j < i ==> name@[j] == p@[j],
        decreases m - i,
    {
        if name.get_char(i) != p.get_char(i) {
            assert(name@.subrange(0, m as int)[i as int] != p@[i as int]);
            assert(name@.subrange(0, m as int) != p@);
            return false;
        }
        i = i + 1;
    }
    assert(name@.subrange(0, m as int) =~= p@);
    true
}

fn contains_double_colon(name: &str) -> (b: bool)
    ensures
        b == has_double_colon(name@),
{
    let n = name.unicode_len();
    let mut i: usize = 0;
    while i < n && i + 1 < n
        invariant
            n == name@.len(),
            i <= n,
            forall|j: int| 0 <= j < i && j < n - 1 ==> !(#[trigger] name@[j] == ':' && name@[j + 1] == ':'),
        decreases n - i,
    {
        if name.get_char(i) == ':' && name.get_char(i + 1) == ':' {
            return true;
        }
        i = i + 1;
    }
    false
}

/// The output name of a variable, or `None` for an introduced or
/// qualified one.
pub fn get_var_name(name: &str) -> (r: Option<String>)
    ensures
        match r {
            Some(t) => var_name_of(name@) == Some(t@),
            None => var_name_of(name@) is None,
        },
{
    if starts_with_introduced(name) || contains_double_colon(name) {
        return None;
    }
    Some(sanitize_name(name))
}

/// The first entry for `name`, if any.
pub open spec fn array_slot(map: Seq<(Seq<char>, (Seq<char>, usize))>, name: Seq<char>) -> Option<(Seq<char>, usize)>
    decreases map.len(),
{
    if map.len() == 0 {
        None
    } else if map[0].0 == name {
        Some(map[0].1)
    } else {
        array_slot(map.drop_first(), name)
    }
}

pub open spec fn view_slots(v: Seq<(String, (String, usize))>) -> Seq<(Seq<char>, (Seq<char>, usize))> {
    Seq::new(v.len(), |i: int| (v[i].0@, (v[i].1.0@, v[i].1.1)))
}

/// A variable as `array[index]` when it is a member of an array, else its
/// sanitized name.
pub fn translate_var_name(name: &str, var_to_array: &Vec<(String, (String, usize))>) -> (r: String)
    ensures
        r@ == match array_slot(view_slots(var_to_array@), name@) {
            Some((a, idx)) => a + "["@ + nat_decimal(idx as nat) + "]"@,
            None => sanitized(name@),
        },
{
    let ghost m = view_slots(var_to_array@);
    let mut i: usize = 0;
    assert(m.subrange(0, m.len() as int) =~= m);
    while i < var_to_array.len()
        invariant
            i <= var_to_array.len(),
            m == view_slots(var_to_array@),
            array_slot(m.subrange(i as int, m.len() as int), name@) == array_slot(m, name@),
        decreases var_to_array.len() - i,
    {
        proof {
            assert(m.subrange(i as int, m.len() as int).drop_first() =~= m.subrange(i + 1, m.len() as int));
        }
        if str_eq(var_to_array[i].0.as_str(), name) {
            let mut r = var_to_array[i].1.0.clone();
            r.append("[");
            r.append(usize_text(var_to_array[i].1.1).as_str());
            r.append("]");
            return r;
        }
        i = i + 1;
    }
    assert(m.subrange(var_to_array.len() as int, m.len() as int) =~= Seq::<(Seq<char>, (Seq<char>, usize))>::empty());
    sanitize_name(name)
}

} // verus!
