//! Readable C#-style names for IL2CPP type names.
//!
//! IL2CPP reports types as `System.Collections.Generic.List`1[System.Int32]`
//! or with assembly qualifiers; these functions turn such names into
//! `List<int>`. Every function here is stated over the characters of its
//! input (`Seq<char>`).

use vstd::prelude::*;
use vstd::string::*;
use crate::text::{
    chars_eq, chars_of, dec, ends_with, ends_with_str, find, find_char, is_ws, join,
    lemma_trim_idempotent, lemma_trim_start_shape, join_strings, lemma_find_from_bounds, lemma_rfind_below_bounds, push_char, push_dec, rfind, rfind_below,
    rfind_char, str_eq, trim, trim_end, trim_start, trim_str, views,
};

verus! {

/// The C# keyword for a built-in type name, with or without `System.`.
pub open spec fn alias_of(n: Seq<char>) -> Option<Seq<char>> {
    if n == "System.Void"@ || n == "Void"@ {
        Some("void"@)
    } else if n == "System.Boolean"@ || n == "Boolean"@ {
        Some("bool"@)
    } else if n == "System.Byte"@ || n == "Byte"@ {
        Some("byte"@)
    } else if n == "System.SByte"@ || n == "SByte"@ {
        Some("sbyte"@)
    } else if n == "System.Int16"@ || n == "Int16"@ {
        Some("short"@)
    } else if n == "System.UInt16"@ || n == "UInt16"@ {
        Some("ushort"@)
    } else if n == "System.Int32"@ || n == "Int32"@ {
        Some("int"@)
    } else if n == "System.UInt32"@ || n == "UInt32"@ {
        Some("uint"@)
    } else if n == "System.Int64"@ || n == "Int64"@ {
        Some("long"@)
    } else if n == "System.UInt64"@ || n == "UInt64"@ {
        Some("ulong"@)
    } else if n == "System.Single"@ || n == "Single"@ {
        Some("float"@)
    } else if n == "System.Double"@ || n == "Double"@ {
        Some("double"@)
    } else if n == "System.Decimal"@ || n == "Decimal"@ {
        Some("decimal"@)
    } else if n == "System.Char"@ || n == "Char"@ {
        Some("char"@)
    } else if n == "System.String"@ || n == "String"@ {
        Some("string"@)
    } else if n == "System.Object"@ || n == "Object"@ {
        Some("object"@)
    } else {
        None
    }
}

/// The alias of `n` when it has one, else `n` itself.
pub open spec fn alias_or_self(n: Seq<char>) -> Seq<char> {
    match alias_of(n) {
        Some(a) => a,
        None => n,
    }
}

fn alias_chars(v: &Vec<char>) -> (r: Option<&'static str>)
    ensures
        r matches Some(a) ==> alias_of(v@) == Some(a@),
        r is None ==> alias_of(v@) is None,
{
    if chars_eq(v, "System.Void") || chars_eq(v, "Void") {
        Some("void")
    } else if chars_eq(v, "System.Boolean") || chars_eq(v, "Boolean") {
        Some("bool")
    } else if chars_eq(v, "System.Byte") || chars_eq(v, "Byte") {
        Some("byte")
    } else if chars_eq(v, "System.SByte") || chars_eq(v, "SByte") {
        Some("sbyte")
    } else if chars_eq(v, "System.Int16") || chars_eq(v, "Int16") {
        Some("short")
    } else if chars_eq(v, "System.UInt16") || chars_eq(v, "UInt16") {
        Some("ushort")
    } else if chars_eq(v, "System.Int32") || chars_eq(v, "Int32") {
        Some("int")
    } else if chars_eq(v, "System.UInt32") || chars_eq(v, "UInt32") {
        Some("uint")
    } else if chars_eq(v, "System.Int64") || chars_eq(v, "Int64") {
        Some("long")
    } else if chars_eq(v, "System.UInt64") || chars_eq(v, "UInt64") {
        Some("ulong")
    } else if chars_eq(v, "System.Single") || chars_eq(v, "Single") {
        Some("float")
    } else if chars_eq(v, "System.Double") || chars_eq(v, "Double") {
        Some("double")
    } else if chars_eq(v, "System.Decimal") || chars_eq(v, "Decimal") {
        Some("decimal")
    } else if chars_eq(v, "System.Char") || chars_eq(v, "Char") {
        Some("char")
    } else if chars_eq(v, "System.String") || chars_eq(v, "String") {
        Some("string")
    } else if chars_eq(v, "System.Object") || chars_eq(v, "Object") {
        Some("object")
    } else {
        None
    }
}

/// The C# keyword for a built-in type name such as `System.Int32` or `Int32`.
pub fn csharp_alias(name: &str) -> (r: Option<&'static str>)
    ensures
        r matches Some(a) ==> alias_of(name@) == Some(a@),
        r is None ==> alias_of(name@) is None,
{
    let v = chars_of(name);
    alias_chars(&v)
}

/// An ASCII decimal digit.
pub open spec fn is_digit(c: char) -> bool {
    '0' <= c && c <= '9'
}

/// The number of consecutive digits in `s` from index `i` on.
pub open spec fn digit_run(s: Seq<char>, i: int) -> nat
    decreases s.len() - i,
{
    if 0 <= i < s.len() && is_digit(s[i]) {
        1 + digit_run(s, i + 1)
    } else {
        0
    }
}

/// The value of the decimal numeral `d`.
pub open spec fn dec_value(d: Seq<char>) -> nat
    decreases d.len(),
{
    if d.len() == 0 {
        0
    } else {
        dec_value(d.drop_last()) * 10 + ((d.last() as int - '0' as int) as nat)
    }
}

/// `str::parse::<usize>` on a run of digits: `None` when empty or too large.
pub open spec fn parse_digits(d: Seq<char>) -> Option<nat> {
    if d.len() == 0 || dec_value(d) > usize::MAX {
        None
    } else {
        Some(dec_value(d))
    }
}

/// The digits that follow the first backtick of `s`.
pub open spec fn arity_digits(s: Seq<char>) -> Seq<char> {
    match find(s, '`') {
        Some(bt) => s.subrange(bt + 1, bt + 1 + digit_run(s, bt + 1)),
        None => Seq::empty(),
    }
}

/// The generic arity written after the first backtick of `s`, or 0.
pub open spec fn arity_of(s: Seq<char>) -> nat {
    match parse_digits(arity_digits(s)) {
        Some(n) => n,
        None => 0,
    }
}

proof fn lemma_digit_run_bounds(s: Seq<char>, i: int)
    requires
        0 <= i <= s.len(),
    ensures
        i + digit_run(s, i) <= s.len(),
        forall|k: int| i <= k < i + digit_run(s, i) ==> is_digit(#[trigger] s[k]),
        i + digit_run(s, i) < s.len() ==> !is_digit(s[i + digit_run(s, i)]),
    decreases s.len() - i,
{
    if i < s.len() && is_digit(s[i]) {
        lemma_digit_run_bounds(s, i + 1);
    }
}

/// Scans the digits of `v` from `from`: their count and, when it fits a
/// `usize`, their value.
fn scan_digits(v: &Vec<char>, from: usize) -> (r: (usize, Option<usize>))
    requires
        from <= v@.len(),
    ensures
        r.0 == digit_run(v@, from as int),
        r.1 == (match parse_digits(v@.subrange(from as int, from + r.0)) {
            Some(n) => Some(n as usize),
            None => None,
        }),
{
    let mut j: usize = from;
    let mut value: usize = 0;
    let mut fits = true;
    while j < v.len() && '0' <= v[j] && v[j] <= '9'
        invariant
            from <= j <= v@.len(),
            digit_run(v@, from as int) == (j - from) + digit_run(v@, j as int),
            fits ==> value == dec_value(v@.subrange(from as int, j as int)),
            !fits ==> dec_value(v@.subrange(from as int, j as int)) > usize::MAX,
        decreases v.len() - j,
    {
        let d = (v[j] as u32 - '0' as u32) as usize;
        proof {
            let before = v@.subrange(from as int, j as int);
            let after = v@.subrange(from as int, j + 1);
            assert(after.drop_last() =~= before);
            assert(dec_value(after) == dec_value(before) * 10 + d);
        }
        if fits {
            if value > (usize::MAX - d) / 10 {
                fits = false;
            } else {
                value = value * 10 + d;
            }
        }
        j = j + 1;
    }
    proof {
        lemma_digit_run_bounds(v@, j as int);
    }
    let run = j - from;
    if run == 0 || !fits {
        (run, None)
    } else {
        (run, Some(value))
    }
}

/// The generic arity written after the first backtick of `name`, e.g. 2 for
/// ``Dictionary`2``; 0 when there is no backtick or no number after it.
pub fn generic_arity(name: &str) -> (r: usize)
    ensures
        r == arity_of(name@),
{
    let v = chars_of(name);
    match find_char(&v, '`') {
        None => 0,
        Some(bt) => {
            proof {
                lemma_find_from_bounds(v@, '`', 0);
            }
            let (_, value) = scan_digits(&v, bt + 1);
            match value {
                Some(n) => n,
                None => 0,
            }
        },
    }
}

/// The state while splitting at top-level commas: finished parts, start of
/// the current part, `<>` depth and `[]` depth.
pub type SplitState = (Seq<Seq<char>>, int, int, int);

/// One character of the top-level split.
pub open spec fn split_step(s: Seq<char>, st: SplitState, i: int) -> SplitState {
    let (parts, start, angle, square) = st;
    let c = s[i];
    if c == '<' {
        (parts, start, angle + 1, square)
    } else if c == '>' {
        (parts, start, angle - 1, square)
    } else if c == '[' {
        (parts, start, angle, square + 1)
    } else if c == ']' {
        (parts, start, angle, square - 1)
    } else if c == ',' && angle == 0 && square == 0 {
        (parts.push(trim(s.subrange(start, i))), i + 1, angle, square)
    } else {
        st
    }
}

/// The split state after the first `i` characters of `s`.
pub open spec fn split_scan(s: Seq<char>, i: int) -> SplitState
    decreases i,
{
    if i <= 0 {
        (Seq::empty(), 0, 0, 0)
    } else {
        split_step(s, split_scan(s, i - 1), i - 1)
    }
}

/// `s` split at the commas outside any `<>` or `[]`, each part trimmed; a
/// blank final part is dropped.
pub open spec fn split_top(s: Seq<char>) -> Seq<Seq<char>> {
    let st = split_scan(s, s.len() as int);
    let tail = trim(s.subrange(st.1, s.len() as int));
    if tail.len() > 0 {
        st.0.push(tail)
    } else {
        st.0
    }
}

/// The character sequences of a list of string slices.
pub open spec fn str_views(v: Seq<&str>) -> Seq<Seq<char>> {
    v.map_values(|x: &str| x@)
}

pub proof fn lemma_trim_start_len(s: Seq<char>)
    ensures
        trim_start(s).len() <= s.len(),
    decreases s.len(),
{
    if s.len() > 0 && is_ws(s[0]) {
        lemma_trim_start_len(s.drop_first());
    }
}

pub proof fn lemma_trim_end_len(s: Seq<char>)
    ensures
        trim_end(s).len() <= s.len(),
    decreases s.len(),
{
    if s.len() > 0 && is_ws(s.last()) {
        lemma_trim_end_len(s.drop_last());
    }
}

pub proof fn lemma_trim_len(s: Seq<char>)
    ensures
        trim(s).len() <= s.len(),
{
    lemma_trim_start_len(s);
    lemma_trim_end_len(trim_start(s));
}

proof fn lemma_split_scan_bounds(s: Seq<char>, i: int)
    requires
        0 <= i <= s.len(),
    ensures
        0 <= split_scan(s, i).1 <= i,
        -i <= split_scan(s, i).2 <= i,
        -i <= split_scan(s, i).3 <= i,
        forall|k: int|
            0 <= k < split_scan(s, i).0.len() ==> (#[trigger] split_scan(s, i).0[k]).len()
                <= s.len(),
    decreases i,
{
    if i > 0 {
        lemma_split_scan_bounds(s, i - 1);
        let prev = split_scan(s, i - 1);
        lemma_trim_len(s.subrange(prev.1, i - 1));
    }
}

/// Every part of `split_top(s)` is at most as long as `s`.
pub proof fn lemma_split_top_lengths(s: Seq<char>)
    ensures
        forall|k: int| 0 <= k < split_top(s).len() ==> (#[trigger] split_top(s)[k]).len() <= s.len(),
{
    lemma_split_scan_bounds(s, s.len() as int);
    let st = split_scan(s, s.len() as int);
    lemma_trim_len(s.subrange(st.1, s.len() as int));
}

/// Splits `s` at the commas that stand outside any `<>` or `[]` nesting,
/// trimming each part; a blank final part is left out.
pub fn split_top_level(s: &str) -> (r: Vec<&str>)
    ensures
        str_views(r@) == split_top(s@),
{
    let v = chars_of(s);
    let n = v.len();
    let mut parts: Vec<&str> = Vec::new();
    let mut start: usize = 0;
    let mut angle: i128 = 0;
    let mut square: i128 = 0;
    let mut i: usize = 0;
    while i < n
        invariant
            v@ == s@,
            n == s@.len(),
            i <= n,
            start <= i,
            -(i as int) <= angle <= i,
            -(i as int) <= square <= i,
            split_scan(s@, i as int) == (str_views(parts@), start as int, angle as int, square as int),
        decreases n - i,
    {
        let c = v[i];
        let ghost before = str_views(parts@);
        if c == '<' {
            angle = angle + 1;
        } else if c == '>' {
            angle = angle - 1;
        } else if c == '[' {
            square = square + 1;
        } else if c == ']' {
            square = square - 1;
        } else if c == ',' && angle == 0 && square == 0 {
            let part = trim_str(s.substring_char(start, i));
            parts.push(part);
            assert(str_views(parts@) =~= before.push(part@));
            start = i + 1;
        }
        i = i + 1;
    }
    let tail = trim_str(s.substring_char(start, n));
    if !tail.is_empty() {
        let ghost before = str_views(parts@);
        parts.push(tail);
        assert(str_views(parts@) =~= before.push(tail@));
    }
    parts
}


/// The inside of `rest` when it is wrapped in `open` ... `close`.
pub open spec fn wrapped_inner(rest: Seq<char>, open: char, close: char) -> Option<Seq<char>> {
    if rest.len() >= 2 && rest[0] == open && rest.last() == close {
        Some(rest.subrange(1, rest.len() - 1))
    } else {
        None
    }
}

/// What follows the arity digits after the backtick at `bt`, trimmed.
pub open spec fn generic_rest(s: Seq<char>, bt: int) -> Seq<char> {
    trim(s.subrange(bt + 1 + digit_run(s, bt + 1), s.len() as int))
}

/// The type arguments listed in `rest`, inside `[...]` or `<...>`.
pub open spec fn generic_args(rest: Seq<char>) -> Seq<Seq<char>> {
    if rest.len() == 0 {
        Seq::empty()
    } else {
        match wrapped_inner(rest, '[', ']') {
            Some(inner) => split_top(inner),
            None => match wrapped_inner(rest, '<', '>') {
                Some(inner) => split_top(inner),
                None => Seq::empty(),
            },
        }
    }
}

/// A generic name split into the part before the backtick and its type
/// arguments; `None` without a backtick followed by at least one digit.
pub open spec fn split_generic(s: Seq<char>) -> Option<(Seq<char>, Seq<Seq<char>>)> {
    match find(s, '`') {
        None => None,
        Some(bt) => if digit_run(s, bt + 1) == 0 {
            None
        } else {
            Some((s.subrange(0, bt), generic_args(generic_rest(s, bt))))
        },
    }
}

fn wrapped_in(v: &Vec<char>, open: char, close: char) -> (r: bool)
    ensures
        r == (wrapped_inner(v@, open, close) is Some),
{
    let m = v.len();
    m >= 2 && v[0] == open && v[m - 1] == close
}

/// Splits a generic type name such as ``List`1[System.Int32]`` into its
/// base name and the top-level type arguments inside `[...]` or `<...>`.
pub fn split_generic_type(name: &str) -> (r: Option<(&str, Vec<&str>)>)
    ensures
        r matches Some(p) ==> split_generic(name@) == Some((p.0@, str_views(p.1@))),
        r is None ==> split_generic(name@) is None,
{
    let v = chars_of(name);
    let n = v.len();
    let bt = match find_char(&v, '`') {
        Some(bt) => bt,
        None => return None,
    };
    proof {
        lemma_find_from_bounds(v@, '`', 0);
    }
    let (run, _) = scan_digits(&v, bt + 1);
    proof {
        lemma_digit_run_bounds(v@, bt + 1);
    }
    if run == 0 {
        return None;
    }
    let base = name.substring_char(0, bt);
    let rest = trim_str(name.substring_char(bt + 1 + run, n));
    if rest.is_empty() {
        let empty: Vec<&str> = Vec::new();
        assert(str_views(empty@) =~= Seq::<Seq<char>>::empty());
        return Some((base, empty));
    }
    let rv = chars_of(rest);
    let m = rv.len();
    if wrapped_in(&rv, '[', ']') {
        return Some((base, split_top_level(rest.substring_char(1, m - 1))));
    }
    if wrapped_in(&rv, '<', '>') {
        return Some((base, split_top_level(rest.substring_char(1, m - 1))));
    }
    let empty: Vec<&str> = Vec::new();
    assert(str_views(empty@) =~= Seq::<Seq<char>>::empty());
    Some((base, empty))
}

/// A rank suffix such as `[]`, `[,]` or `[,,]`.
pub open spec fn is_rank_suffix(t: Seq<char>) -> bool {
    &&& t.len() >= 2
    &&& t[0] == '['
    &&& t.last() == ']'
    &&& forall|k: int| 1 <= k < t.len() - 1 ==> t[k] == ','
}

/// Where the array rank suffix of `s` starts, if `s` has one after its last `[`.
pub open spec fn rank_split(s: Seq<char>) -> Option<int> {
    match rfind(s, '[') {
        Some(p) => if is_rank_suffix(s.subrange(p, s.len() as int)) {
            Some(p)
        } else {
            None
        },
        None => None,
    }
}

/// The placeholder `T<i>` for the `i`-th generic parameter.
pub open spec fn type_param(i: nat) -> Seq<char> {
    seq!['T'] + dec(i)
}

/// `T0, T1, ..., T<n-1>`.
pub open spec fn type_params(n: nat) -> Seq<char>
    decreases n,
{
    if n == 0 {
        Seq::empty()
    } else if n == 1 {
        type_param(0)
    } else {
        type_params((n - 1) as nat) + ", "@ + type_param((n - 1) as nat)
    }
}

/// The display name of a raw class name (`format_class_name`).
pub open spec fn fmt_class(raw: Seq<char>) -> Seq<char> {
    match alias_of(raw) {
        Some(a) => a,
        None => if ends_with(raw, "[]"@) {
            alias_or_self(raw.subrange(0, raw.len() - 2)) + "[]"@
        } else {
            match rank_split(raw) {
                Some(p) => alias_or_self(raw.subrange(0, p)) + raw.subrange(p, raw.len() as int),
                None => match find(raw, '`') {
                    Some(bt) => if arity_of(raw) > 0 {
                        raw.subrange(0, bt) + "<"@ + type_params(arity_of(raw)) + ">"@
                    } else {
                        raw.subrange(0, bt)
                    },
                    None => raw,
                },
            }
        },
    }
}

fn rank_split_at(v: &Vec<char>) -> (r: Option<usize>)
    ensures
        r matches Some(p) ==> rank_split(v@) == Some(p as int) && p < v@.len(),
        r is None ==> rank_split(v@) is None,
{
    let n = v.len();
    let p = match rfind_char(v, '[') {
        Some(p) => p,
        None => return None,
    };
    proof {
        lemma_rfind_below_bounds(v@, '[', n as int);
    }
    let ghost t = v@.subrange(p as int, n as int);
    assert(t.len() == n - p);
    if n - p < 2 || v[n - 1] != ']' {
        proof {
            if n - p >= 2 {
                assert(t.last() == v@[n - 1]);
            }
            assert(!is_rank_suffix(t));
            assert(rfind(v@, '[') == Some(p as int));
        }
        return None;
    }
    let mut k: usize = p + 1;
    while k < n - 1
        invariant
            p + 1 <= k <= n - 1,
            n == v@.len(),
            t == v@.subrange(p as int, n as int),
            rfind(v@, '[') == Some(p as int),
            v@[n - 1] == ']',
            forall|m: int| 1 <= m < k - p ==> t[m] == ',',
        decreases n - 1 - k,
    {
        if v[k] != ',' {
            assert(t[k - p] != ',');
            return None;
        }
        k = k + 1;
    }
    Some(p)
}

/// The alias of `s` when it has one, else `s` itself, as a `String`.
pub fn alias_or_self_string(s: &str) -> (r: String)
    ensures
        r@ == alias_or_self(s@),
{
    match csharp_alias(s) {
        Some(a) => String::from_str(a),
        None => String::from_str(s),
    }
}

/// Appends `T0, T1, ..., T<n-1>`.
fn push_type_params(r: &mut String, n: usize)
    ensures
        final(r)@ == old(r)@ + type_params(n as nat),
{
    let ghost start = r@;
    let mut i: usize = 0;
    while i < n
        invariant
            i <= n,
            r@ == start + type_params(i as nat),
        decreases n - i,
    {
        let ghost before = r@;
        if i > 0 {
            r.append(", ");
        }
        push_char(r, 'T');
        push_dec(r, i as u128);
        i = i + 1;
        proof {
            if i == 1 {
                assert(r@ =~= start + type_params(1));
            } else {
                assert(r@ =~= start + type_params(i as nat));
            }
        }
    }
}

/// Formats a raw IL2CPP class name: built-in names become C# keywords,
/// array suffixes are kept, and ``Name`2`` becomes `Name<T0, T1>`.
pub fn format_class_name(raw: &str) -> (r: String)
    ensures
        r@ == fmt_class(raw@),
{
    let v = chars_of(raw);
    let n = v.len();
    if let Some(a) = alias_chars(&v) {
        return String::from_str(a);
    }
    if ends_with_str(&v, "[]") {
        proof {
            reveal_strlit("[]");
        }
        let mut r = alias_or_self_string(raw.substring_char(0, n - 2));
        r.append("[]");
        return r;
    }
    if let Some(p) = rank_split_at(&v) {
        let mut r = alias_or_self_string(raw.substring_char(0, p));
        r.append(raw.substring_char(p, n));
        return r;
    }
    match find_char(&v, '`') {
        Some(bt) => {
            proof {
                lemma_find_from_bounds(v@, '`', 0);
            }
            let (_, value) = scan_digits(&v, bt + 1);
            let arity: usize = match value {
                Some(a) => a,
                None => 0,
            };
            let mut r = String::from_str(raw.substring_char(0, bt));
            if arity > 0 {
                r.append("<");
                push_type_params(&mut r, arity);
                r.append(">");
            }
            r
        },
        None => String::from_str(raw),
    }
}


/// What follows the last `.` of `s`, or all of `s`.
pub open spec fn after_last_dot(s: Seq<char>) -> Seq<char> {
    match rfind(s, '.') {
        Some(p) => s.subrange(p + 1, s.len() as int),
        None => s,
    }
}

/// The display name of an IL2CPP type name (`format_type_name_str`).
pub open spec fn fmt_type(name: Seq<char>) -> Seq<char>
    decreases name.len() as int, 1int, 0int,
{
    let t = trim(name);
    proof {
        lemma_trim_len(name);
        lemma_rfind_below_bounds(t, '[', t.len() as int);
    }
    match alias_of(t) {
        Some(a) => a,
        None => if ends_with(t, "[]"@) && t.len() >= 2 {
            fmt_type(t.subrange(0, t.len() - 2)) + "[]"@
        } else {
            match rank_split(t) {
                Some(p) => fmt_type(t.subrange(0, p)) + t.subrange(p, t.len() as int),
                None => match split_generic(t) {
                    Some(g) => if g.1.len() == 0 {
                        if arity_of(t) > 0 {
                            after_last_dot(g.0) + "<"@ + type_params(arity_of(t)) + ">"@
                        } else {
                            after_last_dot(g.0)
                        }
                    } else {
                        after_last_dot(g.0) + "<"@ + join(fmt_args(g.1, 0, t.len()), ", "@)
                            + ">"@
                    },
                    None => alias_or_self(after_last_dot(t)),
                },
            }
        },
    }
}

/// The display names of `args[i..]`; an argument not shorter than `bound`
/// yields nothing (no caller passes one).
pub open spec fn fmt_args(args: Seq<Seq<char>>, i: int, bound: nat) -> Seq<Seq<char>>
    decreases bound as int, 0int, args.len() - i,
{
    if i < 0 || i >= args.len() {
        Seq::empty()
    } else {
        let first = if args[i].len() < bound {
            fmt_type(args[i])
        } else {
            Seq::empty()
        };
        seq![first] + fmt_args(args, i + 1, bound)
    }
}

proof fn lemma_fmt_args(args: Seq<Seq<char>>, i: int, bound: nat)
    requires
        0 <= i <= args.len(),
        forall|k: int| 0 <= k < args.len() ==> (#[trigger] args[k]).len() < bound,
    ensures
        fmt_args(args, i, bound).len() == args.len() - i,
        forall|k: int|
            0 <= k < args.len() - i ==> #[trigger] fmt_args(args, i, bound)[k] == fmt_type(
                args[i + k],
            ),
    decreases args.len() - i,
{
    if i < args.len() {
        lemma_fmt_args(args, i + 1, bound);
        let tail = fmt_args(args, i + 1, bound);
        assert forall|k: int| 0 <= k < args.len() - i implies #[trigger] fmt_args(
            args,
            i,
            bound,
        )[k] == fmt_type(args[i + k]) by {
            if k > 0 {
                assert(fmt_args(args, i, bound)[k] == tail[k - 1]);
            }
        }
    }
}

/// The type arguments of a generic name are shorter than the name.
proof fn lemma_split_generic_shorter(t: Seq<char>)
    ensures
        split_generic(t) matches Some(g) ==> g.0.len() < t.len() + 1 && forall|k: int|
            0 <= k < g.1.len() ==> (#[trigger] g.1[k]).len() < t.len(),
{
    lemma_find_from_bounds(t, '`', 0);
    if let Some(bt) = find(t, '`') {
        if digit_run(t, bt + 1) > 0 {
            lemma_digit_run_bounds(t, bt + 1);
            let tail = t.subrange(bt + 1 + digit_run(t, bt + 1), t.len() as int);
            let rest = generic_rest(t, bt);
            lemma_trim_len(tail);
            if rest.len() > 0 {
                match wrapped_inner(rest, '[', ']') {
                    Some(inner) => lemma_split_top_lengths(inner),
                    None => match wrapped_inner(rest, '<', '>') {
                        Some(inner) => lemma_split_top_lengths(inner),
                        None => {},
                    },
                }
            }
        }
    }
}

/// What follows the last `.` of `s`, or all of `s`.
pub fn after_last_dot_str(s: &str) -> (r: &str)
    ensures
        r@ == after_last_dot(s@),
{
    let v = chars_of(s);
    match rfind_char(&v, '.') {
        Some(p) => {
            proof {
                lemma_rfind_below_bounds(v@, '.', v@.len() as int);
            }
            assert(p < v.len());
            s.substring_char(p + 1, v.len())
        },
        None => s,
    }
}

/// Formats an IL2CPP type name for display, C#-style: namespaces are
/// dropped, built-in types become keywords, and generic arguments are
/// formatted recursively, e.g. ``System.Collections.Generic.List`1[System.Int32]``
/// becomes `List<int>`.
pub fn format_type_name_str(name: &str) -> (r: String)
    ensures
        r@ == fmt_type(name@),
    decreases name@.len(),
{
    let t = trim_str(name);
    proof {
        lemma_trim_len(name@);
    }
    let v = chars_of(t);
    let n = v.len();
    proof {
        lemma_rfind_below_bounds(v@, '[', n as int);
    }
    if let Some(a) = alias_chars(&v) {
        return String::from_str(a);
    }
    if ends_with_str(&v, "[]") {
        proof {
            reveal_strlit("[]");
        }
        let mut r = format_type_name_str(t.substring_char(0, n - 2));
        r.append("[]");
        return r;
    }
    if let Some(p) = rank_split_at(&v) {
        let mut r = format_type_name_str(t.substring_char(0, p));
        r.append(t.substring_char(p, n));
        return r;
    }
    if let Some((base, args)) = split_generic_type(t) {
        let simple = after_last_dot_str(base);
        if args.len() == 0 {
            let arity = generic_arity(t);
            let mut r = String::from_str(simple);
            if arity > 0 {
                r.append("<");
                push_type_params(&mut r, arity);
                r.append(">");
            }
            return r;
        }
        proof {
            lemma_split_generic_shorter(t@);
            lemma_fmt_args(str_views(args@), 0, n as nat);
        }
        let ghost targs = str_views(args@);
        let mut formatted: Vec<String> = Vec::new();
        let mut i: usize = 0;
        while i < args.len()
            invariant
                i <= args@.len(),
                targs == str_views(args@),
                n == t@.len(),
                t@.len() <= name@.len(),
                forall|k: int| 0 <= k < targs.len() ==> (#[trigger] targs[k]).len() < n,
                formatted@.len() == i,
                forall|k: int| 0 <= k < i ==> (#[trigger] formatted@[k])@ == fmt_type(targs[k]),
            decreases args.len() - i,
        {
            assert(targs[i as int] == args@[i as int]@);
            let f = format_type_name_str(args[i]);
            formatted.push(f);
            i = i + 1;
        }
        assert(views(formatted@) =~= fmt_args(targs, 0, n as nat));
        let mut r = String::from_str(simple);
        r.append("<");
        let joined = join_strings(&formatted, ", ");
        r.append(joined.as_str());
        r.append(">");
        return r;
    }
    let simple = after_last_dot_str(t);
    alias_or_self_string(simple)
}


/// Index of the first `,` of `s` at `[]` depth 0, scanning from `i` at
/// depth `depth`; `s.len()` when there is none.
pub open spec fn top_comma_from(s: Seq<char>, i: int, depth: int) -> int
    decreases s.len() - i,
{
    if i < 0 || i >= s.len() {
        s.len() as int
    } else if s[i] == '[' {
        top_comma_from(s, i + 1, depth + 1)
    } else if s[i] == ']' {
        top_comma_from(s, i + 1, depth - 1)
    } else if s[i] == ',' && depth == 0 {
        i
    } else {
        top_comma_from(s, i + 1, depth)
    }
}

/// Index of the first `[[` of `s` at or after `i`.
pub open spec fn find_double_from(s: Seq<char>, i: int) -> Option<int>
    decreases s.len() - i,
{
    if i < 0 || i + 1 >= s.len() {
        None
    } else if s[i] == '[' && s[i + 1] == '[' {
        Some(i)
    } else {
        find_double_from(s, i + 1)
    }
}

pub proof fn lemma_top_comma_bounds(s: Seq<char>, i: int, depth: int)
    requires
        0 <= i <= s.len(),
    ensures
        i <= top_comma_from(s, i, depth) <= s.len(),
    decreases s.len() - i,
{
    if i < s.len() {
        lemma_top_comma_bounds(s, i + 1, depth + 1);
        lemma_top_comma_bounds(s, i + 1, depth - 1);
        lemma_top_comma_bounds(s, i + 1, depth);
    }
}

pub proof fn lemma_find_double_bounds(s: Seq<char>, i: int)
    requires
        0 <= i,
    ensures
        find_double_from(s, i) matches Some(k) ==> i <= k && k + 1 < s.len(),
    decreases s.len() - i,
{
    if i + 1 < s.len() {
        lemma_find_double_bounds(s, i + 1);
    }
}

/// The generic types of `System.Collections.Generic`, by their bare
/// names.
pub open spec fn collections_generic_name(n: Seq<char>) -> bool {
    n == "List`1"@
        || n == "Dictionary`2"@
        || n == "HashSet`1"@
        || n == "Queue`1"@
        || n == "Stack`1"@
        || n == "LinkedList`1"@
        || n == "SortedDictionary`2"@
        || n == "SortedList`2"@
        || n == "SortedSet`1"@
        || n == "KeyValuePair`2"@
        || n == "IEnumerable`1"@
        || n == "IEnumerator`1"@
        || n == "ICollection`1"@
        || n == "IList`1"@
        || n == "IDictionary`2"@
        || n == "ISet`1"@
        || n == "IReadOnlyCollection`1"@
        || n == "IReadOnlyList`1"@
        || n == "IReadOnlyDictionary`2"@
        || n == "IComparer`1"@
        || n == "IEqualityComparer`1"@
        || n == "Comparer`1"@
        || n == "EqualityComparer`1"@
}

/// A generic base name as the stripped name shows it: a bare name of a
/// `System.Collections.Generic` type gets that namespace; any other base
/// stays as written.
pub open spec fn qualify_base(b: Seq<char>) -> Seq<char> {
    if collections_generic_name(b) {
        "System.Collections.Generic."@ + b
    } else {
        b
    }
}

fn is_collections_generic(n: &str) -> (r: bool)
    ensures
        r == collections_generic_name(n@),
{
    str_eq(n, "List`1")
        || str_eq(n, "Dictionary`2")
        || str_eq(n, "HashSet`1")
        || str_eq(n, "Queue`1")
        || str_eq(n, "Stack`1")
        || str_eq(n, "LinkedList`1")
        || str_eq(n, "SortedDictionary`2")
        || str_eq(n, "SortedList`2")
        || str_eq(n, "SortedSet`1")
        || str_eq(n, "KeyValuePair`2")
        || str_eq(n, "IEnumerable`1")
        || str_eq(n, "IEnumerator`1")
        || str_eq(n, "ICollection`1")
        || str_eq(n, "IList`1")
        || str_eq(n, "IDictionary`2")
        || str_eq(n, "ISet`1")
        || str_eq(n, "IReadOnlyCollection`1")
        || str_eq(n, "IReadOnlyList`1")
        || str_eq(n, "IReadOnlyDictionary`2")
        || str_eq(n, "IComparer`1")
        || str_eq(n, "IEqualityComparer`1")
        || str_eq(n, "Comparer`1")
        || str_eq(n, "EqualityComparer`1")
}

fn qualified_base(base: &str) -> (r: String)
    ensures
        r@ == qualify_base(base@),
{
    if is_collections_generic(base) {
        let mut r = String::from_str("System.Collections.Generic.");
        r.append(base);
        r
    } else {
        String::from_str(base)
    }
}

/// `aqn` with its assembly qualifiers removed (`strip_assembly_qualifiers`).
pub open spec fn strip_aq(s: Seq<char>) -> Seq<char>
    decreases s.len() as int, 1int, 0int,
{
    let t = trim(s);
    proof {
        lemma_trim_len(s);
        lemma_top_comma_bounds(t, 0, 0);
    }
    let tp = t.subrange(0, top_comma_from(t, 0, 0));
    match find_double_from(tp, 0) {
        None => tp,
        Some(dbl) => {
            let section = tp.subrange(dbl, tp.len() as int);
            qualify_base(tp.subrange(0, dbl)) + "["@ + join(
                strip_args(section, 0, 0, None, Seq::empty(), t.len()),
                ","@,
            ) + "]"@
        },
    }
}

/// The stripped type arguments of `sec[i..]`, each one written between a
/// `[` that opens depth 2 and the `]` that closes it; `acc` holds those
/// found before `i`. An argument not shorter than `bound` yields nothing
/// (no caller passes one).
pub open spec fn strip_args(
    sec: Seq<char>,
    i: int,
    d: int,
    start: Option<int>,
    acc: Seq<Seq<char>>,
    bound: nat,
) -> Seq<Seq<char>>
    decreases bound as int, 0int, sec.len() - i,
{
    if i < 0 || i >= sec.len() {
        acc
    } else if sec[i] == '[' {
        strip_args(
            sec,
            i + 1,
            d + 1,
            if d + 1 == 2 {
                Some(i + 1)
            } else {
                start
            },
            acc,
            bound,
        )
    } else if sec[i] == ']' {
        if d - 1 == 1 && start is Some {
            let sub = sec.subrange(start.unwrap(), i);
            let item = if sub.len() < bound {
                strip_aq(sub)
            } else {
                Seq::empty()
            };
            strip_args(sec, i + 1, d - 1, None, acc.push(item), bound)
        } else {
            strip_args(sec, i + 1, d - 1, start, acc, bound)
        }
    } else {
        strip_args(sec, i + 1, d, start, acc, bound)
    }
}

fn top_comma(v: &Vec<char>) -> (r: usize)
    ensures
        r == top_comma_from(v@, 0, 0),
{
    let n = v.len();
    let mut depth: i128 = 0;
    let mut i: usize = 0;
    while i < n
        invariant
            n == v@.len(),
            i <= n,
            -(i as int) <= depth <= i,
            top_comma_from(v@, 0, 0) == top_comma_from(v@, i as int, depth as int),
        decreases n - i,
    {
        let c = v[i];
        if c == '[' {
            depth = depth + 1;
        } else if c == ']' {
            depth = depth - 1;
        } else if c == ',' && depth == 0 {
            return i;
        }
        i = i + 1;
    }
    n
}

fn find_double(v: &Vec<char>) -> (r: Option<usize>)
    ensures
        r matches Some(k) ==> find_double_from(v@, 0) == Some(k as int),
        r is None ==> find_double_from(v@, 0) is None,
{
    let n = v.len();
    let mut i: usize = 0;
    while i < n && i + 1 < n
        invariant
            n == v@.len(),
            find_double_from(v@, 0) == find_double_from(v@, i as int),
        decreases n - i,
    {
        if v[i] == '[' && v[i + 1] == '[' {
            return Some(i);
        }
        i = i + 1;
    }
    None
}

/// Removes the assembly qualifiers from an assembly-qualified type name,
/// keeping the generic arguments:
/// ``Dictionary`2[[System.String, mscorlib],[System.Int32, mscorlib]], mscorlib``
/// becomes ``System.Collections.Generic.Dictionary`2[System.String,System.Int32]``,
/// which `format_type_name_str` reads as `Dictionary<string, int>`. A
/// generic base that is a bare name of a `System.Collections.Generic`
/// type gets that namespace (see [`qualify_base`]); any other base is kept
/// as written.
pub fn strip_assembly_qualifiers(aqn: &str) -> (r: String)
    ensures
        r@ == strip_aq(aqn@),
    decreases aqn@.len(),
{
    let t = trim_str(aqn);
    proof {
        lemma_trim_len(aqn@);
    }
    let v = chars_of(t);
    let n = v.len();
    let end = top_comma(&v);
    proof {
        lemma_top_comma_bounds(v@, 0, 0);
    }
    let tp = t.substring_char(0, end);
    let tv = chars_of(tp);
    let m = tv.len();
    let dbl = match find_double(&tv) {
        Some(k) => k,
        None => return String::from_str(tp),
    };
    proof {
        lemma_find_double_bounds(tv@, 0);
    }
    let section = tp.substring_char(dbl, m);
    let sv = chars_of(section);
    let len = sv.len();
    let ghost sec = section@;
    let ghost bound = n as nat;
    let mut args: Vec<String> = Vec::new();
    let mut start: Option<usize> = None;
    let mut d: i128 = 0;
    let mut j: usize = 0;
    assert(views(args@) =~= Seq::<Seq<char>>::empty());
    while j < len
        invariant
            sv@ == sec,
            sec == section@,
            len == sec.len(),
            len <= n,
            bound == n,
            n <= aqn@.len(),
            j <= len,
            -(j as int) <= d <= j,
            start is Some ==> 1 <= start.unwrap() <= j,
            strip_args(sec, 0, 0, None, Seq::empty(), bound) == strip_args(
                sec,
                j as int,
                d as int,
                match start {
                    Some(st) => Some(st as int),
                    None => None,
                },
                views(args@),
                bound,
            ),
        decreases len - j,
    {
        let c = sv[j];
        if c == '[' {
            d = d + 1;
            if d == 2 {
                start = Some(j + 1);
            }
        } else if c == ']' {
            d = d - 1;
            if d == 1 {
                if let Some(st) = start {
                    let ghost before = views(args@);
                    let item = strip_assembly_qualifiers(section.substring_char(st, j));
                    args.push(item);
                    assert(views(args@) =~= before.push(item@));
                    start = None;
                }
            }
        }
        j = j + 1;
    }
    let mut r = qualified_base(tp.substring_char(0, dbl));
    r.append("[");
    let joined = join_strings(&args, ",");
    r.append(joined.as_str());
    r.append("]");
    r
}

/// Whitespace around a type name does not change its display name.
pub proof fn law_format_ignores_surrounding_whitespace(name: Seq<char>)
    ensures
        fmt_type(trim(name)) == fmt_type(name),
{
    lemma_trim_idempotent(name);
}


/// No name with an alias ends in `]`.
proof fn lemma_no_alias_ends_in_bracket(n: Seq<char>)
    requires
        n.len() > 0,
        n.last() == ']',
    ensures
        alias_of(n) is None,
{
    reveal_strlit("System.Void");
    assert(n != "System.Void"@) by {
        assert("System.Void"@.last() == 'd');
    }
    reveal_strlit("Void");
    assert(n != "Void"@) by {
        assert("Void"@.last() == 'd');
    }
    reveal_strlit("System.Boolean");
    assert(n != "System.Boolean"@) by {
        assert("System.Boolean"@.last() == 'n');
    }
    reveal_strlit("Boolean");
    assert(n != "Boolean"@) by {
        assert("Boolean"@.last() == 'n');
    }
    reveal_strlit("System.Byte");
    assert(n != "System.Byte"@) by {
        assert("System.Byte"@.last() == 'e');
    }
    reveal_strlit("Byte");
    assert(n != "Byte"@) by {
        assert("Byte"@.last() == 'e');
    }
    reveal_strlit("System.SByte");
    assert(n != "System.SByte"@) by {
        assert("System.SByte"@.last() == 'e');
    }
    reveal_strlit("SByte");
    assert(n != "SByte"@) by {
        assert("SByte"@.last() == 'e');
    }
    reveal_strlit("System.Int16");
    assert(n != "System.Int16"@) by {
        assert("System.Int16"@.last() == '6');
    }
    reveal_strlit("Int16");
    assert(n != "Int16"@) by {
        assert("Int16"@.last() == '6');
    }
    reveal_strlit("System.UInt16");
    assert(n != "System.UInt16"@) by {
        assert("System.UInt16"@.last() == '6');
    }
    reveal_strlit("UInt16");
    assert(n != "UInt16"@) by {
        assert("UInt16"@.last() == '6');
    }
    reveal_strlit("System.Int32");
    assert(n != "System.Int32"@) by {
        assert("System.Int32"@.last() == '2');
    }
    reveal_strlit("Int32");
    assert(n != "Int32"@) by {
        assert("Int32"@.last() == '2');
    }
    reveal_strlit("System.UInt32");
    assert(n != "System.UInt32"@) by {
        assert("System.UInt32"@.last() == '2');
    }
    reveal_strlit("UInt32");
    assert(n != "UInt32"@) by {
        assert("UInt32"@.last() == '2');
    }
    reveal_strlit("System.Int64");
    assert(n != "System.Int64"@) by {
        assert("System.Int64"@.last() == '4');
    }
    reveal_strlit("Int64");
    assert(n != "Int64"@) by {
        assert("Int64"@.last() == '4');
    }
    reveal_strlit("System.UInt64");
    assert(n != "System.UInt64"@) by {
        assert("System.UInt64"@.last() == '4');
    }
    reveal_strlit("UInt64");
    assert(n != "UInt64"@) by {
        assert("UInt64"@.last() == '4');
    }
    reveal_strlit("System.Single");
    assert(n != "System.Single"@) by {
        assert("System.Single"@.last() == 'e');
    }
    reveal_strlit("Single");
    assert(n != "Single"@) by {
        assert("Single"@.last() == 'e');
    }
    reveal_strlit("System.Double");
    assert(n != "System.Double"@) by {
        assert("System.Double"@.last() == 'e');
    }
    reveal_strlit("Double");
    assert(n != "Double"@) by {
        assert("Double"@.last() == 'e');
    }
    reveal_strlit("System.Decimal");
    assert(n != "System.Decimal"@) by {
        assert("System.Decimal"@.last() == 'l');
    }
    reveal_strlit("Decimal");
    assert(n != "Decimal"@) by {
        assert("Decimal"@.last() == 'l');
    }
    reveal_strlit("System.Char");
    assert(n != "System.Char"@) by {
        assert("System.Char"@.last() == 'r');
    }
    reveal_strlit("Char");
    assert(n != "Char"@) by {
        assert("Char"@.last() == 'r');
    }
    reveal_strlit("System.String");
    assert(n != "System.String"@) by {
        assert("System.String"@.last() == 'g');
    }
    reveal_strlit("String");
    assert(n != "String"@) by {
        assert("String"@.last() == 'g');
    }
    reveal_strlit("System.Object");
    assert(n != "System.Object"@) by {
        assert("System.Object"@.last() == 't');
    }
    reveal_strlit("Object");
    assert(n != "Object"@) by {
        assert("Object"@.last() == 't');
    }
}

/// Leading whitespace before a part that starts with other text is
/// trimmed as if that part were not there.
proof fn lemma_trim_start_append(a: Seq<char>, b: Seq<char>)
    requires
        b.len() > 0,
        !is_ws(b[0]),
    ensures
        trim_start(a + b) == trim_start(a) + b,
    decreases a.len(),
{
    if a.len() == 0 {
        assert(a + b =~= b);
        assert(trim_start(a) + b =~= b);
    } else {
        assert((a + b)[0] == a[0]);
        if is_ws(a[0]) {
            assert((a + b).drop_first() =~= a.drop_first() + b);
            lemma_trim_start_append(a.drop_first(), b);
        }
    }
}

/// An array of a type is shown as that type's display name followed by
/// `[]`.
pub proof fn law_array_suffix(x: Seq<char>)
    ensures
        fmt_type(x + "[]"@) == fmt_type(x) + "[]"@,
{
    reveal_strlit("[]");
    let b = "[]"@;
    let u = trim_start(x);
    let t = u + b;
    lemma_trim_start_append(x, b);
    assert(t.last() == ']');
    assert(trim_end(t) == t);
    assert(trim(x + b) == t);
    lemma_no_alias_ends_in_bracket(t);
    assert(t.subrange(t.len() - 2, t.len() as int) =~= b);
    assert(t.subrange(0, t.len() - 2) =~= u);
    assert(fmt_type(x + b) == fmt_type(u) + b);
    lemma_trim_start_shape(x);
    assert(trim_start(u) == u);
    law_format_ignores_surrounding_whitespace(x);
    law_format_ignores_surrounding_whitespace(u);
}


/// `r` is a multi-dimensional rank suffix: `[`, one comma or more, `]`.
pub open spec fn is_multi_rank(r: Seq<char>) -> bool {
    &&& r.len() >= 3
    &&& r[0] == '['
    &&& r.last() == ']'
    &&& forall|k: int| 1 <= k < r.len() - 1 ==> #[trigger] r[k] == ','
}

/// A multi-dimensional array of a type is shown as that type's display
/// name followed by the same rank suffix: `UnityEngine.Vector3[,]` reads
/// `Vector3[,]`, `System.Int32[,,]` reads `int[,,]`.
pub proof fn law_rank_suffix(x: Seq<char>, r: Seq<char>)
    requires
        is_multi_rank(r),
    ensures
        fmt_type(x + r) == fmt_type(x) + r,
{
    reveal_strlit("[]");
    let u = trim_start(x);
    let t = u + r;
    lemma_trim_start_append(x, r);
    assert(t.last() == ']');
    assert(trim_end(t) == t);
    assert(trim(x + r) == t);
    lemma_no_alias_ends_in_bracket(t);
    assert(t[t.len() - 2] == ',');
    assert(!ends_with(t, "[]"@)) by {
        if ends_with(t, "[]"@) {
            assert(t.subrange(t.len() - 2, t.len() as int)[0] == t[t.len() - 2]);
        }
    }
    assert(t[u.len() as int] == '[');
    assert forall|m: int| u.len() < m < t.len() implies t[m] != '[' by {
        assert(t[m] == r[m - u.len()]);
    }
    lemma_rfind_last(t, '[', u.len() as int);
    assert(t.subrange(u.len() as int, t.len() as int) =~= r);
    assert(rank_split(t) == Some(u.len() as int));
    assert(t.subrange(0, u.len() as int) =~= u);
    assert(fmt_type(x + r) == fmt_type(u) + r);
    lemma_trim_start_shape(x);
    assert(trim_start(u) == u);
    law_format_ignores_surrounding_whitespace(x);
    law_format_ignores_surrounding_whitespace(u);
}

/// The last `c` of `s` is at `p` when `s[p] == c` and none follows it.
proof fn lemma_rfind_last(s: Seq<char>, c: char, p: int)
    requires
        0 <= p < s.len(),
        s[p] == c,
        forall|m: int| p < m < s.len() ==> s[m] != c,
    ensures
        rfind(s, c) == Some(p),
{
    lemma_rfind_below_from(s, c, p, s.len() as int);
}

proof fn lemma_rfind_below_from(s: Seq<char>, c: char, p: int, j: int)
    requires
        0 <= p < j <= s.len(),
        s[p] == c,
        forall|m: int| p < m < s.len() ==> s[m] != c,
    ensures
        rfind_below(s, c, j) == Some(p),
    decreases j,
{
    if j - 1 != p {
        lemma_rfind_below_from(s, c, p, j - 1);
    }
}


} // verus!
