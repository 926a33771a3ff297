//! Laws on stripping assembly qualifiers from generic type names: how
//! the arguments of a generic name come out.

use vstd::prelude::*;
use vstd::string::*;
use crate::names::{find_double_from, qualify_base, strip_args, strip_aq, top_comma_from};
use crate::text::{is_ws, join, trim, trim_end, trim_start};

verus! {

/// How many brackets `x` leaves open: one more for each `[`, one fewer
/// for each `]`.
pub open spec fn bracket_depth(x: Seq<char>) -> int
    decreases x.len(),
{
    if x.len() == 0 {
        0
    } else {
        bracket_depth(x.drop_last()) + if x.last() == '[' {
            1int
        } else if x.last() == ']' {
            -1int
        } else {
            0int
        }
    }
}

/// Every `]` of `x` closes a `[` of `x`, and every `[` is closed.
pub open spec fn balanced(x: Seq<char>) -> bool {
    &&& bracket_depth(x) == 0
    &&& forall|k: int| 0 <= k <= x.len() ==> bracket_depth(#[trigger] x.take(k)) >= 0
}

/// `b` holds no bracket and no comma.
pub open spec fn plain(b: Seq<char>) -> bool {
    forall|k: int| 0 <= k < b.len() ==> #[trigger] b[k] != '[' && b[k] != ']' && b[k] != ','
}

/// The generic arguments of an assembly-qualified name as written:
/// `[a1],[a2],...,[an]`.
pub open spec fn bracketed(args: Seq<Seq<char>>) -> Seq<char>
    decreases args.len(),
{
    if args.len() == 0 {
        Seq::empty()
    } else {
        (if args.len() == 1 {
            Seq::empty()
        } else {
            bracketed(args.drop_last()) + seq![',']
        }) + seq!['['] + args.last() + seq![']']
    }
}

/// An assembly-qualified generic name: `base[[a1],...,[an]]` and then
/// `tail` (empty, or the assembly part such as `, mscorlib`).
pub open spec fn qualified_generic(base: Seq<char>, args: Seq<Seq<char>>, tail: Seq<char>) -> Seq<char> {
    base + seq!['['] + bracketed(args) + seq![']'] + tail
}

proof fn lemma_depth_step(x: Seq<char>, k: int)
    requires
        0 <= k < x.len(),
    ensures
        bracket_depth(x.take(k + 1)) == bracket_depth(x.take(k)) + if x[k] == '[' {
            1int
        } else if x[k] == ']' {
            -1int
        } else {
            0int
        },
{
    assert(x.take(k + 1).drop_last() =~= x.take(k));
    assert(x.take(k + 1).last() == x[k]);
}

/// Scanning a balanced part at depth 2 or more for a top-level comma
/// passes over it.
proof fn lemma_top_skip(s: Seq<char>, i: int, d: int, x: Seq<char>, k: int)
    requires
        0 <= i,
        i + x.len() <= s.len(),
        s.subrange(i, i + x.len()) == x,
        d >= 2,
        balanced(x),
        0 <= k <= x.len(),
    ensures
        top_comma_from(s, i, d) == top_comma_from(s, i + k, d + bracket_depth(x.take(k))),
    decreases k,
{
    if k == 0 {
        assert(x.take(0) =~= Seq::<char>::empty());
    } else {
        lemma_top_skip(s, i, d, x, k - 1);
        lemma_depth_step(x, k - 1);
        assert(s.subrange(i, i + x.len())[k - 1] == s[i + k - 1]);
        assert(bracket_depth(x.take(k - 1)) >= 0);
        assert(bracket_depth(x.take(k)) >= 0);
    }
}

/// Scanning a plain part for a top-level comma passes over it.
proof fn lemma_top_plain(s: Seq<char>, i: int, k: int)
    requires
        0 <= i <= k <= s.len(),
        forall|j: int| i <= j < k ==> #[trigger] s[j] != '[' && s[j] != ']' && s[j] != ',',
    ensures
        top_comma_from(s, i, 0) == top_comma_from(s, k, 0),
    decreases k - i,
{
    if i < k {
        lemma_top_plain(s, i + 1, k);
    }
}

/// Collecting generic arguments passes over a balanced part inside an
/// argument (at depth 2 or more) without ending the argument.
proof fn lemma_strip_skip(
    sec: Seq<char>,
    i: int,
    d: int,
    start: Option<int>,
    acc: Seq<Seq<char>>,
    bound: nat,
    x: Seq<char>,
    k: int,
)
    requires
        0 <= i,
        i + x.len() <= sec.len(),
        sec.subrange(i, i + x.len()) == x,
        d >= 2,
        balanced(x),
        0 <= k <= x.len(),
    ensures
        strip_args(sec, i, d, start, acc, bound) == strip_args(
            sec,
            i + k,
            d + bracket_depth(x.take(k)),
            start,
            acc,
            bound,
        ),
    decreases k,
{
    if k == 0 {
        assert(x.take(0) =~= Seq::<char>::empty());
    } else {
        lemma_strip_skip(sec, i, d, start, acc, bound, x, k - 1);
        lemma_depth_step(x, k - 1);
        assert(sec.subrange(i, i + x.len())[k - 1] == sec[i + k - 1]);
        assert(bracket_depth(x.take(k - 1)) >= 0);
        assert(bracket_depth(x.take(k)) >= 0);
    }
}

/// The written arguments before the `m`-th, and what follows them.
proof fn lemma_bracketed_split(args: Seq<Seq<char>>, m: int) -> (rest: Seq<char>)
    requires
        1 <= m <= args.len(),
    ensures
        bracketed(args) == bracketed(args.take(m - 1)) + (if m == 1 {
            Seq::empty()
        } else {
            seq![',']
        }) + seq!['['] + args[m - 1] + seq![']'] + rest,
    decreases args.len() - m,
{
    let am = args.take(m);
    assert(am.drop_last() =~= args.take(m - 1));
    assert(am.last() == args[m - 1]);
    if m == args.len() {
        assert(am =~= args);
        let rest = Seq::<char>::empty();
        assert(bracketed(args) =~= bracketed(args.take(m - 1)) + (if m == 1 {
            Seq::empty()
        } else {
            seq![',']
        }) + seq!['['] + args[m - 1] + seq![']'] + rest);
        rest
    } else {
        let r2 = lemma_bracketed_split(args, m + 1);
        let a1 = args.take(m + 1);
        assert(a1.drop_last() =~= am);
        let rest = seq![','] + seq!['['] + args[m] + seq![']'] + r2;
        assert(bracketed(args) =~= bracketed(args.take(m - 1)) + (if m == 1 {
            Seq::empty()
        } else {
            seq![',']
        }) + seq!['['] + args[m - 1] + seq![']'] + rest);
        rest
    }
}

/// Scanning the written arguments for a top-level comma passes over them.
proof fn lemma_top_args(s: Seq<char>, off: int, args: Seq<Seq<char>>, m: int)
    requires
        0 <= off,
        off + bracketed(args).len() + 2 <= s.len(),
        s.subrange(off, off + bracketed(args).len() + 2) == seq!['['] + bracketed(args) + seq![']'],
        forall|j: int| 0 <= j < args.len() ==> balanced(#[trigger] args[j]),
        0 <= m <= args.len(),
    ensures
        top_comma_from(s, off + 1, 1) == top_comma_from(
            s,
            off + 1 + bracketed(args.take(m)).len(),
            1,
        ),
    decreases m,
{
    if m == 0 {
        assert(args.take(0) =~= Seq::<Seq<char>>::empty());
    } else {
        lemma_top_args(s, off, args, m - 1);
        let rest = lemma_bracketed_split(args, m);
        let a = args[m - 1];
        let bp = bracketed(args.take(m - 1));
        let sep: Seq<char> = if m == 1 {
            Seq::empty()
        } else {
            seq![',']
        };
        let am = args.take(m);
        assert(am.drop_last() =~= args.take(m - 1));
        assert(am.last() == a);
        assert(bracketed(am) == bp + sep + seq!['['] + a + seq![']']);
        let sec = seq!['['] + bracketed(args) + seq![']'];
        let pre = seq!['['] + bp + sep + seq!['['];
        assert(sec =~= pre + a + (seq![']'] + rest + seq![']']));
        let p: int = off + 1 + bp.len() as int;
        let q: int = p + sep.len() as int;
        assert forall|j: int| 0 <= j < sec.len() implies s[off + j] == #[trigger] sec[j] by {
            assert(s.subrange(off, off + bracketed(args).len() + 2)[j] == s[off + j]);
        }
        if m > 1 {
            assert(sec[p - off] == ',');
        }
        assert(sec[q - off] == '[');
        assert(s[q] == '[');
        assert(s.subrange(q + 1, q + 1 + a.len()) =~= a) by {
            assert forall|j: int| 0 <= j < a.len() implies s.subrange(q + 1, q + 1 + a.len())[j]
                == a[j] by {
                assert(sec[q + 1 - off + j] == a[j]);
            }
        }
        lemma_top_skip(s, q + 1, 2, a, a.len() as int);
        assert(a.take(a.len() as int) =~= a);
        let e: int = q + 1 + a.len() as int;
        assert(sec[e - off] == ']');
        assert(s[e] == ']');
        if m > 1 {
            assert(s[p] == ',');
            assert(top_comma_from(s, p, 1) == top_comma_from(s, q, 1));
        }
        assert(top_comma_from(s, q, 1) == top_comma_from(s, q + 1, 2));
        assert(top_comma_from(s, q + 1, 2) == top_comma_from(s, e, 2));
        assert(top_comma_from(s, e, 2) == top_comma_from(s, e + 1, 1));
        assert(e + 1 == off + 1 + bracketed(am).len());
    }
}

/// Collecting the written arguments strips each of them, in order.
proof fn lemma_strip_args_list(sec: Seq<char>, args: Seq<Seq<char>>, m: int, bound: nat)
    requires
        sec == seq!['['] + bracketed(args) + seq![']'],
        forall|j: int| 0 <= j < args.len() ==> balanced(#[trigger] args[j]),
        forall|j: int| 0 <= j < args.len() ==> (#[trigger] args[j]).len() < bound,
        0 <= m <= args.len(),
    ensures
        strip_args(sec, 1, 1, None, Seq::empty(), bound) == strip_args(
            sec,
            1 + bracketed(args.take(m)).len() as int,
            1,
            None,
            args.take(m).map_values(|a: Seq<char>| strip_aq(a)),
            bound,
        ),
    decreases m,
{
    if m == 0 {
        assert(args.take(0) =~= Seq::<Seq<char>>::empty());
        assert(args.take(0).map_values(|a: Seq<char>| strip_aq(a)) =~= Seq::<Seq<char>>::empty());
    } else {
        lemma_strip_args_list(sec, args, m - 1, bound);
        let rest = lemma_bracketed_split(args, m);
        let a = args[m - 1];
        let bp = bracketed(args.take(m - 1));
        let sep: Seq<char> = if m == 1 {
            Seq::empty()
        } else {
            seq![',']
        };
        let am = args.take(m);
        assert(am.drop_last() =~= args.take(m - 1));
        assert(am.last() == a);
        assert(bracketed(am) == bp + sep + seq!['['] + a + seq![']']);
        let pre = seq!['['] + bp + sep + seq!['['];
        assert(sec =~= pre + a + (seq![']'] + rest + seq![']']));
        let p: int = bp.len() as int + 1;
        let q: int = p + sep.len() as int;
        let acc = args.take(m - 1).map_values(|x: Seq<char>| strip_aq(x));
        if m > 1 {
            assert(sec[p] == ',');
        }
        assert(sec[q] == '[');
        assert(sec.subrange(q + 1, q + 1 + a.len()) =~= a);
        lemma_strip_skip(sec, q + 1, 2, Some(q + 1), acc, bound, a, a.len() as int);
        assert(a.take(a.len() as int) =~= a);
        let e: int = q + 1 + a.len() as int;
        assert(sec[e] == ']');
        assert(a.len() < bound);
        if m > 1 {
            assert(strip_args(sec, p, 1, None, acc, bound) == strip_args(sec, q, 1, None, acc, bound));
        }
        assert(strip_args(sec, q, 1, None, acc, bound) == strip_args(
            sec,
            q + 1,
            2,
            Some(q + 1),
            acc,
            bound,
        ));
        assert(strip_args(sec, q + 1, 2, Some(q + 1), acc, bound) == strip_args(
            sec,
            e,
            2,
            Some(q + 1),
            acc,
            bound,
        ));
        assert(sec.subrange(q + 1, e) == a);
        assert(strip_args(sec, e, 2, Some(q + 1), acc, bound) == strip_args(
            sec,
            e + 1,
            1,
            None,
            acc.push(strip_aq(a)),
            bound,
        ));
        assert(e + 1 == 1 + bracketed(am).len());
        assert(args.take(m).map_values(|x: Seq<char>| strip_aq(x)) =~= acc.push(strip_aq(a)));
    }
}

/// Generic arguments are stripped the way the whole name is, however
/// deeply they nest: for `base[[a1],...,[an]]` followed by an optional
/// assembly part, where the base holds no bracket or comma and each
/// argument's brackets balance, the result lists `strip_aq(ai)` for each
/// argument in order. So
/// ``Dictionary`2[[System.String, mscorlib],[List`1[[System.Int32, mscorlib]], mscorlib]], mscorlib``
/// has the arguments `System.String` and ``System.Collections.Generic.List`1[System.Int32]``.
pub proof fn law_arguments_stripped_recursively(
    base: Seq<char>,
    args: Seq<Seq<char>>,
    tail: Seq<char>,
)
    requires
        plain(base),
        base.len() == 0 || !is_ws(base[0]),
        args.len() >= 1,
        forall|j: int| 0 <= j < args.len() ==> balanced(#[trigger] args[j]),
        tail.len() == 0 || (tail[0] == ',' && !is_ws(tail.last())),
    ensures
        strip_aq(qualified_generic(base, args, tail)) == qualify_base(base) + seq!['['] + join(
            args.map_values(|a: Seq<char>| strip_aq(a)),
            seq![','],
        ) + seq![']'],
{
    reveal_strlit("[");
    reveal_strlit("]");
    reveal_strlit(",");
    let s = qualified_generic(base, args, tail);
    let bk = bracketed(args);
    let sec = seq!['['] + bk + seq![']'];
    let core = base + sec;
    assert(s =~= core + tail);
    let lb = base.len() as int;
    // no whitespace to trim
    let first_bracket = lemma_bracketed_split(args, 1);
    assert(args.take(0) =~= Seq::<Seq<char>>::empty());
    assert(bk[0] == '[');
    assert(trim_start(s) == s);
    assert(s.last() != ' ' && !is_ws(s.last())) by {
        if tail.len() == 0 {
            assert(s.last() == ']');
        } else {
            assert(s.last() == tail.last());
        }
    }
    assert(trim_end(s) == s);
    assert(trim(s) == s);
    // the type part ends where the assembly part begins
    assert forall|j: int| 0 <= j < lb implies #[trigger] s[j] != '[' && s[j] != ']' && s[j] != ',' by {
        assert(s[j] == base[j]);
    }
    lemma_top_plain(s, 0, lb);
    assert(s[lb] == '[');
    assert(s.subrange(lb, lb + bk.len() + 2) =~= sec);
    lemma_top_args(s, lb, args, args.len() as int);
    assert(args.take(args.len() as int) =~= args);
    let e: int = lb + 1 + bk.len() as int;
    assert(s[e] == ']');
    assert(top_comma_from(s, lb, 0) == top_comma_from(s, lb + 1, 1));
    assert(top_comma_from(s, e, 1) == top_comma_from(s, e + 1, 0));
    assert(e + 1 == core.len());
    if tail.len() > 0 {
        assert(s[core.len() as int] == ',');
    } else {
        assert(core.len() == s.len());
    }
    assert(top_comma_from(s, 0, 0) == core.len());
    let tp = s.subrange(0, core.len() as int);
    assert(tp =~= core);
    // the arguments start at the first `[[`
    assert(find_double_from(core, lb) == Some(lb)) by {
        assert(core[lb] == '[');
        assert(core[lb + 1] == bk[0]);
    }
    lemma_find_double_plain(core, 0, lb);
    assert(core.subrange(lb, core.len() as int) =~= sec);
    assert(core.subrange(0, lb) =~= base);
    // the arguments, each stripped
    assert forall|j: int| 0 <= j < args.len() implies (#[trigger] args[j]).len() < s.len() by {
        let r = lemma_bracketed_split(args, j + 1);
        assert(bk.len() >= args[j].len());
    }
    lemma_strip_args_list(sec, args, args.len() as int, s.len());
    assert(sec[0] == '[');
    assert(sec[1 + bk.len() as int] == ']');
    assert(strip_args(sec, 0, 0, None, Seq::empty(), s.len()) == strip_args(
        sec,
        1,
        1,
        None,
        Seq::empty(),
        s.len(),
    ));
    let mapped = args.map_values(|a: Seq<char>| strip_aq(a));
    assert(strip_args(sec, 1 + bk.len() as int, 1, None, mapped, s.len()) == strip_args(
        sec,
        2 + bk.len() as int,
        0,
        None,
        mapped,
        s.len(),
    ));
    assert(sec.len() == 2 + bk.len());
    assert(strip_args(sec, 2 + bk.len() as int, 0, None, mapped, s.len()) == mapped);
    assert(strip_args(sec, 0, 0, None, Seq::empty(), s.len()) == mapped);
    assert("["@ =~= seq!['[']);
    assert("]"@ =~= seq![']']);
    assert(","@ =~= seq![',']);
    assert(find_double_from(tp, 0) == Some(lb));
    assert(tp.subrange(lb, tp.len() as int) == sec);
    assert(tp.subrange(0, lb) == base);
}

proof fn lemma_find_double_plain(s: Seq<char>, i: int, k: int)
    requires
        0 <= i <= k,
        k + 1 < s.len(),
        forall|j: int| 0 <= j < k ==> #[trigger] s[j] != '[',
        find_double_from(s, k) == Some(k),
    ensures
        find_double_from(s, i) == Some(k),
    decreases k - i,
{
    if i < k {
        lemma_find_double_plain(s, i + 1, k);
    }
}


} // verus!
