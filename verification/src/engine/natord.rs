//! Natural ordering of file names: runs of digits compare by their value,
//! other characters without regard to ASCII case.
use vstd::prelude::*;
use std::cmp::Ordering;
use crate::text::drop_n;
use crate::unicode::{ascii_digit, ascii_lower_code_of, digit_value, is_ascii_digit, digit_run, digits_value, run_value, after_digit_run, lower_code};

verus! {

/// Three-way comparison of naturals.
pub open spec fn order_of(a: int, b: int) -> Ordering {
    if a < b { Ordering::Less } else if a > b { Ordering::Greater } else { Ordering::Equal }
}

/// The natural order of two names.
pub open spec fn natural_order(a: Seq<char>, b: Seq<char>) -> Ordering
    decreases a.len() + b.len(),
{
    if a.len() == 0 && b.len() == 0 {
        Ordering::Equal
    } else if a.len() == 0 {
        Ordering::Less
    } else if b.len() == 0 {
        Ordering::Greater
    } else if ascii_digit(a[0]) && ascii_digit(b[0]) {
        let ra = digit_run(a);
        let rb = digit_run(b);
        proof {
            crate::unicode::lemma_digit_run(a);
            crate::unicode::lemma_digit_run(b);
        }
        let o = order_of(run_value(ra), run_value(rb));
        if o == Ordering::Equal {
            natural_order(after_digit_run(a), after_digit_run(b))
        } else {
            o
        }
    } else {
        let o = order_of(lower_code(a[0]), lower_code(b[0]));
        if o == Ordering::Equal { natural_order(a.drop_first(), b.drop_first()) } else { o }
    }
}

/// Reads the run of digits of `s` starting at `i`: returns where it ends and
/// the value `str::parse::<u64>` gives it (0 on overflow).
fn read_run(s: &[char], i: usize) -> (r: (usize, u64))
    requires
        i < s.len(),
        ascii_digit(s@[i as int]),
    ensures
        i < r.0 <= s.len(),
        digit_run(s@.skip(i as int)) == s@.subrange(i as int, r.0 as int),
        after_digit_run(s@.skip(i as int)) == s@.skip(r.0 as int),
        r.1 == run_value(s@.subrange(i as int, r.0 as int)),
{
    let mut k = i;
    let mut v: u64 = 0;
    let mut ov = false;
    while k < s.len() && is_ascii_digit(s[k])
        invariant
            i <= k <= s.len(),
            forall|m: int| i <= m < k ==> ascii_digit(#[trigger] s@[m]),
            !ov ==> v == digits_value(s@.subrange(i as int, k as int)),
            ov ==> digits_value(s@.subrange(i as int, k as int)) > u64::MAX,
        decreases s.len() - k,
    {
        let d = digit_value(s[k]);
        proof {
            let pre = s@.subrange(i as int, k as int);
            let nxt = s@.subrange(i as int, k + 1);
            assert(nxt.drop_last() =~= pre);
            assert(nxt.last() == s@[k as int]);
            assert(digits_value(nxt) == digits_value(pre) * 10 + crate::unicode::digit_val(s@[k as int]));
        }
        if !ov {
            match v.checked_mul(10) {
                Some(m) => match m.checked_add(d) {
                    Some(n) => { v = n; },
                    None => { ov = true; v = 0; },
                },
                None => { ov = true; v = 0; },
            }
        }
        k = k + 1;
    }
    proof {
        let t = s@.skip(i as int);
        crate::unicode::lemma_digit_run(t);
        let l = digit_run(t).len() as int;
        let w = k - i;
        if l < w {
            assert(t[l] == s@[i + l]);
        } else if l > w {
            assert(t[w] == s@[k as int]);
            assert(ascii_digit(t[w]));
        }
        assert(digit_run(t) =~= s@.subrange(i as int, k as int));
        assert(after_digit_run(t) =~= s@.skip(k as int));
    }
    if ov {
        (k, 0)
    } else {
        (k, v)
    }
}

/// Natural sorting comparison for file names: runs of digits compare by
/// their value, other characters by their ASCII-lower-cased code.
pub fn compare(a: &str, b: &str) -> (r: Ordering)
    ensures
        r == natural_order(a@, b@),
{
    let av = crate::text::chars_of(a);
    let bv = crate::text::chars_of(b);
    let mut i: usize = 0;
    let mut j: usize = 0;
    assert(drop_n(av@, 0) =~= av@);
    assert(drop_n(bv@, 0) =~= bv@);
    loop
        invariant
            i <= av.len(),
            j <= bv.len(),
            natural_order(a@, b@) == natural_order(drop_n(av@, i), drop_n(bv@, j)),
            av@ == a@,
            bv@ == b@,
        decreases av.len() - i + bv.len() - j,
    {
        let ghost sa = drop_n(av@, i);
        let ghost sb = drop_n(bv@, j);
        if i == av.len() && j == bv.len() {
            return Ordering::Equal;
        }
        if i == av.len() {
            return Ordering::Less;
        }
        if j == bv.len() {
            return Ordering::Greater;
        }
        let ac = av[i];
        let bc = bv[j];
        assert(sa[0] == ac && sb[0] == bc);
        if is_ascii_digit(ac) && is_ascii_digit(bc) {
            let (ni, va) = read_run(av.as_slice(), i);
            let (nj, vb) = read_run(bv.as_slice(), j);
            if va < vb {
                return Ordering::Less;
            } else if va > vb {
                return Ordering::Greater;
            }
            i = ni;
            j = nj;
        } else {
            let al = ascii_lower_code_of(ac);
            let bl = ascii_lower_code_of(bc);
            if al < bl {
                return Ordering::Less;
            } else if al > bl {
                return Ordering::Greater;
            }
            proof {
                assert(sa.drop_first() =~= av@.skip(i + 1));
                assert(sb.drop_first() =~= bv@.skip(j + 1));
            }
            i = i + 1;
            j = j + 1;
        }
    }
}

/// The reverse of an ordering.
pub open spec fn flipped(o: Ordering) -> Ordering {
    match o {
        Ordering::Less => Ordering::Greater,
        Ordering::Greater => Ordering::Less,
        Ordering::Equal => Ordering::Equal,
    }
}

/// Every name is in natural order equal to itself.
pub proof fn law_natural_order_reflexive(a: Seq<char>)
    ensures
        natural_order(a, a) == Ordering::Equal,
    decreases a.len(),
{
    if a.len() > 0 {
        crate::unicode::lemma_digit_run(a);
        if ascii_digit(a[0]) {
            law_natural_order_reflexive(after_digit_run(a));
        } else {
            law_natural_order_reflexive(a.drop_first());
        }
    }
}

/// Swapping the names reverses their natural order.
pub proof fn law_natural_order_antisymmetric(a: Seq<char>, b: Seq<char>)
    ensures
        natural_order(b, a) == flipped(natural_order(a, b)),
    decreases a.len() + b.len(),
{
    if a.len() > 0 && b.len() > 0 {
        crate::unicode::lemma_digit_run(a);
        crate::unicode::lemma_digit_run(b);
        if ascii_digit(a[0]) && ascii_digit(b[0]) {
            law_natural_order_antisymmetric(after_digit_run(a), after_digit_run(b));
        } else {
            law_natural_order_antisymmetric(a.drop_first(), b.drop_first());
        }
    }
}

/// Adjacent names are in natural order.
#[verifier::opaque]
pub open spec fn naturally_sorted(v: Seq<Seq<char>>) -> bool {
    forall|i: int| 0 <= i < v.len() - 1 ==> natural_order(#[trigger] v[i], v[i + 1]) != Ordering::Greater
}

spec fn name_at(s: Seq<String>, p: usize) -> Seq<char> {
    s[p as int]@
}

spec fn name_before(s: Seq<String>, p: usize) -> Seq<char> {
    s[p - 1]@
}

spec fn put_at(s: Seq<String>, p: usize, x: String) -> Seq<String> {
    s.insert(p as int, x)
}

proof fn lemma_put_at(s: Seq<String>, p: usize, x: String)
    requires
        p <= s.len(),
    ensures
        put_at(s, p, x).len() == s.len() + 1,
        put_at(s, p, x).to_multiset() == s.to_multiset().insert(x),
        put_at(s, p, x)[p as int] == x,
        forall|i: int| 0 <= i < p ==> #[trigger] put_at(s, p, x)[i] == s[i],
        forall|i: int| p < i <= s.len() ==> #[trigger] put_at(s, p, x)[i] == s[i - 1],
{
    vstd::seq_lib::to_multiset_insert(s, p as int, x);
}

proof fn lemma_put_views(s: Seq<String>, p: usize, x: String)
    requires
        p <= s.len(),
    ensures
        crate::text::views(put_at(s, p, x)) == crate::text::views(s).insert(p as int, x@),
{
    assert(crate::text::views(put_at(s, p, x)) =~= crate::text::views(s).insert(p as int, x@));
}

#[verifier::rlimit(40)]
proof fn lemma_put_keeps_sorted(s: Seq<String>, p: usize, x: String)
    requires
        p <= s.len(),
        naturally_sorted(crate::text::views(s)),
        p > 0 ==> natural_order(name_before(s, p), x@) != Ordering::Greater,
        p < s.len() ==> natural_order(x@, name_at(s, p)) != Ordering::Greater,
    ensures
        naturally_sorted(crate::text::views(put_at(s, p, x))),
{
    reveal(naturally_sorted);
    let le = |a: Seq<char>, b: Seq<char>| natural_order(a, b) != Ordering::Greater;
    let v = crate::text::views(s);
    let pi: int = p + 0;
    assert(crate::order::chained(v, le));
    assert(pi > 0 ==> le(v[pi - 1], x@));
    assert(pi < v.len() ==> le(x@, v[pi]));
    crate::order::lemma_insert_keeps_chain(v, pi, x@, le);
    lemma_put_views(s, p, x);
    let w = v.insert(pi, x@);
    assert(crate::text::views(put_at(s, p, x)) == w);
    assert forall|i: int| 0 <= i < w.len() - 1 implies natural_order(#[trigger] w[i], w[i + 1]) != Ordering::Greater by {
        assert(le(w[i], w[i + 1]));
    }
}

/// Put `x` into an already sorted list after every name that does not
/// come after it.
fn insert_sorted(out: &mut Vec<String>, x: String)
    requires
        naturally_sorted(crate::text::views(old(out)@)),
    ensures
        naturally_sorted(crate::text::views(final(out)@)),
        final(out)@.to_multiset() == old(out)@.to_multiset().insert(x),
{
    let ghost old_out = out@;
    let mut p = out.len();
    while p > 0 && matches!(compare(out[p - 1].as_str(), x.as_str()), Ordering::Greater)
        invariant
            p <= out.len(),
            out@ == old_out,
            forall|q: int| p <= q < out@.len() ==> natural_order(#[trigger] out@[q]@, x@) == Ordering::Greater,
        decreases p,
    {
        p = p - 1;
    }
    proof {
        if p < out.len() {
            law_natural_order_antisymmetric(name_at(out@, p), x@);
        }
    }
    proof {
        lemma_put_keeps_sorted(old_out, p, x);
        lemma_put_at(old_out, p, x);
    }
    out.insert(p, x);
    assert(out@ == put_at(old_out, p, x));
}

/// Sort names in natural order.
pub fn sort_naturally(names: Vec<String>) -> (r: Vec<String>)
    ensures
        naturally_sorted(crate::text::views(r@)),
        r@.to_multiset() == names@.to_multiset(),
{
    let mut out: Vec<String> = Vec::new();
    let mut rest = names;
    let ghost all = rest@;
    proof {
        crate::order::lemma_empty_plus(out@, rest@);
        reveal(naturally_sorted);
    }
    while rest.len() > 0
        invariant
            naturally_sorted(crate::text::views(out@)),
            out@.to_multiset().add(rest@.to_multiset()) == all.to_multiset(),
        decreases rest.len(),
    {
        let ghost before = rest@;
        let ghost old_out = out@;
        let x = rest.remove(0);
        proof {
            crate::order::lemma_take_first(before, old_out.to_multiset());
        }
        insert_sorted(&mut out, x);
    }
    proof {
        crate::order::lemma_empty_plus(rest@, out@);
    }
    out
}

} // verus!
