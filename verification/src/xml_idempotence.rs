use vstd::prelude::*;
use crate::unlocker::{close_tag, find_from, is_tag_delim, lemma_find_from_bounds, modify_xml_spec, open_prefix, xml_rewrite};

verus! {

/// Searching in `x + y` from inside `y` is searching in `y`.
proof fn lemma_find_shift(x: Seq<u8>, y: Seq<u8>, pat: Seq<u8>, k: int)
    requires
        k >= 0,
    ensures
        find_from(x + y, pat, x.len() + k) == (match find_from(y, pat, k) {
            Some(i) => Some(x.len() + i),
            None => None::<int>,
        }),
    decreases y.len() - k,
{
    let t = x + y;
    let f = x.len() + k;
    if f >= t.len() || f + pat.len() > t.len() {
    } else {
        assert(t.subrange(f, f + pat.len()) =~= y.subrange(k, k + pat.len()));
        if y.subrange(k, k + pat.len()) != pat {
            lemma_find_shift(x, y, pat, k + 1);
        }
    }
}

/// The first match from `from` is at `i`: no match before it.
proof fn lemma_find_first(t: Seq<u8>, pat: Seq<u8>, from: int, j: int)
    requires
        find_from(t, pat, from) matches Some(i) && from <= j < i,
    ensures
        !(j + pat.len() <= t.len() && t.subrange(j, j + pat.len()) == pat),
    decreases j - from,
{
    if j > from {
        lemma_find_first(t, pat, from + 1, j);
    }
}

/// A search that runs over a stretch where `u` (from `off`) repeats `t`
/// finds the same first match.
proof fn lemma_find_agree(t: Seq<u8>, u: Seq<u8>, pat: Seq<u8>, from: int, off: int, lim: int)
    requires
        0 <= off <= from,
        pat.len() >= 1,
        find_from(t, pat, from) matches Some(i) && i + pat.len() <= lim,
        lim <= t.len(),
        lim - off <= u.len(),
        forall|k: int| off <= k < lim ==> u[k - off] == t[k],
    ensures
        find_from(u, pat, from - off) == (match find_from(t, pat, from) {
            Some(i) => Some(i - off),
            None => None::<int>,
        }),
    decreases lim - from,
{
    lemma_find_from_bounds(t, pat, from);
    let i = find_from(t, pat, from)->Some_0;
    let g = from - off;
    assert(g < u.len());
    assert(g + pat.len() <= u.len());
    assert(u.subrange(g, g + pat.len()) =~= t.subrange(from, from + pat.len()));
    if i != from {
        lemma_find_agree(t, u, pat, from + 1, off, lim);
    }
}

/// No `<` in `s`.
pub open spec fn lt_free(s: Seq<u8>) -> bool {
    forall|k: int| 0 <= k < s.len() ==> s[k] != 60u8
}

/// Searching for `</tag>` across text without `<` finds the close tag that
/// follows it.
proof fn lemma_find_close_after(u: Seq<u8>, tag: Seq<u8>, start: int, glen: int, j: int)
    requires
        0 <= start <= j <= start + glen,
        forall|k: int| start <= k < start + glen ==> u[k] != 60u8,
        start + glen + close_tag(tag).len() <= u.len(),
        u.subrange(start + glen, start + glen + close_tag(tag).len()) == close_tag(tag),
    ensures
        find_from(u, close_tag(tag), j) == Some(start + glen),
    decreases start + glen - j,
{
    let c = close_tag(tag);
    if j < start + glen {
        assert(u.subrange(j, j + c.len())[0] == u[j]);
        assert(c[0] == 60u8);
        lemma_find_close_after(u, tag, start, glen, j + 1);
    }
}

/// Without a close tag from `y` on, nothing from `y` on is rewritten.
proof fn lemma_no_close_keeps(t: Seq<u8>, tag: Seq<u8>, g: Seq<u8>, y: int)
    requires
        0 <= y <= t.len(),
        find_from(t, close_tag(tag), y) is None,
    ensures
        xml_rewrite(t, tag, g, y).0 == t.skip(y),
    decreases t.len() - y,
{
    let open = open_prefix(tag);
    let close = close_tag(tag);
    match find_from(t, open, y) {
        None => {},
        Some(abs) => {
            lemma_find_from_bounds(t, open, y);
            let after = abs + open.len();
            if !(after < t.len() && is_tag_delim(t[after])) {
                lemma_find_none_later(t, close, y, after);
                lemma_no_close_keeps(t, tag, g, after);
                assert(t.subrange(y, after) + t.skip(after) =~= t.skip(y));
            } else {
                match find_from(t, seq![62u8], after) {
                    None => {},
                    Some(oe) => {
                        lemma_find_from_bounds(t, seq![62u8], after);
                        lemma_find_none_later(t, close, y, oe + 1);
                        lemma_no_close_keeps(t, tag, g, oe + 1);
                        assert(t.subrange(y, oe + 1) + t.skip(oe + 1) =~= t.skip(y));
                    },
                }
            }
        },
    }
}

/// A search that finds nothing from `y` finds nothing further on.
proof fn lemma_find_none_later(t: Seq<u8>, pat: Seq<u8>, y: int, z: int)
    requires
        0 <= y <= z,
        find_from(t, pat, y) is None,
    ensures
        find_from(t, pat, z) is None,
    decreases z - y,
{
    if y < z {
        if y < t.len() && y + pat.len() <= t.len() {
            lemma_find_none_later(t, pat, y + 1, z);
        }
    }
}

/// Rewriting `x + y` from inside `y` is rewriting `y`.
proof fn lemma_rewrite_shift(x: Seq<u8>, y: Seq<u8>, tag: Seq<u8>, g: Seq<u8>, k: int)
    requires
        0 <= k,
    ensures
        xml_rewrite(x + y, tag, g, x.len() + k) == xml_rewrite(y, tag, g, k),
    decreases y.len() - k,
{
    let t = x + y;
    let n = x.len();
    let open = open_prefix(tag);
    let close = close_tag(tag);
    if k > y.len() {
        return;
    }
    lemma_find_shift(x, y, open, k);
    match find_from(y, open, k) {
        None => {
            assert(t.skip(n + k) =~= y.skip(k));
        },
        Some(abs) => {
            lemma_find_from_bounds(y, open, k);
            let after = abs + open.len();
            assert(n + after < t.len() <==> after < y.len());
            if after < y.len() {
                assert(t[n + after] == y[after]);
            }
            if !(after < y.len() && is_tag_delim(y[after])) {
                lemma_rewrite_shift(x, y, tag, g, after);
                assert(t.subrange(n + k, n + after) =~= y.subrange(k, after));
            } else {
                lemma_find_shift(x, y, seq![62u8], after);
                match find_from(y, seq![62u8], after) {
                    None => {
                        assert(t.skip(n + k) =~= y.skip(k));
                    },
                    Some(oe) => {
                        lemma_find_from_bounds(y, seq![62u8], after);
                        assert(t[n + oe - 1] == y[oe - 1]);
                        assert(t.subrange(n + k, n + oe + 1) =~= y.subrange(k, oe + 1));
                        if oe > after && y[oe - 1] == 47 {
                            lemma_rewrite_shift(x, y, tag, g, oe + 1);
                        } else {
                            lemma_find_shift(x, y, close, oe + 1);
                            match find_from(y, close, oe + 1) {
                                None => {
                                    lemma_rewrite_shift(x, y, tag, g, oe + 1);
                                },
                                Some(cs) => {
                                    lemma_find_from_bounds(y, close, oe + 1);
                                    assert(t.subrange(n + oe + 1, n + cs) =~= y.subrange(oe + 1, cs));
                                    lemma_rewrite_shift(x, y, tag, g, cs + close.len());
                                },
                            }
                        }
                    },
                }
            }
        },
    }
}

/// The rewrite from `x` starts with the byte at `x`.
proof fn lemma_head_kept(t: Seq<u8>, tag: Seq<u8>, g: Seq<u8>, x: int)
    requires
        0 <= x < t.len(),
    ensures
        xml_rewrite(t, tag, g, x).0.len() > 0,
        xml_rewrite(t, tag, g, x).0[0] == t[x],
{
    let open = open_prefix(tag);
    let close = close_tag(tag);
    match find_from(t, open, x) {
        None => {},
        Some(abs) => {
            lemma_find_from_bounds(t, open, x);
            let after = abs + open.len();
            if !(after < t.len() && is_tag_delim(t[after])) {
            } else {
                match find_from(t, seq![62u8], after) {
                    None => {},
                    Some(oe) => {
                        lemma_find_from_bounds(t, seq![62u8], after);
                        if !(oe > after && t[oe - 1] == 47) {
                            match find_from(t, close, oe + 1) {
                                None => {},
                                Some(cs) => {
                                    lemma_find_from_bounds(t, close, oe + 1);
                                },
                            }
                        }
                    },
                }
            }
        },
    }
}

/// The rewrite from the end of a text is empty.
proof fn lemma_rewrite_at_end(t: Seq<u8>, tag: Seq<u8>, g: Seq<u8>)
    ensures
        xml_rewrite(t, tag, g, t.len() as int).0 == Seq::<u8>::empty(),
{
    assert(t.skip(t.len() as int) =~= Seq::<u8>::empty());
}

/// Whether the rewrite from `from` is settled: rewriting it again changes
/// nothing and finds no element whose text differs from the target.
pub open spec fn settled_from(t: Seq<u8>, tag: Seq<u8>, g: Seq<u8>, from: int) -> bool {
    xml_rewrite(xml_rewrite(t, tag, g, from).0, tag, g, 0) == (xml_rewrite(t, tag, g, from).0, false)
}

proof fn lemma_settled_none(t: Seq<u8>, tag: Seq<u8>, g: Seq<u8>, from: int)
    requires
        0 <= from <= t.len(),
        find_from(t, open_prefix(tag), from) is None,
    ensures
        settled_from(t, tag, g, from),
{
    let r = xml_rewrite(t, tag, g, from).0;
    assert(t.take(from) + t.skip(from) =~= t);
    lemma_find_shift(t.take(from), t.skip(from), open_prefix(tag), 0);
    assert(r.skip(0) =~= r);
}

proof fn lemma_settled_plain(t: Seq<u8>, tag: Seq<u8>, g: Seq<u8>, from: int, abs: int)
    requires
        0 <= from <= t.len(),
        find_from(t, open_prefix(tag), from) == Some(abs),
        from <= abs,
        abs + open_prefix(tag).len() <= t.len(),
        !(abs + open_prefix(tag).len() < t.len() && is_tag_delim(t[abs + open_prefix(tag).len()])),
        settled_from(t, tag, g, abs + open_prefix(tag).len()),
    ensures
        settled_from(t, tag, g, from),
{
    let open = open_prefix(tag);
    let after = abs + open.len();
    let r = xml_rewrite(t, tag, g, from).0;
    let r1 = xml_rewrite(t, tag, g, after).0;
    let a = t.subrange(from, after);
    assert(r == a + r1);
    lemma_find_agree(t, r, open, from, from, after);
    if after < t.len() {
        lemma_head_kept(t, tag, g, after);
    } else {
        lemma_rewrite_at_end(t, tag, g);
    }
    lemma_rewrite_shift(a, r1, tag, g, 0);
    assert(r.subrange(0, after - from) =~= a);
}

proof fn lemma_settled_unclosed(t: Seq<u8>, tag: Seq<u8>, g: Seq<u8>, from: int, abs: int)
    requires
        0 <= from <= t.len(),
        find_from(t, open_prefix(tag), from) == Some(abs),
        from <= abs,
        abs + open_prefix(tag).len() < t.len(),
        is_tag_delim(t[abs + open_prefix(tag).len()]),
        find_from(t, seq![62u8], abs + open_prefix(tag).len()) is None,
    ensures
        settled_from(t, tag, g, from),
{
    let open = open_prefix(tag);
    let after = abs + open.len();
    let r = xml_rewrite(t, tag, g, from).0;
    let pre = t.take(from);
    assert(pre + t.skip(from) =~= t);
    assert(r == t.skip(from));
    lemma_find_shift(pre, t.skip(from), open, 0);
    lemma_find_shift(pre, t.skip(from), seq![62u8], after - from);
    assert(r[after - from] == t[after]);
    assert(r.skip(0) =~= r);
}

proof fn lemma_settled_empty_element(t: Seq<u8>, tag: Seq<u8>, g: Seq<u8>, from: int, abs: int, oe: int)
    requires
        0 <= from <= t.len(),
        find_from(t, open_prefix(tag), from) == Some(abs),
        from <= abs,
        abs + open_prefix(tag).len() < t.len(),
        is_tag_delim(t[abs + open_prefix(tag).len()]),
        find_from(t, seq![62u8], abs + open_prefix(tag).len()) == Some(oe),
        abs + open_prefix(tag).len() <= oe < t.len(),
        oe > abs + open_prefix(tag).len() && t[oe - 1] == 47,
        settled_from(t, tag, g, oe + 1),
    ensures
        settled_from(t, tag, g, from),
{
    let open = open_prefix(tag);
    let after = abs + open.len();
    let r = xml_rewrite(t, tag, g, from).0;
    let a = t.subrange(from, oe + 1);
    let r2 = xml_rewrite(t, tag, g, oe + 1).0;
    assert(r == a + r2);
    lemma_find_agree(t, r, open, from, from, oe + 1);
    lemma_find_agree(t, r, seq![62u8], after, from, oe + 1);
    assert(r[after - from] == t[after]);
    assert(r[oe - from - 1] == t[oe - 1]);
    lemma_rewrite_shift(a, r2, tag, g, 0);
    assert(r.subrange(0, oe + 1 - from) =~= a);
}

proof fn lemma_settled_no_close(t: Seq<u8>, tag: Seq<u8>, g: Seq<u8>, from: int, abs: int, oe: int)
    requires
        0 <= from <= t.len(),
        find_from(t, open_prefix(tag), from) == Some(abs),
        from <= abs,
        abs + open_prefix(tag).len() < t.len(),
        is_tag_delim(t[abs + open_prefix(tag).len()]),
        find_from(t, seq![62u8], abs + open_prefix(tag).len()) == Some(oe),
        abs + open_prefix(tag).len() <= oe < t.len(),
        !(oe > abs + open_prefix(tag).len() && t[oe - 1] == 47),
        find_from(t, close_tag(tag), oe + 1) is None,
        settled_from(t, tag, g, oe + 1),
    ensures
        settled_from(t, tag, g, from),
{
    let open = open_prefix(tag);
    let close = close_tag(tag);
    let after = abs + open.len();
    let r = xml_rewrite(t, tag, g, from).0;
    let a = t.subrange(from, oe + 1);
    let r3 = xml_rewrite(t, tag, g, oe + 1).0;
    let pre = t.take(from);
    assert(pre + t.skip(from) =~= t);
    assert(r == a + r3);
    lemma_no_close_keeps(t, tag, g, oe + 1);
    assert(r =~= t.skip(from));
    lemma_find_agree(t, r, open, from, from, oe + 1);
    lemma_find_agree(t, r, seq![62u8], after, from, oe + 1);
    assert(r[after - from] == t[after]);
    assert(r[oe - from - 1] == t[oe - 1]);
    lemma_find_shift(pre, t.skip(from), close, oe + 1 - from);
    lemma_rewrite_shift(a, r3, tag, g, 0);
    assert(r.subrange(0, oe + 1 - from) =~= a);
}

proof fn lemma_settled_element(t: Seq<u8>, tag: Seq<u8>, g: Seq<u8>, from: int, abs: int, oe: int, cs: int)
    requires
        lt_free(g),
        0 <= from <= t.len(),
        find_from(t, open_prefix(tag), from) == Some(abs),
        from <= abs,
        abs + open_prefix(tag).len() < t.len(),
        is_tag_delim(t[abs + open_prefix(tag).len()]),
        find_from(t, seq![62u8], abs + open_prefix(tag).len()) == Some(oe),
        abs + open_prefix(tag).len() <= oe < t.len(),
        !(oe > abs + open_prefix(tag).len() && t[oe - 1] == 47),
        find_from(t, close_tag(tag), oe + 1) == Some(cs),
        oe + 1 <= cs,
        cs + close_tag(tag).len() <= t.len(),
        settled_from(t, tag, g, cs + close_tag(tag).len()),
    ensures
        settled_from(t, tag, g, from),
{
    let open = open_prefix(tag);
    let close = close_tag(tag);
    let after = abs + open.len();
    let r = xml_rewrite(t, tag, g, from).0;
    let a = t.subrange(from, oe + 1);
    let r4 = xml_rewrite(t, tag, g, cs + close.len()).0;
    let head = a + g + close;
    assert(r == a + g + close + r4);
    assert(r =~= head + r4);
    lemma_find_agree(t, r, open, from, from, oe + 1);
    lemma_find_agree(t, r, seq![62u8], after, from, oe + 1);
    assert(r[after - from] == t[after]);
    assert(r[oe - from - 1] == t[oe - 1]);
    let alen = a.len() as int;
    assert forall|k: int| alen <= k < alen + g.len() implies r[k] != 60u8 by {
        assert(r[k] == g[k - alen]);
    }
    assert(r.subrange(alen + g.len(), alen + g.len() + close.len()) =~= close);
    lemma_find_close_after(r, tag, alen, g.len() as int, alen);
    assert(r.subrange(alen, alen + g.len()) =~= g);
    lemma_rewrite_shift(head, r4, tag, g, 0);
    assert(r.subrange(0, oe + 1 - from) =~= a);
}

/// Every rewritten stretch is settled, provided the target holds no `<`.
proof fn lemma_rewrite_settled(t: Seq<u8>, tag: Seq<u8>, g: Seq<u8>, from: int)
    requires
        lt_free(g),
        0 <= from <= t.len(),
    ensures
        settled_from(t, tag, g, from),
    decreases t.len() - from,
{
    let open = open_prefix(tag);
    let close = close_tag(tag);
    match find_from(t, open, from) {
        None => lemma_settled_none(t, tag, g, from),
        Some(abs) => {
            lemma_find_from_bounds(t, open, from);
            let after = abs + open.len();
            if !(after < t.len() && is_tag_delim(t[after])) {
                lemma_rewrite_settled(t, tag, g, after);
                lemma_settled_plain(t, tag, g, from, abs);
            } else {
                match find_from(t, seq![62u8], after) {
                    None => lemma_settled_unclosed(t, tag, g, from, abs),
                    Some(oe) => {
                        lemma_find_from_bounds(t, seq![62u8], after);
                        if oe > after && t[oe - 1] == 47 {
                            lemma_rewrite_settled(t, tag, g, oe + 1);
                            lemma_settled_empty_element(t, tag, g, from, abs, oe);
                        } else {
                            match find_from(t, close, oe + 1) {
                                None => {
                                    lemma_rewrite_settled(t, tag, g, oe + 1);
                                    lemma_settled_no_close(t, tag, g, from, abs, oe);
                                },
                                Some(cs) => {
                                    lemma_find_from_bounds(t, close, oe + 1);
                                    lemma_rewrite_settled(t, tag, g, cs + close.len());
                                    lemma_settled_element(t, tag, g, from, abs, oe, cs);
                                },
                            }
                        }
                    },
                }
            }
        },
    }
}

/// Unlocking is settled after one pass: for a target text without `<`, a
/// document that `modify_xml` rewrote is not rewritten again (a second pass
/// gives `None`).
pub proof fn lemma_modify_xml_idempotent(text: Seq<u8>, tag: Seq<u8>, target: Seq<u8>)
    requires
        lt_free(target),
        modify_xml_spec(text, tag, target) is Some,
    ensures
        modify_xml_spec(modify_xml_spec(text, tag, target)->Some_0, tag, target) is None,
{
    lemma_rewrite_settled(text, tag, target, 0);
}

} // verus!
