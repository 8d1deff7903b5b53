//! The listing formatter: keeps the names that match an optional
//! case-sensitive substring filter, sorts them lexicographically (byte-wise,
//! as Rust orders strings), and builds the display report.

use vstd::prelude::*;

use crate::bytes::{
    ascii_bytes, contains_sub, copy_vec, dec_rep, is_substring, push_all, push_str_bytes,
    to_decimal,
};

verus! {

/// Lexicographic (byte-wise) order on byte strings.
pub open spec fn lex_le(a: Seq<u8>, b: Seq<u8>) -> bool
    decreases a.len(),
{
    if a.len() == 0 {
        true
    } else if b.len() == 0 {
        false
    } else if a[0] < b[0] {
        true
    } else if a[0] > b[0] {
        false
    } else {
        lex_le(a.drop_first(), b.drop_first())
    }
}

pub proof fn lemma_lex_le_total(a: Seq<u8>, b: Seq<u8>)
    ensures
        lex_le(a, b) || lex_le(b, a),
    decreases a.len(),
{
    if a.len() > 0 && b.len() > 0 && a[0] == b[0] {
        lemma_lex_le_total(a.drop_first(), b.drop_first());
    }
}

pub proof fn lemma_lex_le_trans(a: Seq<u8>, b: Seq<u8>, c: Seq<u8>)
    requires
        lex_le(a, b),
        lex_le(b, c),
    ensures
        lex_le(a, c),
    decreases a.len(),
{
    if a.len() > 0 {
        if a[0] == b[0] && b[0] == c[0] {
            lemma_lex_le_trans(a.drop_first(), b.drop_first(), c.drop_first());
        }
    }
}

/// Byte-wise comparison.
pub fn lex_le_exec(a: &Vec<u8>, b: &Vec<u8>) -> (r: bool)
    ensures
        r == lex_le(a@, b@),
{
    let mut i: usize = 0;
    proof {
        assert(a@.skip(0) =~= a@);
        assert(b@.skip(0) =~= b@);
    }
    loop
        invariant
            i <= a@.len(),
            i <= b@.len(),
            lex_le(a@, b@) == lex_le(a@.skip(i as int), b@.skip(i as int)),
        decreases a@.len() - i,
    {
        if i >= a.len() {
            proof {
                assert(a@.skip(i as int).len() == 0);
            }
            return true;
        }
        if i >= b.len() {
            proof {
                assert(b@.skip(i as int).len() == 0);
                assert(a@.skip(i as int).len() > 0);
            }
            return false;
        }
        proof {
            assert(a@.skip(i as int)[0] == a@[i as int]);
            assert(b@.skip(i as int)[0] == b@[i as int]);
        }
        if a[i] < b[i] {
            return true;
        }
        if a[i] > b[i] {
            return false;
        }
        proof {
            assert(a@.skip(i as int).drop_first() =~= a@.skip(i + 1));
            assert(b@.skip(i as int).drop_first() =~= b@.skip(i + 1));
        }
        i = i + 1;
    }
}

/// The byte strings a list of names stands for.
pub open spec fn names_model(ns: Seq<Vec<u8>>) -> Seq<Seq<u8>> {
    ns.map_values(|v: Vec<u8>| v@)
}

/// Sorted lexicographically, allowing duplicates.
pub open spec fn sorted_lex(s: Seq<Seq<u8>>) -> bool {
    forall|i: int, j: int| 0 <= i <= j < s.len() ==> lex_le(s[i], s[j])
}

pub open spec fn filter_model(f: Option<Vec<u8>>) -> Option<Seq<u8>> {
    match f {
        Some(v) => Some(v@),
        None => None,
    }
}

/// A name is retained exactly when no filter is given or the name contains
/// the filter as a substring.
pub open spec fn keeps(n: Seq<u8>, filter: Option<Seq<u8>>) -> bool {
    match filter {
        None => true,
        Some(f) => is_substring(n, f),
    }
}

/// Inserts `x` into a sorted list, keeping it sorted.
fn insert_sorted(out: &mut Vec<Vec<u8>>, x: Vec<u8>)
    requires
        sorted_lex(names_model(old(out)@)),
    ensures
        sorted_lex(names_model(final(out)@)),
        names_model(final(out)@).to_multiset() == names_model(old(out)@).to_multiset().insert(x@),
{
    let ghost pre = names_model(out@);
    let mut j: usize = 0;
    while j < out.len() && !lex_le_exec(&x, &out[j])
        invariant
            j <= out@.len(),
            out@ == old(out)@,
            forall|k: int| 0 <= k < j ==> !lex_le(x@, #[trigger] names_model(out@)[k]),
        decreases out@.len() - j,
    {
        j = j + 1;
    }
    proof {
        assert(forall|k: int| 0 <= k < j ==> lex_le(#[trigger] pre[k], x@)) by {
            assert forall|k: int| 0 <= k < j implies lex_le(#[trigger] pre[k], x@) by {
                lemma_lex_le_total(x@, pre[k]);
            }
        }
    }
    out.insert(j, x);
    proof {
        let post = names_model(out@);
        assert(post =~= pre.insert(j as int, x@));
        // sortedness: everything before `j` is at most `x`, and `x` is at
        // most everything from `j` on, by transitivity through `pre[j]`.
        assert forall|p: int, q: int| 0 <= p <= q < post.len() implies lex_le(post[p], post[q]) by {
            if p < j && q == j {
            } else if p == j && q > j {
                if j < pre.len() {
                    lemma_lex_le_trans(x@, pre[j as int], pre[q - 1]);
                }
            } else if p < j && q > j {
            } else if p == j && q == j {
                lemma_lex_le_total(x@, x@);
            }
        }
        broadcast use vstd::seq_lib::to_multiset_insert;

        assert(pre.insert(j as int, x@).to_multiset() == pre.to_multiset().insert(x@));
    }
}

/// Retains the names that match the filter and sorts them
/// lexicographically; duplicates are kept.
pub fn format_listing(names: &Vec<Vec<u8>>, filter: &Option<Vec<u8>>) -> (r: Vec<Vec<u8>>)
    ensures
        sorted_lex(names_model(r@)),
        names_model(r@).to_multiset() == names_model(names@).filter(
            |n: Seq<u8>| keeps(n, filter_model(*filter)),
        ).to_multiset(),
{
    let ghost pred = |n: Seq<u8>| keeps(n, filter_model(*filter));
    let ghost all = names_model(names@);
    let mut kept: Vec<Vec<u8>> = Vec::new();
    let mut i: usize = 0;
    proof {
        broadcast use vstd::seq_lib::group_filter_ensures;

        assert(all.take(0) =~= Seq::<Seq<u8>>::empty());
        assert(Seq::<Seq<u8>>::empty().filter(pred).len() <= 0);
        assert(Seq::<Seq<u8>>::empty().filter(pred) =~= Seq::<Seq<u8>>::empty());
        assert(names_model(kept@) =~= Seq::<Seq<u8>>::empty());
    }
    while i < names.len()
        invariant
            i <= names@.len(),
            all == names_model(names@),
            pred == (|n: Seq<u8>| keeps(n, filter_model(*filter))),
            names_model(kept@) == all.take(i as int).filter(pred),
        decreases names@.len() - i,
    {
        let keep: bool = match filter {
            Some(f) => {
                let c = contains_sub(&names[i], f);
                proof {
                    assert(all[i as int] == names@[i as int]@);
                    assert(filter_model(*filter) == Some(f@));
                    assert(keeps(all[i as int], filter_model(*filter)) == is_substring(
                        names@[i as int]@,
                        f@,
                    ));
                    assert(c == pred(all[i as int]));
                }
                c
            },
            None => {
                proof {
                    assert(all[i as int] == names@[i as int]@);
                    assert(pred(all[i as int]));
                }
                true
            },
        };
        proof {
            assert(keep == pred(all[i as int]));
        }
        let ghost kept_pre = names_model(kept@);
        if keep {
            kept.push(copy_vec(&names[i]));
            proof {
                assert(names_model(kept@) =~= kept_pre.push(all[i as int]));
            }
        }
        proof {
            all.take(i as int).lemma_filter_push(all[i as int], pred);
            assert(all.take(i + 1) =~= all.take(i as int).push(all[i as int]));
        }
        i = i + 1;
    }
    proof {
        assert(all.take(all.len() as int) =~= all);
    }
    let ghost target = all.filter(pred).to_multiset();
    let mut result: Vec<Vec<u8>> = Vec::new();
    proof {
        broadcast use vstd::seq_lib::group_to_multiset_ensures;
        broadcast use vstd::multiset::group_multiset_axioms;

        assert(names_model(result@) =~= Seq::<Seq<u8>>::empty());
        assert(names_model(result@).to_multiset().add(names_model(kept@).to_multiset())
            =~= names_model(kept@).to_multiset());
    }
    while kept.len() > 0
        invariant
            sorted_lex(names_model(result@)),
            names_model(result@).to_multiset().add(names_model(kept@).to_multiset()) == target,
        decreases kept@.len(),
    {
        let ghost kept_pre = names_model(kept@);
        let ghost result_pre = names_model(result@);
        let x = match kept.pop() {
            Some(x) => x,
            None => {
                proof {
                    assert(false);
                }
                Vec::new()
            },
        };
        proof {
            broadcast use vstd::seq_lib::group_to_multiset_ensures;
            broadcast use vstd::multiset::group_multiset_axioms;

            assert(names_model(kept@) =~= kept_pre.remove(kept_pre.len() - 1));
            assert(kept_pre.remove(kept_pre.len() - 1).to_multiset() == kept_pre.to_multiset()
                .remove(kept_pre[kept_pre.len() - 1]));
        }
        insert_sorted(&mut result, x);
        proof {
            broadcast use vstd::multiset::group_multiset_axioms;

            assert(result_pre.to_multiset().insert(x@).add(
                kept_pre.to_multiset().remove(x@),
            ) =~= result_pre.to_multiset().add(kept_pre.to_multiset())) by {
                assert(kept_pre.to_multiset().count(x@) > 0) by {
                    broadcast use vstd::seq_lib::group_to_multiset_ensures;

                    assert(kept_pre.contains(x@));
                }
            }
        }
    }
    proof {
        broadcast use vstd::seq_lib::group_to_multiset_ensures;
        broadcast use vstd::multiset::group_multiset_axioms;

        assert(names_model(kept@) =~= Seq::<Seq<u8>>::empty());
        assert(names_model(result@).to_multiset().add(
            Seq::<Seq<u8>>::empty().to_multiset(),
        ) =~= names_model(result@).to_multiset());
    }
    result
}

/// One `- name` line per retained name.
pub open spec fn listing_lines(ns: Seq<Seq<u8>>) -> Seq<u8>
    decreases ns.len(),
{
    if ns.len() == 0 {
        seq![]
    } else {
        (ascii_bytes("- "@) + ns[0] + seq![10u8]) + listing_lines(ns.drop_first())
    }
}

/// The display report for an already sorted and filtered list: a distinct
/// message when it is empty, otherwise every name and the total count.
pub open spec fn report_text(ns: Seq<Seq<u8>>) -> Seq<u8> {
    if ns.len() == 0 {
        ascii_bytes("No secrets found.\n"@)
    } else {
        ascii_bytes("Available secrets:\n"@) + listing_lines(ns) + ascii_bytes("\nTotal: "@)
            + dec_rep(ns.len()) + ascii_bytes(" secrets\n"@)
    }
}

proof fn lemma_listing_lines_push(ns: Seq<Seq<u8>>, n: Seq<u8>)
    ensures
        listing_lines(ns.push(n)) == listing_lines(ns) + (ascii_bytes("- "@) + n + seq![10u8]),
    decreases ns.len(),
{
    let line = ascii_bytes("- "@) + n + seq![10u8];
    if ns.len() == 0 {
        assert(ns.push(n)[0] == n);
        assert(ns.push(n).drop_first() =~= ns);
        assert(listing_lines(ns) =~= Seq::<u8>::empty());
        assert(line + listing_lines(ns) =~= listing_lines(ns) + line);
    } else {
        assert(ns.push(n).drop_first() =~= ns.drop_first().push(n));
        lemma_listing_lines_push(ns.drop_first(), n);
        assert(ns.push(n)[0] == ns[0]);
        let head = ascii_bytes("- "@) + ns[0] + seq![10u8];
        assert((head + listing_lines(ns.drop_first())) + line =~= head + (listing_lines(
            ns.drop_first(),
        ) + line));
    }
}

/// Builds the display report for an already sorted and filtered list.
pub fn listing_report(names: &Vec<Vec<u8>>) -> (r: Vec<u8>)
    ensures
        r@ == report_text(names_model(names@)),
{
    let ghost ns = names_model(names@);
    if names.len() == 0 {
        proof {
            reveal_strlit("No secrets found.\n");
            assert(vstd::string::is_ascii("No secrets found.\n"));
        }
        return crate::bytes::ascii_to_vec("No secrets found.\n");
    }
    let mut out: Vec<u8> = Vec::new();
    proof {
        reveal_strlit("Available secrets:\n");
        assert(vstd::string::is_ascii("Available secrets:\n"));
        reveal_strlit("- ");
        assert(vstd::string::is_ascii("- "));
        reveal_strlit("\nTotal: ");
        assert(vstd::string::is_ascii("\nTotal: "));
        reveal_strlit(" secrets\n");
        assert(vstd::string::is_ascii(" secrets\n"));
    }
    push_str_bytes(&mut out, "Available secrets:\n");
    let mut i: usize = 0;
    proof {
        assert(ns.take(0) =~= Seq::<Seq<u8>>::empty());
        assert(out@ =~= ascii_bytes("Available secrets:\n"@) + listing_lines(ns.take(0)));
    }
    while i < names.len()
        invariant
            i <= names@.len(),
            ns == names_model(names@),
            out@ == ascii_bytes("Available secrets:\n"@) + listing_lines(ns.take(i as int)),
        decreases names@.len() - i,
    {
        let ghost before = out@;
        proof {
            reveal_strlit("- ");
            assert(vstd::string::is_ascii("- "));
        }
        push_str_bytes(&mut out, "- ");
        push_all(&mut out, &names[i]);
        out.push(10);
        proof {
            lemma_listing_lines_push(ns.take(i as int), ns[i as int]);
            assert(ns.take(i + 1) =~= ns.take(i as int).push(ns[i as int]));
            assert(out@ =~= before + (ascii_bytes("- "@) + ns[i as int] + seq![10u8]));
            assert(out@ =~= ascii_bytes("Available secrets:\n"@) + listing_lines(ns.take(i + 1)));
        }
        i = i + 1;
    }
    proof {
        assert(ns.take(ns.len() as int) =~= ns);
    }
    push_str_bytes(&mut out, "\nTotal: ");
    let digits = to_decimal(names.len() as u64);
    push_all(&mut out, &digits);
    push_str_bytes(&mut out, " secrets\n");
    proof {
        assert(out@ =~= report_text(ns));
    }
    out
}

} // verus!
