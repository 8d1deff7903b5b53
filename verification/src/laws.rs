//! The engine's cross-function laws, each proved over the spec functions
//! that the public contracts use: the Env rendering of an all-string object,
//! the plain-text round trips through the Env format, and the CSV field
//! round trip.

use vstd::prelude::*;

use crate::bytes::{
    count_byte, find_byte, has_byte, is_ws, lemma_find_byte_at, lemma_find_byte_properties,
    lemma_has_byte_exists, lemma_trim_end_clean, lemma_trim_start_clean, strip_quotes, trim,
};
use crate::extract::{member_text, object_pairs, parse_line, parse_lines, spec_extract, text_extract};
use crate::jsonio::is_json_doc;
use crate::model::{MemberModel, OutcomeModel, PayloadModel, RenderTarget};
use crate::render::{
    csv_collapse, csv_escaped, csv_field, csv_needs_quote, csv_text, csv_unescape, env_line,
    env_text, spec_render,
};

verus! {

// --- CSV: escaping round trip ---

proof fn lemma_collapse_escaped(v: Seq<u8>)
    ensures
        csv_collapse(csv_escaped(v)) == v,
    decreases v.len(),
{
    if v.len() == 0 {
    } else {
        lemma_collapse_escaped(v.drop_first());
        let e = csv_escaped(v);
        if v[0] == 34 {
            assert(e =~= seq![34u8, 34u8] + csv_escaped(v.drop_first()));
            assert(e[0] == 34 && e[1] == 34);
            assert(e.skip(2) =~= csv_escaped(v.drop_first()));
            assert(csv_collapse(e) == seq![34u8] + csv_collapse(csv_escaped(v.drop_first())));
            assert(seq![34u8] + v.drop_first() =~= v);
        } else {
            assert(e =~= seq![v[0]] + csv_escaped(v.drop_first()));
            assert(e[0] == v[0] && e[0] != 34);
            assert(e.drop_first() =~= csv_escaped(v.drop_first()));
            assert(csv_collapse(e) == seq![v[0]] + csv_collapse(csv_escaped(v.drop_first())));
            assert(seq![v[0]] + v.drop_first() =~= v);
        }
    }
}

/// Unescaping a rendered CSV field recovers the raw value exactly, and a
/// value holding the delimiter, a double quote or a newline is rendered
/// quoted.
pub proof fn lemma_csv_field_round_trip(v: Seq<u8>)
    ensures
        csv_unescape(csv_field(v)) == v,
        csv_needs_quote(v) ==> csv_field(v).len() >= 2 && csv_field(v)[0] == 34 && csv_field(v)[
            csv_field(v).len() - 1] == 34,
{
    if csv_needs_quote(v) {
        let f = csv_field(v);
        assert(f =~= seq![34u8] + csv_escaped(v) + seq![34u8]);
        assert(f[0] == 34 && f[f.len() - 1] == 34);
        assert(f.subrange(1, f.len() - 1) =~= csv_escaped(v));
        lemma_collapse_escaped(v);
    } else {
        lemma_has_byte_exists(v, 34);
        if v.len() >= 2 && v[0] == 34 && v[v.len() - 1] == 34 {
            assert(has_byte(v, 34));
            assert(false);
        }
    }
}

// --- Env: the rendering of an object with only string values ---

/// The line an all-string member contributes: its key, `=`, its raw string
/// text with exactly one layer of surrounding double quotes removed, and a
/// newline.
pub open spec fn string_member_line(m: MemberModel) -> Seq<u8> {
    m.key + seq![61u8] + strip_quotes(member_text(m.value)) + seq![10u8]
}

pub open spec fn string_object_env(ms: Seq<MemberModel>) -> Seq<u8>
    decreases ms.len(),
{
    if ms.len() == 0 {
        seq![]
    } else {
        string_member_line(ms[0]) + string_object_env(ms.drop_first())
    }
}

proof fn lemma_count_byte_concat(a: Seq<u8>, b: Seq<u8>, x: u8)
    ensures
        count_byte(a + b, x) == count_byte(a, x) + count_byte(b, x),
    decreases a.len(),
{
    if a.len() == 0 {
        assert(a + b =~= b);
    } else {
        assert((a + b).drop_first() =~= a.drop_first() + b);
        assert((a + b)[0] == a[0]);
        lemma_count_byte_concat(a.drop_first(), b, x);
    }
}

/// Rendering a JSON object with only string values to Env yields exactly the
/// member lines, in document order: one `key=value` line per member with one
/// layer of surrounding double quotes removed from each value — and exactly
/// one newline per member, when no key or value text holds one itself.
pub proof fn lemma_env_of_string_object(ms: Seq<MemberModel>)
    ensures
        env_text(object_pairs(ms)) == string_object_env(ms),
        (forall|i: int|
            0 <= i < ms.len() ==> !has_byte(#[trigger] ms[i].key, 10) && !has_byte(
                strip_quotes(member_text(ms[i].value)),
                10,
            )) ==> count_byte(env_text(object_pairs(ms)), 10) == ms.len(),
    decreases ms.len(),
{
    let ps = object_pairs(ms);
    if ms.len() == 0 {
        assert(ps =~= Seq::<(Seq<u8>, Seq<u8>)>::empty());
    } else {
        lemma_env_of_string_object(ms.drop_first());
        assert(ps.drop_first() =~= object_pairs(ms.drop_first()));
        assert(ps[0].0 == ms[0].key);
        assert(ps[0].1 == strip_quotes(member_text(ms[0].value)));
        assert(env_text(ps) == env_line(ps[0].0, ps[0].1) + env_text(ps.drop_first()));
        assert(env_line(ps[0].0, ps[0].1) == string_member_line(ms[0]));
        if forall|i: int|
            0 <= i < ms.len() ==> !has_byte(#[trigger] ms[i].key, 10) && !has_byte(
                strip_quotes(member_text(ms[i].value)),
                10,
            ) {
            let k = ms[0].key;
            let v = strip_quotes(member_text(ms[0].value));
            lemma_count_byte_concat(k + seq![61u8] + v, seq![10u8], 10);
            lemma_count_byte_concat(k + seq![61u8], v, 10);
            lemma_count_byte_concat(k, seq![61u8], 10);
            assert(count_byte(seq![10u8], 10) == 1) by {
                assert(count_byte(Seq::<u8>::empty(), 10) == 0);
                assert(seq![10u8].drop_first() =~= Seq::<u8>::empty());
            }
            assert(count_byte(seq![61u8], 10) == 0) by {
                assert(count_byte(Seq::<u8>::empty(), 10) == 0);
                assert(seq![61u8].drop_first() =~= Seq::<u8>::empty());
            }
            assert(env_line(k, v) =~= (k + seq![61u8] + v) + seq![10u8]);
            assert(count_byte(env_line(k, v), 10) == 1);
            lemma_count_byte_concat(env_line(ps[0].0, ps[0].1), env_text(ps.drop_first()), 10);
            assert(forall|i: int|
                0 <= i < ms.drop_first().len() ==> ms.drop_first()[i] == ms[i + 1]);
        }
    }
}

// --- plain text round trips through the Env format ---

/// A key that survives extraction unchanged: non-empty, no surrounding
/// whitespace, not a comment mark, and free of `=` and newlines.
pub open spec fn clean_key(k: Seq<u8>) -> bool {
    &&& k.len() > 0
    &&& !is_ws(k[0])
    &&& !is_ws(k[k.len() - 1])
    &&& k[0] != 35
    &&& !has_byte(k, 61)
    &&& !has_byte(k, 10)
}

/// A value that survives extraction unchanged: free of `=` and newlines,
/// without trailing whitespace, and not wrapped in double quotes.
pub open spec fn clean_value(v: Seq<u8>) -> bool {
    &&& !has_byte(v, 61)
    &&& !has_byte(v, 10)
    &&& v.len() > 0 ==> !is_ws(v[v.len() - 1])
    &&& !(v.len() >= 2 && v[0] == 34 && v[v.len() - 1] == 34)
}

pub open spec fn clean_pairs(ps: Seq<(Seq<u8>, Seq<u8>)>) -> bool {
    forall|i: int| 0 <= i < ps.len() ==> clean_key(#[trigger] ps[i].0) && clean_value(ps[i].1)
}

proof fn lemma_parse_clean_line(k: Seq<u8>, v: Seq<u8>)
    requires
        clean_key(k),
        clean_value(v),
    ensures
        parse_line(k + seq![61u8] + v) == seq![(k, v)],
{
    let line = k + seq![61u8] + v;
    lemma_has_byte_exists(k, 61);
    lemma_has_byte_exists(v, 61);
    assert(line[0] == k[0]);
    assert(line.len() == k.len() + 1 + v.len());
    if v.len() > 0 {
        assert(line[line.len() - 1] == v[v.len() - 1]);
    } else {
        assert(line[line.len() - 1] == 61);
    }
    assert(!is_ws(line[0]));
    assert(!is_ws(line[line.len() - 1]));
    lemma_trim_start_clean(line);
    lemma_trim_end_clean(line);
    assert(trim(line) == line);
    assert(line[k.len() as int] == 61);
    assert(forall|j: int| 0 <= j < k.len() ==> line[j] == k[j] && line[j] != 61);
    lemma_find_byte_at(line, 61, k.len() as int);
    assert(line.subrange(0, k.len() as int) =~= k);
    lemma_trim_start_clean(k);
    lemma_trim_end_clean(k);
    assert(trim(k) == k);
    assert(line.subrange(k.len() as int + 1, line.len() as int) =~= v);
    assert(strip_quotes(v) == v);
}

proof fn lemma_env_text_last(ps: Seq<(Seq<u8>, Seq<u8>)>)
    requires
        ps.len() >= 1,
    ensures
        env_text(ps).len() >= 2,
        env_text(ps)[env_text(ps).len() - 1] == 10,
    decreases ps.len(),
{
    let rest = ps.drop_first();
    let line = env_line(ps[0].0, ps[0].1);
    assert(line.len() == ps[0].0.len() + 1 + ps[0].1.len() + 1);
    assert(line[line.len() - 1] == 10);
    if rest.len() == 0 {
        assert(env_text(rest) =~= Seq::<u8>::empty());
        assert(env_text(ps) =~= line);
    } else {
        lemma_env_text_last(rest);
        assert(env_text(ps)[env_text(ps).len() - 1] == env_text(rest)[env_text(rest).len() - 1]);
    }
}

proof fn lemma_parse_env_lines(ps: Seq<(Seq<u8>, Seq<u8>)>)
    requires
        clean_pairs(ps),
    ensures
        parse_lines(env_text(ps)) == ps,
    decreases ps.len(),
{
    if ps.len() == 0 {
        assert(env_text(ps) =~= Seq::<u8>::empty());
        assert(parse_lines(env_text(ps)) =~= ps);
    } else {
        let k = ps[0].0;
        let v = ps[0].1;
        let rest = ps.drop_first();
        let line = env_line(k, v);
        let e = env_text(ps);
        let nl: int = k.len() as int + 1 + v.len() as int;
        assert(clean_key(k) && clean_value(v));
        lemma_has_byte_exists(k, 10);
        lemma_has_byte_exists(v, 10);
        assert(e == line + env_text(rest));
        assert(line =~= (k + seq![61u8] + v) + seq![10u8]);
        assert(line.len() == nl + 1);
        assert(forall|j: int| 0 <= j <= nl ==> e[j] == line[j]);
        assert(forall|j: int| 0 <= j < k.len() ==> line[j] == k[j] && line[j] != 10);
        assert(line[k.len() as int] == 61);
        assert(forall|j: int|
            k.len() + 1 <= j < nl ==> line[j] == v[j - k.len() - 1] && line[j] != 10);
        assert(line[nl] == 10);
        assert(forall|j: int| 0 <= j < nl ==> e[j] != 10);
        assert(e[nl] == 10);
        lemma_find_byte_at(e, 10, nl);
        assert(e.len() > 0);
        assert(e.take(nl) =~= k + seq![61u8] + v);
        assert(e.skip(nl + 1) =~= env_text(rest));
        lemma_parse_clean_line(k, v);
        assert(forall|i: int| 0 <= i < rest.len() ==> rest[i] == ps[i + 1]);
        assert(clean_pairs(rest));
        lemma_parse_env_lines(rest);
        assert(parse_lines(e) == parse_line(e.take(nl)) + parse_lines(e.skip(nl + 1)));
        assert(seq![(k, v)] + rest =~= ps);
    }
}

proof fn lemma_parse_env_lines_trimmed(ps: Seq<(Seq<u8>, Seq<u8>)>)
    requires
        clean_pairs(ps),
        ps.len() >= 1,
    ensures
        parse_lines(env_text(ps).take(env_text(ps).len() - 1)) == ps,
    decreases ps.len(),
{
    let k = ps[0].0;
    let v = ps[0].1;
    let rest = ps.drop_first();
    let line = env_line(k, v);
    let e = env_text(ps);
    let nl: int = k.len() as int + 1 + v.len() as int;
    assert(clean_key(k) && clean_value(v));
    lemma_has_byte_exists(k, 10);
    lemma_has_byte_exists(v, 10);
    assert(e == line + env_text(rest));
    assert(line =~= (k + seq![61u8] + v) + seq![10u8]);
    assert(line.len() == nl + 1);
    assert(forall|j: int| 0 <= j < k.len() ==> line[j] == k[j] && line[j] != 10);
    assert(line[k.len() as int] == 61);
    assert(forall|j: int| k.len() + 1 <= j < nl ==> line[j] == v[j - k.len() - 1] && line[j] != 10);
    let t = e.take(e.len() - 1);
    if rest.len() == 0 {
        assert(env_text(rest) =~= Seq::<u8>::empty());
        assert(e =~= line);
        assert(t =~= k + seq![61u8] + v);
        assert(forall|j: int| 0 <= j < t.len() ==> t[j] != 10);
        lemma_find_byte_properties(t, 10);
        if find_byte(t, 10) >= 0 {
            assert(t[find_byte(t, 10)] == 10);
            assert(false);
        }
        assert(t.len() > 0);
        lemma_parse_clean_line(k, v);
        assert(parse_lines(t) == parse_line(t));
        assert(seq![(k, v)] =~= ps);
    } else {
        lemma_env_text_last(rest);
        let er = env_text(rest);
        assert(t =~= line + er.take(er.len() - 1));
        assert(forall|j: int| 0 <= j <= nl ==> t[j] == line[j]);
        assert(forall|j: int| 0 <= j < nl ==> t[j] != 10);
        assert(t[nl] == 10);
        lemma_find_byte_at(t, 10, nl);
        assert(t.len() > 0);
        assert(t.take(nl) =~= k + seq![61u8] + v);
        assert(t.skip(nl + 1) =~= er.take(er.len() - 1));
        lemma_parse_clean_line(k, v);
        assert(forall|i: int| 0 <= i < rest.len() ==> rest[i] == ps[i + 1]);
        assert(clean_pairs(rest));
        lemma_parse_env_lines_trimmed(rest);
        assert(parse_lines(t) == parse_line(t.take(nl)) + parse_lines(t.skip(nl + 1)));
        assert(seq![(k, v)] + rest =~= ps);
    }
}

/// Round trip: extracting the Env rendering of clean entries recovers
/// exactly those entries, keys and values in order.
pub proof fn lemma_env_extract_round_trip(ps: Seq<(Seq<u8>, Seq<u8>)>)
    requires
        clean_pairs(ps),
        ps.len() >= 1,
    ensures
        text_extract(env_text(ps)) == Some(ps),
{
    lemma_parse_env_lines(ps);
    let e = env_text(ps);
    let k = ps[0].0;
    let line = env_line(k, ps[0].1);
    assert(e == line + env_text(ps.drop_first()));
    assert(e[k.len() as int] == line[k.len() as int]);
    assert(line[k.len() as int] == 61);
    lemma_has_byte_exists(e, 61);
    lemma_env_text_last(ps);
    lemma_has_byte_exists(e, 10);
}

/// The round trip through classification: rendered Env text classifies as
/// plain text exactly when it is not a JSON document — quote characters in a
/// key or value can make it one, as in the single pair whose line renders to
/// a quoted JSON string — and extraction of the plain-text payload then
/// recovers the entries.
pub proof fn lemma_env_round_trip_classified(ps: Seq<(Seq<u8>, Seq<u8>)>)
    requires
        clean_pairs(ps),
        ps.len() >= 1,
        !is_json_doc(env_text(ps)),
    ensures
        spec_extract(PayloadModel::PlainText(env_text(ps))) == Some(ps),
{
    lemma_env_extract_round_trip(ps);
}

/// Plain text made of two or more `key=value` lines joined by newlines:
/// rendering it to Env reproduces the same lines with a guaranteed trailing
/// newline, and rendering it to CSV yields the header and one row per pair.
pub proof fn lemma_plain_text_round_trip(ps: Seq<(Seq<u8>, Seq<u8>)>)
    requires
        clean_pairs(ps),
        ps.len() >= 2,
    ensures
        ({
            let t = env_text(ps).take(env_text(ps).len() - 1);
            &&& text_extract(t) == Some(ps)
            &&& env_text(ps) == t + seq![10u8]
            &&& spec_render(PayloadModel::PlainText(t), RenderTarget::EnvFile, None)
                == (OutcomeModel::WriteFile { path: ".env"@, content: env_text(ps) })
            &&& spec_render(PayloadModel::PlainText(t), RenderTarget::Csv, None)
                == (OutcomeModel::WriteFile { path: "secret.csv"@, content: csv_text(ps) })
        }),
{
    lemma_parse_env_lines_trimmed(ps);
    let e = env_text(ps);
    let t = e.take(e.len() - 1);
    let k = ps[0].0;
    let v = ps[0].1;
    let line = env_line(k, v);
    let nl: int = k.len() as int + 1 + v.len() as int;
    let rest = ps.drop_first();
    lemma_env_text_last(ps);
    lemma_env_text_last(rest);
    assert(e == line + env_text(rest));
    assert(line.len() == nl + 1);
    assert(t.len() == e.len() - 1);
    assert(e.len() == line.len() + env_text(rest).len());
    assert(t[k.len() as int] == line[k.len() as int]);
    assert(line[k.len() as int] == 61);
    lemma_has_byte_exists(t, 61);
    assert(line[nl] == 10);
    assert(t[nl] == 10);
    lemma_has_byte_exists(t, 10);
    assert(e =~= t + seq![e[e.len() - 1]]);
}

} // verus!
