//! The key/value extractor: derives the normalized entries from a structured
//! payload's members or from line-oriented `key=value` text, and yields
//! nothing for binary payloads, non-object documents, and text without usable
//! pairs.

use vstd::prelude::*;

use crate::bytes::{
    count_byte, find_byte, find_byte_vec, has_byte, lemma_find_byte_properties, strip_quotes,
    strip_quotes_vec, sub_vec, trim, trim_vec, count_byte_vec,
};
use crate::model::{entries_model, Entry, Member, MemberModel, MemberValue, MemberValueModel,
    PayloadModel, DocModel, RawPayload, StructuredDoc};

verus! {

/// The text a member contributes before quote stripping: a JSON string's raw
/// text, or the canonical compact text of any other value.
pub open spec fn member_text(v: MemberValueModel) -> Seq<u8> {
    match v {
        MemberValueModel::Str(s) => s,
        MemberValueModel::Other(t) => t,
    }
}

/// The entries a structured object yields: one per member, in document
/// order, with one layer of surrounding double quotes removed from the value.
pub open spec fn object_pairs(ms: Seq<MemberModel>) -> Seq<(Seq<u8>, Seq<u8>)> {
    ms.map_values(|m: MemberModel| (m.key, strip_quotes(member_text(m.value))))
}

/// What one line of plain text contributes: nothing when the trimmed line is
/// empty, a comment, has no `=`, or has a blank key; otherwise the pair split
/// on the first `=`, with the key trimmed and one layer of surrounding double
/// quotes removed from the value.
pub open spec fn parse_line(line: Seq<u8>) -> Seq<(Seq<u8>, Seq<u8>)> {
    let tr = trim(line);
    if tr.len() == 0 || tr[0] == 35 {
        seq![]
    } else {
        let j = find_byte(tr, 61);
        if j < 0 {
            seq![]
        } else {
            let k = trim(tr.subrange(0, j));
            if k.len() == 0 {
                seq![]
            } else {
                seq![(k, strip_quotes(tr.subrange(j + 1, tr.len() as int)))]
            }
        }
    }
}

/// The pairs contributed by all newline-separated lines of `t`, in order.
pub open spec fn parse_lines(t: Seq<u8>) -> Seq<(Seq<u8>, Seq<u8>)>
    decreases t.len(),
{
    if t.len() == 0 {
        seq![]
    } else {
        let i = find_byte(t, 10);
        if 0 <= i < t.len() {
            parse_line(t.take(i)) + parse_lines(t.skip(i + 1))
        } else {
            parse_line(t)
        }
    }
}

/// Extraction from plain text: nothing when the text has no `=` at all, or
/// exactly one `=` and no newline (such a scalar is handled as one already
/// valid `.env` line); otherwise the line-by-line pairs.
pub open spec fn text_extract(t: Seq<u8>) -> Option<Seq<(Seq<u8>, Seq<u8>)>> {
    if !has_byte(t, 61) || (count_byte(t, 61) == 1 && !has_byte(t, 10)) {
        None
    } else {
        Some(parse_lines(t))
    }
}

/// Extraction over the whole payload model.
pub open spec fn spec_extract(p: PayloadModel) -> Option<Seq<(Seq<u8>, Seq<u8>)>> {
    match p {
        PayloadModel::StructuredJson(DocModel::Object(ms)) => Some(object_pairs(ms)),
        PayloadModel::StructuredJson(DocModel::Other { .. }) => None,
        PayloadModel::PlainText(t) => text_extract(t),
        PayloadModel::Binary(_) => None,
    }
}

/// The entries of a structured object payload.
pub fn extract_object_entries(ms: &Vec<Member>) -> (r: Vec<Entry>)
    ensures
        entries_model(r@) == object_pairs(ms@.map_values(|m: Member| m@)),
{
    let mut r: Vec<Entry> = Vec::new();
    let mut i: usize = 0;
    while i < ms.len()
        invariant
            i <= ms@.len(),
            entries_model(r@) == object_pairs(ms@.map_values(|m: Member| m@).take(i as int)),
        decreases ms@.len() - i,
    {
        let m = &ms[i];
        let key = crate::bytes::copy_vec(&m.key);
        let value = match &m.value {
            MemberValue::Str(s) => strip_quotes_vec(s),
            MemberValue::Other(t) => strip_quotes_vec(t),
        };
        r.push(Entry { key, value });
        proof {
            let models = ms@.map_values(|m: Member| m@);
            assert(entries_model(r@) =~= object_pairs(models.take(i as int)).push(
                (ms@[i as int]@.key, strip_quotes(member_text(ms@[i as int]@.value))),
            ));
            assert(object_pairs(models.take(i + 1)) =~= object_pairs(models.take(i as int)).push(
                (models[i as int].key, strip_quotes(member_text(models[i as int].value))),
            ));
        }
        i = i + 1;
    }
    proof {
        let models = ms@.map_values(|m: Member| m@);
        assert(models.take(models.len() as int) =~= models);
    }
    r
}

/// Parses one line of plain text.
fn parse_line_vec(line: &Vec<u8>) -> (r: Option<Entry>)
    ensures
        parse_line(line@) == match r {
            Some(e) => seq![e@],
            None => Seq::<(Seq<u8>, Seq<u8>)>::empty(),
        },
{
    let tr = trim_vec(line);
    if tr.len() == 0 {
        return None;
    }
    if tr[0] == 35 {
        return None;
    }
    match find_byte_vec(&tr, 61) {
        None => None,
        Some(j) => {
            proof {
                lemma_find_byte_properties(tr@, 61);
            }
            let before = sub_vec(&tr, 0, j);
            let key = trim_vec(&before);
            if key.len() == 0 {
                None
            } else {
                let after = sub_vec(&tr, j + 1, tr.len());
                let value = strip_quotes_vec(&after);
                Some(Entry { key, value })
            }
        },
    }
}

/// Extracts entries from plain text, when it has usable pairs.
pub fn extract_plain_text(t: &Vec<u8>) -> (r: Option<Vec<Entry>>)
    ensures
        match r {
            Some(es) => text_extract(t@) == Some(entries_model(es@)),
            None => text_extract(t@) is None,
        },
{
    let eq_count = count_byte_vec(t, 61);
    let nl_count = count_byte_vec(t, 10);
    if eq_count == 0 || (eq_count == 1 && nl_count == 0) {
        return None;
    }
    let mut entries: Vec<Entry> = Vec::new();
    let mut pos: usize = 0;
    proof {
        assert(t@.skip(0) =~= t@);
        assert(entries_model(entries@) =~= Seq::<(Seq<u8>, Seq<u8>)>::empty());
        assert(entries_model(entries@) + parse_lines(t@) =~= parse_lines(t@));
    }
    while pos < t.len()
        invariant
            pos <= t@.len(),
            parse_lines(t@) == entries_model(entries@) + parse_lines(t@.skip(pos as int)),
        decreases t@.len() - pos,
    {
        let ghost rest = t@.skip(pos as int);
        // scan for the next newline
        let mut k: usize = pos;
        while k < t.len() && t[k] != 10
            invariant
                pos <= k <= t@.len(),
                forall|j: int| pos <= j < k ==> t@[j] != 10,
            decreases t@.len() - k,
        {
            k = k + 1;
        }
        let line = sub_vec(t, pos, k);
        let next_pos = if k < t.len() {
            k + 1
        } else {
            k
        };
        proof {
            let rest2 = t@.skip(next_pos as int);
            assert(forall|j: int| 0 <= j < k - pos ==> rest[j] == t@[j + pos] && rest[j] != 10);
            if k < t@.len() {
                crate::bytes::lemma_find_byte_at(rest, 10, k - pos);
                assert(rest.take(k - pos) =~= line@);
                assert(rest.skip(k - pos + 1) =~= rest2);
                assert(parse_lines(rest) == parse_line(line@) + parse_lines(rest2));
            } else {
                lemma_find_byte_properties(rest, 10);
                if find_byte(rest, 10) >= 0 {
                    assert(rest[find_byte(rest, 10)] == 10);
                    assert(false);
                }
                assert(rest =~= line@);
                assert(rest2 =~= Seq::<u8>::empty());
                assert(parse_lines(rest) == parse_line(line@));
                assert(parse_lines(rest) =~= parse_line(line@) + parse_lines(rest2));
            }
        }
        let ghost pre = entries@;
        let parsed = parse_line_vec(&line);
        match parsed {
            Some(e) => {
                proof {
                    assert(parse_line(line@) =~= seq![e@]);
                }
                entries.push(e);
                proof {
                    assert(entries_model(entries@) =~= entries_model(pre) + parse_line(line@));
                }
            },
            None => {
                proof {
                    assert(entries_model(entries@) =~= entries_model(pre) + parse_line(line@));
                }
            },
        }
        proof {
            let rest2 = t@.skip(next_pos as int);
            assert((entries_model(pre) + parse_line(line@)) + parse_lines(rest2)
                =~= entries_model(pre) + (parse_line(line@) + parse_lines(rest2)));
            assert(parse_lines(t@) == entries_model(entries@) + parse_lines(rest2));
        }
        pos = next_pos;
    }
    proof {
        assert(t@.skip(t@.len() as int) =~= Seq::<u8>::empty());
        assert(entries_model(entries@) + parse_lines(Seq::<u8>::empty()) =~= entries_model(
            entries@,
        ));
    }
    Some(entries)
}

/// The extractor: entries from a structured object or from plain text with
/// usable pairs; nothing otherwise, and the scalar path is used instead.
pub fn extract(p: &RawPayload) -> (r: Option<Vec<Entry>>)
    ensures
        match r {
            Some(es) => spec_extract(p@) == Some(entries_model(es@)),
            None => spec_extract(p@) is None,
        },
{
    match p {
        RawPayload::StructuredJson(StructuredDoc::Object(ms)) => Some(extract_object_entries(ms)),
        RawPayload::StructuredJson(StructuredDoc::Other { .. }) => None,
        RawPayload::PlainText(t) => extract_plain_text(t),
        RawPayload::Binary(_) => None,
    }
}

} // verus!
