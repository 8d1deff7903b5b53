//! The format renderers: each consumes the normalized entries, or the
//! original scalar/binary value when no key/value structure exists, and
//! produces the output bytes. Quoting and escaping are renderer-specific and
//! never leak between formats.

use vstd::prelude::*;

use crate::b64::{b64_decode_of, b64_encode, b64_of};
use crate::bytes::{
    ascii_bytes, ascii_to_vec, copy_vec, count_byte_vec, dec_rep, has_byte, push_all,
    push_str_bytes, to_decimal,
};
use crate::extract::{extract_object_entries, extract_plain_text, object_pairs, text_extract};
use crate::jsonio::{entries_json_pretty, entries_yaml, json_object_text, yaml_object_text};
use crate::model::{
    entries_model, DocModel, EngineError, Entry, OutcomeModel, PayloadModel, RawPayload,
    RenderOutcome, RenderTarget, StructuredDoc,
};

verus! {

// --- the .env format ---

/// One `key=value` line, newline-terminated.
pub open spec fn env_line(k: Seq<u8>, v: Seq<u8>) -> Seq<u8> {
    k + seq![61u8] + v + seq![10u8]
}

/// One line per entry, in order; the trailing newline is guaranteed.
pub open spec fn env_text(ps: Seq<(Seq<u8>, Seq<u8>)>) -> Seq<u8>
    decreases ps.len(),
{
    if ps.len() == 0 {
        seq![]
    } else {
        env_line(ps[0].0, ps[0].1) + env_text(ps.drop_first())
    }
}

proof fn lemma_env_text_push(ps: Seq<(Seq<u8>, Seq<u8>)>, p: (Seq<u8>, Seq<u8>))
    ensures
        env_text(ps.push(p)) == env_text(ps) + env_line(p.0, p.1),
    decreases ps.len(),
{
    if ps.len() == 0 {
        assert(ps.push(p)[0] == p);
        assert(ps.push(p).drop_first() =~= ps);
        assert(env_text(ps.push(p)) == env_line(p.0, p.1) + env_text(ps));
        assert(env_text(ps) =~= Seq::<u8>::empty());
        assert(env_line(p.0, p.1) + env_text(ps) =~= env_text(ps) + env_line(p.0, p.1));
    } else {
        assert(ps.push(p).drop_first() =~= ps.drop_first().push(p));
        lemma_env_text_push(ps.drop_first(), p);
        assert(ps.push(p)[0] == ps[0]);
        assert((env_line(ps[0].0, ps[0].1) + env_text(ps.drop_first())) + env_line(p.0, p.1)
            =~= env_line(ps[0].0, ps[0].1) + (env_text(ps.drop_first()) + env_line(p.0, p.1)));
    }
}

/// Renders the entries in `.env` form.
pub fn render_env_entries(entries: &Vec<Entry>) -> (r: Vec<u8>)
    ensures
        r@ == env_text(entries_model(entries@)),
{
    let ghost ps = entries_model(entries@);
    let mut out: Vec<u8> = Vec::new();
    let mut i: usize = 0;
    proof {
        assert(ps.take(0) =~= Seq::<(Seq<u8>, Seq<u8>)>::empty());
    }
    while i < entries.len()
        invariant
            i <= entries@.len(),
            ps == entries_model(entries@),
            out@ == env_text(ps.take(i as int)),
        decreases entries@.len() - i,
    {
        let ghost before = out@;
        push_all(&mut out, &entries[i].key);
        out.push(61);
        push_all(&mut out, &entries[i].value);
        out.push(10);
        proof {
            lemma_env_text_push(ps.take(i as int), ps[i as int]);
            assert(ps.take(i + 1) =~= ps.take(i as int).push(ps[i as int]));
            assert(out@ =~= before + env_line(ps[i as int].0, ps[i as int].1));
        }
        i = i + 1;
    }
    proof {
        assert(ps.take(ps.len() as int) =~= ps);
    }
    out
}

// --- the CSV format ---

/// A field must be quoted when it holds the delimiter, a double quote, or a
/// newline.
pub open spec fn csv_needs_quote(v: Seq<u8>) -> bool {
    has_byte(v, 44) || has_byte(v, 34) || has_byte(v, 10)
}

/// Every double quote doubled.
pub open spec fn csv_escaped(v: Seq<u8>) -> Seq<u8>
    decreases v.len(),
{
    if v.len() == 0 {
        seq![]
    } else {
        (if v[0] == 34 {
            seq![34u8, 34u8]
        } else {
            seq![v[0]]
        }) + csv_escaped(v.drop_first())
    }
}

/// A rendered field: quoted with its quotes doubled when quoting is needed,
/// the raw bytes otherwise.
pub open spec fn csv_field(v: Seq<u8>) -> Seq<u8> {
    if csv_needs_quote(v) {
        seq![34u8] + csv_escaped(v) + seq![34u8]
    } else {
        v
    }
}

/// One data row, newline-terminated.
pub open spec fn csv_row(k: Seq<u8>, v: Seq<u8>) -> Seq<u8> {
    csv_field(k) + seq![44u8] + csv_field(v) + seq![10u8]
}

pub open spec fn csv_rows(ps: Seq<(Seq<u8>, Seq<u8>)>) -> Seq<u8>
    decreases ps.len(),
{
    if ps.len() == 0 {
        seq![]
    } else {
        csv_row(ps[0].0, ps[0].1) + csv_rows(ps.drop_first())
    }
}

pub open spec fn csv_header() -> Seq<u8> {
    ascii_bytes("key,value\n"@)
}

/// The two-column table: the `key,value` header, then one row per entry.
pub open spec fn csv_text(ps: Seq<(Seq<u8>, Seq<u8>)>) -> Seq<u8> {
    csv_header() + csv_rows(ps)
}

/// Standard CSV unescaping of one field: when it is quoted, the quotes are
/// dropped and doubled quotes collapse back to one.
pub open spec fn csv_collapse(s: Seq<u8>) -> Seq<u8>
    decreases s.len(),
{
    if s.len() == 0 {
        seq![]
    } else if s.len() >= 2 && s[0] == 34 && s[1] == 34 {
        seq![34u8] + csv_collapse(s.skip(2))
    } else {
        seq![s[0]] + csv_collapse(s.drop_first())
    }
}

pub open spec fn csv_unescape(f: Seq<u8>) -> Seq<u8> {
    if f.len() >= 2 && f[0] == 34 && f[f.len() - 1] == 34 {
        csv_collapse(f.subrange(1, f.len() - 1))
    } else {
        f
    }
}

proof fn lemma_csv_rows_push(ps: Seq<(Seq<u8>, Seq<u8>)>, p: (Seq<u8>, Seq<u8>))
    ensures
        csv_rows(ps.push(p)) == csv_rows(ps) + csv_row(p.0, p.1),
    decreases ps.len(),
{
    if ps.len() == 0 {
        assert(ps.push(p)[0] == p);
        assert(ps.push(p).drop_first() =~= ps);
        assert(csv_rows(ps.push(p)) == csv_row(p.0, p.1) + csv_rows(ps));
        assert(csv_rows(ps) =~= Seq::<u8>::empty());
        assert(csv_row(p.0, p.1) + csv_rows(ps) =~= csv_rows(ps) + csv_row(p.0, p.1));
    } else {
        assert(ps.push(p).drop_first() =~= ps.drop_first().push(p));
        lemma_csv_rows_push(ps.drop_first(), p);
        assert(ps.push(p)[0] == ps[0]);
        assert((csv_row(ps[0].0, ps[0].1) + csv_rows(ps.drop_first())) + csv_row(p.0, p.1)
            =~= csv_row(ps[0].0, ps[0].1) + (csv_rows(ps.drop_first()) + csv_row(p.0, p.1)));
    }
}

proof fn lemma_csv_escaped_take_step(v: Seq<u8>, i: int)
    requires
        0 <= i < v.len(),
    ensures
        csv_escaped(v.take(i + 1)) == csv_escaped(v.take(i)) + (if v[i] == 34 {
            seq![34u8, 34u8]
        } else {
            seq![v[i]]
        }),
    decreases i,
{
    if i == 0 {
        assert(v.take(1)[0] == v[0]);
        assert(v.take(1).drop_first() =~= Seq::<u8>::empty());
        assert(v.take(0) =~= Seq::<u8>::empty());
        assert(csv_escaped(v.take(1)) =~= csv_escaped(v.take(0)) + (if v[0] == 34 {
            seq![34u8, 34u8]
        } else {
            seq![v[0]]
        }));
    } else {
        assert(v.take(i + 1).drop_first() =~= v.drop_first().take(i));
        assert(v.take(i).drop_first() =~= v.drop_first().take(i - 1));
        lemma_csv_escaped_take_step(v.drop_first(), i - 1);
        assert(v.take(i + 1)[0] == v[0] && v.take(i)[0] == v[0]);
        let head = if v[0] == 34 {
            seq![34u8, 34u8]
        } else {
            seq![v[0]]
        };
        let tail = if v[i] == 34 {
            seq![34u8, 34u8]
        } else {
            seq![v[i]]
        };
        assert(v.drop_first()[i - 1] == v[i]);
        assert((head + csv_escaped(v.drop_first().take(i - 1))) + tail =~= head + (csv_escaped(
            v.drop_first().take(i - 1),
        ) + tail));
    }
}

/// Appends the rendered form of one field.
fn csv_push_field(out: &mut Vec<u8>, f: &Vec<u8>)
    ensures
        final(out)@ == old(out)@ + csv_field(f@),
{
    let commas = count_byte_vec(f, 44);
    let quotes = count_byte_vec(f, 34);
    let newlines = count_byte_vec(f, 10);
    if commas == 0 && quotes == 0 && newlines == 0 {
        push_all(out, f);
    } else {
        let ghost start = out@;
        out.push(34);
        let mut i: usize = 0;
        proof {
            assert(f@.take(0) =~= Seq::<u8>::empty());
            assert(out@ =~= start + seq![34u8] + csv_escaped(f@.take(0)));
        }
        while i < f.len()
            invariant
                i <= f@.len(),
                out@ == start + seq![34u8] + csv_escaped(f@.take(i as int)),
            decreases f@.len() - i,
        {
            let ghost before = out@;
            if f[i] == 34 {
                out.push(34);
                out.push(34);
                proof {
                    assert(out@ =~= before + seq![34u8, 34u8]);
                }
            } else {
                out.push(f[i]);
                proof {
                    assert(out@ =~= before + seq![f@[i as int]]);
                }
            }
            proof {
                lemma_csv_escaped_take_step(f@, i as int);
                assert(out@ =~= start + seq![34u8] + csv_escaped(f@.take(i + 1)));
            }
            i = i + 1;
        }
        out.push(34);
        proof {
            assert(f@.take(f@.len() as int) =~= f@);
            assert(out@ =~= start + (seq![34u8] + csv_escaped(f@) + seq![34u8]));
        }
    }
}

/// Renders the entries as the CSV table.
pub fn render_csv_entries(entries: &Vec<Entry>) -> (r: Vec<u8>)
    ensures
        r@ == csv_text(entries_model(entries@)),
{
    let ghost ps = entries_model(entries@);
    proof {
        reveal_strlit("key,value\n");
        assert(vstd::string::is_ascii("key,value\n"));
    }
    let mut out = ascii_to_vec("key,value\n");
    let mut i: usize = 0;
    proof {
        assert(ps.take(0) =~= Seq::<(Seq<u8>, Seq<u8>)>::empty());
        assert(out@ =~= csv_header() + csv_rows(ps.take(0)));
    }
    while i < entries.len()
        invariant
            i <= entries@.len(),
            ps == entries_model(entries@),
            out@ == csv_header() + csv_rows(ps.take(i as int)),
        decreases entries@.len() - i,
    {
        let ghost before = out@;
        csv_push_field(&mut out, &entries[i].key);
        out.push(44);
        csv_push_field(&mut out, &entries[i].value);
        out.push(10);
        proof {
            lemma_csv_rows_push(ps.take(i as int), ps[i as int]);
            assert(ps.take(i + 1) =~= ps.take(i as int).push(ps[i as int]));
            assert(out@ =~= before + csv_row(ps[i as int].0, ps[i as int].1));
            assert(out@ =~= csv_header() + csv_rows(ps.take(i + 1)));
        }
        i = i + 1;
    }
    proof {
        assert(ps.take(ps.len() as int) =~= ps);
    }
    out
}

/// Unescapes one CSV field, recovering the raw value of a rendered field.
pub fn csv_unescape_field(f: &Vec<u8>) -> (r: Vec<u8>)
    ensures
        r@ == csv_unescape(f@),
{
    if f.len() >= 2 && f[0] == 34 && f[f.len() - 1] == 34 {
        let inner = crate::bytes::sub_vec(f, 1, f.len() - 1);
        let ghost s = inner@;
        let mut out: Vec<u8> = Vec::new();
        let mut i: usize = 0;
        proof {
            assert(s.skip(0) =~= s);
            assert(out@ + csv_collapse(s) =~= csv_collapse(s));
        }
        while i < inner.len()
            invariant
                i <= s.len(),
                s == inner@,
                out@ + csv_collapse(s.skip(i as int)) == csv_collapse(s),
            decreases s.len() - i,
        {
            let ghost before = out@;
            let ghost rest = s.skip(i as int);
            if inner[i] == 34 && i + 1 < inner.len() && inner[i + 1] == 34 {
                out.push(34);
                proof {
                    assert(rest[0] == 34 && rest.len() >= 2 && rest[1] == 34);
                    assert(rest.skip(2) =~= s.skip(i + 2));
                    assert(out@ =~= before + seq![34u8]);
                    assert(csv_collapse(rest) == seq![34u8] + csv_collapse(s.skip(i + 2)));
                    assert(out@ + csv_collapse(s.skip(i + 2)) =~= (before + seq![34u8])
                        + csv_collapse(s.skip(i + 2)));
                    assert(before + (seq![34u8] + csv_collapse(s.skip(i + 2))) =~= (before
                        + seq![34u8]) + csv_collapse(s.skip(i + 2)));
                }
                i = i + 2;
            } else {
                out.push(inner[i]);
                proof {
                    assert(rest[0] == s[i as int]);
                    assert(!(rest.len() >= 2 && rest[0] == 34 && rest[1] == 34));
                    assert(rest.drop_first() =~= s.skip(i + 1));
                    assert(out@ =~= before + seq![s[i as int]]);
                    assert(csv_collapse(rest) == seq![s[i as int]] + csv_collapse(s.skip(i + 1)));
                    assert(before + (seq![s[i as int]] + csv_collapse(s.skip(i + 1))) =~= (before
                        + seq![s[i as int]]) + csv_collapse(s.skip(i + 1)));
                }
                i = i + 1;
            }
        }
        proof {
            assert(s.skip(s.len() as int) =~= Seq::<u8>::empty());
            assert(out@ + csv_collapse(Seq::<u8>::empty()) =~= out@);
        }
        out
    } else {
        copy_vec(f)
    }
}

// --- scalar and binary forms ---

/// A plain-text scalar as one `.env` line under the default key.
pub open spec fn scalar_env_text(t: Seq<u8>) -> Seq<u8> {
    ascii_bytes("SECRET_VALUE="@) + t + seq![10u8]
}

/// A binary secret as one `.env` line holding its base64 encoding.
pub open spec fn binary_env_text(b: Seq<u8>) -> Seq<u8> {
    ascii_bytes("BINARY_SECRET="@) + b64_of(b) + seq![10u8]
}

/// The single pair a scalar contributes to JSON, YAML and CSV.
pub open spec fn scalar_pairs(t: Seq<u8>) -> Seq<(Seq<u8>, Seq<u8>)> {
    seq![(ascii_bytes("value"@), t)]
}

/// The single pair a binary secret contributes to JSON, YAML and CSV.
pub open spec fn binary_pairs(b: Seq<u8>) -> Seq<(Seq<u8>, Seq<u8>)> {
    seq![(ascii_bytes("binary_data"@), b64_of(b))]
}

/// The size notice printed when a binary secret is previewed.
pub open spec fn binary_preview_text(n: nat) -> Seq<u8> {
    ascii_bytes("Binary secret data ("@) + dec_rep(n) + ascii_bytes(" bytes)\n"@)
}

// --- destinations ---

/// The fixed default filename of each format; Preview has none.
pub open spec fn default_path(target: RenderTarget) -> Seq<char> {
    match target {
        RenderTarget::Preview => ""@,
        RenderTarget::EnvFile => ".env"@,
        RenderTarget::Json => "secret.json"@,
        RenderTarget::Yaml => "secret.yaml"@,
        RenderTarget::Csv => "secret.csv"@,
    }
}

/// The path written to: the caller's, or the target's default.
pub open spec fn out_path(target: RenderTarget, file: Option<Seq<char>>) -> Seq<char> {
    match file {
        Some(p) => p,
        None => default_path(target),
    }
}

pub open spec fn file_model(f: Option<String>) -> Option<Seq<char>> {
    match f {
        Some(p) => Some(p@),
        None => None,
    }
}

/// The default filename of a target, when it has one.
pub fn default_filename(target: RenderTarget) -> (r: Option<String>)
    ensures
        match r {
            Some(p) => !(target is Preview) && p@ == default_path(target),
            None => target is Preview,
        },
{
    match target {
        RenderTarget::Preview => None,
        RenderTarget::EnvFile => Some(".env".to_owned()),
        RenderTarget::Json => Some("secret.json".to_owned()),
        RenderTarget::Yaml => Some("secret.yaml".to_owned()),
        RenderTarget::Csv => Some("secret.csv".to_owned()),
    }
}

fn resolve_path(target: RenderTarget, file: Option<String>) -> (r: String)
    ensures
        r@ == out_path(target, file_model(file)),
{
    match file {
        Some(p) => p,
        None => match default_filename(target) {
            Some(p) => p,
            None => {
                let r = String::new();
                proof {
                    reveal_strlit("");
                    assert(r@ =~= ""@);
                }
                r
            },
        },
    }
}

// --- the render plan ---

/// What the engine does for each payload, target and destination. Preview
/// with an explicit file writes the raw content verbatim instead of a
/// formatted preview; a non-object document is rejected for the Env and CSV
/// object renderings; a plain-text scalar that already holds `=` with no
/// newline passes through the Env rendering unmodified.
pub open spec fn spec_render(
    p: PayloadModel,
    target: RenderTarget,
    file: Option<Seq<char>>,
) -> OutcomeModel {
    match p {
        PayloadModel::StructuredJson(DocModel::Object(ms)) => {
            let ps = object_pairs(ms);
            match target {
                RenderTarget::Preview => match file {
                    Some(f) => OutcomeModel::WriteFile { path: f, content: env_text(ps) },
                    None => OutcomeModel::PrintText { content: env_text(ps) },
                },
                RenderTarget::EnvFile => OutcomeModel::WriteFile {
                    path: out_path(target, file),
                    content: env_text(ps),
                },
                RenderTarget::Json => OutcomeModel::WriteFile {
                    path: out_path(target, file),
                    content: json_object_text(ps),
                },
                RenderTarget::Yaml => OutcomeModel::WriteFile {
                    path: out_path(target, file),
                    content: yaml_object_text(ps),
                },
                RenderTarget::Csv => OutcomeModel::WriteFile {
                    path: out_path(target, file),
                    content: csv_text(ps),
                },
            }
        },
        PayloadModel::StructuredJson(DocModel::Other { compact, pretty, yaml }) => match target {
            RenderTarget::Preview => match file {
                Some(f) => OutcomeModel::WriteFile { path: f, content: compact },
                None => OutcomeModel::NotAnObject,
            },
            RenderTarget::EnvFile => OutcomeModel::NotAnObject,
            RenderTarget::Json => OutcomeModel::WriteFile {
                path: out_path(target, file),
                content: pretty,
            },
            RenderTarget::Yaml => OutcomeModel::WriteFile {
                path: out_path(target, file),
                content: yaml,
            },
            RenderTarget::Csv => OutcomeModel::NotAnObject,
        },
        PayloadModel::PlainText(t) => match target {
            RenderTarget::Preview => match file {
                Some(f) => OutcomeModel::WriteFile { path: f, content: t },
                None => OutcomeModel::PrintText { content: t + seq![10u8] },
            },
            RenderTarget::EnvFile => match text_extract(t) {
                Some(ps) => OutcomeModel::WriteFile {
                    path: out_path(target, file),
                    content: env_text(ps),
                },
                None => if has_byte(t, 61) {
                    OutcomeModel::WriteFile { path: out_path(target, file), content: t }
                } else {
                    OutcomeModel::WriteFile {
                        path: out_path(target, file),
                        content: scalar_env_text(t),
                    }
                },
            },
            RenderTarget::Json => OutcomeModel::WriteFile {
                path: out_path(target, file),
                content: match text_extract(t) {
                    Some(ps) => json_object_text(ps),
                    None => json_object_text(scalar_pairs(t)),
                },
            },
            RenderTarget::Yaml => OutcomeModel::WriteFile {
                path: out_path(target, file),
                content: match text_extract(t) {
                    Some(ps) => yaml_object_text(ps),
                    None => yaml_object_text(scalar_pairs(t)),
                },
            },
            RenderTarget::Csv => OutcomeModel::WriteFile {
                path: out_path(target, file),
                content: match text_extract(t) {
                    Some(ps) => csv_text(ps),
                    None => csv_text(scalar_pairs(t)),
                },
            },
        },
        PayloadModel::Binary(b) => match target {
            RenderTarget::Preview => match file {
                Some(f) => OutcomeModel::WriteFile { path: f, content: b },
                None => OutcomeModel::PrintText { content: binary_preview_text(b.len()) },
            },
            RenderTarget::EnvFile => OutcomeModel::WriteFile {
                path: out_path(target, file),
                content: binary_env_text(b),
            },
            RenderTarget::Json => OutcomeModel::WriteFile {
                path: out_path(target, file),
                content: json_object_text(binary_pairs(b)),
            },
            RenderTarget::Yaml => OutcomeModel::WriteFile {
                path: out_path(target, file),
                content: yaml_object_text(binary_pairs(b)),
            },
            RenderTarget::Csv => OutcomeModel::WriteFile {
                path: out_path(target, file),
                content: csv_text(binary_pairs(b)),
            },
        },
    }
}

/// A one-entry vector carrying a scalar under a fixed key.
fn scalar_entries(key: &str, value: Vec<u8>) -> (r: Vec<Entry>)
    requires
        key.is_ascii(),
    ensures
        entries_model(r@) == seq![(ascii_bytes(key@), value@)],
{
    let k = ascii_to_vec(key);
    let mut r: Vec<Entry> = Vec::new();
    r.push(Entry { key: k, value });
    proof {
        assert(entries_model(r@) =~= seq![(ascii_bytes(key@), value@)]);
    }
    r
}

/// The scalar text as one `.env` line under the default key.
fn scalar_env_line(t: &Vec<u8>) -> (r: Vec<u8>)
    ensures
        r@ == scalar_env_text(t@),
{
    let mut out: Vec<u8> = Vec::new();
    proof {
        reveal_strlit("SECRET_VALUE=");
        assert(vstd::string::is_ascii("SECRET_VALUE="));
    }
    push_str_bytes(&mut out, "SECRET_VALUE=");
    push_all(&mut out, t);
    out.push(10);
    proof {
        assert(out@ =~= scalar_env_text(t@));
    }
    out
}

/// The rendering entry point: picks the renderer for the target, falls back
/// to the scalar or binary form when no entries exist, and decides the
/// destination. Only a failing format encoder yields an error, and only the
/// JSON and YAML encoders run here.
pub fn render(payload: &RawPayload, target: RenderTarget, file: Option<String>) -> (r: Result<
    RenderOutcome,
    EngineError,
>)
    requires
        payload@ matches PayloadModel::Binary(b) ==> 4 * ((b.len() + 2) / 3) <= usize::MAX as int,
    ensures
        r matches Ok(o) ==> o@ == spec_render(payload@, target, file_model(file)),
        r is Err ==> target is Json || target is Yaml,
        payload@ matches PayloadModel::Binary(b) ==> (!(target is Preview) ==> b64_decode_of(
            b64_of(b),
        ) == Some(b)),
{
    match payload {
        RawPayload::StructuredJson(StructuredDoc::Object(ms)) => {
            let entries = extract_object_entries(ms);
            match target {
                RenderTarget::Preview => match file {
                    Some(f) => Ok(RenderOutcome::WriteFile {
                        path: f,
                        content: render_env_entries(&entries),
                    }),
                    None => Ok(RenderOutcome::PrintText { content: render_env_entries(&entries) }),
                },
                RenderTarget::EnvFile => Ok(RenderOutcome::WriteFile {
                    path: resolve_path(target, file),
                    content: render_env_entries(&entries),
                }),
                RenderTarget::Json => match entries_json_pretty(&entries) {
                    Ok(content) => Ok(RenderOutcome::WriteFile {
                        path: resolve_path(target, file),
                        content,
                    }),
                    Err(_) => Err(EngineError::Serialization),
                },
                RenderTarget::Yaml => match entries_yaml(&entries) {
                    Ok(content) => Ok(RenderOutcome::WriteFile {
                        path: resolve_path(target, file),
                        content,
                    }),
                    Err(_) => Err(EngineError::Serialization),
                },
                RenderTarget::Csv => Ok(RenderOutcome::WriteFile {
                    path: resolve_path(target, file),
                    content: render_csv_entries(&entries),
                }),
            }
        },
        RawPayload::StructuredJson(StructuredDoc::Other { compact, pretty, yaml }) => {
            match target {
                RenderTarget::Preview => match file {
                    Some(f) => Ok(RenderOutcome::WriteFile { path: f, content: copy_vec(compact) }),
                    None => Ok(RenderOutcome::NotAnObject),
                },
                RenderTarget::EnvFile => Ok(RenderOutcome::NotAnObject),
                RenderTarget::Json => Ok(RenderOutcome::WriteFile {
                    path: resolve_path(target, file),
                    content: copy_vec(pretty),
                }),
                RenderTarget::Yaml => Ok(RenderOutcome::WriteFile {
                    path: resolve_path(target, file),
                    content: copy_vec(yaml),
                }),
                RenderTarget::Csv => Ok(RenderOutcome::NotAnObject),
            }
        },
        RawPayload::PlainText(t) => {
            match target {
                RenderTarget::Preview => match file {
                    Some(f) => Ok(RenderOutcome::WriteFile { path: f, content: copy_vec(t) }),
                    None => {
                        let mut content = copy_vec(t);
                        content.push(10);
                        proof {
                            assert(content@ =~= t@ + seq![10u8]);
                        }
                        Ok(RenderOutcome::PrintText { content })
                    },
                },
                RenderTarget::EnvFile => match extract_plain_text(t) {
                    Some(entries) => Ok(RenderOutcome::WriteFile {
                        path: resolve_path(target, file),
                        content: render_env_entries(&entries),
                    }),
                    None => {
                        let eq_count = count_byte_vec(t, 61);
                        if eq_count > 0 {
                            Ok(RenderOutcome::WriteFile {
                                path: resolve_path(target, file),
                                content: copy_vec(t),
                            })
                        } else {
                            Ok(RenderOutcome::WriteFile {
                                path: resolve_path(target, file),
                                content: scalar_env_line(t),
                            })
                        }
                    },
                },
                RenderTarget::Json => {
                    let entries = match extract_plain_text(t) {
                        Some(es) => es,
                        None => {
                            proof {
                                reveal_strlit("value");
                                assert(vstd::string::is_ascii("value"));
                            }
                            scalar_entries("value", copy_vec(t))
                        },
                    };
                    match entries_json_pretty(&entries) {
                        Ok(content) => Ok(RenderOutcome::WriteFile {
                            path: resolve_path(target, file),
                            content,
                        }),
                        Err(_) => Err(EngineError::Serialization),
                    }
                },
                RenderTarget::Yaml => {
                    let entries = match extract_plain_text(t) {
                        Some(es) => es,
                        None => {
                            proof {
                                reveal_strlit("value");
                                assert(vstd::string::is_ascii("value"));
                            }
                            scalar_entries("value", copy_vec(t))
                        },
                    };
                    match entries_yaml(&entries) {
                        Ok(content) => Ok(RenderOutcome::WriteFile {
                            path: resolve_path(target, file),
                            content,
                        }),
                        Err(_) => Err(EngineError::Serialization),
                    }
                },
                RenderTarget::Csv => {
                    let entries = match extract_plain_text(t) {
                        Some(es) => es,
                        None => {
                            proof {
                                reveal_strlit("value");
                                assert(vstd::string::is_ascii("value"));
                            }
                            scalar_entries("value", copy_vec(t))
                        },
                    };
                    Ok(RenderOutcome::WriteFile {
                        path: resolve_path(target, file),
                        content: render_csv_entries(&entries),
                    })
                },
            }
        },
        RawPayload::Binary(b) => {
            match target {
                RenderTarget::Preview => match file {
                    Some(f) => Ok(RenderOutcome::WriteFile { path: f, content: copy_vec(b) }),
                    None => {
                        let mut content: Vec<u8> = Vec::new();
                        proof {
                            reveal_strlit("Binary secret data (");
                            assert(vstd::string::is_ascii("Binary secret data ("));
                            reveal_strlit(" bytes)\n");
                            assert(vstd::string::is_ascii(" bytes)\n"));
                        }
                        push_str_bytes(&mut content, "Binary secret data (");
                        let digits = to_decimal(b.len() as u64);
                        push_all(&mut content, &digits);
                        push_str_bytes(&mut content, " bytes)\n");
                        proof {
                            assert(content@ =~= binary_preview_text(b@.len()));
                        }
                        Ok(RenderOutcome::PrintText { content })
                    },
                },
                RenderTarget::EnvFile => {
                    let encoded = b64_encode(b);
                    let mut content: Vec<u8> = Vec::new();
                    proof {
                        reveal_strlit("BINARY_SECRET=");
                        assert(vstd::string::is_ascii("BINARY_SECRET="));
                    }
                    push_str_bytes(&mut content, "BINARY_SECRET=");
                    push_all(&mut content, &encoded);
                    content.push(10);
                    proof {
                        assert(content@ =~= binary_env_text(b@));
                    }
                    Ok(RenderOutcome::WriteFile { path: resolve_path(target, file), content })
                },
                RenderTarget::Json => {
                    proof {
                        reveal_strlit("binary_data");
                        assert(vstd::string::is_ascii("binary_data"));
                    }
                    let entries = scalar_entries("binary_data", b64_encode(b));
                    match entries_json_pretty(&entries) {
                        Ok(content) => Ok(RenderOutcome::WriteFile {
                            path: resolve_path(target, file),
                            content,
                        }),
                        Err(_) => Err(EngineError::Serialization),
                    }
                },
                RenderTarget::Yaml => {
                    proof {
                        reveal_strlit("binary_data");
                        assert(vstd::string::is_ascii("binary_data"));
                    }
                    let entries = scalar_entries("binary_data", b64_encode(b));
                    match entries_yaml(&entries) {
                        Ok(content) => Ok(RenderOutcome::WriteFile {
                            path: resolve_path(target, file),
                            content,
                        }),
                        Err(_) => Err(EngineError::Serialization),
                    }
                },
                RenderTarget::Csv => {
                    proof {
                        reveal_strlit("binary_data");
                        assert(vstd::string::is_ascii("binary_data"));
                    }
                    let entries = scalar_entries("binary_data", b64_encode(b));
                    Ok(RenderOutcome::WriteFile {
                        path: resolve_path(target, file),
                        content: render_csv_entries(&entries),
                    })
                },
            }
        },
    }
}

} // verus!
