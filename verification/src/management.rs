//! Project management: generated TypeScript clients, app module templates,
//! migration file names and app names.
use vstd::prelude::*;

use crate::model::FieldType;
use crate::module::{endpoints_view, ApiEndpoint, ApiEndpointView, ApiField, ApiFieldView, ApiFilterView};
use crate::text::{
    chars_range, ends_with, is_alnum, is_digit, is_lower, is_upper, lower_char, push_char, push_chars,
    nat_text, str_ends_with, string_from_chars, to_chars, to_lower, trim_char, trim_end_char, trim_matches,
    trim_start_char, u64_text, upper_char, str_le, text_le, lemma_str_le_refl, lemma_str_le_total,
    lemma_str_le_antisym, lemma_str_le_trans, join, join_strings, strings_view, str_eq, trim_end_matches,
};

verus! {

/// The fixed client module that the generated APIs import.
pub const API_CLIENT_TS: &'static str = r#"import { invoke } from "@tauri-apps/api/core";

export interface BaseEntity {
  id?: number;
}

export interface ListParams {
  ordering?: string;
  limit?: number;
  offset?: number;
  [key: string]: string | number | boolean | null | undefined;
}

export interface PaginatedResponse<T> {
  count: number;
  results: T[];
}

export interface ApiError {
  code: string;
  detail: string;
}

export interface ModelApi<
  T extends BaseEntity,
  CreateDTO = Partial<T>,
  UpdateDTO = Partial<T>,
  Params extends ListParams = ListParams,
> {
  list: (params?: Params) => Promise<PaginatedResponse<T>>;
  retrieve: (id: number) => Promise<T>;
  create: (payload: CreateDTO) => Promise<T>;
  update: (id: number, payload: UpdateDTO) => Promise<T>;
  remove: (id: number) => Promise<{ deleted: true }>;
}

export function createModelApi<
  T extends BaseEntity,
  CreateDTO = Partial<T>,
  UpdateDTO = Partial<T>,
  Params extends ListParams = ListParams,
>(resource: string): ModelApi<T, CreateDTO, UpdateDTO, Params> {
  return {
    list(params) {
      return invoke<PaginatedResponse<T>>("che_api", {
        request: { resource, action: "list", params: params ?? {} },
      });
    },

    retrieve(id) {
      return invoke<T>("che_api", {
        request: { resource, action: "retrieve", id },
      });
    },

    create(payload) {
      return invoke<T>("che_api", {
        request: { resource, action: "create", payload },
      });
    },

    update(id, payload) {
      return invoke<T>("che_api", {
        request: { resource, action: "update", id, payload },
      });
    },

    remove(id) {
      return invoke<{ deleted: true }>("che_api", {
        request: { resource, action: "delete", id },
      });
    },
  };
}
"#;

pub open spec fn ts_base(ty: FieldType) -> Seq<char> {
    match ty {
        FieldType::Integer => "number"@,
        FieldType::Real => "number"@,
        FieldType::Text => "string"@,
        FieldType::Boolean => "boolean"@,
    }
}

/// The TypeScript type of a column type, with `| null` when nullable.
pub open spec fn ts_type_spec(ty: FieldType, nullable: bool) -> Seq<char> {
    if nullable {
        ts_base(ty) + " | null"@
    } else {
        ts_base(ty)
    }
}

/// The TypeScript type of a column.
pub fn ts_type(ty: FieldType, nullable: bool) -> (r: String)
    ensures
        r@ == ts_type_spec(ty, nullable),
{
    let base = match ty {
        FieldType::Integer | FieldType::Real => "number",
        FieldType::Text => "string",
        FieldType::Boolean => "boolean",
    };
    let mut s = String::from_str(base);
    if nullable {
        s.append(" | null");
    }
    s
}

/// The TypeScript type of a field in a response: a related field has the
/// related model's type.
pub open spec fn response_ts_type_spec(f: ApiFieldView) -> Seq<char> {
    match f.related_model {
        Some(m) => if f.nullable {
            m + " | null"@
        } else {
            m
        },
        None => ts_type_spec(f.ty, f.nullable),
    }
}

pub fn response_ts_type(field: &ApiField) -> (r: String)
    ensures
        r@ == response_ts_type_spec(field@),
{
    match &field.related_model {
        Some(m) => {
            let mut s = m.clone();
            if field.nullable {
                s.append(" | null");
            }
            s
        },
        None => ts_type(field.ty, field.nullable),
    }
}

/// A create field is optional unless it is required and has no default.
pub open spec fn optional_marker_spec(f: ApiFieldView) -> Seq<char> {
    if f.required && !f.has_default {
        Seq::empty()
    } else {
        "?"@
    }
}

pub fn optional_marker(field: &ApiField) -> (r: &'static str)
    ensures
        r@ == optional_marker_spec(field@),
{
    if field.required && !field.has_default {
        proof {
            reveal_strlit("");
        }
        ""
    } else {
        "?"
    }
}

/// The response interface lines: every field but the write-only ones.
pub open spec fn response_lines(fields: Seq<ApiFieldView>) -> Seq<char>
    decreases fields.len(),
{
    if fields.len() == 0 {
        Seq::empty()
    } else {
        let f = fields.last();
        response_lines(fields.drop_last()) + if f.write_only {
            Seq::empty()
        } else {
            "  "@ + f.name + ": "@ + response_ts_type_spec(f) + ";\n"@
        }
    }
}

/// The create interface lines: every field but the read-only ones.
pub open spec fn create_lines(fields: Seq<ApiFieldView>) -> Seq<char>
    decreases fields.len(),
{
    if fields.len() == 0 {
        Seq::empty()
    } else {
        let f = fields.last();
        create_lines(fields.drop_last()) + if f.read_only {
            Seq::empty()
        } else {
            "  "@ + f.name + optional_marker_spec(f) + ": "@ + ts_type_spec(f.ty, f.nullable) + ";\n"@
        }
    }
}

/// The update interface lines: every field but the read-only ones, all optional.
pub open spec fn update_lines(fields: Seq<ApiFieldView>) -> Seq<char>
    decreases fields.len(),
{
    if fields.len() == 0 {
        Seq::empty()
    } else {
        let f = fields.last();
        update_lines(fields.drop_last()) + if f.read_only {
            Seq::empty()
        } else {
            "  "@ + f.name + "?: "@ + ts_type_spec(f.ty, f.nullable) + ";\n"@
        }
    }
}

/// The list parameter lines: one optional parameter per filter.
pub open spec fn filter_lines(filters: Seq<ApiFilterView>) -> Seq<char>
    decreases filters.len(),
{
    if filters.len() == 0 {
        Seq::empty()
    } else {
        let f = filters.last();
        filter_lines(filters.drop_last()) + "  "@ + f.name + "?: "@ + ts_type_spec(f.ty, f.nullable) + ";\n"@
    }
}

/// The four interfaces of an endpoint: the model, its create and update
/// payloads, and its list parameters.
pub open spec fn model_block(e: ApiEndpointView) -> Seq<char> {
    "export interface "@ + e.model_name + " {\n"@ + response_lines(e.fields) + "}\n\n"@
        + "export interface "@ + e.model_name + "Create {\n"@ + create_lines(e.fields) + "}\n\n"@
        + "export interface "@ + e.model_name + "Update {\n"@ + update_lines(e.fields) + "}\n\n"@
        + "export interface "@ + e.model_name + "ListParams extends ListParams {\n"@ + filter_lines(e.filters) + "}\n\n"@
}

pub open spec fn model_blocks(es: Seq<ApiEndpointView>) -> Seq<char>
    decreases es.len(),
{
    if es.len() == 0 {
        Seq::empty()
    } else {
        model_blocks(es.drop_last()) + model_block(es.last())
    }
}

/// The generated `models.ts`.
pub open spec fn models_ts_spec(es: Seq<ApiEndpointView>) -> Seq<char> {
    "import type { ListParams } from \"./api_client\";\n\n"@ + model_blocks(es)
}

fn append_response_lines(out: &mut String, fields: &Vec<ApiField>)
    ensures
        final(out)@ == old(out)@ + response_lines(crate::module::api_fields_seq(fields@)),
{
    let ghost fv = crate::module::api_fields_seq(fields@);
    let mut i: usize = 0;
    while i < fields.len()
        invariant
            i <= fields.len(),
            fv == crate::module::api_fields_seq(fields@),
            out@ == old(out)@ + response_lines(fv.take(i as int)),
        decreases fields.len() - i,
    {
        proof {
            assert(fv.take(i + 1).drop_last() =~= fv.take(i as int));
            assert(fv.take(i + 1).last() == fields@[i as int]@);
        }
        let f = &fields[i];
        let ghost before = out@;
        if !f.write_only {
            out.append("  ");
            out.append(f.name.as_str());
            out.append(": ");
            let t = response_ts_type(f);
            out.append(t.as_str());
            out.append(";\n");
        }
        proof {
            assert(out@ =~= old(out)@ + response_lines(fv.take(i + 1)));
        }
        i = i + 1;
    }
    assert(fv.take(fields.len() as int) =~= fv);
}

fn append_create_lines(out: &mut String, fields: &Vec<ApiField>)
    ensures
        final(out)@ == old(out)@ + create_lines(crate::module::api_fields_seq(fields@)),
{
    let ghost fv = crate::module::api_fields_seq(fields@);
    let mut i: usize = 0;
    while i < fields.len()
        invariant
            i <= fields.len(),
            fv == crate::module::api_fields_seq(fields@),
            out@ == old(out)@ + create_lines(fv.take(i as int)),
        decreases fields.len() - i,
    {
        proof {
            assert(fv.take(i + 1).drop_last() =~= fv.take(i as int));
            assert(fv.take(i + 1).last() == fields@[i as int]@);
        }
        let f = &fields[i];
        if !f.read_only {
            out.append("  ");
            out.append(f.name.as_str());
            out.append(optional_marker(f));
            out.append(": ");
            let t = ts_type(f.ty, f.nullable);
            out.append(t.as_str());
            out.append(";\n");
        }
        proof {
            assert(out@ =~= old(out)@ + create_lines(fv.take(i + 1)));
        }
        i = i + 1;
    }
    assert(fv.take(fields.len() as int) =~= fv);
}

fn append_update_lines(out: &mut String, fields: &Vec<ApiField>)
    ensures
        final(out)@ == old(out)@ + update_lines(crate::module::api_fields_seq(fields@)),
{
    let ghost fv = crate::module::api_fields_seq(fields@);
    let mut i: usize = 0;
    while i < fields.len()
        invariant
            i <= fields.len(),
            fv == crate::module::api_fields_seq(fields@),
            out@ == old(out)@ + update_lines(fv.take(i as int)),
        decreases fields.len() - i,
    {
        proof {
            assert(fv.take(i + 1).drop_last() =~= fv.take(i as int));
            assert(fv.take(i + 1).last() == fields@[i as int]@);
        }
        let f = &fields[i];
        if !f.read_only {
            out.append("  ");
            out.append(f.name.as_str());
            out.append("?: ");
            let t = ts_type(f.ty, f.nullable);
            out.append(t.as_str());
            out.append(";\n");
        }
        proof {
            assert(out@ =~= old(out)@ + update_lines(fv.take(i + 1)));
        }
        i = i + 1;
    }
    assert(fv.take(fields.len() as int) =~= fv);
}

fn append_filter_lines(out: &mut String, filters: &Vec<crate::module::ApiFilter>)
    ensures
        final(out)@ == old(out)@ + filter_lines(crate::module::api_filters_seq(filters@)),
{
    let ghost fv = crate::module::api_filters_seq(filters@);
    let mut i: usize = 0;
    while i < filters.len()
        invariant
            i <= filters.len(),
            fv == crate::module::api_filters_seq(filters@),
            out@ == old(out)@ + filter_lines(fv.take(i as int)),
        decreases filters.len() - i,
    {
        proof {
            assert(fv.take(i + 1).drop_last() =~= fv.take(i as int));
            assert(fv.take(i + 1).last() == filters@[i as int]@);
        }
        let f = &filters[i];
        out.append("  ");
        out.append(f.name.as_str());
        out.append("?: ");
        let t = ts_type(f.ty, f.nullable);
        out.append(t.as_str());
        out.append(";\n");
        proof {
            assert(out@ =~= old(out)@ + filter_lines(fv.take(i + 1)));
        }
        i = i + 1;
    }
    assert(fv.take(filters.len() as int) =~= fv);
}

fn append_model_block(out: &mut String, e: &ApiEndpoint)
    ensures
        final(out)@ == old(out)@ + model_block(e@),
{
    let m = e.model_name.as_str();
    out.append("export interface ");
    out.append(m);
    out.append(" {\n");
    append_response_lines(out, &e.fields);
    out.append("}\n\n");
    out.append("export interface ");
    out.append(m);
    out.append("Create {\n");
    append_create_lines(out, &e.fields);
    out.append("}\n\n");
    out.append("export interface ");
    out.append(m);
    out.append("Update {\n");
    append_update_lines(out, &e.fields);
    out.append("}\n\n");
    out.append("export interface ");
    out.append(m);
    out.append("ListParams extends ListParams {\n");
    append_filter_lines(out, &e.filters);
    out.append("}\n\n");
    assert(out@ =~= old(out)@ + model_block(e@));
}

/// The generated `models.ts`: the interfaces of each endpoint, in order.
pub fn models_ts(endpoints: &Vec<ApiEndpoint>) -> (r: String)
    ensures
        r@ == models_ts_spec(endpoints_view(endpoints@)),
{
    let ghost ev = endpoints_view(endpoints@);
    let mut out = String::from_str("import type { ListParams } from \"./api_client\";\n\n");
    let ghost head = out@;
    let mut i: usize = 0;
    while i < endpoints.len()
        invariant
            i <= endpoints.len(),
            ev == endpoints_view(endpoints@),
            out@ == head + model_blocks(ev.take(i as int)),
        decreases endpoints.len() - i,
    {
        proof {
            assert(ev.take(i + 1).drop_last() =~= ev.take(i as int));
            assert(ev.take(i + 1).last() == endpoints@[i as int]@);
        }
        append_model_block(&mut out, &endpoints[i]);
        proof {
            assert(out@ =~= head + model_blocks(ev.take(i + 1)));
        }
        i = i + 1;
    }
    assert(ev.take(endpoints.len() as int) =~= ev);
    out
}

/// The text with its first character in ASCII lowercase.
pub open spec fn lower_first_spec(s: Seq<char>) -> Seq<char> {
    if s.len() == 0 {
        Seq::empty()
    } else {
        seq![lower_char(s[0])] + s.skip(1)
    }
}

pub fn lower_first(value: &str) -> (r: String)
    ensures
        r@ == lower_first_spec(value@),
{
    let cs = to_chars(value);
    if cs.len() == 0 {
        return String::new();
    }
    let mut out = String::new();
    push_char(&mut out, to_lower(cs[0]));
    let rest = chars_range(&cs, 1, cs.len());
    push_chars(&mut out, &rest);
    assert(out@ =~= lower_first_spec(value@));
    out
}

pub open spec fn import_lines(es: Seq<ApiEndpointView>) -> Seq<char>
    decreases es.len(),
{
    if es.len() == 0 {
        Seq::empty()
    } else {
        let m = es.last().model_name;
        import_lines(es.drop_last()) + "  "@ + m + ",\n"@ + "  "@ + m + "Create,\n"@ + "  "@ + m + "Update,\n"@ + "  "@ + m + "ListParams,\n"@
    }
}

pub open spec fn api_lines(es: Seq<ApiEndpointView>) -> Seq<char>
    decreases es.len(),
{
    if es.len() == 0 {
        Seq::empty()
    } else {
        let e = es.last();
        let m = e.model_name;
        api_lines(es.drop_last()) + "export const "@ + lower_first_spec(m) + "Api = createModelApi<"@ + m + ", "@ + m
            + "Create, "@ + m + "Update, "@ + m + "ListParams>(\""@ + e.resource + "\");\n"@
    }
}

/// The generated `api.ts`: one model API per endpoint.
pub open spec fn api_ts_spec(es: Seq<ApiEndpointView>) -> Seq<char> {
    let head = "import { createModelApi } from \"./api_client\";\n"@;
    if es.len() == 0 {
        head + "\n"@
    } else {
        head + "import type {\n"@ + import_lines(es) + "} from \"./models\";\n\n"@ + api_lines(es)
    }
}

/// The generated `api.ts`.
pub fn api_ts(endpoints: &Vec<ApiEndpoint>) -> (r: String)
    ensures
        r@ == api_ts_spec(endpoints_view(endpoints@)),
{
    let ghost ev = endpoints_view(endpoints@);
    let mut out = String::from_str("import { createModelApi } from \"./api_client\";\n");
    let ghost head = out@;
    if endpoints.len() == 0 {
        out.append("\n");
        return out;
    }
    out.append("import type {\n");
    let ghost head2 = out@;
    let mut i: usize = 0;
    while i < endpoints.len()
        invariant
            i <= endpoints.len(),
            ev == endpoints_view(endpoints@),
            out@ == head2 + import_lines(ev.take(i as int)),
        decreases endpoints.len() - i,
    {
        proof {
            assert(ev.take(i + 1).drop_last() =~= ev.take(i as int));
            assert(ev.take(i + 1).last() == endpoints@[i as int]@);
        }
        let m = endpoints[i].model_name.as_str();
        out.append("  ");
        out.append(m);
        out.append(",\n");
        out.append("  ");
        out.append(m);
        out.append("Create,\n");
        out.append("  ");
        out.append(m);
        out.append("Update,\n");
        out.append("  ");
        out.append(m);
        out.append("ListParams,\n");
        proof {
            assert(out@ =~= head2 + import_lines(ev.take(i + 1)));
        }
        i = i + 1;
    }
    assert(ev.take(endpoints.len() as int) =~= ev);
    out.append("} from \"./models\";\n\n");
    let ghost head3 = out@;
    let mut k: usize = 0;
    while k < endpoints.len()
        invariant
            k <= endpoints.len(),
            ev == endpoints_view(endpoints@),
            out@ == head3 + api_lines(ev.take(k as int)),
        decreases endpoints.len() - k,
    {
        proof {
            assert(ev.take(k + 1).drop_last() =~= ev.take(k as int));
            assert(ev.take(k + 1).last() == endpoints@[k as int]@);
        }
        let e = &endpoints[k];
        let m = e.model_name.as_str();
        out.append("export const ");
        let lf = lower_first(m);
        out.append(lf.as_str());
        out.append("Api = createModelApi<");
        out.append(m);
        out.append(", ");
        out.append(m);
        out.append("Create, ");
        out.append(m);
        out.append("Update, ");
        out.append(m);
        out.append("ListParams>(\"");
        out.append(e.resource.as_str());
        out.append("\");\n");
        proof {
            assert(out@ =~= head3 + api_lines(ev.take(k + 1)));
        }
        k = k + 1;
    }
    assert(ev.take(endpoints.len() as int) =~= ev);
    assert(out@ =~= api_ts_spec(ev));
    out
}

/// The camel-case form of a snake-case name: underscores are dropped and the
/// first character of each word is made ASCII uppercase.
pub open spec fn camel_from(s: Seq<char>, word_start: bool) -> Seq<char>
    decreases s.len(),
{
    if s.len() == 0 {
        Seq::empty()
    } else if s[0] == '_' {
        camel_from(s.skip(1), true)
    } else {
        seq![
            if word_start {
                upper_char(s[0])
            } else {
                s[0]
            },
        ] + camel_from(s.skip(1), false)
    }
}

pub open spec fn camel_case_spec(s: Seq<char>) -> Seq<char> {
    camel_from(s, true)
}

pub fn camel_case(name: &str) -> (r: String)
    ensures
        r@ == camel_case_spec(name@),
{
    let cs = to_chars(name);
    let mut out: Vec<char> = Vec::new();
    let mut start = true;
    let mut i: usize = 0;
    assert(cs@.skip(0) =~= cs@);
    while i < cs.len()
        invariant
            i <= cs.len(),
            cs@ == name@,
            out@ + camel_from(cs@.skip(i as int), start) == camel_case_spec(name@),
        decreases cs.len() - i,
    {
        let ghost rest = cs@.skip(i as int);
        assert(rest.skip(1) =~= cs@.skip(i + 1));
        assert(rest[0] == cs@[i as int]);
        let c = cs[i];
        if c == '_' {
            start = true;
        } else {
            let d = if start {
                crate::text::to_upper(c)
            } else {
                c
            };
            out.push(d);
            start = false;
            assert(out@ + camel_from(cs@.skip(i + 1), start) =~= camel_case_spec(name@));
        }
        i = i + 1;
    }
    assert(out@ =~= camel_case_spec(name@));
    string_from_chars(&out)
}

/// The singular of a plural app name: `ies` becomes `y`, a final `ss` stays,
/// and a final `s` is dropped.
pub open spec fn singular_spec(name: Seq<char>) -> Seq<char> {
    if ends_with(name, "ies"@) {
        name.subrange(0, name.len() - 3) + "y"@
    } else if ends_with(name, "ss"@) {
        name
    } else if ends_with(name, "s"@) {
        name.drop_last()
    } else {
        name
    }
}

pub fn singular_name(name: &str) -> (r: String)
    ensures
        r@ == singular_spec(name@),
{
    let cs = to_chars(name);
    if str_ends_with(name, "ies") {
        proof {
            reveal_strlit("ies");
        }
        let stem = chars_range(&cs, 0, cs.len() - 3);
        let mut s = string_from_chars(&stem);
        s.append("y");
        s
    } else if str_ends_with(name, "ss") {
        String::from_str(name)
    } else if str_ends_with(name, "s") {
        proof {
            reveal_strlit("s");
        }
        let stem = chars_range(&cs, 0, cs.len() - 1);
        assert(stem@ =~= name@.drop_last());
        string_from_chars(&stem)
    } else {
        String::from_str(name)
    }
}

pub open spec fn singular_camel_spec(name: Seq<char>) -> Seq<char> {
    camel_case_spec(singular_spec(name))
}

pub fn singular_camel(name: &str) -> (r: String)
    ensures
        r@ == singular_camel_spec(name@),
{
    let s = singular_name(name);
    camel_case(s.as_str())
}

pub fn plural_camel(name: &str) -> (r: String)
    ensures
        r@ == camel_case_spec(name@),
{
    camel_case(name)
}

/// The slug text before trimming: ASCII letters and digits in lowercase, any
/// run of other characters as one `_`.
pub open spec fn slug_raw(s: Seq<char>) -> Seq<char>
    decreases s.len(),
{
    if s.len() == 0 {
        Seq::empty()
    } else {
        let r = slug_raw(s.drop_last());
        let c = s.last();
        if is_alnum(c) {
            r.push(lower_char(c))
        } else if r.len() > 0 && r.last() == '_' {
            r
        } else {
            r.push('_')
        }
    }
}

/// A migration name slug: the raw slug without leading and trailing `_`, or
/// `auto` when nothing is left.
pub open spec fn slugify_spec(s: Seq<char>) -> Seq<char> {
    let t = trim_char(slug_raw(s), '_');
    if t.len() == 0 {
        "auto"@
    } else {
        t
    }
}

/// A character of a slug: a lowercase ASCII letter, a digit or `_`.
pub open spec fn slug_char(c: char) -> bool {
    is_lower(c) || is_digit(c) || c == '_'
}

/// A text that names a migration file safely: not empty, made of slug
/// characters, with no `_` at either end and never two `_` in a row.
pub open spec fn is_slug(t: Seq<char>) -> bool {
    &&& t.len() > 0
    &&& forall|k: int| 0 <= k < t.len() ==> slug_char(#[trigger] t[k])
    &&& t[0] != '_'
    &&& t.last() != '_'
    &&& forall|k: int| 0 <= k < t.len() - 1 ==> !(#[trigger] t[k] == '_' && t[k + 1] == '_')
}

/// Slug characters with never two `_` in a row.
pub open spec fn slug_body(t: Seq<char>) -> bool {
    &&& forall|k: int| 0 <= k < t.len() ==> slug_char(#[trigger] t[k])
    &&& forall|k: int| 0 <= k < t.len() - 1 ==> !(#[trigger] t[k] == '_' && t[k + 1] == '_')
}

proof fn lemma_slug_raw_body(s: Seq<char>)
    ensures
        slug_body(slug_raw(s)),
    decreases s.len(),
{
    if s.len() > 0 {
        lemma_slug_raw_body(s.drop_last());
        let r = slug_raw(s.drop_last());
        let t = slug_raw(s);
        let c = s.last();
        if is_alnum(c) {
            assert(t == r.push(lower_char(c)));
            assert(slug_char(lower_char(c))) by {
                if is_upper(c) {
                    assert(is_lower(lower_char(c)));
                }
            }
            assert forall|k: int| 0 <= k < t.len() implies slug_char(#[trigger] t[k]) by {
                if k < r.len() {
                    assert(t[k] == r[k]);
                }
            }
            assert forall|k: int| 0 <= k < t.len() - 1 implies !(#[trigger] t[k] == '_' && t[k + 1] == '_') by {
                if k + 1 < r.len() {
                    assert(t[k] == r[k] && t[k + 1] == r[k + 1]);
                } else {
                    assert(t[k + 1] == lower_char(c));
                }
            }
        } else if !(r.len() > 0 && r.last() == '_') {
            assert(t == r.push('_'));
            assert forall|k: int| 0 <= k < t.len() implies slug_char(#[trigger] t[k]) by {
                if k < r.len() {
                    assert(t[k] == r[k]);
                }
            }
            assert forall|k: int| 0 <= k < t.len() - 1 implies !(#[trigger] t[k] == '_' && t[k + 1] == '_') by {
                if k + 1 < r.len() {
                    assert(t[k] == r[k] && t[k + 1] == r[k + 1]);
                } else {
                    assert(t[k] == r[k]);
                }
            }
        }
    }
}

proof fn lemma_trim_start_body(t: Seq<char>)
    requires
        slug_body(t),
    ensures
        slug_body(trim_start_char(t, '_')),
        trim_start_char(t, '_').len() > 0 ==> trim_start_char(t, '_')[0] != '_',
    decreases t.len(),
{
    if t.len() > 0 && t[0] == '_' {
        let u = t.skip(1);
        assert forall|k: int| 0 <= k < u.len() implies slug_char(#[trigger] u[k]) by {
            assert(u[k] == t[k + 1]);
        }
        assert forall|k: int| 0 <= k < u.len() - 1 implies !(#[trigger] u[k] == '_' && u[k + 1] == '_') by {
            assert(u[k] == t[k + 1] && u[k + 1] == t[k + 2]);
        }
        lemma_trim_start_body(u);
    }
}

proof fn lemma_trim_end_body(t: Seq<char>)
    requires
        slug_body(t),
        t.len() > 0 ==> t[0] != '_',
    ensures
        slug_body(trim_end_char(t, '_')),
        trim_end_char(t, '_').len() > 0 ==> trim_end_char(t, '_')[0] != '_' && trim_end_char(t, '_').last() != '_',
    decreases t.len(),
{
    if t.len() > 0 && t.last() == '_' {
        let u = t.drop_last();
        assert forall|k: int| 0 <= k < u.len() implies slug_char(#[trigger] u[k]) by {
            assert(u[k] == t[k]);
        }
        assert forall|k: int| 0 <= k < u.len() - 1 implies !(#[trigger] u[k] == '_' && u[k + 1] == '_') by {
            assert(u[k] == t[k] && u[k + 1] == t[k + 1]);
        }
        if u.len() > 0 {
            assert(u[0] == t[0]);
        }
        lemma_trim_end_body(u);
    }
}

/// The slug of any migration name names a file safely: it is not empty, it
/// is made of lowercase ASCII letters, digits and `_`, it has no `_` at
/// either end and never two `_` in a row.
pub proof fn law_slug_is_file_safe(name: Seq<char>)
    ensures
        is_slug(slugify_spec(name)),
{
    lemma_slug_raw_body(name);
    let r = slug_raw(name);
    lemma_trim_start_body(r);
    let a = trim_start_char(r, '_');
    lemma_trim_end_body(a);
    let t = trim_char(r, '_');
    if t.len() == 0 {
        reveal_strlit("auto");
        let auto = "auto"@;
        assert(auto.len() == 4);
        assert forall|k: int| 0 <= k < auto.len() implies slug_char(#[trigger] auto[k]) by {
            assert(is_lower(auto[k]));
        }
    }
}

/// The text has an ASCII letter or digit.
pub open spec fn has_alnum(s: Seq<char>) -> bool {
    exists|i: int| 0 <= i < s.len() && is_alnum(#[trigger] s[i])
}

/// Every character of the text is `_`.
pub open spec fn all_underscores(x: Seq<char>) -> bool {
    forall|i: int| 0 <= i < x.len() ==> #[trigger] x[i] == '_'
}

proof fn lemma_slug_raw_underscores(s: Seq<char>)
    ensures
        all_underscores(slug_raw(s)) <==> !has_alnum(s),
    decreases s.len(),
{
    if s.len() > 0 {
        let d = s.drop_last();
        let c = s.last();
        lemma_slug_raw_underscores(d);
        let r = slug_raw(d);
        let t = slug_raw(s);
        if has_alnum(d) {
            let i = choose|i: int| 0 <= i < d.len() && is_alnum(#[trigger] d[i]);
            assert(s[i] == d[i]);
        }
        if has_alnum(s) && !has_alnum(d) {
            let i = choose|i: int| 0 <= i < s.len() && is_alnum(#[trigger] s[i]);
            if i < d.len() {
                assert(d[i] == s[i]);
            }
            assert(is_alnum(c));
        }
        if is_alnum(c) {
            assert(t[t.len() - 1] == lower_char(c));
            assert(lower_char(c) != '_');
            assert(has_alnum(s)) by {
                assert(is_alnum(s[s.len() - 1]));
            }
        } else {
            if !has_alnum(s) {
                assert(!has_alnum(d));
            }
            assert forall|i: int| 0 <= i < t.len() && all_underscores(r) implies #[trigger] t[i] == '_' by {
                if i < r.len() {
                    assert(t[i] == r[i]);
                }
            }
            if all_underscores(t) {
                assert forall|i: int| 0 <= i < r.len() implies #[trigger] r[i] == '_' by {
                    assert(t[i] == r[i]);
                }
            }
        }
        if all_underscores(t) && is_alnum(c) {
            assert(t[t.len() - 1] == '_');
        }
        if !all_underscores(r) && is_alnum(c) {
            let i = choose|i: int| 0 <= i < r.len() && r[i] != '_';
            assert(t[i] == r[i]);
        }
    }
}

proof fn lemma_trim_start_empty(x: Seq<char>)
    ensures
        (trim_start_char(x, '_').len() == 0) <==> all_underscores(x),
        trim_start_char(x, '_').len() > 0 ==> trim_start_char(x, '_')[0] != '_',
    decreases x.len(),
{
    if x.len() > 0 && x[0] == '_' {
        let u = x.skip(1);
        lemma_trim_start_empty(u);
        if all_underscores(u) {
            assert forall|i: int| 0 <= i < x.len() implies #[trigger] x[i] == '_' by {
                if i > 0 {
                    assert(x[i] == u[i - 1]);
                }
            }
        }
        if all_underscores(x) {
            assert forall|i: int| 0 <= i < u.len() implies #[trigger] u[i] == '_' by {
                assert(u[i] == x[i + 1]);
            }
        }
    } else if x.len() > 0 {
        assert(x[0] != '_');
    }
}

proof fn lemma_trim_end_keeps_first(u: Seq<char>)
    requires
        u.len() > 0,
        u[0] != '_',
    ensures
        trim_end_char(u, '_').len() > 0,
    decreases u.len(),
{
    if u.last() == '_' {
        assert(u.len() > 1);
        assert(u.drop_last()[0] == u[0]);
        lemma_trim_end_keeps_first(u.drop_last());
    }
}

/// The slug falls back to `auto` exactly when the name has no ASCII letter
/// or digit; otherwise it is the name's slug, which may itself be `auto`
/// (for the name `auto`).
pub proof fn law_slug_falls_back_without_alnum(name: Seq<char>)
    ensures
        (trim_char(slug_raw(name), '_').len() == 0) <==> !has_alnum(name),
        !has_alnum(name) ==> slugify_spec(name) == "auto"@,
        has_alnum(name) ==> slugify_spec(name) == trim_char(slug_raw(name), '_'),
{
    let r = slug_raw(name);
    lemma_slug_raw_underscores(name);
    lemma_trim_start_empty(r);
    let u = trim_start_char(r, '_');
    if u.len() > 0 {
        lemma_trim_end_keeps_first(u);
    }
}

proof fn lemma_slug_raw_of_slug(t: Seq<char>)
    requires
        slug_body(t),
        t.len() > 0 ==> t[0] != '_',
    ensures
        slug_raw(t) == t,
    decreases t.len(),
{
    if t.len() > 0 {
        let d = t.drop_last();
        assert forall|k: int| 0 <= k < d.len() implies slug_char(#[trigger] d[k]) by {
            assert(d[k] == t[k]);
        }
        assert forall|k: int| 0 <= k < d.len() - 1 implies !(#[trigger] d[k] == '_' && d[k + 1] == '_') by {
            assert(d[k] == t[k] && d[k + 1] == t[k + 1]);
        }
        if d.len() > 0 {
            assert(d[0] == t[0]);
        }
        lemma_slug_raw_of_slug(d);
        let c = t.last();
        assert(slug_char(t[t.len() - 1]));
        if c == '_' {
            assert(t.len() > 1);
            assert(!(t[t.len() - 2] == '_' && t[t.len() - 1] == '_'));
            assert(d.last() == t[t.len() - 2]);
        } else {
            assert(is_alnum(c));
            assert(lower_char(c) == c);
        }
        assert(t =~= d.push(c));
    }
}

/// A slug is its own slug: slugifying twice changes nothing.
pub proof fn law_slugify_is_idempotent(name: Seq<char>)
    ensures
        slugify_spec(slugify_spec(name)) == slugify_spec(name),
{
    law_slug_is_file_safe(name);
    let t = slugify_spec(name);
    lemma_slug_raw_of_slug(t);
    assert(trim_start_char(t, '_') == t);
    assert(trim_end_char(t, '_') == t);
}

pub fn slugify(value: &str) -> (r: String)
    ensures
        r@ == slugify_spec(value@),
{
    let cs = to_chars(value);
    let mut out: Vec<char> = Vec::new();
    let mut i: usize = 0;
    while i < cs.len()
        invariant
            i <= cs.len(),
            cs@ == value@,
            out@ == slug_raw(cs@.take(i as int)),
        decreases cs.len() - i,
    {
        assert(cs@.take(i + 1).drop_last() =~= cs@.take(i as int));
        let c = cs[i];
        if ('a' <= c && c <= 'z') || ('A' <= c && c <= 'Z') || ('0' <= c && c <= '9') {
            out.push(to_lower(c));
        } else if !(out.len() > 0 && out[out.len() - 1] == '_') {
            out.push('_');
        }
        i = i + 1;
    }
    assert(cs@.take(cs.len() as int) =~= cs@);
    let raw = string_from_chars(&out);
    let t = trim_matches(raw.as_str(), '_');
    if t.as_str().unicode_len() == 0 {
        String::from_str("auto")
    } else {
        t
    }
}

pub open spec fn name_char_ok(c: char) -> bool {
    is_lower(c) || is_digit(c) || c == '_'
}

/// Why an app name is refused, if it is.
pub open spec fn app_name_error(s: Seq<char>) -> Option<Seq<char>> {
    if s.len() == 0 {
        Some("app name cannot be empty"@)
    } else if !is_lower(s[0]) {
        Some("app name must start with a lowercase ascii letter"@)
    } else if exists|i: int| 1 <= i < s.len() && !name_char_ok(#[trigger] s[i]) {
        Some("app name must contain only lowercase ascii letters, digits, and underscores"@)
    } else {
        None
    }
}

/// Checks an app name: a lowercase ASCII letter, then lowercase ASCII
/// letters, digits and underscores.
pub fn validate_app_name(name: &str) -> (r: Result<(), String>)
    ensures
        match app_name_error(name@) {
            None => r is Ok,
            Some(m) => r matches Err(e) && e@ == m,
        },
{
    let cs = to_chars(name);
    if cs.len() == 0 {
        return Err(String::from_str("app name cannot be empty"));
    }
    let first = cs[0];
    if !('a' <= first && first <= 'z') {
        return Err(String::from_str("app name must start with a lowercase ascii letter"));
    }
    let mut i: usize = 1;
    while i < cs.len()
        invariant
            1 <= i <= cs.len(),
            cs@ == name@,
            is_lower(cs@[0]),
            forall|j: int| 1 <= j < i ==> name_char_ok(#[trigger] cs@[j]),
        decreases cs.len() - i,
    {
        let c = cs[i];
        if !(('a' <= c && c <= 'z') || ('0' <= c && c <= '9') || c == '_') {
            assert(!name_char_ok(cs@[i as int]));
            assert(!name_char_ok(name@[i as int]));
            assert(is_lower(name@[0]));
            assert(exists|k: int| 1 <= k < name@.len() && !name_char_ok(#[trigger] name@[k]));
            assert(app_name_error(name@) == Some("app name must contain only lowercase ascii letters, digits, and underscores"@));
            return Err(String::from_str("app name must contain only lowercase ascii letters, digits, and underscores"));
        }
        i = i + 1;
    }
    Ok(())
}

/// A decimal text padded with leading zeros to at least four characters.
pub open spec fn pad4(t: Seq<char>) -> Seq<char> {
    if t.len() < 4 {
        Seq::new((4 - t.len()) as nat, |i: int| '0') + t
    } else {
        t
    }
}

/// The file name of a new migration: its number in four digits, `_`, the
/// slug of its name, and `.sql`.
pub open spec fn migration_file_name_spec(number: u32, name: Seq<char>) -> Seq<char> {
    pad4(nat_text(number as nat)) + "_"@ + slugify_spec(name) + ".sql"@
}

pub fn migration_file_name(number: u32, name: &str) -> (r: String)
    ensures
        r@ == migration_file_name_spec(number, name@),
{
    let digits = u64_text(number as u64);
    let n = digits.as_str().unicode_len();
    let mut out = String::new();
    let mut k: usize = n;
    while k < 4
        invariant
            n <= k,
            k <= 4 || k == n,
            n == digits@.len(),
            out@ == Seq::new((k - n) as nat, |i: int| '0'),
        decreases 4 - k,
    {
        push_char(&mut out, '0');
        k = k + 1;
        assert(out@ =~= Seq::new((k - n) as nat, |i: int| '0'));
    }
    out.append(digits.as_str());
    out.append("_");
    let slug = slugify(name);
    out.append(slug.as_str());
    out.append(".sql");
    assert(out@ =~= migration_file_name_spec(number, name@));
    out
}

/// The statements of the new schema that the old schema does not hold, in
/// order: the change set of a migration.
pub open spec fn new_statements_spec(old: Seq<Seq<char>>, new: Seq<Seq<char>>) -> Seq<Seq<char>>
    decreases new.len(),
{
    if new.len() == 0 {
        Seq::empty()
    } else {
        let acc = new_statements_spec(old, new.drop_last());
        if old.contains(new.last()) {
            acc
        } else {
            acc.push(new.last())
        }
    }
}

/// The statements of `new` that `old` does not hold, in order.
pub fn new_statements(old: &Vec<String>, new: &Vec<String>) -> (r: Vec<String>)
    ensures
        strings_view(r@) == new_statements_spec(strings_view(old@), strings_view(new@)),
{
    let ghost ov = strings_view(old@);
    let ghost nv = strings_view(new@);
    let mut out: Vec<String> = Vec::new();
    proof {
        assert(nv.take(0) =~= Seq::<Seq<char>>::empty());
        assert(strings_view(out@) =~= Seq::<Seq<char>>::empty());
    }
    let mut i: usize = 0;
    while i < new.len()
        invariant
            i <= new.len(),
            ov == strings_view(old@),
            nv == strings_view(new@),
            strings_view(out@) == new_statements_spec(ov, nv.take(i as int)),
        decreases new.len() - i,
    {
        proof {
            assert(nv.take(i + 1).drop_last() =~= nv.take(i as int));
            assert(nv.take(i + 1).last() == new@[i as int]@);
        }
        let mut found = false;
        let mut j: usize = 0;
        while j < old.len()
            invariant
                j <= old.len(),
                i < new.len(),
                ov == strings_view(old@),
                found == exists|t: int| 0 <= t < j && #[trigger] ov[t] == new@[i as int]@,
            decreases old.len() - j,
        {
            if str_eq(old[j].as_str(), new[i].as_str()) {
                assert(ov[j as int] == new@[i as int]@);
                found = true;
            } else {
                assert(ov[j as int] != new@[i as int]@);
            }
            j = j + 1;
        }
        assert(found == ov.contains(new@[i as int]@));
        if !found {
            let ghost before = out@;
            out.push(new[i].clone());
            proof {
                assert(strings_view(out@) =~= strings_view(before).push(new@[i as int]@));
            }
        }
        i = i + 1;
    }
    proof {
        assert(nv.take(new.len() as int) =~= nv);
    }
    out
}

/// A statement ended by one `;`.
pub open spec fn terminated(stmt: Seq<char>) -> Seq<char> {
    trim_end_char(stmt, ';') + ";"@
}

/// The text of a migration: each statement ended by one `;`, one per line.
pub open spec fn migration_sql_spec(changes: Seq<Seq<char>>) -> Seq<char> {
    join(changes.map_values(|c: Seq<char>| terminated(c)), "\n"@)
}

/// The text of a migration for its statements.
pub fn migration_sql(changes: &Vec<String>) -> (r: String)
    ensures
        r@ == migration_sql_spec(strings_view(changes@)),
{
    let ghost cv = strings_view(changes@);
    let mut parts: Vec<String> = Vec::new();
    let mut i: usize = 0;
    while i < changes.len()
        invariant
            i <= changes.len(),
            cv == strings_view(changes@),
            strings_view(parts@) == cv.take(i as int).map_values(|c: Seq<char>| terminated(c)),
        decreases changes.len() - i,
    {
        let mut t = trim_end_matches(changes[i].as_str(), ';');
        t.append(";");
        let ghost before = parts@;
        assert(t@ == terminated(cv[i as int]));
        parts.push(t);
        proof {
            assert(strings_view(parts@) =~= strings_view(before).push(terminated(cv[i as int])));
            assert(strings_view(parts@) =~= cv.take(i + 1).map_values(|c: Seq<char>| terminated(c)));
        }
        i = i + 1;
    }
    proof {
        assert(cv.take(changes.len() as int) =~= cv);
    }
    join_strings(&parts, "\n")
}

/// Whether `.` is at position `i` and at no later position.
pub open spec fn last_dot_at(f: Seq<char>, i: int) -> bool {
    0 <= i < f.len() && f[i] == '.' && forall|j: int| i < j < f.len() ==> f[j] != '.'
}

/// The extension of a file name, as `Path::extension` gives it: the text
/// after the last `.`, unless that `.` starts the name or the name is `..`.
pub open spec fn extension_spec(f: Seq<char>) -> Option<Seq<char>> {
    if f == ".."@ {
        None
    } else if exists|i: int| last_dot_at(f, i) && i > 0 {
        let i = choose|i: int| last_dot_at(f, i);
        Some(f.skip(i + 1))
    } else {
        None
    }
}

pub fn file_extension(name: &str) -> (r: Option<String>)
    ensures
        opt_string_view(r) == extension_spec(name@),
{
    if crate::text::str_eq(name, "..") {
        return None;
    }
    let cs = to_chars(name);
    let mut i: usize = cs.len();
    while i > 0
        invariant
            i <= cs.len(),
            cs@ == name@,
            name@ != ".."@,
            forall|j: int| i <= j < cs.len() ==> cs@[j] != '.',
        decreases i,
    {
        if cs[i - 1] == '.' {
            let k = i - 1;
            proof {
                assert(last_dot_at(name@, k as int));
                assert forall|x: int| last_dot_at(name@, x) implies x == k by {
                    if x < k {
                        assert(name@[k as int] == '.');
                    }
                    if x > k {
                        assert(cs@[x] != '.');
                    }
                }
            }
            if k == 0 {
                return None;
            }
            let rest = chars_range(&cs, i, cs.len());
            assert(rest@ =~= name@.skip(k + 1));
            proof {
                assert(last_dot_at(name@, k as int) && k > 0);
                let c = choose|x: int| last_dot_at(name@, x);
                assert(last_dot_at(name@, c));
                assert(c == k);
            }
            return Some(string_from_chars(&rest));
        }
        i = i - 1;
    }
    None
}

pub open spec fn opt_string_view(o: Option<String>) -> Option<Seq<char>> {
    match o {
        Some(s) => Some(s@),
        None => None,
    }
}

pub open spec fn all_ascii(s: Seq<char>) -> bool {
    forall|i: int| 0 <= i < s.len() ==> (#[trigger] s[i]) as u32 <= 127
}

/// The number of a migration file: a `.sql` file whose first four characters
/// are ASCII and read as a `u32`.
pub open spec fn migration_number_spec(f: Seq<char>) -> Option<u32> {
    if extension_spec(f) == Some("sql"@) && f.len() >= 4 && all_ascii(f.take(4)) {
        crate::filters::u32_value(f.take(4))
    } else {
        None
    }
}

/// The largest migration number among the files, or 0.
pub open spec fn max_migration(files: Seq<Seq<char>>) -> nat
    decreases files.len(),
{
    if files.len() == 0 {
        0
    } else {
        let m = max_migration(files.drop_last());
        match migration_number_spec(files.last()) {
            Some(n) => if n > m {
                n as nat
            } else {
                m
            },
            None => m,
        }
    }
}

pub open spec fn pow10(n: nat) -> nat
    decreases n,
{
    if n == 0 {
        1
    } else {
        10 * pow10((n - 1) as nat)
    }
}

proof fn lemma_digits_bound(s: Seq<char>)
    requires
        crate::text::all_digits(s),
    ensures
        crate::text::digits_value(s) < pow10(s.len()),
    decreases s.len(),
{
    if s.len() > 0 {
        let d = s.drop_last();
        assert(crate::text::all_digits(d)) by {
            assert forall|i: int| 0 <= i < d.len() implies crate::text::is_digit(#[trigger] d[i]) by {
                assert(d[i] == s[i]);
            }
        }
        lemma_digits_bound(d);
        let v = crate::text::digits_value(d);
        let c = (s.last() as int) - 48;
        assert(crate::text::is_digit(s[s.len() - 1]));
        let p = pow10(d.len());
        assert(v * 10 + c < 10 * p) by (nonlinear_arith)
            requires
                v < p,
                0 <= c <= 9,
        ;
    }
}

proof fn lemma_number_bound(f: Seq<char>)
    ensures
        migration_number_spec(f) matches Some(n) ==> n <= 9999,
{
    if let Some(n) = migration_number_spec(f) {
        let t = f.take(4);
        let body = if t.len() > 0 && t[0] == '+' {
            t.skip(1)
        } else {
            t
        };
        lemma_digits_bound(body);
        assert(pow10(0) == 1);
        assert(pow10(1) == 10);
        assert(pow10(2) == 100);
        assert(pow10(3) == 1000);
        assert(pow10(4) == 10000);
    }
}

proof fn lemma_max_bound(files: Seq<Seq<char>>)
    ensures
        max_migration(files) <= 9999,
    decreases files.len(),
{
    if files.len() > 0 {
        lemma_max_bound(files.drop_last());
        lemma_number_bound(files.last());
    }
}

/// The next migration number is larger than the number of every existing
/// migration file, so a new migration sorts after all of them.
pub proof fn law_next_migration_is_newest(files: Seq<Seq<char>>, i: int)
    requires
        0 <= i < files.len(),
    ensures
        migration_number_spec(files[i]) matches Some(n) ==> n < max_migration(files) + 1,
    decreases files.len(),
{
    if i < files.len() - 1 {
        assert(files.drop_last()[i] == files[i]);
        law_next_migration_is_newest(files.drop_last(), i);
    }
}

fn migration_number(name: &str) -> (r: Option<u32>)
    ensures
        r == migration_number_spec(name@),
{
    let ext = file_extension(name);
    let is_sql = match &ext {
        Some(e) => crate::text::str_eq(e.as_str(), "sql"),
        None => false,
    };
    if !is_sql {
        return None;
    }
    let cs = to_chars(name);
    if cs.len() < 4 {
        return None;
    }
    let mut i: usize = 0;
    while i < 4
        invariant
            i <= 4,
            cs@ == name@,
            cs.len() >= 4,
            forall|j: int| 0 <= j < i ==> (#[trigger] cs@[j]) as u32 <= 127,
        decreases 4 - i,
    {
        if cs[i] as u32 > 127 {
            proof {
                let t = name@.take(4);
                assert(t[i as int] == cs@[i as int]);
            }
            return None;
        }
        i = i + 1;
    }
    let head = chars_range(&cs, 0, 4);
    assert(head@ =~= name@.take(4));
    let text = string_from_chars(&head);
    crate::text::parse_u32_text(text.as_str())
}

/// The number of the next migration: one more than the largest number among
/// the migration files, or 1.
pub fn next_migration_number(file_names: &Vec<String>) -> (r: u32)
    ensures
        r == max_migration(crate::text::strings_view(file_names@)) + 1,
{
    let ghost fv = crate::text::strings_view(file_names@);
    let mut max: u32 = 0;
    let mut i: usize = 0;
    while i < file_names.len()
        invariant
            i <= file_names.len(),
            fv == crate::text::strings_view(file_names@),
            max == max_migration(fv.take(i as int)),
        decreases file_names.len() - i,
    {
        proof {
            assert(fv.take(i + 1).drop_last() =~= fv.take(i as int));
            assert(fv.take(i + 1).last() == file_names@[i as int]@);
        }
        match migration_number(file_names[i].as_str()) {
            Some(n) => {
                if n > max {
                    max = n;
                }
            },
            None => {},
        }
        i = i + 1;
    }
    proof {
        assert(fv.take(file_names.len() as int) =~= fv);
        lemma_max_bound(fv);
    }
    max + 1
}

/// The text in ASCII uppercase.
pub open spec fn upper_text(s: Seq<char>) -> Seq<char> {
    s.map_values(|c: char| upper_char(c))
}

pub fn to_ascii_uppercase(s: &str) -> (r: String)
    ensures
        r@ == upper_text(s@),
{
    let cs = to_chars(s);
    let mut out: Vec<char> = Vec::new();
    let mut i: usize = 0;
    while i < cs.len()
        invariant
            i <= cs.len(),
            cs@ == s@,
            out@ == upper_text(s@).take(i as int),
        decreases cs.len() - i,
    {
        out.push(crate::text::to_upper(cs[i]));
        i = i + 1;
        assert(out@ =~= upper_text(s@).take(i as int));
    }
    assert(upper_text(s@).take(cs.len() as int) =~= upper_text(s@));
    string_from_chars(&out)
}

/// The `mod.rs` of a new app module.
pub open spec fn mod_template_spec(name: Seq<char>) -> Seq<char> {
    let module_type = camel_case_spec(name) + "Module"@;
    let model = singular_camel_spec(name);
    let fn_name = singular_spec(name);
    "pub mod filters;\npub mod models;\npub mod serializers;\n\nuse che_tauri::{AppModule, ModuleContext};\n\npub fn module() -> "@
        + module_type + " {\n    "@ + module_type + "\n}\n\npub struct "@ + module_type
        + ";\n\nimpl AppModule for "@ + module_type
        + " {\n    fn name(&self) -> &'static str {\n        \""@ + name
        + "\"\n    }\n\n    fn init(&self, ctx: &mut ModuleContext) {\n        ctx.resource::<models::"@
        + model + ">(\n            \""@ + name + "\",\n            serializers::"@ + fn_name
        + "_serializer(),\n            filters::"@ + fn_name
        + "_filterset(),\n        );\n    }\n}\n"@
}

pub fn mod_template(name: &str) -> (r: String)
    ensures
        r@ == mod_template_spec(name@),
{
    let mut module_type = plural_camel(name);
    module_type.append("Module");
    let model = singular_camel(name);
    let fn_name = singular_name(name);
    let mt = module_type.as_str();
    let mut out = String::from_str(
        "pub mod filters;\npub mod models;\npub mod serializers;\n\nuse che_tauri::{AppModule, ModuleContext};\n\npub fn module() -> ",
    );
    out.append(mt);
    out.append(" {\n    ");
    out.append(mt);
    out.append("\n}\n\npub struct ");
    out.append(mt);
    out.append(";\n\nimpl AppModule for ");
    out.append(mt);
    out.append(" {\n    fn name(&self) -> &'static str {\n        \"");
    out.append(name);
    out.append("\"\n    }\n\n    fn init(&self, ctx: &mut ModuleContext) {\n        ctx.resource::<models::");
    out.append(model.as_str());
    out.append(">(\n            \"");
    out.append(name);
    out.append("\",\n            serializers::");
    out.append(fn_name.as_str());
    out.append("_serializer(),\n            filters::");
    out.append(fn_name.as_str());
    out.append("_filterset(),\n        );\n    }\n}\n");
    assert(out@ =~= mod_template_spec(name@));
    out
}

/// The `models.rs` of a new app module.
pub open spec fn models_template_spec(name: Seq<char>) -> Seq<char> {
    let model = singular_camel_spec(name);
    "use che_orm::Model;\n\n#[derive(Debug, Clone, Model)]\n#[model(table = \""@ + name + "\")]\npub struct "@
        + model + " {\n    #[field(primary_key)]\n    pub id: i64,\n\n    pub name: String,\n}\n"@
}

pub fn models_template(name: &str) -> (r: String)
    ensures
        r@ == models_template_spec(name@),
{
    let model = singular_camel(name);
    let mut out = String::from_str("use che_orm::Model;\n\n#[derive(Debug, Clone, Model)]\n#[model(table = \"");
    out.append(name);
    out.append("\")]\npub struct ");
    out.append(model.as_str());
    out.append(" {\n    #[field(primary_key)]\n    pub id: i64,\n\n    pub name: String,\n}\n");
    assert(out@ =~= models_template_spec(name@));
    out
}

/// The `serializers.rs` of a new app module.
pub open spec fn serializers_template_spec(name: Seq<char>) -> Seq<char> {
    let model = singular_camel_spec(name);
    let fn_name = singular_spec(name);
    let const_name = upper_text(name);
    "use che_tauri::{Field, ModelSerializer};\n\nuse super::models::"@ + model + ";\n\nstatic "@ + const_name
        + "_FIELDS: &[Field] = &[\n    Field::new(\"id\").read_only(),\n    Field::new(\"name\"),\n];\n\npub fn "@
        + fn_name + "_serializer() -> ModelSerializer<"@ + model + "> {\n    ModelSerializer::new("@
        + const_name + "_FIELDS)\n}\n"@
}

pub fn serializers_template(name: &str) -> (r: String)
    ensures
        r@ == serializers_template_spec(name@),
{
    let model = singular_camel(name);
    let fn_name = singular_name(name);
    let const_name = to_ascii_uppercase(name);
    let mut out = String::from_str("use che_tauri::{Field, ModelSerializer};\n\nuse super::models::");
    out.append(model.as_str());
    out.append(";\n\nstatic ");
    out.append(const_name.as_str());
    out.append("_FIELDS: &[Field] = &[\n    Field::new(\"id\").read_only(),\n    Field::new(\"name\"),\n];\n\npub fn ");
    out.append(fn_name.as_str());
    out.append("_serializer() -> ModelSerializer<");
    out.append(model.as_str());
    out.append("> {\n    ModelSerializer::new(");
    out.append(const_name.as_str());
    out.append("_FIELDS)\n}\n");
    assert(out@ =~= serializers_template_spec(name@));
    out
}

/// The `filters.rs` of a new app module.
pub open spec fn filters_template_spec(name: Seq<char>) -> Seq<char> {
    let model = singular_camel_spec(name);
    let fn_name = singular_spec(name);
    let const_name = upper_text(name);
    "use che_tauri::{Filter, FilterSet};\n\nuse super::models::"@ + model + ";\n\nstatic "@ + const_name
        + "_FILTERS: &[Filter] = &[\n    Filter::exact(\"name\"),\n    Filter::contains(\"name\"),\n];\n\npub fn "@
        + fn_name + "_filterset() -> FilterSet<"@ + model + "> {\n    FilterSet::new("@ + const_name
        + "_FILTERS)\n}\n"@
}

pub fn filters_template(name: &str) -> (r: String)
    ensures
        r@ == filters_template_spec(name@),
{
    let model = singular_camel(name);
    let fn_name = singular_name(name);
    let const_name = to_ascii_uppercase(name);
    let mut out = String::from_str("use che_tauri::{Filter, FilterSet};\n\nuse super::models::");
    out.append(model.as_str());
    out.append(";\n\nstatic ");
    out.append(const_name.as_str());
    out.append("_FILTERS: &[Filter] = &[\n    Filter::exact(\"name\"),\n    Filter::contains(\"name\"),\n];\n\npub fn ");
    out.append(fn_name.as_str());
    out.append("_filterset() -> FilterSet<");
    out.append(model.as_str());
    out.append("> {\n    FilterSet::new(");
    out.append(const_name.as_str());
    out.append("_FILTERS)\n}\n");
    assert(out@ =~= filters_template_spec(name@));
    out
}

/// The migrations directory of an app: `<apps_dir>/<app>/migrations`.
pub open spec fn app_migrations_dir_spec(apps_dir: Seq<char>, app: Seq<char>) -> Seq<char> {
    let base = if apps_dir.len() == 0 {
        app
    } else if apps_dir.last() == '/' {
        apps_dir + app
    } else {
        apps_dir + "/"@ + app
    };
    base + "/migrations"@
}

pub fn app_migrations_dir(apps_dir: &str, app: &str) -> (r: String)
    ensures
        r@ == app_migrations_dir_spec(apps_dir@, app@),
{
    let cs = to_chars(apps_dir);
    let mut out = String::from_str(apps_dir);
    if cs.len() > 0 && cs[cs.len() - 1] != '/' {
        out.append("/");
    }
    out.append(app);
    out.append("/migrations");
    proof {
        if apps_dir@.len() == 0 {
            assert(out@ =~= app_migrations_dir_spec(apps_dir@, app@));
        }
    }
    out
}

/// The generated `api_client.ts`.
pub fn api_client_ts() -> (r: &'static str)
    ensures
        r@ == api_client_text(),
{
    API_CLIENT_TS
}

pub open spec fn api_client_text() -> Seq<char> {
    API_CLIENT_TS@
}

/// `char::is_whitespace`: the Unicode `White_Space` characters.
pub open spec fn is_ws(c: char) -> bool {
    let u = c as u32;
    (0x09 <= u <= 0x0d) || u == 0x20 || u == 0x85 || u == 0xa0 || u == 0x1680 || (0x2000 <= u
        <= 0x200a) || u == 0x2028 || u == 0x2029 || u == 0x202f || u == 0x205f || u == 0x3000
}

pub fn char_is_whitespace(c: char) -> (r: bool)
    ensures
        r == is_ws(c),
{
    let u = c as u32;
    (0x09 <= u && u <= 0x0d) || u == 0x20 || u == 0x85 || u == 0xa0 || u == 0x1680 || (0x2000 <= u
        && u <= 0x200a) || u == 0x2028 || u == 0x2029 || u == 0x202f || u == 0x205f || u == 0x3000
}

pub open spec fn trim_start_ws(s: Seq<char>) -> Seq<char>
    decreases s.len(),
{
    if s.len() > 0 && is_ws(s[0]) {
        trim_start_ws(s.skip(1))
    } else {
        s
    }
}

pub open spec fn trim_end_ws(s: Seq<char>) -> Seq<char>
    decreases s.len(),
{
    if s.len() > 0 && is_ws(s.last()) {
        trim_end_ws(s.drop_last())
    } else {
        s
    }
}

/// `str::trim`.
pub open spec fn trim_ws(s: Seq<char>) -> Seq<char> {
    trim_end_ws(trim_start_ws(s))
}

/// `[i, j)` is a line of `c`: it starts the text or follows a newline, it
/// ends the text or precedes a newline, and it holds no newline.
pub open spec fn is_line(c: Seq<char>, i: int, j: int) -> bool {
    &&& 0 <= i <= j <= c.len()
    &&& (i == 0 || c[i - 1] == '\n')
    &&& (j == c.len() || c[j] == '\n')
    &&& forall|k: int| i <= k < j ==> c[k] != '\n'
}

/// Whether a line of the text is `line` once trimmed.
pub open spec fn has_trimmed_line(c: Seq<char>, line: Seq<char>) -> bool {
    exists|i: int, j: int| is_line(c, i, j) && trim_ws(#[trigger] c.subrange(i, j)) == line
}

/// The module declaration of an app in `mod.rs`.
pub open spec fn mod_line(name: Seq<char>) -> Seq<char> {
    "pub mod "@ + name + ";"@
}

/// The apps `mod.rs` with the app's module declaration added on a line of
/// its own, or `None` when a line already declares it.
pub open spec fn update_mod_spec(content: Seq<char>, name: Seq<char>) -> Option<Seq<char>> {
    if has_trimmed_line(content, mod_line(name)) {
        None
    } else {
        let c = if content.len() > 0 && content.last() != '\n' {
            content + "\n"@
        } else {
            content
        };
        Some(c + mod_line(name) + "\n"@)
    }
}

/// Adding an app's module declaration twice adds it once: after an update
/// the declaration is on a line of its own, so a second update changes
/// nothing. (A name with a newline cannot stand on one line.)
pub proof fn law_mod_update_is_idempotent(content: Seq<char>, name: Seq<char>)
    requires
        forall|k: int| 0 <= k < name.len() ==> name[k] != '\n',
    ensures
        update_mod_spec(content, name) matches Some(c2) ==> update_mod_spec(c2, name) is None,
{
    if let Some(c2) = update_mod_spec(content, name) {
        let line = mod_line(name);
        let c = if content.len() > 0 && content.last() != '\n' {
            content + "\n"@
        } else {
            content
        };
        reveal_strlit("pub mod ");
        reveal_strlit(";");
        reveal_strlit("\n");
        assert(c2 == c + line + "\n"@);
        let i = c.len() as int;
        let j = i + line.len();
        assert(line.len() == name.len() + 9);
        assert(line[0] == 'p');
        assert(line[line.len() - 1] == ';');
        assert forall|k: int| 0 <= k < line.len() implies line[k] != '\n' by {
            if 8 <= k < 8 + name.len() {
                assert(line[k] == name[k - 8]);
            }
        }
        assert(c2.subrange(i, j) =~= line);
        assert forall|k: int| i <= k < j implies c2[k] != '\n' by {
            assert(c2[k] == line[k - i]);
        }
        if i > 0 {
            assert(c2[i - 1] == c[i - 1]);
        }
        assert(c2[j] == '\n');
        assert(is_line(c2, i, j));
        assert(!is_ws(line[0]));
        assert(trim_start_ws(line) == line);
        assert(!is_ws(line.last()));
        assert(trim_end_ws(line) == line);
        assert(trim_ws(c2.subrange(i, j)) == line);
        assert(has_trimmed_line(c2, line));
    }
}

fn trimmed_bounds(cs: &Vec<char>, a: usize, b: usize) -> (r: (usize, usize))
    requires
        a <= b <= cs.len(),
    ensures
        a <= r.0 <= r.1 <= b,
        trim_ws(cs@.subrange(a as int, b as int)) == cs@.subrange(r.0 as int, r.1 as int),
{
    let mut i: usize = a;
    assert(cs@.subrange(a as int, b as int) =~= cs@.subrange(i as int, b as int));
    while i < b && char_is_whitespace(cs[i])
        invariant
            a <= i <= b <= cs.len(),
            trim_start_ws(cs@.subrange(a as int, b as int)) == trim_start_ws(cs@.subrange(i as int, b as int)),
        decreases b - i,
    {
        assert(cs@.subrange(i as int, b as int).skip(1) =~= cs@.subrange(i + 1, b as int));
        i = i + 1;
    }
    let mut j: usize = b;
    while j > i && char_is_whitespace(cs[j - 1])
        invariant
            a <= i <= j <= b <= cs.len(),
            trim_end_ws(cs@.subrange(i as int, b as int)) == trim_end_ws(cs@.subrange(i as int, j as int)),
        decreases j,
    {
        assert(cs@.subrange(i as int, j as int).drop_last() =~= cs@.subrange(i as int, j - 1));
        j = j - 1;
    }
    (i, j)
}

fn range_eq(cs: &Vec<char>, a: usize, b: usize, t: &Vec<char>) -> (r: bool)
    requires
        a <= b <= cs.len(),
    ensures
        r == (cs@.subrange(a as int, b as int) == t@),
{
    if b - a != t.len() {
        return false;
    }
    let mut k: usize = 0;
    while k < t.len()
        invariant
            b - a == t.len(),
            a <= b <= cs.len(),
            k <= t.len(),
            forall|x: int| 0 <= x < k ==> cs@[a + x] == t@[x],
        decreases t.len() - k,
    {
        if cs[a + k] != t[k] {
            assert(cs@.subrange(a as int, b as int)[k as int] != t@[k as int]);
            return false;
        }
        k = k + 1;
    }
    assert(cs@.subrange(a as int, b as int) =~= t@);
    true
}

/// Adds the app's module declaration to the apps `mod.rs`, unless a line
/// already holds it.
pub fn update_mod_content(content: &str, name: &str) -> (r: Option<String>)
    ensures
        opt_string_view(r) == update_mod_spec(content@, name@),
{
    let mut line = String::from_str("pub mod ");
    line.append(name);
    line.append(";");
    let lc = to_chars(line.as_str());
    let cs = to_chars(content);
    let n = cs.len();
    let mut s: usize = 0;
    let mut done = false;
    while !done
        invariant
            cs@ == content@,
            n == cs.len(),
            lc@ == mod_line(name@),
            s <= n,
            s == 0 || cs@[s - 1] == '\n',
            forall|i: int, j: int| is_line(cs@, i, j) && (i < s || done) ==> trim_ws(#[trigger] cs@.subrange(i, j)) != lc@,
        decreases (if done { 0 } else { n - s + 1 }),
    {
        let mut e: usize = s;
        while e < n && cs[e] != '\n'
            invariant
                s <= e <= n,
                n == cs.len(),
                forall|k: int| s <= k < e ==> cs@[k] != '\n',
            decreases n - e,
        {
            e = e + 1;
        }
        let (ta, tb) = trimmed_bounds(&cs, s, e);
        if range_eq(&cs, ta, tb, &lc) {
            proof {
                assert(is_line(cs@, s as int, e as int));
                assert(trim_ws(cs@.subrange(s as int, e as int)) == mod_line(name@));
                assert(has_trimmed_line(content@, mod_line(name@)));
            }
            return None;
        }
        proof {
            assert forall|i: int, j: int| is_line(cs@, i, j) && i < e + 1 implies trim_ws(#[trigger] cs@.subrange(i, j)) != lc@ by {
                if i >= s {
                    if i > s {
                        assert(cs@[i - 1] != '\n');
                    }
                    assert(i == s);
                    if j < e {
                        assert(cs@[j] != '\n');
                    }
                    if j > e {
                        assert(cs@[e as int] == '\n');
                    }
                    assert(j == e);
                }
            }
        }
        if e == n {
            done = true;
        } else {
            s = e + 1;
        }
    }
    proof {
        assert(!has_trimmed_line(content@, mod_line(name@)));
    }
    let mut out = String::from_str(content);
    if n > 0 && cs[n - 1] != '\n' {
        out.append("\n");
    }
    out.append(line.as_str());
    out.append("\n");
    Some(out)
}

/// The endpoints with the given model name, in order.
pub open spec fn with_model_name(es: Seq<ApiEndpointView>, k: Seq<char>) -> Seq<ApiEndpointView>
    decreases es.len(),
{
    if es.len() == 0 {
        Seq::empty()
    } else {
        with_model_name(es.drop_last(), k) + if es.last().model_name == k {
            seq![es.last()]
        } else {
            Seq::empty()
        }
    }
}

pub proof fn lemma_with_model_name_add(a: Seq<ApiEndpointView>, b: Seq<ApiEndpointView>, k: Seq<char>)
    ensures
        with_model_name(a + b, k) == with_model_name(a, k) + with_model_name(b, k),
    decreases b.len(),
{
    if b.len() == 0 {
        assert(a + b =~= a);
        assert(with_model_name(a, k) + with_model_name(b, k) =~= with_model_name(a, k));
    } else {
        lemma_with_model_name_add(a, b.drop_last(), k);
        assert((a + b).drop_last() =~= a + b.drop_last());
        assert((a + b).last() == b.last());
        assert(with_model_name(a + b, k) =~= with_model_name(a, k) + with_model_name(b, k));
    }
}

pub open spec fn sorted_by_model_name(es: Seq<ApiEndpointView>) -> bool {
    forall|i: int, j: int| 0 <= i < j < es.len() ==> str_le(#[trigger] es[i].model_name, #[trigger] es[j].model_name)
}

/// Sorts endpoints by model name; endpoints with the same model name keep
/// their order.
pub fn sort_endpoints(endpoints: Vec<ApiEndpoint>) -> (r: Vec<ApiEndpoint>)
    ensures
        sorted_by_model_name(endpoints_view(r@)),
        forall|k: Seq<char>| #[trigger] with_model_name(endpoints_view(r@), k) == with_model_name(endpoints_view(endpoints@), k),
{
    let ghost input = endpoints_view(endpoints@);
    let mut out: Vec<ApiEndpoint> = Vec::new();
    let mut rest = endpoints;
    let ghost mut taken: int = 0;
    proof {
        assert(rest@ == endpoints@);
        assert(input.take(0) =~= Seq::<ApiEndpointView>::empty());
        assert(endpoints_view(out@) =~= Seq::<ApiEndpointView>::empty());
        assert(endpoints_view(rest@) =~= input.skip(0));
    }
    while rest.len() > 0
        invariant
            0 <= taken <= input.len(),
            endpoints_view(rest@) == input.skip(taken),
            sorted_by_model_name(endpoints_view(out@)),
            forall|k: Seq<char>| #[trigger] with_model_name(endpoints_view(out@), k) == with_model_name(input.take(taken), k),
        decreases rest.len(),
    {
        let ghost before_rest = rest@;
        proof {
            assert(endpoints_view(before_rest).len() == before_rest.len());
        }
        let x = rest.remove(0);
        let ghost xv = x@;
        proof {
            assert(endpoints_view(before_rest)[0] == xv);
            assert(input.skip(taken)[0] == input[taken]);
            assert(xv == input[taken]);
            assert forall|j: int| 0 <= j < rest@.len() implies #[trigger] endpoints_view(rest@)[j] == input.skip(taken + 1)[j] by {
                assert(rest@[j] == before_rest[j + 1]);
                assert(endpoints_view(before_rest)[j + 1] == input.skip(taken)[j + 1]);
            }
            assert(endpoints_view(rest@) =~= input.skip(taken + 1));
        }
        let ghost ov = endpoints_view(out@);
        proof {
            assert(forall|k: Seq<char>| #[trigger] with_model_name(ov, k) == with_model_name(input.take(taken), k));
        }
        let mut p: usize = 0;
        while p < out.len() && text_le(out[p].model_name.as_str(), x.model_name.as_str())
            invariant
                p <= out.len(),
                ov == endpoints_view(out@),
                xv == x@,
                forall|j: int| 0 <= j < p ==> str_le(#[trigger] ov[j].model_name, xv.model_name),
            decreases out.len() - p,
        {
            proof {
                assert(ov[p as int] == out@[p as int]@);
            }
            p = p + 1;
        }
        proof {
            if p < out.len() {
                assert(!str_le(ov[p as int].model_name, xv.model_name));
                lemma_str_le_total(ov[p as int].model_name, xv.model_name);
            }
            assert forall|j: int| p <= j < ov.len() implies !str_le(#[trigger] ov[j].model_name, xv.model_name) && str_le(xv.model_name, ov[j].model_name) by {
                lemma_str_le_total(ov[p as int].model_name, xv.model_name);
                if j > p {
                    assert(str_le(ov[p as int].model_name, ov[j].model_name));
                    lemma_str_le_trans(xv.model_name, ov[p as int].model_name, ov[j].model_name);
                    if str_le(ov[j].model_name, xv.model_name) {
                        lemma_str_le_trans(ov[p as int].model_name, ov[j].model_name, xv.model_name);
                    }
                }
            }
        }
        out.insert(p, x);
        proof {
            let nv = endpoints_view(out@);
            let a = ov.take(p as int);
            let b = ov.skip(p as int);
            assert(nv =~= a + seq![xv] + b);
            assert(ov =~= a + b);
            assert(sorted_by_model_name(nv)) by {
                assert forall|i: int, j: int| 0 <= i < j < nv.len() implies str_le(#[trigger] nv[i].model_name, #[trigger] nv[j].model_name) by {
                    if i < p && j == p {
                        assert(nv[j] == xv);
                        assert(nv[i] == ov[i]);
                    } else if i == p {
                        assert(nv[i] == xv);
                        assert(nv[j] == ov[j - 1]);
                    } else if i < p && j > p {
                        assert(nv[i] == ov[i]);
                        assert(nv[j] == ov[j - 1]);
                    } else if i < p {
                        assert(nv[i] == ov[i]);
                        assert(nv[j] == ov[j]);
                    } else {
                        assert(nv[i] == ov[i - 1]);
                        assert(nv[j] == ov[j - 1]);
                    }
                }
            }
            assert(input.take(taken + 1) =~= input.take(taken).push(xv));
            assert forall|k: Seq<char>| #[trigger] with_model_name(nv, k) == with_model_name(input.take(taken + 1), k) by {
                lemma_with_model_name_add(a + seq![xv], b, k);
                lemma_with_model_name_add(a, seq![xv], k);
                lemma_with_model_name_add(a, b, k);
                assert(seq![xv].drop_last() =~= Seq::<ApiEndpointView>::empty());
                assert(input.take(taken + 1).drop_last() =~= input.take(taken));
                assert(seq![xv].len() == 1 && seq![xv].last() == xv);
                assert(with_model_name(seq![xv].drop_last(), k) =~= Seq::<ApiEndpointView>::empty());
                assert(with_model_name(seq![xv], k) =~= if xv.model_name == k { seq![xv] } else { Seq::<ApiEndpointView>::empty() });
                assert(with_model_name(input.take(taken + 1), k) =~= with_model_name(input.take(taken), k) + if xv.model_name == k { seq![xv] } else { Seq::<ApiEndpointView>::empty() });
                assert(with_model_name(ov, k) == with_model_name(input.take(taken), k));
                if xv.model_name == k {
                    lemma_str_le_refl(k);
                    assert forall|t: int| 0 <= t < b.len() implies #[trigger] b[t].model_name != k by {
                        assert(b[t] == ov[p + t]);
                    }
                    lemma_with_model_name_none(b, k);
                    assert(with_model_name(nv, k) =~= with_model_name(input.take(taken + 1), k));
                } else {
                    assert(with_model_name(nv, k) =~= with_model_name(input.take(taken + 1), k));
                }
            }
            taken = taken + 1;
        }
    }
    proof {
        assert(input.take(input.len() as int) =~= input);
    }
    out
}

pub proof fn lemma_with_model_name_none(es: Seq<ApiEndpointView>, k: Seq<char>)
    requires
        forall|t: int| 0 <= t < es.len() ==> #[trigger] es[t].model_name != k,
    ensures
        with_model_name(es, k) == Seq::<ApiEndpointView>::empty(),
    decreases es.len(),
{
    if es.len() > 0 {
        let d = es.drop_last();
        assert forall|t: int| 0 <= t < d.len() implies #[trigger] d[t].model_name != k by {
            assert(d[t] == es[t]);
        }
        lemma_with_model_name_none(d, k);
        assert(es[es.len() - 1].model_name != k);
        assert(with_model_name(es, k) =~= Seq::<ApiEndpointView>::empty());
    }
}

} // verus!
