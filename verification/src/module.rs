//! Resource metadata for generated clients: endpoints, their fields and filters,
//! and the registry that app modules fill.
use vstd::prelude::*;


use crate::api::{InvokeView, RegistrationView, RemoteMode, ResourceRegistration};
use crate::filters::{query_name_spec, Filter, FilterSet, FilterView, filters_view};
use crate::model::{find_column, lookup_column, model_view, FieldType, ModelField, ModelFieldView};
use crate::serializer::{copy_opt_string, fields_view, opt_str_view, Field, FieldView, ModelSerializer};
use crate::search::{first_match, lemma_first_match_is, lemma_first_match_none};
use crate::text::{chars_range, str_eq, string_from_chars, strings_view, to_chars};

verus! {

/// A field of a generated API type.
pub struct ApiField {
    pub name: String,
    pub source: String,
    pub ty: FieldType,
    pub related_model: Option<String>,
    pub ts_type: Option<String>,
    pub input_ts_type: Option<String>,
    pub read_only: bool,
    pub write_only: bool,
    pub required: bool,
    pub nullable: bool,
    pub has_default: bool,
}

pub struct ApiFieldView {
    pub name: Seq<char>,
    pub source: Seq<char>,
    pub ty: FieldType,
    pub related_model: Option<Seq<char>>,
    pub ts_type: Option<Seq<char>>,
    pub input_ts_type: Option<Seq<char>>,
    pub read_only: bool,
    pub write_only: bool,
    pub required: bool,
    pub nullable: bool,
    pub has_default: bool,
}

impl View for ApiField {
    type V = ApiFieldView;

    open spec fn view(&self) -> ApiFieldView {
        ApiFieldView {
            name: self.name@,
            source: self.source@,
            ty: self.ty,
            related_model: opt_str_view(self.related_model),
            ts_type: opt_str_view(self.ts_type),
            input_ts_type: opt_str_view(self.input_ts_type),
            read_only: self.read_only,
            write_only: self.write_only,
            required: self.required,
            nullable: self.nullable,
            has_default: self.has_default,
        }
    }
}

impl ApiField {
    pub fn copy_api_field(&self) -> (r: ApiField)
        ensures
            r@ == self@,
    {
        ApiField {
            name: self.name.clone(),
            source: self.source.clone(),
            ty: self.ty,
            related_model: copy_opt_string(&self.related_model),
            ts_type: copy_opt_string(&self.ts_type),
            input_ts_type: copy_opt_string(&self.input_ts_type),
            read_only: self.read_only,
            write_only: self.write_only,
            required: self.required,
            nullable: self.nullable,
            has_default: self.has_default,
        }
    }
}

/// A list parameter of a generated API.
pub struct ApiFilter {
    pub name: String,
    pub source: String,
    pub ty: FieldType,
    pub nullable: bool,
}

pub struct ApiFilterView {
    pub name: Seq<char>,
    pub source: Seq<char>,
    pub ty: FieldType,
    pub nullable: bool,
}

impl View for ApiFilter {
    type V = ApiFilterView;

    open spec fn view(&self) -> ApiFilterView {
        ApiFilterView { name: self.name@, source: self.source@, ty: self.ty, nullable: self.nullable }
    }
}

impl ApiFilter {
    pub fn copy_api_filter(&self) -> (r: ApiFilter)
        ensures
            r@ == self@,
    {
        ApiFilter { name: self.name.clone(), source: self.source.clone(), ty: self.ty, nullable: self.nullable }
    }
}

pub open spec fn api_fields_seq(s: Seq<ApiField>) -> Seq<ApiFieldView> {
    s.map_values(|f: ApiField| f@)
}

pub open spec fn api_filters_seq(s: Seq<ApiFilter>) -> Seq<ApiFilterView> {
    s.map_values(|f: ApiFilter| f@)
}

/// A resource of a generated API: its model name, resource name, fields and filters.
pub struct ApiEndpoint {
    pub model_name: String,
    pub resource: String,
    pub fields: Vec<ApiField>,
    pub filters: Vec<ApiFilter>,
}

pub struct ApiEndpointView {
    pub model_name: Seq<char>,
    pub resource: Seq<char>,
    pub fields: Seq<ApiFieldView>,
    pub filters: Seq<ApiFilterView>,
}

impl View for ApiEndpoint {
    type V = ApiEndpointView;

    open spec fn view(&self) -> ApiEndpointView {
        ApiEndpointView {
            model_name: self.model_name@,
            resource: self.resource@,
            fields: api_fields_seq(self.fields@),
            filters: api_filters_seq(self.filters@),
        }
    }
}

pub open spec fn endpoints_view(s: Seq<ApiEndpoint>) -> Seq<ApiEndpointView> {
    s.map_values(|e: ApiEndpoint| e@)
}

pub fn copy_api_fields(v: &Vec<ApiField>) -> (r: Vec<ApiField>)
    ensures
        api_fields_seq(r@) == api_fields_seq(v@),
{
    let mut out: Vec<ApiField> = Vec::new();
    let mut i: usize = 0;
    while i < v.len()
        invariant
            i <= v.len(),
            api_fields_seq(out@) == api_fields_seq(v@).take(i as int),
        decreases v.len() - i,
    {
        let ghost before = out@;
        out.push(v[i].copy_api_field());
        proof {
            assert(api_fields_seq(out@) =~= api_fields_seq(before).push(v@[i as int]@));
            assert(api_fields_seq(out@) =~= api_fields_seq(v@).take(i + 1));
        }
        i = i + 1;
    }
    assert(api_fields_seq(v@).take(v.len() as int) =~= api_fields_seq(v@));
    out
}

pub fn copy_api_filters(v: &Vec<ApiFilter>) -> (r: Vec<ApiFilter>)
    ensures
        api_filters_seq(r@) == api_filters_seq(v@),
{
    let mut out: Vec<ApiFilter> = Vec::new();
    let mut i: usize = 0;
    while i < v.len()
        invariant
            i <= v.len(),
            api_filters_seq(out@) == api_filters_seq(v@).take(i as int),
        decreases v.len() - i,
    {
        let ghost before = out@;
        out.push(v[i].copy_api_filter());
        proof {
            assert(api_filters_seq(out@) =~= api_filters_seq(before).push(v@[i as int]@));
            assert(api_filters_seq(out@) =~= api_filters_seq(v@).take(i + 1));
        }
        i = i + 1;
    }
    assert(api_filters_seq(v@).take(v.len() as int) =~= api_filters_seq(v@));
    out
}

impl ApiEndpoint {
    pub fn copy_endpoint(&self) -> (r: ApiEndpoint)
        ensures
            r@ == self@,
    {
        ApiEndpoint {
            model_name: self.model_name.clone(),
            resource: self.resource.clone(),
            fields: copy_api_fields(&self.fields),
            filters: copy_api_filters(&self.filters),
        }
    }
}

/// The generated field of a serializer field whose source is a model column.
pub open spec fn api_field_spec(f: FieldView, mf: ModelFieldView) -> ApiFieldView {
    ApiFieldView {
        name: f.name,
        source: f.source,
        ty: mf.ty,
        related_model: f.relation,
        ts_type: f.ts_type,
        input_ts_type: f.input_ts_type,
        read_only: f.read_only,
        write_only: f.write_only,
        required: f.required,
        nullable: f.nullable || mf.nullable,
        has_default: f.default is Some || mf.has_default,
    }
}

/// The generated fields, in order, of the serializer fields whose source is a
/// model column.
pub open spec fn api_fields_spec(fields: Seq<FieldView>, model: Seq<ModelFieldView>) -> Seq<ApiFieldView>
    decreases fields.len(),
{
    if fields.len() == 0 {
        Seq::empty()
    } else {
        let acc = api_fields_spec(fields.drop_last(), model);
        match lookup_column(model, fields.last().source) {
            Some(mf) => acc.push(api_field_spec(fields.last(), mf)),
            None => acc,
        }
    }
}

/// The generated filters, in order, of the filters whose source is a model column.
pub open spec fn api_filters_spec(filters: Seq<FilterView>, model: Seq<ModelFieldView>) -> Seq<ApiFilterView>
    decreases filters.len(),
{
    if filters.len() == 0 {
        Seq::empty()
    } else {
        let acc = api_filters_spec(filters.drop_last(), model);
        let f = filters.last();
        match lookup_column(model, f.source) {
            Some(mf) => acc.push(ApiFilterView { name: query_name_spec(f), source: f.source, ty: mf.ty, nullable: mf.nullable }),
            None => acc,
        }
    }
}

/// The generated fields of a serializer.
pub fn api_fields(fields: &Vec<Field>, model: &Vec<ModelField>) -> (r: Vec<ApiField>)
    ensures
        api_fields_seq(r@) == api_fields_spec(fields_view(fields@), model_view(model@)),
{
    let ghost fv = fields_view(fields@);
    let mut out: Vec<ApiField> = Vec::new();
    let mut i: usize = 0;
    while i < fields.len()
        invariant
            i <= fields.len(),
            fv == fields_view(fields@),
            api_fields_seq(out@) == api_fields_spec(fv.take(i as int), model_view(model@)),
        decreases fields.len() - i,
    {
        proof {
            assert(fv.take(i + 1).drop_last() =~= fv.take(i as int));
            assert(fv.take(i + 1).last() == fields@[i as int]@);
        }
        let f = &fields[i];
        match find_column(model, f.source.as_str()) {
            Some(mf) => {
                let a = ApiField {
                    name: f.name.clone(),
                    source: f.source.clone(),
                    ty: mf.ty,
                    related_model: copy_opt_string(&f.relation),
                    ts_type: copy_opt_string(&f.ts_type),
                    input_ts_type: copy_opt_string(&f.input_ts_type),
                    read_only: f.read_only,
                    write_only: f.write_only,
                    required: f.required,
                    nullable: f.nullable || mf.nullable,
                    has_default: f.has_default() || mf.has_default,
                };
                let ghost before = out@;
                let ghost av = a@;
                out.push(a);
                proof {
                    assert(api_fields_seq(out@) =~= api_fields_seq(before).push(av));
                }
            },
            None => {},
        }
        i = i + 1;
    }
    proof {
        assert(fv.take(fields.len() as int) =~= fv);
    }
    out
}

/// The generated filters of a filter set.
pub fn api_filters(filters: &Vec<Filter>, model: &Vec<ModelField>) -> (r: Vec<ApiFilter>)
    ensures
        api_filters_seq(r@) == api_filters_spec(filters_view(filters@), model_view(model@)),
{
    let ghost fv = filters_view(filters@);
    let mut out: Vec<ApiFilter> = Vec::new();
    let mut i: usize = 0;
    while i < filters.len()
        invariant
            i <= filters.len(),
            fv == filters_view(filters@),
            api_filters_seq(out@) == api_filters_spec(fv.take(i as int), model_view(model@)),
        decreases filters.len() - i,
    {
        proof {
            assert(fv.take(i + 1).drop_last() =~= fv.take(i as int));
            assert(fv.take(i + 1).last() == filters@[i as int]@);
        }
        let f = &filters[i];
        match find_column(model, f.source.as_str()) {
            Some(mf) => {
                let a = ApiFilter { name: f.query_name(), source: f.source.clone(), ty: mf.ty, nullable: mf.nullable };
                let ghost before = out@;
                let ghost av = a@;
                out.push(a);
                proof {
                    assert(api_filters_seq(out@) =~= api_filters_seq(before).push(av));
                }
            },
            None => {},
        }
        i = i + 1;
    }
    proof {
        assert(fv.take(filters.len() as int) =~= fv);
    }
    out
}

/// Whether `::` starts at position `i`.
pub open spec fn path_sep_at(s: Seq<char>, i: int) -> bool {
    0 <= i && i + 1 < s.len() && s[i] == ':' && s[i + 1] == ':'
}

/// The last segment of a `::`-separated type path.
pub open spec fn rust_type_name_spec(s: Seq<char>) -> Seq<char> {
    if exists|i: int| path_sep_at(s, i) {
        let i = choose|i: int| path_sep_at(s, i) && forall|j: int| i < j ==> !path_sep_at(s, j);
        s.skip(i + 2)
    } else {
        s
    }
}

/// The model name in a type path: the text after its last `::`.
pub fn rust_type_name(full: &str) -> (r: String)
    ensures
        r@ == rust_type_name_spec(full@),
{
    let cs = to_chars(full);
    let n = cs.len();
    let mut i: usize = n;
    while i >= 2
        invariant
            cs@ == full@,
            n == cs.len(),
            i <= n,
            forall|j: int| i - 1 <= j ==> !path_sep_at(cs@, j),
        decreases i,
    {
        if cs[i - 2] == ':' && cs[i - 1] == ':' {
            proof {
                let k = i - 2;
                assert(path_sep_at(cs@, k as int));
                let c = choose|c: int| path_sep_at(cs@, c) && forall|j: int| c < j ==> !path_sep_at(cs@, j);
                assert(forall|j: int| k < j ==> !path_sep_at(cs@, j));
                if c < k {
                    assert(!path_sep_at(cs@, k as int));
                }
                if k < c {
                    assert(!path_sep_at(cs@, c));
                }
            }
            let rest = chars_range(&cs, i, n);
            assert(rest@ =~= cs@.skip(i as int));
            return string_from_chars(&rest);
        }
        i = i - 1;
    }
    assert(forall|j: int| !path_sep_at(cs@, j));
    string_from_chars(&cs)
}

/// What a module registers about a model: its name, its table and primary
/// key column, and its create-table statement.
pub struct ModelInfo {
    pub model_name: String,
    pub table_name: String,
    pub primary_key: Option<String>,
    pub create_table_sql: String,
}

pub struct ModelInfoView {
    pub model_name: Seq<char>,
    pub table_name: Seq<char>,
    pub primary_key: Option<Seq<char>>,
    pub create_table_sql: Seq<char>,
}

impl View for ModelInfo {
    type V = ModelInfoView;

    open spec fn view(&self) -> ModelInfoView {
        ModelInfoView {
            model_name: self.model_name@,
            table_name: self.table_name@,
            primary_key: opt_str_view(self.primary_key),
            create_table_sql: self.create_table_sql@,
        }
    }
}

pub open spec fn infos_view(s: Seq<ModelInfo>) -> Seq<ModelInfoView> {
    s.map_values(|m: ModelInfo| m@)
}

/// What app modules register: create-table statements, model metadata,
/// generated endpoints and resources.
pub struct ModuleContext {
    sql: Vec<String>,
    schemas: Vec<ModelInfo>,
    api_endpoints: Vec<ApiEndpoint>,
    resources: Vec<ResourceRegistration>,
}

/// The generated endpoint of a resource.
pub open spec fn endpoint_spec(
    model_name: Seq<char>,
    resource: Seq<char>,
    fields: Seq<FieldView>,
    model: Seq<ModelFieldView>,
    filters: Seq<FilterView>,
    filter_model: Seq<ModelFieldView>,
) -> ApiEndpointView {
    ApiEndpointView {
        model_name,
        resource,
        fields: api_fields_spec(fields, model),
        filters: api_filters_spec(filters, filter_model),
    }
}

impl ModuleContext {
    pub closed spec fn sql_spec(&self) -> Seq<Seq<char>> {
        strings_view(self.sql@)
    }

    pub closed spec fn schemas_spec(&self) -> Seq<ModelInfoView> {
        infos_view(self.schemas@)
    }

    pub closed spec fn endpoints_spec(&self) -> Seq<ApiEndpointView> {
        endpoints_view(self.api_endpoints@)
    }

    pub closed spec fn resources_spec(&self) -> Seq<ResourceRegistration> {
        self.resources@
    }

    pub fn new() -> (r: ModuleContext)
        ensures
            r.sql_spec() == Seq::<Seq<char>>::empty(),
            r.schemas_spec() == Seq::<ModelInfoView>::empty(),
            r.endpoints_spec() == Seq::<ApiEndpointView>::empty(),
            r.resources_spec() == Seq::<ResourceRegistration>::empty(),
    {
        let r = ModuleContext { sql: Vec::new(), schemas: Vec::new(), api_endpoints: Vec::new(), resources: Vec::new() };
        assert(strings_view(r.sql@) =~= Seq::<Seq<char>>::empty());
        assert(infos_view(r.schemas@) =~= Seq::<ModelInfoView>::empty());
        assert(endpoints_view(r.api_endpoints@) =~= Seq::<ApiEndpointView>::empty());
        r
    }

    /// Registers a model: its create-table statement and its metadata.
    pub fn model(&mut self, info: ModelInfo)
        ensures
            final(self).sql_spec() == old(self).sql_spec().push(info@.create_table_sql),
            final(self).schemas_spec() == old(self).schemas_spec().push(info@),
            final(self).endpoints_spec() == old(self).endpoints_spec(),
            final(self).resources_spec() == old(self).resources_spec(),
    {
        let ghost iv = info@;
        self.sql.push(info.create_table_sql.clone());
        self.schemas.push(info);
        assert(strings_view(self.sql@) =~= strings_view(old(self).sql@).push(iv.create_table_sql));
        assert(infos_view(self.schemas@) =~= infos_view(old(self).schemas@).push(iv));
    }

    /// The same as `model`.
    pub fn create_table(&mut self, info: ModelInfo)
        ensures
            final(self).sql_spec() == old(self).sql_spec().push(info@.create_table_sql),
            final(self).schemas_spec() == old(self).schemas_spec().push(info@),
            final(self).endpoints_spec() == old(self).endpoints_spec(),
            final(self).resources_spec() == old(self).resources_spec(),
    {
        self.model(info);
    }

    fn push_registration(&mut self, model_name: String, registration: ResourceRegistration)
        ensures
            final(self).sql_spec() == old(self).sql_spec(),
            final(self).schemas_spec() == old(self).schemas_spec(),
            final(self).endpoints_spec() == old(self).endpoints_spec().push(
                ApiEndpointView {
                    model_name: model_name@,
                    resource: registration@.resource,
                    fields: registration@.fields,
                    filters: registration@.filters,
                },
            ),
            final(self).resources_spec() == old(self).resources_spec().push(registration),
    {
        let e = ApiEndpoint {
            model_name,
            resource: registration.resource.clone(),
            fields: copy_api_fields(&registration.fields),
            filters: copy_api_filters(&registration.filters),
        };
        let ghost ev = e@;
        self.api_endpoints.push(e);
        self.resources.push(registration);
        assert(endpoints_view(self.api_endpoints@) =~= endpoints_view(old(self).api_endpoints@).push(ev));
    }

    /// Registers a local resource: the model's table, the endpoint and the resource.
    pub fn resource(&mut self, info: ModelInfo, resource: &str, serializer: ModelSerializer, filterset: FilterSet)
        ensures
            final(self).sql_spec() == old(self).sql_spec().push(info@.create_table_sql),
            final(self).schemas_spec() == old(self).schemas_spec().push(info@),
            final(self).endpoints_spec() == old(self).endpoints_spec().push(
                endpoint_spec(info@.model_name, resource@, serializer.fields_spec(), serializer.model_spec(), filterset.filters_spec(), filterset.model_spec()),
            ),
            final(self).resources_spec().len() == old(self).resources_spec().len() + 1,
            final(self).resources_spec().drop_last() == old(self).resources_spec(),
            final(self).resources_spec().last()@ == (RegistrationView {
                resource: resource@,
                fields: api_fields_spec(serializer.fields_spec(), serializer.model_spec()),
                filters: api_filters_spec(filterset.filters_spec(), filterset.model_spec()),
                invoke: InvokeView::Local {
                    resource: resource@,
                    fields: serializer.fields_spec(),
                    model: serializer.model_spec(),
                    filters: filterset.filters_spec(),
                    filter_model: filterset.model_spec(),
                },
            }),
    {
        let name = info.model_name.clone();
        self.model(info);
        let registration = ResourceRegistration::from_model(resource, serializer, filterset);
        self.push_registration(name, registration);
        assert(self.resources_spec().drop_last() =~= old(self).resources_spec());
    }

    fn remote_registration(
        &mut self,
        info: &ModelInfo,
        resource: &str,
        remote_path: &str,
        serializer: ModelSerializer,
        filterset: FilterSet,
        mode: RemoteMode,
    )
        ensures
            final(self).sql_spec() == old(self).sql_spec(),
            final(self).schemas_spec() == old(self).schemas_spec(),
            final(self).endpoints_spec() == old(self).endpoints_spec().push(
                endpoint_spec(info@.model_name, resource@, serializer.fields_spec(), serializer.model_spec(), filterset.filters_spec(), filterset.model_spec()),
            ),
            final(self).resources_spec().len() == old(self).resources_spec().len() + 1,
            final(self).resources_spec().drop_last() == old(self).resources_spec(),
            final(self).resources_spec().last()@ == remote_registration_view(resource@, remote_path@, mode, serializer.fields_spec(), serializer.model_spec(), filterset.filters_spec(), filterset.model_spec(), filterset.remote_ordering_spec()),
    {
        let registration = ResourceRegistration::from_remote_mode(resource, remote_path, serializer, filterset, mode);
        self.push_registration(info.model_name.clone(), registration);
        assert(self.resources_spec().drop_last() =~= old(self).resources_spec());
    }

    /// Registers a remote resource that passes remote answers on; it has no local table.
    pub fn raw_remote_resource(&mut self, info: ModelInfo, resource: &str, remote_path: &str, serializer: ModelSerializer, filterset: FilterSet)
        ensures
            final(self).sql_spec() == old(self).sql_spec(),
            final(self).schemas_spec() == old(self).schemas_spec(),
            final(self).endpoints_spec() == old(self).endpoints_spec().push(
                endpoint_spec(info@.model_name, resource@, serializer.fields_spec(), serializer.model_spec(), filterset.filters_spec(), filterset.model_spec()),
            ),
            final(self).resources_spec().drop_last() == old(self).resources_spec(),
            final(self).resources_spec().len() == old(self).resources_spec().len() + 1,
            final(self).resources_spec().last()@ == remote_registration_view(resource@, remote_path@, RemoteMode::Raw, serializer.fields_spec(), serializer.model_spec(), filterset.filters_spec(), filterset.model_spec(), filterset.remote_ordering_spec()),
    {
        self.remote_registration(&info, resource, remote_path, serializer, filterset, RemoteMode::Raw);
    }

    /// Registers a remote resource whose answers are normalized through the
    /// serializer; it has no local table.
    pub fn mapped_remote_resource(&mut self, info: ModelInfo, resource: &str, remote_path: &str, serializer: ModelSerializer, filterset: FilterSet)
        ensures
            final(self).sql_spec() == old(self).sql_spec(),
            final(self).schemas_spec() == old(self).schemas_spec(),
            final(self).endpoints_spec() == old(self).endpoints_spec().push(
                endpoint_spec(info@.model_name, resource@, serializer.fields_spec(), serializer.model_spec(), filterset.filters_spec(), filterset.model_spec()),
            ),
            final(self).resources_spec().drop_last() == old(self).resources_spec(),
            final(self).resources_spec().len() == old(self).resources_spec().len() + 1,
            final(self).resources_spec().last()@ == remote_registration_view(resource@, remote_path@, RemoteMode::Mapped, serializer.fields_spec(), serializer.model_spec(), filterset.filters_spec(), filterset.model_spec(), filterset.remote_ordering_spec()),
    {
        self.remote_registration(&info, resource, remote_path, serializer, filterset, RemoteMode::Mapped);
    }

    /// The same as `mapped_remote_resource`.
    pub fn remote_resource(&mut self, info: ModelInfo, resource: &str, remote_path: &str, serializer: ModelSerializer, filterset: FilterSet)
        ensures
            final(self).sql_spec() == old(self).sql_spec(),
            final(self).schemas_spec() == old(self).schemas_spec(),
            final(self).endpoints_spec() == old(self).endpoints_spec().push(
                endpoint_spec(info@.model_name, resource@, serializer.fields_spec(), serializer.model_spec(), filterset.filters_spec(), filterset.model_spec()),
            ),
            final(self).resources_spec().drop_last() == old(self).resources_spec(),
            final(self).resources_spec().len() == old(self).resources_spec().len() + 1,
            final(self).resources_spec().last()@ == remote_registration_view(resource@, remote_path@, RemoteMode::Mapped, serializer.fields_spec(), serializer.model_spec(), filterset.filters_spec(), filterset.model_spec(), filterset.remote_ordering_spec()),
    {
        self.mapped_remote_resource(info, resource, remote_path, serializer, filterset);
    }

    /// Registers a mapped remote resource whose answers are also cached in a
    /// local table: the model's table is created.
    pub fn cached_mapped_remote_resource(&mut self, info: ModelInfo, resource: &str, remote_path: &str, serializer: ModelSerializer, filterset: FilterSet)
        ensures
            final(self).sql_spec() == old(self).sql_spec().push(info@.create_table_sql),
            final(self).schemas_spec() == old(self).schemas_spec().push(info@),
            final(self).endpoints_spec() == old(self).endpoints_spec().push(
                endpoint_spec(info@.model_name, resource@, serializer.fields_spec(), serializer.model_spec(), filterset.filters_spec(), filterset.model_spec()),
            ),
            final(self).resources_spec().drop_last() == old(self).resources_spec(),
            final(self).resources_spec().len() == old(self).resources_spec().len() + 1,
            final(self).resources_spec().last()@ == remote_registration_view(resource@, remote_path@, RemoteMode::CachedMapped, serializer.fields_spec(), serializer.model_spec(), filterset.filters_spec(), filterset.model_spec(), filterset.remote_ordering_spec()),
    {
        self.remote_registration(&info, resource, remote_path, serializer, filterset, RemoteMode::CachedMapped);
        self.model(info);
    }

    pub fn model_schemas(&self) -> (r: &Vec<ModelInfo>)
        ensures
            infos_view(r@) == self.schemas_spec(),
    {
        &self.schemas
    }

    pub fn api_endpoints(&self) -> (r: &Vec<ApiEndpoint>)
        ensures
            endpoints_view(r@) == self.endpoints_spec(),
    {
        &self.api_endpoints
    }

    /// The create-table statements and the resources.
    pub fn into_parts(self) -> (r: (Vec<String>, Vec<ResourceRegistration>))
        ensures
            strings_view(r.0@) == self.sql_spec(),
            r.1@ == self.resources_spec(),
    {
        (self.sql, self.resources)
    }
}

/// A part of an application: it has a name and registers its models and
/// resources on a module context.
pub trait AppModule {
    fn name(&self) -> &'static str;

    fn init(&self, ctx: &mut ModuleContext);
}

pub open spec fn name_is(name: Seq<char>) -> spec_fn(Seq<char>) -> bool {
    |n: Seq<char>| n == name
}

/// The position of the first installed module with the given name, among
/// the names of the installed modules in installation order.
pub fn find_module(names: &Vec<&'static str>, name: &str) -> (r: Option<usize>)
    ensures
        match first_match(names@.map_values(|n: &'static str| n@), name_is(name@)) {
            Some(i) => r == Some(i as usize),
            None => r is None,
        },
{
    let ghost nv = names@.map_values(|n: &'static str| n@);
    let mut i: usize = 0;
    while i < names.len()
        invariant
            i <= names.len(),
            nv == names@.map_values(|n: &'static str| n@),
            forall|j: int| 0 <= j < i ==> !name_is(name@)(#[trigger] nv[j]),
        decreases names.len() - i,
    {
        if str_eq(names[i], name) {
            proof {
                lemma_first_match_is(nv, name_is(name@), i as int);
            }
            return Some(i);
        }
        i = i + 1;
    }
    proof {
        lemma_first_match_none(nv, name_is(name@));
    }
    None
}

/// The registration of a remote resource.
pub open spec fn remote_registration_view(
    resource: Seq<char>,
    remote_path: Seq<char>,
    mode: RemoteMode,
    fields: Seq<FieldView>,
    model: Seq<ModelFieldView>,
    filters: Seq<FilterView>,
    filter_model: Seq<ModelFieldView>,
    remote_ordering: Option<Seq<char>>,
) -> RegistrationView {
    RegistrationView {
        resource,
        fields: api_fields_spec(fields, model),
        filters: api_filters_spec(filters, filter_model),
        invoke: InvokeView::Remote { resource, remote_path, mode, fields, model, filters, remote_ordering },
    }
}

} // verus!
