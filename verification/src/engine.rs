//! What is assumed of the query engine and of the storage client: none of
//! the contracts in this file is proved.

use std::sync::Arc;
use vstd::prelude::*;
use arrow::datatypes::SchemaBuilder;
use arrow::record_batch::RecordBatch;
use datafusion::datasource::listing::ListingTableUrl;
use datafusion::error::DataFusionError;
use datafusion::prelude::SessionContext;
use object_store::aws::AmazonS3;
use object_store::aws::AmazonS3Builder;
use crate::config::ClientOptionsView;
use crate::schema::DataType;
use crate::schema::Field;
use crate::schema::FieldView;

verus! {

/// The engine's session, with its catalog of object stores.
#[verifier::external_type_specification]
#[verifier::external_body]
pub struct ExSessionContext(SessionContext);

/// A URL that the engine has parsed.
#[verifier::external_type_specification]
#[verifier::external_body]
pub struct ExListingTableUrl(ListingTableUrl);

/// The engine's error.
#[verifier::external_type_specification]
#[verifier::external_body]
pub struct ExDataFusionError(DataFusionError);

/// A client of an S3-compatible object store.
#[verifier::external_type_specification]
#[verifier::external_body]
pub struct ExAmazonS3(AmazonS3);

/// The options from which such a client is built.
#[verifier::external_type_specification]
#[verifier::external_body]
pub struct ExAmazonS3Builder(AmazonS3Builder);

/// The storage client's error.
#[verifier::external_type_specification]
#[verifier::external_body]
pub struct ExStoreError(object_store::Error);

/// The fields of an engine schema that is being put together.
#[verifier::external_type_specification]
#[verifier::external_body]
pub struct ExSchemaBuilder(SchemaBuilder);

/// What the engine holds under a key of its registry of object stores.
pub enum StoreView {
    /// The local file system.
    LocalFiles,
    /// A storage client, by the options from which it was built.
    Client(ClientOptionsView),
}

/// The session's registry of object stores: each key with the store that
/// the engine reaches under it.
pub uninterp spec fn engine_stores(ctx: SessionContext) -> Map<Seq<char>, StoreView>;

/// The tables of the session's default schema: each name with the fields
/// of its table.
pub uninterp spec fn engine_tables(ctx: SessionContext) -> Map<Seq<char>, Seq<FieldView>>;

/// The key under which the engine's registry files a store for a URL: the
/// URL's scheme, `://`, and its host with the port if it has one.
pub uninterp spec fn url_key(url: ListingTableUrl) -> Seq<char>;

/// The fields that a builder holds, in the order in which they were pushed,
/// each as the library's field of the same name, type and nullability.
pub uninterp spec fn builder_fields(builder: SchemaBuilder) -> Seq<FieldView>;

/// The options that a builder holds.
pub uninterp spec fn builder_options(builder: AmazonS3Builder) -> ClientOptionsView;

/// The options from which a client was built.
pub uninterp spec fn made_with(client: AmazonS3) -> ClientOptionsView;

/// The message of an engine's error.
pub uninterp spec fn engine_error_message(e: DataFusionError) -> Seq<char>;

/// The message with which the engine refuses a table under a name that its
/// default schema holds already.
pub open spec fn table_exists_message(name: Seq<char>) -> Seq<char> {
    "Execution error: The table "@ + name + " already exists"@
}

/// The message of a storage client's error.
pub uninterp spec fn store_error_message(e: object_store::Error) -> Seq<char>;

/// The key under which every new session holds the local file system.
pub open spec fn local_files_key() -> Seq<char> {
    "file://"@
}

/// The object stores of a new session: the local file system under
/// `file://`, and nothing else.
pub open spec fn initial_stores() -> Map<Seq<char>, StoreView> {
    Map::<Seq<char>, StoreView>::empty().insert(local_files_key(), StoreView::LocalFiles)
}

/// No tables.
pub open spec fn no_tables() -> Map<Seq<char>, Seq<FieldView>> {
    Map::<Seq<char>, Seq<FieldView>>::empty()
}

/// `SessionContext::new`: a session of its own runtime environment, whose
/// registry of object stores holds the local file system under `file://` and
/// nothing else, and whose default schema holds no table.
#[verifier::external_body]
pub(crate) fn new_session() -> (ctx: SessionContext)
    ensures
        engine_stores(ctx) == initial_stores(),
        engine_tables(ctx) == no_tables(),
{
    SessionContext::new()
}

/// `ListingTableUrl::parse`. Nothing is claimed of the outcome: a text
/// without a scheme is read as a path against the working directory.
#[verifier::external_body]
pub(crate) fn parse_listing_url(text: &str) -> (r: Result<ListingTableUrl, DataFusionError>) {
    ListingTableUrl::parse(text)
}

/// The registry key of a parsed URL, put together as the engine's registry
/// does it: from `Url::scheme` and the part of the URL from the host to the
/// end of the port.
#[verifier::external_body]
pub(crate) fn listing_url_key(url: &ListingTableUrl) -> (key: String)
    ensures
        key@ == url_key(*url),
{
    let u: &url::Url = url.as_ref();
    format!("{}://{}", u.scheme(), &u[url::Position::BeforeHost..url::Position::AfterPort])
}

/// `SessionContext::register_object_store`, on a session with the registry
/// that `SessionContext::new` gives it: this client is filed under the URL's
/// key, in place of a store that was there; the other keys keep their
/// stores, and the tables stay.
#[verifier::external_body]
pub(crate) fn register_object_store(
    ctx: &mut SessionContext,
    url: &ListingTableUrl,
    store: &Arc<AmazonS3>,
)
    ensures
        engine_stores(*final(ctx)) == engine_stores(*old(ctx)).insert(
            url_key(*url),
            StoreView::Client(made_with(**store)),
        ),
        engine_tables(*final(ctx)) == engine_tables(*old(ctx)),
{
    ctx.register_object_store(url.as_ref(), store.clone());
}

/// `AmazonS3Builder::new` with the credentials, bucket and region set, and
/// the two switches: whether plain HTTP is allowed, and whether requests are
/// virtual-hosted-style. The builder holds these options and no endpoint.
#[verifier::external_body]
pub(crate) fn s3_builder(
    access_key: &str,
    access_secret: &str,
    bucket: &str,
    region: &str,
    allow_http: bool,
    virtual_hosted_style: bool,
) -> (builder: AmazonS3Builder)
    ensures
        builder_options(builder) == (ClientOptionsView {
            access_key: access_key@,
            access_secret: access_secret@,
            bucket: bucket@,
            region: region@,
            endpoint: None,
            allow_http,
            virtual_hosted_style,
        }),
{
    AmazonS3Builder::new()
        .with_access_key_id(access_key)
        .with_secret_access_key(access_secret)
        .with_bucket_name(bucket)
        .with_allow_http(allow_http)
        .with_region(region)
        .with_virtual_hosted_style_request(virtual_hosted_style)
}

/// `AmazonS3Builder::with_endpoint`: the builder holds the endpoint, and its
/// other options as before.
#[verifier::external_body]
pub(crate) fn s3_with_endpoint(builder: AmazonS3Builder, endpoint: &str) -> (r: AmazonS3Builder)
    ensures
        builder_options(r) == (ClientOptionsView {
            endpoint: Some(endpoint@),
            ..builder_options(builder)
        }),
{
    builder.with_endpoint(endpoint)
}

/// `AmazonS3Builder::build`. Whether a client is built is not claimed; one
/// that is built was built from the builder's options.
#[verifier::external_body]
pub(crate) fn s3_build(builder: AmazonS3Builder) -> (r: Result<
    Arc<AmazonS3>,
    object_store::Error,
>)
    ensures
        r matches Ok(client) ==> made_with(*client) == builder_options(builder),
{
    builder.build().map(Arc::new)
}

/// The engine's error as text: what its `Display` writes.
#[verifier::external_body]
pub(crate) fn engine_error_text(e: &DataFusionError) -> (text: String)
    ensures
        text@ == engine_error_message(*e),
{
    e.to_string()
}

/// The storage client's error as text: what its `Display` writes.
#[verifier::external_body]
pub(crate) fn store_error_text(e: &object_store::Error) -> (text: String)
    ensures
        text@ == store_error_message(*e),
{
    e.to_string()
}

/// `SchemaBuilder::new`: a builder without fields.
#[verifier::external_body]
pub(crate) fn schema_builder() -> (builder: SchemaBuilder)
    ensures
        builder_fields(builder) == Seq::<FieldView>::empty(),
{
    SchemaBuilder::new()
}

/// `SchemaBuilder::push`, with the engine's field of the same name, type and
/// nullability: the field goes to the end. Only the six supported types
/// have their engine type here.
#[verifier::external_body]
pub(crate) fn push_field(builder: &mut SchemaBuilder, field: &Field)
    requires
        field@.data_type.is_supported(),
    ensures
        builder_fields(*final(builder)) == builder_fields(*old(builder)).push(field@),
{
    let data_type = match field.data_type {
        DataType::Boolean => arrow::datatypes::DataType::Boolean,
        DataType::Int32 => arrow::datatypes::DataType::Int32,
        DataType::Int64 => arrow::datatypes::DataType::Int64,
        DataType::UInt64 => arrow::datatypes::DataType::UInt64,
        DataType::Float64 => arrow::datatypes::DataType::Float64,
        DataType::Utf8 => arrow::datatypes::DataType::Utf8,
        _ => arrow::datatypes::DataType::Null,
    };
    builder.push(arrow::datatypes::Field::new(&field.name, data_type, field.nullable));
}

/// `SessionContext::register_batch`, with the empty batch of the builder's
/// schema, on a session with the default schema that `SessionContext::new`
/// gives it. The engine takes the table exactly if its default schema does
/// not hold the name yet: then it holds the name with the builder's fields.
/// Else the tables stay as they were, and the engine's error says that the
/// table exists already. The object stores stay.
#[verifier::external_body]
pub(crate) fn register_empty_table(
    ctx: &mut SessionContext,
    name: &str,
    builder: SchemaBuilder,
) -> (r: Result<(), DataFusionError>)
    ensures
        r is Ok <==> !engine_tables(*old(ctx)).contains_key(name@),
        match r {
            Ok(()) => engine_tables(*final(ctx)) == engine_tables(*old(ctx)).insert(
                name@,
                builder_fields(builder),
            ),
            Err(e) => {
                &&& engine_tables(*final(ctx)) == engine_tables(*old(ctx))
                &&& engine_error_message(e) == table_exists_message(name@)
            },
        },
        engine_stores(*final(ctx)) == engine_stores(*old(ctx)),
{
    let batch = RecordBatch::new_empty(Arc::new(builder.finish()));
    ctx.register_batch(name, batch).map(|_| ())
}

} // verus!
