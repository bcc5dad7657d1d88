//! The registry of storages: each one known by name here and, under its URL,
//! in the engine's catalog of object stores.

use std::sync::Arc;
use vstd::prelude::*;
use arrow::datatypes::SchemaBuilder;
use datafusion::datasource::listing::ListingTableUrl;
use datafusion::error::DataFusionError;
use datafusion::prelude::SessionContext;
use object_store::aws::AmazonS3;
use crate::batch::Batch;
use crate::batch::empty_table;
use crate::batch::first_unsupported;
use crate::batch::first_unsupported_bounds;
use crate::batch::readable_column_is_supported;
use crate::config::ClientOptions;
use crate::config::ClientOptionsView;
use crate::config::StorageConfig;
use crate::config::StorageConfigView;
use crate::config::StorageMap;
use crate::config::StoragesView;
use crate::engine::builder_fields;
use crate::engine::engine_error_text;
use crate::engine::engine_stores;
use crate::engine::engine_tables;
use crate::engine::initial_stores;
use crate::engine::listing_url_key;
use crate::engine::local_files_key;
use crate::engine::made_with;
use crate::engine::new_session;
use crate::engine::no_tables;
use crate::engine::parse_listing_url;
use crate::engine::push_field;
use crate::engine::register_empty_table;
use crate::engine::register_object_store;
use crate::engine::s3_build;
use crate::engine::s3_builder;
use crate::engine::s3_with_endpoint;
use crate::engine::schema_builder;
use crate::engine::store_error_message;
use crate::engine::store_error_text;
use crate::engine::StoreView;
use crate::engine::table_exists_message;
use crate::engine::url_key;
use crate::error::CacheError;
use crate::error::ConfigIssue;
use crate::error::ErrorView;
use crate::keyed::distinct_names;
use crate::keyed::has_name;
use crate::keyed::lookup;
use crate::keyed::position;
use crate::keyed::position_is_first;
use crate::schema::FieldView;
use crate::schema::Schema;
use crate::text::same_text;

verus! {

/// A registered storage: its name, its client, and its descriptor.
pub struct StorageEntry {
    pub name: String,
    pub store: Arc<AmazonS3>,
    pub config: StorageConfig,
}

/// The object stores that the engine holds when the given storages are
/// registered, in their order, with a new session: the local file system
/// under `file://`, and under the URL of each storage's bucket the client
/// that follows from the storage's descriptor. Of two storages with one URL
/// the later one's client is the one that the engine holds.
pub open spec fn stores_of(storages: StoragesView) -> Map<Seq<char>, StoreView>
    decreases storages.len(),
{
    if storages.len() == 0 {
        initial_stores()
    } else {
        stores_of(storages.drop_last()).insert(
            storages.last().1.url(),
            StoreView::Client(storages.last().1.client_options()),
        )
    }
}

/// What keeps a table from being made, if anything: a field of a type that
/// is not supported, the first such; else a table that the engine holds
/// under the name already.
pub open spec fn table_refusal(
    tables: Map<Seq<char>, Seq<FieldView>>,
    name: Seq<char>,
    schema: Seq<FieldView>,
) -> Option<ErrorView> {
    let at = first_unsupported(schema, 0);
    if 0 <= at < schema.len() {
        Some(ErrorView::UnsupportedType { data_type: schema[at].data_type.name() })
    } else if tables.contains_key(name) {
        Some(ErrorView::Query { message: table_exists_message(name) })
    } else {
        None
    }
}

/// What turns a registration down before anything outside the library is
/// asked: a name that is taken; else a descriptor with an issue.
pub open spec fn rejection(
    registered: StoragesView,
    name: Seq<char>,
    config: StorageConfigView,
) -> Option<ErrorView> {
    if has_name(registered, name) {
        Some(ErrorView::DuplicateName { name })
    } else if config.issue() is Some {
        Some(ErrorView::Configuration { name, issue: config.issue()->Some_0 })
    } else {
        None
    }
}

/// Whether a failure is one that the storage client or the URL parser
/// decides, for the storage of the given name.
pub open spec fn outside_failure(e: ErrorView, name: Seq<char>) -> bool {
    ||| e matches ErrorView::BackendConnect { name: n, .. } && n == name
    ||| e == (ErrorView::Configuration { name, issue: ConfigIssue::MalformedUrl })
}

/// A storage that is ready to be registered: its client is built, and its
/// URL is parsed and stands in the engine's catalog for the very text
/// `scheme://bucket`.
pub struct Prepared {
    entry: StorageEntry,
    url: ListingTableUrl,
}

impl Prepared {
    /// The storage's name.
    pub closed spec fn name(&self) -> Seq<char> {
        self.entry.name@
    }

    /// The storage's descriptor.
    pub closed spec fn config(&self) -> StorageConfigView {
        self.entry.config@
    }

    /// The key under which the engine files the storage's client.
    pub closed spec fn key(&self) -> Seq<char> {
        url_key(self.url)
    }

    /// The options from which the storage's client was built.
    pub closed spec fn client(&self) -> ClientOptionsView {
        made_with(*self.entry.store)
    }

    #[verifier::type_invariant]
    closed spec fn inv(&self) -> bool {
        self.key() == self.config().url()
    }
}

/// What becomes of a registration once the storage client and the URL
/// parser have answered, for every answer: a client that was not built is a
/// connect failure with the client's message; a URL that was not parsed, or
/// whose key in the engine's catalog is not the very text `scheme://bucket`,
/// is a malformed URL; else the storage is ready.
pub fn settle(
    name: &str,
    config: StorageConfig,
    client: Result<Arc<AmazonS3>, object_store::Error>,
    url: Result<ListingTableUrl, DataFusionError>,
) -> (r: Result<Prepared, CacheError>)
    ensures
        match r {
            Ok(p) => {
                &&& client is Ok
                &&& url is Ok
                &&& url_key(url->Ok_0) == config@.url()
                &&& p.name() == name@
                &&& p.config() == config@
                &&& p.key() == config@.url()
                &&& p.client() == made_with(*client->Ok_0)
            },
            Err(e) => if client is Err {
                e@ == (ErrorView::BackendConnect {
                    name: name@,
                    message: store_error_message(client->Err_0),
                })
            } else {
                &&& url is Ok ==> url_key(url->Ok_0) != config@.url()
                &&& e@ == (ErrorView::Configuration {
                    name: name@,
                    issue: ConfigIssue::MalformedUrl,
                })
            },
        },
{
    let store = match client {
        Ok(store) => store,
        Err(e) => {
            return Err(
                CacheError::BackendConnect {
                    name: name.to_string(),
                    message: store_error_text(&e),
                },
            );
        },
    };
    let url = match url {
        Ok(url) => url,
        Err(_) => {
            return Err(
                CacheError::Configuration {
                    name: name.to_string(),
                    issue: ConfigIssue::MalformedUrl,
                },
            );
        },
    };
    let key = listing_url_key(&url);
    let text = config.url();
    if !same_text(key.as_str(), text.as_str()) {
        return Err(
            CacheError::Configuration { name: name.to_string(), issue: ConfigIssue::MalformedUrl },
        );
    }
    Ok(Prepared { entry: StorageEntry { name: name.to_string(), store, config }, url })
}

/// Builds the storage client that the options describe. Whether a client
/// is built the storage client library decides; one that is built was built
/// from these options.
pub fn connect(options: &ClientOptions) -> (r: Result<Arc<AmazonS3>, object_store::Error>)
    ensures
        r matches Ok(client) ==> made_with(*client) == options@,
{
    let builder = s3_builder(
        options.access_key.as_str(),
        options.access_secret.as_str(),
        options.bucket.as_str(),
        options.region.as_str(),
        options.allow_http,
        options.virtual_hosted_style,
    );
    let builder = match &options.endpoint {
        Some(endpoint) => s3_with_endpoint(builder, endpoint.as_str()),
        None => builder,
    };
    s3_build(builder)
}

/// The engine's schema of a table whose columns can all be read: field by
/// field that of the table.
fn engine_schema(table: &Batch) -> (builder: SchemaBuilder)
    requires
        table.wf(),
        table.is_readable(),
    ensures
        builder_fields(builder) == table.fields(),
{
    let mut builder = schema_builder();
    let schema = table.schema();
    let mut i: usize = 0;
    while i < schema.fields.len()
        invariant
            i <= schema.fields@.len(),
            schema@ == table.fields(),
            schema@.len() == schema.fields@.len(),
            table.wf(),
            table.is_readable(),
            builder_fields(builder) == table.fields().take(i as int),
        decreases schema.fields@.len() - i,
    {
        let field = &schema.fields[i];
        proof {
            assert(schema@[i as int] == field@);
            readable_column_is_supported(*table, 0, i as int);
            assert(table.fields().take(i + 1) =~= table.fields().take(i as int).push(field@));
        }
        push_field(&mut builder, field);
        i = i + 1;
    }
    assert(table.fields().take(i as int) =~= table.fields());
    builder
}

/// The storages by name, together with the engine session in whose catalog
/// their clients stand.
pub struct Registry {
    ctx: SessionContext,
    entries: Vec<StorageEntry>,
}

impl View for Registry {
    type V = StoragesView;

    closed spec fn view(&self) -> StoragesView {
        Seq::new(self.entries@.len(), |i: int| (self.entries@[i].name@, self.entries@[i].config@))
    }
}

impl Registry {
    /// The engine's catalog of object stores: each key with the store that
    /// the engine reaches under it. These are the stores as this registry
    /// has filed them: a store that somebody else files in the session is
    /// not seen here.
    pub closed spec fn stores(&self) -> Map<Seq<char>, StoreView> {
        engine_stores(self.ctx)
    }

    /// The tables of the engine's default schema: each name with the fields
    /// of its table. These are the tables as this registry has made them:
    /// a statement that is run on the session and makes or drops a table
    /// is not seen here.
    pub closed spec fn tables(&self) -> Map<Seq<char>, Seq<FieldView>> {
        engine_tables(self.ctx)
    }

    /// The options from which the clients of the registered storages were
    /// built, in the order of registration.
    pub closed spec fn clients(&self) -> Seq<ClientOptionsView> {
        Seq::new(self.entries@.len(), |i: int| made_with(*self.entries@[i].store))
    }

    /// What holds of the registry at all times: no name is registered twice;
    /// the client of each storage was built from the options that follow
    /// from its descriptor; and the engine's catalog of object stores is
    /// that of the registered storages: it holds the local file system, and
    /// under the URL of each registered bucket the client of the storage,
    /// and nothing else.
    pub open spec fn wf(&self) -> bool {
        &&& distinct_names(self@)
        &&& self.clients().len() == self@.len()
        &&& forall|i: int|
            0 <= i < self@.len() ==> #[trigger] self.clients()[i] == self@[i].1.client_options()
        &&& self.stores() == stores_of(self@)
    }

    /// A registry without storages, on a session of its own, which knows
    /// no table.
    pub fn new() -> (r: Registry)
        ensures
            r.wf(),
            r@ == StoragesView::empty(),
            r.tables() == no_tables(),
    {
        let r = Registry { ctx: new_session(), entries: Vec::new() };
        assert(r@ =~= StoragesView::empty());
        assert(r.clients() =~= Seq::<ClientOptionsView>::empty());
        r
    }

    /// The engine's session.
    ///
    /// What is said of the engine's object stores and tables is said of
    /// what this registry does: it holds as long as nobody else files a
    /// store in the session, or makes or drops a table in it.
    pub fn session(&self) -> (ctx: &SessionContext)
        ensures
            engine_stores(*ctx) == self.stores(),
            engine_tables(*ctx) == self.tables(),
    {
        &self.ctx
    }

    /// The number of registered storages.
    pub fn len(&self) -> (n: usize)
        ensures
            n == self@.len(),
    {
        self.entries.len()
    }

    /// The storage at a position, in the order of registration.
    pub fn entry_at(&self, i: usize) -> (entry: &StorageEntry)
        requires
            i < self@.len(),
        ensures
            entry.name@ == self@[i as int].0,
            entry.config@ == self@[i as int].1,
            made_with(*entry.store) == self.clients()[i as int],
    {
        &self.entries[i]
    }

    fn find(&self, name: &str) -> (at: usize)
        ensures
            at == position(self@, name@, 0),
            at <= self@.len(),
    {
        let mut i: usize = 0;
        while i < self.entries.len()
            invariant
                i <= self.entries@.len(),
                self@.len() == self.entries@.len(),
                position(self@, name@, 0) == position(self@, name@, i as int),
            decreases self.entries@.len() - i,
        {
            if same_text(self.entries[i].name.as_str(), name) {
                return i;
            }
            i = i + 1;
        }
        i
    }

    /// The storage of a name; the failure that names it where there is none.
    pub fn resolve(&self, name: &str) -> (r: Result<&StorageEntry, CacheError>)
        ensures
            match r {
                Ok(entry) => {
                    &&& has_name(self@, name@)
                    &&& entry.name@ == name@
                    &&& Some(entry.config@) == lookup(self@, name@)
                    &&& made_with(*entry.store) == self.clients()[position(self@, name@, 0)]
                },
                Err(e) => !has_name(self@, name@) && e@ == (ErrorView::UnknownStorage {
                    name: name@,
                }),
            },
    {
        let at = self.find(name);
        proof {
            position_is_first(self@, name@, 0);
        }
        if at < self.entries.len() {
            Ok(&self.entries[at])
        } else {
            Err(CacheError::UnknownStorage { name: name.to_string() })
        }
    }

    /// Turns a registration down where the name is taken or the descriptor
    /// has an issue, without asking anything outside the library.
    pub fn check(&self, name: &str, config: &StorageConfig) -> (r: Result<(), CacheError>)
        ensures
            match rejection(self@, name@, config@) {
                Some(e) => r is Err && r->Err_0@ == e,
                None => r is Ok,
            },
    {
        if self.find(name) < self.entries.len() {
            return Err(CacheError::DuplicateName { name: name.to_string() });
        }
        match config.validate() {
            Some(issue) => Err(CacheError::Configuration { name: name.to_string(), issue }),
            None => Ok(()),
        }
    }

    /// Makes a storage ready to be registered, and changes nothing: the
    /// checks of [`Registry::check`]; then the client, built from the
    /// descriptor's [`ClientOptions`], and the URL, parsed from the text
    /// `scheme://bucket`; both settled as [`settle`] says.
    fn prepare(&self, name: &str, config: StorageConfig) -> (r: Result<Prepared, CacheError>)
        ensures
            match r {
                Ok(p) => {
                    &&& rejection(self@, name@, config@) is None
                    &&& p.name() == name@
                    &&& p.config() == config@
                    &&& p.key() == config@.url()
                    &&& p.client() == config@.client_options()
                },
                Err(e) => match rejection(self@, name@, config@) {
                    Some(rejected) => e@ == rejected,
                    None => outside_failure(e@, name@),
                },
            },
    {
        match self.check(name, &config) {
            Err(e) => {
                return Err(e);
            },
            Ok(()) => {},
        }
        let client = connect(&config.client_options());
        let text = config.url();
        let url = parse_listing_url(text.as_str());
        settle(name, config, client, url)
    }

    /// Registers a storage that is ready: its client goes into the engine's
    /// catalog under its URL, and the storage to the end of the registry.
    fn install(&mut self, prepared: Prepared)
        requires
            old(self).wf(),
            !has_name(old(self)@, prepared.name()),
            prepared.client() == prepared.config().client_options(),
        ensures
            final(self).wf(),
            final(self)@ == old(self)@.push((prepared.name(), prepared.config())),
            final(self).tables() == old(self).tables(),
    {
        proof {
            use_type_invariant(&prepared);
            position_is_first(self@, prepared.name(), 0);
        }
        let Prepared { entry, url } = prepared;
        register_object_store(&mut self.ctx, &url, &entry.store);
        self.entries.push(entry);
        proof {
            let after = old(self)@.push((prepared.name(), prepared.config()));
            assert(self@ =~= after);
            assert(after.drop_last() =~= old(self)@);
            assert(self.clients() =~= old(self).clients().push(prepared.client()));
            assert(self.stores() == stores_of(after));
            assert(distinct_names(after));
        }
    }

    /// Makes the empty table of a schema known to the engine under a name.
    ///
    /// Fails on the first field whose type is not supported, naming the
    /// type, before the engine is asked; and where the engine holds a table
    /// of the name already, with the engine's message. Else the engine
    /// takes the table: it then knows under the name a table of exactly the
    /// schema's fields, without rows. A call that fails leaves the engine's
    /// tables as they were. The storages and the object stores are not
    /// touched.
    pub fn register_table(&mut self, name: &str, schema: &Schema) -> (r: Result<(), CacheError>)
        ensures
            final(self)@ == old(self)@,
            final(self).clients() == old(self).clients(),
            final(self).stores() == old(self).stores(),
            match table_refusal(old(self).tables(), name@, schema@) {
                Some(refusal) => {
                    &&& r matches Err(e) && e@ == refusal
                    &&& final(self).tables() == old(self).tables()
                },
                None => {
                    &&& r is Ok
                    &&& final(self).tables() == old(self).tables().insert(name@, schema@)
                },
            },
    {
        proof {
            first_unsupported_bounds(schema@, 0);
        }
        let table = match empty_table(schema) {
            Ok(table) => table,
            Err(e) => {
                return Err(e);
            },
        };
        let fields = engine_schema(&table);
        match register_empty_table(&mut self.ctx, name, fields) {
            Ok(()) => Ok(()),
            Err(e) => Err(CacheError::Query { message: engine_error_text(&e) }),
        }
    }

    /// Registers one storage.
    ///
    /// The name and the descriptor are checked first, then the client is
    /// built and the URL parsed, and only then is anything changed: a call
    /// that fails leaves the registry and the engine's catalog as they were.
    pub fn register(&mut self, name: &str, config: StorageConfig) -> (r: Result<(), CacheError>)
        requires
            old(self).wf(),
        ensures
            final(self).wf(),
            final(self).tables() == old(self).tables(),
            match r {
                Ok(()) => {
                    &&& rejection(old(self)@, name@, config@) is None
                    &&& final(self)@ == old(self)@.push((name@, config@))
                },
                Err(e) => {
                    &&& final(self)@ == old(self)@
                    &&& final(self).stores() == old(self).stores()
                    &&& match rejection(old(self)@, name@, config@) {
                        Some(rejected) => e@ == rejected,
                        None => outside_failure(e@, name@),
                    }
                },
            },
    {
        match self.prepare(name, config) {
            Ok(prepared) => {
                self.install(prepared);
                Ok(())
            },
            Err(e) => Err(e),
        }
    }

    /// Registers the given storages, all or none.
    ///
    /// Every storage is made ready, in order, before the first is
    /// registered; the first that cannot be made ready fails the call, and
    /// its name stands in the failure.
    pub fn init_all(&mut self, storages: &StorageMap) -> (r: Result<(), CacheError>)
        requires
            old(self).wf(),
        ensures
            final(self).wf(),
            final(self).tables() == old(self).tables(),
            match r {
                Ok(()) => {
                    &&& first_rejected(old(self)@, storages@, 0) == storages@.len()
                    &&& final(self)@ == old(self)@ + storages@
                },
                Err(e) => {
                    let at = first_rejected(old(self)@, storages@, 0);
                    &&& final(self)@ == old(self)@
                    &&& final(self).stores() == old(self).stores()
                    &&& {
                        ||| at < storages@.len() && Some(e@) == rejection(
                            old(self)@,
                            storages@[at].0,
                            storages@[at].1,
                        )
                        ||| exists|j: int| 0 <= j < at && outside_failure(e@, storages@[j].0)
                    }
                },
            },
    {
        let count = storages.len();
        let mut ready: Vec<Prepared> = Vec::new();
        let mut i: usize = 0;
        while i < count
            invariant
                i <= count,
                count == storages@.len(),
                *self == *old(self),
                self.wf(),
                ready@.len() == i,
                first_rejected(self@, storages@, 0) == first_rejected(self@, storages@, i as int),
                forall|k: int|
                    0 <= k < i ==> {
                        &&& (#[trigger] ready@[k]).name() == storages@[k].0
                        &&& ready@[k].config() == storages@[k].1
                        &&& ready@[k].client() == storages@[k].1.client_options()
                        &&& !has_name(self@, storages@[k].0)
                    },
            decreases count - i,
        {
            let name = storages.name_at(i);
            let config = storages.config_at(i).duplicate();
            match self.prepare(name.as_str(), config) {
                Ok(prepared) => {
                    ready.push(prepared);
                },
                Err(e) => {
                    proof {
                        first_rejected_bounds(self@, storages@, 0);
                        if rejection(self@, storages@[i as int].0, storages@[i as int].1) is None {
                            rejected_after(self@, storages@, 0, i as int);
                        }
                    }
                    return Err(e);
                },
            }
            i = i + 1;
        }
        let mut done: usize = 0;
        assert(storages@.take(0) =~= StoragesView::empty());
        assert(self@ + StoragesView::empty() =~= self@);
        while done < count
            invariant
                done <= count,
                count == storages@.len(),
                distinct_names(storages@),
                self.wf(),
                self.tables() == old(self).tables(),
                self@ == old(self)@ + storages@.take(done as int),
                ready@.len() == count - done,
                forall|k: int|
                    0 <= k < ready@.len() ==> {
                        &&& (#[trigger] ready@[k]).name() == storages@[done + k].0
                        &&& ready@[k].config() == storages@[done + k].1
                        &&& ready@[k].client() == storages@[done + k].1.client_options()
                        &&& !has_name(old(self)@, storages@[done + k].0)
                    },
            decreases count - done,
        {
            let prepared = ready.remove(0);
            proof {
                name_is_free(old(self)@, storages@, done as int);
                assert(storages@.take(done + 1) =~= storages@.take(done as int).push(
                    storages@[done as int],
                ));
                assert((old(self)@ + storages@.take(done as int)).push(storages@[done as int])
                    =~= old(self)@ + storages@.take(done + 1));
            }
            self.install(prepared);
            done = done + 1;
        }
        assert(storages@.take(count as int) =~= storages@);
        Ok(())
    }
}

/// The index of the first storage from `from` on whose registration is
/// turned down before anything outside the library is asked; the number of
/// storages where there is none.
pub open spec fn first_rejected(registered: StoragesView, storages: StoragesView, from: int) -> int
    decreases storages.len() - from,
{
    if from < 0 || from >= storages.len() || rejection(
        registered,
        storages[from].0,
        storages[from].1,
    ) is Some {
        from
    } else {
        first_rejected(registered, storages, from + 1)
    }
}

/// `first_rejected` lies between its starting point and the number of
/// storages.
pub proof fn first_rejected_bounds(registered: StoragesView, storages: StoragesView, from: int)
    requires
        0 <= from <= storages.len(),
    ensures
        from <= first_rejected(registered, storages, from) <= storages.len(),
    decreases storages.len() - from,
{
    if from < storages.len() && rejection(registered, storages[from].0, storages[from].1) is None {
        first_rejected_bounds(registered, storages, from + 1);
    }
}

/// A storage that is not turned down lies before the first one that is, if
/// none before it is turned down.
pub proof fn rejected_after(registered: StoragesView, storages: StoragesView, from: int, at: int)
    requires
        0 <= from <= at < storages.len(),
        first_rejected(registered, storages, from) == first_rejected(registered, storages, at),
        rejection(registered, storages[at].0, storages[at].1) is None,
    ensures
        at < first_rejected(registered, storages, from),
{
    first_rejected_bounds(registered, storages, at + 1);
}

/// Among storages of distinct names none of which is registered, the name
/// of each is still free when those before it have been registered.
pub proof fn name_is_free(registered: StoragesView, storages: StoragesView, at: int)
    requires
        0 <= at < storages.len(),
        distinct_names(storages),
        !has_name(registered, storages[at].0),
    ensures
        !has_name(registered + storages.take(at), storages[at].0),
{
    let name = storages[at].0;
    let all = registered + storages.take(at);
    position_is_first(registered, name, 0);
    position_is_first(all, name, 0);
    let p = position(all, name, 0);
    if p < all.len() {
        if p < registered.len() {
            assert(registered[p].0 == name);
        } else {
            assert(storages[p - registered.len()].0 == name);
        }
    }
}

/// The engine holds a store under a key exactly if the key is `file://` or
/// the URL of the bucket of some registered storage.
pub proof fn stores_are_the_urls(storages: StoragesView, key: Seq<char>)
    ensures
        stores_of(storages).contains_key(key) <==> key == local_files_key() || exists|i: int|
            0 <= i < storages.len() && (#[trigger] storages[i]).1.url() == key,
    decreases storages.len(),
{
    if storages.len() > 0 {
        let before = storages.drop_last();
        stores_are_the_urls(before, key);
        if stores_of(storages).contains_key(key) && key != local_files_key() {
            if storages.last().1.url() == key {
                assert(storages[storages.len() - 1].1.url() == key);
            } else {
                let i = choose|i: int|
                    0 <= i < before.len() && (#[trigger] before[i]).1.url() == key;
                assert(storages[i].1.url() == key);
            }
        }
        if exists|i: int| 0 <= i < storages.len() && (#[trigger] storages[i]).1.url() == key {
            let i = choose|i: int|
                0 <= i < storages.len() && (#[trigger] storages[i]).1.url() == key;
            if i < before.len() {
                assert(before[i].1.url() == key);
            }
        }
    }
}

/// Under the URL of a storage's bucket the engine holds that storage's
/// client, unless a storage that was registered later has the same URL:
/// then it holds the client of the last of those.
pub proof fn engine_holds_the_last_client(storages: StoragesView, at: int)
    requires
        0 <= at < storages.len(),
        forall|j: int|
            at < j < storages.len() ==> (#[trigger] storages[j]).1.url() != storages[at].1.url(),
    ensures
        stores_of(storages).contains_key(storages[at].1.url()),
        stores_of(storages)[storages[at].1.url()] == StoreView::Client(
            storages[at].1.client_options(),
        ),
    decreases storages.len(),
{
    if at < storages.len() - 1 {
        let before = storages.drop_last();
        assert(before[at] == storages[at]);
        assert forall|j: int| at < j < before.len() implies (#[trigger] before[j]).1.url()
            != before[at].1.url() by {
            assert(before[j] == storages[j]);
        }
        engine_holds_the_last_client(before, at);
        assert(storages[storages.len() - 1].1.url() != storages[at].1.url());
    }
}

/// Once a storage is registered under a name that was free, the name is
/// taken: it resolves to that storage's descriptor, and the registration of
/// any descriptor under it is turned down as a duplicate.
pub proof fn registered_name_is_taken(
    registered: StoragesView,
    name: Seq<char>,
    first: StorageConfigView,
    second: StorageConfigView,
)
    requires
        !has_name(registered, name),
    ensures
        has_name(registered.push((name, first)), name),
        lookup(registered.push((name, first)), name) == Some(first),
        rejection(registered.push((name, first)), name, second) == Some(
            ErrorView::DuplicateName { name },
        ),
{
    let after = registered.push((name, first));
    position_is_first(registered, name, 0);
    position_is_first(after, name, 0);
    assert(after[registered.len() as int].0 == name);
    let p = position(after, name, 0);
    if p < registered.len() {
        assert(registered[p].0 == name);
    }
}

} // verus!
