//! The database handle: one engine session, the storages registered with
//! it, and the typed reading of query results.

use std::marker::PhantomData;
use vstd::prelude::*;
use datafusion::prelude::SessionContext;
use crate::batch::Batch;
use crate::batch::extract_rows;
use crate::batch::first_row;
use crate::batch::first_unreadable_batch;
use crate::batch::first_unreadable_batch_bounds;
use crate::batch::first_with_rows;
use crate::batch::first_with_rows_bounds;
use crate::batch::rows_of;
use crate::config::ClientOptionsView;
use crate::config::Config;
use crate::config::StorageConfig;
use crate::config::StoragesView;
use crate::engine::engine_stores;
use crate::engine::engine_tables;
use crate::engine::made_with;
use crate::engine::no_tables;
use crate::engine::StoreView;
use crate::error::CacheError;
use crate::error::ErrorView;
use crate::export::ExportFormat;
use crate::export::ExportPlan;
use crate::export::format_named;
use crate::keyed::distinct_names;
use crate::keyed::has_name;
use crate::keyed::lookup;
use crate::keyed::position;
use crate::row::decode_rows;
use crate::row::decoded;
use crate::row::decodes_to;
use crate::row::encodes_to;
use crate::row::refuses;
use crate::row::Row;
use crate::row::row_views;
use crate::row::RowCodec;
use crate::schema::FieldView;
use crate::schema::Schema;
use crate::storage::first_rejected;
use crate::storage::outside_failure;
use crate::storage::Registry;
use crate::storage::rejection;
use crate::storage::StorageEntry;
use crate::storage::stores_of;
use crate::storage::table_refusal;
use crate::text::join3;
use crate::text::lowercase;

verus! {

/// The seconds between two synchronisations of a new handle.
pub const DEFAULT_SYNC_INTERVAL_SECS: u64 = 30;

/// A database handle over rows of type `V`.
pub struct DB<V: RowCodec> {
    id: String,
    registry: Registry,
    sync_interval_secs: u64,
    marker: PhantomData<V>,
}

impl<V: RowCodec> DB<V> {
    /// The handle's name, under which its table is known to the engine.
    pub closed spec fn name(&self) -> Seq<char> {
        self.id@
    }

    /// The registered storages with their descriptors, in the order of
    /// registration.
    pub closed spec fn storages(&self) -> StoragesView {
        self.registry@
    }

    /// The engine's catalog of object stores: each key with the store that
    /// the engine reaches under it. These are the stores as this handle has
    /// filed them: a store that somebody else files in the session is not
    /// seen here.
    pub closed spec fn stores(&self) -> Map<Seq<char>, StoreView> {
        self.registry.stores()
    }

    /// The tables of the engine's default schema: each name with the fields
    /// of its table. These are the tables as this handle has made them: a
    /// statement that is run on the session and makes or drops a table is
    /// not seen here.
    pub closed spec fn tables(&self) -> Map<Seq<char>, Seq<FieldView>> {
        self.registry.tables()
    }

    /// The options from which the clients of the registered storages were
    /// built, in the order of registration.
    pub closed spec fn clients(&self) -> Seq<ClientOptionsView> {
        self.registry.clients()
    }

    /// The seconds between two synchronisations.
    pub closed spec fn sync_interval(&self) -> u64 {
        self.sync_interval_secs
    }

    /// What holds of every handle, from `new` on and through every call: no
    /// name is registered twice; the client of each storage was built from
    /// the options that follow from its descriptor; and the engine's catalog
    /// of object stores is that of the registered storages: it holds the
    /// local file system, and under the URL of each registered bucket the
    /// client of the storage, and nothing else.
    pub open spec fn wf(&self) -> bool {
        &&& distinct_names(self.storages())
        &&& self.clients().len() == self.storages().len()
        &&& forall|i: int|
            0 <= i < self.storages().len() ==> #[trigger] self.clients()[i]
                == self.storages()[i].1.client_options()
        &&& self.stores() == stores_of(self.storages())
    }

    /// A handle of the given name, on a session of its own, with no storage
    /// registered and no table known to the engine.
    pub fn new(id: &str) -> (db: Self)
        ensures
            db.wf(),
            db.name() == id@,
            db.storages() == StoragesView::empty(),
            db.tables() == no_tables(),
            db.sync_interval() == DEFAULT_SYNC_INTERVAL_SECS,
    {
        DB {
            id: id.to_string(),
            registry: Registry::new(),
            sync_interval_secs: DEFAULT_SYNC_INTERVAL_SECS,
            marker: PhantomData,
        }
    }

    /// The handle's name.
    pub fn id(&self) -> (id: &String)
        ensures
            id@ == self.name(),
    {
        &self.id
    }

    /// The seconds between two synchronisations.
    pub fn sync_interval_secs(&self) -> (secs: u64)
        ensures
            secs == self.sync_interval(),
    {
        self.sync_interval_secs
    }

    /// The engine's session, on which statements are run.
    ///
    /// What is said of the engine's object stores and tables is said of
    /// what this handle does: it holds as long as nobody else files a store
    /// in the session, or makes or drops a table in it.
    pub fn session(&self) -> (ctx: &SessionContext)
        ensures
            engine_stores(*ctx) == self.stores(),
            engine_tables(*ctx) == self.tables(),
    {
        self.registry.session()
    }

    /// The registry of storages.
    pub fn registry(&self) -> (registry: &Registry)
        ensures
            registry.wf() == self.wf(),
            registry@ == self.storages(),
            registry.clients() == self.clients(),
            registry.stores() == self.stores(),
            registry.tables() == self.tables(),
    {
        &self.registry
    }

    /// Makes the empty table of a schema known to the engine under the
    /// handle's name.
    ///
    /// Fails on the first field whose type is not supported, naming the
    /// type, before the engine is asked; and where the engine holds a table
    /// of the handle's name already, with the engine's message. Else the
    /// engine takes the table: it then knows under the handle's name a table
    /// of exactly the schema's fields, without rows. A call that fails
    /// leaves the engine's tables as they were; the storages are not touched
    /// either way.
    pub fn create_table(&mut self, schema: &Schema) -> (r: Result<(), CacheError>)
        ensures
            final(self).name() == old(self).name(),
            final(self).storages() == old(self).storages(),
            final(self).clients() == old(self).clients(),
            final(self).stores() == old(self).stores(),
            old(self).wf() ==> final(self).wf(),
            match table_refusal(old(self).tables(), old(self).name(), schema@) {
                Some(refusal) => {
                    &&& r matches Err(e) && e@ == refusal
                    &&& final(self).tables() == old(self).tables()
                },
                None => {
                    &&& r is Ok
                    &&& final(self).tables() == old(self).tables().insert(
                        old(self).name(),
                        schema@,
                    )
                },
            },
    {
        self.registry.register_table(self.id.as_str(), schema)
    }

    /// The rows of all batches, each decoded into the row type, in the order
    /// of the batches and, within each, top to bottom.
    ///
    /// Fails before any row is decoded if any batch has a column that cannot
    /// be read, with the failure that names the type. After that the row
    /// type decides, row by row, as [`decode_rows`] says: the first row that
    /// does not decode fails the call, with its index among all rows and the
    /// cause; else there is one value for each row.
    pub fn query_to_schema(&self, batches: &Vec<Batch>) -> (r: Result<Vec<V>, CacheError>)
        ensures
            match first_unreadable_batch(batches@, 0) {
                at if 0 <= at < batches@.len() => r matches Err(e) && e@
                    == batches@[at].unreadable(),
                _ => exists|rows: Seq<Row>|
                    row_views(rows) == rows_of(batches@) && decoded(rows, r),
            },
    {
        proof {
            first_unreadable_batch_bounds(batches@, 0);
        }
        let rows = match extract_rows(batches) {
            Ok(rows) => rows,
            Err(e) => {
                return Err(e);
            },
        };
        decode_rows::<V>(&rows)
    }

    /// The first row of all batches, decoded into the row type; none where
    /// there is no row.
    ///
    /// Only the batch that holds the first row is looked at. The call fails
    /// if that batch has a column that cannot be read, naming the type; and
    /// if the row type does not decode the row, with index 0 and its cause.
    pub fn query_first(&self, batches: &Vec<Batch>) -> (r: Result<Option<V>, CacheError>)
        ensures
            match first_with_rows(batches@, 0) {
                at if 0 <= at < batches@.len() => if batches@[at].is_readable() {
                    exists|row: Row| row@ == batches@[at].row(0) && first_decoded(row, r)
                } else {
                    r matches Err(e) && e@ == batches@[at].unreadable()
                },
                _ => r matches Ok(None),
            },
    {
        proof {
            first_with_rows_bounds(batches@, 0);
        }
        let row = match first_row(batches) {
            Ok(Some(row)) => row,
            Ok(None) => {
                return Ok(None);
            },
            Err(e) => {
                return Err(e);
            },
        };
        let r = match V::decode(&row) {
            Ok(value) => Ok(Some(value)),
            Err(cause) => {
                assert(refuses::<V>(row, cause@));
                Err(CacheError::RowDecode { row_index: 0, cause })
            },
        };
        assert(first_decoded(row, r));
        r
    }

    /// The first row of all batches, as the row type gives it back: decoded
    /// into the row type, then encoded; none where there is no row.
    ///
    /// Fails as [`DB::query_first`] does.
    pub fn query_to_json(&self, batches: &Vec<Batch>) -> (r: Result<Option<Row>, CacheError>)
        ensures
            match first_with_rows(batches@, 0) {
                at if 0 <= at < batches@.len() => if batches@[at].is_readable() {
                    exists|row: Row| row@ == batches@[at].row(0) && first_recoded::<V>(row, r)
                } else {
                    r matches Err(e) && e@ == batches@[at].unreadable()
                },
                _ => r matches Ok(None),
            },
    {
        proof {
            first_with_rows_bounds(batches@, 0);
        }
        let first = self.query_first(batches);
        let ghost at = first_with_rows(batches@, 0);
        match first {
            Ok(Some(value)) => {
                let encoded = value.encode();
                proof {
                    if at < batches@.len() && batches@[at].is_readable() {
                        let row = choose|row: Row|
                            row@ == batches@[at].row(0) && first_decoded(row, first);
                        assert(exists|v: V|
                            decodes_to::<V>(row, Ok::<V, String>(v)) && #[trigger] encodes_to::<V>(
                                v,
                                encoded,
                            )) by {
                            assert(decodes_to::<V>(row, Ok::<V, String>(value)));
                            assert(encodes_to::<V>(value, encoded));
                        }
                        let back: Result<Option<Row>, CacheError> = Ok(Some(encoded));
                        assert(back->Ok_0->Some_0 == encoded);
                        assert(first_recoded::<V>(row, back));
                    }
                }
                Ok(Some(encoded))
            },
            Ok(None) => Ok(None),
            Err(e) => {
                proof {
                    if at < batches@.len() && batches@[at].is_readable() {
                        let row = choose|row: Row|
                            row@ == batches@[at].row(0) && first_decoded(row, first);
                        assert(first_recoded::<V>(row, Err(e)));
                    }
                }
                Err(e)
            },
        }
    }
}

/// Whether a result is what decoding the first row comes to: the row type's
/// answer to the row; else the failure with index 0 and the row type's
/// cause.
pub open spec fn first_decoded<V: RowCodec>(row: Row, r: Result<Option<V>, CacheError>) -> bool {
    match r {
        Ok(found) => found is Some && decodes_to::<V>(row, Ok::<V, String>(found->Some_0)),
        Err(e) => e@ matches ErrorView::RowDecode { row_index, cause } && row_index == 0
            && refuses::<V>(row, cause),
    }
}

/// Whether a result is what decoding the first row and encoding the value
/// comes to: the row type's answer to its own answer to the row; else the
/// failure with index 0 and the row type's cause.
pub open spec fn first_recoded<V: RowCodec>(row: Row, r: Result<Option<Row>, CacheError>) -> bool {
    match r {
        Ok(found) => found is Some && exists|value: V|
            decodes_to::<V>(row, Ok::<V, String>(value)) && #[trigger] encodes_to::<V>(
                value,
                found->Some_0,
            ),
        Err(e) => e@ matches ErrorView::RowDecode { row_index, cause } && row_index == 0
            && refuses::<V>(row, cause),
    }
}

impl<V: RowCodec> DB<V> {
    /// Registers the storages of a configuration, all or none.
    ///
    /// Every storage is made ready, in order, before the first is
    /// registered. A call that fails has changed neither the registry nor
    /// the engine's catalog, and its failure names the storage that could
    /// not be made ready: the first whose name is taken or whose descriptor
    /// has an issue, unless the client or the URL of an earlier one failed.
    pub fn init_storages(&mut self, config: Config) -> (r: Result<(), CacheError>)
        requires
            old(self).wf(),
        ensures
            final(self).wf(),
            final(self).name() == old(self).name(),
            final(self).tables() == old(self).tables(),
            match r {
                Ok(()) => {
                    &&& first_rejected(old(self).storages(), config.storages@, 0)
                        == config.storages@.len()
                    &&& final(self).storages() == old(self).storages() + config.storages@
                },
                Err(e) => {
                    let at = first_rejected(old(self).storages(), config.storages@, 0);
                    &&& final(self).storages() == old(self).storages()
                    &&& final(self).stores() == old(self).stores()
                    &&& {
                        ||| at < config.storages@.len() && Some(e@) == rejection(
                            old(self).storages(),
                            config.storages@[at].0,
                            config.storages@[at].1,
                        )
                        ||| exists|j: int|
                            0 <= j < at && outside_failure(e@, config.storages@[j].0)
                    }
                },
            },
    {
        self.registry.init_all(&config.storages)
    }

    /// Registers one storage: its client goes into the engine's catalog
    /// under the URL `scheme://bucket`, and the storage into the registry.
    ///
    /// A name that is registered fails the call as a duplicate, whatever the
    /// descriptor; else a descriptor with an issue fails it with that issue.
    /// After that the storage client and the URL parser decide. A call that
    /// fails has changed neither the registry nor the engine's catalog.
    pub fn register_storage(&mut self, name: &str, config: StorageConfig) -> (r: Result<
        (),
        CacheError,
    >)
        requires
            old(self).wf(),
        ensures
            final(self).wf(),
            final(self).name() == old(self).name(),
            final(self).tables() == old(self).tables(),
            match r {
                Ok(()) => {
                    &&& rejection(old(self).storages(), name@, config@) is None
                    &&& final(self).storages() == old(self).storages().push((name@, config@))
                },
                Err(e) => {
                    &&& final(self).storages() == old(self).storages()
                    &&& final(self).stores() == old(self).stores()
                    &&& match rejection(old(self).storages(), name@, config@) {
                        Some(rejected) => e@ == rejected,
                        None => outside_failure(e@, name@),
                    }
                },
            },
    {
        self.registry.register(name, config)
    }

    /// The storage of a name; the failure that names it where there is none.
    pub fn resolve(&self, name: &str) -> (r: Result<&StorageEntry, CacheError>)
        ensures
            match r {
                Ok(entry) => {
                    &&& has_name(self.storages(), name@)
                    &&& entry.name@ == name@
                    &&& Some(entry.config@) == lookup(self.storages(), name@)
                    &&& made_with(*entry.store) == self.clients()[position(
                        self.storages(),
                        name@,
                        0,
                    )]
                },
                Err(e) => !has_name(self.storages(), name@) && e@ == (ErrorView::UnknownStorage {
                    name: name@,
                }),
            },
    {
        self.registry.resolve(name)
    }

    /// The statement that reads everything from a path below a storage
    /// location: `SELECT * FROM 'storage/path'`, with the location as it is
    /// given. The registry is not asked.
    pub fn query_from_storage(&self, storage: &str, path: &str) -> (sql: String)
        ensures
            sql@ == "SELECT * FROM '"@ + storage@ + "/"@ + path@ + "'"@,
    {
        let location = join3(storage, "/", path);
        let sql = join3("SELECT * FROM '", location.as_str(), "'");
        assert(sql@ =~= "SELECT * FROM '"@ + storage@ + "/"@ + path@ + "'"@);
        sql
    }

    /// The statement that reads everything from an object of a registered
    /// storage: `SELECT * FROM 'scheme://bucket/path'`, with the scheme and
    /// the bucket of the storage that is registered under the name.
    pub fn query_from_registered(&self, storage_name: &str, path: &str) -> (r: Result<
        String,
        CacheError,
    >)
        ensures
            match r {
                Ok(sql) => {
                    &&& has_name(self.storages(), storage_name@)
                    &&& sql@ == select_all_from(
                        lookup(self.storages(), storage_name@)->Some_0.location(path@),
                    )
                },
                Err(e) => !has_name(self.storages(), storage_name@) && e@ == (
                ErrorView::UnknownStorage { name: storage_name@ }),
            },
    {
        match self.registry.resolve(storage_name) {
            Ok(entry) => {
                let location = entry.config.location(path);
                Ok(join3("SELECT * FROM '", location.as_str(), "'"))
            },
            Err(e) => Err(e),
        }
    }

    /// Settles an export: where it goes and in which format.
    ///
    /// The destination is `scheme://bucket/path`, with the scheme and the
    /// bucket of the storage that is registered under `storage_name`; the
    /// name itself is no part of it. A name that is not registered fails the
    /// call, whatever the format; else a format that, in lowercase, is
    /// neither `csv` nor `parquet` fails it.
    pub fn export_to_storage(&self, storage_name: &str, path: &str, format: &str) -> (r: Result<
        ExportPlan,
        CacheError,
    >)
        ensures
            match r {
                Ok(plan) => {
                    &&& has_name(self.storages(), storage_name@)
                    &&& plan.location@ == lookup(self.storages(), storage_name@)->Some_0.location(
                        path@,
                    )
                    &&& Some(plan.format) == format_named(lowercase(format@))
                },
                Err(e) => if !has_name(self.storages(), storage_name@) {
                    e@ == (ErrorView::UnknownStorage { name: storage_name@ })
                } else {
                    &&& format_named(lowercase(format@)) is None
                    &&& e@ == (ErrorView::UnsupportedFormat { format: format@ })
                },
            },
    {
        let entry = match self.registry.resolve(storage_name) {
            Ok(entry) => entry,
            Err(e) => {
                return Err(e);
            },
        };
        match ExportFormat::parse(format) {
            Some(format) => Ok(ExportPlan { location: entry.config.location(path), format }),
            None => Err(CacheError::UnsupportedFormat { format: format.to_string() }),
        }
    }
}

/// The statement that reads everything from a location.
pub open spec fn select_all_from(location: Seq<char>) -> Seq<char> {
    "SELECT * FROM '"@ + location + "'"@
}

} // verus!
