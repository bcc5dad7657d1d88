//! Storage descriptors, and the configuration that names them.

use vstd::prelude::*;
use crate::error::ConfigIssue;
use crate::keyed::distinct_names;
use crate::keyed::entry_views;
use crate::keyed::find_name;
use crate::keyed::has_name;
use crate::keyed::lookup;
use crate::keyed::position;
use crate::keyed::position_is_first;
use crate::keyed::put;
use crate::keyed::put_keeps_names_distinct;
use crate::text::copy_optional;
use crate::text::join2;
use crate::text::join3;
use crate::text::same_text;

verus! {

/// The descriptor of one storage backend: its credentials, where it lies,
/// and the URL scheme under which its bucket is addressed.
///
/// The credentials are secrets: the type cannot be printed, nor can the
/// types that hold it.
#[derive(PartialEq, Eq)]
pub struct StorageConfig {
    pub access_key: String,
    pub access_secret: String,
    pub endpoint: Option<String>,
    pub region: String,
    pub bucket: String,
    pub scheme: String,
}

/// A [`StorageConfig`] with its texts as characters.
pub struct StorageConfigView {
    pub access_key: Seq<char>,
    pub access_secret: Seq<char>,
    pub endpoint: Option<Seq<char>>,
    pub region: Seq<char>,
    pub bucket: Seq<char>,
    pub scheme: Seq<char>,
}

impl View for StorageConfig {
    type V = StorageConfigView;

    open spec fn view(&self) -> StorageConfigView {
        StorageConfigView {
            access_key: self.access_key@,
            access_secret: self.access_secret@,
            endpoint: match self.endpoint {
                Some(e) => Some(e@),
                None => None,
            },
            region: self.region@,
            bucket: self.bucket@,
            scheme: self.scheme@,
        }
    }
}

/// How the client of a storage is set up: what the descriptor gives, and
/// the two switches that follow from it.
#[derive(PartialEq, Eq)]
pub struct ClientOptions {
    pub access_key: String,
    pub access_secret: String,
    pub bucket: String,
    pub region: String,
    pub endpoint: Option<String>,
    /// Whether the client may speak plain HTTP.
    pub allow_http: bool,
    /// Whether requests address the bucket as part of the host name.
    pub virtual_hosted_style: bool,
}

/// [`ClientOptions`] with their texts as characters.
pub struct ClientOptionsView {
    pub access_key: Seq<char>,
    pub access_secret: Seq<char>,
    pub bucket: Seq<char>,
    pub region: Seq<char>,
    pub endpoint: Option<Seq<char>>,
    pub allow_http: bool,
    pub virtual_hosted_style: bool,
}

impl View for ClientOptions {
    type V = ClientOptionsView;

    open spec fn view(&self) -> ClientOptionsView {
        ClientOptionsView {
            access_key: self.access_key@,
            access_secret: self.access_secret@,
            bucket: self.bucket@,
            region: self.region@,
            endpoint: match self.endpoint {
                Some(e) => Some(e@),
                None => None,
            },
            allow_http: self.allow_http,
            virtual_hosted_style: self.virtual_hosted_style,
        }
    }
}

impl StorageConfigView {
    /// How the storage's client is set up: with the descriptor's
    /// credentials, bucket, region and endpoint; with plain HTTP allowed;
    /// and with virtual-hosted-style requests exactly for the scheme `oss`.
    pub open spec fn client_options(self) -> ClientOptionsView {
        ClientOptionsView {
            access_key: self.access_key,
            access_secret: self.access_secret,
            bucket: self.bucket,
            region: self.region,
            endpoint: self.endpoint,
            allow_http: true,
            virtual_hosted_style: self.virtual_hosted_style(),
        }
    }

    /// The URL of the bucket: `scheme://bucket`.
    pub open spec fn url(self) -> Seq<char> {
        self.scheme + "://"@ + self.bucket
    }

    /// The URL of an object in the bucket: `scheme://bucket/path`.
    pub open spec fn location(self, path: Seq<char>) -> Seq<char> {
        self.url() + "/"@ + path
    }

    /// Whether the scheme is that of the default provider, which is reached
    /// without an endpoint of its own.
    pub open spec fn default_provider(self) -> bool {
        self.scheme == "s3"@
    }

    /// Whether requests address the bucket as part of the host name: so for
    /// the scheme `oss`, and for no other.
    pub open spec fn virtual_hosted_style(self) -> bool {
        self.scheme == "oss"@
    }

    /// Whether an endpoint is given and not empty.
    pub open spec fn has_endpoint(self) -> bool {
        self.endpoint is Some && self.endpoint->Some_0.len() > 0
    }

    /// What is wrong with the descriptor, if anything: the first of its
    /// required texts that is empty, or the endpoint that a provider other
    /// than the default one needs.
    pub open spec fn issue(self) -> Option<ConfigIssue> {
        if self.access_key.len() == 0 {
            Some(ConfigIssue::MissingAccessKey)
        } else if self.access_secret.len() == 0 {
            Some(ConfigIssue::MissingAccessSecret)
        } else if self.bucket.len() == 0 {
            Some(ConfigIssue::MissingBucket)
        } else if self.region.len() == 0 {
            Some(ConfigIssue::MissingRegion)
        } else if self.scheme.len() == 0 {
            Some(ConfigIssue::MissingScheme)
        } else if !self.default_provider() && !self.has_endpoint() {
            Some(ConfigIssue::MissingEndpoint)
        } else {
            None
        }
    }
}

impl StorageConfig {
    /// A copy of the descriptor.
    pub fn duplicate(&self) -> (r: StorageConfig)
        ensures
            r@ == self@,
    {
        StorageConfig {
            access_key: self.access_key.clone(),
            access_secret: self.access_secret.clone(),
            endpoint: copy_optional(&self.endpoint),
            region: self.region.clone(),
            bucket: self.bucket.clone(),
            scheme: self.scheme.clone(),
        }
    }

    /// The URL of the bucket: `scheme://bucket`.
    pub fn url(&self) -> (r: String)
        ensures
            r@ == self@.url(),
    {
        join3(self.scheme.as_str(), "://", self.bucket.as_str())
    }

    /// The URL of an object in the bucket: `scheme://bucket/path`.
    pub fn location(&self, path: &str) -> (r: String)
        ensures
            r@ == self@.location(path@),
    {
        let url = self.url();
        join3(url.as_str(), "/", path)
    }

    /// Whether requests address the bucket as part of the host name.
    pub fn virtual_hosted_style(&self) -> (r: bool)
        ensures
            r == self@.virtual_hosted_style(),
    {
        same_text(self.scheme.as_str(), "oss")
    }

    /// How the storage's client is set up.
    pub fn client_options(&self) -> (r: ClientOptions)
        ensures
            r@ == self@.client_options(),
    {
        ClientOptions {
            access_key: self.access_key.clone(),
            access_secret: self.access_secret.clone(),
            bucket: self.bucket.clone(),
            region: self.region.clone(),
            endpoint: copy_optional(&self.endpoint),
            allow_http: true,
            virtual_hosted_style: self.virtual_hosted_style(),
        }
    }

    /// What is wrong with the descriptor, if anything.
    pub fn validate(&self) -> (r: Option<ConfigIssue>)
        ensures
            r == self@.issue(),
    {
        if self.access_key.as_str().is_empty() {
            return Some(ConfigIssue::MissingAccessKey);
        }
        if self.access_secret.as_str().is_empty() {
            return Some(ConfigIssue::MissingAccessSecret);
        }
        if self.bucket.as_str().is_empty() {
            return Some(ConfigIssue::MissingBucket);
        }
        if self.region.as_str().is_empty() {
            return Some(ConfigIssue::MissingRegion);
        }
        if self.scheme.as_str().is_empty() {
            return Some(ConfigIssue::MissingScheme);
        }
        if same_text(self.scheme.as_str(), "s3") {
            return None;
        }
        match &self.endpoint {
            Some(e) => if e.as_str().is_empty() {
                Some(ConfigIssue::MissingEndpoint)
            } else {
                None
            },
            None => Some(ConfigIssue::MissingEndpoint),
        }
    }
}

/// Named descriptors as a sequence of names with what they name.
pub type StoragesView = Seq<(Seq<char>, StorageConfigView)>;

/// Descriptors by name: each name once, in the order in which the names
/// first came.
#[derive(PartialEq, Eq)]
pub struct StorageMap {
    entries: Vec<(String, StorageConfig)>,
}

impl View for StorageMap {
    type V = StoragesView;

    closed spec fn view(&self) -> StoragesView {
        entry_views(self.entries@)
    }
}

impl StorageMap {
    #[verifier::type_invariant]
    closed spec fn inv(&self) -> bool {
        distinct_names(self@)
    }

    /// No descriptors.
    pub fn new() -> (r: StorageMap)
        ensures
            r@ == StoragesView::empty(),
    {
        let entries: Vec<(String, StorageConfig)> = Vec::new();
        assert(Seq::new(entries@.len(), |i: int| (entries@[i].0@, entries@[i].1@))
            =~= StoragesView::empty());
        StorageMap { entries }
    }

    /// The number of descriptors.
    pub fn len(&self) -> (n: usize)
        ensures
            n == self@.len(),
            distinct_names(self@),
    {
        proof {
            use_type_invariant(self);
        }
        self.entries.len()
    }

    /// The name at a position.
    pub fn name_at(&self, i: usize) -> (name: &String)
        requires
            i < self@.len(),
        ensures
            name@ == self@[i as int].0,
    {
        &self.entries[i].0
    }

    /// The descriptor at a position.
    pub fn config_at(&self, i: usize) -> (config: &StorageConfig)
        requires
            i < self@.len(),
        ensures
            config@ == self@[i as int].1,
    {
        &self.entries[i].1
    }

    /// The descriptor under a name, if there is one.
    pub fn get(&self, name: &str) -> (r: Option<&StorageConfig>)
        ensures
            r is Some == has_name(self@, name@),
            r is Some ==> Some(r->Some_0@) == lookup(self@, name@),
    {
        let at = find_name(&self.entries, name);
        if at < self.entries.len() {
            Some(&self.entries[at].1)
        } else {
            None
        }
    }

    /// Puts a descriptor under a name, in place of the name's earlier
    /// descriptor if it had one.
    pub fn insert(&mut self, name: String, config: StorageConfig)
        ensures
            final(self)@ == put(old(self)@, name@, config@),
    {
        proof {
            use_type_invariant(&*self);
            put_keeps_names_distinct(self@, name@, config@);
        }
        let at = find_name(&self.entries, name.as_str());
        let mut entries: Vec<(String, StorageConfig)> = Vec::new();
        std::mem::swap(&mut entries, &mut self.entries);
        if at < entries.len() {
            entries.set(at, (name, config));
        } else {
            entries.push((name, config));
        }
        assert(Seq::new(entries@.len(), |i: int| (entries@[i].0@, entries@[i].1@)) =~= put(
            old(self)@,
            name@,
            config@,
        ));
        self.entries = entries;
    }
}

/// The configuration: the storages to register, by name.
#[derive(PartialEq, Eq)]
pub struct Config {
    pub storages: StorageMap,
}


/// One setting of a configuration source: a value for a field of a storage.
#[derive(PartialEq, Eq)]
pub struct Setting {
    pub storage: String,
    pub key: String,
    pub value: String,
}

/// A [`Setting`] with its texts as characters.
pub struct SettingView {
    pub storage: Seq<char>,
    pub key: Seq<char>,
    pub value: Seq<char>,
}

impl View for Setting {
    type V = SettingView;

    open spec fn view(&self) -> SettingView {
        SettingView { storage: self.storage@, key: self.key@, value: self.value@ }
    }
}

impl Setting {
    /// A setting of the given texts.
    pub fn new(storage: &str, key: &str, value: &str) -> (r: Setting)
        ensures
            r@ == (SettingView { storage: storage@, key: key@, value: value@ }),
    {
        Setting { storage: storage.to_string(), key: key.to_string(), value: value.to_string() }
    }

    /// A copy of the setting.
    pub fn duplicate(&self) -> (r: Setting)
        ensures
            r@ == self@,
    {
        Setting {
            storage: self.storage.clone(),
            key: self.key.clone(),
            value: self.value.clone(),
        }
    }
}

/// The settings, each with its texts as characters.
pub open spec fn setting_views(settings: Seq<Setting>) -> Seq<SettingView> {
    Seq::new(settings.len(), |i: int| settings[i]@)
}

/// The fields of a descriptor.
#[derive(Clone, Copy, Debug, PartialEq, Eq, Structural)]
pub enum FieldKey {
    AccessKey,
    AccessSecret,
    Endpoint,
    Region,
    Bucket,
    Scheme,
}

impl FieldKey {
    /// The key under which a source sets the field.
    pub open spec fn name(self) -> Seq<char> {
        match self {
            FieldKey::AccessKey => "access_key"@,
            FieldKey::AccessSecret => "access_secret"@,
            FieldKey::Endpoint => "endpoint"@,
            FieldKey::Region => "region"@,
            FieldKey::Bucket => "bucket"@,
            FieldKey::Scheme => "scheme"@,
        }
    }

    /// The key under which a source sets the field.
    pub fn key(self) -> (r: &'static str)
        ensures
            r@ == self.name(),
    {
        match self {
            FieldKey::AccessKey => "access_key",
            FieldKey::AccessSecret => "access_secret",
            FieldKey::Endpoint => "endpoint",
            FieldKey::Region => "region",
            FieldKey::Bucket => "bucket",
            FieldKey::Scheme => "scheme",
        }
    }

    /// The field that a key sets, if it sets any.
    pub fn parse(key: &str) -> (r: Option<FieldKey>)
        ensures
            match r {
                Some(field) => key@ == field.name(),
                None => forall|field: FieldKey| key@ != #[trigger] field.name(),
            },
    {
        if same_text(key, "access_key") {
            Some(FieldKey::AccessKey)
        } else if same_text(key, "access_secret") {
            Some(FieldKey::AccessSecret)
        } else if same_text(key, "endpoint") {
            Some(FieldKey::Endpoint)
        } else if same_text(key, "region") {
            Some(FieldKey::Region)
        } else if same_text(key, "bucket") {
            Some(FieldKey::Bucket)
        } else if same_text(key, "scheme") {
            Some(FieldKey::Scheme)
        } else {
            None
        }
    }
}

/// No two fields are set under the same key.
pub proof fn field_names_differ(a: FieldKey, b: FieldKey)
    requires
        a != b,
    ensures
        a.name() != b.name(),
{
    reveal_strlit("access_key");
    reveal_strlit("access_secret");
    reveal_strlit("endpoint");
    reveal_strlit("region");
    reveal_strlit("bucket");
    reveal_strlit("scheme");
    if a.name().len() == b.name().len() {
        assert(a.name()[0] != b.name()[0]);
    }
}

/// The value that the first `upto` settings give a field of a storage: that
/// of the last of them for the storage and the key, if there is one.
pub open spec fn setting(
    settings: Seq<SettingView>,
    storage: Seq<char>,
    key: Seq<char>,
    upto: int,
) -> Option<Seq<char>>
    decreases upto,
{
    if upto <= 0 {
        None
    } else if settings[upto - 1].storage == storage && settings[upto - 1].key == key {
        Some(settings[upto - 1].value)
    } else {
        setting(settings, storage, key, upto - 1)
    }
}

/// The storages that the first `upto` settings name, each once, in the
/// order in which they first occur.
pub open spec fn named(settings: Seq<SettingView>, upto: int) -> Seq<Seq<char>>
    decreases upto,
{
    if upto <= 0 {
        Seq::empty()
    } else {
        let before = named(settings, upto - 1);
        if before.contains(settings[upto - 1].storage) {
            before
        } else {
            before.push(settings[upto - 1].storage)
        }
    }
}

/// The value that the settings give a field of a storage.
pub open spec fn value_of(
    settings: Seq<SettingView>,
    storage: Seq<char>,
    field: FieldKey,
) -> Option<Seq<char>> {
    setting(settings, storage, field.name(), settings.len() as int)
}

/// The first field that a storage must have and that the settings leave
/// without a value: every field must be there but the endpoint.
pub open spec fn missing(settings: Seq<SettingView>, storage: Seq<char>) -> Option<FieldKey> {
    if value_of(settings, storage, FieldKey::AccessKey) is None {
        Some(FieldKey::AccessKey)
    } else if value_of(settings, storage, FieldKey::AccessSecret) is None {
        Some(FieldKey::AccessSecret)
    } else if value_of(settings, storage, FieldKey::Bucket) is None {
        Some(FieldKey::Bucket)
    } else if value_of(settings, storage, FieldKey::Region) is None {
        Some(FieldKey::Region)
    } else if value_of(settings, storage, FieldKey::Scheme) is None {
        Some(FieldKey::Scheme)
    } else {
        None
    }
}

/// The descriptor that the settings give a storage to which no field is
/// missing.
pub open spec fn descriptor(settings: Seq<SettingView>, storage: Seq<char>) -> StorageConfigView {
    StorageConfigView {
        access_key: value_of(settings, storage, FieldKey::AccessKey)->Some_0,
        access_secret: value_of(settings, storage, FieldKey::AccessSecret)->Some_0,
        endpoint: value_of(settings, storage, FieldKey::Endpoint),
        region: value_of(settings, storage, FieldKey::Region)->Some_0,
        bucket: value_of(settings, storage, FieldKey::Bucket)->Some_0,
        scheme: value_of(settings, storage, FieldKey::Scheme)->Some_0,
    }
}

/// The index, among the named storages, of the first from `from` on to
/// which a field is missing; the number of storages where there is none.
pub open spec fn first_incomplete(settings: Seq<SettingView>, from: int) -> int
    decreases named(settings, settings.len() as int).len() - from,
{
    let names = named(settings, settings.len() as int);
    if from < 0 || from >= names.len() || missing(settings, names[from]) is Some {
        from
    } else {
        first_incomplete(settings, from + 1)
    }
}

/// The storages that complete settings describe: the named storages in the
/// order in which they first occur, each with its descriptor.
pub open spec fn storages_of(settings: Seq<SettingView>) -> StoragesView {
    let names = named(settings, settings.len() as int);
    Seq::new(names.len(), |i: int| (names[i], descriptor(settings, names[i])))
}

/// Why a configuration could not be put together.
#[derive(Debug, PartialEq, Eq)]
pub enum ConfigError {
    /// The source holds no setting of any storage: it has no storages at
    /// all.
    MissingStorages { origin: String },
    /// The source gives a storage no value for a field that it must have.
    MissingField { origin: String, storage: String, field: FieldKey },
}

/// A [`ConfigError`] with its texts as characters.
pub enum ConfigErrorView {
    MissingStorages { origin: Seq<char> },
    MissingField { origin: Seq<char>, storage: Seq<char>, field: FieldKey },
}

impl View for ConfigError {
    type V = ConfigErrorView;

    open spec fn view(&self) -> ConfigErrorView {
        match *self {
            ConfigError::MissingStorages { origin } => ConfigErrorView::MissingStorages {
                origin: origin@,
            },
            ConfigError::MissingField { origin, storage, field } => ConfigErrorView::MissingField {
                origin: origin@,
                storage: storage@,
                field,
            },
        }
    }
}

impl ConfigErrorView {
    /// The failure in words.
    pub open spec fn message(self) -> Seq<char> {
        match self {
            ConfigErrorView::MissingStorages { origin } => "missing field `storages` in "@
                + origin,
            ConfigErrorView::MissingField { origin, storage, field } => "missing field `"@
                + field.name() + "` for storage `"@ + storage + "` in "@ + origin,
        }
    }
}

impl ConfigError {
    /// The failure in words.
    pub fn message(&self) -> (r: String)
        ensures
            r@ == self@.message(),
    {
        match self {
            ConfigError::MissingStorages { origin } => join2(
                "missing field `storages` in ",
                origin.as_str(),
            ),
            ConfigError::MissingField { origin, storage, field } => {
                let head = join3("missing field `", field.key(), "` for storage `");
                let tail = join3(storage.as_str(), "` in ", origin.as_str());
                let r = join3(head.as_str(), tail.as_str(), "");
                proof {
                    reveal_strlit("");
                    assert(r@ =~= self@.message());
                }
                r
            },
        }
    }
}

/// What a source has said of one storage so far.
struct Draft {
    name: String,
    access_key: Option<String>,
    access_secret: Option<String>,
    endpoint: Option<String>,
    region: Option<String>,
    bucket: Option<String>,
    scheme: Option<String>,
}

/// An optional text as characters.
pub open spec fn optional_view(text: Option<String>) -> Option<Seq<char>> {
    match text {
        Some(t) => Some(t@),
        None => None,
    }
}

impl Draft {
    spec fn field(&self, field: FieldKey) -> Option<Seq<char>> {
        match field {
            FieldKey::AccessKey => optional_view(self.access_key),
            FieldKey::AccessSecret => optional_view(self.access_secret),
            FieldKey::Endpoint => optional_view(self.endpoint),
            FieldKey::Region => optional_view(self.region),
            FieldKey::Bucket => optional_view(self.bucket),
            FieldKey::Scheme => optional_view(self.scheme),
        }
    }

    fn blank(name: &str) -> (r: Draft)
        ensures
            r.name@ == name@,
            forall|field: FieldKey| r.field(field) is None,
    {
        Draft {
            name: name.to_string(),
            access_key: None,
            access_secret: None,
            endpoint: None,
            region: None,
            bucket: None,
            scheme: None,
        }
    }

    fn set(&mut self, field: FieldKey, value: &str)
        ensures
            final(self).name == old(self).name,
            final(self).field(field) == Some(value@),
            forall|other: FieldKey|
                other != field ==> final(self).field(other) == old(self).field(other),
    {
        let value = Some(value.to_string());
        match field {
            FieldKey::AccessKey => {
                self.access_key = value;
            },
            FieldKey::AccessSecret => {
                self.access_secret = value;
            },
            FieldKey::Endpoint => {
                self.endpoint = value;
            },
            FieldKey::Region => {
                self.region = value;
            },
            FieldKey::Bucket => {
                self.bucket = value;
            },
            FieldKey::Scheme => {
                self.scheme = value;
            },
        }
    }
}

/// What holds of the drafts when the first `upto` settings are read: there
/// is one for each named storage, in order, and each holds for every field
/// what those settings give it.
spec fn drafts_follow(drafts: Seq<Draft>, settings: Seq<SettingView>, upto: int) -> bool {
    &&& drafts.len() == named(settings, upto).len()
    &&& forall|d: int|
        0 <= d < drafts.len() ==> (#[trigger] drafts[d]).name@ == named(settings, upto)[d]
    &&& forall|d: int, field: FieldKey|
        0 <= d < drafts.len() ==> #[trigger] drafts[d].field(field) == setting(
            settings,
            drafts[d].name@,
            field.name(),
            upto,
        )
}

/// The named storages are the storages of the settings: every setting's
/// storage is among them, each of them is some setting's storage, and none
/// stands twice.
pub proof fn named_are_the_storages(settings: Seq<SettingView>, upto: int)
    requires
        0 <= upto <= settings.len(),
    ensures
        forall|j: int|
            0 <= j < upto ==> named(settings, upto).contains(#[trigger] settings[j].storage),
        forall|d: int|
            0 <= d < named(settings, upto).len() ==> exists|j: int|
                0 <= j < upto && settings[j].storage == #[trigger] named(settings, upto)[d],
        named(settings, upto).no_duplicates(),
        named(settings, upto).len() <= upto,
    decreases upto,
{
    if upto > 0 {
        named_are_the_storages(settings, upto - 1);
        let before = named(settings, upto - 1);
        let now = named(settings, upto);
        let s = settings[upto - 1].storage;
        if before.contains(s) {
            assert(now == before);
        } else {
            assert(now == before.push(s));
            assert(now[before.len() as int] == s);
            assert forall|j: int| 0 <= j < upto implies now.contains(
                #[trigger] settings[j].storage,
            ) by {
                if j < upto - 1 {
                    let d = choose|d: int|
                        0 <= d < before.len() && before[d] == settings[j].storage;
                    assert(now[d] == settings[j].storage);
                }
            }
            assert forall|d: int| 0 <= d < now.len() implies exists|j: int|
                0 <= j < upto && settings[j].storage == #[trigger] now[d] by {
                if d < before.len() {
                    assert(now[d] == before[d]);
                    let j = choose|j: int| 0 <= j < upto - 1 && settings[j].storage == before[d];
                    assert(0 <= j < upto && settings[j].storage == now[d]);
                } else {
                    assert(settings[upto - 1].storage == now[d]);
                }
            }
        }
    }
}

/// Settings that never name a storage give none of its fields a value.
pub proof fn unnamed_has_no_setting(
    settings: Seq<SettingView>,
    storage: Seq<char>,
    key: Seq<char>,
    upto: int,
)
    requires
        0 <= upto <= settings.len(),
        forall|j: int| 0 <= j < upto ==> (#[trigger] settings[j]).storage != storage,
    ensures
        setting(settings, storage, key, upto) is None,
    decreases upto,
{
    if upto > 0 {
        unnamed_has_no_setting(settings, storage, key, upto - 1);
    }
}

/// What settings make of a configuration. Without any setting there are no
/// storages at all, and that is a failure of its own. Else it is the
/// storages that the settings describe, or the failure of the first storage,
/// in the order in which the storages are first named, to which a field is
/// missing, with the first such field.
pub open spec fn assembled(origin: Seq<char>, given: Seq<SettingView>) -> Result<
    StoragesView,
    ConfigErrorView,
> {
    let names = named(given, given.len() as int);
    let at = first_incomplete(given, 0);
    if given.len() == 0 {
        Err(ConfigErrorView::MissingStorages { origin })
    } else if 0 <= at < names.len() {
        Err(
            ConfigErrorView::MissingField {
                origin,
                storage: names[at],
                field: missing(given, names[at])->Some_0,
            },
        )
    } else {
        Ok(storages_of(given))
    }
}

/// Whether a result is what the settings make of a configuration.
pub open spec fn is_assembled(
    r: Result<Config, ConfigError>,
    origin: Seq<char>,
    given: Seq<SettingView>,
) -> bool {
    match r {
        Ok(config) => assembled(origin, given) == Ok::<StoragesView, ConfigErrorView>(
            config.storages@,
        ),
        Err(e) => assembled(origin, given) == Err::<StoragesView, ConfigErrorView>(e@),
    }
}

/// The configuration that settings describe.
///
/// Settings there must be: a source without any has no storages at all, and
/// the call fails with `origin` in the failure. Of two settings for one
/// field of one storage the later one counts, and a
/// setting under a key that is no field's counts for nothing but the
/// storage's name. The call fails on the first storage, in the order in
/// which the storages are first named, to which a field is missing, and
/// names the first such field; `origin` stands in the failure.
pub fn assemble(origin: &str, settings: &Vec<Setting>) -> (r: Result<Config, ConfigError>)
    ensures
        is_assembled(r, origin@, setting_views(settings@)),
{
    let ghost given = setting_views(settings@);
    if settings.len() == 0 {
        return Err(ConfigError::MissingStorages { origin: origin.to_string() });
    }
    let mut drafts: Vec<Draft> = Vec::new();
    let mut i: usize = 0;
    while i < settings.len()
        invariant
            i <= settings@.len(),
            given == setting_views(settings@),
            drafts_follow(drafts@, given, i as int),
        decreases settings@.len() - i,
    {
        let current = &settings[i];
        assert(given[i as int] == current@);
        proof {
            named_are_the_storages(given, i as int);
        }
        let mut d: usize = 0;
        while d < drafts.len() && !same_text(drafts[d].name.as_str(), current.storage.as_str())
            invariant
                d <= drafts@.len(),
                forall|k: int| 0 <= k < d ==> (#[trigger] drafts@[k]).name@ != current.storage@,
            decreases drafts@.len() - d,
        {
            d = d + 1;
        }
        let ghost before = drafts@;
        if d == drafts.len() {
            proof {
                assert(!named(given, i as int).contains(current.storage@)) by {
                    if named(given, i as int).contains(current.storage@) {
                        let k = choose|k: int|
                            0 <= k < named(given, i as int).len() && named(given, i as int)[k]
                                == current.storage@;
                        assert(drafts@[k].name@ == current.storage@);
                    }
                }
                assert forall|field: FieldKey|
                    setting(given, current.storage@, #[trigger] field.name(), i as int)
                        is None by {
                    assert forall|j: int| 0 <= j < i implies (#[trigger] given[j]).storage
                        != current.storage@ by {
                        assert(named(given, i as int).contains(given[j].storage));
                    }
                    unnamed_has_no_setting(given, current.storage@, field.name(), i as int);
                }
            }
            drafts.push(Draft::blank(current.storage.as_str()));
        } else {
            proof {
                assert(named(given, i as int)[d as int] == current.storage@);
                assert(named(given, i as int).contains(current.storage@));
            }
        }
        assert(drafts@.len() == named(given, i + 1).len());
        assert(drafts@[d as int].name@ == current.storage@);
        let ghost middle = drafts@;
        match FieldKey::parse(current.key.as_str()) {
            Some(field) => {
                let mut draft = Draft::blank("");
                std::mem::swap(&mut draft, &mut drafts[d]);
                draft.set(field, current.value.as_str());
                drafts.set(d, draft);
                proof {
                    assert forall|e: int, other: FieldKey| 0 <= e < drafts@.len() implies #[trigger]
                    drafts@[e].field(other) == setting(
                        given,
                        drafts@[e].name@,
                        other.name(),
                        i + 1,
                    ) by {
                        if other != field {
                            field_names_differ(other, field);
                        }
                        if e != d {
                            assert(drafts@[e] == middle[e]);
                            assert(named(given, i + 1).no_duplicates()) by {
                                named_are_the_storages(given, i + 1);
                            }
                            assert(drafts@[e].name@ == named(given, i + 1)[e]);
                            assert(drafts@[d as int].name@ == named(given, i + 1)[d as int]);
                        }
                    }
                }
            },
            None => {
                proof {
                    assert forall|e: int, other: FieldKey| 0 <= e < drafts@.len() implies #[trigger]
                    drafts@[e].field(other) == setting(
                        given,
                        drafts@[e].name@,
                        other.name(),
                        i + 1,
                    ) by {
                        assert(current.key@ != other.name());
                    }
                }
            },
        }
        i = i + 1;
    }
    let ghost names = named(given, given.len() as int);
    let mut storages = StorageMap::new();
    let mut d: usize = 0;
    proof {
        named_are_the_storages(given, given.len() as int);
    }
    while d < drafts.len()
        invariant
            d <= drafts@.len(),
            given == setting_views(settings@),
            names == named(given, given.len() as int),
            names.no_duplicates(),
            drafts_follow(drafts@, given, given.len() as int),
            first_incomplete(given, 0) == first_incomplete(given, d as int),
            storages@.len() == d,
            forall|k: int| 0 <= k < d ==> #[trigger] storages@[k] == storages_of(given)[k],
        decreases drafts@.len() - d,
    {
        let draft = &drafts[d];
        assert(draft.name@ == names[d as int]);
        assert(forall|field: FieldKey| #[trigger]
            draft.field(field) == value_of(given, draft.name@, field));
        let missing_field = if draft.access_key.is_none() {
            Some(FieldKey::AccessKey)
        } else if draft.access_secret.is_none() {
            Some(FieldKey::AccessSecret)
        } else if draft.bucket.is_none() {
            Some(FieldKey::Bucket)
        } else if draft.region.is_none() {
            Some(FieldKey::Region)
        } else if draft.scheme.is_none() {
            Some(FieldKey::Scheme)
        } else {
            None
        };
        proof {
            assert(draft.field(FieldKey::AccessKey) == optional_view(draft.access_key));
            assert(draft.field(FieldKey::AccessSecret) == optional_view(draft.access_secret));
            assert(draft.field(FieldKey::Bucket) == optional_view(draft.bucket));
            assert(draft.field(FieldKey::Region) == optional_view(draft.region));
            assert(draft.field(FieldKey::Scheme) == optional_view(draft.scheme));
            assert(draft.field(FieldKey::Endpoint) == optional_view(draft.endpoint));
            assert(missing_field == missing(given, draft.name@));
        }
        match missing_field {
            Some(field) => {
                proof {
                    first_incomplete_bounds(given, d as int);
                }
                return Err(
                    ConfigError::MissingField {
                        origin: origin.to_string(),
                        storage: draft.name.clone(),
                        field,
                    },
                );
            },
            None => {},
        }
        let config = StorageConfig {
            access_key: copy_text(&draft.access_key),
            access_secret: copy_text(&draft.access_secret),
            endpoint: copy_optional(&draft.endpoint),
            region: copy_text(&draft.region),
            bucket: copy_text(&draft.bucket),
            scheme: copy_text(&draft.scheme),
        };
        assert(config@ == descriptor(given, draft.name@));
        let ghost before = storages@;
        proof {
            position_is_first(before, draft.name@, 0);
            if has_name(before, draft.name@) {
                let p = position(before, draft.name@, 0);
                assert(before[p] == storages_of(given)[p]);
                assert(names[p] == names[d as int]);
            }
        }
        storages.insert(draft.name.clone(), config);
        assert(storages@ == before.push((draft.name@, config@)));
        d = d + 1;
    }
    assert(storages@ =~= storages_of(given));
    Ok(Config { storages })
}

/// `first_incomplete` lies between its starting point and the number of
/// named storages.
pub proof fn first_incomplete_bounds(settings: Seq<SettingView>, from: int)
    requires
        0 <= from <= named(settings, settings.len() as int).len(),
    ensures
        from <= first_incomplete(settings, from) <= named(settings, settings.len() as int).len(),
    decreases named(settings, settings.len() as int).len() - from,
{
    let names = named(settings, settings.len() as int);
    if from < names.len() && missing(settings, names[from]) is None {
        first_incomplete_bounds(settings, from + 1);
    }
}

/// The file from which [`Config::load`] takes its first layer.
pub const DEFAULT_CONFIG_PATH: &'static str = "config/default";

/// The file from which [`Config::load`] takes its second layer, if the file
/// is there.
pub const LOCAL_CONFIG_PATH: &'static str = "config/local";

/// The prefix of the environment variables that are settings.
pub const ENV_PREFIX: &'static str = "APP";

/// What parts the prefix, the storage's name and the key in the name of
/// such a variable.
pub const ENV_SEPARATOR: &'static str = "__";

/// The origin that stands in a failure of settings from the environment.
pub const ENV_ORIGIN: &'static str = "the environment";

/// The settings of three layers one after the other, so that a later layer
/// overrides an earlier one.
pub open spec fn layered(
    default: Seq<SettingView>,
    local: Seq<SettingView>,
    env: Seq<SettingView>,
) -> Seq<SettingView> {
    default + local + env
}

/// Of two layers the later one wins, field by field: what both layers
/// together give a field is what the later layer gives it, and what the
/// earlier layer gives it where the later one is silent.
pub proof fn later_layer_wins(
    earlier: Seq<SettingView>,
    later: Seq<SettingView>,
    storage: Seq<char>,
    field: FieldKey,
)
    ensures
        value_of(earlier + later, storage, field) == match value_of(later, storage, field) {
            Some(value) => Some(value),
            None => value_of(earlier, storage, field),
        },
{
    later_prefix_wins(earlier, later, storage, field.name(), later.len() as int);
    assert((earlier + later).len() == earlier.len() + later.len());
}

/// What an earlier layer and the first `upto` settings of a later one give
/// a key: what those settings give it, and what the earlier layer gives it
/// where they are silent.
pub proof fn later_prefix_wins(
    earlier: Seq<SettingView>,
    later: Seq<SettingView>,
    storage: Seq<char>,
    key: Seq<char>,
    upto: int,
)
    requires
        0 <= upto <= later.len(),
    ensures
        setting(earlier + later, storage, key, earlier.len() + upto) == match setting(
            later,
            storage,
            key,
            upto,
        ) {
            Some(value) => Some(value),
            None => setting(earlier, storage, key, earlier.len() as int),
        },
    decreases upto,
{
    if upto > 0 {
        later_prefix_wins(earlier, later, storage, key, upto - 1);
        assert((earlier + later)[earlier.len() + upto - 1] == later[upto - 1]);
    } else {
        same_prefix_same_setting(earlier, earlier + later, storage, key, earlier.len() as int);
    }
}

/// Settings that agree in their first `upto` give a key the same value as
/// far as those go.
pub proof fn same_prefix_same_setting(
    a: Seq<SettingView>,
    b: Seq<SettingView>,
    storage: Seq<char>,
    key: Seq<char>,
    upto: int,
)
    requires
        0 <= upto <= a.len(),
        upto <= b.len(),
        forall|i: int| 0 <= i < upto ==> a[i] == b[i],
    ensures
        setting(a, storage, key, upto) == setting(b, storage, key, upto),
    decreases upto,
{
    if upto > 0 {
        same_prefix_same_setting(a, b, storage, key, upto - 1);
    }
}

impl Config {
    /// The configuration of three layers of settings: those of the default
    /// file, those of the local file (none where there is no such file),
    /// and those of the environment. A later layer overrides an earlier one,
    /// field by field. The call fails where no layer holds a setting, and
    /// where a storage lacks a field; the failure names the default file as
    /// its origin.
    pub fn load(default: &Vec<Setting>, local: &Vec<Setting>, env: &Vec<Setting>) -> (r: Result<
        Config,
        ConfigError,
    >)
        ensures
            is_assembled(
                r,
                DEFAULT_CONFIG_PATH@,
                layered(setting_views(default@), setting_views(local@), setting_views(env@)),
            ),
    {
        let mut all: Vec<Setting> = Vec::new();
        append_copies(&mut all, default);
        append_copies(&mut all, local);
        append_copies(&mut all, env);
        assemble(DEFAULT_CONFIG_PATH, &all)
    }

    /// The configuration of the settings that the environment holds. The
    /// call fails where the environment holds none, and where a storage
    /// lacks a field; the failure names the environment as its origin.
    pub fn from_env(settings: &Vec<Setting>) -> (r: Result<Config, ConfigError>)
        ensures
            is_assembled(r, ENV_ORIGIN@, setting_views(settings@)),
    {
        assemble(ENV_ORIGIN, settings)
    }

    /// The configuration of the settings that the file at `path` holds. The
    /// call fails where the file holds none, and where a storage lacks a
    /// field; the failure names the path as its origin.
    pub fn from_file(path: &str, settings: &Vec<Setting>) -> (r: Result<Config, ConfigError>)
        ensures
            is_assembled(r, path@, setting_views(settings@)),
    {
        assemble(path, settings)
    }
}

/// Appends a copy of each setting.
fn append_copies(all: &mut Vec<Setting>, settings: &Vec<Setting>)
    ensures
        setting_views(final(all)@) == setting_views(old(all)@) + setting_views(settings@),
{
    let mut i: usize = 0;
    while i < settings.len()
        invariant
            i <= settings@.len(),
            setting_views(all@) == setting_views(old(all)@) + setting_views(settings@).take(
                i as int,
            ),
        decreases settings@.len() - i,
    {
        let ghost before = all@;
        all.push(settings[i].duplicate());
        proof {
            let grown = setting_views(old(all)@) + setting_views(settings@).take(i + 1);
            assert(setting_views(before).len() == before.len());
            assert(setting_views(all@).len() == grown.len());
            assert forall|k: int| 0 <= k < grown.len() implies setting_views(all@)[k]
                == grown[k] by {
                if k < before.len() {
                    assert(setting_views(before)[k] == before[k]@);
                }
            }
            assert(setting_views(all@) =~= grown);
        }
        i = i + 1;
    }
    assert(setting_views(settings@).take(i as int) =~= setting_views(settings@));
}

/// The text of an option that holds one.
fn copy_text(text: &Option<String>) -> (r: String)
    requires
        text is Some,
    ensures
        r@ == text->Some_0@,
{
    match text {
        Some(t) => t.clone(),
        None => String::new(),
    }
}

} // verus!
