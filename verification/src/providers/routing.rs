//! Which upstream a broker should pick when several serve the same model.
//!
//! Two layers, checked in order: an override for the session, then what is
//! configured for the provider.

use crate::text;
use serde_json::Value;
use vstd::prelude::*;

verus! {

/// What the broker should look for first.
#[derive(Clone, Copy, PartialEq, Eq, Debug, Structural)]
pub enum RoutingSort {
    Price,
    Throughput,
    Latency,
}

/// Whether upstreams that keep what they are sent may be used.
#[derive(Clone, Copy, PartialEq, Eq, Debug, Structural)]
pub enum DataCollection {
    Allow,
    Deny,
}

#[derive(Debug)]
pub struct RoutingConfig {
    pub sort: Option<RoutingSort>,
    /// Upstreams to keep away from.
    pub ignore: Vec<String>,
    /// The only upstreams to use, when there are any.
    pub only: Vec<String>,
    pub data_collection: Option<DataCollection>,
}

/// What a routing asks for.
pub struct Routing {
    pub sort: Option<RoutingSort>,
    pub ignore: Seq<Seq<char>>,
    pub only: Seq<Seq<char>>,
    pub data_collection: Option<DataCollection>,
}

impl RoutingSort {
    pub open spec fn name(self) -> Seq<char> {
        match self {
            RoutingSort::Price => "price"@,
            RoutingSort::Throughput => "throughput"@,
            RoutingSort::Latency => "latency"@,
        }
    }

    /// The name that goes over the wire.
    pub fn as_str(self) -> (name: &'static str)
        ensures
            name@ == self.name(),
    {
        match self {
            RoutingSort::Price => "price",
            RoutingSort::Throughput => "throughput",
            RoutingSort::Latency => "latency",
        }
    }
}

impl DataCollection {
    pub open spec fn name(self) -> Seq<char> {
        match self {
            DataCollection::Allow => "allow"@,
            DataCollection::Deny => "deny"@,
        }
    }

    /// The name that goes over the wire.
    pub fn as_str(self) -> (name: &'static str)
        ensures
            name@ == self.name(),
    {
        match self {
            DataCollection::Allow => "allow",
            DataCollection::Deny => "deny",
        }
    }
}

impl View for RoutingConfig {
    type V = Routing;

    open spec fn view(&self) -> Routing {
        Routing {
            sort: self.sort,
            ignore: text::views(self.ignore@),
            only: text::views(self.only@),
            data_collection: self.data_collection,
        }
    }
}

impl Routing {
    /// Nothing is asked for.
    pub open spec fn nothing() -> Routing {
        Routing { sort: None, ignore: Seq::empty(), only: Seq::empty(), data_collection: None }
    }

    pub open spec fn is_empty(self) -> bool {
        &&& self.sort is None
        &&& self.ignore.len() == 0
        &&& self.only.len() == 0
        &&& self.data_collection is None
    }
}

impl Default for RoutingConfig {
    fn default() -> (routing: Self)
        ensures
            routing@ == Routing::nothing(),
    {
        let routing: RoutingConfig = RoutingConfig {
            sort: None,
            ignore: Vec::new(),
            only: Vec::new(),
            data_collection: None,
        };
        assert(text::views(routing.ignore@) =~= Seq::empty());
        routing
    }
}

fn copied(strings: &Vec<String>) -> (copy: Vec<String>)
    ensures
        text::views(copy@) == text::views(strings@),
{
    let mut copy: Vec<String> = Vec::new();
    let mut i: usize = 0;
    let ghost all = text::views(strings@);
    assert(text::views(copy@) =~= all.take(0));
    while i < strings.len()
        invariant
            i <= strings@.len(),
            all == text::views(strings@),
            text::views(copy@) == all.take(i as int),
        decreases strings@.len() - i,
    {
        let ghost had = text::views(copy@);
        copy.push(strings[i].clone());
        assert(text::views(copy@) =~= had.push(all[i as int]));
        assert(all.take(i + 1) =~= had.push(all[i as int]));
        i += 1;
    }
    assert(all.take(i as int) =~= all);
    copy
}

impl RoutingConfig {
    /// Whether nothing is asked for.
    pub fn is_empty(&self) -> (r: bool)
        ensures
            r == self@.is_empty(),
    {
        self.sort.is_none() && self.ignore.len() == 0 && self.only.len() == 0
            && self.data_collection.is_none()
    }

    fn copy(&self) -> (routing: RoutingConfig)
        ensures
            routing@ == self@,
    {
        RoutingConfig {
            sort: self.sort,
            ignore: copied(&self.ignore),
            only: copied(&self.only),
            data_collection: self.data_collection,
        }
    }
}

/// What an optional routing asks for.
pub open spec fn option_view(routing: Option<RoutingConfig>) -> Option<Routing> {
    match routing {
        Some(routing) => Some(routing@),
        None => None,
    }
}

fn copy_option(routing: &Option<RoutingConfig>) -> (copy: Option<RoutingConfig>)
    ensures
        option_view(copy) == option_view(*routing),
{
    match routing {
        Some(routing) => Some(routing.copy()),
        None => None,
    }
}

/// What was chosen for the whole session, if anything was.
pub struct RoutingSession {
    slot: Option<RoutingConfig>,
}

impl View for RoutingSession {
    type V = Option<Routing>;

    closed spec fn view(&self) -> Option<Routing> {
        option_view(self.slot)
    }
}

impl RoutingSession {
    pub fn new() -> (session: RoutingSession)
        ensures
            session@ is None,
    {
        RoutingSession { slot: None }
    }
}

/// `None` clears the override and falls back to what is configured.
pub fn set_session_override(session: &mut RoutingSession, routing: Option<RoutingConfig>)
    ensures
        final(session)@ == option_view(routing),
{
    session.slot = routing;
}

pub fn session_override(session: &RoutingSession) -> (routing: Option<RoutingConfig>)
    ensures
        option_view(routing) == session@,
{
    copy_option(&session.slot)
}

/// What is configured for a provider.
pub struct ProviderDef {
    pub slug: String,
    pub routing: Option<RoutingConfig>,
}

/// The routing configured for a provider, if any is.
pub open spec fn configured(providers: Seq<ProviderDef>, slug: Seq<char>) -> Option<Routing>
    decreases providers.len(),
{
    if providers.len() == 0 {
        None
    } else if providers[0].slug@ == slug {
        option_view(providers[0].routing)
    } else {
        configured(providers.skip(1), slug)
    }
}

/// What is sent: the override where there is one, else what is configured, and
/// nothing when that asks for nothing.
pub open spec fn resolved(
    session: Option<Routing>,
    providers: Seq<ProviderDef>,
    slug: Seq<char>,
) -> Option<Routing> {
    let routing = if session is Some {
        session
    } else {
        configured(providers, slug)
    };
    if routing is Some && !routing->0.is_empty() {
        routing
    } else {
        None
    }
}

fn find_configured(providers: &Vec<ProviderDef>, slug: &str) -> (routing: Option<RoutingConfig>)
    ensures
        option_view(routing) == configured(providers@, slug@),
{
    let mut i: usize = 0;
    assert(providers@.skip(0) =~= providers@);
    while i < providers.len()
        invariant
            i <= providers@.len(),
            configured(providers@.skip(i as int), slug@) == configured(providers@, slug@),
        decreases providers@.len() - i,
    {
        assert(providers@.skip(i as int)[0] == providers@[i as int]);
        assert(providers@.skip(i as int).skip(1) =~= providers@.skip(i + 1));
        if text::same_text(providers[i].slug.as_str(), slug) {
            return copy_option(&providers[i].routing);
        }
        i += 1;
    }
    None
}

/// What should actually be sent for `slug`, or `None` when nothing is asked for and
/// the broker should be left to its own defaults.
pub fn resolve(session: &RoutingSession, providers: &Vec<ProviderDef>, slug: &str) -> (routing:
    Option<RoutingConfig>)
    ensures
        option_view(routing) == resolved(session@, providers@, slug@),
{
    let routing: Option<RoutingConfig> = match session_override(session) {
        Some(routing) => Some(routing),
        None => find_configured(providers, slug),
    };
    match routing {
        Some(routing) => if routing.is_empty() {
            None
        } else {
            Some(routing)
        },
        None => None,
    }
}

/// A JSON value.
#[verifier::external_type_specification]
#[verifier::external_body]
pub struct ExValue(Value);

/// What a field of a JSON object holds.
pub enum JsonField {
    Text(Seq<char>),
    Texts(Seq<Seq<char>>),
    /// Anything else.
    Other,
}

/// Whether a JSON value is an object.
pub uninterp spec fn is_object(value: Value) -> bool;

/// The fields of a JSON object.
pub uninterp spec fn object_fields(value: Value) -> Map<Seq<char>, JsonField>;

/// An object without fields.
pub open spec fn no_fields() -> Map<Seq<char>, JsonField> {
    Map::empty()
}

/// `serde_json::Map::new` as a `Value::Object`: an object without fields.
#[verifier::external_body]
fn empty_object() -> (object: Value)
    ensures
        is_object(object),
        object_fields(object) == no_fields(),
{
    Value::Object(serde_json::Map::new())
}

/// `IndexMut` of `Value` by a key with a `Value::String` put there: the field holds
/// the text, and the other fields stay as they were. On a value that is neither an
/// object nor null the call panics.
#[verifier::external_body]
fn set_text(object: &mut Value, key: &str, value: &str)
    requires
        is_object(*old(object)),
    ensures
        is_object(*final(object)),
        object_fields(*final(object)) == object_fields(*old(object)).insert(
            key@,
            JsonField::Text(value@),
        ),
{
    object[key] = Value::String(value.to_string());
}

/// `IndexMut` of `Value` by a key with the `Value::from` of a vector put there: the
/// field holds an array of the texts in their order, and the other fields stay as
/// they were. On a value that is neither an object nor null the call panics.
#[verifier::external_body]
fn set_texts(object: &mut Value, key: &str, values: Vec<String>)
    requires
        is_object(*old(object)),
    ensures
        is_object(*final(object)),
        object_fields(*final(object)) == object_fields(*old(object)).insert(
            key@,
            JsonField::Texts(text::views(values@)),
        ),
{
    object[key] = Value::from(values);
}

/// The fields of a request that say how to route it. What is not asked for is not
/// there: an empty field would override the broker's own default with nothing.
pub open spec fn body_fields(routing: Routing) -> Map<Seq<char>, JsonField> {
    let sorted = match routing.sort {
        Some(sort) => no_fields().insert("sort"@, JsonField::Text(sort.name())),
        None => no_fields(),
    };
    let ignoring = if routing.ignore.len() > 0 {
        sorted.insert("ignore"@, JsonField::Texts(routing.ignore))
    } else {
        sorted
    };
    let limited = if routing.only.len() > 0 {
        ignoring.insert("only"@, JsonField::Texts(routing.only))
    } else {
        ignoring
    };
    match routing.data_collection {
        Some(policy) => limited.insert("data_collection"@, JsonField::Text(policy.name())),
        None => limited,
    }
}

/// The `provider` field of a request body.
pub fn to_body_value(routing: &RoutingConfig) -> (body: Value)
    ensures
        is_object(body),
        object_fields(body) == body_fields(routing@),
{
    let mut body: Value = empty_object();
    if let Some(sort) = routing.sort {
        set_text(&mut body, "sort", sort.as_str());
    }
    if routing.ignore.len() > 0 {
        set_texts(&mut body, "ignore", copied(&routing.ignore));
    }
    if routing.only.len() > 0 {
        set_texts(&mut body, "only", copied(&routing.only));
    }
    if let Some(policy) = routing.data_collection {
        set_text(&mut body, "data_collection", policy.as_str());
    }
    body
}

/// Each field is there exactly when something is asked for, and says what; there are
/// no others.
pub proof fn law_absent_knobs_stay_absent(routing: Routing, key: Seq<char>)
    ensures
        body_fields(routing).dom().contains("sort"@) <==> routing.sort is Some,
        body_fields(routing).dom().contains("ignore"@) <==> routing.ignore.len() > 0,
        body_fields(routing).dom().contains("only"@) <==> routing.only.len() > 0,
        body_fields(routing).dom().contains("data_collection"@) <==> routing.data_collection
            is Some,
        body_fields(routing).dom().contains(key) ==> key == "sort"@ || key == "ignore"@ || key
            == "only"@ || key == "data_collection"@,
        routing.sort is Some ==> body_fields(routing)["sort"@] == JsonField::Text(
            routing.sort->0.name(),
        ),
        routing.ignore.len() > 0 ==> body_fields(routing)["ignore"@] == JsonField::Texts(
            routing.ignore,
        ),
        routing.only.len() > 0 ==> body_fields(routing)["only"@] == JsonField::Texts(routing.only),
        routing.data_collection is Some ==> body_fields(routing)["data_collection"@]
            == JsonField::Text(routing.data_collection->0.name()),
        routing.is_empty() ==> body_fields(routing) == no_fields(),
{
    reveal_strlit("sort");
    reveal_strlit("ignore");
    reveal_strlit("only");
    reveal_strlit("data_collection");
    assert("sort"@[0] == 's' && "ignore"@[0] == 'i' && "only"@[0] == 'o' && "data_collection"@[0]
        == 'd');
}

/// The override of the session wins over what is configured, and clearing it falls
/// back to that.
pub proof fn law_the_session_comes_first(
    session: Option<Routing>,
    providers: Seq<ProviderDef>,
    slug: Seq<char>,
)
    ensures
        session is Some && !session->0.is_empty() ==> resolved(session, providers, slug) == session,
        session is Some && session->0.is_empty() ==> resolved(session, providers, slug) is None,
        session is None && configured(providers, slug) is Some && !configured(
            providers,
            slug,
        )->0.is_empty() ==> resolved(session, providers, slug) == configured(providers, slug),
{
}

}
