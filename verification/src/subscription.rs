//! Resource subscriptions of the client, remembered so that they can be shown
//! again to a restarted child.

use crate::json::{json_member, json_model, json_string, json_text, member, parse_document, Json};
use crate::text::same_text;
use vstd::prelude::*;

verus! {

/// Method name of a request that subscribes to a resource.
pub const SUBSCRIBE: &'static str = "resources/subscribe";

/// Method name of a request that ends a subscription.
pub const UNSUBSCRIBE: &'static str = "resources/unsubscribe";

/// The `params` of a request, as far as subscriptions need them.
#[derive(Clone, Debug, PartialEq, Eq)]
pub struct SubscribeParams {
    pub uri: String,
}

/// The two fields of a client request that decide whether it is a
/// subscription control line.
#[derive(Clone, Debug, PartialEq, Eq)]
pub struct PartialJsonRequest {
    pub method: String,
    pub params: SubscribeParams,
}

/// A [`PartialJsonRequest`] as plain values.
pub struct RequestView {
    pub method: Seq<char>,
    pub uri: Seq<char>,
}

/// What a client line means for the subscription table.
#[derive(Clone, Debug, PartialEq, Eq)]
pub enum Control {
    /// Remember the line under this resource.
    Subscribe(String),
    /// Forget this resource.
    Unsubscribe(String),
    /// The table is not concerned.
    Neither,
}

/// A [`Control`] as plain values.
pub enum ControlView {
    Subscribe(Seq<char>),
    Unsubscribe(Seq<char>),
    Neither,
}

impl View for PartialJsonRequest {
    type V = RequestView;

    open spec fn view(&self) -> RequestView {
        RequestView { method: self.method@, uri: self.params.uri@ }
    }
}

impl View for Control {
    type V = ControlView;

    open spec fn view(&self) -> ControlView {
        match *self {
            Control::Subscribe(uri) => ControlView::Subscribe(uri@),
            Control::Unsubscribe(uri) => ControlView::Unsubscribe(uri@),
            Control::Neither => ControlView::Neither,
        }
    }
}

/// The view of an optional request.
pub open spec fn optional_request(request: Option<PartialJsonRequest>) -> Option<RequestView> {
    match request {
        Some(inner) => Some(inner@),
        None => None,
    }
}

/// The text under `method` of a document, where it is a string.
pub open spec fn document_method(document: Json) -> Option<Seq<char>> {
    match json_member(document, "method"@) {
        Some(method) => json_string(method),
        None => None,
    }
}

/// The text under `params.uri` of a document, where it is a string.
pub open spec fn document_uri(document: Json) -> Option<Seq<char>> {
    match json_member(document, "params"@) {
        Some(params) => match json_member(params, "uri"@) {
            Some(uri) => json_string(uri),
            None => None,
        },
        None => None,
    }
}

/// A request exists exactly where both fields do.
pub open spec fn request_of_fields(method: Option<Seq<char>>, uri: Option<Seq<char>>) -> Option<
    RequestView,
> {
    match (method, uri) {
        (Some(method), Some(uri)) => Some(RequestView { method, uri }),
        _ => None,
    }
}

/// The request that a document carries, if any.
pub open spec fn request_of_document(document: Json) -> Option<RequestView> {
    request_of_fields(document_method(document), document_uri(document))
}

/// The request that a line carries: that of the document it parses to.
pub open spec fn request_of_line(line: Seq<char>) -> Option<RequestView> {
    match json_text(line) {
        Some(document) => request_of_document(document),
        None => None,
    }
}

/// What a request means for the table: its method decides.
pub open spec fn control_of_request(request: Option<RequestView>) -> ControlView {
    match request {
        Some(inner) => if inner.method == SUBSCRIBE@ {
            ControlView::Subscribe(inner.uri)
        } else if inner.method == UNSUBSCRIBE@ {
            ControlView::Unsubscribe(inner.uri)
        } else {
            ControlView::Neither
        },
        None => ControlView::Neither,
    }
}

/// What a client line means for the table.
pub open spec fn control_of_line(line: Seq<char>) -> ControlView {
    control_of_request(request_of_line(line))
}

/// The text of a member of a document, where the member exists and is a string.
fn member_text<'a>(document: &'a serde_json::Value, key: &str) -> (text: Option<&'a str>)
    ensures
        match text {
            Some(inner) => json_member(json_model(*document), key@) matches Some(found)
                && json_string(found) == Some(inner@),
            None => match json_member(json_model(*document), key@) {
                Some(found) => json_string(found) is None,
                None => true,
            },
        },
{
    match member(document, key) {
        Some(found) => found.as_str(),
        None => None,
    }
}

impl PartialJsonRequest {
    /// Builds the request from its two fields; both have to be there.
    pub fn from_fields(method: Option<&str>, uri: Option<&str>) -> (request: Option<
        PartialJsonRequest,
    >)
        ensures
            optional_request(request) == request_of_fields(
                match method {
                    Some(text) => Some(text@),
                    None => None,
                },
                match uri {
                    Some(text) => Some(text@),
                    None => None,
                },
            ),
    {
        match method {
            Some(method) => match uri {
                Some(uri) => Some(
                    PartialJsonRequest {
                        method: method.to_owned(),
                        params: SubscribeParams { uri: uri.to_owned() },
                    },
                ),
                None => None,
            },
            None => None,
        }
    }

    /// Reads the request out of a parsed document: the string under `method`
    /// and the string under `params.uri`.
    pub fn from_document(document: &serde_json::Value) -> (request: Option<PartialJsonRequest>)
        ensures
            optional_request(request) == request_of_document(json_model(*document)),
    {
        let method = member_text(document, "method");
        let uri = match member(document, "params") {
            Some(params) => member_text(params, "uri"),
            None => None,
        };
        PartialJsonRequest::from_fields(method, uri)
    }

    /// Reads the request out of a line of JSON text; a line that does not
    /// parse carries none.
    pub fn parse(line: &str) -> (request: Option<PartialJsonRequest>)
        ensures
            optional_request(request) == request_of_line(line@),
    {
        match parse_document(line) {
            Ok(document) => PartialJsonRequest::from_document(&document),
            Err(_) => None,
        }
    }

    /// What this request means for the subscription table.
    pub fn control(&self) -> (control: Control)
        ensures
            control@ == control_of_request(Some(self@)),
    {
        if same_text(self.method.as_str(), SUBSCRIBE) {
            Control::Subscribe(self.params.uri.clone())
        } else if same_text(self.method.as_str(), UNSUBSCRIBE) {
            Control::Unsubscribe(self.params.uri.clone())
        } else {
            Control::Neither
        }
    }
}

/// Decides what a client line means for the subscription table.
pub fn classify_line(line: &str) -> (control: Control)
    ensures
        control@ == control_of_line(line@),
{
    match PartialJsonRequest::parse(line) {
        Some(request) => request.control(),
        None => Control::Neither,
    }
}

/// One remembered subscription: the resource and the request line that
/// subscribed to it.
pub type Entry = (Seq<char>, Seq<char>);

/// Whether some entry is about this resource.
pub open spec fn holds(entries: Seq<Entry>, uri: Seq<char>) -> bool {
    exists|i: int| 0 <= i < entries.len() && #[trigger] entries[i].0 == uri
}

/// The place of the entry about this resource, where there is one.
pub open spec fn position(entries: Seq<Entry>, uri: Seq<char>) -> int {
    choose|i: int| 0 <= i < entries.len() && #[trigger] entries[i].0 == uri
}

/// No resource has two entries.
pub open spec fn distinct(entries: Seq<Entry>) -> bool {
    forall|i: int, j: int|
        0 <= i < j < entries.len() ==> #[trigger] entries[i].0 != #[trigger] entries[j].0
}

/// The entries after a subscribe request: the line replaces the one the
/// resource had, or joins at the end.
pub open spec fn subscribed(entries: Seq<Entry>, uri: Seq<char>, line: Seq<char>) -> Seq<Entry> {
    if holds(entries, uri) {
        entries.update(position(entries, uri), (uri, line))
    } else {
        entries.push((uri, line))
    }
}

/// The entries after an unsubscribe request: the resource's entry is gone.
pub open spec fn unsubscribed(entries: Seq<Entry>, uri: Seq<char>) -> Seq<Entry> {
    if holds(entries, uri) {
        entries.remove(position(entries, uri))
    } else {
        entries
    }
}

/// The entries after a control decision.
pub open spec fn controlled(entries: Seq<Entry>, control: ControlView, line: Seq<char>) -> Seq<
    Entry,
> {
    match control {
        ControlView::Subscribe(uri) => subscribed(entries, uri, line),
        ControlView::Unsubscribe(uri) => unsubscribed(entries, uri),
        ControlView::Neither => entries,
    }
}

/// The entries after the client sent a line: only with tracking switched on is
/// the line looked at.
pub open spec fn observed(entries: Seq<Entry>, tracking: bool, line: Seq<char>) -> Seq<Entry> {
    if tracking {
        controlled(entries, control_of_line(line), line)
    } else {
        entries
    }
}

/// The request lines of the entries, in order.
pub open spec fn entry_lines(entries: Seq<Entry>) -> Seq<Seq<char>> {
    Seq::new(entries.len(), |i: int| entries[i].1)
}

/// The table as a map from resource to request line.
pub open spec fn entry_map(entries: Seq<Entry>) -> Map<Seq<char>, Seq<char>> {
    Map::new(|uri: Seq<char>| holds(entries, uri), |uri: Seq<char>| entries[position(entries, uri)].1)
}

/// In a table without duplicates an entry about a resource sits at that
/// resource's position.
pub proof fn lemma_position_unique(entries: Seq<Entry>, uri: Seq<char>, i: int)
    requires
        distinct(entries),
        0 <= i < entries.len(),
        entries[i].0 == uri,
    ensures
        holds(entries, uri),
        position(entries, uri) == i,
{
    let p = position(entries, uri);
    assert(0 <= p < entries.len() && entries[p].0 == uri);
    if p < i {
        assert(entries[p].0 != entries[i].0);
    } else if i < p {
        assert(entries[i].0 != entries[p].0);
    }
}

/// Subscribing keeps the table free of duplicates.
pub proof fn lemma_subscribed_distinct(entries: Seq<Entry>, uri: Seq<char>, line: Seq<char>)
    requires
        distinct(entries),
    ensures
        distinct(subscribed(entries, uri, line)),
        holds(subscribed(entries, uri, line), uri),
{
    let after = subscribed(entries, uri, line);
    if holds(entries, uri) {
        let p = position(entries, uri);
        assert(after[p].0 == uri);
        assert forall|i: int, j: int| 0 <= i < j < after.len() implies #[trigger] after[i].0
            != #[trigger] after[j].0 by {
            assert(after[i].0 == entries[i].0);
            assert(after[j].0 == entries[j].0);
        }
    } else {
        let last = after.len() - 1;
        assert(after[last].0 == uri);
        assert forall|i: int, j: int| 0 <= i < j < after.len() implies #[trigger] after[i].0
            != #[trigger] after[j].0 by {
            assert(after[i].0 == entries[i].0);
            if j < last {
                assert(after[j].0 == entries[j].0);
            }
        }
    }
}

/// Unsubscribing keeps the table free of duplicates and leaves no entry about
/// the resource.
pub proof fn lemma_unsubscribed_distinct(entries: Seq<Entry>, uri: Seq<char>)
    requires
        distinct(entries),
    ensures
        distinct(unsubscribed(entries, uri)),
        !holds(unsubscribed(entries, uri), uri),
        unsubscribed(entries, uri).len() <= entries.len(),
{
    let after = unsubscribed(entries, uri);
    if holds(entries, uri) {
        let p = position(entries, uri);
        assert forall|i: int, j: int| 0 <= i < j < after.len() implies #[trigger] after[i].0
            != #[trigger] after[j].0 by {
            let a = if i < p { i } else { i + 1 };
            let b = if j < p { j } else { j + 1 };
            assert(after[i] == entries[a]);
            assert(after[j] == entries[b]);
            assert(entries[a].0 != entries[b].0);
        }
        assert forall|i: int| 0 <= i < after.len() implies #[trigger] after[i].0 != uri by {
            let a = if i < p { i } else { i + 1 };
            assert(after[i] == entries[a]);
            if a < p {
                assert(entries[a].0 != entries[p].0);
            } else {
                assert(entries[p].0 != entries[a].0);
            }
        }
    }
}

/// Whatever the client sends, the table stays free of duplicates.
pub proof fn lemma_observed_distinct(entries: Seq<Entry>, tracking: bool, line: Seq<char>)
    requires
        distinct(entries),
    ensures
        distinct(observed(entries, tracking, line)),
{
    if tracking {
        match control_of_line(line) {
            ControlView::Subscribe(uri) => lemma_subscribed_distinct(entries, uri, line),
            ControlView::Unsubscribe(uri) => lemma_unsubscribed_distinct(entries, uri),
            ControlView::Neither => {},
        }
    }
}

/// One remembered subscription: a resource and the request line that
/// subscribed to it.
#[derive(Debug)]
struct Subscription {
    uri: String,
    line: String,
}

/// The subscriptions of the client: at most one per resource, in the order in
/// which the resources were first subscribed to.
#[derive(Debug)]
pub struct SubscriptionTable {
    entries: Vec<Subscription>,
}

impl View for SubscriptionTable {
    type V = Seq<Entry>;

    closed spec fn view(&self) -> Seq<Entry> {
        Seq::new(self.entries@.len(), |i: int| (self.entries@[i].uri@, self.entries@[i].line@))
    }
}

impl SubscriptionTable {
    /// No resource has two entries.
    #[verifier::type_invariant]
    spec fn no_resource_twice(&self) -> bool {
        distinct(self@)
    }

    /// A table without entries.
    pub fn new() -> (table: SubscriptionTable)
        ensures
            table@ == Seq::<Entry>::empty(),
    {
        let entries: Vec<Subscription> = Vec::new();
        assert(Seq::new(entries@.len(), |i: int| (entries@[i].uri@, entries@[i].line@))
            =~= Seq::<Entry>::empty());
        SubscriptionTable { entries }
    }

    /// How many resources are subscribed to.
    pub fn len(&self) -> (count: usize)
        ensures
            count == self@.len(),
    {
        self.entries.len()
    }

    /// Where the entry about a resource sits.
    fn find(&self, uri: &str) -> (found: Option<usize>)
        ensures
            match found {
                Some(i) => i < self@.len() && self@[i as int].0 == uri@,
                None => !holds(self@, uri@),
            },
    {
        let mut i: usize = 0;
        while i < self.entries.len()
            invariant
                i <= self.entries.len(),
                self@.len() == self.entries.len(),
                forall|k: int| 0 <= k < i ==> (#[trigger] self@[k]).0 != uri@,
            decreases self.entries.len() - i,
        {
            if same_text(self.entries[i].uri.as_str(), uri) {
                return Some(i);
            }
            i = i + 1;
        }
        None
    }

    /// Whether a resource is subscribed to.
    pub fn contains(&self, uri: &str) -> (found: bool)
        ensures
            found == holds(self@, uri@),
    {
        self.find(uri).is_some()
    }

    /// The request line remembered for a resource.
    pub fn line_of(&self, uri: &str) -> (line: Option<String>)
        ensures
            match line {
                Some(text) => holds(self@, uri@) && text@ == entry_map(self@)[uri@],
                None => !holds(self@, uri@),
            },
    {
        proof {
            use_type_invariant(self);
        }
        match self.find(uri) {
            Some(i) => {
                proof {
                    lemma_position_unique(self@, uri@, i as int);
                }
                Some(self.entries[i].line.clone())
            },
            None => None,
        }
    }

    /// Remembers a subscribe request for a resource, in place of any earlier
    /// one for the same resource.
    pub fn subscribe(&mut self, uri: String, line: String)
        ensures
            final(self)@ == subscribed(old(self)@, uri@, line@),
            distinct(final(self)@),
    {
        proof {
            use_type_invariant(&*self);
            lemma_subscribed_distinct(self@, uri@, line@);
        }
        let found = self.find(uri.as_str());
        let mut entries: Vec<Subscription> = Vec::new();
        assert(Seq::new(entries@.len(), |i: int| (entries@[i].uri@, entries@[i].line@))
            =~= Seq::<Entry>::empty());
        std::mem::swap(&mut entries, &mut self.entries);
        match found {
            Some(i) => {
                proof {
                    lemma_position_unique(old(self)@, uri@, i as int);
                }
                entries.set(i, Subscription { uri, line });
            },
            None => {
                entries.push(Subscription { uri, line });
            },
        }
        assert(Seq::new(entries@.len(), |i: int| (entries@[i].uri@, entries@[i].line@))
            =~= subscribed(old(self)@, uri@, line@));
        self.entries = entries;
    }

    /// Forgets the subscription to a resource, if there is one.
    pub fn unsubscribe(&mut self, uri: &str)
        ensures
            final(self)@ == unsubscribed(old(self)@, uri@),
            distinct(final(self)@),
    {
        proof {
            use_type_invariant(&*self);
            lemma_unsubscribed_distinct(self@, uri@);
        }
        let found = self.find(uri);
        let mut entries: Vec<Subscription> = Vec::new();
        assert(Seq::new(entries@.len(), |i: int| (entries@[i].uri@, entries@[i].line@))
            =~= Seq::<Entry>::empty());
        std::mem::swap(&mut entries, &mut self.entries);
        match found {
            Some(i) => {
                proof {
                    lemma_position_unique(old(self)@, uri@, i as int);
                }
                entries.remove(i);
            },
            None => {},
        }
        assert(Seq::new(entries@.len(), |i: int| (entries@[i].uri@, entries@[i].line@))
            =~= unsubscribed(old(self)@, uri@));
        self.entries = entries;
    }

    /// Applies a control decision that was taken for `line`.
    pub fn apply(&mut self, control: Control, line: &str)
        ensures
            final(self)@ == controlled(old(self)@, control@, line@),
            distinct(final(self)@),
    {
        proof {
            use_type_invariant(&*self);
        }
        match control {
            Control::Subscribe(uri) => self.subscribe(uri, line.to_owned()),
            Control::Unsubscribe(uri) => self.unsubscribe(uri.as_str()),
            Control::Neither => {},
        }
    }

    /// Looks at a line the client sent and updates the table where the line is
    /// a subscribe or unsubscribe request. With tracking switched off the line
    /// is not looked at.
    pub fn observe(&mut self, tracking: bool, line: &str)
        ensures
            final(self)@ == observed(old(self)@, tracking, line@),
            distinct(final(self)@),
    {
        proof {
            use_type_invariant(&*self);
        }
        if tracking {
            let control = classify_line(line);
            self.apply(control, line);
        }
    }

    /// The remembered request lines, in table order.
    pub fn lines(&self) -> (lines: Vec<String>)
        ensures
            crate::text::texts(lines@) == entry_lines(self@),
    {
        let mut lines: Vec<String> = Vec::new();
        let mut i: usize = 0;
        while i < self.entries.len()
            invariant
                i <= self.entries.len(),
                lines.len() == i,
                self@.len() == self.entries.len(),
                forall|k: int| 0 <= k < i ==> lines@[k]@ == (#[trigger] self@[k]).1,
            decreases self.entries.len() - i,
        {
            lines.push(self.entries[i].line.clone());
            i = i + 1;
        }
        assert(crate::text::texts(lines@) =~= entry_lines(self@));
        lines
    }
}


} // verus!
