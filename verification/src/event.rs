//! Product snapshots, domain events, and the factory that derives an event
//! from a snapshot: the identity is reused or freshly generated, the version
//! advances by one, and the event kind records which operation was invoked.

use vstd::prelude::*;
use crate::errors::PublishError;
use crate::version::dec_rep;
use crate::version::increment_version;
use crate::version::is_valid_version;
use crate::version::lemma_dec_rep_digits;
use crate::version::lemma_dec_rep_val;
use crate::version::next_version;
use crate::version::version_value;

verus! {

/// The caller-supplied state of a product at the moment of an operation.
pub struct Product {
    pub id: Option<String>,
    pub name: String,
    pub kind: String,
    pub version: Option<String>,
}

/// The mathematical value of a snapshot.
pub struct ProductView {
    pub id: Option<Seq<char>>,
    pub name: Seq<char>,
    pub kind: Seq<char>,
    pub version: Option<Seq<char>>,
}

impl View for Product {
    type V = ProductView;

    open spec fn view(&self) -> ProductView {
        ProductView {
            id: match self.id {
                Option::Some(s) => Option::Some(s@),
                Option::None => Option::None,
            },
            name: self.name@,
            kind: self.kind@,
            version: match self.version {
                Option::Some(s) => Option::Some(s@),
                Option::None => Option::None,
            },
        }
    }
}

/// Which operation produced an event.
#[derive(Clone, Copy, Debug, PartialEq, Eq, Structural)]
pub enum EventType {
    Created,
    Updated,
    Deleted,
}

/// The wire name of an operation kind.
pub open spec fn event_label(t: EventType) -> Seq<char> {
    match t {
        EventType::Created => "CREATED"@,
        EventType::Updated => "UPDATED"@,
        EventType::Deleted => "DELETED"@,
    }
}

impl EventType {
    /// The wire name of this operation kind.
    pub fn label(&self) -> (r: &'static str)
        ensures
            r@ == event_label(*self),
    {
        match self {
            EventType::Created => "CREATED",
            EventType::Updated => "UPDATED",
            EventType::Deleted => "DELETED",
        }
    }
}

/// The immutable record derived from a snapshot and published to the broker.
pub struct ProductEvent {
    pub id: String,
    pub name: String,
    pub kind: String,
    pub version: String,
    pub event: EventType,
}

/// The mathematical value of a domain event.
pub struct ProductEventView {
    pub id: Seq<char>,
    pub name: Seq<char>,
    pub kind: Seq<char>,
    pub version: Seq<char>,
    pub event: EventType,
}

impl View for ProductEvent {
    type V = ProductEventView;

    open spec fn view(&self) -> ProductEventView {
        ProductEventView {
            id: self.id@,
            name: self.name@,
            kind: self.kind@,
            version: self.version@,
            event: self.event,
        }
    }
}

/// The snapshot's version admits an event: either there is none, or it is a
/// well-formed version string.
pub open spec fn version_ok(v: Option<Seq<char>>) -> bool {
    match v {
        Option::Some(s) => is_valid_version(s),
        Option::None => true,
    }
}

/// What the factory owes for snapshot `p` and operation `t`: the event `e`
/// keeps the name and kind, records `t`, carries the advanced version, and
/// reuses the snapshot's identity verbatim or else carries a non-empty
/// generated one.
pub open spec fn event_ok(p: ProductView, t: EventType, e: ProductEventView) -> bool {
    &&& e.name == p.name
    &&& e.kind == p.kind
    &&& e.event == t
    &&& e.version == next_version(p.version)
    &&& match p.id {
        Option::Some(i) => e.id == i,
        Option::None => e.id.len() > 0,
    }
}

/// A snapshot without a version always yields an event with version `"v1"`.
pub proof fn lemma_first_version(p: ProductView, t: EventType, e: ProductEventView)
    requires
        p.version is None,
        event_ok(p, t, e),
    ensures
        e.version == "v1"@,
{
    reveal_strlit("v1");
    assert("v1"@ =~= seq!['v', '1']);
}

/// A snapshot whose version is `"v"` followed by the decimal rendering of
/// `n` is accepted by the factory, and the event it owes carries `"v"`
/// followed by the rendering of `n + 1`.
pub proof fn lemma_version_advances(p: ProductView, t: EventType, e: ProductEventView, n: nat)
    requires
        1 <= n,
        n < u64::MAX,
        p.version == Option::Some(seq!['v'] + dec_rep(n)),
        event_ok(p, t, e),
    ensures
        version_ok(p.version),
        e.version == seq!['v'] + dec_rep(n + 1),
{
    let s = seq!['v'] + dec_rep(n);
    assert(s.subrange(1, s.len() as int) =~= dec_rep(n));
    lemma_dec_rep_digits(n);
    lemma_dec_rep_val(n);
    assert(s[0] == 'v');
    assert(is_valid_version(s));
    assert(version_value(s) == n);
}

/// A snapshot that carries an identity hands it to the event verbatim.
pub proof fn lemma_identity_reuse(p: ProductView, t: EventType, e: ProductEventView, i: Seq<char>)
    requires
        p.id == Option::Some(i),
        event_ok(p, t, e),
    ensures
        e.id == i,
{
}

/// The event's kind records the operation that was invoked, whatever the
/// snapshot holds.
pub proof fn lemma_event_type_from_operation(p: ProductView, t: EventType, e: ProductEventView)
    requires
        event_ok(p, t, e),
    ensures
        e.event == t,
{
}

/// Relies on `uuid::Uuid::new_v4` and the `Display` impl of `uuid::Uuid`:
/// a fresh random 128-bit identifier, rendered in the hyphenated form of
/// exactly 36 characters. Nothing is assumed about which identifier comes
/// back.
#[verifier::external_body]
fn fresh_identity() -> (r: String)
    ensures
        r@.len() == 36,
{
    uuid::Uuid::new_v4().to_string()
}

/// Builds the domain event for one snapshot and one operation kind.
///
/// The snapshot's identity is reused verbatim when present; otherwise a fresh
/// globally unique identifier is generated. The version advances by one, or
/// starts at `"v1"`; a malformed version string fails the call instead of
/// being defaulted.
pub fn create_event(product: Product, event_type: EventType) -> (r: Result<
    ProductEvent,
    PublishError,
>)
    ensures
        r is Ok <==> version_ok(product@.version),
        r is Ok ==> event_ok(product@, event_type, r->Ok_0@),
        r is Err ==> r->Err_0 == PublishError::MalformedVersion,
{
    let version = match increment_version(product.version) {
        Ok(v) => v,
        Err(e) => {
            return Err(e);
        },
    };
    let id = match product.id {
        Some(i) => i,
        None => fresh_identity(),
    };
    Ok(
        ProductEvent {
            id,
            name: product.name,
            kind: product.kind,
            version,
            event: event_type,
        },
    )
}

} // verus!
