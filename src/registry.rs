//! The resource registry of a node: the three query keys of the orb and the
//! value that answers each of them.

use vstd::prelude::*;
use crate::orb_actions::{str_eq, lemma_key_injective, ActionKind, Query};

verus! {

/// The reply to a query for a key that the orb does not serve.
pub const NO_SUCH_RESOURCE: &'static str = "Error: no such resource";

/// What `str::trim` leaves of `s`.
pub uninterp spec fn trimmed(s: Seq<char>) -> Seq<char>;

/// Relies on str::trim: leading and trailing whitespace removed, a function
/// of the characters alone; what is left is a contiguous part of `s`.
#[verifier::external_body]
fn trim(s: &str) -> (r: &str)
    ensures
        r@ == trimmed(s@),
        r@.len() <= s@.len(),
        exists|i: int|
            0 <= i <= s@.len() - r@.len() && #[trigger] s@.subrange(i, i + r@.len()) == r@,
{
    s.trim()
}

/// The value of an orb attribute: the trimmed output of the property
/// provider when it succeeded, else the fallback `default`.
pub fn property_value(succeeded: bool, output: &str, default: &str) -> (r: String)
    ensures
        r@ == if succeeded {
            trimmed(output@)
        } else {
            default@
        },
{
    if succeeded {
        String::from_str(trim(output))
    } else {
        String::from_str(default)
    }
}

/// The mapping served by a node with identifier `orb_id`.
pub open spec fn registry_map(orb_id: Seq<char>, name: Seq<char>, hw_version: Seq<char>) -> Map<
    Seq<char>,
    Seq<char>,
> {
    map![
        Query::Id.key(orb_id) => orb_id,
        Query::Name.key(orb_id) => name,
        Query::HardwareVersion.key(orb_id) => hw_version,
    ]
}

/// The reply of a responder with mapping `m` to a request on `key`.
pub open spec fn spec_respond(m: Map<Seq<char>, Seq<char>>, key: Seq<char>) -> Seq<char> {
    if m.contains_key(key) {
        m[key]
    } else {
        NO_SUCH_RESOURCE@
    }
}

/// The read-only attributes that a node serves, built once at startup.
pub struct ResourceMap {
    orb_id: String,
    name: String,
    hw_version: String,
}

impl View for ResourceMap {
    type V = Map<Seq<char>, Seq<char>>;

    closed spec fn view(&self) -> Map<Seq<char>, Seq<char>> {
        registry_map(self.orb_id@, self.name@, self.hw_version@)
    }
}

impl Clone for ResourceMap {
    fn clone(&self) -> (r: ResourceMap)
        ensures
            r@ == self@,
            r.orb_id() == self.orb_id(),
    {
        ResourceMap {
            orb_id: self.orb_id.clone(),
            name: self.name.clone(),
            hw_version: self.hw_version.clone(),
        }
    }
}

impl ResourceMap {
    /// The identifier of the orb whose attributes these are.
    pub closed spec fn orb_id(&self) -> Seq<char> {
        self.orb_id@
    }

    /// Builds the registry of the orb `orb_id`.
    pub fn new(orb_id: &str, name: &str, hw_version: &str) -> (r: ResourceMap)
        ensures
            r@ == registry_map(orb_id@, name@, hw_version@),
            r.orb_id() == orb_id@,
    {
        ResourceMap {
            orb_id: String::from_str(orb_id),
            name: String::from_str(name),
            hw_version: String::from_str(hw_version),
        }
    }

    /// The keys served, one responder each.
    pub fn keys(&self) -> (r: Vec<String>)
        ensures
            r@.len() == 3,
            r@[0]@ == Query::Id.key(self.orb_id()),
            r@[1]@ == Query::Name.key(self.orb_id()),
            r@[2]@ == Query::HardwareVersion.key(self.orb_id()),
            forall|i: int| 0 <= i < r@.len() ==> self@.contains_key(#[trigger] r@[i]@),
            forall|k: Seq<char>|
                self@.contains_key(k) ==> exists|i: int| 0 <= i < r@.len() && r@[i]@ == k,
    {
        let mut r: Vec<String> = Vec::new();
        r.push(Query::Id.to_key(self.orb_id.as_str()));
        r.push(Query::Name.to_key(self.orb_id.as_str()));
        r.push(Query::HardwareVersion.to_key(self.orb_id.as_str()));
        assert forall|k: Seq<char>| self@.contains_key(k) implies exists|i: int|
            0 <= i < r@.len() && r@[i]@ == k by {
            if k == r@[0]@ {
                assert(r@[0]@ == k);
            } else if k == r@[1]@ {
                assert(r@[1]@ == k);
            } else {
                assert(r@[2]@ == k);
            }
        }
        r
    }

    /// The value registered under `key`, if any.
    pub fn value_of(&self, key: &str) -> (r: Option<String>)
        ensures
            match r {
                Some(v) => self@.contains_key(key@) && v@ == self@[key@],
                None => !self@.contains_key(key@),
            },
    {
        proof {
            lemma_registry_keys_distinct(self.orb_id@);
        }
        let id = self.orb_id.as_str();
        if str_eq(key, Query::Id.to_key(id).as_str()) {
            Some(self.orb_id.clone())
        } else if str_eq(key, Query::Name.to_key(id).as_str()) {
            Some(self.name.clone())
        } else if str_eq(key, Query::HardwareVersion.to_key(id).as_str()) {
            Some(self.hw_version.clone())
        } else {
            None
        }
    }

    /// The reply to a request on `key`: its value, or the error text for a
    /// key that is not registered.
    pub fn respond(&self, key: &str) -> (r: String)
        ensures
            r@ == spec_respond(self@, key@),
    {
        match self.value_of(key) {
            Some(v) => v,
            None => String::from_str(NO_SUCH_RESOURCE),
        }
    }
}

/// The three keys of one orb are distinct.
proof fn lemma_registry_keys_distinct(orb_id: Seq<char>)
    ensures
        Query::Id.key(orb_id) != Query::Name.key(orb_id),
        Query::Id.key(orb_id) != Query::HardwareVersion.key(orb_id),
        Query::Name.key(orb_id) != Query::HardwareVersion.key(orb_id),
{
    if Query::Id.key(orb_id) == Query::Name.key(orb_id) {
        lemma_key_injective(
            ActionKind::Query(Query::Id),
            orb_id,
            ActionKind::Query(Query::Name),
            orb_id,
        );
    }
    if Query::Id.key(orb_id) == Query::HardwareVersion.key(orb_id) {
        lemma_key_injective(
            ActionKind::Query(Query::Id),
            orb_id,
            ActionKind::Query(Query::HardwareVersion),
            orb_id,
        );
    }
    if Query::Name.key(orb_id) == Query::HardwareVersion.key(orb_id) {
        lemma_key_injective(
            ActionKind::Query(Query::Name),
            orb_id,
            ActionKind::Query(Query::HardwareVersion),
            orb_id,
        );
    }
}

/// A registry answers each of its three keys with exactly the value
/// registered under it, and every other key with the error text.
pub proof fn lemma_registry_round_trip(
    orb_id: Seq<char>,
    name: Seq<char>,
    hw_version: Seq<char>,
    other: Seq<char>,
)
    ensures
        spec_respond(registry_map(orb_id, name, hw_version), Query::Id.key(orb_id)) == orb_id,
        spec_respond(registry_map(orb_id, name, hw_version), Query::Name.key(orb_id)) == name,
        spec_respond(registry_map(orb_id, name, hw_version), Query::HardwareVersion.key(orb_id))
            == hw_version,
        other != Query::Id.key(orb_id) && other != Query::Name.key(orb_id) && other
            != Query::HardwareVersion.key(orb_id) ==> spec_respond(
            registry_map(orb_id, name, hw_version),
            other,
        ) == NO_SUCH_RESOURCE@,
{
    lemma_registry_keys_distinct(orb_id);
}

} // verus!
