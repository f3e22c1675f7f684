//! The key scheme: the fixed tokens of each action, the topic keys built from
//! them, and parsing a token back into its action.

use vstd::prelude::*;
use vstd::string::*;

verus! {

/// Returned when a token is none of the recognised action tokens.
#[derive(Debug, Clone, Copy, PartialEq, Eq, Structural)]
pub struct UnknownToken;

/// Compares two strings character by character.
pub fn str_eq(a: &str, b: &str) -> (r: bool)
    ensures
        r == (a@ == b@),
{
    let n = a.unicode_len();
    if n != b.unicode_len() {
        return false;
    }
    let mut i: usize = 0;
    while i < n
        invariant
            n == a@.len(),
            n == b@.len(),
            i <= n,
            a@.subrange(0, i as int) == b@.subrange(0, i as int),
        decreases n - i,
    {
        if a.get_char(i) != b.get_char(i) {
            return false;
        }
        assert(a@.subrange(0, i + 1) =~= a@.subrange(0, i as int).push(a@[i as int]));
        assert(b@.subrange(0, i + 1) =~= b@.subrange(0, i as int).push(b@[i as int]));
        i = i + 1;
    }
    assert(a@ =~= a@.subrange(0, n as int));
    assert(b@ =~= b@.subrange(0, n as int));
    true
}

/// A property of an orb that a client can ask for.
#[derive(Debug, Clone, Copy, PartialEq, Eq, Structural)]
pub enum Query {
    Name,
    Id,
    HardwareVersion,
}

impl Query {
    /// The fixed token of this query.
    pub open spec fn token(self) -> Seq<char> {
        match self {
            Query::Name => "name"@,
            Query::Id => "id"@,
            Query::HardwareVersion => "hardware_version"@,
        }
    }

    /// The topic key of this query on the orb `orb_id`: `orb/{orb_id}/{token}`.
    pub open spec fn key(self, orb_id: Seq<char>) -> Seq<char> {
        "orb/"@ + orb_id + ("/"@ + self.token())
    }

    /// The query whose token is `s`, if any.
    pub open spec fn spec_parse(s: Seq<char>) -> Result<Query, UnknownToken> {
        if s == Query::Name.token() {
            Ok(Query::Name)
        } else if s == Query::Id.token() {
            Ok(Query::Id)
        } else if s == Query::HardwareVersion.token() {
            Ok(Query::HardwareVersion)
        } else {
            Err(UnknownToken)
        }
    }

    /// The fixed token of this query.
    pub fn token_str(&self) -> (r: &'static str)
        ensures
            r@ == self.token(),
    {
        match self {
            Query::Name => "name",
            Query::Id => "id",
            Query::HardwareVersion => "hardware_version",
        }
    }

    /// Parses a token; only the exact tokens are recognised.
    pub fn parse(s: &str) -> (r: Result<Query, UnknownToken>)
        ensures
            r == Query::spec_parse(s@),
    {
        if str_eq(s, "name") {
            Ok(Query::Name)
        } else if str_eq(s, "id") {
            Ok(Query::Id)
        } else if str_eq(s, "hardware_version") {
            Ok(Query::HardwareVersion)
        } else {
            Err(UnknownToken)
        }
    }

    /// Generates the topic key of this query on the orb `orb_id`.
    pub fn to_key(&self, orb_id: &str) -> (r: String)
        ensures
            r@ == self.key(orb_id@),
    {
        let mut k = String::from_str("orb/");
        k.append(orb_id);
        k.append("/");
        k.append(self.token_str());
        assert(k@ =~= self.key(orb_id@));
        k
    }
}

impl std::str::FromStr for Query {
    type Err = UnknownToken;

    fn from_str(s: &str) -> (r: Result<Query, UnknownToken>)
        ensures
            r == Query::spec_parse(s@),
    {
        Query::parse(s)
    }
}

/// An action that a client can have an orb perform.
#[derive(Debug, Clone, Copy, PartialEq, Eq, Structural)]
pub enum Command {
    Reboot,
    Shutdown,
    ResetGimbal,
}

impl Command {
    /// The fixed token of this command.
    pub open spec fn token(self) -> Seq<char> {
        match self {
            Command::Reboot => "reboot"@,
            Command::Shutdown => "shutdown"@,
            Command::ResetGimbal => "reset_gimbal"@,
        }
    }

    /// The topic key of this command on the orb `orb_id`:
    /// `orb/{orb_id}/command/{token}`.
    pub open spec fn key(self, orb_id: Seq<char>) -> Seq<char> {
        "orb/"@ + orb_id + ("/command/"@ + self.token())
    }

    /// The command whose token is `s`, if any.
    pub open spec fn spec_parse(s: Seq<char>) -> Result<Command, UnknownToken> {
        if s == Command::Reboot.token() {
            Ok(Command::Reboot)
        } else if s == Command::Shutdown.token() {
            Ok(Command::Shutdown)
        } else if s == Command::ResetGimbal.token() {
            Ok(Command::ResetGimbal)
        } else {
            Err(UnknownToken)
        }
    }

    /// The fixed token of this command.
    pub fn token_str(&self) -> (r: &'static str)
        ensures
            r@ == self.token(),
    {
        match self {
            Command::Reboot => "reboot",
            Command::Shutdown => "shutdown",
            Command::ResetGimbal => "reset_gimbal",
        }
    }

    /// Parses a token; only the exact tokens are recognised.
    pub fn parse(s: &str) -> (r: Result<Command, UnknownToken>)
        ensures
            r == Command::spec_parse(s@),
    {
        if str_eq(s, "reboot") {
            Ok(Command::Reboot)
        } else if str_eq(s, "shutdown") {
            Ok(Command::Shutdown)
        } else if str_eq(s, "reset_gimbal") {
            Ok(Command::ResetGimbal)
        } else {
            Err(UnknownToken)
        }
    }

    /// Generates the topic key of this command on the orb `orb_id`.
    pub fn to_key(&self, orb_id: &str) -> (r: String)
        ensures
            r@ == self.key(orb_id@),
    {
        let mut k = String::from_str("orb/");
        k.append(orb_id);
        k.append("/command/");
        k.append(self.token_str());
        assert(k@ =~= self.key(orb_id@));
        k
    }
}

impl std::str::FromStr for Command {
    type Err = UnknownToken;

    fn from_str(s: &str) -> (r: Result<Command, UnknownToken>)
        ensures
            r == Command::spec_parse(s@),
    {
        Command::parse(s)
    }
}

/// The topic on which orbs announce their identifiers.
pub const DISCOVERY_KEY: &'static str = "orb/id";

/// The subscription key matching every command key of the orb `orb_id`.
pub open spec fn command_wildcard(orb_id: Seq<char>) -> Seq<char> {
    "orb/"@ + orb_id + "/command/*"@
}

/// Generates the subscription key matching every command of the orb
/// `orb_id`: `orb/{orb_id}/command/*`.
pub fn command_subscription_key(orb_id: &str) -> (r: String)
    ensures
        r@ == command_wildcard(orb_id@),
{
    let mut k = String::from_str("orb/");
    k.append(orb_id);
    k.append("/command/*");
    k
}

/// Any action of either family.
#[derive(Debug, Clone, Copy, PartialEq, Eq, Structural)]
pub enum ActionKind {
    Query(Query),
    Command(Command),
}

impl ActionKind {
    /// The fixed token of this action.
    pub open spec fn token(self) -> Seq<char> {
        match self {
            ActionKind::Query(q) => q.token(),
            ActionKind::Command(c) => c.token(),
        }
    }

    /// What follows the orb identifier in this action's key.
    pub open spec fn suffix(self) -> Seq<char> {
        match self {
            ActionKind::Query(q) => "/"@ + q.token(),
            ActionKind::Command(c) => "/command/"@ + c.token(),
        }
    }

    /// The topic key of this action on the orb `orb_id`.
    pub open spec fn key(self, orb_id: Seq<char>) -> Seq<char> {
        match self {
            ActionKind::Query(q) => q.key(orb_id),
            ActionKind::Command(c) => c.key(orb_id),
        }
    }

    /// The action whose token is `s`, if any.
    pub open spec fn spec_parse(s: Seq<char>) -> Result<ActionKind, UnknownToken> {
        match Query::spec_parse(s) {
            Ok(q) => Ok(ActionKind::Query(q)),
            Err(_) => match Command::spec_parse(s) {
                Ok(c) => Ok(ActionKind::Command(c)),
                Err(e) => Err(e),
            },
        }
    }

    /// Parses any of the six tokens; only the exact tokens are recognised.
    pub fn parse(s: &str) -> (r: Result<ActionKind, UnknownToken>)
        ensures
            r == ActionKind::spec_parse(s@),
    {
        match Query::parse(s) {
            Ok(q) => Ok(ActionKind::Query(q)),
            Err(_) => match Command::parse(s) {
                Ok(c) => Ok(ActionKind::Command(c)),
                Err(e) => Err(e),
            },
        }
    }

    /// Generates the topic key of this action on the orb `orb_id`.
    pub fn to_key(&self, orb_id: &str) -> (r: String)
        ensures
            r@ == self.key(orb_id@),
    {
        match self {
            ActionKind::Query(q) => q.to_key(orb_id),
            ActionKind::Command(c) => c.to_key(orb_id),
        }
    }
}

/// Every key is `orb/`, the orb identifier, then the action's suffix, which
/// ends in the action's token.
pub proof fn lemma_key_layout(a: ActionKind, orb_id: Seq<char>)
    ensures
        a.key(orb_id) == "orb/"@ + orb_id + a.suffix(),
        a.suffix().len() >= a.token().len(),
        a.suffix().subrange(a.suffix().len() - a.token().len(), a.suffix().len() as int)
            == a.token(),
{
    reveal_strlit("/");
    reveal_strlit("/command/");
    assert(a.suffix().subrange(a.suffix().len() - a.token().len(), a.suffix().len() as int)
        =~= a.token());
}

/// The six tokens are pairwise distinct: they have pairwise distinct lengths.
pub proof fn lemma_tokens_distinct(a1: ActionKind, a2: ActionKind)
    ensures
        a1.token() == a2.token() <==> a1 == a2,
{
    reveal_strlit("name");
    reveal_strlit("id");
    reveal_strlit("hardware_version");
    reveal_strlit("reboot");
    reveal_strlit("shutdown");
    reveal_strlit("reset_gimbal");
    if a1 != a2 {
        assert(a1.token().len() != a2.token().len());
    }
}

/// Parsing is the exact inverse of the token that ends each key: the last
/// characters of `a`'s key are `a`'s token, and that token parses back to
/// `a`. A string that is none of the six tokens is refused.
pub proof fn lemma_parse_inverts_key(a: ActionKind, orb_id: Seq<char>, s: Seq<char>)
    ensures
        ({
            let k = a.key(orb_id);
            &&& k.len() >= a.token().len()
            &&& k.subrange(k.len() - a.token().len(), k.len() as int) == a.token()
        }),
        ActionKind::spec_parse(a.token()) == Ok::<ActionKind, UnknownToken>(a),
        ActionKind::spec_parse(s) is Err <==> (forall|b: ActionKind| s != b.token()),
{
    lemma_key_layout(a, orb_id);
    let k = a.key(orb_id);
    let x = a.suffix();
    let t = a.token();
    assert(k.subrange(k.len() - t.len(), k.len() as int) =~= x.subrange(
        x.len() - t.len(),
        x.len() as int,
    ));
    lemma_tokens_distinct(a, ActionKind::Query(Query::Name));
    lemma_tokens_distinct(a, ActionKind::Query(Query::Id));
    lemma_tokens_distinct(a, ActionKind::Query(Query::HardwareVersion));
    lemma_tokens_distinct(a, ActionKind::Command(Command::Reboot));
    lemma_tokens_distinct(a, ActionKind::Command(Command::Shutdown));
    lemma_tokens_distinct(a, ActionKind::Command(Command::ResetGimbal));
    if ActionKind::spec_parse(s) is Ok {
        let b = ActionKind::spec_parse(s)->Ok_0;
        assert(s == b.token());
    }
}

/// Distinct (action, orb) pairs have distinct keys.
pub proof fn lemma_key_injective(a1: ActionKind, id1: Seq<char>, a2: ActionKind, id2: Seq<char>)
    requires
        a1.key(id1) == a2.key(id2),
    ensures
        a1 == a2,
        id1 == id2,
{
    reveal_strlit("orb/");
    reveal_strlit("/");
    reveal_strlit("/command/");
    reveal_strlit("name");
    reveal_strlit("id");
    reveal_strlit("hardware_version");
    reveal_strlit("reboot");
    reveal_strlit("shutdown");
    reveal_strlit("reset_gimbal");
    lemma_key_layout(a1, id1);
    lemma_key_layout(a2, id2);
    let k = a1.key(id1);
    let x1 = a1.suffix();
    let x2 = a2.suffix();
    assert(k[k.len() - 1] == x1[x1.len() - 1]);
    assert(k[k.len() - 1] == x2[x2.len() - 1]);
    assert(k[k.len() - 2] == x1[x1.len() - 2]);
    assert(k[k.len() - 2] == x2[x2.len() - 2]);
    if a1 != a2 {
        assert(x1[x1.len() - 1] != x2[x2.len() - 1] || x1[x1.len() - 2] != x2[x2.len() - 2]);
    }
    assert(a1 == a2);
    assert(id1 =~= k.subrange(4, k.len() - x1.len()));
    assert(id2 =~= k.subrange(4, k.len() - x2.len()));
}

} // verus!
