//! Canonical entity identities, revisions and timestamps.

use crate::digits;
use crate::digits::{append_digits, parse_digits};
use crate::open_error::DurableOpenError;
use vstd::prelude::*;
use vstd::string::StringExecFns;
use vstd::utf8;

verus! {

/// The number of hexadecimal digits in an identity.
pub const IDENTITY_WIDTH: usize = 32;

pub open spec fn agent_prefix() -> Seq<u8> {
    seq![0x61u8, 0x67u8, 0x74u8, 0x5fu8]
}

pub open spec fn session_prefix() -> Seq<u8> {
    seq![0x73u8, 0x65u8, 0x73u8, 0x5fu8]
}

pub open spec fn item_prefix() -> Seq<u8> {
    seq![0x69u8, 0x74u8, 0x6du8, 0x5fu8]
}

/// The canonical name of an identity: a four byte prefix and thirty-two lowercase hexadecimal digits.
pub open spec fn identity_name(prefix: Seq<u8>, value: u128) -> Seq<u8> {
    prefix + digits::numeral(digits::digits(value as nat, 16, 32))
}

pub open spec fn agent_name(value: u128) -> Seq<u8> {
    identity_name(agent_prefix(), value)
}

pub open spec fn session_name(value: u128) -> Seq<u8> {
    identity_name(session_prefix(), value)
}

pub open spec fn item_name(value: u128) -> Seq<u8> {
    identity_name(item_prefix(), value)
}

proof fn lemma_hexadecimal_limit()
    ensures
        digits::limit(16, 32) == u128::MAX + 1,
{
    reveal_with_fuel(digits::limit, 33);
}

proof fn lemma_identity_name_shape(prefix: Seq<u8>, value: u128)
    requires
        prefix.len() == 4,
    ensures
        identity_name(prefix, value).len() == 36,
        identity_name(prefix, value).take(4) == prefix,
        identity_name(prefix, value).skip(4) == digits::numeral(
            digits::digits(value as nat, 16, 32),
        ),
        digits::all_below(digits::digits(value as nat, 16, 32), 16),
{
    digits::lemma_digits_shape(value as nat, 16, 32);
    let tail = digits::numeral(digits::digits(value as nat, 16, 32));
    assert((prefix + tail).take(4) =~= prefix);
    assert((prefix + tail).skip(4) =~= tail);
}

/// No two identities of one kind share a name.
pub proof fn lemma_identity_name_injective(prefix: Seq<u8>, a: u128, b: u128)
    requires
        prefix.len() == 4,
        identity_name(prefix, a) == identity_name(prefix, b),
    ensures
        a == b,
{
    lemma_hexadecimal_limit();
    lemma_identity_name_shape(prefix, a);
    lemma_identity_name_shape(prefix, b);
    digits::lemma_numeral_injective(
        digits::digits(a as nat, 16, 32),
        digits::digits(b as nat, 16, 32),
    );
    digits::lemma_number_of_digits(a as nat, 16, 32);
    digits::lemma_number_of_digits(b as nat, 16, 32);
}

/// A name determines both the kind and the value of the identity that it was written for.
pub proof fn law_identity_names_are_exact(a: u128, b: u128)
    ensures
        agent_name(a) == agent_name(b) <==> a == b,
        session_name(a) == session_name(b) <==> a == b,
        item_name(a) == item_name(b) <==> a == b,
        agent_name(a) != session_name(b),
        agent_name(a) != item_name(b),
        session_name(a) != item_name(b),
{
    if agent_name(a) == agent_name(b) {
        lemma_identity_name_injective(agent_prefix(), a, b);
    }
    if session_name(a) == session_name(b) {
        lemma_identity_name_injective(session_prefix(), a, b);
    }
    if item_name(a) == item_name(b) {
        lemma_identity_name_injective(item_prefix(), a, b);
    }
    assert(agent_name(a)[0] == 0x61u8);
    assert(session_name(b)[0] == 0x73u8);
    assert(session_name(a)[0] == 0x73u8);
    assert(item_name(b)[0] == 0x69u8);
}

pub(crate) fn format_identity(prefix: &'static str, value: u128) -> (name: String)
    requires
        vstd::utf8::is_ascii_chars(prefix@),
    ensures
        name@ == prefix@ + digits::ascii_text(
            digits::numeral(digits::digits(value as nat, 16, 32)),
        ),
{
    let mut name = String::new();
    name.append(prefix);
    append_digits(&mut name, value, 16, IDENTITY_WIDTH);
    assert(name@ =~= prefix@ + digits::ascii_text(
        digits::numeral(digits::digits(value as nat, 16, 32)),
    ));
    name
}

fn parse_identity(bytes: &[u8], prefix: [u8; 4]) -> (value: Option<u128>)
    ensures
        value matches Some(v) ==> v != 0 && bytes@ == identity_name(prefix@, v),
        value is None ==> forall|v: u128|
            v != 0 ==> bytes@ != #[trigger] identity_name(prefix@, v),
{
    proof {
        assert forall|v: u128| #[trigger] identity_name(prefix@, v).len() == 36 by {
            lemma_identity_name_shape(prefix@, v);
        }
        assert forall|v: u128|
            #![trigger identity_name(prefix@, v)]
            identity_name(prefix@, v).take(4) == prefix@ && digits::all_below(
                digits::digits(v as nat, 16, 32),
                16,
            ) && identity_name(prefix@, v).skip(4) == digits::numeral(
                digits::digits(v as nat, 16, 32),
            ) by {
            lemma_identity_name_shape(prefix@, v);
        }
        lemma_hexadecimal_limit();
    }
    if bytes.len() != 36 {
        return None;
    }
    let mut i: usize = 0;
    while i < 4
        invariant
            i <= 4,
            bytes@.len() == 36,
            forall|k: int| 0 <= k < i ==> bytes@[k] == prefix@[k],
            forall|v: u128| #[trigger] identity_name(prefix@, v).take(4) == prefix@,
        decreases 4 - i,
    {
        if bytes[i] != prefix[i] {
            proof {
                assert forall|v: u128| bytes@ != #[trigger] identity_name(prefix@, v) by {
                    assert(identity_name(prefix@, v).take(4)[i as int] == identity_name(
                        prefix@,
                        v,
                    )[i as int]);
                }
            }
            return None;
        }
        i = i + 1;
    }
    match parse_digits(bytes, 4, 16) {
        None => None,
        Some(value) => {
            proof {
                assert(bytes@ =~= prefix@ + bytes@.skip(4));
            }
            if value == 0 {
                proof {
                    assert forall|v: u128| v != 0 implies bytes@ != #[trigger] identity_name(
                        prefix@,
                        v,
                    ) by {
                        if bytes@ == identity_name(prefix@, v) {
                            lemma_identity_name_injective(prefix@, v, value);
                        }
                    }
                }
                None
            } else {
                Some(value)
            }
        },
    }
}

/// The nonzero identity of one Agent.
#[derive(Clone, Copy, Debug, PartialEq, Eq, PartialOrd, Ord, Hash, Structural)]
pub struct AgentId(u128);

impl View for AgentId {
    type V = u128;

    closed spec fn view(&self) -> u128 {
        self.0
    }
}

impl AgentId {
    #[verifier::type_invariant]
    spec fn is_nonzero(self) -> bool {
        self.0 != 0
    }

    pub fn new(value: u128) -> (identity: Option<Self>)
        ensures
            identity is Some <==> value != 0,
            identity matches Some(i) ==> i@ == value,
    {
        if value == 0 {
            None
        } else {
            Some(AgentId(value))
        }
    }

    pub fn value(self) -> (value: u128)
        ensures
            value == self@,
            value != 0,
    {
        proof {
            use_type_invariant(&self);
        }
        self.0
    }

    /// The canonical name.
    pub fn canonical_name(self) -> (name: String)
        ensures
            utf8::encode_utf8(name@) == agent_name(self@),
            name@ == digits::ascii_text(agent_name(self@)),
    {
        proof {
            reveal_strlit("agt_");
        }
        let name = format_identity("agt_", self.0);
        proof {
            lemma_identity_text("agt_"@, agent_prefix(), self.0);
        }
        name
    }

    /// Parses the raw bytes of a canonical name.
    pub fn parse(bytes: &[u8]) -> (identity: Option<Self>)
        ensures
            identity matches Some(i) ==> i@ != 0 && bytes@ == agent_name(i@),
            identity is None ==> forall|v: u128| v != 0 ==> bytes@ != #[trigger] agent_name(v),
    {
        let prefix: [u8; 4] = [0x61, 0x67, 0x74, 0x5f];
        assert(prefix@ =~= agent_prefix());
        match parse_identity(bytes, prefix) {
            Some(value) => Some(AgentId(value)),
            None => {
                assert forall|v: u128| v != 0 implies bytes@ != #[trigger] agent_name(v) by {
                    assert(bytes@ != identity_name(prefix@, v));
                }
                None
            },
        }
    }

    /// Two identities with the same value are the same identity.
    pub proof fn lemma_view_injective(a: Self, b: Self)
        ensures
            a@ == b@ <==> a == b,
    {
    }
}

/// The nonzero identity of one Session.
#[derive(Clone, Copy, Debug, PartialEq, Eq, PartialOrd, Ord, Hash, Structural)]
pub struct SessionId(u128);

impl View for SessionId {
    type V = u128;

    closed spec fn view(&self) -> u128 {
        self.0
    }
}

impl SessionId {
    #[verifier::type_invariant]
    spec fn is_nonzero(self) -> bool {
        self.0 != 0
    }

    pub fn new(value: u128) -> (identity: Option<Self>)
        ensures
            identity is Some <==> value != 0,
            identity matches Some(i) ==> i@ == value,
    {
        if value == 0 {
            None
        } else {
            Some(SessionId(value))
        }
    }

    pub fn value(self) -> (value: u128)
        ensures
            value == self@,
            value != 0,
    {
        proof {
            use_type_invariant(&self);
        }
        self.0
    }

    /// The canonical name.
    pub fn canonical_name(self) -> (name: String)
        ensures
            utf8::encode_utf8(name@) == session_name(self@),
            name@ == digits::ascii_text(session_name(self@)),
    {
        proof {
            reveal_strlit("ses_");
        }
        let name = format_identity("ses_", self.0);
        proof {
            lemma_identity_text("ses_"@, session_prefix(), self.0);
        }
        name
    }

    /// Parses the raw bytes of a canonical name.
    pub fn parse(bytes: &[u8]) -> (identity: Option<Self>)
        ensures
            identity matches Some(i) ==> i@ != 0 && bytes@ == session_name(i@),
            identity is None ==> forall|v: u128| v != 0 ==> bytes@ != #[trigger] session_name(v),
    {
        let prefix: [u8; 4] = [0x73, 0x65, 0x73, 0x5f];
        assert(prefix@ =~= session_prefix());
        match parse_identity(bytes, prefix) {
            Some(value) => Some(SessionId(value)),
            None => {
                assert forall|v: u128| v != 0 implies bytes@ != #[trigger] session_name(v) by {
                    assert(bytes@ != identity_name(prefix@, v));
                }
                None
            },
        }
    }

    /// Two identities with the same value are the same identity.
    pub proof fn lemma_view_injective(a: Self, b: Self)
        ensures
            a@ == b@ <==> a == b,
    {
    }
}

/// The nonzero identity of one conversation item.
#[derive(Clone, Copy, Debug, PartialEq, Eq, PartialOrd, Ord, Hash, Structural)]
pub struct ItemId(u128);

impl View for ItemId {
    type V = u128;

    closed spec fn view(&self) -> u128 {
        self.0
    }
}

impl ItemId {
    #[verifier::type_invariant]
    spec fn is_nonzero(self) -> bool {
        self.0 != 0
    }

    pub fn new(value: u128) -> (identity: Option<Self>)
        ensures
            identity is Some <==> value != 0,
            identity matches Some(i) ==> i@ == value,
    {
        if value == 0 {
            None
        } else {
            Some(ItemId(value))
        }
    }

    pub fn value(self) -> (value: u128)
        ensures
            value == self@,
            value != 0,
    {
        proof {
            use_type_invariant(&self);
        }
        self.0
    }

    /// The canonical name.
    pub fn canonical_name(self) -> (name: String)
        ensures
            utf8::encode_utf8(name@) == item_name(self@),
            name@ == digits::ascii_text(item_name(self@)),
    {
        proof {
            reveal_strlit("itm_");
        }
        let name = format_identity("itm_", self.0);
        proof {
            lemma_identity_text("itm_"@, item_prefix(), self.0);
        }
        name
    }

    /// Parses the raw bytes of a canonical name.
    pub fn parse(bytes: &[u8]) -> (identity: Option<Self>)
        ensures
            identity matches Some(i) ==> i@ != 0 && bytes@ == item_name(i@),
            identity is None ==> forall|v: u128| v != 0 ==> bytes@ != #[trigger] item_name(v),
    {
        let prefix: [u8; 4] = [0x69, 0x74, 0x6d, 0x5f];
        assert(prefix@ =~= item_prefix());
        match parse_identity(bytes, prefix) {
            Some(value) => Some(ItemId(value)),
            None => {
                assert forall|v: u128| v != 0 implies bytes@ != #[trigger] item_name(v) by {
                    assert(bytes@ != identity_name(prefix@, v));
                }
                None
            },
        }
    }

    /// Two identities with the same value are the same identity.
    pub proof fn lemma_view_injective(a: Self, b: Self)
        ensures
            a@ == b@ <==> a == b,
    {
    }
}

pub proof fn lemma_identity_text(text: Seq<char>, prefix: Seq<u8>, value: u128)
    requires
        text.len() == 4,
        prefix.len() == 4,
        forall|i: int| 0 <= i < 4 ==> text[i] == prefix[i] as char,
        forall|i: int| 0 <= i < 4 ==> prefix[i] <= 0x7f,
    ensures
        text + digits::ascii_text(digits::numeral(digits::digits(value as nat, 16, 32)))
            == digits::ascii_text(identity_name(prefix, value)),
        utf8::encode_utf8(digits::ascii_text(identity_name(prefix, value))) == identity_name(
            prefix,
            value,
        ),
{
    lemma_identity_name_shape(prefix, value);
    let ds = digits::digits(value as nat, 16, 32);
    let name = identity_name(prefix, value);
    let chars = digits::ascii_text(name);
    assert(text + digits::ascii_text(digits::numeral(ds)) =~= chars);
    assert forall|i: int| 0 <= i < chars.len() implies (#[trigger] chars[i]) as int <= 0x7f by {
        if i >= 4 {
            assert(name[i] == digits::digit_byte(ds[i - 4]));
            assert(ds[i - 4] < 16);
        } else {
            assert(name[i] == prefix[i]);
        }
    }
    assert(utf8::is_ascii_chars(chars));
    utf8::is_ascii_chars_encode_utf8(chars);
    assert(utf8::encode_utf8(chars) =~= name);
}

/// The value that a name denotes under a prefix, if the name is canonical.
pub open spec fn canonical_identity(prefix: Seq<u8>, name: Seq<u8>) -> Option<u128> {
    if exists|v: u128| v != 0 && name == #[trigger] identity_name(prefix, v) {
        Some(choose|v: u128| v != 0 && name == #[trigger] identity_name(prefix, v))
    } else {
        None
    }
}

/// An identity's name denotes that identity.
pub proof fn lemma_canonical_identity(prefix: Seq<u8>, value: u128)
    requires
        prefix.len() == 4,
        value != 0,
    ensures
        canonical_identity(prefix, identity_name(prefix, value)) == Some(value),
{
    let name = identity_name(prefix, value);
    let found = choose|v: u128| v != 0 && name == #[trigger] identity_name(prefix, v);
    lemma_identity_name_injective(prefix, value, found);
}

/// Parses the name of an Agent directory or reservation.
pub fn parse_agent_id_name(name: &[u8]) -> (parsed: Result<AgentId, DurableOpenError>)
    ensures
        match parsed {
            Ok(id) => canonical_identity(agent_prefix(), name@) == Some(id@),
            Err(error) => error == DurableOpenError::DurableStateCorrupt && canonical_identity(
                agent_prefix(),
                name@,
            ) is None,
        },
{
    match AgentId::parse(name) {
        Some(id) => {
            proof {
                lemma_canonical_identity(agent_prefix(), id@);
            }
            Ok(id)
        },
        None => {
            assert forall|v: u128| v != 0 implies name@ != #[trigger] identity_name(
                agent_prefix(),
                v,
            ) by {
                assert(name@ != agent_name(v));
            }
            Err(DurableOpenError::DurableStateCorrupt)
        },
    }
}

/// Parses the name of a Session directory or reservation.
pub fn parse_session_id_name(name: &[u8]) -> (parsed: Result<SessionId, DurableOpenError>)
    ensures
        match parsed {
            Ok(id) => canonical_identity(session_prefix(), name@) == Some(id@),
            Err(error) => error == DurableOpenError::DurableStateCorrupt && canonical_identity(
                session_prefix(),
                name@,
            ) is None,
        },
{
    match SessionId::parse(name) {
        Some(id) => {
            proof {
                lemma_canonical_identity(session_prefix(), id@);
            }
            Ok(id)
        },
        None => {
            assert forall|v: u128| v != 0 implies name@ != #[trigger] identity_name(
                session_prefix(),
                v,
            ) by {
                assert(name@ != session_name(v));
            }
            Err(DurableOpenError::DurableStateCorrupt)
        },
    }
}

/// An Agent definition revision: a nonzero counter.
#[derive(Clone, Copy, Debug, PartialEq, Eq, PartialOrd, Ord, Hash, Structural)]
pub struct AgentRevision(u64);

impl View for AgentRevision {
    type V = nat;

    closed spec fn view(&self) -> nat {
        self.0 as nat
    }
}

impl AgentRevision {
    #[verifier::type_invariant]
    spec fn is_nonzero(self) -> bool {
        self.0 != 0
    }

    pub fn new(value: u64) -> (revision: Option<Self>)
        ensures
            revision is Some <==> value != 0,
            revision matches Some(r) ==> r@ == value,
    {
        if value == 0 {
            None
        } else {
            Some(AgentRevision(value))
        }
    }

    pub fn get(self) -> (value: u64)
        ensures
            value == self@,
            value != 0,
    {
        proof {
            use_type_invariant(&self);
        }
        self.0
    }

    /// Whether `next` is the revision directly after this one.
    pub fn is_followed_by(self, next: Self) -> (exact: bool)
        ensures
            exact == (next@ == self@ + 1),
    {
        match self.get().checked_add(1) {
            Some(expected) => expected == next.get(),
            None => false,
        }
    }

    /// Two revisions with the same counter are the same revision.
    pub proof fn lemma_view_injective(a: Self, b: Self)
        ensures
            a@ == b@ <==> a == b,
    {
    }
}

/// An Agent metadata revision: a nonzero counter.
#[derive(Clone, Copy, Debug, PartialEq, Eq, PartialOrd, Ord, Hash, Structural)]
pub struct AgentMetadataRevision(u64);

impl View for AgentMetadataRevision {
    type V = nat;

    closed spec fn view(&self) -> nat {
        self.0 as nat
    }
}

impl AgentMetadataRevision {
    #[verifier::type_invariant]
    spec fn is_nonzero(self) -> bool {
        self.0 != 0
    }

    pub fn new(value: u64) -> (revision: Option<Self>)
        ensures
            revision is Some <==> value != 0,
            revision matches Some(r) ==> r@ == value,
    {
        if value == 0 {
            None
        } else {
            Some(AgentMetadataRevision(value))
        }
    }

    pub fn get(self) -> (value: u64)
        ensures
            value == self@,
            value != 0,
    {
        proof {
            use_type_invariant(&self);
        }
        self.0
    }

    /// Whether `next` is the revision directly after this one.
    pub fn is_followed_by(self, next: Self) -> (exact: bool)
        ensures
            exact == (next@ == self@ + 1),
    {
        match self.get().checked_add(1) {
            Some(expected) => expected == next.get(),
            None => false,
        }
    }

    /// Two revisions with the same counter are the same revision.
    pub proof fn lemma_view_injective(a: Self, b: Self)
        ensures
            a@ == b@ <==> a == b,
    {
    }
}

/// A Session definition revision: a nonzero counter.
#[derive(Clone, Copy, Debug, PartialEq, Eq, PartialOrd, Ord, Hash, Structural)]
pub struct SessionDefinitionRevision(u64);

impl View for SessionDefinitionRevision {
    type V = nat;

    closed spec fn view(&self) -> nat {
        self.0 as nat
    }
}

impl SessionDefinitionRevision {
    #[verifier::type_invariant]
    spec fn is_nonzero(self) -> bool {
        self.0 != 0
    }

    pub fn new(value: u64) -> (revision: Option<Self>)
        ensures
            revision is Some <==> value != 0,
            revision matches Some(r) ==> r@ == value,
    {
        if value == 0 {
            None
        } else {
            Some(SessionDefinitionRevision(value))
        }
    }

    pub fn get(self) -> (value: u64)
        ensures
            value == self@,
            value != 0,
    {
        proof {
            use_type_invariant(&self);
        }
        self.0
    }

    /// Whether `next` is the revision directly after this one.
    pub fn is_followed_by(self, next: Self) -> (exact: bool)
        ensures
            exact == (next@ == self@ + 1),
    {
        match self.get().checked_add(1) {
            Some(expected) => expected == next.get(),
            None => false,
        }
    }

    /// Two revisions with the same counter are the same revision.
    pub proof fn lemma_view_injective(a: Self, b: Self)
        ensures
            a@ == b@ <==> a == b,
    {
    }
}

/// A Session metadata revision: a nonzero counter.
#[derive(Clone, Copy, Debug, PartialEq, Eq, PartialOrd, Ord, Hash, Structural)]
pub struct SessionMetadataRevision(u64);

impl View for SessionMetadataRevision {
    type V = nat;

    closed spec fn view(&self) -> nat {
        self.0 as nat
    }
}

impl SessionMetadataRevision {
    #[verifier::type_invariant]
    spec fn is_nonzero(self) -> bool {
        self.0 != 0
    }

    pub fn new(value: u64) -> (revision: Option<Self>)
        ensures
            revision is Some <==> value != 0,
            revision matches Some(r) ==> r@ == value,
    {
        if value == 0 {
            None
        } else {
            Some(SessionMetadataRevision(value))
        }
    }

    pub fn get(self) -> (value: u64)
        ensures
            value == self@,
            value != 0,
    {
        proof {
            use_type_invariant(&self);
        }
        self.0
    }

    /// Whether `next` is the revision directly after this one.
    pub fn is_followed_by(self, next: Self) -> (exact: bool)
        ensures
            exact == (next@ == self@ + 1),
    {
        match self.get().checked_add(1) {
            Some(expected) => expected == next.get(),
            None => false,
        }
    }

    /// Two revisions with the same counter are the same revision.
    pub proof fn lemma_view_injective(a: Self, b: Self)
        ensures
            a@ == b@ <==> a == b,
    {
    }
}

/// A Session workspace revision: a nonzero counter.
#[derive(Clone, Copy, Debug, PartialEq, Eq, PartialOrd, Ord, Hash, Structural)]
pub struct WorkspaceRevision(u64);

impl View for WorkspaceRevision {
    type V = nat;

    closed spec fn view(&self) -> nat {
        self.0 as nat
    }
}

impl WorkspaceRevision {
    #[verifier::type_invariant]
    spec fn is_nonzero(self) -> bool {
        self.0 != 0
    }

    pub fn new(value: u64) -> (revision: Option<Self>)
        ensures
            revision is Some <==> value != 0,
            revision matches Some(r) ==> r@ == value,
    {
        if value == 0 {
            None
        } else {
            Some(WorkspaceRevision(value))
        }
    }

    pub fn get(self) -> (value: u64)
        ensures
            value == self@,
            value != 0,
    {
        proof {
            use_type_invariant(&self);
        }
        self.0
    }

    /// Whether `next` is the revision directly after this one.
    pub fn is_followed_by(self, next: Self) -> (exact: bool)
        ensures
            exact == (next@ == self@ + 1),
    {
        match self.get().checked_add(1) {
            Some(expected) => expected == next.get(),
            None => false,
        }
    }

    /// Two revisions with the same counter are the same revision.
    pub proof fn lemma_view_injective(a: Self, b: Self)
        ensures
            a@ == b@ <==> a == b,
    {
    }
}

/// A point in time, in milliseconds since the Unix epoch.
#[derive(Clone, Copy, Debug, PartialEq, Eq, PartialOrd, Ord, Hash, Structural)]
pub struct Timestamp {
    pub milliseconds: u64,
}

} // verus!
