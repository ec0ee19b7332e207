//! Runtime metadata for a module: lifetime class, run-as identity, the
//! assembled metadata record, its fixed JSON rendering, and the property
//! error type the resolver methods report through.

use vstd::prelude::*;
use crate::emit::{json_quote_of, push_json_quoted};
use crate::text::{dec_of, push_dec};
use crate::version::Version;

verus! {

/// How long the host keeps a module loaded: `Short` reloads it per request,
/// `Long` keeps it resident until the platform restarts.
#[derive(Clone, Copy, PartialEq, Eq, Structural, Debug)]
pub enum Lifetime {
    Short,
    Long,
}

impl Lifetime {
    /// The wire code of this lifetime class.
    pub open spec fn code_spec(self) -> u32 {
        match self {
            Lifetime::Short => 1,
            Lifetime::Long => 2,
        }
    }

    /// Returns the wire code of this lifetime class.
    pub fn code(&self) -> (r: u32)
        ensures
            r == self.code_spec(),
    {
        match self {
            Lifetime::Short => 1,
            Lifetime::Long => 2,
        }
    }
}

impl Default for Lifetime {
    /// Modules are long-lived unless declared otherwise.
    fn default() -> (r: Lifetime)
        ensures
            r == Lifetime::Long,
    {
        Lifetime::Long
    }
}

/// The user identity a module runs as: the root sentinel, or a concrete
/// user id.
#[derive(Clone, Copy, PartialEq, Eq, Structural, Debug)]
pub enum UserAccount {
    Root,
    User(u32),
}

impl UserAccount {
    /// The wire id of this account: zero for root.
    pub open spec fn id_spec(self) -> u32 {
        match self {
            UserAccount::Root => 0,
            UserAccount::User(uid) => uid,
        }
    }

    /// Returns the wire id of this account.
    pub fn id(&self) -> (r: u32)
        ensures
            r == self.id_spec(),
    {
        match self {
            UserAccount::Root => 0,
            UserAccount::User(uid) => *uid,
        }
    }

    /// Builds the account for a wire id: zero is the root sentinel.
    pub fn from_id(id: u32) -> (r: UserAccount)
        ensures
            r == (if id == 0 {
                UserAccount::Root
            } else {
                UserAccount::User(id)
            }),
    {
        if id == 0 {
            UserAccount::Root
        } else {
            UserAccount::User(id)
        }
    }
}

impl Default for UserAccount {
    /// Modules run as root unless declared otherwise.
    fn default() -> (r: UserAccount)
        ensures
            r == UserAccount::Root,
    {
        UserAccount::Root
    }
}

/// An error raised while resolving a property: a human-readable message for
/// the host's log.
#[derive(Debug)]
pub struct PropertyError {
    message: String,
}

impl PropertyError {
    /// The message this error carries.
    pub closed spec fn message_spec(&self) -> Seq<char> {
        self.message@
    }

    /// Wraps a message as a property error.
    pub fn new(message: String) -> (r: PropertyError)
        ensures
            r.message_spec() == message@,
    {
        PropertyError { message }
    }

    /// Returns the message this error carries.
    pub fn message(&self) -> (r: &String)
        ensures
            r@ == self.message_spec(),
    {
        &self.message
    }
}

/// The result of resolving a property of type `T`.
pub type PropertyResult<T> = Result<T, PropertyError>;

/// Conversion of a module's own error type into a [`PropertyError`].
pub trait IntoPropertyError {
    /// Performs the conversion into a [`PropertyError`].
    fn into_prop_error(self) -> PropertyError;
}

/// Conversion of a resolver method's return value into a [`PropertyResult`].
pub trait IntoPropertyResult<T> {
    /// Performs the conversion into a [`PropertyResult`].
    fn into_result(self) -> PropertyResult<T>;
}

impl IntoPropertyResult<String> for String {
    /// A plain value resolves successfully to itself.
    fn into_result(self) -> (r: PropertyResult<String>)
        ensures
            r == Ok::<String, PropertyError>(self),
    {
        Ok(self)
    }
}

impl<T, E: IntoPropertyError> IntoPropertyResult<T> for Result<T, E> {
    /// A success passes through unchanged; an error converts to a property
    /// error.
    fn into_result(self) -> (r: PropertyResult<T>)
        ensures
            self matches Ok(v) ==> r == Ok::<T, PropertyError>(v),
            self is Err ==> r is Err,
    {
        match self {
            Ok(v) => Ok(v),
            Err(e) => Err(e.into_prop_error()),
        }
    }
}

/// Conversion of a resolved value into a JSON payload string.
pub trait IntoPayload {
    /// Serializes the value as a JSON payload.
    fn into_payload(self) -> PropertyResult<String>;
}

impl IntoPayload for PropertyResult<String> {
    /// A resolved payload string is already its own JSON text; errors pass
    /// through unchanged.
    fn into_payload(self) -> (r: PropertyResult<String>)
        ensures
            r == self,
    {
        self
    }
}

/// Conversion of a JSON payload string into a resolver method's argument.
pub trait IntoPropertyArgument<T> {
    /// Performs the conversion into the argument type.
    fn into_arg(self) -> T;
}

/// The metadata record a module reports to the host.
pub struct Meta {
    pub name: String,
    pub description: Option<String>,
    pub manufacturer: Option<String>,
    pub version: Version,
    pub components: Vec<String>,
    pub user_account: UserAccount,
    pub lifetime: Lifetime,
}

/// An optional string field in the metadata JSON: `null` when absent.
pub open spec fn opt_str_json(o: Option<Seq<char>>) -> Seq<char> {
    match o {
        Option::None => "null"@,
        Option::Some(s) => json_quote_of(s),
    }
}

/// The body of the components array: the quoted names, comma-separated.
pub open spec fn components_body(cs: Seq<Seq<char>>) -> Seq<char>
    decreases cs.len(),
{
    if cs.len() == 0 {
        Seq::<char>::empty()
    } else if cs.len() == 1 {
        json_quote_of(cs[0])
    } else {
        components_body(cs.drop_last()) + seq![','] + json_quote_of(cs.last())
    }
}

/// The JSON rendering of a metadata record from its abstract fields, with
/// the fixed field order and PascalCase field names of the host protocol.
pub open spec fn meta_json_parts(
    name: Seq<char>,
    description: Option<Seq<char>>,
    manufacturer: Option<Seq<char>>,
    version: Version,
    components: Seq<Seq<char>>,
    user_account: UserAccount,
    lifetime: Lifetime,
) -> Seq<char> {
    "{\"Name\":"@ + json_quote_of(name) + ",\"Description\":"@ + opt_str_json(description)
        + ",\"Manufacturer\":"@ + opt_str_json(manufacturer) + ",\"VersionMajor\":"@ + dec_of(
        version.major as nat,
    ) + ",\"VersionMinor\":"@ + dec_of(version.minor as nat) + ",\"VersionPatch\":"@ + dec_of(
        version.patch as nat,
    ) + ",\"VersionTweak\":"@ + dec_of(version.tweak as nat) + ",\"Components\":["@
        + components_body(components) + "],\"UserAccount\":"@ + dec_of(
        user_account.id_spec() as nat,
    ) + ",\"Lifetime\":"@ + dec_of(lifetime.code_spec() as nat) + "}"@
}

/// The abstract string of an optional string field.
pub open spec fn opt_string_view(o: Option<String>) -> Option<Seq<char>> {
    match o {
        Option::Some(s) => Option::Some(s@),
        Option::None => Option::None,
    }
}

/// The JSON rendering of a metadata record.
pub open spec fn meta_json_of(m: Meta) -> Seq<char> {
    meta_json_parts(
        m.name@,
        opt_string_view(m.description),
        opt_string_view(m.manufacturer),
        m.version,
        m.components@.map_values(|c: String| c@),
        m.user_account,
        m.lifetime,
    )
}

impl Meta {
    /// Renders this record as the metadata JSON payload.
    pub fn to_json(&self) -> (r: String)
        ensures
            r@ == meta_json_of(*self),
    {
        let mut out = String::new();
        out.append("{\"Name\":");
        push_json_quoted(&mut out, self.name.as_str());
        out.append(",\"Description\":");
        match &self.description {
            Option::None => out.append("null"),
            Option::Some(s) => push_json_quoted(&mut out, s.as_str()),
        }
        out.append(",\"Manufacturer\":");
        match &self.manufacturer {
            Option::None => out.append("null"),
            Option::Some(s) => push_json_quoted(&mut out, s.as_str()),
        }
        out.append(",\"VersionMajor\":");
        push_dec(&mut out, self.version.major);
        out.append(",\"VersionMinor\":");
        push_dec(&mut out, self.version.minor);
        out.append(",\"VersionPatch\":");
        push_dec(&mut out, self.version.patch);
        out.append(",\"VersionTweak\":");
        push_dec(&mut out, self.version.tweak);
        out.append(",\"Components\":[");
        let ghost cv = self.components@.map_values(|c: String| c@);
        let ghost mid = out@;
        let mut i: usize = 0;
        while i < self.components.len()
            invariant
                i <= self.components@.len(),
                cv == self.components@.map_values(|c: String| c@),
                out@ == mid + components_body(cv.take(i as int)),
            decreases self.components@.len() - i,
        {
            if i > 0 {
                out.append(",");
                proof {
                    assert(","@ =~= seq![',']) by {
                        reveal_strlit(",");
                    }
                }
            }
            push_json_quoted(&mut out, self.components[i].as_str());
            proof {
                assert(cv.take(i + 1).drop_last() =~= cv.take(i as int));
                assert(cv.take(i + 1).last() == cv[i as int]);
                assert(cv[i as int] == self.components@[i as int]@);
                assert(out@ =~= mid + components_body(cv.take(i + 1)));
            }
            i = i + 1;
        }
        proof {
            assert(cv.take(self.components@.len() as int) =~= cv);
        }
        out.append("],\"UserAccount\":");
        push_dec(&mut out, self.user_account.id());
        out.append(",\"Lifetime\":");
        push_dec(&mut out, self.lifetime.code());
        out.append("}");
        proof {
            assert(out@ =~= meta_json_of(*self));
        }
        out
    }
}

} // verus!
