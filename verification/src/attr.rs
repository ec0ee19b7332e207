//! Parsing and merging of module-scope attribute argument lists.
//!
//! An argument list is a comma-separated sequence of `key = value` pairs
//! drawn from a closed vocabulary.  The same annotation may appear on an item
//! several times; the lists are parsed one by one and folded together, and
//! supplying the same key twice — within one list or across lists — is a
//! duplicate-argument error reported at the later occurrence's span.

use vstd::prelude::*;
use crate::module_meta::Lifetime;
use crate::text::str_eq;
use crate::version::{parse_spec, Version};

verus! {

/// One token of an attribute argument list.
#[derive(Clone, Debug)]
pub enum TokenKind {
    Ident(String),
    Equals,
    StrLit(String),
    IntLit(u64),
    Comma,
}

/// A token with the source position it came from.
#[derive(Clone, Debug)]
pub struct Token {
    pub kind: TokenKind,
    pub span: u32,
}

/// What a generation-time diagnostic complains about.
#[derive(Clone, Copy, PartialEq, Eq, Structural, Debug)]
pub enum DiagKind {
    UnknownArg,
    DupArg,
    ExpectedIdent,
    ExpectedEq,
    ExpectedStrLit,
    ExpectedIntLit,
    InvalidLifetime,
    InvalidVersion,
    InvalidUserAccount,
    MissingAccess,
    InvalidReceiver,
    ReadArity,
    WriteArity,
    DupPropertyName,
    NoTypeIdent,
}

/// A generation-time diagnostic: what went wrong, and where.
#[derive(Clone, Copy, PartialEq, Eq, Structural, Debug)]
pub struct Diag {
    pub kind: DiagKind,
    pub span: u32,
}

impl DiagKind {
    /// The human-readable message for this diagnostic kind.
    pub open spec fn message_spec(self) -> Seq<char> {
        match self {
            DiagKind::UnknownArg => "unknown attribute argument"@,
            DiagKind::DupArg => "duplicate attribute argument"@,
            DiagKind::ExpectedIdent => "expected an attribute argument name"@,
            DiagKind::ExpectedEq => "expected `=` after the attribute argument name"@,
            DiagKind::ExpectedStrLit => "expected a string literal value"@,
            DiagKind::ExpectedIntLit => "expected an integer literal value"@,
            DiagKind::InvalidLifetime => "Invalid lifetime"@,
            DiagKind::InvalidVersion => "Version string must be in the format of 'major.minor.patch.tweak'"@,
            DiagKind::InvalidUserAccount => "user account id must fit the signed 32-bit wire field"@,
            DiagKind::MissingAccess => "missing `reported` or `desired` attribute argument"@,
            DiagKind::InvalidReceiver => "method should have a shared reference receiver `&self`, or no receiver at all"@,
            DiagKind::ReadArity => "reported method should not have any arguments"@,
            DiagKind::WriteArity => "desired method should have one argument"@,
            DiagKind::DupPropertyName => "must have a different name for each property"@,
            DiagKind::NoTypeIdent => "could not determine ident for the `impl` type"@,
        }
    }

    /// Renders the human-readable message for this diagnostic kind.
    pub fn message(&self) -> (r: &'static str)
        ensures
            r@ == self.message_spec(),
    {
        match self {
            DiagKind::UnknownArg => "unknown attribute argument",
            DiagKind::DupArg => "duplicate attribute argument",
            DiagKind::ExpectedIdent => "expected an attribute argument name",
            DiagKind::ExpectedEq => "expected `=` after the attribute argument name",
            DiagKind::ExpectedStrLit => "expected a string literal value",
            DiagKind::ExpectedIntLit => "expected an integer literal value",
            DiagKind::InvalidLifetime => "Invalid lifetime",
            DiagKind::InvalidVersion => "Version string must be in the format of 'major.minor.patch.tweak'",
            DiagKind::InvalidUserAccount => "user account id must fit the signed 32-bit wire field",
            DiagKind::MissingAccess => "missing `reported` or `desired` attribute argument",
            DiagKind::InvalidReceiver => "method should have a shared reference receiver `&self`, or no receiver at all",
            DiagKind::ReadArity => "reported method should not have any arguments",
            DiagKind::WriteArity => "desired method should have one argument",
            DiagKind::DupPropertyName => "must have a different name for each property",
            DiagKind::NoTypeIdent => "could not determine ident for the `impl` type",
        }
    }
}

/// A resolved attribute value, carrying the spans of its key and (where it
/// has one) its value, for later diagnostics.
#[derive(Clone, Debug)]
pub struct Spanned<T> {
    pub key_span: u32,
    pub value_span: Option<u32>,
    pub value: T,
}

/// The abstract form of a resolved attribute value.
pub struct SpannedView<T> {
    pub key_span: u32,
    pub value_span: Option<u32>,
    pub value: T,
}

impl View for Spanned<String> {
    type V = SpannedView<Seq<char>>;

    open spec fn view(&self) -> SpannedView<Seq<char>> {
        SpannedView { key_span: self.key_span, value_span: self.value_span, value: self.value@ }
    }
}

impl View for Spanned<Version> {
    type V = SpannedView<Version>;

    open spec fn view(&self) -> SpannedView<Version> {
        SpannedView { key_span: self.key_span, value_span: self.value_span, value: self.value }
    }
}

impl View for Spanned<Lifetime> {
    type V = SpannedView<Lifetime>;

    open spec fn view(&self) -> SpannedView<Lifetime> {
        SpannedView { key_span: self.key_span, value_span: self.value_span, value: self.value }
    }
}

impl View for Spanned<UserAccount> {
    type V = SpannedView<UserAccount>;

    open spec fn view(&self) -> SpannedView<UserAccount> {
        SpannedView { key_span: self.key_span, value_span: self.value_span, value: self.value }
    }
}

/// The abstract form of an optional resolved value.
pub open spec fn opt_view<T: View>(o: Option<T>) -> Option<T::V> {
    match o {
        Option::Some(v) => Option::Some(v@),
        Option::None => Option::None,
    }
}

/// The run-as identity named by a module annotation: a user id that must fit
/// the signed 32-bit wire field, with zero meaning root.
#[derive(Clone, Copy, PartialEq, Eq, Structural, Debug)]
pub struct UserAccount(pub u32);

impl Default for UserAccount {
    /// Root is the default run-as identity.
    fn default() -> (r: UserAccount)
        ensures
            r == UserAccount(0),
    {
        UserAccount(0)
    }
}

/// The resolved module-scope attribute arguments; each field is present only
/// where some annotation set it.
#[derive(Clone, Debug)]
pub struct Attr {
    pub name: Option<Spanned<String>>,
    pub description: Option<Spanned<String>>,
    pub manufacturer: Option<Spanned<String>>,
    pub version: Option<Spanned<Version>>,
    pub lifetime: Option<Spanned<Lifetime>>,
    pub user_account: Option<Spanned<UserAccount>>,
}

/// The abstract form of the resolved module-scope arguments.
pub struct AttrView {
    pub name: Option<SpannedView<Seq<char>>>,
    pub description: Option<SpannedView<Seq<char>>>,
    pub manufacturer: Option<SpannedView<Seq<char>>>,
    pub version: Option<SpannedView<Version>>,
    pub lifetime: Option<SpannedView<Lifetime>>,
    pub user_account: Option<SpannedView<UserAccount>>,
}

impl View for Attr {
    type V = AttrView;

    open spec fn view(&self) -> AttrView {
        AttrView {
            name: opt_view(self.name),
            description: opt_view(self.description),
            manufacturer: opt_view(self.manufacturer),
            version: opt_view(self.version),
            lifetime: opt_view(self.lifetime),
            user_account: opt_view(self.user_account),
        }
    }
}

/// The module-scope record with nothing resolved yet.
pub open spec fn empty_attr() -> AttrView {
    AttrView {
        name: Option::None,
        description: Option::None,
        manufacturer: Option::None,
        version: Option::None,
        lifetime: Option::None,
        user_account: Option::None,
    }
}

/// The abstract form of a parse or merge outcome.
pub open spec fn result_view<T: View>(r: Result<T, Diag>) -> Result<T::V, Diag> {
    match r {
        Result::Ok(v) => Result::Ok(v@),
        Result::Err(d) => Result::Err(d),
    }
}

/// The `= "literal"` that must follow a string-valued key at token `i`:
/// the literal's content and span.
pub open spec fn expect_str(toks: Seq<Token>, i: int) -> Result<(Seq<char>, u32), Diag> {
    if i + 1 >= toks.len() {
        Err(Diag { kind: DiagKind::ExpectedEq, span: toks[i].span })
    } else if !(toks[i + 1].kind is Equals) {
        Err(Diag { kind: DiagKind::ExpectedEq, span: toks[i + 1].span })
    } else if i + 2 >= toks.len() {
        Err(Diag { kind: DiagKind::ExpectedStrLit, span: toks[i + 1].span })
    } else {
        match toks[i + 2].kind {
            TokenKind::StrLit(v) => Ok((v@, toks[i + 2].span)),
            _ => Err(Diag { kind: DiagKind::ExpectedStrLit, span: toks[i + 2].span }),
        }
    }
}

/// The `= <integer>` that must follow an integer-valued key at token `i`.
pub open spec fn expect_int(toks: Seq<Token>, i: int) -> Result<(u64, u32), Diag> {
    if i + 1 >= toks.len() {
        Err(Diag { kind: DiagKind::ExpectedEq, span: toks[i].span })
    } else if !(toks[i + 1].kind is Equals) {
        Err(Diag { kind: DiagKind::ExpectedEq, span: toks[i + 1].span })
    } else if i + 2 >= toks.len() {
        Err(Diag { kind: DiagKind::ExpectedIntLit, span: toks[i + 1].span })
    } else {
        match toks[i + 2].kind {
            TokenKind::IntLit(v) => Ok((v, toks[i + 2].span)),
            _ => Err(Diag { kind: DiagKind::ExpectedIntLit, span: toks[i + 2].span }),
        }
    }
}

/// The next argument position after an optional separating comma at `i`.
pub open spec fn skip_comma(toks: Seq<Token>, i: int) -> int {
    if 0 <= i < toks.len() && toks[i].kind is Comma {
        i + 1
    } else {
        i
    }
}

/// What parsing one module-scope argument list yields from token `i` on,
/// with the fields of `a` already resolved: each recognized key stores its
/// validated value, a key already set is a duplicate-argument error at the
/// later key's span, and an unknown key, missing `=`, wrong literal kind, or
/// invalid `lifetime`/`version`/`user` value is the matching error at the
/// offending token.
pub open spec fn parse_args_from(toks: Seq<Token>, i: int, a: AttrView) -> Result<AttrView, Diag>
    decreases toks.len() - i when i >= 0
{
    if i >= toks.len() {
        Ok(a)
    } else {
        let t = toks[i];
        match t.kind {
            TokenKind::Ident(key) => {
                if key@ == "name"@ {
                    match expect_str(toks, i) {
                        Err(d) => Err(d),
                        Ok((v, vs)) => if a.name is Some {
                            Err(Diag { kind: DiagKind::DupArg, span: t.span })
                        } else {
                            parse_args_from(
                                toks,
                                skip_comma(toks, i + 3),
                                AttrView {
                                    name: Some(
                                        SpannedView {
                                            key_span: t.span,
                                            value_span: Some(vs),
                                            value: v,
                                        },
                                    ),
                                    ..a
                                },
                            )
                        },
                    }
                } else if key@ == "desc"@ || key@ == "description"@ {
                    match expect_str(toks, i) {
                        Err(d) => Err(d),
                        Ok((v, vs)) => if a.description is Some {
                            Err(Diag { kind: DiagKind::DupArg, span: t.span })
                        } else {
                            parse_args_from(
                                toks,
                                skip_comma(toks, i + 3),
                                AttrView {
                                    description: Some(
                                        SpannedView {
                                            key_span: t.span,
                                            value_span: Some(vs),
                                            value: v,
                                        },
                                    ),
                                    ..a
                                },
                            )
                        },
                    }
                } else if key@ == "manufacturer"@ {
                    match expect_str(toks, i) {
                        Err(d) => Err(d),
                        Ok((v, vs)) => if a.manufacturer is Some {
                            Err(Diag { kind: DiagKind::DupArg, span: t.span })
                        } else {
                            parse_args_from(
                                toks,
                                skip_comma(toks, i + 3),
                                AttrView {
                                    manufacturer: Some(
                                        SpannedView {
                                            key_span: t.span,
                                            value_span: Some(vs),
                                            value: v,
                                        },
                                    ),
                                    ..a
                                },
                            )
                        },
                    }
                } else if key@ == "version"@ {
                    match expect_str(toks, i) {
                        Err(d) => Err(d),
                        Ok((v, vs)) => match parse_spec(v) {
                            Option::None => Err(Diag { kind: DiagKind::InvalidVersion, span: vs }),
                            Option::Some(ver) => if a.version is Some {
                                Err(Diag { kind: DiagKind::DupArg, span: t.span })
                            } else {
                                parse_args_from(
                                    toks,
                                    skip_comma(toks, i + 3),
                                    AttrView {
                                        version: Some(
                                            SpannedView {
                                                key_span: t.span,
                                                value_span: Some(vs),
                                                value: ver,
                                            },
                                        ),
                                        ..a
                                    },
                                )
                            },
                        },
                    }
                } else if key@ == "lifetime"@ {
                    match expect_str(toks, i) {
                        Err(d) => Err(d),
                        Ok((v, vs)) => if v == "short"@ || v == "long"@ {
                            let lt = if v == "short"@ {
                                Lifetime::Short
                            } else {
                                Lifetime::Long
                            };
                            if a.lifetime is Some {
                                Err(Diag { kind: DiagKind::DupArg, span: t.span })
                            } else {
                                parse_args_from(
                                    toks,
                                    skip_comma(toks, i + 3),
                                    AttrView {
                                        lifetime: Some(
                                            SpannedView {
                                                key_span: t.span,
                                                value_span: Some(vs),
                                                value: lt,
                                            },
                                        ),
                                        ..a
                                    },
                                )
                            }
                        } else {
                            Err(Diag { kind: DiagKind::InvalidLifetime, span: vs })
                        },
                    }
                } else if key@ == "user"@ || key@ == "user_account"@ {
                    match expect_int(toks, i) {
                        Err(d) => Err(d),
                        Ok((v, vs)) => if v > i32::MAX as u64 {
                            Err(Diag { kind: DiagKind::InvalidUserAccount, span: vs })
                        } else if a.user_account is Some {
                            Err(Diag { kind: DiagKind::DupArg, span: t.span })
                        } else {
                            parse_args_from(
                                toks,
                                skip_comma(toks, i + 3),
                                AttrView {
                                    user_account: Some(
                                        SpannedView {
                                            key_span: t.span,
                                            value_span: Some(vs),
                                            value: UserAccount(v as u32),
                                        },
                                    ),
                                    ..a
                                },
                            )
                        },
                    }
                } else {
                    Err(Diag { kind: DiagKind::UnknownArg, span: t.span })
                }
            },
            _ => Err(Diag { kind: DiagKind::ExpectedIdent, span: t.span }),
        }
    }
}

/// The span at which two resolved records first collide: the later record's
/// key span for the first field — in declaration order — that both set.
pub open spec fn merge_conflict(a: AttrView, b: AttrView) -> Option<u32> {
    if a.name is Some && b.name is Some {
        Some(b.name.unwrap().key_span)
    } else if a.description is Some && b.description is Some {
        Some(b.description.unwrap().key_span)
    } else if a.manufacturer is Some && b.manufacturer is Some {
        Some(b.manufacturer.unwrap().key_span)
    } else if a.version is Some && b.version is Some {
        Some(b.version.unwrap().key_span)
    } else if a.lifetime is Some && b.lifetime is Some {
        Some(b.lifetime.unwrap().key_span)
    } else if a.user_account is Some && b.user_account is Some {
        Some(b.user_account.unwrap().key_span)
    } else {
        None
    }
}

/// The first of two optional values, favouring the earlier annotation.
pub open spec fn first_of<T>(a: Option<T>, b: Option<T>) -> Option<T> {
    if a is Some {
        a
    } else {
        b
    }
}

/// The union of two conflict-free resolved records.
pub open spec fn merged(a: AttrView, b: AttrView) -> AttrView {
    AttrView {
        name: first_of(a.name, b.name),
        description: first_of(a.description, b.description),
        manufacturer: first_of(a.manufacturer, b.manufacturer),
        version: first_of(a.version, b.version),
        lifetime: first_of(a.lifetime, b.lifetime),
        user_account: first_of(a.user_account, b.user_account),
    }
}

/// What merging two resolved records yields: their union, or a
/// duplicate-argument error at the later record's key span.
pub open spec fn merge_spec(a: AttrView, b: AttrView) -> Result<AttrView, Diag> {
    match merge_conflict(a, b) {
        Option::Some(sp) => Err(Diag { kind: DiagKind::DupArg, span: sp }),
        Option::None => Ok(merged(a, b)),
    }
}

/// The abstract form of a list of annotation token lists.
pub open spec fn lists_view(lists: Seq<Vec<Token>>) -> Seq<Seq<Token>> {
    lists.map_values(|l: Vec<Token>| l@)
}

/// What folding the annotation instances from index `i` on yields, with
/// `acc` holding what earlier instances resolved: each list is parsed and
/// merged in turn, stopping at the first parse or duplicate error.
pub open spec fn fold_attrs_from(lists: Seq<Seq<Token>>, i: int, acc: AttrView) -> Result<
    AttrView,
    Diag,
>
    decreases lists.len() - i when i >= 0
{
    if i >= lists.len() {
        Ok(acc)
    } else {
        match parse_args_from(lists[i], 0, empty_attr()) {
            Err(d) => Err(d),
            Ok(cur) => match merge_spec(acc, cur) {
                Err(d) => Err(d),
                Ok(m) => fold_attrs_from(lists, i + 1, m),
            },
        }
    }
}

impl Attr {
    /// The record with nothing resolved yet.
    pub fn empty() -> (r: Attr)
        ensures
            r@ == empty_attr(),
    {
        Attr {
            name: None,
            description: None,
            manufacturer: None,
            version: None,
            lifetime: None,
            user_account: None,
        }
    }

    /// Parses one module-scope argument list.
    pub fn parse(toks: &Vec<Token>) -> (r: Result<Attr, Diag>)
        ensures
            result_view(r) == parse_args_from(toks@, 0, empty_attr()),
    {
        Attr::parse_at(toks, 0, Attr::empty())
    }

    /// Parses the arguments from token `i` on, with `a` already resolved.
    fn parse_at(toks: &Vec<Token>, i: usize, a: Attr) -> (r: Result<Attr, Diag>)
        ensures
            result_view(r) == parse_args_from(toks@, i as int, a@),
        decreases toks@.len() - i,
    {
        if i >= toks.len() {
            return Ok(a);
        }
        let span = toks[i].span;
        match &toks[i].kind {
            TokenKind::Ident(key) => {
                let k = key.as_str();
                if str_eq(k, "name") {
                    match expect_str_exec(toks, i) {
                        Err(d) => Err(d),
                        Ok((v, vs)) => {
                            if a.name.is_some() {
                                Err(Diag { kind: DiagKind::DupArg, span })
                            } else {
                                let j = skip_comma_exec(toks, i + 3);
                                Attr::parse_at(
                                    toks,
                                    j,
                                    Attr {
                                        name: Some(
                                            Spanned { key_span: span, value_span: Some(vs), value: v },
                                        ),
                                        ..a
                                    },
                                )
                            }
                        },
                    }
                } else if str_eq(k, "desc") || str_eq(k, "description") {
                    match expect_str_exec(toks, i) {
                        Err(d) => Err(d),
                        Ok((v, vs)) => {
                            if a.description.is_some() {
                                Err(Diag { kind: DiagKind::DupArg, span })
                            } else {
                                let j = skip_comma_exec(toks, i + 3);
                                Attr::parse_at(
                                    toks,
                                    j,
                                    Attr {
                                        description: Some(
                                            Spanned { key_span: span, value_span: Some(vs), value: v },
                                        ),
                                        ..a
                                    },
                                )
                            }
                        },
                    }
                } else if str_eq(k, "manufacturer") {
                    match expect_str_exec(toks, i) {
                        Err(d) => Err(d),
                        Ok((v, vs)) => {
                            if a.manufacturer.is_some() {
                                Err(Diag { kind: DiagKind::DupArg, span })
                            } else {
                                let j = skip_comma_exec(toks, i + 3);
                                Attr::parse_at(
                                    toks,
                                    j,
                                    Attr {
                                        manufacturer: Some(
                                            Spanned { key_span: span, value_span: Some(vs), value: v },
                                        ),
                                        ..a
                                    },
                                )
                            }
                        },
                    }
                } else if str_eq(k, "version") {
                    match expect_str_exec(toks, i) {
                        Err(d) => Err(d),
                        Ok((v, vs)) => match Version::parse(v.as_str()) {
                            None => Err(Diag { kind: DiagKind::InvalidVersion, span: vs }),
                            Some(ver) => {
                                if a.version.is_some() {
                                    Err(Diag { kind: DiagKind::DupArg, span })
                                } else {
                                    let j = skip_comma_exec(toks, i + 3);
                                    Attr::parse_at(
                                        toks,
                                        j,
                                        Attr {
                                            version: Some(
                                                Spanned {
                                                    key_span: span,
                                                    value_span: Some(vs),
                                                    value: ver,
                                                },
                                            ),
                                            ..a
                                        },
                                    )
                                }
                            },
                        },
                    }
                } else if str_eq(k, "lifetime") {
                    match expect_str_exec(toks, i) {
                        Err(d) => Err(d),
                        Ok((v, vs)) => {
                            let is_short = str_eq(v.as_str(), "short");
                            let is_long = str_eq(v.as_str(), "long");
                            if is_short || is_long {
                                let lt = if is_short {
                                    Lifetime::Short
                                } else {
                                    Lifetime::Long
                                };
                                if a.lifetime.is_some() {
                                    Err(Diag { kind: DiagKind::DupArg, span })
                                } else {
                                    let j = skip_comma_exec(toks, i + 3);
                                    Attr::parse_at(
                                        toks,
                                        j,
                                        Attr {
                                            lifetime: Some(
                                                Spanned {
                                                    key_span: span,
                                                    value_span: Some(vs),
                                                    value: lt,
                                                },
                                            ),
                                            ..a
                                        },
                                    )
                                }
                            } else {
                                Err(Diag { kind: DiagKind::InvalidLifetime, span: vs })
                            }
                        },
                    }
                } else if str_eq(k, "user") || str_eq(k, "user_account") {
                    match expect_int_exec(toks, i) {
                        Err(d) => Err(d),
                        Ok((v, vs)) => {
                            if v > i32::MAX as u64 {
                                Err(Diag { kind: DiagKind::InvalidUserAccount, span: vs })
                            } else if a.user_account.is_some() {
                                Err(Diag { kind: DiagKind::DupArg, span })
                            } else {
                                let j = skip_comma_exec(toks, i + 3);
                                Attr::parse_at(
                                    toks,
                                    j,
                                    Attr {
                                        user_account: Some(
                                            Spanned {
                                                key_span: span,
                                                value_span: Some(vs),
                                                value: UserAccount(v as u32),
                                            },
                                        ),
                                        ..a
                                    },
                                )
                            }
                        },
                    }
                } else {
                    Err(Diag { kind: DiagKind::UnknownArg, span })
                }
            },
            _ => Err(Diag { kind: DiagKind::ExpectedIdent, span }),
        }
    }

    /// Merges a later record into this one, reporting the first duplicated
    /// field at the later record's key span.
    pub fn try_merge(self, another: Attr) -> (r: Result<Attr, Diag>)
        ensures
            result_view(r) == merge_spec(self@, another@),
    {
        if self.name.is_some() && another.name.is_some() {
            return Err(
                Diag { kind: DiagKind::DupArg, span: another.name.unwrap().key_span },
            );
        }
        if self.description.is_some() && another.description.is_some() {
            return Err(
                Diag { kind: DiagKind::DupArg, span: another.description.unwrap().key_span },
            );
        }
        if self.manufacturer.is_some() && another.manufacturer.is_some() {
            return Err(
                Diag { kind: DiagKind::DupArg, span: another.manufacturer.unwrap().key_span },
            );
        }
        if self.version.is_some() && another.version.is_some() {
            return Err(
                Diag { kind: DiagKind::DupArg, span: another.version.unwrap().key_span },
            );
        }
        if self.lifetime.is_some() && another.lifetime.is_some() {
            return Err(
                Diag { kind: DiagKind::DupArg, span: another.lifetime.unwrap().key_span },
            );
        }
        if self.user_account.is_some() && another.user_account.is_some() {
            return Err(
                Diag { kind: DiagKind::DupArg, span: another.user_account.unwrap().key_span },
            );
        }
        Ok(
            Attr {
                name: if self.name.is_some() {
                    self.name
                } else {
                    another.name
                },
                description: if self.description.is_some() {
                    self.description
                } else {
                    another.description
                },
                manufacturer: if self.manufacturer.is_some() {
                    self.manufacturer
                } else {
                    another.manufacturer
                },
                version: if self.version.is_some() {
                    self.version
                } else {
                    another.version
                },
                lifetime: if self.lifetime.is_some() {
                    self.lifetime
                } else {
                    another.lifetime
                },
                user_account: if self.user_account.is_some() {
                    self.user_account
                } else {
                    another.user_account
                },
            },
        )
    }

    /// Parses and folds every annotation instance on one item, left to
    /// right, starting from the empty record.
    pub fn from_attrs(lists: &Vec<Vec<Token>>) -> (r: Result<Attr, Diag>)
        ensures
            result_view(r) == fold_attrs_from(lists_view(lists@), 0, empty_attr()),
    {
        let mut acc = Attr::empty();
        let mut i: usize = 0;
        while i < lists.len()
            invariant
                i <= lists@.len(),
                fold_attrs_from(lists_view(lists@), 0, empty_attr()) == fold_attrs_from(
                    lists_view(lists@),
                    i as int,
                    acc@,
                ),
            decreases lists@.len() - i,
        {
            proof {
                assert(lists_view(lists@)[i as int] == lists@[i as int]@);
            }
            let cur = match Attr::parse(&lists[i]) {
                Ok(c) => c,
                Err(d) => {
                    return Err(d);
                },
            };
            acc = match acc.try_merge(cur) {
                Ok(m) => m,
                Err(d) => {
                    return Err(d);
                },
            };
            i = i + 1;
        }
        Ok(acc)
    }
}

/// Reads the `= "literal"` that must follow the key at token `i`.
pub(crate) fn expect_str_exec(toks: &Vec<Token>, i: usize) -> (r: Result<(String, u32), Diag>)
    requires
        i < toks@.len(),
    ensures
        match r {
            Ok((v, vs)) => expect_str(toks@, i as int) == Ok::<(Seq<char>, u32), Diag>((v@, vs)),
            Err(d) => expect_str(toks@, i as int) == Err::<(Seq<char>, u32), Diag>(d),
        },
{
    let n = toks.len();
    if i + 1 >= n {
        return Err(Diag { kind: DiagKind::ExpectedEq, span: toks[i].span });
    }
    match &toks[i + 1].kind {
        TokenKind::Equals => {},
        _ => {
            return Err(Diag { kind: DiagKind::ExpectedEq, span: toks[i + 1].span });
        },
    }
    if i + 2 >= n {
        return Err(Diag { kind: DiagKind::ExpectedStrLit, span: toks[i + 1].span });
    }
    match &toks[i + 2].kind {
        TokenKind::StrLit(v) => Ok((v.clone(), toks[i + 2].span)),
        _ => Err(Diag { kind: DiagKind::ExpectedStrLit, span: toks[i + 2].span }),
    }
}

/// Reads the `= <integer>` that must follow the key at token `i`.
pub(crate) fn expect_int_exec(toks: &Vec<Token>, i: usize) -> (r: Result<(u64, u32), Diag>)
    requires
        i < toks@.len(),
    ensures
        r == expect_int(toks@, i as int),
{
    let n = toks.len();
    if i + 1 >= n {
        return Err(Diag { kind: DiagKind::ExpectedEq, span: toks[i].span });
    }
    match &toks[i + 1].kind {
        TokenKind::Equals => {},
        _ => {
            return Err(Diag { kind: DiagKind::ExpectedEq, span: toks[i + 1].span });
        },
    }
    if i + 2 >= n {
        return Err(Diag { kind: DiagKind::ExpectedIntLit, span: toks[i + 1].span });
    }
    match &toks[i + 2].kind {
        TokenKind::IntLit(v) => Ok((*v, toks[i + 2].span)),
        _ => Err(Diag { kind: DiagKind::ExpectedIntLit, span: toks[i + 2].span }),
    }
}

/// Skips an optional separating comma at token `i`.
pub(crate) fn skip_comma_exec(toks: &Vec<Token>, i: usize) -> (r: usize)
    requires
        i <= toks@.len(),
    ensures
        r == skip_comma(toks@, i as int),
        i <= r <= toks@.len(),
{
    if i < toks.len() {
        match &toks[i].kind {
            TokenKind::Comma => i + 1,
            _ => i,
        }
    } else {
        i
    }
}

/// Two annotations that both set a field fail to merge, with the
/// duplicate-argument diagnostic placed on the later annotation's key.
pub proof fn lemma_merge_reports_duplicate(a: AttrView, b: AttrView)
    requires
        a.name is Some,
        b.name is Some,
    ensures
        merge_spec(a, b) == Err::<AttrView, Diag>(
            Diag { kind: DiagKind::DupArg, span: b.name.unwrap().key_span },
        ),
{
}

/// Two annotations that set disjoint fields merge into their union: what
/// either one resolved is kept.
pub proof fn lemma_merge_unions_disjoint(a: AttrView, b: AttrView)
    requires
        !(a.name is Some && b.name is Some),
        !(a.description is Some && b.description is Some),
        !(a.manufacturer is Some && b.manufacturer is Some),
        !(a.version is Some && b.version is Some),
        !(a.lifetime is Some && b.lifetime is Some),
        !(a.user_account is Some && b.user_account is Some),
    ensures
        merge_spec(a, b) == Ok::<AttrView, Diag>(merged(a, b)),
        a.name is Some ==> merged(a, b).name == a.name,
        b.name is Some ==> merged(a, b).name == b.name,
        a.description is Some ==> merged(a, b).description == a.description,
        b.description is Some ==> merged(a, b).description == b.description,
{
}

} // verus!
