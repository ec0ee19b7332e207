//! Property extraction: parsing the property-scope annotation, validating a
//! resolver method's receiver and arity against its access type, and deriving
//! the externally visible property name.

use vstd::prelude::*;
use crate::attr::{
    expect_str, skip_comma, Diag, DiagKind, opt_view, result_view, Spanned, SpannedView, Token,
    TokenKind,
};
use crate::camel::{camel_of, to_camel_case};
use crate::text::str_eq;

verus! {

/// Whether the host reads the property from the module or writes it into
/// the module.
#[derive(Clone, Copy, PartialEq, Eq, Structural, Debug)]
pub enum AccessType {
    Read,
    Write,
}

impl View for Spanned<AccessType> {
    type V = SpannedView<AccessType>;

    open spec fn view(&self) -> SpannedView<AccessType> {
        SpannedView { key_span: self.key_span, value_span: self.value_span, value: self.value }
    }
}

/// The resolved property-scope attribute arguments.
#[derive(Clone, Debug)]
pub struct Attr {
    pub name: Option<Spanned<String>>,
    pub access: Option<Spanned<AccessType>>,
}

/// The abstract form of the resolved property-scope arguments.
pub struct PropAttrView {
    pub name: Option<SpannedView<Seq<char>>>,
    pub access: Option<SpannedView<AccessType>>,
}

impl View for Attr {
    type V = PropAttrView;

    open spec fn view(&self) -> PropAttrView {
        PropAttrView { name: opt_view(self.name), access: opt_view(self.access) }
    }
}

/// The property-scope record with nothing resolved yet.
pub open spec fn empty_prop_attr() -> PropAttrView {
    PropAttrView { name: Option::None, access: Option::None }
}

/// What parsing one property-scope argument list yields from token `i` on:
/// `name = "..."` stores an explicit external name, the bare keys
/// `reported`/`read` and `desired`/`write` set the access type, and a key
/// already set — `reported` after `desired` included — is a
/// duplicate-argument error at the later key's span.
pub open spec fn parse_prop_args_from(toks: Seq<Token>, i: int, a: PropAttrView) -> Result<
    PropAttrView,
    Diag,
>
    decreases toks.len() - i when i >= 0
{
    if i >= toks.len() {
        Ok(a)
    } else {
        let t = toks[i];
        match t.kind {
            TokenKind::Ident(key) => {
                if key@ == "name"@ {
                    match expect_str(toks, i) {
                        Err(d) => Err(d),
                        Ok((v, vs)) => if a.name is Some {
                            Err(Diag { kind: DiagKind::DupArg, span: t.span })
                        } else {
                            parse_prop_args_from(
                                toks,
                                skip_comma(toks, i + 3),
                                PropAttrView {
                                    name: Some(
                                        SpannedView {
                                            key_span: t.span,
                                            value_span: Some(vs),
                                            value: v,
                                        },
                                    ),
                                    ..a
                                },
                            )
                        },
                    }
                } else if key@ == "reported"@ || key@ == "read"@ || key@ == "desired"@ || key@
                    == "write"@ {
                    let access = if key@ == "reported"@ || key@ == "read"@ {
                        AccessType::Read
                    } else {
                        AccessType::Write
                    };
                    if a.access is Some {
                        Err(Diag { kind: DiagKind::DupArg, span: t.span })
                    } else {
                        parse_prop_args_from(
                            toks,
                            skip_comma(toks, i + 1),
                            PropAttrView {
                                access: Some(
                                    SpannedView {
                                        key_span: t.span,
                                        value_span: None,
                                        value: access,
                                    },
                                ),
                                ..a
                            },
                        )
                    }
                } else {
                    Err(Diag { kind: DiagKind::UnknownArg, span: t.span })
                }
            },
            _ => Err(Diag { kind: DiagKind::ExpectedIdent, span: t.span }),
        }
    }
}

/// The span at which two resolved property records first collide.
pub open spec fn prop_merge_conflict(a: PropAttrView, b: PropAttrView) -> Option<u32> {
    if a.name is Some && b.name is Some {
        Some(b.name.unwrap().key_span)
    } else if a.access is Some && b.access is Some {
        Some(b.access.unwrap().key_span)
    } else {
        None
    }
}

/// What merging two resolved property records yields.
pub open spec fn prop_merge_spec(a: PropAttrView, b: PropAttrView) -> Result<PropAttrView, Diag> {
    match prop_merge_conflict(a, b) {
        Option::Some(sp) => Err(Diag { kind: DiagKind::DupArg, span: sp }),
        Option::None => Ok(
            PropAttrView {
                name: crate::attr::first_of(a.name, b.name),
                access: crate::attr::first_of(a.access, b.access),
            },
        ),
    }
}

/// What folding the property annotation instances from index `i` on yields.
pub open spec fn fold_prop_attrs_from(lists: Seq<Seq<Token>>, i: int, acc: PropAttrView) -> Result<
    PropAttrView,
    Diag,
>
    decreases lists.len() - i when i >= 0
{
    if i >= lists.len() {
        Ok(acc)
    } else {
        match parse_prop_args_from(lists[i], 0, empty_prop_attr()) {
            Err(d) => Err(d),
            Ok(cur) => match prop_merge_spec(acc, cur) {
                Err(d) => Err(d),
                Ok(m) => fold_prop_attrs_from(lists, i + 1, m),
            },
        }
    }
}

impl Attr {
    /// The record with nothing resolved yet.
    pub fn empty() -> (r: Attr)
        ensures
            r@ == empty_prop_attr(),
    {
        Attr { name: None, access: None }
    }

    /// Parses one property-scope argument list.
    pub fn parse(toks: &Vec<Token>) -> (r: Result<Attr, Diag>)
        ensures
            result_view(r) == parse_prop_args_from(toks@, 0, empty_prop_attr()),
    {
        Attr::parse_at(toks, 0, Attr::empty())
    }

    /// Parses the arguments from token `i` on, with `a` already resolved.
    fn parse_at(toks: &Vec<Token>, i: usize, a: Attr) -> (r: Result<Attr, Diag>)
        ensures
            result_view(r) == parse_prop_args_from(toks@, i as int, a@),
        decreases toks@.len() - i,
    {
        if i >= toks.len() {
            return Ok(a);
        }
        let span = toks[i].span;
        match &toks[i].kind {
            TokenKind::Ident(key) => {
                let k = key.as_str();
                if str_eq(k, "name") {
                    match crate::attr::expect_str_exec(toks, i) {
                        Err(d) => Err(d),
                        Ok((v, vs)) => {
                            if a.name.is_some() {
                                Err(Diag { kind: DiagKind::DupArg, span })
                            } else {
                                let j = crate::attr::skip_comma_exec(toks, i + 3);
                                Attr::parse_at(
                                    toks,
                                    j,
                                    Attr {
                                        name: Some(
                                            Spanned { key_span: span, value_span: Some(vs), value: v },
                                        ),
                                        ..a
                                    },
                                )
                            }
                        },
                    }
                } else if str_eq(k, "reported") || str_eq(k, "read") || str_eq(k, "desired")
                    || str_eq(k, "write") {
                    let access = if str_eq(k, "reported") || str_eq(k, "read") {
                        AccessType::Read
                    } else {
                        AccessType::Write
                    };
                    if a.access.is_some() {
                        Err(Diag { kind: DiagKind::DupArg, span })
                    } else {
                        let j = crate::attr::skip_comma_exec(toks, i + 1);
                        Attr::parse_at(
                            toks,
                            j,
                            Attr {
                                access: Some(
                                    Spanned { key_span: span, value_span: None, value: access },
                                ),
                                ..a
                            },
                        )
                    }
                } else {
                    Err(Diag { kind: DiagKind::UnknownArg, span })
                }
            },
            _ => Err(Diag { kind: DiagKind::ExpectedIdent, span }),
        }
    }

    /// Merges a later property record into this one.
    pub fn try_merge(self, another: Attr) -> (r: Result<Attr, Diag>)
        ensures
            result_view(r) == prop_merge_spec(self@, another@),
    {
        if self.name.is_some() && another.name.is_some() {
            return Err(Diag { kind: DiagKind::DupArg, span: another.name.unwrap().key_span });
        }
        if self.access.is_some() && another.access.is_some() {
            return Err(Diag { kind: DiagKind::DupArg, span: another.access.unwrap().key_span });
        }
        Ok(
            Attr {
                name: if self.name.is_some() {
                    self.name
                } else {
                    another.name
                },
                access: if self.access.is_some() {
                    self.access
                } else {
                    another.access
                },
            },
        )
    }

    /// Parses and folds every property annotation instance on one method,
    /// left to right; resolving no access type at all is an error at the
    /// method's own span.
    pub fn from_attrs(lists: &Vec<Vec<Token>>, item_span: u32) -> (r: Result<Attr, Diag>)
        ensures
            result_view(r) == prop_attr_of(crate::attr::lists_view(lists@), item_span),
    {
        let mut acc = Attr::empty();
        let mut i: usize = 0;
        while i < lists.len()
            invariant
                i <= lists@.len(),
                fold_prop_attrs_from(crate::attr::lists_view(lists@), 0, empty_prop_attr())
                    == fold_prop_attrs_from(crate::attr::lists_view(lists@), i as int, acc@),
            decreases lists@.len() - i,
        {
            proof {
                assert(crate::attr::lists_view(lists@)[i as int] == lists@[i as int]@);
            }
            let cur = match Attr::parse(&lists[i]) {
                Ok(c) => c,
                Err(d) => {
                    return Err(d);
                },
            };
            acc = match acc.try_merge(cur) {
                Ok(m) => m,
                Err(d) => {
                    return Err(d);
                },
            };
            i = i + 1;
        }
        if acc.access.is_none() {
            return Err(Diag { kind: DiagKind::MissingAccess, span: item_span });
        }
        Ok(acc)
    }
}

/// What resolving the property annotations on one method yields: the folded
/// record, which must have an access type.
pub open spec fn prop_attr_of(lists: Seq<Seq<Token>>, item_span: u32) -> Result<
    PropAttrView,
    Diag,
> {
    match fold_prop_attrs_from(lists, 0, empty_prop_attr()) {
        Result::Err(d) => Err(d),
        Result::Ok(a) => if a.access is None {
            Err(Diag { kind: DiagKind::MissingAccess, span: item_span })
        } else {
            Ok(a)
        },
    }
}

/// The shape of a resolver method's receiver.
#[derive(Clone, Copy, PartialEq, Eq, Structural, Debug)]
pub enum ReceiverKind {
    NoReceiver,
    SharedRef,
    ExclusiveRef,
    Owned,
}

/// One non-receiver parameter of a resolver method.
#[derive(Clone, Debug)]
pub struct Param {
    pub name: String,
    pub ty: String,
    pub span: u32,
}

/// The abstract form of a method parameter.
pub struct ParamView {
    pub name: Seq<char>,
    pub ty: Seq<char>,
    pub span: u32,
}

impl View for Param {
    type V = ParamView;

    open spec fn view(&self) -> ParamView {
        ParamView { name: self.name@, ty: self.ty@, span: self.span }
    }
}

/// A resolver method as the extractor sees it: identifier, receiver shape,
/// parameters, return type, and the property annotations attached to it.
pub struct MethodDesc {
    pub ident: String,
    pub span: u32,
    pub receiver: ReceiverKind,
    pub receiver_span: u32,
    pub params: Vec<Param>,
    pub inputs_span: u32,
    pub ret: Option<String>,
    pub attrs: Vec<Vec<Token>>,
}

/// The abstract form of a resolver method.
pub struct MethodDescView {
    pub ident: Seq<char>,
    pub span: u32,
    pub receiver: ReceiverKind,
    pub receiver_span: u32,
    pub params: Seq<ParamView>,
    pub inputs_span: u32,
    pub ret: Option<Seq<char>>,
    pub attrs: Seq<Seq<Token>>,
}

impl View for MethodDesc {
    type V = MethodDescView;

    open spec fn view(&self) -> MethodDescView {
        MethodDescView {
            ident: self.ident@,
            span: self.span,
            receiver: self.receiver,
            receiver_span: self.receiver_span,
            params: self.params@.map_values(|p: Param| p@),
            inputs_span: self.inputs_span,
            ret: match self.ret {
                Option::Some(t) => Option::Some(t@),
                Option::None => Option::None,
            },
            attrs: crate::attr::lists_view(self.attrs@),
        }
    }
}

/// One property of a module, ready for dispatch: its external name, the
/// method it resolves through, and the method's shape.
#[derive(Clone, Debug)]
pub struct Definition {
    pub ty: String,
    pub name: String,
    pub ident: String,
    pub arguments: Vec<String>,
    pub has_receiver: bool,
    pub access: AccessType,
}

/// The abstract form of a property definition.
pub struct DefinitionView {
    pub ty: Seq<char>,
    pub name: Seq<char>,
    pub ident: Seq<char>,
    pub arguments: Seq<Seq<char>>,
    pub has_receiver: bool,
    pub access: AccessType,
}

impl View for Definition {
    type V = DefinitionView;

    open spec fn view(&self) -> DefinitionView {
        DefinitionView {
            ty: self.ty@,
            name: self.name@,
            ident: self.ident@,
            arguments: self.arguments@.map_values(|a: String| a@),
            has_receiver: self.has_receiver,
            access: self.access,
        }
    }
}

impl Definition {
    /// Whether the host reads this property.
    pub fn is_read(&self) -> (r: bool)
        ensures
            r == (self.access == AccessType::Read),
    {
        self.access == AccessType::Read
    }

    /// Whether the host writes this property.
    pub fn is_write(&self) -> (r: bool)
        ensures
            r == (self.access == AccessType::Write),
    {
        self.access == AccessType::Write
    }
}

/// What extracting a property from one method yields: `None` with no
/// diagnostics for an untagged method; an annotation, receiver, or missing
/// access error is a diagnostic without a definition; a Read method with
/// arguments or a Write method without any yields its definition alongside
/// an arity diagnostic; otherwise the definition alone.  The external name
/// is the explicit override as given, else the camelCase of the method
/// identifier.
pub open spec fn parse_property_spec(m: MethodDescView) -> (Option<DefinitionView>, Seq<Diag>) {
    if m.attrs.len() == 0 {
        (Option::None, Seq::<Diag>::empty())
    } else {
        match prop_attr_of(m.attrs, m.span) {
            Result::Err(d) => (Option::None, seq![d]),
            Result::Ok(a) => {
                let access = a.access.unwrap().value;
                if m.receiver is ExclusiveRef || m.receiver is Owned {
                    (
                        Option::None,
                        seq![Diag { kind: DiagKind::InvalidReceiver, span: m.receiver_span }],
                    )
                } else if m.receiver is NoReceiver && m.params.len() > 0 && m.params[0].name
                    == "self"@ {
                    (
                        Option::None,
                        seq![Diag { kind: DiagKind::InvalidReceiver, span: m.params[0].span }],
                    )
                } else {
                    let name = if a.name is Some {
                        a.name.unwrap().value
                    } else {
                        camel_of(m.ident)
                    };
                    let arity_diags = if access == AccessType::Read && m.params.len() > 0 {
                        seq![Diag { kind: DiagKind::ReadArity, span: m.inputs_span }]
                    } else if access == AccessType::Write && m.params.len() == 0 {
                        seq![Diag { kind: DiagKind::WriteArity, span: m.inputs_span }]
                    } else {
                        Seq::<Diag>::empty()
                    };
                    (
                        Option::Some(
                            DefinitionView {
                                ty: if m.ret is Some {
                                    m.ret.unwrap()
                                } else {
                                    "()"@
                                },
                                name: name,
                                ident: m.ident,
                                arguments: m.params.map_values(|p: ParamView| p.ty),
                                has_receiver: m.receiver is SharedRef,
                                access: access,
                            },
                        ),
                        arity_diags,
                    )
                }
            },
        }
    }
}

/// Extracts a property definition from one method, accumulating the
/// diagnostics the method earns.
pub fn parse_property(m: &MethodDesc) -> (r: (Option<Definition>, Vec<Diag>))
    ensures
        (opt_view(r.0), r.1@) == parse_property_spec(m@),
{
    if m.attrs.len() == 0 {
        let ds: Vec<Diag> = Vec::new();
        proof {
            assert(m@.attrs.len() == 0);
            assert(ds@ =~= Seq::<Diag>::empty());
        }
        return (None, ds);
    }
    proof {
        assert(m@.attrs.len() > 0);
    }
    let a = match Attr::from_attrs(&m.attrs, m.span) {
        Err(d) => {
            let mut ds: Vec<Diag> = Vec::new();
            ds.push(d);
            proof {
                assert(ds@ =~= seq![d]);
            }
            return (None, ds);
        },
        Ok(a) => a,
    };
    let access = match &a.access {
        Some(sp) => sp.value,
        None => AccessType::Read,
    };
    proof {
        assert(a@.access is Some);
        assert(access == a@.access.unwrap().value);
    }
    match m.receiver {
        ReceiverKind::ExclusiveRef | ReceiverKind::Owned => {
            let mut ds: Vec<Diag> = Vec::new();
            ds.push(Diag { kind: DiagKind::InvalidReceiver, span: m.receiver_span });
            proof {
                assert(ds@ =~= seq![Diag { kind: DiagKind::InvalidReceiver, span: m.receiver_span }]);
            }
            return (None, ds);
        },
        ReceiverKind::NoReceiver => {
            if m.params.len() > 0 && str_eq(m.params[0].name.as_str(), "self") {
                proof {
                    assert(m@.params[0] == m.params@.map_values(|p: Param| p@)[0]);
                }
                let mut ds: Vec<Diag> = Vec::new();
                ds.push(Diag { kind: DiagKind::InvalidReceiver, span: m.params[0].span });
                proof {
                    assert(ds@ =~= seq![
                        Diag { kind: DiagKind::InvalidReceiver, span: m@.params[0].span },
                    ]);
                }
                return (None, ds);
            }
        },
        ReceiverKind::SharedRef => {},
    }
    proof {
        if m@.params.len() > 0 {
            assert(m@.params[0] == m.params@.map_values(|p: Param| p@)[0]);
        }
    }
    let name: String = match &a.name {
        Some(sp) => sp.value.clone(),
        None => to_camel_case(m.ident.as_str()),
    };
    let mut arguments: Vec<String> = Vec::new();
    let mut i: usize = 0;
    while i < m.params.len()
        invariant
            i <= m.params@.len(),
            arguments@.len() == i,
            forall|k: int| 0 <= k < i ==> (#[trigger] arguments@[k])@ == m@.params[k].ty,
        decreases m.params@.len() - i,
    {
        proof {
            assert(m@.params[i as int] == m.params@[i as int]@);
        }
        arguments.push(m.params[i].ty.clone());
        i = i + 1;
    }
    proof {
        assert forall|k: int| 0 <= k < m@.params.len() implies arguments@.map_values(
            |s: String| s@,
        )[k] == m@.params.map_values(|p: ParamView| p.ty)[#[trigger] (k + 0)] by {
            assert(arguments@.map_values(|s: String| s@)[k] == arguments@[k]@);
            assert(m@.params.map_values(|p: ParamView| p.ty)[k] == m@.params[k].ty);
        }
        assert(arguments@.map_values(|s: String| s@) =~= m@.params.map_values(
            |p: ParamView| p.ty,
        ));
    }
    let mut ds: Vec<Diag> = Vec::new();
    if access == AccessType::Read && m.params.len() > 0 {
        ds.push(Diag { kind: DiagKind::ReadArity, span: m.inputs_span });
        proof {
            assert(ds@ =~= seq![Diag { kind: DiagKind::ReadArity, span: m.inputs_span }]);
        }
    } else if access == AccessType::Write && m.params.len() == 0 {
        ds.push(Diag { kind: DiagKind::WriteArity, span: m.inputs_span });
        proof {
            assert(ds@ =~= seq![Diag { kind: DiagKind::WriteArity, span: m.inputs_span }]);
        }
    }
    let ty: String = match &m.ret {
        Some(t) => t.clone(),
        None => unit_type_text(),
    };
    let def = Definition {
        ty,
        name,
        ident: m.ident.clone(),
        arguments,
        has_receiver: match m.receiver {
            ReceiverKind::SharedRef => true,
            _ => false,
        },
        access,
    };
    (Some(def), ds)
}

/// The textual unit type a method without a declared return type reports.
fn unit_type_text() -> (r: String)
    ensures
        r@ == "()"@,
{
    let mut s = String::new();
    s.append("()");
    proof {
        assert(s@ =~= "()"@);
    }
    s
}

/// Whether no two property definitions share an external name.
pub open spec fn all_names_different(props: Seq<DefinitionView>) -> bool {
    forall|i: int, j: int|
        0 <= i < j < props.len() ==> (#[trigger] props[i].name) != (#[trigger] props[j].name)
}

/// The abstract form of a property list.
pub open spec fn props_view(props: Seq<Definition>) -> Seq<DefinitionView> {
    props.map_values(|d: Definition| d@)
}

/// Checks that all properties have pairwise different external names.
pub fn all_different(props: &Vec<Definition>) -> (r: bool)
    ensures
        r == all_names_different(props_view(props@)),
{
    let n = props.len();
    let mut i: usize = 0;
    while i < n
        invariant
            i <= n,
            n == props@.len(),
            forall|x: int, y: int|
                0 <= x < y < props@.len() && x < i ==> (#[trigger] props_view(props@)[x].name) != (
                #[trigger] props_view(props@)[y].name),
        decreases n - i,
    {
        let mut j: usize = i + 1;
        while j < n
            invariant
                i < j <= n,
                i < n,
                n == props@.len(),
                forall|y: int|
                    i < y < j ==> (#[trigger] props_view(props@)[y].name) != props_view(
                        props@,
                    )[i as int].name,
            decreases n - j,
        {
            if str_eq(props[i].name.as_str(), props[j].name.as_str()) {
                proof {
                    assert(props_view(props@)[i as int].name == props@[i as int].name@);
                    assert(props_view(props@)[j as int].name == props@[j as int].name@);
                    assert(!all_names_different(props_view(props@)));
                }
                return false;
            }
            j = j + 1;
        }
        proof {
            assert forall|x: int, y: int|
                0 <= x < y < props@.len() && x < i + 1 implies (#[trigger] props_view(
                props@,
            )[x].name) != (#[trigger] props_view(props@)[y].name) by {
                if x == i {
                    assert(props_view(props@)[y].name != props_view(props@)[i as int].name);
                }
            }
        }
        i = i + 1;
    }
    true
}

} // verus!
