//! Assembly of a module definition: the resolved module-scope attributes,
//! the declaring type, and the properties extracted from its methods, with
//! every diagnostic gathered before generation aborts.

use vstd::prelude::*;
use crate::attr::{opt_view, Attr, AttrView, Diag, DiagKind, lists_view};
use crate::module_meta::{Lifetime, Meta, UserAccount};
use crate::property::{
    all_different, all_names_different, parse_property, parse_property_spec, props_view,
    Definition as PropDefinition, DefinitionView as PropDefinitionView, MethodDesc,
    MethodDescView,
};
use crate::version::Version;

verus! {

/// A module ready for dispatch: its resolved metadata and its properties in
/// declaration order.
pub struct Definition {
    pub name: String,
    pub ty: String,
    pub description: Option<String>,
    pub manufacturer: Option<String>,
    pub version: Version,
    pub lifetime: Lifetime,
    pub user_account: UserAccount,
    pub props: Vec<PropDefinition>,
}

/// The abstract form of a module definition.
pub struct DefinitionView {
    pub name: Seq<char>,
    pub ty: Seq<char>,
    pub description: Option<Seq<char>>,
    pub manufacturer: Option<Seq<char>>,
    pub version: Version,
    pub lifetime: Lifetime,
    pub user_account: UserAccount,
    pub props: Seq<PropDefinitionView>,
}

impl View for Definition {
    type V = DefinitionView;

    open spec fn view(&self) -> DefinitionView {
        DefinitionView {
            name: self.name@,
            ty: self.ty@,
            description: match self.description {
                Option::Some(s) => Option::Some(s@),
                Option::None => Option::None,
            },
            manufacturer: match self.manufacturer {
                Option::Some(s) => Option::Some(s@),
                Option::None => Option::None,
            },
            version: self.version,
            lifetime: self.lifetime,
            user_account: self.user_account,
            props: props_view(self.props@),
        }
    }
}

/// The abstract form of a method list.
pub open spec fn methods_view(methods: Seq<MethodDesc>) -> Seq<MethodDescView> {
    methods.map_values(|m: MethodDesc| m@)
}

/// The properties extracted from the methods, in declaration order, paired
/// with every diagnostic the methods earned.
pub open spec fn extract_props(methods: Seq<MethodDescView>) -> (Seq<PropDefinitionView>, Seq<
    Diag,
>)
    decreases methods.len(),
{
    if methods.len() == 0 {
        (Seq::<PropDefinitionView>::empty(), Seq::<Diag>::empty())
    } else {
        let front = extract_props(methods.drop_last());
        let last = parse_property_spec(methods.last());
        (
            match last.0 {
                Option::Some(d) => front.0.push(d),
                Option::None => front.0,
            },
            front.1 + last.1,
        )
    }
}

/// What building a module yields.  No resolvable type identifier is a hard
/// error; any diagnostics from property extraction abort generation before
/// the uniqueness check; two properties sharing an external name abort it
/// with a duplicate-property diagnostic at the type; otherwise every
/// metadata field takes its declared value or its documented default (name:
/// the type identifier; version: all zero; lifetime: long; account: root).
pub open spec fn build_module_spec(
    attr: AttrView,
    type_ident: Option<Seq<char>>,
    type_span: u32,
    methods: Seq<MethodDescView>,
) -> Result<DefinitionView, Seq<Diag>> {
    if type_ident is None {
        Err(seq![Diag { kind: DiagKind::NoTypeIdent, span: type_span }])
    } else {
        let ex = extract_props(methods);
        if ex.1.len() > 0 {
            Err(ex.1)
        } else if !all_names_different(ex.0) {
            Err(seq![Diag { kind: DiagKind::DupPropertyName, span: type_span }])
        } else {
            Ok(
                DefinitionView {
                    name: if attr.name is Some {
                        attr.name.unwrap().value
                    } else {
                        type_ident.unwrap()
                    },
                    ty: type_ident.unwrap(),
                    description: match attr.description {
                        Option::Some(s) => Option::Some(s.value),
                        Option::None => Option::None,
                    },
                    manufacturer: match attr.manufacturer {
                        Option::Some(s) => Option::Some(s.value),
                        Option::None => Option::None,
                    },
                    version: if attr.version is Some {
                        attr.version.unwrap().value
                    } else {
                        Version { major: 0, minor: 0, patch: 0, tweak: 0 }
                    },
                    lifetime: if attr.lifetime is Some {
                        attr.lifetime.unwrap().value
                    } else {
                        Lifetime::Long
                    },
                    user_account: if attr.user_account is Some {
                        if attr.user_account.unwrap().value.0 == 0 {
                            UserAccount::Root
                        } else {
                            UserAccount::User(attr.user_account.unwrap().value.0)
                        }
                    } else {
                        UserAccount::Root
                    },
                    props: ex.0,
                },
            )
        }
    }
}

/// Builds a module definition from its resolved module-scope attributes, the
/// declaring type's identifier (with its span), and its methods.
pub fn build_module(
    attr: Attr,
    type_ident: Option<String>,
    type_span: u32,
    methods: &Vec<MethodDesc>,
) -> (r: Result<Definition, Vec<Diag>>)
    ensures
        match r {
            Ok(d) => build_module_spec(attr@, opt_string_view(type_ident), type_span, methods_view(methods@))
                == Ok::<DefinitionView, Seq<Diag>>(d@),
            Err(ds) => build_module_spec(attr@, opt_string_view(type_ident), type_span, methods_view(methods@))
                == Err::<DefinitionView, Seq<Diag>>(ds@),
        },
{
    let ty: String = match type_ident {
        None => {
            let mut ds: Vec<Diag> = Vec::new();
            ds.push(Diag { kind: DiagKind::NoTypeIdent, span: type_span });
            proof {
                assert(ds@ =~= seq![Diag { kind: DiagKind::NoTypeIdent, span: type_span }]);
            }
            return Err(ds);
        },
        Some(t) => t,
    };
    let mut props: Vec<PropDefinition> = Vec::new();
    let mut diags: Vec<Diag> = Vec::new();
    let mut i: usize = 0;
    while i < methods.len()
        invariant
            i <= methods@.len(),
            (props_view(props@), diags@) == extract_props(methods_view(methods@).take(i as int)),
        decreases methods@.len() - i,
    {
        proof {
            assert(methods_view(methods@)[i as int] == methods@[i as int]@);
            assert(methods_view(methods@).take(i + 1).drop_last() =~= methods_view(
                methods@,
            ).take(i as int));
            assert(methods_view(methods@).take(i + 1).last() == methods@[i as int]@);
        }
        let (d, mut ds) = parse_property(&methods[i]);
        let ghost old_props = props_view(props@);
        let ghost old_diags = diags@;
        match d {
            Some(def) => {
                props.push(def);
                proof {
                    assert(props_view(props@) =~= old_props.push(def@));
                }
            },
            None => {},
        }
        let ghost ds_view = ds@;
        diags.append(&mut ds);
        proof {
            assert(diags@ =~= old_diags + ds_view);
        }
        i = i + 1;
    }
    proof {
        assert(methods_view(methods@).take(methods@.len() as int) =~= methods_view(methods@));
    }
    if diags.len() > 0 {
        return Err(diags);
    }
    if !all_different(&props) {
        let mut ds: Vec<Diag> = Vec::new();
        ds.push(Diag { kind: DiagKind::DupPropertyName, span: type_span });
        proof {
            assert(ds@ =~= seq![Diag { kind: DiagKind::DupPropertyName, span: type_span }]);
        }
        return Err(ds);
    }
    let name: String = match &attr.name {
        Some(sp) => sp.value.clone(),
        None => ty.clone(),
    };
    let description: Option<String> = match attr.description {
        Some(sp) => Some(sp.value),
        None => None,
    };
    let manufacturer: Option<String> = match attr.manufacturer {
        Some(sp) => Some(sp.value),
        None => None,
    };
    let version: Version = match &attr.version {
        Some(sp) => sp.value,
        None => Version { major: 0, minor: 0, patch: 0, tweak: 0 },
    };
    let lifetime: Lifetime = match &attr.lifetime {
        Some(sp) => sp.value,
        None => Lifetime::Long,
    };
    let user_account: UserAccount = match &attr.user_account {
        Some(sp) => UserAccount::from_id(sp.value.0),
        None => UserAccount::Root,
    };
    Ok(
        Definition {
            name,
            ty,
            description,
            manufacturer,
            version,
            lifetime,
            user_account,
            props,
        },
    )
}

/// The abstract form of an optional type identifier.
pub open spec fn opt_string_view(o: Option<String>) -> Option<Seq<char>> {
    match o {
        Option::Some(s) => Option::Some(s@),
        Option::None => Option::None,
    }
}

impl Definition {
    /// The metadata record this module reports: its component list is
    /// exactly the module's own name.
    pub fn meta(&self) -> (r: Meta)
        ensures
            r.name@ == self@.name,
            match self@.description {
                Option::Some(d) => r.description matches Option::Some(s) && s@ == d,
                Option::None => r.description is None,
            },
            match self@.manufacturer {
                Option::Some(d) => r.manufacturer matches Option::Some(s) && s@ == d,
                Option::None => r.manufacturer is None,
            },
            r.version == self@.version,
            r.components@.map_values(|c: String| c@) == seq![self@.name],
            r.user_account == self@.user_account,
            r.lifetime == self@.lifetime,
    {
        let mut components: Vec<String> = Vec::new();
        components.push(self.name.clone());
        proof {
            assert(components@.map_values(|c: String| c@) =~= seq![self@.name]);
        }
        Meta {
            name: self.name.clone(),
            description: match &self.description {
                Some(s) => Some(s.clone()),
                None => None,
            },
            manufacturer: match &self.manufacturer {
                Some(s) => Some(s.clone()),
                None => None,
            },
            version: self.version,
            components,
            user_account: self.user_account,
            lifetime: self.lifetime,
        }
    }
}

/// Property extraction aborts generation: if any method earns a diagnostic,
/// the module fails to build with the gathered diagnostics.
pub proof fn lemma_diagnostics_abort_build(
    attr: AttrView,
    ti: Seq<char>,
    type_span: u32,
    methods: Seq<MethodDescView>,
)
    requires
        extract_props(methods).1.len() > 0,
    ensures
        build_module_spec(attr, Some(ti), type_span, methods) == Err::<DefinitionView, Seq<Diag>>(
            extract_props(methods).1,
        ),
{
}

/// A method in the list that earns a diagnostic — a Read method with an
/// argument or a Write method without one included — makes extraction
/// surface it.
pub proof fn lemma_method_diag_surfaces(methods: Seq<MethodDescView>, i: int)
    requires
        0 <= i < methods.len(),
        parse_property_spec(methods[i]).1.len() > 0,
    ensures
        extract_props(methods).1.len() > 0,
    decreases methods.len(),
{
    if i == methods.len() - 1 {
        assert(methods.last() == methods[i]);
    } else {
        assert(methods.drop_last()[i] == methods[i]);
        lemma_method_diag_surfaces(methods.drop_last(), i);
    }
}

/// Two properties resolving to the same external name abort generation with
/// the duplicate-property diagnostic at the declaring type.
pub proof fn lemma_duplicate_names_abort_build(
    attr: AttrView,
    ti: Seq<char>,
    type_span: u32,
    methods: Seq<MethodDescView>,
)
    requires
        extract_props(methods).1.len() == 0,
        !all_names_different(extract_props(methods).0),
    ensures
        build_module_spec(attr, Some(ti), type_span, methods) == Err::<DefinitionView, Seq<Diag>>(
            seq![Diag { kind: DiagKind::DupPropertyName, span: type_span }],
        ),
{
}

} // verus!
