//! The runtime bridge a module definition gives rise to: the host-facing
//! get/set/get-info lifecycle over a dispatch table keyed by property name,
//! with the module's own resolver methods behind a trait.
//!
//! One open module owns one resolver instance; a get takes a shared borrow
//! of it and a set an exclusive borrow, so calls against one handle must be
//! serialized by the caller, while distinct handles share nothing.

use vstd::prelude::*;
use vstd::pervasive::VecAdditionalExecFns;
use crate::json::{json_normalize, json_parse_of, json_text_of};
use crate::module_def::Definition;
use crate::module_meta::{meta_json_parts, opt_string_view, PropertyError};
use crate::property::{AccessType, Definition as PropDefinition, DefinitionView};
use crate::text::str_eq;

verus! {

/// Success, as the host protocol counts it.
pub const OK: i32 = 0;

/// The generic failure code a propagated resolver error maps to.
pub const ERROR: i32 = -1;

/// The invalid-argument code, mirroring `EINVAL` on the host platform.
pub const EINVAL: i32 = 22;

/// The allocation-failure code, mirroring `ENOMEM` on the host platform.
pub const ENOMEM: i32 = 12;

/// The resolver methods a module implements: a read hands back the JSON
/// payload of the named method's property; a write pushes a decoded payload
/// into it.  Implementations promise nothing the dispatch layer relies on.
pub trait PropertyResolver {
    /// Resolves a Read property through its method identifier.
    fn resolve_read(&self, method: &str) -> Result<String, PropertyError>;

    /// Resolves a Write property through its method identifier.
    fn resolve_write(&mut self, method: &str, payload: &str) -> Result<(), PropertyError>;
}

impl PropDefinition {
    /// One arm of the read dispatch table: resolves this property on the
    /// instance through its method identifier.
    pub fn resolve_reported_prop<R: PropertyResolver>(&self, instance: &R) -> Result<
        String,
        PropertyError,
    >
        requires
            self@.access == AccessType::Read,
    {
        instance.resolve_read(self.ident.as_str())
    }

    /// One arm of the write dispatch table: pushes the payload into this
    /// property on the instance through its method identifier.
    pub fn resolve_desired_prop<R: PropertyResolver>(
        &self,
        instance: &mut R,
        payload: &str,
    ) -> Result<(), PropertyError>
        requires
            self@.access == AccessType::Write,
    {
        instance.resolve_write(self.ident.as_str(), payload)
    }
}

/// Maps a resolved read outcome to the host's result: the payload on
/// success, the generic failure code on a resolver error.
pub fn read_outcome(r: Result<String, PropertyError>) -> (out: Result<String, i32>)
    ensures
        r matches Ok(p) ==> out == Ok::<String, i32>(p),
        r is Err ==> out == Err::<String, i32>(ERROR),
{
    match r {
        Ok(p) => Ok(p),
        Err(_) => Err(ERROR),
    }
}

/// Maps a resolved write outcome to the host's status code: success exactly
/// when the resolver succeeded, the generic failure code otherwise.
pub fn write_outcome(r: Result<(), PropertyError>) -> (out: i32)
    ensures
        out == OK <==> r is Ok,
        r is Err ==> out == ERROR,
{
    match r {
        Ok(_) => OK,
        Err(_) => ERROR,
    }
}

/// Whether some property in the list has the given external name and access
/// type.
pub open spec fn has_prop(props: Seq<DefinitionView>, name: Seq<char>, access: AccessType) -> bool {
    exists|i: int|
        0 <= i < props.len() && (#[trigger] props[i]).access == access && props[i].name == name
}

/// One open module: the definition it dispatches over and the resolver
/// instance it owns between open and close.
pub struct ModuleRuntime<R> {
    pub def: Definition,
    pub instance: R,
}

impl<R: PropertyResolver> ModuleRuntime<R> {
    /// Opens the module: the returned handle owns the instance.
    pub fn open(def: Definition, instance: R) -> (r: ModuleRuntime<R>)
        ensures
            r.def == def,
    {
        ModuleRuntime { def, instance }
    }

    /// Closes the module, destroying the instance it owns.
    pub fn close(self) {
    }

    /// Renders the module's metadata record as its JSON payload: the
    /// component list is exactly the module's name.
    pub fn get_info(&self) -> (r: String)
        ensures
            r@ == meta_json_parts(
                self.def@.name,
                self.def@.description,
                self.def@.manufacturer,
                self.def@.version,
                seq![self.def@.name],
                self.def@.user_account,
                self.def@.lifetime,
            ),
    {
        let meta = self.def.meta();
        proof {
            assert(opt_string_view(meta.description) == self.def@.description);
            assert(opt_string_view(meta.manufacturer) == self.def@.manufacturer);
        }
        meta.to_json()
    }

    /// Looks the property up in the dispatch table for one access type: the
    /// first definition carrying that external name, if any.
    fn find_prop(&self, property: &str, access: AccessType) -> (r: Option<usize>)
        ensures
            match r {
                Option::Some(i) => i < self.def@.props.len() && self.def@.props[i as int].access
                    == access && self.def@.props[i as int].name == property@,
                Option::None => !has_prop(self.def@.props, property@, access),
            },
    {
        let n = self.def.props.len();
        let mut i: usize = 0;
        while i < n
            invariant
                i <= n,
                n == self.def.props@.len(),
                forall|j: int|
                    0 <= j < i ==> !((#[trigger] self.def@.props[j]).access == access
                        && self.def@.props[j].name == property@),
            decreases n - i,
        {
            proof {
                assert(self.def@.props[i as int] == self.def.props@[i as int]@);
            }
            let p = &self.def.props[i];
            let access_matches = match (p.access, access) {
                (AccessType::Read, AccessType::Read) => true,
                (AccessType::Write, AccessType::Write) => true,
                _ => false,
            };
            if access_matches && str_eq(p.name.as_str(), property) {
                return Some(i);
            }
            i = i + 1;
        }
        None
    }

    /// Serves a host read: the invalid-argument code comes exactly when the
    /// component is not the module's name or the property stands in no read
    /// table entry; otherwise the resolved payload is handed back, a
    /// resolver error becoming the generic failure code.
    pub fn get(&self, component: &str, property: &str) -> (r: Result<String, i32>)
        ensures
            component@ != self.def@.name ==> r == Err::<String, i32>(EINVAL),
            component@ == self.def@.name && !has_prop(
                self.def@.props,
                property@,
                AccessType::Read,
            ) ==> r == Err::<String, i32>(EINVAL),
            component@ == self.def@.name && has_prop(
                self.def@.props,
                property@,
                AccessType::Read,
            ) ==> r != Err::<String, i32>(EINVAL),
            r is Err ==> (r == Err::<String, i32>(EINVAL) || r == Err::<String, i32>(ERROR)),
    {
        if !str_eq(component, self.def.name.as_str()) {
            return Err(EINVAL);
        }
        match self.find_prop(property, AccessType::Read) {
            None => Err(EINVAL),
            Some(i) => {
                proof {
                    assert(has_prop(self.def@.props, property@, AccessType::Read));
                }
                read_outcome(self.def.props[i].resolve_reported_prop(&self.instance))
            },
        }
    }

    /// Serves a host write: the same component and table checks as a read,
    /// against the write table, with the invalid-argument code exactly on
    /// their failure (the instance then untouched); otherwise the payload is
    /// pushed through the resolver, whose error becomes the generic failure
    /// code.
    pub fn set(&mut self, component: &str, property: &str, payload: &str) -> (r: i32)
        ensures
            final(self).def == old(self).def,
            component@ != old(self).def@.name ==> r == EINVAL,
            component@ == old(self).def@.name && !has_prop(
                old(self).def@.props,
                property@,
                AccessType::Write,
            ) ==> r == EINVAL,
            component@ == old(self).def@.name && has_prop(
                old(self).def@.props,
                property@,
                AccessType::Write,
            ) ==> r != EINVAL,
            r == EINVAL ==> final(self).instance == old(self).instance,
            r == EINVAL || r == OK || r == ERROR,
    {
        if !str_eq(component, self.def.name.as_str()) {
            return EINVAL;
        }
        match self.find_prop(property, AccessType::Write) {
            None => EINVAL,
            Some(i) => {
                proof {
                    assert(has_prop(self.def@.props, property@, AccessType::Write));
                }
                write_outcome(self.def.props[i].resolve_desired_prop(&mut self.instance, payload))
            },
        }
    }
}

/// The abstract form of an association list of strings.
pub open spec fn entries_view(entries: Seq<(String, String)>) -> Seq<(Seq<char>, Seq<char>)> {
    entries.map_values(|p: (String, String)| (p.0@, p.1@))
}

/// The value the first entry with the given key holds, if any.
pub open spec fn assoc(entries: Seq<(Seq<char>, Seq<char>)>, key: Seq<char>) -> Option<Seq<char>>
    decreases entries.len(),
{
    if entries.len() == 0 {
        Option::None
    } else if entries[0].0 == key {
        Option::Some(entries[0].1)
    } else {
        assoc(entries.drop_first(), key)
    }
}

/// If entry `i` is the first with key `k`, the association finds its value.
proof fn lemma_assoc_at(entries: Seq<(Seq<char>, Seq<char>)>, k: Seq<char>, i: int)
    requires
        0 <= i < entries.len(),
        entries[i].0 == k,
        forall|j: int| 0 <= j < i ==> (#[trigger] entries[j]).0 != k,
    ensures
        assoc(entries, k) == Option::Some(entries[i].1),
    decreases i,
{
    if i > 0 {
        assert(entries.drop_first()[i - 1] == entries[i]);
        assert(forall|j: int|
            0 <= j < i - 1 ==> (#[trigger] entries.drop_first()[j]) == entries[j + 1]);
        lemma_assoc_at(entries.drop_first(), k, i - 1);
    }
}

/// If no entry has key `k`, the association finds nothing.
proof fn lemma_assoc_none(entries: Seq<(Seq<char>, Seq<char>)>, k: Seq<char>)
    requires
        forall|j: int| 0 <= j < entries.len() ==> (#[trigger] entries[j]).0 != k,
    ensures
        assoc(entries, k) is None,
    decreases entries.len(),
{
    if entries.len() > 0 {
        assert(forall|j: int|
            0 <= j < entries.len() - 1 ==> (#[trigger] entries.drop_first()[j]) == entries[j + 1]);
        lemma_assoc_none(entries.drop_first(), k);
    }
}

/// Replacing the value of the first entry with key `k` changes what `k`
/// associates to and nothing else.
proof fn lemma_assoc_update(
    entries: Seq<(Seq<char>, Seq<char>)>,
    k: Seq<char>,
    v: Seq<char>,
    i: int,
    q: Seq<char>,
)
    requires
        0 <= i < entries.len(),
        entries[i].0 == k,
        forall|j: int| 0 <= j < i ==> (#[trigger] entries[j]).0 != k,
    ensures
        assoc(entries.update(i, (k, v)), q) == (if q == k {
            Option::Some(v)
        } else {
            assoc(entries, q)
        }),
    decreases i,
{
    let updated = entries.update(i, (k, v));
    if i == 0 {
        if q != k {
            assert(updated.drop_first() =~= entries.drop_first());
        }
    } else {
        assert(updated[0] == entries[0]);
        if entries[0].0 == q {
        } else {
            assert(updated.drop_first() =~= entries.drop_first().update(i - 1, (k, v)));
            assert(entries.drop_first()[i - 1] == entries[i]);
            assert(forall|j: int|
                0 <= j < i - 1 ==> (#[trigger] entries.drop_first()[j]) == entries[j + 1]);
            lemma_assoc_update(entries.drop_first(), k, v, i - 1, q);
        }
    }
}

/// Appending an entry with a key nothing held yet makes `k` associate to it
/// and changes nothing else.
proof fn lemma_assoc_push(
    entries: Seq<(Seq<char>, Seq<char>)>,
    k: Seq<char>,
    v: Seq<char>,
    q: Seq<char>,
)
    requires
        forall|j: int| 0 <= j < entries.len() ==> (#[trigger] entries[j]).0 != k,
    ensures
        assoc(entries.push((k, v)), q) == (if q == k {
            Option::Some(v)
        } else {
            assoc(entries, q)
        }),
    decreases entries.len(),
{
    let pushed = entries.push((k, v));
    if entries.len() == 0 {
        assert(pushed[0] == (k, v));
        if q != k {
            assert(pushed.drop_first() =~= Seq::<(Seq<char>, Seq<char>)>::empty());
            assert(assoc(Seq::<(Seq<char>, Seq<char>)>::empty(), q) is None);
            assert(assoc(pushed, q) == assoc(pushed.drop_first(), q));
            assert(assoc(pushed, q) is None);
        }
    } else {
        assert(pushed[0] == entries[0]);
        assert(entries[0].0 != k);
        if entries[0].0 == q {
        } else {
            assert(pushed.drop_first() =~= entries.drop_first().push((k, v)));
            assert(forall|j: int|
                0 <= j < entries.len() - 1 ==> (#[trigger] entries.drop_first()[j]) == entries[j
                    + 1]);
            lemma_assoc_push(entries.drop_first(), k, v, q);
        }
    }
}

/// A module whose state is a set of named JSON-valued fields: each resolver
/// method is bound to a field; a read hands the field's stored payload back
/// and a write validates the payload as JSON and stores its canonical form.
/// The example resolver the dispatch bridge is exercised with.
pub struct ValueStore {
    bindings: Vec<(String, String)>,
    values: Vec<(String, String)>,
}

impl ValueStore {
    /// The field a resolver method is bound to.
    pub closed spec fn binding_of(&self, method: Seq<char>) -> Option<Seq<char>> {
        assoc(entries_view(self.bindings@), method)
    }

    /// The stored payload of a field.
    pub closed spec fn value_of(&self, field: Seq<char>) -> Option<Seq<char>> {
        assoc(entries_view(self.values@), field)
    }

    /// A store with no bindings and no values.
    pub fn new() -> (r: ValueStore)
        ensures
            forall|m: Seq<char>| r.binding_of(m) is None,
            forall|f: Seq<char>| r.value_of(f) is None,
    {
        let r = ValueStore { bindings: Vec::new(), values: Vec::new() };
        proof {
            assert(entries_view(r.bindings@) =~= Seq::<(Seq<char>, Seq<char>)>::empty());
            assert(entries_view(r.values@) =~= Seq::<(Seq<char>, Seq<char>)>::empty());
        }
        r
    }

    /// Binds a resolver method to a field, unless the method is already
    /// bound.
    pub fn bind(&mut self, method: String, field: String)
        ensures
            final(self).binding_of(method@) == (match old(self).binding_of(method@) {
                Option::Some(f) => Option::Some(f),
                Option::None => Option::Some(field@),
            }),
            forall|m: Seq<char>|
                m != method@ ==> final(self).binding_of(m) == old(self).binding_of(m),
            forall|f: Seq<char>| final(self).value_of(f) == old(self).value_of(f),
    {
        match self.find_binding(method.as_str()) {
            Some(_) => {
                proof {
                    assert(forall|m: Seq<char>|
                        final(self).binding_of(m) == old(self).binding_of(m));
                }
            },
            None => {
                let ghost old_entries = entries_view(self.bindings@);
                self.bindings.push((method, field));
                proof {
                    assert(entries_view(self.bindings@) =~= old_entries.push((method@, field@)));
                    assert forall|m: Seq<char>| true implies assoc(
                        entries_view(self.bindings@),
                        m,
                    ) == (if m == method@ {
                        Option::Some(field@)
                    } else {
                        assoc(old_entries, m)
                    }) by {
                        lemma_assoc_push(old_entries, method@, field@, m);
                    }
                }
            },
        }
    }

    /// Stores a payload into a field, replacing what it held.
    pub fn put(&mut self, field: String, value: String)
        ensures
            final(self).value_of(field@) == Option::Some(value@),
            forall|f: Seq<char>| f != field@ ==> final(self).value_of(f) == old(self).value_of(f),
            forall|m: Seq<char>| final(self).binding_of(m) == old(self).binding_of(m),
    {
        let ghost old_entries = entries_view(self.values@);
        match self.find_value(field.as_str()) {
            Some(i) => {
                self.values.set(i, (field, value));
                proof {
                    assert(entries_view(self.values@) =~= old_entries.update(
                        i as int,
                        (field@, value@),
                    ));
                    assert forall|q: Seq<char>| true implies assoc(
                        entries_view(self.values@),
                        q,
                    ) == (if q == field@ {
                        Option::Some(value@)
                    } else {
                        assoc(old_entries, q)
                    }) by {
                        lemma_assoc_update(old_entries, field@, value@, i as int, q);
                    }
                }
            },
            None => {
                self.values.push((field, value));
                proof {
                    assert(entries_view(self.values@) =~= old_entries.push((field@, value@)));
                    assert forall|q: Seq<char>| true implies assoc(
                        entries_view(self.values@),
                        q,
                    ) == (if q == field@ {
                        Option::Some(value@)
                    } else {
                        assoc(old_entries, q)
                    }) by {
                        lemma_assoc_push(old_entries, field@, value@, q);
                    }
                }
            },
        }
    }

    /// Finds the index of the first binding for a method.
    fn find_binding(&self, method: &str) -> (r: Option<usize>)
        ensures
            match r {
                Option::Some(i) => i < self.bindings@.len() && self.binding_of(method@)
                    == Option::Some(self.bindings@[i as int].1@) && entries_view(
                    self.bindings@,
                )[i as int].0 == method@,
                Option::None => self.binding_of(method@) is None && (forall|j: int|
                    0 <= j < self.bindings@.len() ==> (#[trigger] entries_view(
                        self.bindings@,
                    )[j]).0 != method@),
            },
    {
        let n = self.bindings.len();
        let mut i: usize = 0;
        while i < n
            invariant
                i <= n,
                n == self.bindings@.len(),
                forall|j: int|
                    0 <= j < i ==> (#[trigger] entries_view(self.bindings@)[j]).0 != method@,
            decreases n - i,
        {
            proof {
                assert(entries_view(self.bindings@)[i as int] == (
                    self.bindings@[i as int].0@,
                    self.bindings@[i as int].1@,
                ));
            }
            if str_eq(self.bindings[i].0.as_str(), method) {
                proof {
                    lemma_assoc_at(entries_view(self.bindings@), method@, i as int);
                }
                return Some(i);
            }
            i = i + 1;
        }
        proof {
            lemma_assoc_none(entries_view(self.bindings@), method@);
        }
        None
    }

    /// Finds the index of the first value entry for a field.
    fn find_value(&self, field: &str) -> (r: Option<usize>)
        ensures
            match r {
                Option::Some(i) => i < self.values@.len() && entries_view(
                    self.values@,
                )[i as int].0 == field@ && (forall|j: int|
                    0 <= j < i ==> (#[trigger] entries_view(self.values@)[j]).0 != field@),
                Option::None => self.value_of(field@) is None && (forall|j: int|
                    0 <= j < self.values@.len() ==> (#[trigger] entries_view(
                        self.values@,
                    )[j]).0 != field@),
            },
    {
        let n = self.values.len();
        let mut i: usize = 0;
        while i < n
            invariant
                i <= n,
                n == self.values@.len(),
                forall|j: int|
                    0 <= j < i ==> (#[trigger] entries_view(self.values@)[j]).0 != field@,
            decreases n - i,
        {
            proof {
                assert(entries_view(self.values@)[i as int] == (
                    self.values@[i as int].0@,
                    self.values@[i as int].1@,
                ));
            }
            if str_eq(self.values[i].0.as_str(), field) {
                return Some(i);
            }
            i = i + 1;
        }
        proof {
            lemma_assoc_none(entries_view(self.values@), field@);
        }
        None
    }

    /// Reads the payload a method's field holds: an error when the method is
    /// unbound or its field holds nothing yet.
    pub fn get_value(&self, method: &str) -> (r: Result<String, PropertyError>)
        ensures
            match (self.binding_of(method@)) {
                Option::Some(f) => match self.value_of(f) {
                    Option::Some(v) => r matches Ok(p) && p@ == v,
                    Option::None => r is Err,
                },
                Option::None => r is Err,
            },
    {
        let bi = match self.find_binding(method) {
            Some(i) => i,
            None => {
                return Err(PropertyError::new(unresolved_text()));
            },
        };
        let field = self.bindings[bi].1.as_str();
        match self.find_value(field) {
            Some(vi) => {
                proof {
                    lemma_assoc_at(entries_view(self.values@), field@, vi as int);
                    assert(entries_view(self.values@)[vi as int] == (
                        self.values@[vi as int].0@,
                        self.values@[vi as int].1@,
                    ));
                }
                Ok(self.values[vi].1.clone())
            },
            None => Err(PropertyError::new(unresolved_text())),
        }
    }

    /// Validates a payload as JSON and stores its canonical form into the
    /// method's field: an error when the method is unbound or the payload is
    /// malformed, the store then unchanged.
    pub fn set_value(&mut self, method: &str, payload: &str) -> (r: Result<(), PropertyError>)
        ensures
            match (old(self).binding_of(method@)) {
                Option::Some(f) => match json_parse_of(payload@) {
                    Option::Some(d) => r is Ok && final(self).value_of(f) == Option::Some(
                        json_text_of(d),
                    ) && (forall|q: Seq<char>|
                        q != f ==> final(self).value_of(q) == old(self).value_of(q)) && (forall|
                        m: Seq<char>,
                    | final(self).binding_of(m) == old(self).binding_of(m)),
                    Option::None => r is Err && *final(self) == *old(self),
                },
                Option::None => r is Err && *final(self) == *old(self),
            },
    {
        let bi = match self.find_binding(method) {
            Some(i) => i,
            None => {
                return Err(PropertyError::new(unresolved_text()));
            },
        };
        let normalized = match json_normalize(payload) {
            Some(t) => t,
            None => {
                return Err(PropertyError::new(malformed_text()));
            },
        };
        let field = self.bindings[bi].1.clone();
        self.put(field, normalized);
        Ok(())
    }
}

impl PropertyResolver for ValueStore {
    fn resolve_read(&self, method: &str) -> Result<String, PropertyError> {
        self.get_value(method)
    }

    fn resolve_write(&mut self, method: &str, payload: &str) -> Result<(), PropertyError> {
        self.set_value(method, payload)
    }
}

/// The message for a property whose field cannot be resolved.
fn unresolved_text() -> (r: String)
    ensures
        r@ == "property is not bound to a stored field"@,
{
    let mut s = String::new();
    s.append("property is not bound to a stored field");
    proof {
        assert(s@ =~= "property is not bound to a stored field"@);
    }
    s
}

/// The message for a payload that is not well-formed JSON.
fn malformed_text() -> (r: String)
    ensures
        r@ == "payload is not well-formed JSON"@,
{
    let mut s = String::new();
    s.append("payload is not well-formed JSON");
    proof {
        assert(s@ =~= "payload is not well-formed JSON"@);
    }
    s
}

} // verus!
