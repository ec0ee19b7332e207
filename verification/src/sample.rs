//! A sample module exercising every payload shape the protocol carries:
//! one slot each for a string, an integer, a boolean, an object, and an
//! array of objects.  Stored values are kept as canonical JSON text; a set
//! validates the payload's shape against its slot before storing it.

use vstd::prelude::*;
use crate::error::MmiError;
use crate::json::{
    json_as_array, json_as_bool, json_as_i64, json_as_str, json_is_null, json_is_object,
    json_obj_entries, json_obj_get, json_parse, json_parse_of, json_text_of, json_to_text,
    json_view, obj_field, JsonData,
};
use crate::payload::{deliver_payload, deliver_spec, delivered};
use crate::text::{byte_len, exceeds_bytes, str_eq};

verus! {

/// The metadata payload this module reports.
pub const SAMPLE_INFO: &'static str = "{\n    \"Name\": \"Rust Sample\",\n    \"Description\": \"A sample module written in Rust\",\n    \"Manufacturer\": \"Microsoft\",\n    \"VersionMajor\": 1,\n    \"VersionMinor\": 0,\n    \"VersionInfo\": \"\",\n    \"Components\": [\"SampleComponent\"],\n    \"Lifetime\": 1,\n    \"UserAccount\": 0}";

/// The sample module: a size limit and one stored payload per slot.
pub struct Sample {
    max_payload_size_bytes: u32,
    string_value: String,
    integer_value: String,
    boolean_value: String,
    object_value: String,
    object_array_value: String,
}

/// The abstract state of the sample module.
pub struct SampleView {
    pub max_payload_size_bytes: u32,
    pub string_value: Seq<char>,
    pub integer_value: Seq<char>,
    pub boolean_value: Seq<char>,
    pub object_value: Seq<char>,
    pub object_array_value: Seq<char>,
}

impl View for Sample {
    type V = SampleView;

    closed spec fn view(&self) -> SampleView {
        SampleView {
            max_payload_size_bytes: self.max_payload_size_bytes,
            string_value: self.string_value@,
            integer_value: self.integer_value@,
            boolean_value: self.boolean_value@,
            object_value: self.object_value@,
            object_array_value: self.object_array_value@,
        }
    }
}

/// The stored payload a reported object name selects, if it is one of the
/// module's five reported slots.
pub open spec fn reported_slot(v: SampleView, object: Seq<char>) -> Option<Seq<char>> {
    if object == "reportedStringObject"@ {
        Option::Some(v.string_value)
    } else if object == "reportedBooleanObject"@ {
        Option::Some(v.boolean_value)
    } else if object == "reportedIntegerObject"@ {
        Option::Some(v.integer_value)
    } else if object == "reportedObject"@ {
        Option::Some(v.object_value)
    } else if object == "reportedArrayObject"@ {
        Option::Some(v.object_array_value)
    } else {
        Option::None
    }
}

/// Whether the object name is one of the module's five desired slots.
pub open spec fn is_desired_slot(object: Seq<char>) -> bool {
    ||| object == "desiredStringObject"@
    ||| object == "desiredBooleanObject"@
    ||| object == "desiredIntegerObject"@
    ||| object == "desiredObject"@
    ||| object == "desiredArrayObject"@
}

/// Whether a document is an integer in the signed 32-bit range.
pub open spec fn is_i32(d: JsonData) -> bool {
    d matches JsonData::Int(i) && i32::MIN <= i <= i32::MAX
}

/// Whether every element of an array is a string.
pub open spec fn all_str(es: Seq<JsonData>) -> bool {
    forall|i: int| 0 <= i < es.len() ==> (#[trigger] es[i]) is Str
}

/// Whether every element of an array is a signed 32-bit integer.
pub open spec fn all_i32(es: Seq<JsonData>) -> bool {
    forall|i: int| 0 <= i < es.len() ==> is_i32(#[trigger] es[i])
}

/// Whether every value of an object is a string or null.
pub open spec fn all_values_str_or_null(m: Seq<(Seq<char>, JsonData)>) -> bool {
    forall|i: int| 0 <= i < m.len() ==> ((#[trigger] m[i]).1 is Str || m[i].1 is Null)
}

/// Whether every value of an object is a signed 32-bit integer or null.
pub open spec fn all_values_i32_or_null(m: Seq<(Seq<char>, JsonData)>) -> bool {
    forall|i: int| 0 <= i < m.len() ==> (is_i32((#[trigger] m[i]).1) || m[i].1 is Null)
}

/// The declared shape of the sample object: each of its nine settings
/// present with its declared type — the integer enumeration one of its
/// three codes, the string enumeration one of its three words, the maps
/// holding nullable values.  Unknown extra fields are ignored, as the wire
/// decoding ignores them.
pub open spec fn object_schema_ok(d: JsonData) -> bool {
    d matches JsonData::Obj(es) && {
        &&& obj_field(es, "stringSetting"@) matches Option::Some(f) && f is Str
        &&& obj_field(es, "booleanSetting"@) matches Option::Some(f) && f is Bool
        &&& obj_field(es, "integerSetting"@) matches Option::Some(f) && is_i32(f)
        &&& obj_field(es, "integerEnumerationSetting"@) matches Option::Some(f) && (f
            == JsonData::Int(0) || f == JsonData::Int(1) || f == JsonData::Int(2))
        &&& obj_field(es, "stringEnumerationSetting"@) matches Option::Some(JsonData::Str(w)) && (w
            == "none"@ || w == "value1"@ || w == "value2"@)
        &&& obj_field(es, "stringArraySetting"@) matches Option::Some(JsonData::Arr(a)) && all_str(
            a,
        )
        &&& obj_field(es, "integerArraySetting"@) matches Option::Some(JsonData::Arr(a)) && all_i32(
            a,
        )
        &&& obj_field(es, "stringMapSetting"@) matches Option::Some(JsonData::Obj(m))
            && all_values_str_or_null(m)
        &&& obj_field(es, "integerMapSetting"@) matches Option::Some(JsonData::Obj(m))
            && all_values_i32_or_null(m)
    }
}

/// Whether a payload's content has the shape its slot requires: a string, a
/// boolean, a signed 32-bit integer, an object of the declared schema, or an
/// array of such objects.
pub open spec fn slot_accepts(object: Seq<char>, d: JsonData) -> bool {
    if object == "desiredStringObject"@ {
        d is Str
    } else if object == "desiredBooleanObject"@ {
        d is Bool
    } else if object == "desiredIntegerObject"@ {
        is_i32(d)
    } else if object == "desiredObject"@ {
        object_schema_ok(d)
    } else if object == "desiredArrayObject"@ {
        d matches JsonData::Arr(es) && (forall|i: int|
            0 <= i < es.len() ==> object_schema_ok(#[trigger] es[i]))
    } else {
        false
    }
}

/// The module state after storing a payload's canonical text into a slot.
pub open spec fn with_slot(v: SampleView, object: Seq<char>, text: Seq<char>) -> SampleView {
    if object == "desiredStringObject"@ {
        SampleView { string_value: text, ..v }
    } else if object == "desiredBooleanObject"@ {
        SampleView { boolean_value: text, ..v }
    } else if object == "desiredIntegerObject"@ {
        SampleView { integer_value: text, ..v }
    } else if object == "desiredObject"@ {
        SampleView { object_value: text, ..v }
    } else {
        SampleView { object_array_value: text, ..v }
    }
}

/// Checks that a document is an integer in the signed 32-bit range.
fn check_i32(f: &serde_json::Value) -> (r: bool)
    ensures
        r == is_i32(json_view(*f)),
{
    match json_as_i64(f) {
        Some(n) => i32::MIN as i64 <= n && n <= i32::MAX as i64,
        None => false,
    }
}

/// Checks that every element of an array is a string.
fn elems_all_str(elems: &Vec<serde_json::Value>) -> (r: bool)
    ensures
        r == (forall|k: int| 0 <= k < elems@.len() ==> json_view(#[trigger] elems@[k]) is Str),
{
    let n = elems.len();
    let mut i: usize = 0;
    while i < n
        invariant
            i <= n,
            n == elems@.len(),
            forall|k: int| 0 <= k < i ==> json_view(#[trigger] elems@[k]) is Str,
        decreases n - i,
    {
        if json_as_str(&elems[i]).is_none() {
            return false;
        }
        i = i + 1;
    }
    true
}

/// Checks that every element of an array is a signed 32-bit integer.
fn elems_all_i32(elems: &Vec<serde_json::Value>) -> (r: bool)
    ensures
        r == (forall|k: int| 0 <= k < elems@.len() ==> is_i32(json_view(#[trigger] elems@[k]))),
{
    let n = elems.len();
    let mut i: usize = 0;
    while i < n
        invariant
            i <= n,
            n == elems@.len(),
            forall|k: int| 0 <= k < i ==> is_i32(json_view(#[trigger] elems@[k])),
        decreases n - i,
    {
        if !check_i32(&elems[i]) {
            return false;
        }
        i = i + 1;
    }
    true
}

/// Checks that every value of an object is a string or null.
fn values_all_str_or_null(es: &Vec<(String, serde_json::Value)>) -> (r: bool)
    ensures
        r == (forall|k: int|
            0 <= k < es@.len() ==> (json_view((#[trigger] es@[k]).1) is Str || json_view(
                es@[k].1,
            ) is Null)),
{
    let n = es.len();
    let mut i: usize = 0;
    while i < n
        invariant
            i <= n,
            n == es@.len(),
            forall|k: int|
                0 <= k < i ==> (json_view((#[trigger] es@[k]).1) is Str || json_view(
                    es@[k].1,
                ) is Null),
        decreases n - i,
    {
        let val = &es[i].1;
        if !(json_is_null(val) || json_as_str(val).is_some()) {
            return false;
        }
        i = i + 1;
    }
    true
}

/// Checks that every value of an object is a signed 32-bit integer or null.
fn values_all_i32_or_null(es: &Vec<(String, serde_json::Value)>) -> (r: bool)
    ensures
        r == (forall|k: int|
            0 <= k < es@.len() ==> (is_i32(json_view((#[trigger] es@[k]).1)) || json_view(
                es@[k].1,
            ) is Null)),
{
    let n = es.len();
    let mut i: usize = 0;
    while i < n
        invariant
            i <= n,
            n == es@.len(),
            forall|k: int|
                0 <= k < i ==> (is_i32(json_view((#[trigger] es@[k]).1)) || json_view(
                    es@[k].1,
                ) is Null),
        decreases n - i,
    {
        let val = &es[i].1;
        if !(json_is_null(val) || check_i32(val)) {
            return false;
        }
        i = i + 1;
    }
    true
}

/// Checks a document against the sample object's declared shape.
fn object_schema_check(v: &serde_json::Value) -> (r: bool)
    ensures
        r == object_schema_ok(json_view(*v)),
{
    if !json_is_object(v) {
        return false;
    }
    let f = match json_obj_get(v, "stringSetting") {
        Some(f) => f,
        None => {
            return false;
        },
    };
    if json_as_str(f).is_none() {
        return false;
    }
    let f = match json_obj_get(v, "booleanSetting") {
        Some(f) => f,
        None => {
            return false;
        },
    };
    if json_as_bool(f).is_none() {
        return false;
    }
    let f = match json_obj_get(v, "integerSetting") {
        Some(f) => f,
        None => {
            return false;
        },
    };
    if !check_i32(f) {
        return false;
    }
    let f = match json_obj_get(v, "integerEnumerationSetting") {
        Some(f) => f,
        None => {
            return false;
        },
    };
    match json_as_i64(f) {
        Some(n) => {
            if !(n == 0 || n == 1 || n == 2) {
                return false;
            }
        },
        None => {
            return false;
        },
    }
    let f = match json_obj_get(v, "stringEnumerationSetting") {
        Some(f) => f,
        None => {
            return false;
        },
    };
    match json_as_str(f) {
        Some(w) => {
            if !(str_eq(w, "none") || str_eq(w, "value1") || str_eq(w, "value2")) {
                return false;
            }
        },
        None => {
            return false;
        },
    }
    let f = match json_obj_get(v, "stringArraySetting") {
        Some(f) => f,
        None => {
            return false;
        },
    };
    match json_as_array(f) {
        Some(elems) => {
            let ghost a = json_view(*f)->Arr_0;
            let ok = elems_all_str(elems);
            proof {
                if ok {
                    assert forall|k: int| 0 <= k < a.len() implies (#[trigger] a[k]) is Str by {
                        assert(json_view(elems@[k]) is Str);
                    }
                } else {
                    let k = choose|k: int|
                        0 <= k < elems@.len() && !(json_view(#[trigger] elems@[k]) is Str);
                    assert(!(a[k] is Str));
                }
                assert(ok == all_str(a));
            }
            if !ok {
                return false;
            }
        },
        None => {
            return false;
        },
    }
    let f = match json_obj_get(v, "integerArraySetting") {
        Some(f) => f,
        None => {
            return false;
        },
    };
    match json_as_array(f) {
        Some(elems) => {
            let ghost a = json_view(*f)->Arr_0;
            let ok = elems_all_i32(elems);
            proof {
                if ok {
                    assert forall|k: int| 0 <= k < a.len() implies is_i32(#[trigger] a[k]) by {
                        assert(is_i32(json_view(elems@[k])));
                    }
                } else {
                    let k = choose|k: int|
                        0 <= k < elems@.len() && !is_i32(json_view(#[trigger] elems@[k]));
                    assert(!is_i32(a[k]));
                }
                assert(ok == all_i32(a));
            }
            if !ok {
                return false;
            }
        },
        None => {
            return false;
        },
    }
    let f = match json_obj_get(v, "stringMapSetting") {
        Some(f) => f,
        None => {
            return false;
        },
    };
    match json_obj_entries(f) {
        Some(es) => {
            let ghost m = json_view(*f)->Obj_0;
            let ok = values_all_str_or_null(&es);
            proof {
                if ok {
                    assert forall|k: int| 0 <= k < m.len() implies ((#[trigger] m[k]).1 is Str
                        || m[k].1 is Null) by {
                        assert(json_view(es@[k].1) == m[k].1);
                    }
                } else {
                    let k = choose|k: int|
                        0 <= k < es@.len() && !(json_view((#[trigger] es@[k]).1) is Str
                            || json_view(es@[k].1) is Null);
                    assert(json_view(es@[k].1) == m[k].1);
                    assert(!(m[k].1 is Str || m[k].1 is Null));
                }
                assert(ok == all_values_str_or_null(m));
            }
            if !ok {
                return false;
            }
        },
        None => {
            return false;
        },
    }
    let f = match json_obj_get(v, "integerMapSetting") {
        Some(f) => f,
        None => {
            return false;
        },
    };
    match json_obj_entries(f) {
        Some(es) => {
            let ghost m = json_view(*f)->Obj_0;
            let ok = values_all_i32_or_null(&es);
            proof {
                if ok {
                    assert forall|k: int| 0 <= k < m.len() implies (is_i32((#[trigger] m[k]).1)
                        || m[k].1 is Null) by {
                        assert(json_view(es@[k].1) == m[k].1);
                    }
                } else {
                    let k = choose|k: int|
                        0 <= k < es@.len() && !(is_i32(json_view((#[trigger] es@[k]).1))
                            || json_view(es@[k].1) is Null);
                    assert(json_view(es@[k].1) == m[k].1);
                    assert(!(is_i32(m[k].1) || m[k].1 is Null));
                }
                assert(ok == all_values_i32_or_null(m));
            }
            if !ok {
                return false;
            }
        },
        None => {
            return false;
        },
    }
    true
}

impl Sample {
    /// Builds the module with its size limit; every slot starts at the
    /// canonical text of its default value.
    pub fn new(max_payload_size_bytes: u32) -> (r: Sample)
        ensures
            r@.max_payload_size_bytes == max_payload_size_bytes,
            r@.string_value == "\"\""@,
            r@.integer_value == "0"@,
            r@.boolean_value == "false"@,
            r@.object_value
                == "{\"stringSetting\":\"\",\"booleanSetting\":false,\"integerSetting\":0,\"integerEnumerationSetting\":0,\"stringEnumerationSetting\":\"none\",\"stringArraySetting\":[],\"integerArraySetting\":[],\"stringMapSetting\":{},\"integerMapSetting\":{}}"@,
            r@.object_array_value == "[]"@,
    {
        Sample {
            max_payload_size_bytes,
            string_value: String::from_str("\"\""),
            integer_value: String::from_str("0"),
            boolean_value: String::from_str("false"),
            object_value: String::from_str(
                "{\"stringSetting\":\"\",\"booleanSetting\":false,\"integerSetting\":0,\"integerEnumerationSetting\":0,\"stringEnumerationSetting\":\"none\",\"stringArraySetting\":[],\"integerArraySetting\":[],\"stringMapSetting\":{},\"integerMapSetting\":{}}",
            ),
            object_array_value: String::from_str("[]"),
        }
    }

    /// The module's metadata payload; the client name plays no part in it.
    pub fn get_info(_client_name: &str) -> (r: Result<&'static str, MmiError>)
        ensures
            r matches Ok(s) && s@ == SAMPLE_INFO@,
    {
        Ok(SAMPLE_INFO)
    }

    /// The size limit this module was opened with.
    pub fn get_max_payload_size_bytes(&self) -> (r: u32)
        ensures
            r == self@.max_payload_size_bytes,
    {
        self.max_payload_size_bytes
    }

    /// Serves a host read: the component must match and the object must be a
    /// reported slot, on pain of the invalid-argument error; the slot's
    /// stored payload is delivered under the size limit.
    pub fn get(&self, component_name: &str, object_name: &str) -> (r: Result<String, MmiError>)
        ensures
            component_name@ != "SampleComponent"@ ==> r == Err::<String, MmiError>(
                MmiError::InvalidArgument,
            ),
            component_name@ == "SampleComponent"@ && reported_slot(self@, object_name@) is None
                ==> r == Err::<String, MmiError>(MmiError::InvalidArgument),
            component_name@ == "SampleComponent"@ ==> (reported_slot(self@, object_name@) matches
            Option::Some(p) ==> delivered(r, deliver_spec(p, self@.max_payload_size_bytes))),
    {
        if !str_eq(component_name, "SampleComponent") {
            return Err(MmiError::InvalidArgument);
        }
        let payload: String = if str_eq(object_name, "reportedStringObject") {
            self.string_value.clone()
        } else if str_eq(object_name, "reportedBooleanObject") {
            self.boolean_value.clone()
        } else if str_eq(object_name, "reportedIntegerObject") {
            self.integer_value.clone()
        } else if str_eq(object_name, "reportedObject") {
            self.object_value.clone()
        } else if str_eq(object_name, "reportedArrayObject") {
            self.object_array_value.clone()
        } else {
            return Err(MmiError::InvalidArgument);
        };
        deliver_payload(payload, self.max_payload_size_bytes)
    }

    /// Serves a host write: the component must match; a payload over the
    /// size limit is rejected; the object must be a desired slot; the
    /// payload must be well-formed JSON of the slot's declared shape, whose
    /// canonical text then replaces the slot's stored payload.  On every
    /// failure the module is unchanged.
    pub fn set(&mut self, component_name: &str, object_name: &str, payload: &str) -> (r: Result<
        i32,
        MmiError,
    >)
        ensures
            component_name@ != "SampleComponent"@ ==> r == Err::<i32, MmiError>(
                MmiError::InvalidArgument,
            ) && final(self)@ == old(self)@,
            component_name@ == "SampleComponent"@ && old(self)@.max_payload_size_bytes != 0
                && byte_len(payload@) > old(self)@.max_payload_size_bytes ==> r == Err::<
                i32,
                MmiError,
            >(MmiError::PayloadSizeExceeded) && final(self)@ == old(self)@,
            component_name@ == "SampleComponent"@ && !(old(self)@.max_payload_size_bytes != 0
                && byte_len(payload@) > old(self)@.max_payload_size_bytes) ==> {
                if !is_desired_slot(object_name@) {
                    r == Err::<i32, MmiError>(MmiError::InvalidArgument) && final(self)@ == old(self)@
                } else {
                    match json_parse_of(payload@) {
                        Option::Some(d) => if slot_accepts(object_name@, d) {
                            r == Ok::<i32, MmiError>(0) && final(self)@ == with_slot(
                                old(self)@,
                                object_name@,
                                json_text_of(d),
                            )
                        } else {
                            r == Err::<i32, MmiError>(MmiError::SerdeError) && final(self)@ == old(self)@
                        },
                        Option::None => r == Err::<i32, MmiError>(MmiError::SerdeError) && final(self)@ == old(self)@,
                    }
                }
            },
    {
        if !str_eq(component_name, "SampleComponent") {
            return Err(MmiError::InvalidArgument);
        }
        if self.max_payload_size_bytes != 0 && exceeds_bytes(payload, self.max_payload_size_bytes) {
            return Err(MmiError::PayloadSizeExceeded);
        }
        let is_string = str_eq(object_name, "desiredStringObject");
        let is_boolean = str_eq(object_name, "desiredBooleanObject");
        let is_integer = str_eq(object_name, "desiredIntegerObject");
        let is_object = str_eq(object_name, "desiredObject");
        let is_array = str_eq(object_name, "desiredArrayObject");
        if !(is_string || is_boolean || is_integer || is_object || is_array) {
            return Err(MmiError::InvalidArgument);
        }
        let v = match json_parse(payload) {
            Some(v) => v,
            None => {
                return Err(MmiError::SerdeError);
            },
        };
        let accepted: bool = if is_string {
            json_as_str(&v).is_some()
        } else if is_boolean {
            json_as_bool(&v).is_some()
        } else if is_integer {
            match json_as_i64(&v) {
                Some(n) => i32::MIN as i64 <= n && n <= i32::MAX as i64,
                None => false,
            }
        } else if is_object {
            object_schema_check(&v)
        } else {
            match json_as_array(&v) {
                Some(elems) => {
                    let ghost dv = crate::json::json_view(v);
                    let ghost es = dv->Arr_0;
                    let mut all_objects = true;
                    let mut i: usize = 0;
                    let n = elems.len();
                    while i < n
                        invariant
                            i <= n,
                            n == elems@.len(),
                            dv == crate::json::json_view(v),
                            dv matches JsonData::Arr(e) && e == es,
                            es.len() == n,
                            forall|k: int|
                                0 <= k < n ==> crate::json::json_view(#[trigger] elems@[k])
                                    == es[k],
                            all_objects == (forall|k: int|
                                0 <= k < i ==> object_schema_ok(#[trigger] es[k])),
                        decreases n - i,
                    {
                        if !object_schema_check(&elems[i]) {
                            all_objects = false;
                            proof {
                                assert(!object_schema_ok(es[i as int]));
                            }
                        }
                        i = i + 1;
                    }
                    all_objects
                },
                None => false,
            }
        };
        if !accepted {
            return Err(MmiError::SerdeError);
        }
        let text = json_to_text(&v);
        if is_string {
            self.string_value = text;
        } else if is_boolean {
            self.boolean_value = text;
        } else if is_integer {
            self.integer_value = text;
        } else if is_object {
            self.object_value = text;
        } else {
            self.object_array_value = text;
        }
        Ok(0)
    }
}

} // verus!
