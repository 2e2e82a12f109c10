use vstd::prelude::*;

use crate::error::FetchError;

verus! {

/// A decoded response payload, modelled as far as the crawler reads one: the
/// discovery payload is an array of objects each carrying a string under
/// `name`, and a search payload is an object whose `results` array carries a
/// numeric identifier under `namus2Number` in each element. Everything else
/// about a payload is opaque to the crawler.
pub enum JsonValue {
    Null,
    Bool(bool),
    /// A numeric value representable as an unsigned 64-bit integer — the
    /// only kind of number the crawler reads.
    UInt(u64),
    /// A numeric value outside that range (negative or fractional); reading
    /// it as an identifier fails.
    OtherNumber,
    Str(String),
    Array(Vec<JsonValue>),
    Object(Vec<(String, JsonValue)>),
}

/// The value bound to `key` in an object's fields: the first binding wins.
pub open spec fn spec_lookup(fields: Seq<(String, JsonValue)>, key: Seq<char>) -> Option<
    JsonValue,
>
    decreases fields.len(),
{
    if fields.len() == 0 {
        None
    } else if fields[0].0@ == key {
        Some(fields[0].1)
    } else {
        spec_lookup(fields.drop_first(), key)
    }
}

/// Find the value bound to `key` among an object's fields.
pub fn lookup<'a>(fields: &'a Vec<(String, JsonValue)>, key: &String) -> (r: Option<
    &'a JsonValue,
>)
    ensures
        match r {
            Some(v) => spec_lookup(fields@, key@) == Some(*v),
            None => spec_lookup(fields@, key@) is None,
        },
{
    let n = fields.len();
    let mut j: usize = 0;
    proof {
        assert(fields@.skip(0) =~= fields@);
    }
    while j < n
        invariant
            n == fields@.len(),
            j <= n,
            spec_lookup(fields@, key@) == spec_lookup(fields@.skip(j as int), key@),
        decreases n - j,
    {
        let entry = &fields[j];
        proof {
            assert(fields@.skip(j as int)[0] == fields@[j as int]);
        }
        if entry.0 == *key {
            return Some(&entry.1);
        }
        proof {
            assert(fields@.skip(j as int).drop_first() =~= fields@.skip(j as int + 1));
        }
        j = j + 1;
    }
    proof {
        assert(fields@.skip(n as int) =~= Seq::<(String, JsonValue)>::empty());
    }
    None
}

/// The partition name carried by one element of a discovery payload, if the
/// element is an object with a string bound to `name`.
pub open spec fn spec_element_name(e: JsonValue) -> Option<String> {
    match e {
        JsonValue::Object(fields) => match spec_lookup(fields@, "name"@) {
            Some(JsonValue::Str(s)) => Some(s),
            _ => None,
        },
        _ => None,
    }
}

/// What a discovery payload yields: the partition names in payload order
/// when the payload is an array whose every element carries a string-valued
/// `name`, and a bad-response failure for any other shape.
pub open spec fn spec_partition_names(v: JsonValue) -> Result<Seq<String>, FetchError> {
    match v {
        JsonValue::Array(elems) => if forall|i: int|
            0 <= i < elems@.len() ==> spec_element_name(#[trigger] elems@[i]) is Some {
            Ok(Seq::new(elems@.len(), |i: int| spec_element_name(elems@[i])->Some_0))
        } else {
            Err(FetchError::BadResponse)
        },
        _ => Err(FetchError::BadResponse),
    }
}

/// Read the partition names out of a discovery payload.
#[verifier::loop_isolation(false)]
pub fn partition_names(v: &JsonValue) -> (r: Result<Vec<String>, FetchError>)
    ensures
        r is Ok <==> spec_partition_names(*v) is Ok,
        r is Ok ==> r->Ok_0@ == spec_partition_names(*v)->Ok_0,
        r is Err ==> r->Err_0 == spec_partition_names(*v)->Err_0,
{
    match v {
        JsonValue::Array(elems) => {
            let n = elems.len();
            let key = "name".to_owned();
            let mut out: Vec<String> = Vec::new();
            let mut j: usize = 0;
            while j < n
                invariant
                    n == elems@.len(),
                    j <= n,
                    key@ == "name"@,
                    out@.len() == j,
                    forall|i: int|
                        0 <= i < j ==> spec_element_name(#[trigger] elems@[i]) is Some,
                    forall|i: int|
                        0 <= i < j ==> out@[i] == spec_element_name(#[trigger] elems@[i])->Some_0,
                decreases n - j,
            {
                match &elems[j] {
                    JsonValue::Object(fields) => {
                        match lookup(fields, &key) {
                            Some(val) => match val {
                                JsonValue::Str(s) => {
                                    out.push(s.clone());
                                },
                                _ => {
                                    assert(spec_element_name(elems@[j as int]) is None);
                                    return Err(FetchError::BadResponse);
                                },
                            },
                            None => {
                                assert(spec_element_name(elems@[j as int]) is None);
                                return Err(FetchError::BadResponse);
                            },
                        }
                    },
                    _ => {
                        assert(spec_element_name(elems@[j as int]) is None);
                        return Err(FetchError::BadResponse);
                    },
                }
                j = j + 1;
            }
            proof {
                assert(out@ =~= Seq::new(
                    elems@.len(),
                    |i: int| spec_element_name(elems@[i])->Some_0,
                ));
            }
            Ok(out)
        },
        _ => Err(FetchError::BadResponse),
    }
}

/// The record identifier carried by one element of a search payload's
/// `results` array, if the element is an object with an unsigned number
/// bound to `namus2Number`.
pub open spec fn spec_element_id(e: JsonValue) -> Option<u64> {
    match e {
        JsonValue::Object(fields) => match spec_lookup(fields@, "namus2Number"@) {
            Some(JsonValue::UInt(id)) => Some(id),
            _ => None,
        },
        _ => None,
    }
}

/// What a search payload yields: the record identifiers of `results` in
/// payload order when the payload is an object with a `results` array whose
/// every element carries a numeric identifier, and a bad-response failure
/// for any other shape.
pub open spec fn spec_case_identifiers(v: JsonValue) -> Result<Seq<u64>, FetchError> {
    match v {
        JsonValue::Object(fields) => match spec_lookup(fields@, "results"@) {
            Some(JsonValue::Array(elems)) => if forall|i: int|
                0 <= i < elems@.len() ==> spec_element_id(#[trigger] elems@[i]) is Some {
                Ok(Seq::new(elems@.len(), |i: int| spec_element_id(elems@[i])->Some_0))
            } else {
                Err(FetchError::BadResponse)
            },
            _ => Err(FetchError::BadResponse),
        },
        _ => Err(FetchError::BadResponse),
    }
}

/// Read the record identifiers out of a search payload.
#[verifier::loop_isolation(false)]
pub fn case_identifiers(v: &JsonValue) -> (r: Result<Vec<u64>, FetchError>)
    ensures
        r is Ok <==> spec_case_identifiers(*v) is Ok,
        r is Ok ==> r->Ok_0@ == spec_case_identifiers(*v)->Ok_0,
        r is Err ==> r->Err_0 == spec_case_identifiers(*v)->Err_0,
{
    match v {
        JsonValue::Object(fields) => {
            let results_key = "results".to_owned();
            match lookup(fields, &results_key) {
                Some(val) => match val {
                    JsonValue::Array(elems) => {
                        let n = elems.len();
                        let id_key = "namus2Number".to_owned();
                        let mut out: Vec<u64> = Vec::new();
                        let mut j: usize = 0;
                        while j < n
                            invariant
                                n == elems@.len(),
                                j <= n,
                                id_key@ == "namus2Number"@,
                                out@.len() == j,
                                forall|i: int|
                                    0 <= i < j ==> spec_element_id(#[trigger] elems@[i]) is Some,
                                forall|i: int|
                                    0 <= i < j ==> out@[i] == spec_element_id(
                                        #[trigger] elems@[i],
                                    )->Some_0,
                            decreases n - j,
                        {
                            match &elems[j] {
                                JsonValue::Object(efields) => {
                                    match lookup(efields, &id_key) {
                                        Some(idval) => match idval {
                                            JsonValue::UInt(id) => {
                                                out.push(*id);
                                            },
                                            _ => {
                                                assert(spec_element_id(elems@[j as int]) is None);
                                                return Err(FetchError::BadResponse);
                                            },
                                        },
                                        None => {
                                            assert(spec_element_id(elems@[j as int]) is None);
                                            return Err(FetchError::BadResponse);
                                        },
                                    }
                                },
                                _ => {
                                    assert(spec_element_id(elems@[j as int]) is None);
                                    return Err(FetchError::BadResponse);
                                },
                            }
                            j = j + 1;
                        }
                        proof {
                            assert(out@ =~= Seq::new(
                                elems@.len(),
                                |i: int| spec_element_id(elems@[i])->Some_0,
                            ));
                        }
                        Ok(out)
                    },
                    _ => Err(FetchError::BadResponse),
                },
                None => Err(FetchError::BadResponse),
            }
        },
        _ => Err(FetchError::BadResponse),
    }
}

/// Reading a search payload is idempotent: the identifier extraction is a
/// pure function of the payload, so two readings of the same payload — as
/// when the same partition is searched again against an unchanged remote
/// state — agree exactly.
pub proof fn lemma_search_extraction_idempotent(
    v: JsonValue,
    r1: Result<Seq<u64>, FetchError>,
    r2: Result<Seq<u64>, FetchError>,
)
    requires
        r1 == spec_case_identifiers(v),
        r2 == spec_case_identifiers(v),
    ensures
        r1 == r2,
{
}

} // verus!
