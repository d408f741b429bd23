//! Hermes values in JSON.

use vstd::prelude::*;

use crate::convert::command::{
    hermes_value_to_json, json_of, json_outcome, lemma_json_array_fails_as_its_first_failure,
    lemma_json_array_keeps_its_items, lemma_json_object_fails_as_its_first_failure,
    lemma_json_object_keeps_its_members,
};
use crate::hermes::value;
use crate::hermes::{ArrayValue, ObjectValue, Value};
use crate::json::{JsonNumber, JsonValue};
use crate::status::{Code, Status};

verus! {

/// The JSON number is the integer `n`, however it is held.
pub open spec fn says_integer(json: JsonValue, n: int) -> bool {
    match json {
        JsonValue::Number(JsonNumber::Signed(i)) => i == n,
        JsonValue::Number(JsonNumber::Unsigned(u)) => u == n,
        _ => false,
    }
}

/// The JSON form of a scalar says what the scalar says: the same integer, float, truth value or
/// text; of an enumeration constant its number; and null where there is no value. A float that is
/// infinite or not a number, and raw bytes, have no JSON form.
pub proof fn law_scalar_keeps_what_it_says(value: &Value, result: Result<JsonValue, Status>)
    requires
        call_ensures(hermes_value_to_json, (value,), result),
    ensures
        value.value is None ==> result == Ok::<JsonValue, Status>(JsonValue::Null),
        value.value matches Some(value::Value::I(i)) ==> (result matches Ok(json) && says_integer(
            json,
            i as int,
        )),
        value.value matches Some(value::Value::U(u)) ==> (result matches Ok(json) && says_integer(
            json,
            u as int,
        )),
        value.value matches Some(value::Value::E(e)) ==> (result matches Ok(json) && says_integer(
            json,
            e.raw as int,
        )),
        value.value matches Some(value::Value::B(b)) ==> result == Ok::<JsonValue, Status>(
            JsonValue::Bool(b),
        ),
        value.value matches Some(value::Value::S(s)) ==> (result matches Ok(JsonValue::String(t))
            && t@ == s@),
        value.value matches Some(value::Value::F(f)) ==> if f.bits % 0x8000_0000_0000_0000
            < 0x7FF0_0000_0000_0000 {
            result == Ok::<JsonValue, Status>(JsonValue::Number(JsonNumber::Float(f)))
        } else {
            result matches Err(status) && status.code == Code::InvalidArgument
                && status.message@ == "Invalid float value"@
        },
        value.value matches Some(value::Value::R(_)) ==> (result matches Err(status) && status.code
            == Code::Unimplemented && status.message@ == "Bytes conversion not yet implemented"@),
{
}

/// A list becomes an array of as many items, and each item of it is what the item at the same
/// place becomes alone. Where items have no JSON form, the list fails as the first of them does.
pub proof fn law_list_goes_item_by_item(
    value: &Value,
    list: ArrayValue,
    results: Seq<Result<JsonValue, Status>>,
    result: Result<JsonValue, Status>,
)
    requires
        value.value == Some(value::Value::A(list)),
        call_ensures(hermes_value_to_json, (value,), result),
        results.len() == list.value@.len(),
        forall|i: int|
            0 <= i < results.len() ==> call_ensures(
                hermes_value_to_json,
                (&list.value@[i],),
                #[trigger] results[i],
            ),
    ensures
        (forall|i: int| 0 <= i < results.len() ==> (#[trigger] results[i]) is Ok) ==> (
        result matches Ok(JsonValue::Array(out)) && out@.len() == results.len() && forall|i: int|
            0 <= i < results.len() ==> (#[trigger] out@[i])@ == results[i]->Ok_0@),
        forall|k: int|
            0 <= k < results.len() && (#[trigger] results[k]) is Err && (forall|i: int|
                0 <= i < k ==> (#[trigger] results[i]) is Ok) ==> (result matches Err(status)
                && status.code == results[k]->Err_0.code && status.message@
                == results[k]->Err_0.message@),
{
    let items = value@->A_0;
    assert forall|i: int| 0 <= i < items.len() implies json_of(#[trigger] items[i])
        == json_outcome(results[i]) by {
        assert(items[i] == list.value@[i]@);
    }
    if forall|i: int| 0 <= i < results.len() ==> (#[trigger] results[i]) is Ok {
        lemma_json_array_fails_as_its_first_failure(items, items.len() as int);
        lemma_json_array_keeps_its_items(items, json_of(value@)->Ok_0->Array_0);
        let out = result->Ok_0->Array_0;
        assert forall|i: int| 0 <= i < results.len() implies (#[trigger] out@[i])@
            == results[i]->Ok_0@ by {
            assert(result->Ok_0@->Array_0[i] == out@[i]@);
            assert(json_of(items[i]) == json_outcome(results[i]));
        }
    }
    assert forall|k: int|
        0 <= k < results.len() && (#[trigger] results[k]) is Err && (forall|i: int|
            0 <= i < k ==> (#[trigger] results[i]) is Ok) implies (result matches Err(status)
        && status.code == results[k]->Err_0.code && status.message@
        == results[k]->Err_0.message@) by {
        lemma_json_array_fails_as_its_first_failure(items, k);
        assert(json_of(items[k]) == json_outcome(results[k]));
    }
}

/// An object becomes an object with the same names in the same order, and under each name stands
/// what its value becomes alone. Where values have no JSON form, the object fails as the first of
/// them does.
pub proof fn law_object_goes_member_by_member(
    value: &Value,
    object: ObjectValue,
    results: Seq<Result<JsonValue, Status>>,
    result: Result<JsonValue, Status>,
)
    requires
        object.o.wf(),
        value.value == Some(value::Value::O(object)),
        call_ensures(hermes_value_to_json, (value,), result),
        results.len() == object.o@.len(),
        forall|i: int|
            0 <= i < results.len() ==> call_ensures(
                hermes_value_to_json,
                (&object.o@[i].1,),
                #[trigger] results[i],
            ),
    ensures
        (forall|i: int| 0 <= i < results.len() ==> (#[trigger] results[i]) is Ok) ==> (
        result matches Ok(JsonValue::Object(out)) && out@.len() == results.len() && forall|i: int|
            0 <= i < results.len() ==> (#[trigger] out@[i]).0@ == object.o@[i].0@ && out@[i].1@
                == results[i]->Ok_0@),
        forall|k: int|
            0 <= k < results.len() && (#[trigger] results[k]) is Err && (forall|i: int|
                0 <= i < k ==> (#[trigger] results[i]) is Ok) ==> (result matches Err(status)
                && status.code == results[k]->Err_0.code && status.message@
                == results[k]->Err_0.message@),
{
    let members = value@->O_0;
    assert forall|i: int| 0 <= i < members.len() implies (#[trigger] members[i]).0
        == object.o@[i].0@ && json_of(members[i].1) == json_outcome(results[i]) by {
        assert(members[i].1 == object.o@[i].1@);
    }
    assert(crate::string_map::distinct_keys(members)) by {
        assert forall|i: int, j: int| 0 <= i < j < members.len() implies (#[trigger] members[i]).0
            != (#[trigger] members[j]).0 by {
            assert(object.o.keyed()[i].0 != object.o.keyed()[j].0);
        }
    }
    if forall|i: int| 0 <= i < results.len() ==> (#[trigger] results[i]) is Ok {
        lemma_json_object_fails_as_its_first_failure(members, members.len() as int);
        lemma_json_object_keeps_its_members(members, json_of(value@)->Ok_0->Object_0);
        let out = result->Ok_0->Object_0;
        assert forall|i: int| 0 <= i < results.len() implies (#[trigger] out@[i]).0@
            == object.o@[i].0@ && out@[i].1@ == results[i]->Ok_0@ by {
            assert(result->Ok_0@->Object_0[i] == (out@[i].0@, out@[i].1@));
            assert(members[i].0 == object.o@[i].0@);
        }
    }
    assert forall|k: int|
        0 <= k < results.len() && (#[trigger] results[k]) is Err && (forall|i: int|
            0 <= i < k ==> (#[trigger] results[i]) is Ok) implies (result matches Err(status)
        && status.code == results[k]->Err_0.code && status.message@
        == results[k]->Err_0.message@) by {
        lemma_json_object_fails_as_its_first_failure(members, k);
        assert(json_of(members[k].1) == json_outcome(results[k]));
    }
}

} // verus!
