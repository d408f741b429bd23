//! YAMCS values as Hermes values.

use vstd::prelude::*;

use crate::convert::hints::BinaryTypeHints;
use crate::convert::values::{
    binary_value, hermes_of, hints_view, lemma_aggregate_fails_as_its_first_failure,
    lemma_aggregate_names_are_distinct,
    lemma_array_fails_as_its_first_failure, lemma_array_keeps_its_items,
    lemma_member_goes_by_its_name, lemma_other_names_have_no_member, member_hints, value_outcome,
    yamcs_value_to_hermes,
};
use crate::encoding::base64_to_bytes;
use crate::float::{Float32, Float64};
use crate::hermes::value;
use crate::hermes::{member_views, NumberKind, Value};
use crate::status::{Code, Status};
use crate::string_map::{lemma_lookup_mapped, StringMap};
use crate::text::signed_decimal_text;
use crate::yamcs;
use crate::yamcs::{texts, AggregateValue};

verus! {

/// A scalar says the same on both sides: the same integer, float, truth value or text. An
/// enumerated value is its text, a timestamp its number in decimal, and no value stays none. Hints
/// have no say.
pub proof fn law_scalar_keeps_what_it_says(
    yamcs_value: &yamcs::Value,
    hints: Option<&BinaryTypeHints>,
    result: Result<Value, Status>,
)
    requires
        call_ensures(yamcs_value_to_hermes, (yamcs_value, hints), result),
    ensures
        *yamcs_value matches yamcs::Value::Double { double_value } ==> (result matches Ok(v)
            && v.value == Some(value::Value::F(double_value))),
        *yamcs_value matches yamcs::Value::Uint32 { uint32_value } ==> (result matches Ok(v)
            && v.value matches Some(value::Value::U(u)) && u == uint32_value),
        *yamcs_value matches yamcs::Value::Sint32 { sint32_value } ==> (result matches Ok(v)
            && v.value matches Some(value::Value::I(i)) && i == sint32_value),
        *yamcs_value matches yamcs::Value::Uint64 { uint64_value } ==> (result matches Ok(v)
            && v.value == Some(value::Value::U(uint64_value))),
        *yamcs_value matches yamcs::Value::Sint64 { sint64_value } ==> (result matches Ok(v)
            && v.value == Some(value::Value::I(sint64_value))),
        *yamcs_value matches yamcs::Value::Boolean { boolean_value } ==> (result matches Ok(v)
            && v.value == Some(value::Value::B(boolean_value))),
        *yamcs_value matches yamcs::Value::String { string_value } ==> (result matches Ok(v)
            && v.value matches Some(value::Value::S(s)) && s@ == string_value@),
        *yamcs_value matches yamcs::Value::Enumerated { string_value } ==> (result matches Ok(v)
            && v.value matches Some(value::Value::S(s)) && s@ == string_value@),
        *yamcs_value == yamcs::Value::NoValue ==> (result matches Ok(v) && v.value is None),
{
}

/// A single-precision value becomes the double that `widen` makes of it.
pub proof fn law_single_is_widened(
    single: Float32,
    yamcs_value: &yamcs::Value,
    hints: Option<&BinaryTypeHints>,
    wide: Float64,
    result: Result<Value, Status>,
)
    requires
        *yamcs_value == (yamcs::Value::Float { float_value: single }),
        call_ensures(Float32::widen, (single,), wide),
        call_ensures(yamcs_value_to_hermes, (yamcs_value, hints), result),
    ensures
        result matches Ok(v) && v.value == Some(value::Value::F(wide)),
{
}

/// A timestamp becomes its number in decimal.
pub proof fn law_timestamp_is_written_out(
    timestamp: i64,
    yamcs_value: &yamcs::Value,
    hints: Option<&BinaryTypeHints>,
    written: String,
    result: Result<Value, Status>,
)
    requires
        *yamcs_value == (yamcs::Value::Timestamp { timestamp_value: timestamp }),
        call_ensures(signed_decimal_text, (timestamp,), written),
        call_ensures(yamcs_value_to_hermes, (yamcs_value, hints), result),
    ensures
        result matches Ok(v) && v.value matches Some(value::Value::S(s)) && s@ == written@,
{
}

/// A binary value becomes the bytes that its base64 stands for: as numbers of the hinted type in
/// big-endian order where there is a hint for it, and as plain bytes where there is none. What is
/// not base64 is an invalid argument.
pub proof fn law_binary_is_decoded(
    text: &str,
    yamcs_value: &yamcs::Value,
    hints: Option<&BinaryTypeHints>,
    decoded: Result<Vec<u8>, String>,
    result: Result<Value, Status>,
)
    requires
        *yamcs_value matches yamcs::Value::Binary { binary_value } && binary_value@ == text@,
        call_ensures(base64_to_bytes, (text,), decoded),
        call_ensures(yamcs_value_to_hermes, (yamcs_value, hints), result),
    ensures
        match decoded {
            Ok(bytes) => {
                &&& result matches Ok(v)
                &&& v.value matches Some(value::Value::R(packed))
                &&& packed.value@ == bytes@
                &&& match hints {
                    Some(h) => match h.own_kind {
                        Some(kind) => packed.kind == kind && packed.big_endian,
                        None => packed.kind == NumberKind::NumberU8 && !packed.big_endian,
                    },
                    None => packed.kind == NumberKind::NumberU8 && !packed.big_endian,
                }
            },
            Err(reason) => {
                &&& result matches Err(status)
                &&& status.code == Code::InvalidArgument
                &&& status.message@ == "Invalid base64: "@ + reason@
            },
        },
{
}

/// An array becomes an array of as many items, and each item of it is what the item at the same
/// place becomes alone, without hints. Where items cannot be converted, the array fails as the
/// first of them does.
pub proof fn law_array_goes_item_by_item(
    yamcs_value: &yamcs::Value,
    items: Vec<yamcs::Value>,
    hints: Option<&BinaryTypeHints>,
    results: Seq<Result<Value, Status>>,
    result: Result<Value, Status>,
)
    requires
        *yamcs_value == (yamcs::Value::Array { array_value: items }),
        call_ensures(yamcs_value_to_hermes, (yamcs_value, hints), result),
        results.len() == items@.len(),
        forall|i: int|
            0 <= i < results.len() ==> call_ensures(
                yamcs_value_to_hermes,
                (&items@[i], None),
                #[trigger] results[i],
            ),
    ensures
        (forall|i: int| 0 <= i < results.len() ==> (#[trigger] results[i]) is Ok) ==> (
        result matches Ok(v) && v.value matches Some(value::Value::A(out)) && out.value@.len()
            == results.len() && forall|i: int|
            0 <= i < results.len() ==> (#[trigger] out.value@[i])@ == results[i]->Ok_0@),
        forall|k: int|
            0 <= k < results.len() && (#[trigger] results[k]) is Err && (forall|i: int|
                0 <= i < k ==> (#[trigger] results[i]) is Ok) ==> (result matches Err(status)
                && status.code == results[k]->Err_0.code && status.message@
                == results[k]->Err_0.message@),
{
    let views = yamcs_value@->Array_0;
    let known = hints_view(hints);
    assert forall|i: int| 0 <= i < views.len() implies hermes_of(#[trigger] views[i], None)
        == value_outcome(results[i]) by {
        assert(views[i] == items@[i]@);
    }
    if forall|i: int| 0 <= i < results.len() ==> (#[trigger] results[i]) is Ok {
        lemma_array_fails_as_its_first_failure(views, known, views.len() as int);
        lemma_array_keeps_its_items(views, known, hermes_of(yamcs_value@, known)->Ok_0->A_0);
        let out = result->Ok_0.value->0->A_0;
        assert forall|i: int| 0 <= i < results.len() implies (#[trigger] out.value@[i])@
            == results[i]->Ok_0@ by {
            assert(result->Ok_0@->A_0[i] == out.value@[i]@);
            assert(hermes_of(views[i], None) == value_outcome(results[i]));
        }
    }
    assert forall|k: int|
        0 <= k < results.len() && (#[trigger] results[k]) is Err && (forall|i: int|
            0 <= i < k ==> (#[trigger] results[i]) is Ok) implies (result matches Err(status)
        && status.code == results[k]->Err_0.code && status.message@
        == results[k]->Err_0.message@) by {
        lemma_array_fails_as_its_first_failure(views, known, k);
        assert(hermes_of(views[k], None) == value_outcome(results[k]));
    }
}

/// For each member that has a name and a value: `members[i]` is what the hints give for
/// `labels[i]`, which is the name of member `i`, and `results[i]` is what its value becomes with
/// that.
pub open spec fn converted_alone(
    aggregate: AggregateValue,
    hints: Option<&BinaryTypeHints>,
    labels: Seq<&str>,
    members: Seq<Option<&BinaryTypeHints>>,
    results: Seq<Result<Value, Status>>,
) -> bool {
    &&& results.len() == if aggregate.name@.len() < aggregate.value@.len() {
        aggregate.name@.len()
    } else {
        aggregate.value@.len()
    }
    &&& members.len() == results.len()
    &&& forall|i: int|
        0 <= i < members.len() ==> match hints {
            None => (#[trigger] members[i]) is None,
            Some(h) => labels[i]@ == aggregate.name@[i]@ && call_ensures(
                BinaryTypeHints::member,
                (h, labels[i]),
                members[i],
            ),
        }
    &&& forall|i: int|
        0 <= i < results.len() ==> call_ensures(
            yamcs_value_to_hermes,
            (&aggregate.value@[i], members[i]),
            #[trigger] results[i],
        )
}

proof fn lemma_converted_alone(
    yamcs_value: &yamcs::Value,
    aggregate: AggregateValue,
    hints: Option<&BinaryTypeHints>,
    labels: Seq<&str>,
    members: Seq<Option<&BinaryTypeHints>>,
    results: Seq<Result<Value, Status>>,
    i: int,
)
    requires
        *yamcs_value == (yamcs::Value::Aggregate { aggregate_value: aggregate }),
        converted_alone(aggregate, hints, labels, members, results),
        0 <= i < results.len(),
    ensures
        yamcs_value@->Aggregate_name == texts(aggregate.name@),
        yamcs_value@->Aggregate_value.len() == aggregate.value@.len(),
        hermes_of(
            yamcs_value@->Aggregate_value[i],
            member_hints(hints_view(hints), texts(aggregate.name@)[i]),
        ) == value_outcome(results[i]),
{
    assert(yamcs_value@->Aggregate_value[i] == aggregate.value@[i]@);
}

/// An aggregate becomes an object: under the name of each member stands what its value becomes
/// alone, with the hints for that name. Of members with one name the last stands.
pub proof fn law_aggregate_goes_member_by_member(
    yamcs_value: &yamcs::Value,
    aggregate: AggregateValue,
    hints: Option<&BinaryTypeHints>,
    labels: Seq<&str>,
    members: Seq<Option<&BinaryTypeHints>>,
    results: Seq<Result<Value, Status>>,
    result: Result<Value, Status>,
    name: &str,
    found: Option<&Value>,
)
    requires
        *yamcs_value == (yamcs::Value::Aggregate { aggregate_value: aggregate }),
        converted_alone(aggregate, hints, labels, members, results),
        call_ensures(yamcs_value_to_hermes, (yamcs_value, hints), result),
        forall|i: int| 0 <= i < results.len() ==> (#[trigger] results[i]) is Ok,
        result matches Ok(v) ==> (v.value matches Some(value::Value::O(object)) ==> call_ensures(
            StringMap::<Value>::get,
            (&object.o, name),
            found,
        )),
    ensures
        result matches Ok(v) && v.value matches Some(value::Value::O(object)) && object.o.wf(),
        forall|i: int|
            0 <= i < results.len() && (#[trigger] aggregate.name@[i])@ == name@ && (forall|j: int|
                i < j < results.len() ==> (#[trigger] aggregate.name@[j])@ != name@) ==> (
            found matches Some(member) && member@ == results[i]->Ok_0@),
        (forall|i: int| 0 <= i < results.len() ==> (#[trigger] aggregate.name@[i])@ != name@)
            ==> found is None,
{
    let names = texts(aggregate.name@);
    let values = yamcs_value@->Aggregate_value;
    let known = hints_view(hints);
    assert(names.len() == aggregate.name@.len());
    assert(yamcs_value@ == (yamcs::ValueView::Aggregate { name: names, value: values }));
    assert forall|i: int| 0 <= i < results.len() implies hermes_of(
        #[trigger] values[i],
        member_hints(known, names[i]),
    ) == value_outcome(results[i]) by {
        lemma_converted_alone(yamcs_value, aggregate, hints, labels, members, results, i);
    }
    lemma_aggregate_fails_as_its_first_failure(names, values, known, results.len() as int);
    let object = result->Ok_0.value->0->O_0;
    let views = hermes_of(yamcs_value@, known)->Ok_0->O_0;
    assert(views =~= member_views(object.o));
    lemma_aggregate_names_are_distinct(names, values, known, views);
    assert(object.o.wf()) by {
        assert forall|i: int, j: int| 0 <= i < j < views.len() implies (
        #[trigger] object.o.keyed()[i]).0 != (#[trigger] object.o.keyed()[j]).0 by {
            assert(views[i].0 != views[j].0);
        }
    }
    lemma_lookup_mapped(object.o.keyed(), name@, |member: Value| member.view());
    assert forall|i: int|
        0 <= i < results.len() && (#[trigger] aggregate.name@[i])@ == name@ && (forall|j: int|
            i < j < results.len() ==> (#[trigger] aggregate.name@[j])@ != name@) implies (
    found matches Some(member) && member@ == results[i]->Ok_0@) by {
        assert forall|j: int| i < j < names.len() && j < values.len() implies names[j]
            != names[i] by {
            assert(aggregate.name@[j]@ != name@);
        }
        lemma_member_goes_by_its_name(names, values, known, views, i);
        assert(hermes_of(values[i], member_hints(known, names[i])) == value_outcome(results[i]));
    }
    if forall|i: int| 0 <= i < results.len() ==> (#[trigger] aggregate.name@[i])@ != name@ {
        assert forall|i: int| 0 <= i < names.len() && i < values.len() implies #[trigger] names[i]
            != name@ by {
            assert(aggregate.name@[i]@ != name@);
        }
        lemma_other_names_have_no_member(names, values, known, views, name@);
    }
}

/// An aggregate fails as its first member that cannot be converted does.
pub proof fn law_aggregate_fails_as_its_first_failure(
    yamcs_value: &yamcs::Value,
    aggregate: AggregateValue,
    hints: Option<&BinaryTypeHints>,
    labels: Seq<&str>,
    members: Seq<Option<&BinaryTypeHints>>,
    results: Seq<Result<Value, Status>>,
    result: Result<Value, Status>,
    k: int,
)
    requires
        *yamcs_value == (yamcs::Value::Aggregate { aggregate_value: aggregate }),
        converted_alone(aggregate, hints, labels, members, results),
        call_ensures(yamcs_value_to_hermes, (yamcs_value, hints), result),
        0 <= k < results.len(),
        results[k] is Err,
        forall|i: int| 0 <= i < k ==> (#[trigger] results[i]) is Ok,
    ensures
        result matches Err(status) && status.code == results[k]->Err_0.code && status.message@
            == results[k]->Err_0.message@,
{
    let names = texts(aggregate.name@);
    let values = yamcs_value@->Aggregate_value;
    let known = hints_view(hints);
    assert(yamcs_value@ == (yamcs::ValueView::Aggregate { name: names, value: values }));
    assert forall|i: int| 0 <= i <= k implies hermes_of(
        #[trigger] values[i],
        member_hints(known, names[i]),
    ) == value_outcome(results[i]) by {
        lemma_converted_alone(yamcs_value, aggregate, hints, labels, members, results, i);
    }
    lemma_aggregate_fails_as_its_first_failure(names, values, known, k);
    assert(hermes_of(values[k], member_hints(known, names[k])) == value_outcome(results[k]));
}

/// Decoded bytes keep their order and their number type; without one they are plain bytes. What
/// could not be decoded is an invalid argument.
pub proof fn law_decoded_bytes_are_kept(
    decoded: Result<Vec<u8>, String>,
    kind: Option<NumberKind>,
    result: Result<Value, Status>,
)
    requires
        call_ensures(binary_value, (decoded, kind), result),
    ensures
        match decoded {
            Ok(bytes) => {
                &&& result matches Ok(v)
                &&& v.value matches Some(value::Value::R(packed))
                &&& packed.value@ == bytes@
                &&& packed.big_endian <==> kind is Some
                &&& kind is Some ==> packed.kind == kind->0
                &&& kind is None ==> packed.kind == NumberKind::NumberU8
            },
            Err(reason) => {
                &&& result matches Err(status)
                &&& status.code == Code::InvalidArgument
                &&& status.message@ == "Invalid base64: "@ + reason@
            },
        },
{
}

} // verus!
