//! Values: from YAMCS to Hermes.

use vstd::prelude::*;

use crate::convert::hints::{BinaryTypeHints, HintsView};
use crate::encoding::{
    base64_decoded, base64_text, base64_to_bytes, is_base64, lemma_base64_decodes,
};
use crate::float::widened;
use crate::hermes::value;
use crate::hermes::{
    member_views, value_views, ArrayValue, BytesValue, NumberKind, ObjectValue, Value,
    ValueView as HermesView,
};
use crate::status::{invalid_base64, Status, StatusView};
use crate::string_map::{
    distinct_keys, lemma_put_gives_the_value, lemma_put_mapped, lookup, put, StringMap,
};
use crate::text::{signed_decimal, signed_decimal_text};
use crate::yamcs;
use crate::yamcs::{texts, ValueView as YamcsView};

verus! {

/// Decoded bytes as a Hermes value. Without a known number type they are plain bytes.
pub open spec fn bytes_view(bytes: Seq<u8>, kind: Option<NumberKind>) -> HermesView {
    match kind {
        Some(kind) => HermesView::R { kind, big_endian: true, value: bytes },
        None => HermesView::R { kind: NumberKind::NumberU8, big_endian: false, value: bytes },
    }
}

/// The hints for a member, if there are any.
pub open spec fn member_hints(hints: Option<HintsView>, name: Seq<char>) -> Option<HintsView> {
    match hints {
        Some(h) => lookup(h.members, name),
        None => None,
    }
}

/// The number type that hints give to a value itself, if there are any.
pub open spec fn own_kind(hints: Option<HintsView>) -> Option<NumberKind> {
    match hints {
        Some(h) => h.own_kind,
        None => None,
    }
}

/// The Hermes form of a YAMCS value, or why it has none.
pub open spec fn hermes_of(value: YamcsView, hints: Option<HintsView>) -> Result<
    HermesView,
    StatusView,
>
    decreases value, 0nat,
{
    match value {
        YamcsView::Float(f) => Ok(HermesView::F(widened(f))),
        YamcsView::Double(f) => Ok(HermesView::F(f)),
        YamcsView::Uint32(u) => Ok(HermesView::U(u as u64)),
        YamcsView::Sint32(i) => Ok(HermesView::I(i as i64)),
        YamcsView::Uint64(u) => Ok(HermesView::U(u)),
        YamcsView::Sint64(i) => Ok(HermesView::I(i)),
        YamcsView::Boolean(b) => Ok(HermesView::B(b)),
        YamcsView::String(s) => Ok(HermesView::S(s)),
        YamcsView::Binary(text) => match base64_decoded(text) {
            Ok(bytes) => Ok(bytes_view(bytes, own_kind(hints))),
            Err(reason) => Err(invalid_base64(reason)),
        },
        YamcsView::Timestamp(t) => Ok(HermesView::S(signed_decimal(t as int))),
        YamcsView::Aggregate { name, value } => {
            let n = if name.len() < value.len() { name.len() } else { value.len() };
            match hermes_of_members(name, value, hints, n) {
                Ok(members) => Ok(HermesView::O(members)),
                Err(status) => Err(status),
            }
        },
        YamcsView::Array(items) => match hermes_of_items(items, items.len()) {
            Ok(array) => Ok(HermesView::A(array)),
            Err(status) => Err(status),
        },
        // Enumerated values are represented as strings
        YamcsView::Enumerated(s) => Ok(HermesView::S(s)),
        YamcsView::NoValue => Ok(HermesView::Missing),
    }
}

/// The Hermes forms of the first `n` members under their names, each with the hints for it, or why
/// the first that has none has none.
pub open spec fn hermes_of_members(
    names: Seq<Seq<char>>,
    values: Seq<YamcsView>,
    hints: Option<HintsView>,
    n: nat,
) -> Result<Seq<(Seq<char>, HermesView)>, StatusView>
    decreases values, n,
{
    if n == 0 || n > values.len() {
        Ok(Seq::empty())
    } else {
        match hermes_of_members(names, values, hints, (n - 1) as nat) {
            Err(status) => Err(status),
            Ok(members) => match hermes_of(values[n - 1], member_hints(hints, names[n - 1])) {
                Err(status) => Err(status),
                Ok(value) => Ok(put(members, names[n - 1], value)),
            },
        }
    }
}

/// The Hermes forms of the first `n` items, without hints, or why the first that has none has none.
pub open spec fn hermes_of_items(items: Seq<YamcsView>, n: nat) -> Result<
    Seq<HermesView>,
    StatusView,
>
    decreases items, n,
{
    if n == 0 || n > items.len() {
        Ok(Seq::empty())
    } else {
        match hermes_of_items(items, (n - 1) as nat) {
            Err(status) => Err(status),
            Ok(array) => match hermes_of(items[n - 1], None) {
                Err(status) => Err(status),
                Ok(value) => Ok(array.push(value)),
            },
        }
    }
}

/// The outcome of a conversion to a Hermes value.
pub open spec fn value_outcome(result: Result<Value, Status>) -> Result<HermesView, StatusView> {
    match result {
        Ok(value) => Ok(value@),
        Err(status) => Err(status@),
    }
}

/// What type hints say, where there are any.
pub open spec fn hints_view(hints: Option<&BinaryTypeHints>) -> Option<HintsView> {
    match hints {
        Some(h) => Some(h@),
        None => None,
    }
}

proof fn lemma_member_error_stays(
    names: Seq<Seq<char>>,
    values: Seq<YamcsView>,
    hints: Option<HintsView>,
    k: nat,
    n: nat,
)
    requires
        k <= n <= values.len(),
        hermes_of_members(names, values, hints, k) is Err,
    ensures
        hermes_of_members(names, values, hints, n) == hermes_of_members(names, values, hints, k),
    decreases n,
{
    if k < n {
        lemma_member_error_stays(names, values, hints, k, (n - 1) as nat);
    }
}

proof fn lemma_item_error_stays(items: Seq<YamcsView>, k: nat, n: nat)
    requires
        k <= n <= items.len(),
        hermes_of_items(items, k) is Err,
    ensures
        hermes_of_items(items, n) == hermes_of_items(items, k),
    decreases n,
{
    if k < n {
        lemma_item_error_stays(items, k, (n - 1) as nat);
    }
}

/// The Hermes value for what came of decoding a binary value. Raw U8 bytes are preserved when the
/// number type is not known.
pub fn binary_value(decoded: Result<Vec<u8>, String>, kind: Option<NumberKind>) -> (result: Result<
    Value,
    Status,
>)
    ensures
        match decoded {
            Ok(bytes) => result matches Ok(value) && value@ == bytes_view(bytes@, kind),
            Err(reason) => result matches Err(status) && status@ == invalid_base64(reason@),
        },
{
    match decoded {
        Ok(bytes) => {
            let (kind, big_endian) = match kind {
                Some(kind) => (kind, true),
                None => (NumberKind::NumberU8, false),
            };
            Ok(Value { value: Some(value::Value::R(BytesValue { kind, big_endian, value: bytes })) })
        },
        Err(reason) => Err(Status::invalid_base64(reason.as_str())),
    }
}

/// Convert YAMCS Value to Hermes Value
pub fn yamcs_value_to_hermes(
    yamcs_value: &yamcs::Value,
    hints: Option<&BinaryTypeHints>,
) -> (result: Result<Value, Status>)
    ensures
        value_outcome(result) == hermes_of(yamcs_value@, hints_view(hints)),
    decreases yamcs_value,
{
    match yamcs_value {
        yamcs::Value::Float { float_value } => Ok(
            Value { value: Some(value::Value::F(float_value.widen())) },
        ),
        yamcs::Value::Double { double_value } => Ok(
            Value { value: Some(value::Value::F(*double_value)) },
        ),
        yamcs::Value::Uint32 { uint32_value } => Ok(
            Value { value: Some(value::Value::U(*uint32_value as u64)) },
        ),
        yamcs::Value::Sint32 { sint32_value } => Ok(
            Value { value: Some(value::Value::I(*sint32_value as i64)) },
        ),
        yamcs::Value::Uint64 { uint64_value } => Ok(
            Value { value: Some(value::Value::U(*uint64_value)) },
        ),
        yamcs::Value::Sint64 { sint64_value } => Ok(
            Value { value: Some(value::Value::I(*sint64_value)) },
        ),
        yamcs::Value::Boolean { boolean_value } => Ok(
            Value { value: Some(value::Value::B(*boolean_value)) },
        ),
        yamcs::Value::String { string_value } => Ok(
            Value { value: Some(value::Value::S(string_value.clone())) },
        ),
        yamcs::Value::Binary { binary_value: text } => {
            let kind = match hints {
                Some(h) => h.own_kind,
                None => None,
            };
            binary_value(base64_to_bytes(text.as_str()), kind)
        },
        yamcs::Value::Timestamp { timestamp_value } => Ok(
            Value { value: Some(value::Value::S(signed_decimal_text(*timestamp_value))) },
        ),
        yamcs::Value::Aggregate { aggregate_value } => {
            let ghost names = texts(aggregate_value.name@);
            let ghost values = yamcs_value@->Aggregate_value;
            let ghost known = hints_view(hints);
            let n: usize = if aggregate_value.name.len() < aggregate_value.value.len() {
                aggregate_value.name.len()
            } else {
                aggregate_value.value.len()
            };
            let mut members: StringMap<Value> = StringMap::new();
            let mut i: usize = 0;
            assert(member_views(members) =~= Seq::empty());
            while i < n
                invariant
                    i <= n,
                    n <= aggregate_value.name@.len(),
                    n <= aggregate_value.value@.len(),
                    *yamcs_value == (yamcs::Value::Aggregate { aggregate_value: *aggregate_value }),
                    names == texts(aggregate_value.name@),
                    yamcs_value@ == (YamcsView::Aggregate { name: names, value: values }),
                    n == if names.len() < values.len() { names.len() } else { values.len() },
                    known == hints_view(hints),
                    members.wf(),
                    hermes_of_members(names, values, known, i as nat) == Ok::<_, StatusView>(
                        member_views(members),
                    ),
                decreases n - i,
            {
                let name = &aggregate_value.name[i];
                let hints_for_member = match hints {
                    Some(h) => h.member(name.as_str()),
                    None => None,
                };
                assert(values[i as int] == aggregate_value.value@[i as int]@);
                match yamcs_value_to_hermes(&aggregate_value.value[i], hints_for_member) {
                    Ok(value) => {
                        let ghost before = members.keyed();
                        members.insert(name.clone(), value);
                        proof {
                            lemma_put_mapped(
                                before,
                                name@,
                                value,
                                |member: Value| member.view(),
                            );
                        }
                    },
                    Err(status) => {
                        proof {
                            lemma_member_error_stays(
                                names,
                                values,
                                known,
                                (i + 1) as nat,
                                n as nat,
                            );
                        }
                        return Err(status);
                    },
                }
                i += 1;
            }
            let value = Value { value: Some(value::Value::O(ObjectValue { o: members })) };
            assert(value@->O_0 =~= member_views(members));
            Ok(value)
        },
        yamcs::Value::Array { array_value } => {
            let ghost items = yamcs_value@->Array_0;
            let mut values: Vec<Value> = Vec::new();
            let mut i: usize = 0;
            assert(value_views(values@) =~= Seq::empty());
            while i < array_value.len()
                invariant
                    i <= array_value@.len(),
                    *yamcs_value == (yamcs::Value::Array { array_value: *array_value }),
                    yamcs_value@ == YamcsView::Array(items),
                    hermes_of_items(items, i as nat) == Ok::<_, StatusView>(value_views(values@)),
                decreases array_value@.len() - i,
            {
                assert(items[i as int] == array_value@[i as int]@);
                match yamcs_value_to_hermes(&array_value[i], None) {
                    Ok(value) => {
                        let ghost before = values@;
                        values.push(value);
                        assert(value_views(values@) =~= value_views(before).push(value@));
                    },
                    Err(status) => {
                        proof {
                            lemma_item_error_stays(items, (i + 1) as nat, items.len());
                        }
                        return Err(status);
                    },
                }
                i += 1;
            }
            let value = Value { value: Some(value::Value::A(ArrayValue { value: values })) };
            assert(value@->A_0 =~= value_views(values@));
            Ok(value)
        },
        // Enumerated values are represented as strings
        yamcs::Value::Enumerated { string_value } => Ok(
            Value { value: Some(value::Value::S(string_value.clone())) },
        ),
        yamcs::Value::NoValue => Ok(Value { value: None }),
    }
}

/// Every binary part of the value that is converted is base64. Of an aggregate, a value without
/// a name, or a name without a value, has no part in the conversion.
pub open spec fn all_base64(value: YamcsView) -> bool
    decreases value,
{
    match value {
        YamcsView::Binary(text) => is_base64(text),
        YamcsView::Aggregate { name, value } => forall|i: int|
            0 <= i < name.len() && 0 <= i < value.len() ==> all_base64(#[trigger] value[i]),
        YamcsView::Array(items) => forall|i: int|
            0 <= i < items.len() ==> all_base64(#[trigger] items[i]),
        _ => true,
    }
}

/// A value is converted exactly where its binary parts are base64, however deep. Hints have no
/// say in it.
pub proof fn lemma_conversion_succeeds(value: YamcsView, hints: Option<HintsView>)
    ensures
        hermes_of(value, hints) is Ok <==> all_base64(value),
    decreases value, 0nat,
{
    match value {
        YamcsView::Aggregate { name, value: values } => {
            let n = if name.len() < values.len() { name.len() } else { values.len() };
            lemma_members_succeed(name, values, hints, n);
        },
        YamcsView::Array(items) => {
            lemma_items_succeed(items, items.len());
        },
        _ => {},
    }
}

proof fn lemma_members_succeed(
    names: Seq<Seq<char>>,
    values: Seq<YamcsView>,
    hints: Option<HintsView>,
    n: nat,
)
    requires
        n <= values.len(),
    ensures
        hermes_of_members(names, values, hints, n) is Ok <==> (forall|i: int|
            0 <= i < n ==> all_base64(#[trigger] values[i])),
    decreases values, n,
{
    if n > 0 {
        lemma_members_succeed(names, values, hints, (n - 1) as nat);
        lemma_conversion_succeeds(values[n - 1], member_hints(hints, names[n - 1]));
    }
}

proof fn lemma_items_succeed(items: Seq<YamcsView>, n: nat)
    requires
        n <= items.len(),
    ensures
        hermes_of_items(items, n) is Ok <==> (forall|i: int|
            0 <= i < n ==> all_base64(#[trigger] items[i])),
    decreases items, n,
{
    if n > 0 {
        lemma_items_succeed(items, (n - 1) as nat);
        lemma_conversion_succeeds(items[n - 1], None);
    }
}

/// Bytes come back as they were put in base64, with the number type that the hints give them.
pub proof fn lemma_binary_value_gives_the_bytes(bytes: Seq<u8>, hints: Option<HintsView>)
    ensures
        hermes_of(YamcsView::Binary(base64_text(bytes)), hints) == Ok::<HermesView, StatusView>(
            bytes_view(bytes, own_kind(hints)),
        ),
{
    lemma_base64_decodes(bytes);
}

/// The value has no binary part.
pub open spec fn without_binary(value: YamcsView) -> bool
    decreases value,
{
    match value {
        YamcsView::Binary(_) => false,
        YamcsView::Aggregate { value, .. } => forall|i: int|
            0 <= i < value.len() ==> without_binary(#[trigger] value[i]),
        YamcsView::Array(items) => forall|i: int|
            0 <= i < items.len() ==> without_binary(#[trigger] items[i]),
        _ => true,
    }
}

/// Hints bear on binary values alone: without one, the result is the same whatever they say.
pub proof fn lemma_hints_bear_on_binary_values_alone(
    value: YamcsView,
    hints: Option<HintsView>,
    others: Option<HintsView>,
)
    requires
        without_binary(value),
    ensures
        hermes_of(value, hints) == hermes_of(value, others),
    decreases value, 0nat,
{
    if let YamcsView::Aggregate { name, value: values } = value {
        let n = if name.len() < values.len() { name.len() } else { values.len() };
        lemma_hints_bear_on_binary_members_alone(name, values, hints, others, n);
    }
}

proof fn lemma_hints_bear_on_binary_members_alone(
    names: Seq<Seq<char>>,
    values: Seq<YamcsView>,
    hints: Option<HintsView>,
    others: Option<HintsView>,
    n: nat,
)
    requires
        n <= values.len(),
        forall|i: int| 0 <= i < values.len() ==> without_binary(#[trigger] values[i]),
    ensures
        hermes_of_members(names, values, hints, n) == hermes_of_members(names, values, others, n),
    decreases values, n,
{
    if n > 0 {
        lemma_hints_bear_on_binary_members_alone(names, values, hints, others, (n - 1) as nat);
        lemma_hints_bear_on_binary_values_alone(
            values[n - 1],
            member_hints(hints, names[n - 1]),
            member_hints(others, names[n - 1]),
        );
    }
}

/// Each name of a converted aggregate has the last of the values that go by it, converted with
/// the hints for that name. No name occurs twice.
pub proof fn lemma_member_goes_by_its_name(
    names: Seq<Seq<char>>,
    values: Seq<YamcsView>,
    hints: Option<HintsView>,
    members: Seq<(Seq<char>, HermesView)>,
    i: int,
)
    requires
        hermes_of(YamcsView::Aggregate { name: names, value: values }, hints) == Ok::<
            _,
            StatusView,
        >(HermesView::O(members)),
        0 <= i < names.len(),
        i < values.len(),
        forall|j: int| i < j < names.len() && j < values.len() ==> names[j] != names[i],
    ensures
        distinct_keys(members),
        lookup(members, names[i]) is Some,
        hermes_of(values[i], member_hints(hints, names[i])) == Ok::<_, StatusView>(
            lookup(members, names[i])->0,
        ),
{
    let n = if names.len() < values.len() { names.len() } else { values.len() };
    lemma_first_members_by_name(names, values, hints, n, i);
}

proof fn lemma_first_members_by_name(
    names: Seq<Seq<char>>,
    values: Seq<YamcsView>,
    hints: Option<HintsView>,
    n: nat,
    i: int,
)
    requires
        n <= values.len(),
        hermes_of_members(names, values, hints, n) is Ok,
        forall|j: int| i < j < n ==> names[j] != names[i],
    ensures
        ({
            let members = hermes_of_members(names, values, hints, n)->Ok_0;
            &&& distinct_keys(members)
            &&& 0 <= i < n ==> {
                &&& lookup(members, names[i]) is Some
                &&& hermes_of(values[i], member_hints(hints, names[i])) == Ok::<_, StatusView>(
                    lookup(members, names[i])->0,
                )
            }
        }),
    decreases n,
{
    if n > 0 {
        lemma_first_members_by_name(names, values, hints, (n - 1) as nat, i);
        let before = hermes_of_members(names, values, hints, (n - 1) as nat)->Ok_0;
        lemma_put_gives_the_value(
            before,
            names[n - 1],
            hermes_of(values[n - 1], member_hints(hints, names[n - 1]))->Ok_0,
            names[i],
        );
    }
}

/// A converted aggregate has no name that none of its values goes by.
pub proof fn lemma_other_names_have_no_member(
    names: Seq<Seq<char>>,
    values: Seq<YamcsView>,
    hints: Option<HintsView>,
    members: Seq<(Seq<char>, HermesView)>,
    name: Seq<char>,
)
    requires
        hermes_of(YamcsView::Aggregate { name: names, value: values }, hints) == Ok::<
            _,
            StatusView,
        >(HermesView::O(members)),
        forall|i: int| 0 <= i < names.len() && i < values.len() ==> #[trigger] names[i] != name,
    ensures
        lookup(members, name) is None,
{
    let n = if names.len() < values.len() { names.len() } else { values.len() };
    lemma_first_members_leave_name_out(names, values, hints, n, name);
}

proof fn lemma_first_members_leave_name_out(
    names: Seq<Seq<char>>,
    values: Seq<YamcsView>,
    hints: Option<HintsView>,
    n: nat,
    name: Seq<char>,
)
    requires
        n <= values.len(),
        hermes_of_members(names, values, hints, n) is Ok,
        forall|i: int| 0 <= i < n ==> #[trigger] names[i] != name,
    ensures
        distinct_keys(hermes_of_members(names, values, hints, n)->Ok_0),
        lookup(hermes_of_members(names, values, hints, n)->Ok_0, name) is None,
    decreases n,
{
    if n > 0 {
        lemma_first_members_leave_name_out(names, values, hints, (n - 1) as nat, name);
        lemma_put_gives_the_value(
            hermes_of_members(names, values, hints, (n - 1) as nat)->Ok_0,
            names[n - 1],
            hermes_of(values[n - 1], member_hints(hints, names[n - 1]))->Ok_0,
            name,
        );
    }
}

/// In a converted aggregate no name occurs twice.
pub proof fn lemma_aggregate_names_are_distinct(
    names: Seq<Seq<char>>,
    values: Seq<YamcsView>,
    hints: Option<HintsView>,
    members: Seq<(Seq<char>, HermesView)>,
)
    requires
        hermes_of(YamcsView::Aggregate { name: names, value: values }, hints) == Ok::<
            _,
            StatusView,
        >(HermesView::O(members)),
    ensures
        distinct_keys(members),
{
    let n = if names.len() < values.len() { names.len() } else { values.len() };
    lemma_first_members_by_name(names, values, hints, n, n as int);
}

/// A converted array has the items of the array, each converted without hints, in their order.
pub proof fn lemma_array_keeps_its_items(
    items: Seq<YamcsView>,
    hints: Option<HintsView>,
    out: Seq<HermesView>,
)
    requires
        hermes_of(YamcsView::Array(items), hints) == Ok::<HermesView, StatusView>(
            HermesView::A(out),
        ),
    ensures
        out.len() == items.len(),
        forall|i: int|
            0 <= i < items.len() ==> hermes_of(#[trigger] items[i], None) == Ok::<
                HermesView,
                StatusView,
            >(out[i]),
{
    lemma_first_items_in_order(items, items.len());
}

proof fn lemma_first_items_in_order(items: Seq<YamcsView>, n: nat)
    requires
        n <= items.len(),
        hermes_of_items(items, n) is Ok,
    ensures
        ({
            let out = hermes_of_items(items, n)->Ok_0;
            &&& out.len() == n
            &&& forall|i: int|
                0 <= i < n ==> hermes_of(#[trigger] items[i], None) == Ok::<HermesView, StatusView>(
                    out[i],
                )
        }),
    decreases n,
{
    if n > 0 {
        lemma_first_items_in_order(items, (n - 1) as nat);
    }
}

/// An array fails as its first item that cannot be converted does, and only then.
pub proof fn lemma_array_fails_as_its_first_failure(
    items: Seq<YamcsView>,
    hints: Option<HintsView>,
    k: int,
)
    requires
        0 <= k <= items.len(),
        forall|i: int| 0 <= i < k ==> hermes_of(#[trigger] items[i], None) is Ok,
        k < items.len() ==> hermes_of(items[k], None) is Err,
    ensures
        k < items.len() ==> hermes_of(YamcsView::Array(items), hints) == hermes_of(items[k], None),
        k == items.len() ==> hermes_of(YamcsView::Array(items), hints) is Ok,
{
    lemma_first_items_convert(items, k as nat);
    if k < items.len() {
        lemma_item_error_stays(items, (k + 1) as nat, items.len());
    }
}

proof fn lemma_first_items_convert(items: Seq<YamcsView>, n: nat)
    requires
        n <= items.len(),
        forall|i: int| 0 <= i < n ==> hermes_of(#[trigger] items[i], None) is Ok,
    ensures
        hermes_of_items(items, n) is Ok,
    decreases n,
{
    if n > 0 {
        lemma_first_items_convert(items, (n - 1) as nat);
        assert(hermes_of(items[n - 1], None) is Ok);
    }
}

/// An aggregate fails as its first named value that cannot be converted does, and only then.
pub proof fn lemma_aggregate_fails_as_its_first_failure(
    names: Seq<Seq<char>>,
    values: Seq<YamcsView>,
    hints: Option<HintsView>,
    k: int,
)
    requires
        0 <= k <= names.len(),
        k <= values.len(),
        forall|i: int|
            0 <= i < k ==> hermes_of(#[trigger] values[i], member_hints(hints, names[i])) is Ok,
        k < names.len() && k < values.len() ==> hermes_of(
            values[k],
            member_hints(hints, names[k]),
        ) is Err,
    ensures
        k < names.len() && k < values.len() ==> hermes_of(
            YamcsView::Aggregate { name: names, value: values },
            hints,
        ) == hermes_of(values[k], member_hints(hints, names[k])),
        k == names.len() || k == values.len() ==> hermes_of(
            YamcsView::Aggregate { name: names, value: values },
            hints,
        ) is Ok,
{
    lemma_first_members_convert(names, values, hints, k as nat);
    if k < names.len() && k < values.len() {
        let n = if names.len() < values.len() { names.len() } else { values.len() };
        lemma_member_error_stays(names, values, hints, (k + 1) as nat, n);
    }
}

proof fn lemma_first_members_convert(
    names: Seq<Seq<char>>,
    values: Seq<YamcsView>,
    hints: Option<HintsView>,
    n: nat,
)
    requires
        n <= values.len(),
        forall|i: int|
            0 <= i < n ==> hermes_of(#[trigger] values[i], member_hints(hints, names[i])) is Ok,
    ensures
        hermes_of_members(names, values, hints, n) is Ok,
    decreases n,
{
    if n > 0 {
        lemma_first_members_convert(names, values, hints, (n - 1) as nat);
        assert(hermes_of(values[n - 1], member_hints(hints, names[n - 1])) is Ok);
    }
}

} // verus!
