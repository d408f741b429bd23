//! Commands: from Hermes to YAMCS.

use vstd::prelude::*;

use crate::hermes::value;
use crate::hermes::{
    value_views, CommandArgument, CommandDef, CommandValue, Value, ValueView,
};
use crate::json::{json_items, json_members, JsonNumber, JsonValue, JsonView};
use crate::status::{bytes_unimplemented, invalid_float, too_many_arguments, Status, StatusView};
use crate::string_map::{
    distinct_keys, has_key, lemma_entry_is_smaller, lemma_lookup_entry, lemma_lookup_finds_keys,
    lemma_put_gives_the_value, lemma_put_mapped, lookup, put, StringMap,
};
use crate::yamcs::IssueCommandOptions;

verus! {

/// The JSON form of a Hermes value, or why it has none.
pub open spec fn json_of(value: ValueView) -> Result<JsonView, StatusView>
    decreases value, 0nat,
{
    match value {
        ValueView::Missing => Ok(JsonView::Null),
        ValueView::I(i) => Ok(JsonView::Integer(i as int)),
        ValueView::U(u) => Ok(JsonView::Integer(u as int)),
        ValueView::F(f) => if f.is_finite() {
            Ok(JsonView::Float(f))
        } else {
            Err(invalid_float())
        },
        ValueView::B(b) => Ok(JsonView::Bool(b)),
        ValueView::S(s) => Ok(JsonView::String(s)),
        // For enums, use the raw value
        ValueView::E { raw, .. } => Ok(JsonView::Integer(raw as int)),
        ValueView::O(members) => match json_of_members(members, members.len()) {
            Ok(object) => Ok(JsonView::Object(object)),
            Err(status) => Err(status),
        },
        ValueView::A(items) => match json_of_items(items, items.len()) {
            Ok(array) => Ok(JsonView::Array(array)),
            Err(status) => Err(status),
        },
        ValueView::R { .. } => Err(bytes_unimplemented()),
    }
}

/// The JSON forms of the first `n` members, by name, or why the first that has none has none.
pub open spec fn json_of_members(members: Seq<(Seq<char>, ValueView)>, n: nat) -> Result<
    Seq<(Seq<char>, JsonView)>,
    StatusView,
>
    decreases members, n,
{
    if n == 0 || n > members.len() {
        Ok(Seq::empty())
    } else {
        match json_of_members(members, (n - 1) as nat) {
            Err(status) => Err(status),
            Ok(object) => match json_of(members[n - 1].1) {
                Err(status) => Err(status),
                Ok(json) => Ok(put(object, members[n - 1].0, json)),
            },
        }
    }
}

/// The JSON forms of the first `n` items, or why the first that has none has none.
pub open spec fn json_of_items(items: Seq<ValueView>, n: nat) -> Result<Seq<JsonView>, StatusView>
    decreases items, n,
{
    if n == 0 || n > items.len() {
        Ok(Seq::empty())
    } else {
        match json_of_items(items, (n - 1) as nat) {
            Err(status) => Err(status),
            Ok(array) => match json_of(items[n - 1]) {
                Err(status) => Err(status),
                Ok(json) => Ok(array.push(json)),
            },
        }
    }
}

/// The outcome of a conversion to JSON.
pub open spec fn json_outcome(result: Result<JsonValue, Status>) -> Result<JsonView, StatusView> {
    match result {
        Ok(json) => Ok(json@),
        Err(status) => Err(status@),
    }
}

/// What is wrong with the first members is wrong with all of them.
proof fn lemma_member_error_stays(members: Seq<(Seq<char>, ValueView)>, k: nat, n: nat)
    requires
        k <= n <= members.len(),
        json_of_members(members, k) is Err,
    ensures
        json_of_members(members, n) == json_of_members(members, k),
    decreases n,
{
    if k < n {
        lemma_member_error_stays(members, k, (n - 1) as nat);
    }
}

/// What is wrong with the first items is wrong with all of them.
proof fn lemma_item_error_stays(items: Seq<ValueView>, k: nat, n: nat)
    requires
        k <= n <= items.len(),
        json_of_items(items, k) is Err,
    ensures
        json_of_items(items, n) == json_of_items(items, k),
    decreases n,
{
    if k < n {
        lemma_item_error_stays(items, k, (n - 1) as nat);
    }
}

/// Convert Hermes Value to JSON value
pub fn hermes_value_to_json(value: &Value) -> (result: Result<JsonValue, Status>)
    ensures
        json_outcome(result) == json_of(value@),
    decreases value,
{
    match &value.value {
        None => Ok(JsonValue::Null),
        Some(value::Value::I(i)) => Ok(JsonValue::Number(JsonNumber::Signed(*i))),
        Some(value::Value::U(u)) => Ok(JsonValue::Number(JsonNumber::Unsigned(*u))),
        Some(value::Value::F(f)) => if f.is_finite() {
            Ok(JsonValue::Number(JsonNumber::Float(*f)))
        } else {
            Err(Status::invalid_float())
        },
        Some(value::Value::B(b)) => Ok(JsonValue::Bool(*b)),
        Some(value::Value::S(s)) => Ok(JsonValue::String(s.clone())),
        // For enums, use the raw value
        Some(value::Value::E(e)) => Ok(JsonValue::Number(JsonNumber::Signed(e.raw))),
        Some(value::Value::O(object)) => {
            let ghost members = value@->O_0;
            let mut map: StringMap<JsonValue> = StringMap::new();
            let mut i: usize = 0;
            assert(json_members(map) =~= Seq::empty());
            while i < object.o.len()
                invariant
                    i <= object.o@.len(),
                    value.value == Some(value::Value::O(*object)),
                    value@ == ValueView::O(members),
                    map.wf(),
                    json_of_members(members, i as nat) == Ok::<_, StatusView>(json_members(map)),
                decreases object.o@.len() - i,
            {
                let entry = object.o.entry(i);
                proof {
                    lemma_entry_is_smaller(object.o, i as int);
                }
                match hermes_value_to_json(&entry.1) {
                    Ok(json) => {
                        let ghost before = map.keyed();
                        map.insert(entry.0.clone(), json);
                        proof {
                            lemma_put_mapped(
                                before,
                                entry.0@,
                                json,
                                |member: JsonValue| member.view(),
                            );
                        }
                    },
                    Err(status) => {
                        proof {
                            lemma_member_error_stays(members, (i + 1) as nat, members.len());
                        }
                        return Err(status);
                    },
                }
                i += 1;
            }
            let json = JsonValue::Object(map);
            assert(json@->Object_0 =~= json_members(map));
            Ok(json)
        },
        Some(value::Value::A(array)) => {
            let ghost items = value@->A_0;
            let mut values: Vec<JsonValue> = Vec::new();
            let mut i: usize = 0;
            assert(json_items(values@) =~= Seq::empty());
            while i < array.value.len()
                invariant
                    i <= array.value@.len(),
                    value.value == Some(value::Value::A(*array)),
                    value@ == ValueView::A(items),
                    json_of_items(items, i as nat) == Ok::<_, StatusView>(json_items(values@)),
                decreases array.value@.len() - i,
            {
                match hermes_value_to_json(&array.value[i]) {
                    Ok(json) => {
                        let ghost before = values@;
                        values.push(json);
                        assert(json_items(values@) =~= json_items(before).push(json@));
                    },
                    Err(status) => {
                        proof {
                            lemma_item_error_stays(items, (i + 1) as nat, items.len());
                        }
                        return Err(status);
                    },
                }
                i += 1;
            }
            let json = JsonValue::Array(values);
            assert(json@->Array_0 =~= json_items(values@));
            Ok(json)
        },
        // Bytes have no JSON form yet.
        Some(value::Value::R(_)) => Err(Status::bytes_unimplemented()),
    }
}

/// The names of a list of arguments.
pub open spec fn argument_names(arguments: Seq<CommandArgument>) -> Seq<Seq<char>> {
    Seq::new(arguments.len(), |i: int| arguments[i].name@)
}

/// The JSON forms of the first `n` arguments under the names that the command gives them, or what
/// is wrong with the first that has no JSON form or no name.
pub open spec fn command_args(args: Seq<ValueView>, names: Seq<Seq<char>>, n: nat) -> Result<
    Seq<(Seq<char>, JsonView)>,
    StatusView,
>
    decreases n,
{
    if n == 0 || n > args.len() {
        Ok(Seq::empty())
    } else {
        match command_args(args, names, (n - 1) as nat) {
            Err(status) => Err(status),
            Ok(named) => if n > names.len() {
                Err(too_many_arguments(names.len() as int, args.len() as int))
            } else {
                match json_of(args[n - 1]) {
                    Err(status) => Err(status),
                    Ok(json) => Ok(put(named, names[n - 1], json)),
                }
            },
        }
    }
}

/// What is wrong with the first arguments is wrong with all of them.
proof fn lemma_argument_error_stays(
    args: Seq<ValueView>,
    names: Seq<Seq<char>>,
    k: nat,
    n: nat,
)
    requires
        k <= n <= args.len(),
        command_args(args, names, k) is Err,
    ensures
        command_args(args, names, n) == command_args(args, names, k),
    decreases n,
{
    if k < n {
        lemma_argument_error_stays(args, names, k, (n - 1) as nat);
    }
}

/// Convert Hermes CommandValue to YAMCS IssueCommandOptions
pub fn command_value_to_yamcs(cmd_value: &CommandValue, cmd_def: &CommandDef) -> (result: Result<
    IssueCommandOptions,
    Status,
>)
    ensures
        ({
            let converted = command_args(
                value_views(cmd_value.args@),
                argument_names(cmd_def.arguments@),
                cmd_value.args@.len(),
            );
            match result {
                Ok(options) => {
                    &&& options.args matches Some(args)
                    &&& args.wf()
                    &&& converted == Ok::<_, StatusView>(json_members(args))
                    &&& options.origin == lookup(cmd_value.metadata.keyed(), "origin"@)
                    &&& options.comment == lookup(cmd_value.metadata.keyed(), "comment"@)
                },
                Err(status) => converted == Err::<Seq<(Seq<char>, JsonView)>, _>(status@),
            }
        }),
{
    let ghost views = value_views(cmd_value.args@);
    let ghost names = argument_names(cmd_def.arguments@);
    let mut args: StringMap<JsonValue> = StringMap::new();
    let mut i: usize = 0;
    assert(json_members(args) =~= Seq::empty());

    // Convert each argument
    while i < cmd_value.args.len()
        invariant
            i <= cmd_value.args@.len(),
            views == value_views(cmd_value.args@),
            names == argument_names(cmd_def.arguments@),
            args.wf(),
            command_args(views, names, i as nat) == Ok::<_, StatusView>(json_members(args)),
        decreases cmd_value.args@.len() - i,
    {
        if i >= cmd_def.arguments.len() {
            proof {
                lemma_argument_error_stays(views, names, (i + 1) as nat, views.len());
            }
            return Err(
                Status::too_many_arguments(cmd_def.arguments.len(), cmd_value.args.len()),
            );
        }
        match hermes_value_to_json(&cmd_value.args[i]) {
            Ok(json) => {
                let name = cmd_def.arguments[i].name.clone();
                let ghost before = args.keyed();
                args.insert(name, json);
                proof {
                    lemma_put_mapped(before, name@, json, |member: JsonValue| member.view());
                }
            },
            Err(status) => {
                proof {
                    lemma_argument_error_stays(views, names, (i + 1) as nat, views.len());
                }
                return Err(status);
            },
        }
        i += 1;
    }

    // Copy metadata fields
    let origin = match cmd_value.metadata.get("origin") {
        Some(origin) => Some(origin.clone()),
        None => None,
    };
    let comment = match cmd_value.metadata.get("comment") {
        Some(comment) => Some(comment.clone()),
        None => None,
    };
    Ok(IssueCommandOptions { args: Some(args), origin, comment })
}

/// The value can be put in JSON: it holds neither raw bytes nor a float that is not finite.
pub open spec fn fits_json(value: ValueView) -> bool
    decreases value,
{
    match value {
        ValueView::F(f) => f.is_finite(),
        ValueView::O(members) => forall|i: int|
            0 <= i < members.len() ==> fits_json((#[trigger] members[i]).1),
        ValueView::A(items) => forall|i: int|
            0 <= i < items.len() ==> fits_json(#[trigger] items[i]),
        ValueView::R { .. } => false,
        _ => true,
    }
}

/// A value has a JSON form exactly where it holds neither raw bytes nor a float that is not
/// finite, however deep.
pub proof fn lemma_json_succeeds(value: ValueView)
    ensures
        json_of(value) is Ok <==> fits_json(value),
    decreases value, 0nat,
{
    match value {
        ValueView::O(members) => {
            lemma_json_members_succeed(members, members.len());
        },
        ValueView::A(items) => {
            lemma_json_items_succeed(items, items.len());
        },
        _ => {},
    }
}

proof fn lemma_json_members_succeed(members: Seq<(Seq<char>, ValueView)>, n: nat)
    requires
        n <= members.len(),
    ensures
        json_of_members(members, n) is Ok <==> (forall|i: int|
            0 <= i < n ==> fits_json((#[trigger] members[i]).1)),
    decreases members, n,
{
    if n > 0 {
        lemma_json_members_succeed(members, (n - 1) as nat);
        lemma_json_succeeds(members[n - 1].1);
        assert(fits_json(members[n - 1].1) <==> json_of(members[n - 1].1) is Ok);
    }
}

proof fn lemma_json_items_succeed(items: Seq<ValueView>, n: nat)
    requires
        n <= items.len(),
    ensures
        json_of_items(items, n) is Ok <==> (forall|i: int|
            0 <= i < n ==> fits_json(#[trigger] items[i])),
    decreases items, n,
{
    if n > 0 {
        lemma_json_items_succeed(items, (n - 1) as nat);
        lemma_json_succeeds(items[n - 1]);
        assert(fits_json(items[n - 1]) <==> json_of(items[n - 1]) is Ok);
    }
}

/// An object keeps its names: under each of them, JSON holds the JSON form of the value.
pub proof fn lemma_json_object_keeps_names(
    members: Seq<(Seq<char>, ValueView)>,
    object: Seq<(Seq<char>, JsonView)>,
    name: Seq<char>,
)
    requires
        distinct_keys(members),
        json_of(ValueView::O(members)) == Ok::<_, StatusView>(JsonView::Object(object)),
    ensures
        distinct_keys(object),
        lookup(members, name) is Some <==> lookup(object, name) is Some,
        lookup(members, name) matches Some(value) ==> json_of(value) == Ok::<_, StatusView>(
            lookup(object, name)->0,
        ),
{
    lemma_json_members_in_order(members, members.len());
    lemma_lookup_finds_keys(members, name);
    lemma_lookup_finds_keys(object, name);
    if has_key(members, name) {
        let i = choose|i: int| 0 <= i < members.len() && (#[trigger] members[i]).0 == name;
        lemma_lookup_entry(members, i);
        assert(object[i].0 == name);
        lemma_lookup_entry(object, i);
    } else if has_key(object, name) {
        let i = choose|i: int| 0 <= i < object.len() && (#[trigger] object[i]).0 == name;
        assert(members[i].0 == name);
    }
}

/// Members with distinct names become JSON members with the same names, in the same order.
proof fn lemma_json_members_in_order(members: Seq<(Seq<char>, ValueView)>, n: nat)
    requires
        distinct_keys(members),
        n <= members.len(),
        json_of_members(members, n) is Ok,
    ensures
        ({
            let object = json_of_members(members, n)->Ok_0;
            &&& distinct_keys(object)
            &&& object.len() == n
            &&& forall|i: int|
                0 <= i < n ==> (#[trigger] object[i]).0 == members[i].0 && json_of(members[i].1)
                    == Ok::<_, StatusView>(object[i].1)
        }),
    decreases n,
{
    if n > 0 {
        lemma_json_members_in_order(members, (n - 1) as nat);
        let before = json_of_members(members, (n - 1) as nat)->Ok_0;
        let name = members[n - 1].0;
        assert(!has_key(before, name)) by {
            assert forall|i: int| 0 <= i < before.len() implies (#[trigger] before[i]).0
                != name by {
                assert(members[i].0 != members[n - 1].0);
            }
        }
    }
}

/// A command is converted exactly where it has no more arguments than its definition and each
/// of them has a JSON form.
pub proof fn lemma_command_succeeds(args: Seq<ValueView>, names: Seq<Seq<char>>)
    ensures
        command_args(args, names, args.len()) is Ok <==> args.len() <= names.len() && (forall|
            i: int,
        |
            0 <= i < args.len() ==> fits_json(#[trigger] args[i])),
{
    lemma_first_arguments_succeed(args, names, args.len());
}

proof fn lemma_first_arguments_succeed(args: Seq<ValueView>, names: Seq<Seq<char>>, n: nat)
    requires
        n <= args.len(),
    ensures
        command_args(args, names, n) is Ok <==> n <= names.len() && (forall|i: int|
            0 <= i < n ==> fits_json(#[trigger] args[i])),
    decreases n,
{
    if n > 0 {
        lemma_first_arguments_succeed(args, names, (n - 1) as nat);
        lemma_json_succeeds(args[n - 1]);
        assert(fits_json(args[n - 1]) <==> json_of(args[n - 1]) is Ok);
    }
}

/// Each name of a converted command has the last of the arguments that go by it.
pub proof fn lemma_argument_goes_by_its_name(
    args: Seq<ValueView>,
    names: Seq<Seq<char>>,
    named: Seq<(Seq<char>, JsonView)>,
    i: int,
)
    requires
        command_args(args, names, args.len()) == Ok::<_, StatusView>(named),
        0 <= i < args.len(),
        forall|j: int| i < j < args.len() ==> names[j] != names[i],
    ensures
        distinct_keys(named),
        lookup(named, names[i]) is Some,
        json_of(args[i]) == Ok::<_, StatusView>(lookup(named, names[i])->0),
{
    lemma_first_arguments_by_name(args, names, args.len(), i);
}

proof fn lemma_first_arguments_by_name(
    args: Seq<ValueView>,
    names: Seq<Seq<char>>,
    n: nat,
    i: int,
)
    requires
        n <= args.len(),
        command_args(args, names, n) is Ok,
        forall|j: int| i < j < n ==> names[j] != names[i],
    ensures
        distinct_keys(command_args(args, names, n)->Ok_0),
        0 <= i < n ==> lookup(command_args(args, names, n)->Ok_0, names[i]) is Some,
        0 <= i < n ==> json_of(args[i]) == Ok::<_, StatusView>(
            lookup(command_args(args, names, n)->Ok_0, names[i])->0,
        ),
    decreases n,
{
    if n > 0 {
        lemma_first_arguments_by_name(args, names, (n - 1) as nat, i);
        let before = command_args(args, names, (n - 1) as nat)->Ok_0;
        lemma_put_gives_the_value(
            before,
            names[n - 1],
            json_of(args[n - 1])->Ok_0,
            names[i],
        );
    }
}

/// A converted command has no name that none of its arguments goes by.
pub proof fn lemma_other_names_have_no_argument(
    args: Seq<ValueView>,
    names: Seq<Seq<char>>,
    named: Seq<(Seq<char>, JsonView)>,
    name: Seq<char>,
)
    requires
        command_args(args, names, args.len()) == Ok::<_, StatusView>(named),
        forall|i: int| 0 <= i < args.len() ==> #[trigger] names[i] != name,
    ensures
        lookup(named, name) is None,
{
    lemma_first_arguments_leave_name_out(args, names, args.len(), name);
}

proof fn lemma_first_arguments_leave_name_out(
    args: Seq<ValueView>,
    names: Seq<Seq<char>>,
    n: nat,
    name: Seq<char>,
)
    requires
        n <= args.len(),
        command_args(args, names, n) is Ok,
        forall|i: int| 0 <= i < n ==> #[trigger] names[i] != name,
    ensures
        distinct_keys(command_args(args, names, n)->Ok_0),
        lookup(command_args(args, names, n)->Ok_0, name) is None,
    decreases n,
{
    if n > 0 {
        lemma_first_arguments_leave_name_out(args, names, (n - 1) as nat, name);
        lemma_put_gives_the_value(
            command_args(args, names, (n - 1) as nat)->Ok_0,
            names[n - 1],
            json_of(args[n - 1])->Ok_0,
            name,
        );
    }
}

/// A JSON array has the JSON forms of the items, in their order.
pub proof fn lemma_json_array_keeps_its_items(items: Seq<ValueView>, out: Seq<JsonView>)
    requires
        json_of(ValueView::A(items)) == Ok::<JsonView, StatusView>(JsonView::Array(out)),
    ensures
        out.len() == items.len(),
        forall|i: int|
            0 <= i < items.len() ==> json_of(#[trigger] items[i]) == Ok::<JsonView, StatusView>(
                out[i],
            ),
{
    lemma_json_items_in_order(items, items.len());
}

proof fn lemma_json_items_in_order(items: Seq<ValueView>, n: nat)
    requires
        n <= items.len(),
        json_of_items(items, n) is Ok,
    ensures
        ({
            let out = json_of_items(items, n)->Ok_0;
            &&& out.len() == n
            &&& forall|i: int|
                0 <= i < n ==> json_of(#[trigger] items[i]) == Ok::<JsonView, StatusView>(out[i])
        }),
    decreases n,
{
    if n > 0 {
        lemma_json_items_in_order(items, (n - 1) as nat);
    }
}

/// A list fails as its first item without a JSON form does, and only then.
pub proof fn lemma_json_array_fails_as_its_first_failure(items: Seq<ValueView>, k: int)
    requires
        0 <= k <= items.len(),
        forall|i: int| 0 <= i < k ==> json_of(#[trigger] items[i]) is Ok,
        k < items.len() ==> json_of(items[k]) is Err,
    ensures
        k < items.len() ==> json_of(ValueView::A(items)) == json_of(items[k]),
        k == items.len() ==> json_of(ValueView::A(items)) is Ok,
{
    lemma_first_json_items_convert(items, k as nat);
    if k < items.len() {
        lemma_item_error_stays(items, (k + 1) as nat, items.len());
    }
}

proof fn lemma_first_json_items_convert(items: Seq<ValueView>, n: nat)
    requires
        n <= items.len(),
        forall|i: int| 0 <= i < n ==> json_of(#[trigger] items[i]) is Ok,
    ensures
        json_of_items(items, n) is Ok,
    decreases n,
{
    if n > 0 {
        lemma_first_json_items_convert(items, (n - 1) as nat);
        assert(json_of(items[n - 1]) is Ok);
    }
}

/// A JSON object has the names of the members, each with the JSON form of its value, in their
/// order.
pub proof fn lemma_json_object_keeps_its_members(
    members: Seq<(Seq<char>, ValueView)>,
    object: Seq<(Seq<char>, JsonView)>,
)
    requires
        distinct_keys(members),
        json_of(ValueView::O(members)) == Ok::<JsonView, StatusView>(JsonView::Object(object)),
    ensures
        object.len() == members.len(),
        forall|i: int|
            0 <= i < members.len() ==> (#[trigger] object[i]).0 == members[i].0 && json_of(
                members[i].1,
            ) == Ok::<JsonView, StatusView>(object[i].1),
{
    lemma_json_members_in_order(members, members.len());
}

/// An object fails as its first member without a JSON form does, and only then.
pub proof fn lemma_json_object_fails_as_its_first_failure(
    members: Seq<(Seq<char>, ValueView)>,
    k: int,
)
    requires
        0 <= k <= members.len(),
        forall|i: int| 0 <= i < k ==> json_of((#[trigger] members[i]).1) is Ok,
        k < members.len() ==> json_of(members[k].1) is Err,
    ensures
        k < members.len() ==> json_of(ValueView::O(members)) == json_of(members[k].1),
        k == members.len() ==> json_of(ValueView::O(members)) is Ok,
{
    lemma_first_json_members_convert(members, k as nat);
    if k < members.len() {
        lemma_member_error_stays(members, (k + 1) as nat, members.len());
    }
}

proof fn lemma_first_json_members_convert(members: Seq<(Seq<char>, ValueView)>, n: nat)
    requires
        n <= members.len(),
        forall|i: int| 0 <= i < n ==> json_of((#[trigger] members[i]).1) is Ok,
    ensures
        json_of_members(members, n) is Ok,
    decreases n,
{
    if n > 0 {
        lemma_first_json_members_convert(members, (n - 1) as nat);
        assert(json_of(members[n - 1].1) is Ok);
    }
}

/// A command fails at its first argument that has no JSON form or no name, and only then.
pub proof fn lemma_command_fails_at_its_first_failure(
    args: Seq<ValueView>,
    names: Seq<Seq<char>>,
    k: int,
)
    requires
        0 <= k <= args.len(),
        k <= names.len(),
        forall|i: int| 0 <= i < k ==> json_of(#[trigger] args[i]) is Ok,
        k < args.len() && k < names.len() ==> json_of(args[k]) is Err,
    ensures
        k == args.len() ==> command_args(args, names, args.len()) is Ok,
        k < args.len() && k < names.len() ==> command_args(args, names, args.len()) == Err::<
            Seq<(Seq<char>, JsonView)>,
            StatusView,
        >(json_of(args[k])->Err_0),
        k < args.len() && k == names.len() ==> command_args(args, names, args.len()) == Err::<
            Seq<(Seq<char>, JsonView)>,
            StatusView,
        >(too_many_arguments(names.len() as int, args.len() as int)),
{
    lemma_first_arguments_succeed(args, names, k as nat);
    assert forall|i: int| 0 <= i < k implies fits_json(#[trigger] args[i]) by {
        lemma_json_succeeds(args[i]);
    }
    if k < args.len() {
        lemma_argument_error_stays(args, names, (k + 1) as nat, args.len());
    }
}

} // verus!
