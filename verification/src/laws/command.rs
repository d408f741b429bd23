//! Commands.

use vstd::prelude::*;

use crate::convert::command::{
    argument_names, command_value_to_yamcs, hermes_value_to_json, json_of,
    json_outcome, lemma_argument_goes_by_its_name, lemma_command_fails_at_its_first_failure,
    lemma_other_names_have_no_argument,
};
use crate::hermes::{value_views, CommandDef, CommandValue};
use crate::json::{json_members, JsonValue};
use crate::status::{Code, Status};
use crate::string_map::{lemma_lookup_mapped, StringMap};
use crate::text::decimal_text;
use crate::yamcs::IssueCommandOptions;

verus! {

/// `results[i]` is what argument `i` becomes in JSON.
pub open spec fn arguments_in_json(
    command: &CommandValue,
    results: Seq<Result<JsonValue, Status>>,
) -> bool {
    &&& results.len() == command.args@.len()
    &&& forall|i: int|
        0 <= i < results.len() ==> call_ensures(
            hermes_value_to_json,
            (&command.args@[i],),
            #[trigger] results[i],
        )
}

proof fn lemma_arguments_in_json(command: &CommandValue, results: Seq<Result<JsonValue, Status>>)
    requires
        arguments_in_json(command, results),
    ensures
        forall|i: int|
            0 <= i < results.len() ==> json_of(#[trigger] value_views(command.args@)[i])
                == json_outcome(results[i]),
{
    assert forall|i: int| 0 <= i < results.len() implies json_of(
        #[trigger] value_views(command.args@)[i],
    ) == json_outcome(results[i]) by {
        let r = results[i];
        assert(call_ensures(hermes_value_to_json, (&command.args@[i],), r));
    }
}

/// A command with no more arguments than its definition, each of which has a JSON form, is
/// converted: each argument stands in JSON under the name at its place in the definition, of
/// arguments with one name the last, and there is nothing under any other name.
pub proof fn law_arguments_go_by_their_names(
    command: &CommandValue,
    definition: &CommandDef,
    results: Seq<Result<JsonValue, Status>>,
    result: Result<IssueCommandOptions, Status>,
    name: &str,
    found: Option<&JsonValue>,
)
    requires
        arguments_in_json(command, results),
        call_ensures(command_value_to_yamcs, (command, definition), result),
        results.len() <= definition.arguments@.len(),
        forall|i: int| 0 <= i < results.len() ==> (#[trigger] results[i]) is Ok,
        result matches Ok(options) ==> (options.args matches Some(args) ==> call_ensures(
            StringMap::<JsonValue>::get,
            (&args, name),
            found,
        )),
    ensures
        result matches Ok(options) && options.args is Some,
        forall|i: int|
            0 <= i < results.len() && (#[trigger] definition.arguments@[i]).name@ == name@ && (
            forall|j: int|
                i < j < results.len() ==> (#[trigger] definition.arguments@[j]).name@ != name@) ==> (
            found matches Some(json) && json@ == results[i]->Ok_0@),
        (forall|i: int|
            0 <= i < results.len() ==> (#[trigger] definition.arguments@[i]).name@ != name@)
            ==> found is None,
{
    let views = value_views(command.args@);
    let names = argument_names(definition.arguments@);
    lemma_arguments_in_json(command, results);
    lemma_command_fails_at_its_first_failure(views, names, results.len() as int);
    let args = result->Ok_0.args->0;
    let named = json_members(args);
    lemma_lookup_mapped(args.keyed(), name@, |member: JsonValue| member.view());
    assert forall|i: int|
        0 <= i < results.len() && (#[trigger] definition.arguments@[i]).name@ == name@ && (forall|
            j: int,
        |
            i < j < results.len() ==> (#[trigger] definition.arguments@[j]).name@ != name@) implies (
    found matches Some(json) && json@ == results[i]->Ok_0@) by {
        assert forall|j: int| i < j < views.len() implies names[j] != names[i] by {
            assert(definition.arguments@[j].name@ != name@);
        }
        lemma_argument_goes_by_its_name(views, names, named, i);
        assert(json_of(views[i]) == json_outcome(results[i]));
    }
    if forall|i: int|
        0 <= i < results.len() ==> (#[trigger] definition.arguments@[i]).name@ != name@ {
        assert forall|i: int| 0 <= i < views.len() implies #[trigger] names[i] != name@ by {
            assert(definition.arguments@[i].name@ != name@);
        }
        lemma_other_names_have_no_argument(views, names, named, name@);
    }
}

/// The origin and the comment of a converted command are the metadata of these names, where there
/// are such.
pub proof fn law_metadata_is_copied(
    command: &CommandValue,
    definition: &CommandDef,
    options: IssueCommandOptions,
    origin: Option<&String>,
    comment: Option<&String>,
)
    requires
        call_ensures(
            command_value_to_yamcs,
            (command, definition),
            Ok::<IssueCommandOptions, Status>(options),
        ),
        call_ensures(StringMap::<String>::get, (&command.metadata, "origin"), origin),
        call_ensures(StringMap::<String>::get, (&command.metadata, "comment"), comment),
    ensures
        match origin {
            Some(text) => options.origin matches Some(copy) && copy@ == text@,
            None => options.origin is None,
        },
        match comment {
            Some(text) => options.comment matches Some(copy) && copy@ == text@,
            None => options.comment is None,
        },
{
}

/// A command fails as its first argument without a JSON form does, where that has a name.
pub proof fn law_command_fails_as_its_first_failure(
    command: &CommandValue,
    definition: &CommandDef,
    results: Seq<Result<JsonValue, Status>>,
    result: Result<IssueCommandOptions, Status>,
    k: int,
)
    requires
        arguments_in_json(command, results),
        call_ensures(command_value_to_yamcs, (command, definition), result),
        0 <= k < results.len(),
        k < definition.arguments@.len(),
        results[k] is Err,
        forall|i: int| 0 <= i < k ==> (#[trigger] results[i]) is Ok,
    ensures
        result matches Err(status) && status.code == results[k]->Err_0.code && status.message@
            == results[k]->Err_0.message@,
{
    let views = value_views(command.args@);
    let names = argument_names(definition.arguments@);
    lemma_arguments_in_json(command, results);
    lemma_command_fails_at_its_first_failure(views, names, k);
    assert(json_of(views[k]) == json_outcome(results[k]));
}

/// A command with more arguments than its definition, the named ones of which have a JSON form, is
/// an invalid argument, and the message gives both numbers.
pub proof fn law_too_many_arguments(
    command: &CommandValue,
    definition: &CommandDef,
    results: Seq<Result<JsonValue, Status>>,
    result: Result<IssueCommandOptions, Status>,
    expected: String,
    got: String,
)
    requires
        arguments_in_json(command, results),
        call_ensures(command_value_to_yamcs, (command, definition), result),
        results.len() > definition.arguments@.len(),
        forall|i: int| 0 <= i < definition.arguments@.len() ==> (#[trigger] results[i]) is Ok,
        call_ensures(decimal_text, (definition.arguments@.len() as u64,), expected),
        call_ensures(decimal_text, (command.args@.len() as u64,), got),
    ensures
        result matches Err(status) && status.code == Code::InvalidArgument && status.message@
            == "Too many arguments: expected "@ + expected@ + ", got "@ + got@,
{
    let views = value_views(command.args@);
    let names = argument_names(definition.arguments@);
    lemma_arguments_in_json(command, results);
    lemma_command_fails_at_its_first_failure(views, names, names.len() as int);
    assert(definition.arguments.len() == definition.arguments@.len());
    assert(command.args.len() == command.args@.len());
}

} // verus!
