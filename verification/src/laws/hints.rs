//! Types of the numbers in binary values.

use vstd::prelude::*;

use crate::convert::hints::{
    binary_type_hints_for_parameter, hints_for_members, kind_of_aliases,
    lemma_hint_goes_by_member_name, lemma_other_names_have_no_hint, numeric_kind_from_aliases,
    numeric_kind_from_fprime_name, BinaryTypeHints,
};
use crate::hermes::NumberKind;
use crate::yamcs::{NamedObjectId, Parameter, ParameterMember};

verus! {

/// Each F Prime number type stands for the Hermes number type of the same kind and width, and no
/// other name stands for any.
pub proof fn law_names_of_number_types(name: &str, kind: Option<NumberKind>)
    requires
        call_ensures(numeric_kind_from_fprime_name, (name,), kind),
    ensures
        kind == Some(NumberKind::NumberU8) <==> name@ == seq!['U', '8'],
        kind == Some(NumberKind::NumberI8) <==> name@ == seq!['I', '8'],
        kind == Some(NumberKind::NumberU16) <==> name@ == seq!['U', '1', '6'],
        kind == Some(NumberKind::NumberI16) <==> name@ == seq!['I', '1', '6'],
        kind == Some(NumberKind::NumberU32) <==> name@ == seq!['U', '3', '2'],
        kind == Some(NumberKind::NumberI32) <==> name@ == seq!['I', '3', '2'],
        kind == Some(NumberKind::NumberU64) <==> name@ == seq!['U', '6', '4'],
        kind == Some(NumberKind::NumberI64) <==> name@ == seq!['I', '6', '4'],
        kind == Some(NumberKind::NumberF32) <==> name@ == seq!['F', '3', '2'],
        kind == Some(NumberKind::NumberF64) <==> name@ == seq!['F', '6', '4'],
{
    reveal_strlit("U8");
    reveal_strlit("I8");
    reveal_strlit("U16");
    reveal_strlit("I16");
    reveal_strlit("U32");
    reveal_strlit("I32");
    reveal_strlit("U64");
    reveal_strlit("I64");
    reveal_strlit("F32");
    reveal_strlit("F64");
    assert("U8"@ =~= seq!['U', '8']);
    assert("I8"@ =~= seq!['I', '8']);
    assert("U16"@ =~= seq!['U', '1', '6']);
    assert("I16"@ =~= seq!['I', '1', '6']);
    assert("U32"@ =~= seq!['U', '3', '2']);
    assert("I32"@ =~= seq!['I', '3', '2']);
    assert("U64"@ =~= seq!['U', '6', '4']);
    assert("I64"@ =~= seq!['I', '6', '4']);
    assert("F32"@ =~= seq!['F', '3', '2']);
    assert("F64"@ =~= seq!['F', '6', '4']);
}

/// The alias is in the namespace of element types.
pub open spec fn names_element_type(alias: NamedObjectId) -> bool {
    alias.namespace matches Some(namespace) && namespace@ == "fprime:elementType"@
}

/// The first alias in the namespace of element types gives the number type; without one there is
/// none.
pub proof fn law_first_element_type_decides(
    aliases: &[NamedObjectId],
    kind: Option<NumberKind>,
    k: int,
    name: &str,
    named: Option<NumberKind>,
)
    requires
        call_ensures(numeric_kind_from_aliases, (aliases,), kind),
        0 <= k <= aliases@.len(),
        forall|i: int| 0 <= i < k ==> !names_element_type(#[trigger] aliases@[i]),
        k < aliases@.len() ==> names_element_type(aliases@[k]) && name@ == aliases@[k].name@,
        call_ensures(numeric_kind_from_fprime_name, (name,), named),
    ensures
        kind == if k < aliases@.len() {
            named
        } else {
            None
        },
{
    lemma_first_element_type(aliases@, k);
}

proof fn lemma_first_element_type(aliases: Seq<NamedObjectId>, k: int)
    requires
        0 <= k <= aliases.len(),
        forall|i: int| 0 <= i < k ==> !names_element_type(#[trigger] aliases[i]),
        k < aliases.len() ==> names_element_type(aliases[k]),
    ensures
        kind_of_aliases(aliases) == if k < aliases.len() {
            crate::convert::hints::kind_of_name(aliases[k].name@)
        } else {
            None
        },
    decreases k,
{
    if k > 0 {
        assert(!names_element_type(aliases[0]));
        let rest = aliases.drop_first();
        assert forall|i: int| 0 <= i < k - 1 implies !names_element_type(#[trigger] rest[i]) by {
            assert(rest[i] == aliases[i + 1]);
        }
        lemma_first_element_type(rest, k - 1);
    }
}

/// A parameter without a type has no hints. Otherwise the hint for the value itself is the number
/// type that the aliases of the type give.
pub proof fn law_own_kind_comes_from_the_aliases(
    parameter: &Parameter,
    hints: BinaryTypeHints,
    aliases: &[NamedObjectId],
    kind: Option<NumberKind>,
)
    requires
        call_ensures(binary_type_hints_for_parameter, (parameter,), hints),
        parameter.parameter_type matches Some(t) ==> aliases@ == t.alias@,
        call_ensures(numeric_kind_from_aliases, (aliases,), kind),
    ensures
        hints.own_kind == if parameter.parameter_type is Some {
            kind
        } else {
            None
        },
{
    assert(hints@.own_kind == hints.own_kind);
}

/// `kinds[i]` is the number type that the aliases of member `i` give, which are `aliases[i]`.
pub open spec fn kinds_of_members(
    members: Seq<ParameterMember>,
    aliases: Seq<&[NamedObjectId]>,
    kinds: Seq<Option<NumberKind>>,
) -> bool {
    &&& kinds.len() == members.len()
    &&& forall|i: int|
        0 <= i < members.len() ==> (#[trigger] aliases[i])@ == members[i].alias@ && call_ensures(
            numeric_kind_from_aliases,
            (aliases[i],),
            kinds[i],
        )
}

/// Every member of a parameter that has a number type has a hint of it, under its name: of members
/// with one name the last that has a number type. No other name has a hint. A hint for a member
/// holds none for members of its own.
pub proof fn law_every_typed_member_has_its_hint(
    parameter: &Parameter,
    members: Seq<ParameterMember>,
    aliases: Seq<&[NamedObjectId]>,
    kinds: Seq<Option<NumberKind>>,
    hints: BinaryTypeHints,
    name: &str,
    found: Option<&BinaryTypeHints>,
)
    requires
        call_ensures(binary_type_hints_for_parameter, (parameter,), hints),
        parameter.parameter_type matches Some(t) && t.member matches Some(m) && m@ == members,
        kinds_of_members(members, aliases, kinds),
        call_ensures(BinaryTypeHints::member, (&hints, name), found),
    ensures
        forall|i: int|
            0 <= i < members.len() && (#[trigger] members[i]).name@ == name@ && kinds[i] is Some
                && (forall|j: int|
                i < j < members.len() && (#[trigger] members[j]).name@ == name@ ==> kinds[j] is None)
                ==> (found matches Some(h) && h.own_kind == kinds[i] && (h.members matches Some(
                own,
            ) ==> own@.len() == 0)),
        (forall|i: int|
            0 <= i < members.len() && (#[trigger] members[i]).name@ == name@ ==> kinds[i] is None)
            ==> found is None,
{
    assert forall|i: int| 0 <= i < members.len() implies kinds[i] == kind_of_aliases(
        (#[trigger] members[i]).alias@,
    ) by {
        assert(aliases[i]@ == members[i].alias@);
    }
    assert(hints@.members == hints_for_members(members, members.len()));
    assert forall|i: int|
        0 <= i < members.len() && (#[trigger] members[i]).name@ == name@ && kinds[i] is Some && (
        forall|j: int|
            i < j < members.len() && (#[trigger] members[j]).name@ == name@ ==> kinds[j] is None)
        implies (found matches Some(h) && h.own_kind == kinds[i] && (h.members matches Some(own)
        ==> own@.len() == 0)) by {
        lemma_hint_goes_by_member_name(members, i);
        let h = found->0;
        assert(h@.own_kind == h.own_kind);
        assert(h@.members.len() == 0);
    }
    if forall|i: int|
        0 <= i < members.len() && (#[trigger] members[i]).name@ == name@ ==> kinds[i] is None {
        lemma_other_names_have_no_hint(members, name@);
    }
}

/// A parameter without members has no hints for members.
pub proof fn law_no_members_no_hints_for_them(
    parameter: &Parameter,
    hints: BinaryTypeHints,
    name: &str,
    found: Option<&BinaryTypeHints>,
)
    requires
        call_ensures(binary_type_hints_for_parameter, (parameter,), hints),
        parameter.parameter_type matches Some(t) ==> t.member is None,
        call_ensures(BinaryTypeHints::member, (&hints, name), found),
    ensures
        found is None,
{
}

/// Hints give for a member what their map of members holds under its name.
pub proof fn law_member_is_looked_up(
    hints: &BinaryTypeHints,
    name: &str,
    found: Option<&BinaryTypeHints>,
)
    requires
        hints.wf(),
        call_ensures(BinaryTypeHints::member, (hints, name), found),
    ensures
        hints.members is None ==> found is None,
        hints.members matches Some(members) ==> {
            &&& forall|i: int|
                0 <= i < members@.len() && (#[trigger] members@[i]).0@ == name@ ==> (
                found matches Some(h) && h@ == members@[i].1@)
            &&& (forall|i: int| 0 <= i < members@.len() ==> (#[trigger] members@[i]).0@ != name@)
                ==> found is None
        },
{
    if let Some(members) = hints.members {
        let views = hints@.members;
        crate::string_map::lemma_lookup_finds_keys(views, name@);
        assert forall|i: int| 0 <= i < members@.len() && (#[trigger] members@[i]).0@ == name@ implies (
        found matches Some(h) && h@ == members@[i].1@) by {
            assert(views[i] == (members@[i].0@, members@[i].1@));
            crate::string_map::lemma_lookup_entry(views, i);
        }
        if forall|i: int| 0 <= i < members@.len() ==> (#[trigger] members@[i]).0@ != name@ {
            assert forall|i: int| 0 <= i < views.len() implies (#[trigger] views[i]).0
                != name@ by {
                assert(members@[i].0@ != name@);
            }
        }
    }
}

/// Default hints say nothing.
pub proof fn law_default_hints_say_nothing(
    hints: BinaryTypeHints,
    name: &str,
    found: Option<&BinaryTypeHints>,
)
    requires
        call_ensures(<BinaryTypeHints as Default>::default, (), hints),
        call_ensures(BinaryTypeHints::member, (&hints, name), found),
    ensures
        hints.own_kind is None,
        found is None,
{
    assert(hints@.own_kind == hints.own_kind);
}

/// A copy of hints says the same, of the value itself and of each member.
pub proof fn law_copied_hints_say_the_same(
    hints: &BinaryTypeHints,
    copy: BinaryTypeHints,
    name: &str,
    found: Option<&BinaryTypeHints>,
    copied: Option<&BinaryTypeHints>,
)
    requires
        hints.wf(),
        call_ensures(<BinaryTypeHints as Clone>::clone, (hints,), copy),
        call_ensures(BinaryTypeHints::member, (hints, name), found),
        call_ensures(BinaryTypeHints::member, (&copy, name), copied),
    ensures
        copy.own_kind == hints.own_kind,
        found is Some <==> copied is Some,
        found is Some ==> copied->0@ == found->0@,
{
    assert(hints@.own_kind == hints.own_kind);
    assert(copy@.own_kind == copy.own_kind);
}

} // verus!
