//! Types of the numbers in binary values, from the definition of a parameter.

use vstd::prelude::*;

use crate::hermes::NumberKind;
use crate::string_map::{
    distinct_keys, lemma_entry_is_smaller, lemma_lookup_mapped, lemma_put_gives_the_value,
    lemma_put_mapped, lookup, mapped, put, StringMap,
};
use crate::yamcs::{NamedObjectId, Parameter, ParameterMember};

verus! {

/// F Prime numeric types attached to binary values and aggregate members.
#[derive(Debug)]
pub struct BinaryTypeHints {
    /// Type of this binary value, when known.
    pub own_kind: Option<NumberKind>,
    /// Types of binary aggregate members, where there are members.
    pub members: Option<StringMap<BinaryTypeHints>>,
}

/// What type hints say.
pub struct HintsView {
    pub own_kind: Option<NumberKind>,
    pub members: Seq<(Seq<char>, HintsView)>,
}

/// No member has two hints, however deep.
pub open spec fn unambiguous(hints: HintsView) -> bool
    decreases hints,
{
    &&& distinct_keys(hints.members)
    &&& forall|i: int| 0 <= i < hints.members.len() ==> unambiguous((#[trigger] hints.members[i]).1)
}

impl BinaryTypeHints {
    /// What the hints say.
    pub open spec fn view(&self) -> HintsView
        decreases self,
    {
        HintsView {
            own_kind: self.own_kind,
            members: match self.members {
                None => Seq::empty(),
                Some(members) => Seq::new(
                    members@.len(),
                    |i: int|
                        if 0 <= i < members@.len() {
                            proof {
                                lemma_entry_is_smaller(members, i);
                            }
                            (members@[i].0@, members@[i].1.view())
                        } else {
                            arbitrary()
                        },
                ),
            },
        }
    }

    /// No member has two hints, however deep.
    pub open spec fn wf(&self) -> bool {
        unambiguous(self@)
    }

    /// The hints for a member.
    pub fn member(&self, name: &str) -> (hints: Option<&BinaryTypeHints>)
        ensures
            match hints {
                Some(h) => lookup(self@.members, name@) == Some(h@),
                None => lookup(self@.members, name@) is None,
            },
    {
        match &self.members {
            None => None,
            Some(members) => {
                proof {
                    assert(self@.members =~= member_views(*members));
                    lemma_lookup_mapped(
                        members.keyed(),
                        name@,
                        |hints: BinaryTypeHints| hints.view(),
                    );
                }
                members.get(name)
            },
        }
    }
}

/// What the hints for members say.
pub open spec fn member_views(members: StringMap<BinaryTypeHints>) -> Seq<(Seq<char>, HintsView)> {
    mapped(members.keyed(), |hints: BinaryTypeHints| hints.view())
}

/// Hints that say nothing.
pub open spec fn no_hints() -> HintsView {
    HintsView { own_kind: None, members: Seq::empty() }
}

impl Default for BinaryTypeHints {
    fn default() -> (hints: Self)
        ensures
            hints@ == no_hints(),
            hints.wf(),
    {
        BinaryTypeHints { own_kind: None, members: None }
    }
}

impl Clone for BinaryTypeHints {
    fn clone(&self) -> (copy: Self)
        ensures
            self.wf() ==> copy@ == self@,
        decreases self,
    {
        let members = match &self.members {
            None => None,
            Some(members) => {
                let ghost views = member_views(*members);
                let mut copies: StringMap<BinaryTypeHints> = StringMap::new();
                let mut i: usize = 0;
                assert(self@.members =~= views);
                assert(member_views(copies) =~= views.take(0));
                while i < members.len()
                    invariant
                        i <= members@.len(),
                        self.members == Some(*members),
                        views == member_views(*members),
                        self@.members == views,
                        copies.wf(),
                        self.wf() ==> member_views(copies) == views.take(i as int),
                    decreases members@.len() - i,
                {
                    let entry = members.entry(i);
                    proof {
                        lemma_entry_is_smaller(*members, i as int);
                    }
                    let copy = entry.1.clone();
                    let ghost before = copies.keyed();
                    copies.insert(entry.0.clone(), copy);
                    proof {
                        lemma_put_mapped(
                            before,
                            entry.0@,
                            copy,
                            |hints: BinaryTypeHints| hints.view(),
                        );
                        if self.wf() {
                            let seen = views.take(i as int);
                            assert(views[i as int] == (entry.0@, entry.1@));
                            assert(unambiguous(self@.members[i as int].1));
                            assert forall|j: int| 0 <= j < seen.len() implies (#[trigger] seen[j]).0
                                != entry.0@ by {
                                assert(views[j].0 != views[i as int].0);
                            }
                            assert(views.take(i + 1) =~= seen.push(views[i as int]));
                        }
                    }
                    i += 1;
                }
                assert(views.take(i as int) =~= views);
                Some(copies)
            },
        };
        let copy = BinaryTypeHints { own_kind: self.own_kind, members };
        assert(copy.members matches Some(copies) ==> copy@.members =~= member_views(copies));
        copy
    }
}

/// The Hermes number type that an F Prime element type stands for.
pub open spec fn kind_of_name(name: Seq<char>) -> Option<NumberKind> {
    if name == "U8"@ {
        Some(NumberKind::NumberU8)
    } else if name == "I8"@ {
        Some(NumberKind::NumberI8)
    } else if name == "U16"@ {
        Some(NumberKind::NumberU16)
    } else if name == "I16"@ {
        Some(NumberKind::NumberI16)
    } else if name == "U32"@ {
        Some(NumberKind::NumberU32)
    } else if name == "I32"@ {
        Some(NumberKind::NumberI32)
    } else if name == "U64"@ {
        Some(NumberKind::NumberU64)
    } else if name == "I64"@ {
        Some(NumberKind::NumberI64)
    } else if name == "F32"@ {
        Some(NumberKind::NumberF32)
    } else if name == "F64"@ {
        Some(NumberKind::NumberF64)
    } else {
        None
    }
}

/// Map an F Prime element type alias to the matching Hermes `NumberKind`.
pub fn numeric_kind_from_fprime_name(name: &str) -> (kind: Option<NumberKind>)
    ensures
        kind == kind_of_name(name@),
{
    let name: String = name.to_owned();
    if name == "U8".to_owned() {
        Some(NumberKind::NumberU8)
    } else if name == "I8".to_owned() {
        Some(NumberKind::NumberI8)
    } else if name == "U16".to_owned() {
        Some(NumberKind::NumberU16)
    } else if name == "I16".to_owned() {
        Some(NumberKind::NumberI16)
    } else if name == "U32".to_owned() {
        Some(NumberKind::NumberU32)
    } else if name == "I32".to_owned() {
        Some(NumberKind::NumberI32)
    } else if name == "U64".to_owned() {
        Some(NumberKind::NumberU64)
    } else if name == "I64".to_owned() {
        Some(NumberKind::NumberI64)
    } else if name == "F32".to_owned() {
        Some(NumberKind::NumberF32)
    } else if name == "F64".to_owned() {
        Some(NumberKind::NumberF64)
    } else {
        None
    }
}

/// Namespace of the aliases that give the F Prime type of array elements.
pub const FPRIME_ELEMENT_TYPE_ALIAS_NAMESPACE: &'static str = "fprime:elementType";

/// The alias gives the F Prime type of array elements.
pub open spec fn is_element_type_alias(alias: NamedObjectId) -> bool {
    alias.namespace matches Some(namespace) && namespace@ == FPRIME_ELEMENT_TYPE_ALIAS_NAMESPACE@
}

/// The number type that the first element type alias names. Later ones have no say, not even
/// where the first names no number type.
pub open spec fn kind_of_aliases(aliases: Seq<NamedObjectId>) -> Option<NumberKind>
    decreases aliases.len(),
{
    if aliases.len() == 0 {
        None
    } else if is_element_type_alias(aliases[0]) {
        kind_of_name(aliases[0].name@)
    } else {
        kind_of_aliases(aliases.drop_first())
    }
}

/// The number type that a list of aliases gives.
pub fn numeric_kind_from_aliases(aliases: &[NamedObjectId]) -> (kind: Option<NumberKind>)
    ensures
        kind == kind_of_aliases(aliases@),
{
    let wanted: String = FPRIME_ELEMENT_TYPE_ALIAS_NAMESPACE.to_owned();
    let mut i: usize = 0;
    assert(aliases@.skip(0) =~= aliases@);
    while i < aliases.len()
        invariant
            i <= aliases@.len(),
            wanted@ == FPRIME_ELEMENT_TYPE_ALIAS_NAMESPACE@,
            kind_of_aliases(aliases@) == kind_of_aliases(aliases@.skip(i as int)),
        decreases aliases@.len() - i,
    {
        let found = match &aliases[i].namespace {
            Some(namespace) => *namespace == wanted,
            None => false,
        };
        if found {
            return numeric_kind_from_fprime_name(aliases[i].name.as_str());
        }
        assert(aliases@.skip(i as int).drop_first() =~= aliases@.skip(i + 1));
        i += 1;
    }
    None
}

/// The hints for those of the first `n` members that have an element type.
pub open spec fn hints_for_members(members: Seq<ParameterMember>, n: nat) -> Seq<
    (Seq<char>, HintsView),
>
    decreases n,
{
    if n == 0 || n > members.len() {
        Seq::empty()
    } else {
        let before = hints_for_members(members, (n - 1) as nat);
        let member = members[n - 1];
        match kind_of_aliases(member.alias@) {
            Some(kind) => put(
                before,
                member.name@,
                HintsView { own_kind: Some(kind), members: Seq::empty() },
            ),
            None => before,
        }
    }
}

/// The hints that the definition of a parameter gives.
pub open spec fn hints_for(parameter: Parameter) -> HintsView {
    match parameter.parameter_type {
        None => no_hints(),
        Some(parameter_type) => HintsView {
            own_kind: kind_of_aliases(parameter_type.alias@),
            members: match parameter_type.member {
                Some(members) => hints_for_members(members@, members@.len()),
                None => Seq::empty(),
            },
        },
    }
}

/// Build binary type hints from a parameter's MDB definition.
pub fn binary_type_hints_for_parameter(parameter: &Parameter) -> (hints: BinaryTypeHints)
    ensures
        hints@ == hints_for(*parameter),
        hints.wf(),
{
    let parameter_type = match &parameter.parameter_type {
        None => {
            return BinaryTypeHints::default();
        },
        Some(parameter_type) => parameter_type,
    };
    let own_kind = numeric_kind_from_aliases(parameter_type.alias.as_slice());
    let definitions = match &parameter_type.member {
        None => {
            return BinaryTypeHints { own_kind, members: None };
        },
        Some(definitions) => definitions,
    };
    let mut members: StringMap<BinaryTypeHints> = StringMap::new();
    let mut i: usize = 0;
    assert(member_views(members) =~= Seq::empty());
    while i < definitions.len()
        invariant
            i <= definitions@.len(),
            members.wf(),
            member_views(members) == hints_for_members(definitions@, i as nat),
        decreases definitions@.len() - i,
    {
        let definition = &definitions[i];
        if let Some(kind) = numeric_kind_from_aliases(definition.alias.as_slice()) {
            let ghost before = members.keyed();
            let hints = BinaryTypeHints { own_kind: Some(kind), members: None };
            members.insert(definition.name.clone(), hints);
            proof {
                lemma_put_mapped(
                    before,
                    definition.name@,
                    hints,
                    |hints: BinaryTypeHints| hints.view(),
                );
            }
        }
        i += 1;
    }
    let hints = BinaryTypeHints { own_kind, members: Some(members) };
    assert(hints@.members =~= member_views(members));
    proof {
        lemma_member_hints_are_unambiguous(definitions@, definitions@.len());
    }
    hints
}

/// No member has two hints, and the hints of a member are for itself alone.
proof fn lemma_member_hints_are_unambiguous(members: Seq<ParameterMember>, n: nat)
    requires
        n <= members.len(),
    ensures
        distinct_keys(hints_for_members(members, n)),
        forall|i: int|
            0 <= i < hints_for_members(members, n).len() ==> unambiguous(
                (#[trigger] hints_for_members(members, n)[i]).1,
            ),
    decreases n,
{
    if n > 0 {
        lemma_member_hints_are_unambiguous(members, (n - 1) as nat);
        let before = hints_for_members(members, (n - 1) as nat);
        let member = members[n - 1];
        if let Some(kind) = kind_of_aliases(member.alias@) {
            let hints = HintsView { own_kind: Some(kind), members: Seq::empty() };
            lemma_put_gives_the_value(before, member.name@, hints, member.name@);
            assert(unambiguous(hints));
            let after = put(before, member.name@, hints);
            assert forall|i: int| 0 <= i < after.len() implies unambiguous(
                (#[trigger] after[i]).1,
            ) by {
                if i < before.len() {
                    assert(unambiguous(before[i].1));
                }
            }
        }
    }
}

/// Each name has the hint of the last member that goes by it and has an element type.
pub proof fn lemma_hint_goes_by_member_name(members: Seq<ParameterMember>, i: int)
    requires
        0 <= i < members.len(),
        kind_of_aliases(members[i].alias@) is Some,
        forall|j: int|
            i < j < members.len() && kind_of_aliases(members[j].alias@) is Some
                ==> (#[trigger] members[j]).name@ != members[i].name@,
    ensures
        distinct_keys(hints_for_members(members, members.len())),
        lookup(hints_for_members(members, members.len()), members[i].name@) == Some(
            HintsView { own_kind: kind_of_aliases(members[i].alias@), members: Seq::empty() },
        ),
{
    lemma_first_hints_by_name(members, members.len(), i);
}

proof fn lemma_first_hints_by_name(members: Seq<ParameterMember>, n: nat, i: int)
    requires
        n <= members.len(),
        0 <= i < members.len(),
        kind_of_aliases(members[i].alias@) is Some,
        forall|j: int|
            i < j < n && kind_of_aliases(members[j].alias@) is Some
                ==> (#[trigger] members[j]).name@ != members[i].name@,
    ensures
        distinct_keys(hints_for_members(members, n)),
        i < n ==> lookup(hints_for_members(members, n), members[i].name@) == Some(
            HintsView { own_kind: kind_of_aliases(members[i].alias@), members: Seq::empty() },
        ),
    decreases n,
{
    if n > 0 {
        lemma_first_hints_by_name(members, (n - 1) as nat, i);
        let member = members[n - 1];
        if let Some(kind) = kind_of_aliases(member.alias@) {
            lemma_put_gives_the_value(
                hints_for_members(members, (n - 1) as nat),
                member.name@,
                HintsView { own_kind: Some(kind), members: Seq::empty() },
                members[i].name@,
            );
        }
    }
}

/// A name without a member that has an element type has no hint.
pub proof fn lemma_other_names_have_no_hint(members: Seq<ParameterMember>, name: Seq<char>)
    requires
        forall|j: int|
            0 <= j < members.len() && kind_of_aliases(members[j].alias@) is Some
                ==> (#[trigger] members[j]).name@ != name,
    ensures
        lookup(hints_for_members(members, members.len()), name) is None,
{
    lemma_first_hints_leave_name_out(members, members.len(), name);
}

proof fn lemma_first_hints_leave_name_out(members: Seq<ParameterMember>, n: nat, name: Seq<char>)
    requires
        n <= members.len(),
        forall|j: int|
            0 <= j < n && kind_of_aliases(members[j].alias@) is Some
                ==> (#[trigger] members[j]).name@ != name,
    ensures
        distinct_keys(hints_for_members(members, n)),
        lookup(hints_for_members(members, n), name) is None,
    decreases n,
{
    if n > 0 {
        lemma_first_hints_leave_name_out(members, (n - 1) as nat, name);
        let member = members[n - 1];
        if let Some(kind) = kind_of_aliases(member.alias@) {
            lemma_put_gives_the_value(
                hints_for_members(members, (n - 1) as nat),
                member.name@,
                HintsView { own_kind: Some(kind), members: Seq::empty() },
                name,
            );
        }
    }
}

} // verus!
