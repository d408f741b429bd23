//! Qualified names.

use vstd::prelude::*;

use crate::convert::names::{
    lemma_leading_slash_is_ignored, lemma_split_makes_up_the_name, split_qualified_name,
    without_leading_slashes,
};

verus! {

/// The first `k` characters are slashes, and no further one follows them.
pub open spec fn starts_with_slashes(text: Seq<char>, k: int) -> bool {
    &&& 0 <= k <= text.len()
    &&& forall|i: int| 0 <= i < k ==> #[trigger] text[i] == '/'
    &&& k < text.len() ==> text[k] != '/'
}

/// Once the slashes in front are gone, the component and the name are what stands before and
/// behind the last slash; without a slash, all of it is the name.
pub proof fn law_split_at_the_last_slash(qualified_name: &str, split: (String, String), k: int)
    requires
        call_ensures(split_qualified_name, (qualified_name,), split),
        starts_with_slashes(qualified_name@, k),
    ensures
        !split.1@.contains('/'),
        ({
            let rest = qualified_name@.skip(k);
            if rest.contains('/') {
                rest == split.0@.push('/') + split.1@
            } else {
                split.0@.len() == 0 && rest == split.1@
            }
        }),
{
    let text = qualified_name@;
    lemma_split_makes_up_the_name(text);
    lemma_slashes_go(text, k);
    assert(split.0@ + seq!['/'] + split.1@ =~= split.0@.push('/') + split.1@);
}

proof fn lemma_slashes_go(text: Seq<char>, k: int)
    requires
        starts_with_slashes(text, k),
    ensures
        without_leading_slashes(text) == text.skip(k),
    decreases k,
{
    if k == 0 {
        assert(text.skip(0) =~= text);
    } else {
        assert(text[0] == '/');
        let rest = text.drop_first();
        assert forall|i: int| 0 <= i < k - 1 implies #[trigger] rest[i] == '/' by {
            assert(rest[i] == text[i + 1]);
        }
        lemma_slashes_go(rest, k - 1);
        assert(rest.skip(k - 1) =~= text.skip(k));
    }
}

/// A slash in front makes no difference.
pub proof fn law_slash_in_front_makes_no_difference(
    bare: &str,
    slashed: &str,
    split_bare: (String, String),
    split_slashed: (String, String),
)
    requires
        slashed@ == seq!['/'] + bare@,
        call_ensures(split_qualified_name, (bare,), split_bare),
        call_ensures(split_qualified_name, (slashed,), split_slashed),
    ensures
        split_bare.0@ == split_slashed.0@,
        split_bare.1@ == split_slashed.1@,
{
    lemma_leading_slash_is_ignored(bare@);
}

} // verus!
