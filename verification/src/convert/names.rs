//! Qualified names of parameters.

use vstd::prelude::*;
use vstd::string::StrSliceExecFns;

verus! {

/// The name without the slashes that it starts with.
pub open spec fn without_leading_slashes(name: Seq<char>) -> Seq<char>
    decreases name.len(),
{
    if name.len() > 0 && name[0] == '/' {
        without_leading_slashes(name.drop_first())
    } else {
        name
    }
}

/// Where the last slash stands, or -1 where there is none.
pub open spec fn last_slash(name: Seq<char>) -> int
    decreases name.len(),
{
    if name.len() == 0 {
        -1
    } else if name.last() == '/' {
        name.len() - 1
    } else {
        last_slash(name.drop_last())
    }
}

/// What stands before the last slash of a qualified name, or nothing.
pub open spec fn component_of(qualified_name: Seq<char>) -> Seq<char> {
    let trimmed = without_leading_slashes(qualified_name);
    if last_slash(trimmed) < 0 {
        Seq::empty()
    } else {
        trimmed.take(last_slash(trimmed))
    }
}

/// What stands behind the last slash of a qualified name, or all of it.
pub open spec fn name_of(qualified_name: Seq<char>) -> Seq<char> {
    let trimmed = without_leading_slashes(qualified_name);
    trimmed.skip(last_slash(trimmed) + 1)
}

/// The characters of a string.
fn characters(text: &str) -> (chars: Vec<char>)
    ensures
        chars@ == text@,
{
    let mut chars: Vec<char> = Vec::new();
    for c in it: text.chars()
        invariant
            it.seq() == text@,
            chars@ == text@.take(it.index()),
    {
        chars.push(c);
    }
    assert(chars@ =~= text@);
    chars
}

/// Split a YAMCS qualified name into component and name
/// E.g., "/BigData/bigDataComponent/Counter" -> ("BigData/bigDataComponent", "Counter")
pub fn split_qualified_name(qualified_name: &str) -> (split: (String, String))
    ensures
        split.0@ == component_of(qualified_name@),
        split.1@ == name_of(qualified_name@),
{
    let chars = characters(qualified_name);
    let ghost text = qualified_name@;
    let len: usize = chars.len();
    let mut start: usize = 0;
    assert(text.skip(0) =~= text);
    while start < len && chars[start] == '/'
        invariant
            start <= len,
            len == chars@.len(),
            chars@ == text,
            without_leading_slashes(text) == without_leading_slashes(text.skip(start as int)),
        decreases len - start,
    {
        assert(text.skip(start as int).drop_first() =~= text.skip(start + 1));
        start += 1;
    }
    let ghost trimmed = text.skip(start as int);
    assert(without_leading_slashes(text) == trimmed);
    let mut end: usize = len;
    assert(trimmed.take(trimmed.len() as int) =~= trimmed);
    while start < end
        invariant
            start <= end <= len,
            len == chars@.len(),
            chars@ == text,
            text == qualified_name@,
            trimmed == text.skip(start as int),
            without_leading_slashes(text) == trimmed,
            last_slash(trimmed) == last_slash(trimmed.take(end - start)),
        decreases end - start,
    {
        assert(trimmed.take(end - start).last() == chars@[end - 1]);
        if chars[end - 1] == '/' {
            let component = qualified_name.substring_char(start, end - 1).to_owned();
            let name = qualified_name.substring_char(end, len).to_owned();
            assert(component@ =~= trimmed.take(end - start - 1));
            assert(name@ =~= trimmed.skip(end - start));
            return (component, name);
        }
        assert(trimmed.take(end - start).drop_last() =~= trimmed.take(end - start - 1));
        end -= 1;
    }
    // No slash found, use the whole thing as name and empty component
    let name = qualified_name.substring_char(start, len).to_owned();
    assert(name@ =~= trimmed);
    assert(trimmed.skip(0) =~= trimmed);
    (String::new(), name)
}

/// The parts of a qualified name make it up again: the name holds no slash, and with a slash
/// between them the two parts are the qualified name without the slashes in front. Where there
/// is no slash left, the component is empty.
pub proof fn lemma_split_makes_up_the_name(qualified_name: Seq<char>)
    ensures
        !name_of(qualified_name).contains('/'),
        ({
            let trimmed = without_leading_slashes(qualified_name);
            if trimmed.contains('/') {
                trimmed == component_of(qualified_name) + seq!['/'] + name_of(qualified_name)
            } else {
                component_of(qualified_name) == Seq::<char>::empty() && name_of(qualified_name)
                    == trimmed
            }
        }),
{
    let trimmed = without_leading_slashes(qualified_name);
    let at = last_slash(trimmed);
    lemma_last_slash(trimmed);
    let name = name_of(qualified_name);
    assert forall|i: int| 0 <= i < name.len() implies name[i] != '/' by {
        assert(name[i] == trimmed[at + 1 + i]);
    }
    if trimmed.contains('/') {
        let i = choose|i: int| 0 <= i < trimmed.len() && trimmed[i] == '/';
        assert(at >= i);
        assert(trimmed =~= component_of(qualified_name) + seq!['/'] + name);
    } else {
        if at >= 0 {
            assert(trimmed.contains(trimmed[at]));
        }
        assert(name =~= trimmed);
    }
}

proof fn lemma_last_slash(name: Seq<char>)
    ensures
        -1 <= last_slash(name) < name.len(),
        last_slash(name) >= 0 ==> name[last_slash(name)] == '/',
        forall|i: int| last_slash(name) < i < name.len() ==> name[i] != '/',
    decreases name.len(),
{
    if name.len() > 0 && name.last() != '/' {
        lemma_last_slash(name.drop_last());
        assert forall|i: int| last_slash(name) < i < name.len() implies name[i] != '/' by {
            if i < name.len() - 1 {
                assert(name.drop_last()[i] == name[i]);
            }
        }
    }
}

/// A leading slash has no part in the split: a name means the same with and without it.
pub proof fn lemma_leading_slash_is_ignored(qualified_name: Seq<char>)
    ensures
        component_of(seq!['/'] + qualified_name) == component_of(qualified_name),
        name_of(seq!['/'] + qualified_name) == name_of(qualified_name),
{
    assert((seq!['/'] + qualified_name).drop_first() =~= qualified_name);
}

} // verus!
