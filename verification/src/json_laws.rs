//! How a JSON object is put together.

use vstd::prelude::*;

verus! {

/// One member of an object: its name in quotes, a colon, and its value.
pub open spec fn member(name: Seq<char>, value: Seq<char>) -> Seq<char> {
    seq!['"'] + name + seq!['"', ':'] + value
}

/// The members of an object, with commas between them.
pub open spec fn members(ms: Seq<(Seq<char>, Seq<char>)>) -> Seq<char>
    decreases ms.len(),
{
    if ms.len() == 0 {
        Seq::empty()
    } else if ms.len() == 1 {
        member(ms[0].0, ms[0].1)
    } else {
        members(ms.drop_last()) + seq![','] + member(ms.last().0, ms.last().1)
    }
}

/// An object with these members, in this order.
pub open spec fn object(ms: Seq<(Seq<char>, Seq<char>)>) -> Seq<char> {
    seq!['{'] + members(ms) + seq!['}']
}

/// One more member follows a comma.
pub proof fn members_grow(ms: Seq<(Seq<char>, Seq<char>)>, name: Seq<char>, value: Seq<char>)
    requires
        ms.len() > 0,
    ensures
        members(ms.push((name, value))) == members(ms) + seq![','] + member(name, value),
{
    assert(ms.push((name, value)).drop_last() =~= ms);
}

/// An object that was begun grows by one member: what is written is a comma, the
/// name in quotes, a colon and the value.
pub proof fn object_grows(
    begun: Seq<char>,
    ms: Seq<(Seq<char>, Seq<char>)>,
    lead: Seq<char>,
    name: Seq<char>,
    value: Seq<char>,
)
    requires
        ms.len() > 0,
        begun == seq!['{'] + members(ms),
        lead == seq![',', '"'] + name + seq!['"', ':'],
    ensures
        begun + lead + value == seq!['{'] + members(ms.push((name, value))),
        begun + (lead + value) == seq!['{'] + members(ms.push((name, value))),
{
    members_grow(ms, name, value);
    assert(begun + lead + value =~= seq!['{'] + members(ms.push((name, value))));
    assert(begun + (lead + value) =~= begun + lead + value);
}

/// An object begins with a brace and its first member.
pub proof fn object_begins(lead: Seq<char>, name: Seq<char>, value: Seq<char>)
    requires
        lead == seq!['{', '"'] + name + seq!['"', ':'],
    ensures
        lead + value == seq!['{'] + members(seq![(name, value)]),
{
    assert(lead + value =~= seq!['{'] + member(name, value));
}

} // verus!
