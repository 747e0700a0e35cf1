//! Ordered lists of names: the columns that a statement declares, and the
//! variants that an enumeration declares.
use vstd::prelude::*;

verus! {

/// The contents of the strings of a vector, in order.
pub open spec fn name_views(names: Vec<String>) -> Seq<Seq<char>> {
    Seq::new(names@.len(), |i: int| names@[i]@)
}

/// The position of the first name of the list that equals `name` exactly
/// (case matters), where there is one.
pub open spec fn position(names: Seq<Seq<char>>, name: Seq<char>) -> Option<int>
    decreases names.len(),
{
    if names.len() == 0 {
        None
    } else if names[0] == name {
        Some(0)
    } else {
        match position(names.skip(1), name) {
            Some(i) => Some(i + 1),
            None => None,
        }
    }
}

/// A position that `position` finds lies in the list, holds the name, and
/// no earlier one does; where it finds none, the name is not in the list.
pub proof fn lemma_position(names: Seq<Seq<char>>, name: Seq<char>)
    ensures
        match position(names, name) {
            Some(i) => 0 <= i < names.len() && names[i] == name && forall|k: int|
                0 <= k < i ==> names[k] != name,
            None => forall|k: int| 0 <= k < names.len() ==> names[k] != name,
        },
    decreases names.len(),
{
    if names.len() > 0 && names[0] != name {
        let rest = names.skip(1);
        lemma_position(rest, name);
        assert(forall|k: int| 0 <= k < rest.len() ==> rest[k] == names[k + 1]);
        match position(rest, name) {
            Some(i) => {
                assert forall|k: int| 0 <= k < i + 1 implies names[k] != name by {
                    if k > 0 {
                        assert(rest[k - 1] == names[k]);
                    }
                }
            },
            None => {
                assert forall|k: int| 0 <= k < names.len() implies names[k] != name by {
                    if k > 0 {
                        assert(rest[k - 1] == names[k]);
                    }
                }
            },
        }
    }
}

/// The first position that holds the name is the one that `position`
/// finds.
pub proof fn lemma_position_first(names: Seq<Seq<char>>, name: Seq<char>, at: int)
    requires
        0 <= at < names.len(),
        names[at] == name,
        forall|k: int| 0 <= k < at ==> names[k] != name,
    ensures
        position(names, name) == Some(at),
{
    lemma_position(names, name);
}

/// Finds the first name of the list that equals `name` exactly.
pub fn find_name(names: &Vec<String>, name: &String) -> (r: Option<usize>)
    ensures
        match r {
            Some(i) => position(name_views(*names), name@) == Some(i as int),
            None => position(name_views(*names), name@) == None::<int>,
        },
{
    let ghost list = name_views(*names);
    let mut i: usize = 0;
    while i < names.len()
        invariant
            i <= names.len(),
            list == name_views(*names),
            forall|k: int| 0 <= k < i ==> list[k] != name@,
        decreases names.len() - i,
    {
        if names[i] == *name {
            proof {
                lemma_position_first(list, name@, i as int);
            }
            return Some(i);
        }
        i += 1;
    }
    proof {
        lemma_position(list, name@);
    }
    None
}

} // verus!
