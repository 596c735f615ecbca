//! Helpers over lists of player names (`Vec<String>` viewed as sequences of
//! character sequences).
use vstd::hash_map::StringHashMap;
use vstd::prelude::*;

verus! {

broadcast use vstd::seq_lib::group_seq_properties;

/// The character sequences of a list of names.
pub open spec fn names(v: Seq<String>) -> Seq<Seq<char>> {
    v.map_values(|s: String| s@)
}

/// `names` of a list with one more element.
pub proof fn lemma_names_push(v: Seq<String>, s: String)
    ensures
        names(v.push(s)) == names(v).push(s@),
{
    assert(names(v.push(s)) =~= names(v).push(s@));
}

/// The predicate "is not `name`".
pub open spec fn not_named(name: Seq<char>) -> spec_fn(Seq<char>) -> bool {
    |x: Seq<char>| x != name
}

/// A copy of a list of names.
pub fn clone_names(v: &Vec<String>) -> (r: Vec<String>)
    ensures
        names(r@) == names(v@),
{
    let mut r: Vec<String> = Vec::new();
    let mut i: usize = 0;
    while i < v.len()
        invariant
            i <= v.len(),
            names(r@) == names(v@.take(i as int)),
        decreases v.len() - i,
    {
        let s = v[i].clone();
        proof {
            lemma_names_push(r@, s);
            assert(v@.take(i + 1) =~= v@.take(i as int).push(v@[i as int]));
            lemma_names_push(v@.take(i as int), v@[i as int]);
        }
        r.push(s);
        i = i + 1;
    }
    assert(v@.take(v.len() as int) =~= v@);
    r
}

/// The list without every entry equal to `name`, keeping the order of the rest.
pub fn without_name(v: &Vec<String>, name: &String) -> (r: Vec<String>)
    ensures
        names(r@) == names(v@).filter(not_named(name@)),
{
    let ghost pred = not_named(name@);
    let mut r: Vec<String> = Vec::new();
    let mut i: usize = 0;
    while i < v.len()
        invariant
            i <= v.len(),
            pred == not_named(name@),
            names(r@) == names(v@.take(i as int)).filter(pred),
        decreases v.len() - i,
    {
        proof {
            assert(v@.take(i + 1) =~= v@.take(i as int).push(v@[i as int]));
            lemma_names_push(v@.take(i as int), v@[i as int]);
            names(v@.take(i as int)).lemma_filter_push(v@[i as int]@, pred);
        }
        if v[i] != *name {
            let s = v[i].clone();
            proof {
                lemma_names_push(r@, s);
            }
            r.push(s);
        }
        i = i + 1;
    }
    assert(v@.take(v.len() as int) =~= v@);
    r
}

/// Whether `name` occurs in the list.
pub fn contains_name(v: &Vec<String>, name: &String) -> (r: bool)
    ensures
        r == names(v@).contains(name@),
{
    let mut i: usize = 0;
    while i < v.len()
        invariant
            i <= v.len(),
            forall|j: int| 0 <= j < i ==> v@[j]@ != name@,
        decreases v.len() - i,
    {
        if v[i] == *name {
            assert(names(v@)[i as int] == name@);
            return true;
        }
        i = i + 1;
    }
    proof {
        if names(v@).contains(name@) {
            let j = choose|j: int| 0 <= j < names(v@).len() && names(v@)[j] == name@;
            assert(v@[j]@ == name@);
        }
    }
    false
}


/// Removes every name of `list` from the keys of `m`.
pub fn remove_all_names<V>(m: &mut StringHashMap<V>, list: &Vec<String>)
    ensures
        final(m)@ == old(m)@.remove_keys(names(list@).to_set()),
{
    let ghost m0 = m@;
    let mut i: usize = 0;
    while i < list.len()
        invariant
            i <= list.len(),
            m@ == m0.remove_keys(names(list@.take(i as int)).to_set()),
        decreases list.len() - i,
    {
        m.remove(list[i].as_str());
        proof {
            assert(list@.take(i + 1) =~= list@.take(i as int).push(list@[i as int]));
            lemma_names_push(list@.take(i as int), list@[i as int]);
            names(list@.take(i as int)).lemma_push_to_set_commute(list@[i as int]@);
        }
        i = i + 1;
        assert(m@ =~= m0.remove_keys(names(list@.take(i as int)).to_set()));
    }
    assert(list@.take(list.len() as int) =~= list@);
}

} // verus!
