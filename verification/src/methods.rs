//! Lists keyed by the name of a custom RPC method.

use vstd::prelude::*;

verus! {

/// The amount that a list gives to the method named `m`: the last entry for that name.
pub open spec fn custom_amount(amounts: Seq<(String, u64)>, m: Seq<char>) -> Option<u64>
    decreases amounts.len(),
{
    if amounts.len() == 0 {
        None
    } else if amounts.last().0@ == m {
        Some(amounts.last().1)
    } else {
        custom_amount(amounts.drop_last(), m)
    }
}

/// Whether a list of names holds the name `m`.
pub open spec fn lists_method(names: Seq<String>, m: Seq<char>) -> bool
    decreases names.len(),
{
    if names.len() == 0 {
        false
    } else {
        lists_method(names.drop_last(), m) || names.last()@ == m
    }
}

/// A list of amounts without the entries for the method named `m`.
pub open spec fn amounts_without(amounts: Seq<(String, u64)>, m: Seq<char>) -> Seq<(String, u64)>
    decreases amounts.len(),
{
    if amounts.len() == 0 {
        amounts
    } else if amounts.last().0@ == m {
        amounts_without(amounts.drop_last(), m)
    } else {
        amounts_without(amounts.drop_last(), m).push(amounts.last())
    }
}

/// A list of names without the name `m`.
pub open spec fn names_without(names: Seq<String>, m: Seq<char>) -> Seq<String>
    decreases names.len(),
{
    if names.len() == 0 {
        names
    } else if names.last()@ == m {
        names_without(names.drop_last(), m)
    } else {
        names_without(names.drop_last(), m).push(names.last())
    }
}

/// Dropping the entries for `m` leaves no amount for `m` and every other amount as it was.
pub proof fn lemma_amounts_without(amounts: Seq<(String, u64)>, m: Seq<char>, n: Seq<char>)
    ensures
        custom_amount(amounts_without(amounts, m), n) == if n == m {
            None
        } else {
            custom_amount(amounts, n)
        },
    decreases amounts.len(),
{
    if amounts.len() > 0 {
        lemma_amounts_without(amounts.drop_last(), m, n);
        let rest = amounts_without(amounts.drop_last(), m);
        if amounts.last().0@ != m {
            assert(rest.push(amounts.last()).drop_last() =~= rest);
        }
    }
}

/// Dropping the name `m` leaves every other name listed as it was.
pub proof fn lemma_names_without(names: Seq<String>, m: Seq<char>, n: Seq<char>)
    ensures
        lists_method(names_without(names, m), n) == (n != m && lists_method(names, n)),
    decreases names.len(),
{
    if names.len() > 0 {
        lemma_names_without(names.drop_last(), m, n);
        let rest = names_without(names.drop_last(), m);
        if names.last()@ != m {
            assert(rest.push(names.last()).drop_last() =~= rest);
        }
    }
}

/// The amount of the method named `m`, looked up in a list.
pub fn find_custom_amount(amounts: &Vec<(String, u64)>, m: &String) -> (r: Option<u64>)
    ensures
        r == custom_amount(amounts@, m@),
{
    let mut found: Option<u64> = None;
    let mut i: usize = 0;
    while i < amounts.len()
        invariant
            i <= amounts.len(),
            found == custom_amount(amounts@.take(i as int), m@),
        decreases amounts.len() - i,
    {
        proof {
            assert(amounts@.take(i + 1).drop_last() =~= amounts@.take(i as int));
        }
        if amounts[i].0 == *m {
            found = Some(amounts[i].1);
        }
        i += 1;
    }
    proof {
        assert(amounts@.take(amounts@.len() as int) =~= amounts@);
    }
    found
}

/// Whether a list of names holds the name `m`.
pub fn find_method(names: &Vec<String>, m: &String) -> (r: bool)
    ensures
        r == lists_method(names@, m@),
{
    let mut found = false;
    let mut i: usize = 0;
    while i < names.len()
        invariant
            i <= names.len(),
            found == lists_method(names@.take(i as int), m@),
        decreases names.len() - i,
    {
        proof {
            assert(names@.take(i + 1).drop_last() =~= names@.take(i as int));
        }
        if names[i] == *m {
            found = true;
        }
        i += 1;
    }
    proof {
        assert(names@.take(names@.len() as int) =~= names@);
    }
    found
}

/// A copy of a list of amounts without the entries for the method named `m`.
pub fn remove_custom_amount(amounts: &Vec<(String, u64)>, m: &String) -> (r: Vec<(String, u64)>)
    ensures
        r@ == amounts_without(amounts@, m@),
{
    let mut kept: Vec<(String, u64)> = Vec::new();
    let mut i: usize = 0;
    while i < amounts.len()
        invariant
            i <= amounts.len(),
            kept@ == amounts_without(amounts@.take(i as int), m@),
        decreases amounts.len() - i,
    {
        proof {
            assert(amounts@.take(i + 1).drop_last() =~= amounts@.take(i as int));
        }
        if !(amounts[i].0 == *m) {
            let name = amounts[i].0.clone();
            kept.push((name, amounts[i].1));
        }
        i += 1;
    }
    proof {
        assert(amounts@.take(amounts@.len() as int) =~= amounts@);
    }
    kept
}

/// A copy of a list of names without the name `m`.
pub fn remove_method(names: &Vec<String>, m: &String) -> (r: Vec<String>)
    ensures
        r@ == names_without(names@, m@),
{
    let mut kept: Vec<String> = Vec::new();
    let mut i: usize = 0;
    while i < names.len()
        invariant
            i <= names.len(),
            kept@ == names_without(names@.take(i as int), m@),
        decreases names.len() - i,
    {
        proof {
            assert(names@.take(i + 1).drop_last() =~= names@.take(i as int));
        }
        if !(names[i] == *m) {
            kept.push(names[i].clone());
        }
        i += 1;
    }
    proof {
        assert(names@.take(names@.len() as int) =~= names@);
    }
    kept
}

} // verus!
