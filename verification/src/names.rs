//! Names of placeholders that differ from one another.
//!
//! A name is drawn at random. Should it stand in the list already, the first
//! free name in counting order takes its place, so that a list of names holds
//! none twice, as long as it is shorter than counting reaches.

use crate::numbers::{is_digit, lemma_padded, padded, power_of_ten, push_padded};
use crate::sql::{get_rand_param, is_placeholder_name, names_view};
use vstd::prelude::*;
use vstd::set_lib::{lemma_int_range, lemma_len_subset, set_int_range};

verus! {

/// The number of names that counting tells apart: ten to the power of ten.
pub const COUNTED_NAMES: u64 = 10_000_000_000;

/// Whether no text stands twice in `names`.
pub open spec fn pairwise_different(names: Seq<Seq<char>>) -> bool {
    forall|i: int, j: int|
        #![trigger names[i], names[j]]
        0 <= i < j < names.len() ==> names[i] != names[j]
}

/// The name with the number `k`: a colon and the ten digits of `k`.
pub open spec fn numbered_name(k: nat) -> Seq<char> {
    seq![':'] + padded(k, 10)
}

/// Names with different numbers differ.
pub proof fn lemma_numbered_names_differ(a: nat, b: nat)
    requires
        a < COUNTED_NAMES,
        b < COUNTED_NAMES,
        a != b,
    ensures
        numbered_name(a) != numbered_name(b),
{
    lemma_padded(a, 10);
    lemma_padded(b, 10);
    assert(power_of_ten(0) == 1);
    assert(power_of_ten(1) == 10);
    assert(power_of_ten(2) == 100);
    assert(power_of_ten(3) == 1_000);
    assert(power_of_ten(4) == 10_000);
    assert(power_of_ten(5) == 100_000);
    assert(power_of_ten(6) == 1_000_000);
    assert(power_of_ten(7) == 10_000_000);
    assert(power_of_ten(8) == 100_000_000);
    assert(power_of_ten(9) == 1_000_000_000);
    assert(power_of_ten(10) == 10_000_000_000);
    assert(numbered_name(a).subrange(1, 11) =~= padded(a, 10));
    assert(numbered_name(b).subrange(1, 11) =~= padded(b, 10));
}

/// A numbered name is the name of a placeholder.
pub proof fn lemma_numbered_name_is_placeholder(k: nat)
    ensures
        is_placeholder_name(numbered_name(k)),
{
    lemma_padded(k, 10);
    let name = numbered_name(k);
    assert forall|i: int| 1 <= i < 11 implies crate::text::ascii_alphanumeric(
        #[trigger] name[i],
    ) by {
        assert(name[i] == padded(k, 10)[i - 1]);
        assert(is_digit(padded(k, 10)[i - 1]));
    }
}

/// As many different indices below `n` as `hits` holds there cannot be, if
/// `hits` is longer than `n`.
proof fn lemma_pigeonhole(hits: Seq<int>, n: int)
    requires
        0 <= n,
        hits.no_duplicates(),
        forall|j: int| 0 <= j < hits.len() ==> 0 <= #[trigger] hits[j] < n,
    ensures
        hits.len() <= n,
{
    hits.unique_seq_to_set();
    lemma_int_range(0, n);
    assert(hits.to_set().subset_of(set_int_range(0, n))) by {
        assert forall|v: int| hits.to_set().contains(v) implies set_int_range(0, n).contains(
            v,
        ) by {
            let j = choose|j: int| 0 <= j < hits.len() && hits[j] == v;
            assert(0 <= hits[j] < n);
        }
    }
    lemma_len_subset(hits.to_set(), set_int_range(0, n));
}

/// The name with the number `k`.
pub fn name_of_number(k: u64) -> (name: String)
    ensures
        name@ == numbered_name(k as nat),
        is_placeholder_name(name@),
{
    let mut name = String::new();
    name.push(':');
    push_padded(&mut name, k, 10);
    proof {
        lemma_numbered_name_is_placeholder(k as nat);
        assert(name@ =~= numbered_name(k as nat));
    }
    name
}

/// The index of the first of `names` that is `name`, if `name` is among them.
pub fn position_of(names: &Vec<String>, name: &String) -> (at: Option<usize>)
    ensures
        match at {
            Some(i) => i < names.len() && names[i as int]@ == name@ && forall|j: int|
                0 <= j < i ==> (#[trigger] names[j])@ != name@,
            None => forall|i: int| 0 <= i < names.len() ==> (#[trigger] names[i])@ != name@,
        },
{
    let mut i: usize = 0;
    while i < names.len()
        invariant
            i <= names.len(),
            forall|j: int| 0 <= j < i ==> (#[trigger] names[j])@ != name@,
        decreases names.len() - i,
    {
        if names[i] == *name {
            return Some(i);
        }
        i += 1;
    }
    None
}

/// Whether `name` is among `names`.
pub open spec fn is_taken(names: Seq<Seq<char>>, name: Seq<char>) -> bool {
    exists|i: int| 0 <= i < names.len() && #[trigger] names[i] == name
}

/// Whether `k` is the first number whose name is not among `names`.
pub open spec fn is_first_free(names: Seq<Seq<char>>, k: nat) -> bool {
    &&& !is_taken(names, numbered_name(k))
    &&& forall|j: nat| j < k ==> is_taken(names, #[trigger] numbered_name(j))
}

/// The first name in counting order that is not among `names`. Its number is
/// at most `names.len()`; `None` only where the list is longer than counting
/// reaches.
pub fn first_free_name(names: &Vec<String>) -> (free: Option<String>)
    ensures
        names.len() < COUNTED_NAMES ==> free is Some,
        free matches Some(name) ==> exists|k: nat|
            k <= names.len() && k < COUNTED_NAMES && name@ == #[trigger] numbered_name(k)
                && is_first_free(names_view(names@), k),
        free matches Some(name) ==> is_placeholder_name(name@) && !is_taken(
            names_view(names@),
            name@,
        ),
{
    let ghost held = names_view(names@);
    let mut k: u64 = 0;
    let ghost mut hits: Seq<int> = Seq::empty();
    while k < COUNTED_NAMES
        invariant
            k <= COUNTED_NAMES,
            held == names_view(names@),
            hits.len() == k,
            forall|j: int|
                0 <= j < k ==> 0 <= #[trigger] hits[j] < held.len() && held[hits[j]]
                    == numbered_name(j as nat),
        decreases COUNTED_NAMES - k,
    {
        let name = name_of_number(k);
        match position_of(names, &name) {
            None => {
                proof {
                    lemma_hits_differ(held, hits);
                    lemma_pigeonhole(hits, held.len() as int);
                    assert(!is_taken(held, name@)) by {
                        assert forall|i: int| 0 <= i < held.len() implies #[trigger] held[i]
                            != name@ by {
                            assert(held[i] == names[i]@);
                        }
                    }
                    assert forall|j: nat| j < k implies is_taken(
                        held,
                        #[trigger] numbered_name(j),
                    ) by {
                        assert(held[hits[j as int]] == numbered_name(j));
                    }
                    assert(is_first_free(held, k as nat));
                }
                return Some(name);
            },
            Some(at) => {
                proof {
                    assert(held[at as int] == names[at as int]@);
                    hits = hits.push(at as int);
                }
            },
        }
        k += 1;
    }
    proof {
        if names.len() < COUNTED_NAMES {
            lemma_hits_differ(held, hits);
            lemma_pigeonhole(hits, held.len() as int);
        }
    }
    None
}

/// Indices at which the numbered names stand, one for each number, are all
/// different.
proof fn lemma_hits_differ(names: Seq<Seq<char>>, hits: Seq<int>)
    requires
        hits.len() <= COUNTED_NAMES,
        forall|j: int|
            0 <= j < hits.len() ==> 0 <= #[trigger] hits[j] < names.len() && names[hits[j]]
                == numbered_name(j as nat),
    ensures
        hits.no_duplicates(),
{
    assert forall|a: int, b: int| 0 <= a < hits.len() && 0 <= b < hits.len() && a != b implies hits[a]
        != hits[b] by {
        lemma_numbered_names_differ(a as nat, b as nat);
    }
}

/// A name for a placeholder that is not among `names`: one drawn at random,
/// or, should that one be taken, the first free name in counting order.
pub fn fresh_name(names: &Vec<String>) -> (name: String)
    ensures
        is_placeholder_name(name@),
        names.len() < COUNTED_NAMES ==> !is_taken(names_view(names@), name@),
{
    let drawn = get_rand_param();
    match position_of(names, &drawn) {
        None => {
            assert(!is_taken(names_view(names@), drawn@)) by {
                assert forall|i: int| 0 <= i < names.len() implies #[trigger] names_view(names@)[i]
                    != drawn@ by {
                    assert(names_view(names@)[i] == names[i]@);
                }
            }
            drawn
        },
        Some(_) => match first_free_name(names) {
            Some(name) => name,
            None => drawn,
        },
    }
}

} // verus!
