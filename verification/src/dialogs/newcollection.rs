//! Naming a new collection.
use crate::text::decimal;
use crate::text::lemma_decimal_injective;
use crate::text::lemma_decimal_len;
use crate::text::push_decimal;
use crate::text::push_str;
use crate::text::str_eq;
use crate::text::string_from_chars;
use crate::text::strings_view;
use vstd::prelude::*;
use vstd::relations::injective_on;
use vstd::set_lib::*;

verus! {

/// A name is good when it is not empty and no existing collection has it.
pub open spec fn good_new_name(existing: Seq<Seq<char>>, name: Seq<char>) -> bool {
    name.len() > 0 && !existing.contains(name)
}

/// The `k`-th name proposed for a new collection: "New Collection", then
/// "New Collection 2", "New Collection 3", and so on.
pub open spec fn candidate_name(k: nat) -> Seq<char> {
    if k <= 1 {
        "New Collection"@
    } else {
        "New Collection "@ + decimal(k)
    }
}

/// Whether `new_name` is a good name for a new collection.
pub fn is_good_new_name(existing_names: &Vec<String>, new_name: &str) -> (r: bool)
    ensures
        r == good_new_name(strings_view(existing_names@), new_name@),
{
    let ghost names = strings_view(existing_names@);
    if new_name.is_empty() {
        return false;
    }
    for i in 0..existing_names.len()
        invariant
            names == strings_view(existing_names@),
            forall|k: int| 0 <= k < i ==> names[k] != new_name@,
    {
        if str_eq(existing_names[i].as_str(), new_name) {
            assert(names[i as int] == new_name@);
            return false;
        }
    }
    assert(!names.contains(new_name@));
    true
}

proof fn lemma_candidate_injective(j: nat, k: nat)
    requires
        1 <= j,
        1 <= k,
        candidate_name(j) == candidate_name(k),
    ensures
        j == k,
{
    reveal_strlit("New Collection");
    reveal_strlit("New Collection ");
    assert("New Collection"@.len() == 14);
    assert("New Collection "@.len() == 15);
    lemma_decimal_len(j);
    lemma_decimal_len(k);
    if j > 1 && k > 1 {
        let p = "New Collection "@;
        assert(candidate_name(j).skip(15) =~= decimal(j));
        assert(candidate_name(k).skip(15) =~= decimal(k));
        lemma_decimal_injective(j, k);
    } else if j > 1 || k > 1 {
        assert(candidate_name(j).len() != candidate_name(k).len());
    }
}

/// When every one of the first `count - 1` candidate names is taken, there are at
/// least that many existing names.
proof fn lemma_taken_bound(existing: Seq<Seq<char>>, count: int)
    requires
        1 <= count,
        forall|j: nat| 1 <= j < count ==> existing.contains(#[trigger] candidate_name(j)),
    ensures
        count - 1 <= existing.len(),
{
    let x = set_int_range(1, count);
    lemma_int_range(1, count);
    let f = |j: int| candidate_name(j as nat);
    let y = x.map(f);
    assert forall|a: int, b: int| x.contains(a) && x.contains(b) && f(a) == f(b) implies a == b by {
        lemma_candidate_injective(a as nat, b as nat);
    }
    assert(injective_on(f, x));
    lemma_map_size(x, y, f);
    assert forall|n: Seq<char>| y.contains(n) implies existing.to_set().contains(n) by {
        let j = choose|j: int| x.contains(j) && f(j) == n;
        assert(existing.contains(candidate_name(j as nat)));
    }
    existing.lemma_cardinality_of_set();
    lemma_len_subset(y, existing.to_set());
}

fn candidate_name_exec(k: u32) -> (r: String)
    requires
        k >= 1,
    ensures
        r@ == candidate_name(k as nat),
{
    let mut out: Vec<char> = Vec::new();
    if k > 1 {
        push_str(&mut out, "New Collection ");
        push_decimal(&mut out, k as u64);
    } else {
        push_str(&mut out, "New Collection");
    }
    assert(out@ =~= candidate_name(k as nat));
    string_from_chars(&out)
}

/// The first of the candidate names that is good: "New Collection", else
/// "New Collection 2", and so on.
pub fn create_new_name(existing_names: &Vec<String>) -> (r: String)
    requires
        existing_names.len() < u32::MAX,
    ensures
        exists|k: nat|
            #![trigger candidate_name(k)]
            k >= 1 && r@ == candidate_name(k) && good_new_name(strings_view(existing_names@), r@)
                && forall|j: nat|
                1 <= j < k ==> !good_new_name(
                    strings_view(existing_names@),
                    #[trigger] candidate_name(j),
                ),
{
    let ghost names = strings_view(existing_names@);
    let mut count: u32 = 1;
    loop
        invariant
            names == strings_view(existing_names@),
            existing_names.len() < u32::MAX,
            1 <= count <= names.len() + 1,
            forall|j: nat| 1 <= j < count ==> names.contains(#[trigger] candidate_name(j)),
        decreases names.len() + 1 - count,
    {
        let name = candidate_name_exec(count);
        if is_good_new_name(existing_names, name.as_str()) {
            assert forall|j: nat| 1 <= j < count implies !good_new_name(
                names,
                #[trigger] candidate_name(j),
            ) by {
                assert(names.contains(candidate_name(j)));
            }
            return name;
        }
        proof {
            reveal_strlit("New Collection");
            reveal_strlit("New Collection ");
            assert(candidate_name(count as nat).len() > 0);
            assert(names.contains(candidate_name(count as nat)));
            lemma_taken_bound(names, count + 1);
        }
        count = count + 1;
    }
}

} // verus!
