//! The dialog that picks several quick choices for an input at once: what accepting it
//! sets.
use crate::dialogs::input::menu::command_view;
use crate::dialogs::input::menu::seqs_view;
use crate::dialogs::input::menu::CommandView;
use crate::dialogs::input::menu::InputCommand;
use crate::status::SeqType;
use crate::text::push_str;
use crate::text::str_eq;
use crate::text::string_from_chars;
use vstd::prelude::*;

verus! {

/// The sequences of the checked choices, in the order of the choices.
pub open spec fn chosen_seqs(
    selections: Seq<(Seq<char>, Seq<(Seq<char>, u32, SeqType, Seq<char>)>)>,
    checked: Seq<bool>,
) -> Seq<(Seq<char>, u32, SeqType, Seq<char>)>
    decreases selections.len(),
{
    if selections.len() == 0 {
        Seq::empty()
    } else {
        let n = selections.len() - 1;
        let before = chosen_seqs(selections.drop_last(), checked);
        if checked[n] {
            before + selections[n].1
        } else {
            before
        }
    }
}

/// The index of the first group, from `k` on, for the sequence `seq_type` of the input
/// on `port_tag` with `mask`.
pub open spec fn group_index_from(
    groups: Seq<(Seq<char>, u32, SeqType, Seq<char>)>,
    port_tag: Seq<char>,
    mask: u32,
    seq_type: SeqType,
    k: int,
) -> Option<int>
    decreases groups.len() - k,
{
    if k < 0 || k >= groups.len() {
        None
    } else if groups[k].0 == port_tag && groups[k].1 == mask && groups[k].2 == seq_type {
        Some(k)
    } else {
        group_index_from(groups, port_tag, mask, seq_type, k + 1)
    }
}

/// The sequences grouped by input and sequence type, in the order in which each is
/// first met: the codes of a group are those of its sequences, in order, joined by
/// " or ".
pub open spec fn grouped(items: Seq<(Seq<char>, u32, SeqType, Seq<char>)>) -> Seq<
    (Seq<char>, u32, SeqType, Seq<char>),
>
    decreases items.len(),
{
    if items.len() == 0 {
        Seq::empty()
    } else {
        let g = grouped(items.drop_last());
        let x = items.last();
        match group_index_from(g, x.0, x.1, x.2, 0) {
            Some(j) => g.update(j, (g[j].0, g[j].1, g[j].2, g[j].3 + " or "@ + x.3)),
            None => g.push(x),
        }
    }
}

proof fn lemma_group_index_from(groups: Seq<(Seq<char>, u32, SeqType, Seq<char>)>, port_tag: Seq<char>, mask: u32, seq_type: SeqType, k: int)
    requires
        0 <= k,
    ensures
        match group_index_from(groups, port_tag, mask, seq_type, k) {
            Some(j) => k <= j < groups.len(),
            None => true,
        },
    decreases groups.len() - k,
{
    if k < groups.len() && !(groups[k].0 == port_tag && groups[k].1 == mask && groups[k].2 == seq_type) {
        lemma_group_index_from(groups, port_tag, mask, seq_type, k + 1);
    }
}

fn find_group(groups: &Vec<(String, u32, SeqType, String)>, port_tag: &str, mask: u32, seq_type: SeqType) -> (r:
    Option<usize>)
    ensures
        match r {
            Some(j) => group_index_from(seqs_view(groups@), port_tag@, mask, seq_type, 0) == Some(j as int),
            None => group_index_from(seqs_view(groups@), port_tag@, mask, seq_type, 0) is None,
        },
{
    let ghost g = seqs_view(groups@);
    let mut k: usize = 0;
    while k < groups.len()
        invariant
            k <= groups.len(),
            g == seqs_view(groups@),
            group_index_from(g, port_tag@, mask, seq_type, 0) == group_index_from(g, port_tag@, mask, seq_type, k as int),
        decreases groups.len() - k,
    {
        assert(g[k as int] == (groups@[k as int].0@, groups@[k as int].1, groups@[k as int].2, groups@[k as int].3@));
        if groups[k].1 == mask && groups[k].2 == seq_type && str_eq(groups[k].0.as_str(), port_tag) {
            return Some(k);
        }
        k = k + 1;
    }
    None
}

fn add_seq(groups: &mut Vec<(String, u32, SeqType, String)>, item: &(String, u32, SeqType, String))
    ensures
        seqs_view(final(groups)@) == ({
            let g = seqs_view(old(groups)@);
            let x = (item.0@, item.1, item.2, item.3@);
            match group_index_from(g, x.0, x.1, x.2, 0) {
                Some(j) => g.update(j, (g[j].0, g[j].1, g[j].2, g[j].3 + " or "@ + x.3)),
                None => g.push(x),
            }
        }),
{
    let ghost g = seqs_view(groups@);
    proof {
        lemma_group_index_from(g, item.0@, item.1, item.2, 0);
    }
    match find_group(groups, item.0.as_str(), item.1, item.2) {
        Some(j) => {
            let mut codes: Vec<char> = Vec::new();
            push_str(&mut codes, groups[j].3.as_str());
            push_str(&mut codes, " or ");
            push_str(&mut codes, item.3.as_str());
            let port_tag = groups[j].0.clone();
            let entry = (port_tag, groups[j].1, groups[j].2, string_from_chars(&codes));
            groups[j] = entry;
            assert(seqs_view(groups@) =~= g.update(j as int, (g[j as int].0, g[j as int].1, g[j as int].2, g[j as int].3 + " or "@ + item.3@)));
        },
        None => {
            groups.push((item.0.clone(), item.1, item.2, item.3.clone()));
            assert(seqs_view(groups@) =~= g.push((item.0@, item.1, item.2, item.3@)));
        },
    }
}

/// What accepting the dialog sets: the sequences of the checked choices, grouped by
/// input and sequence type (in the order in which each is first met), with the codes
/// of each group joined by " or ".
pub fn build_result(selections: &Vec<(String, Vec<(String, u32, SeqType, String)>)>, checked: &Vec<bool>) -> (r:
    InputCommand)
    requires
        selections.len() == checked.len(),
    ensures
        command_view(r) == CommandView::SeqSet(
            grouped(
                chosen_seqs(
                    selections@.map_values(
                        |x: (String, Vec<(String, u32, SeqType, String)>)| (x.0@, seqs_view(x.1@)),
                    ),
                    checked@,
                ),
            ),
        ),
{
    let ghost sv = selections@.map_values(
        |x: (String, Vec<(String, u32, SeqType, String)>)| (x.0@, seqs_view(x.1@)),
    );
    let mut groups: Vec<(String, u32, SeqType, String)> = Vec::new();
    let mut i: usize = 0;
    while i < selections.len()
        invariant
            i <= selections.len(),
            selections.len() == checked.len(),
            sv == selections@.map_values(
                |x: (String, Vec<(String, u32, SeqType, String)>)| (x.0@, seqs_view(x.1@)),
            ),
            seqs_view(groups@) == grouped(chosen_seqs(sv.take(i as int), checked@)),
        decreases selections.len() - i,
    {
        proof {
            assert(sv.take(i + 1).drop_last() =~= sv.take(i as int));
            assert(sv.take(i + 1)[i as int] == sv[i as int]);
        }
        if checked[i] {
            let seqs = &selections[i].1;
            let ghost before = chosen_seqs(sv.take(i as int), checked@);
            let mut k: usize = 0;
            while k < seqs.len()
                invariant
                    k <= seqs.len(),
                    seqs_view(groups@) == grouped(before + seqs_view(seqs@).take(k as int)),
                decreases seqs.len() - k,
            {
                let ghost items = before + seqs_view(seqs@).take(k as int);
                proof {
                    assert((before + seqs_view(seqs@).take(k + 1)).drop_last() =~= items);
                    assert((before + seqs_view(seqs@).take(k + 1)).last() == seqs_view(seqs@)[k as int]);
                }
                add_seq(&mut groups, &seqs[k]);
                k = k + 1;
            }
            proof {
                assert(seqs_view(seqs@).take(seqs@.len() as int) =~= seqs_view(seqs@));
                assert(sv[i as int].1 == seqs_view(seqs@));
            }
        }
        i = i + 1;
    }
    proof {
        assert(sv.take(selections@.len() as int) =~= sv);
    }
    InputCommand::SeqSet(groups)
}

} // verus!
