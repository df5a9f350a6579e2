//! Texts and choices of the dialog that configures a machine or a piece of software.
use crate::text::decimal;
use crate::text::lemma_seq_lt_asym;
use crate::text::lemma_seq_lt_total;
use crate::text::lemma_seq_lt_trans;
use crate::text::opt_view;
use crate::text::push_decimal;
use crate::text::push_str;
use crate::text::seq_lt;
use crate::text::str_eq;
use crate::text::str_lt;
use crate::text::strings_view;
use crate::text::string_from_chars;
use vstd::prelude::*;

verus! {

/// What `byte_unit::Byte::get_exact_unit` (with bit units allowed) gives for a size
/// in bytes: the count, and the symbol of the unit.
pub uninterp spec fn byte_exact_unit(size: u64) -> (u128, Seq<char>);

/// `byte_unit::Byte::from_u64(size).get_exact_unit(true)`: the size in the largest
/// unit (of bytes or of bits) that divides it exactly, as a count and the unit's
/// symbol.  The count is the size divided by the unit's size in bytes, which is at
/// least one, so it is at most the size.
#[verifier::external_body]
fn exact_unit(size: u64) -> (r: (u128, String))
    ensures
        r.0 == byte_exact_unit(size).0,
        r.1@ == byte_exact_unit(size).1,
        r.0 <= size,
{
    let (n, unit) = byte_unit::Byte::from_u64(size).get_exact_unit(true);
    (u128::from(n), unit.to_string())
}

/// The title of the dialog: "Configure" and the description, then the name in
/// parentheses when there is one.
pub open spec fn title_text(description: Seq<char>, name: Option<Seq<char>>) -> Seq<char> {
    match name {
        Some(n) => "Configure "@ + description + " ("@ + n + ")"@,
        None => "Configure "@ + description,
    }
}

/// The text of a default choice: "Default (" and the choice's text, then ")".
pub open spec fn default_text(s: Seq<char>) -> Seq<char> {
    "Default ("@ + s + ")"@
}

/// A RAM size as shown: the count in the exact unit, a space, and the unit.
pub open spec fn ram_text(size: u64) -> Seq<char> {
    decimal(byte_exact_unit(size).0 as nat) + " "@ + byte_exact_unit(size).1
}

/// The title of the configure dialog.
pub fn configure_dialog_title(description: &str, name: Option<&str>) -> (r: String)
    ensures
        r@ == title_text(
            description@,
            match name {
                Some(n) => Some(n@),
                None => None,
            },
        ),
{
    let mut out: Vec<char> = Vec::new();
    push_str(&mut out, "Configure ");
    push_str(&mut out, description);
    match name {
        Some(n) => {
            push_str(&mut out, " (");
            push_str(&mut out, n);
            push_str(&mut out, ")");
        },
        None => {},
    }
    assert(out@ =~= title_text(
        description@,
        match name {
            Some(n) => Some(n@),
            None => None,
        },
    ));
    string_from_chars(&out)
}

/// The text of a default choice.
pub fn default_text_string(s: &str) -> (r: String)
    ensures
        r@ == default_text(s@),
{
    let mut out: Vec<char> = Vec::new();
    push_str(&mut out, "Default (");
    push_str(&mut out, s);
    push_str(&mut out, ")");
    assert(out@ =~= default_text(s@));
    string_from_chars(&out)
}

/// A RAM size as shown in the dialog, such as "64 KiB".
pub fn ram_size_display_text(ram_size: u64) -> (r: String)
    ensures
        r@ == ram_text(ram_size),
{
    let (n, unit) = exact_unit(ram_size);
    let mut out: Vec<char> = Vec::new();
    push_decimal(&mut out, n as u64);
    push_str(&mut out, " ");
    push_str(&mut out, unit.as_str());
    assert(out@ =~= ram_text(ram_size));
    string_from_chars(&out)
}

/// The index of the first element of `s` equal to `x`, if any.
pub open spec fn first_position<A>(s: Seq<A>, x: A) -> Option<int>
    decreases s.len(),
{
    if s.len() == 0 {
        None
    } else if s[0] == x {
        Some(0)
    } else {
        match first_position(s.drop_first(), x) {
            Some(i) => Some(i + 1),
            None => None,
        }
    }
}

/// The index of the current choice in a list that starts with the default: one
/// past the position of `current` among the options, or the default when there is
/// no current choice or it is not among the options.
pub open spec fn current_choice<A>(options: Seq<A>, current: Option<A>) -> int {
    match current {
        Some(c) => match first_position(options, c) {
            Some(i) => i + 1,
            None => 0,
        },
        None => 0,
    }
}

proof fn lemma_first_position_step<A>(s: Seq<A>, x: A, i: int)
    requires
        0 <= i < s.len(),
        forall|k: int| 0 <= k < i ==> s[k] != x,
    ensures
        s[i] == x ==> first_position(s, x) == Some(i),
        i + 1 == s.len() && s[i] != x ==> first_position(s, x) is None,
    decreases i,
{
    if i > 0 {
        lemma_first_position_step(s.drop_first(), x, i - 1);
    } else {
        assert(s.drop_first().len() == s.len() - 1);
        if s.len() == 1 {
            assert(first_position(s.drop_first(), x) is None);
        }
    }
}

fn position_of(s: &Vec<u64>, x: u64) -> (r: Option<usize>)
    ensures
        r matches Some(i) ==> i < s.len() && first_position(s@, x) == Some(i as int),
        r is None ==> first_position(s@, x) is None,
{
    if s.len() == 0 {
        return None;
    }
    for i in 0..s.len()
        invariant
            s.len() > 0,
            forall|k: int| 0 <= k < i ==> s@[k] != x,
    {
        proof {
            lemma_first_position_step(s@, x, i as int);
        }
        if s[i] == x {
            return Some(i);
        }
    }
    proof {
        lemma_first_position_step(s@, x, s.len() - 1);
    }
    None
}


/// The RAM choices of a machine: `None` when it has no RAM options; else the texts of
/// the choices (the default option's text as a default choice, then each option's
/// size) and the index of the current choice.  `default_index` is the machine's
/// default RAM option and `ram_size` the configured size, if any.
pub fn ram_options(ram_sizes: &Vec<u64>, default_index: Option<usize>, ram_size: Option<u64>) -> (r:
    Option<(Vec<String>, usize)>)
    requires
        ram_sizes.len() > 0 ==> default_index is Some && default_index->0 < ram_sizes.len(),
    ensures
        r is None <==> ram_sizes.len() == 0,
        r matches Some((texts, current)) ==> {
            &&& texts@.len() == ram_sizes.len() + 1
            &&& texts@[0]@ == default_text(ram_text(ram_sizes@[default_index->0 as int]))
            &&& forall|i: int|
                0 <= i < ram_sizes.len() ==> #[trigger] texts@[i + 1]@ == ram_text(ram_sizes@[i])
            &&& current == current_choice(ram_sizes@, ram_size)
        },
{
    if ram_sizes.len() == 0 {
        return None;
    }
    let d = match default_index {
        Some(d) => d,
        None => 0,
    };
    let default_size_text = ram_size_display_text(ram_sizes[d]);
    let mut texts: Vec<String> = Vec::new();
    texts.push(default_text_string(default_size_text.as_str()));
    for i in 0..ram_sizes.len()
        invariant
            d < ram_sizes.len(),
            texts@.len() == i + 1,
            texts@[0]@ == default_text(ram_text(ram_sizes@[d as int])),
            forall|k: int| 0 <= k < i ==> #[trigger] texts@[k + 1]@ == ram_text(ram_sizes@[k]),
    {
        texts.push(ram_size_display_text(ram_sizes[i]));
    }
    let current: usize = match ram_size {
        Some(size) => match position_of(ram_sizes, size) {
            Some(i) => i + 1,
            None => 0,
        },
        None => 0,
    };
    assert(current == current_choice(ram_sizes@, ram_size));
    Some((texts, current))
}

/// The names of BIOS sets given as (name, description) pairs.
pub open spec fn bios_names(biossets: Seq<(String, String)>) -> Seq<Seq<char>> {
    biossets.map_values(|b: (String, String)| b.0@)
}

fn position_of_name(biossets: &Vec<(String, String)>, name: &str) -> (r: Option<usize>)
    ensures
        r matches Some(i) ==> i < biossets.len() && first_position(bios_names(biossets@), name@)
            == Some(i as int),
        r is None ==> first_position(bios_names(biossets@), name@) is None,
{
    let ghost names = bios_names(biossets@);
    if biossets.len() == 0 {
        return None;
    }
    for i in 0..biossets.len()
        invariant
            biossets.len() > 0,
            names == bios_names(biossets@),
            forall|k: int| 0 <= k < i ==> names[k] != name@,
    {
        proof {
            lemma_first_position_step(names, name@, i as int);
        }
        if str_eq(biossets[i].0.as_str(), name) {
            return Some(i);
        }
    }
    proof {
        lemma_first_position_step(names, name@, biossets.len() - 1);
    }
    None
}

/// The BIOS choices of a machine, from its BIOS sets as (name, description) pairs:
/// `None` when it has none; else the texts of the choices (the default set's
/// description as a default choice, then each set's description) and the index of
/// the current choice, found by the configured BIOS name.
pub fn bios_options(
    biossets: &Vec<(String, String)>,
    default_index: Option<usize>,
    bios: Option<&str>,
) -> (r: Option<(Vec<String>, usize)>)
    requires
        biossets.len() > 0 ==> default_index is Some && default_index->0 < biossets.len(),
    ensures
        r is None <==> biossets.len() == 0,
        r matches Some((texts, current)) ==> {
            &&& texts@.len() == biossets.len() + 1
            &&& texts@[0]@ == default_text(biossets@[default_index->0 as int].1@)
            &&& forall|i: int|
                0 <= i < biossets.len() ==> #[trigger] texts@[i + 1]@ == biossets@[i].1@
            &&& current == current_choice(
                bios_names(biossets@),
                match bios {
                    Some(b) => Some(b@),
                    None => None,
                },
            )
        },
{
    if biossets.len() == 0 {
        return None;
    }
    let d = match default_index {
        Some(d) => d,
        None => 0,
    };
    let mut texts: Vec<String> = Vec::new();
    texts.push(default_text_string(biossets[d].1.as_str()));
    for i in 0..biossets.len()
        invariant
            d < biossets.len(),
            texts@.len() == i + 1,
            texts@[0]@ == default_text(biossets@[d as int].1@),
            forall|k: int| 0 <= k < i ==> #[trigger] texts@[k + 1]@ == biossets@[k].1@,
    {
        texts.push(biossets[i].1.clone());
    }
    let current: usize = match bios {
        Some(b) => match position_of_name(biossets, b) {
            Some(i) => i + 1,
            None => 0,
        },
        None => 0,
    };
    Some((texts, current))
}

proof fn lemma_first_position_found<A>(s: Seq<A>, x: A)
    ensures
        first_position(s, x) matches Some(i) ==> 0 <= i < s.len() && s[i] == x && forall|k: int|
            0 <= k < i ==> s[k] != x,
        first_position(s, x) is None ==> forall|k: int| 0 <= k < s.len() ==> s[k] != x,
    decreases s.len(),
{
    if s.len() > 0 {
        lemma_first_position_found(s.drop_first(), x);
        assert forall|k: int| 0 < k < s.len() implies s[k] == s.drop_first()[k - 1] by {}
    }
}

/// The current choice (past the default one) is the first option equal to the current
/// setting; the default is chosen exactly when the setting is unset or not offered.
pub proof fn lemma_current_choice<A>(options: Seq<A>, current: Option<A>)
    ensures
        0 <= current_choice(options, current) <= options.len(),
        current_choice(options, current) > 0 ==> (current matches Some(c) && options[current_choice(
            options,
            current,
        ) - 1] == c),
        current_choice(options, current) == 0 <==> (current is None || forall|k: int|
            0 <= k < options.len() ==> options[k] != current->0),
{
    if let Some(c) = current {
        lemma_first_position_found(options, c);
    }
}

/// The setting that choice `index` stands for, in a list of choices that starts with
/// the default: none for the default (or no choice), else option `index - 1`.
pub open spec fn chosen_setting<A>(options: Seq<A>, index: int) -> Option<A> {
    if index <= 0 {
        None
    } else {
        Some(options[index - 1])
    }
}

/// The RAM size that the chosen RAM choice stands for: none for the default choice
/// (index 0) or for no choice (a negative index).
pub fn chosen_ram_size(ram_sizes: &Vec<u64>, ram_sizes_index: i32) -> (r: Option<u64>)
    requires
        i32::MIN < ram_sizes_index <= ram_sizes.len(),
    ensures
        r == chosen_setting(ram_sizes@, ram_sizes_index as int),
{
    if ram_sizes_index <= 0 {
        None
    } else {
        let i = (ram_sizes_index - 1) as usize;
        Some(ram_sizes[i])
    }
}

/// The name of the BIOS set that the chosen BIOS choice stands for: none for the
/// default choice (index 0) or for no choice (a negative index).
pub fn chosen_bios(biossets: &Vec<(String, String)>, bios_index: i32) -> (r: Option<String>)
    requires
        i32::MIN < bios_index <= biossets.len(),
    ensures
        opt_view(r) == chosen_setting(bios_names(biossets@), bios_index as int),
{
    if bios_index <= 0 {
        None
    } else {
        let i = (bios_index - 1) as usize;
        Some(biossets[i].0.clone())
    }
}

/// Accepting the dialog with the choice that it showed stores the setting back, where
/// the setting is unset or among the options.
pub proof fn lemma_choice_round_trip<A>(options: Seq<A>, current: Option<A>)
    requires
        current matches Some(c) ==> options.contains(c),
    ensures
        chosen_setting(options, current_choice(options, current)) == current,
{
    lemma_current_choice(options, current);
    if let Some(c) = current {
        let k = choose|k: int| 0 <= k < options.len() && options[k] == c;
        assert(options[k] == c);
    }
}

/// A machine that can run a piece of software, as the software list in the database
/// names it: the machine's index among all machines, its name and its description.
#[derive(Clone, Debug)]
pub struct SoftwareListMachine {
    pub machine_index: usize,
    pub name: String,
    pub description: String,
}

/// A row of the dialog's list of machines that may run a piece of software: the
/// machine, and whether it is checked as one of those preferred.
#[derive(Clone, Debug, PartialEq, Eq)]
pub struct SoftwareMachine {
    pub machine_index: usize,
    pub name: String,
    pub description: String,
    pub checked: bool,
}

/// Whether machine `i` of `ms` is listed before machine `j`: by description, and in
/// the order of `ms` where descriptions are equal.
pub open spec fn listed_before(ms: Seq<SoftwareListMachine>, i: int, j: int) -> bool {
    ||| seq_lt(ms[i].description@, ms[j].description@)
    ||| (ms[i].description@ == ms[j].description@ && i < j)
}

/// Whether `order` lists every machine of `ms` by its index there, each listed before
/// the next. As `listed_before` is a strict total order, only one such order exists.
pub open spec fn is_listing_order(ms: Seq<SoftwareListMachine>, order: Seq<usize>) -> bool {
    &&& order.len() == ms.len()
    &&& forall|k: int| 0 <= k < order.len() ==> #[trigger] order[k] < ms.len()
    &&& forall|a: int, b: int|
        0 <= a < b < order.len() ==> listed_before(ms, #[trigger] order[a] as int, #[trigger] order[b] as int)
}

/// Whether machine `name` is among the preferred ones; with no preference stored,
/// every machine is.
pub open spec fn is_preferred(preferred: Option<Seq<Seq<char>>>, name: Seq<char>) -> bool {
    match preferred {
        Some(p) => p.contains(name),
        None => true,
    }
}

/// The preferred machines' names, where a preference is stored.
pub open spec fn preferred_view(preferred: Option<Vec<String>>) -> Option<Seq<Seq<char>>> {
    match preferred {
        Some(p) => Some(strings_view(p@)),
        None => None,
    }
}

/// Whether `row` shows machine `m`, checked where `m` is preferred.
pub open spec fn row_shows(row: SoftwareMachine, m: SoftwareListMachine, preferred: Option<Seq<Seq<char>>>) -> bool {
    &&& row.machine_index == m.machine_index
    &&& row.name@ == m.name@
    &&& row.description@ == m.description@
    &&& row.checked == is_preferred(preferred, m.name@)
}

/// The order in which the dialog lists `ms`: by description, keeping the order of `ms`
/// among equal descriptions.
fn listing_order(ms: &Vec<SoftwareListMachine>) -> (order: Vec<usize>)
    ensures
        is_listing_order(ms@, order@),
{
    let mut order: Vec<usize> = Vec::new();
    let mut i: usize = 0;
    while i < ms.len()
        invariant
            i <= ms.len(),
            order.len() == i,
            forall|k: int| 0 <= k < order.len() ==> #[trigger] order@[k] < i,
            forall|a: int, b: int|
                0 <= a < b < order.len() ==> listed_before(ms@, #[trigger] order@[a] as int, #[trigger] order@[b] as int),
        decreases ms.len() - i,
    {
        let mut p: usize = 0;
        while p < order.len()
            invariant
                i < ms.len(),
                p <= order.len(),
                forall|k: int| 0 <= k < order.len() ==> #[trigger] order@[k] < i,
                forall|q: int| 0 <= q < p ==> !seq_lt(ms@[i as int].description@, #[trigger] ms@[order@[q] as int].description@),
            ensures
                p <= order.len(),
                forall|q: int| 0 <= q < p ==> !seq_lt(ms@[i as int].description@, #[trigger] ms@[order@[q] as int].description@),
                p < order.len() ==> seq_lt(ms@[i as int].description@, ms@[order@[p as int] as int].description@),
            decreases order.len() - p,
        {
            if str_lt(ms[i].description.as_str(), ms[order[p]].description.as_str()) {
                break;
            }
            p = p + 1;
        }
        let ghost old_order = order@;
        order.insert(p, i);
        proof {
            let o = order@;
            assert(o =~= old_order.insert(p as int, i));
            assert forall|a: int, b: int| 0 <= a < b < o.len() implies listed_before(
                ms@,
                #[trigger] o[a] as int,
                #[trigger] o[b] as int,
            ) by {
                if b == p {
                    // everything before the new machine has a description no greater
                    let x = ms@[old_order[a] as int].description@;
                    let y = ms@[i as int].description@;
                    lemma_seq_lt_total(x, y);
                } else if a == p {
                    let y = ms@[i as int].description@;
                    let first = ms@[old_order[p as int] as int].description@;
                    if b - 1 == p {
                        assert(seq_lt(y, first));
                    } else {
                        assert(listed_before(ms@, old_order[p as int] as int, old_order[b - 1] as int));
                        let z = ms@[old_order[b - 1] as int].description@;
                        if seq_lt(first, z) {
                            lemma_seq_lt_trans(y, first, z);
                        }
                    }
                } else if a < p && b > p {
                    assert(o[a] == old_order[a]);
                    assert(o[b] == old_order[b - 1]);
                } else if b < p {
                    assert(o[a] == old_order[a]);
                    assert(o[b] == old_order[b]);
                } else {
                    assert(o[a] == old_order[a - 1]);
                    assert(o[b] == old_order[b - 1]);
                }
            }
        }
        i = i + 1;
    }
    order
}

fn names_contain(names: &Vec<String>, name: &str) -> (r: bool)
    ensures
        r == strings_view(names@).contains(name@),
{
    let mut i: usize = 0;
    while i < names.len()
        invariant
            i <= names.len(),
            forall|k: int| 0 <= k < i ==> (#[trigger] names@[k])@ != name@,
        decreases names.len() - i,
    {
        if str_eq(names[i].as_str(), name) {
            proof {
                assert(strings_view(names@)[i as int] == name@);
            }
            return true;
        }
        i = i + 1;
    }
    proof {
        assert forall|k: int| 0 <= k < strings_view(names@).len() implies strings_view(names@)[k] != name@ by {
            assert(strings_view(names@)[k] == names@[k]@);
        }
    }
    false
}

/// The rows of the dialog's list of machines for a piece of software: the machines
/// that run it, ordered by description (in the order given among equal
/// descriptions), each checked where it is preferred; with no preference stored,
/// all are checked.
pub fn software_machine_rows(machines: &Vec<SoftwareListMachine>, preferred: &Option<Vec<String>>) -> (r: Vec<
    SoftwareMachine,
>)
    ensures
        r.len() == machines.len(),
        exists|order: Seq<usize>|
            is_listing_order(machines@, order) && forall|k: int|
                0 <= k < r.len() ==> row_shows(
                    #[trigger] r@[k],
                    machines@[order[k] as int],
                    preferred_view(*preferred),
                ),
{
    let order = listing_order(machines);
    let mut rows: Vec<SoftwareMachine> = Vec::new();
    let mut k: usize = 0;
    while k < order.len()
        invariant
            is_listing_order(machines@, order@),
            k <= order.len(),
            rows.len() == k,
            forall|j: int|
                0 <= j < k ==> row_shows(#[trigger] rows@[j], machines@[order@[j] as int], preferred_view(*preferred)),
        decreases order.len() - k,
    {
        let m = &machines[order[k]];
        let checked = match preferred {
            Some(p) => names_contain(p, m.name.as_str()),
            None => true,
        };
        rows.push(
            SoftwareMachine {
                machine_index: m.machine_index,
                name: m.name.clone(),
                description: m.description.clone(),
                checked,
            },
        );
        k = k + 1;
    }
    rows
}

/// Which of the two bulk buttons are enabled: "check all" where some machine is
/// unchecked, "check none" where some machine is checked.
pub open spec fn bulk_enabled(rows: Seq<SoftwareMachine>) -> (bool, bool) {
    (
        exists|k: int| 0 <= k < rows.len() && !(#[trigger] rows[k]).checked,
        exists|k: int| 0 <= k < rows.len() && (#[trigger] rows[k]).checked,
    )
}

/// The rows with row `row` checked where it was not, and unchecked where it was.
pub open spec fn toggled(rows: Seq<SoftwareMachine>, row: int) -> Seq<SoftwareMachine> {
    rows.update(row, SoftwareMachine { checked: !rows[row].checked, ..rows[row] })
}

/// The rows with every machine checked (or every one unchecked).
pub open spec fn all_set(rows: Seq<SoftwareMachine>, checked: bool) -> Seq<SoftwareMachine> {
    rows.map_values(|r: SoftwareMachine| SoftwareMachine { checked, ..r })
}

/// The names of the checked machines, in the order of the rows.
pub open spec fn checked_names(rows: Seq<SoftwareMachine>) -> Seq<Seq<char>>
    decreases rows.len(),
{
    if rows.len() == 0 {
        Seq::empty()
    } else {
        let before = checked_names(rows.drop_last());
        if rows.last().checked {
            before.push(rows.last().name@)
        } else {
            before
        }
    }
}

/// The preference that the rows store: none where every machine is checked, else the
/// names of the checked machines.
pub open spec fn stored_preference(rows: Seq<SoftwareMachine>) -> Option<Seq<Seq<char>>> {
    if forall|k: int| 0 <= k < rows.len() ==> (#[trigger] rows[k]).checked {
        None
    } else {
        Some(checked_names(rows))
    }
}

/// Which bulk buttons are enabled for these rows: with none, neither; with all equal,
/// the one that would change them; with some of each, both.
pub fn software_machines_bulk_enabled(rows: &Vec<SoftwareMachine>) -> (r: (bool, bool))
    ensures
        r == bulk_enabled(rows@),
{
    if rows.len() == 0 {
        return (false, false);
    }
    let first = rows[0].checked;
    let mut k: usize = 1;
    while k < rows.len()
        invariant
            1 <= k <= rows.len(),
            first == rows@[0].checked,
            forall|j: int| 0 <= j < k ==> (#[trigger] rows@[j]).checked == first,
        decreases rows.len() - k,
    {
        if rows[k].checked != first {
            proof {
                assert(rows@[0].checked != rows@[k as int].checked);
            }
            return (true, true);
        }
        k = k + 1;
    }
    if first {
        assert(rows@[0].checked);
        (false, true)
    } else {
        assert(!rows@[0].checked);
        (true, false)
    }
}

/// Checks row `row` where it was unchecked, and unchecks it where it was checked.
pub fn toggle_software_machine_checked(rows: &mut Vec<SoftwareMachine>, row: usize)
    requires
        row < old(rows).len(),
    ensures
        final(rows)@ == toggled(old(rows)@, row as int),
{
    let checked = rows[row].checked;
    rows[row].checked = !checked;
}

/// Checks every row (or unchecks every row).
pub fn set_software_machines_bulk_checked(rows: &mut Vec<SoftwareMachine>, checked: bool)
    ensures
        final(rows)@ == all_set(old(rows)@, checked),
{
    let ghost before = rows@;
    let mut k: usize = 0;
    while k < rows.len()
        invariant
            k <= rows.len(),
            rows.len() == before.len(),
            forall|j: int| 0 <= j < k ==> #[trigger] rows@[j] == (SoftwareMachine { checked, ..before[j] }),
            forall|j: int| k <= j < rows.len() ==> #[trigger] rows@[j] == before[j],
        decreases rows.len() - k,
    {
        if rows[k].checked != checked {
            rows[k].checked = checked;
        }
        k = k + 1;
    }
    assert(rows@ =~= all_set(before, checked));
}

/// The preference to store for the piece of software: none where every machine is
/// checked, else the names of the checked machines in the order of the rows.
pub fn preferred_machines(rows: &Vec<SoftwareMachine>) -> (r: Option<Vec<String>>)
    ensures
        preferred_view(r) == stored_preference(rows@),
{
    let mut names: Vec<String> = Vec::new();
    let mut k: usize = 0;
    while k < rows.len()
        invariant
            k <= rows.len(),
            strings_view(names@) == checked_names(rows@.take(k as int)),
            (forall|j: int| 0 <= j < k ==> (#[trigger] rows@[j]).checked) ==> names.len() == k,
            !(forall|j: int| 0 <= j < k ==> (#[trigger] rows@[j]).checked) ==> names.len() < k,
        decreases rows.len() - k,
    {
        proof {
            assert(rows@.take(k + 1).drop_last() =~= rows@.take(k as int));
            assert(checked_names(rows@.take(k as int)).len() == names.len());
        }
        if rows[k].checked {
            names.push(rows[k].name.clone());
            proof {
                assert(strings_view(names@) =~= checked_names(rows@.take(k as int)).push(rows@[k as int].name@));
            }
        }
        k = k + 1;
    }
    proof {
        assert(rows@.take(rows@.len() as int) =~= rows@);
    }
    if names.len() == rows.len() {
        None
    } else {
        Some(names)
    }
}

/// Toggling the same row twice gives back the rows as they were.
pub proof fn lemma_toggle_twice(rows: Seq<SoftwareMachine>, row: int)
    requires
        0 <= row < rows.len(),
    ensures
        toggled(toggled(rows, row), row) == rows,
{
    assert(toggled(toggled(rows, row), row) =~= rows);
}

/// After every machine is checked, only "check none" is enabled; after every one is
/// unchecked, only "check all" is (where there are machines at all).
pub proof fn lemma_bulk_after_set_all(rows: Seq<SoftwareMachine>, checked: bool)
    requires
        rows.len() > 0,
    ensures
        bulk_enabled(all_set(rows, checked)) == (!checked, checked),
{
    let s = all_set(rows, checked);
    assert(s[0].checked == checked);
}

/// With every machine checked, no preference is stored.
pub proof fn lemma_all_checked_stores_none(rows: Seq<SoftwareMachine>)
    ensures
        stored_preference(all_set(rows, true)) is None,
{
    let s = all_set(rows, true);
    assert forall|k: int| 0 <= k < s.len() implies (#[trigger] s[k]).checked by {}
}

proof fn lemma_checked_names_preferred(rows: Seq<SoftwareMachine>, p: Seq<Seq<char>>)
    requires
        forall|k: int| 0 <= k < rows.len() ==> (#[trigger] rows[k]).checked ==> p.contains(rows[k].name@),
    ensures
        forall|i: int| 0 <= i < checked_names(rows).len() ==> p.contains(#[trigger] checked_names(rows)[i]),
    decreases rows.len(),
{
    if rows.len() > 0 {
        let before = rows.drop_last();
        assert forall|k: int| 0 <= k < before.len() && (#[trigger] before[k]).checked implies p.contains(
            before[k].name@,
        ) by {
            assert(before[k] == rows[k]);
        }
        lemma_checked_names_preferred(before, p);
        let n = rows.len() - 1;
        assert(rows[n].checked ==> p.contains(rows[n].name@));
        assert forall|i: int| 0 <= i < checked_names(rows).len() implies p.contains(
            #[trigger] checked_names(rows)[i],
        ) by {
            if i < checked_names(before).len() {
                assert(checked_names(rows)[i] == checked_names(before)[i]);
            }
        }
    }
}

/// Rows built from a stored preference store it back as a preference of their own
/// only with machines that it named; rows built with no preference stored store none.
pub proof fn lemma_rows_store_preference(
    machines: Seq<SoftwareListMachine>,
    order: Seq<usize>,
    preferred: Option<Seq<Seq<char>>>,
    rows: Seq<SoftwareMachine>,
)
    requires
        is_listing_order(machines, order),
        rows.len() == machines.len(),
        forall|k: int| 0 <= k < rows.len() ==> row_shows(#[trigger] rows[k], machines[order[k] as int], preferred),
    ensures
        match preferred {
            None => stored_preference(rows) is None,
            Some(p) => match stored_preference(rows) {
                Some(s) => forall|i: int| 0 <= i < s.len() ==> p.contains(#[trigger] s[i]),
                None => true,
            },
        },
{
    match preferred {
        None => {
            assert forall|k: int| 0 <= k < rows.len() implies (#[trigger] rows[k]).checked by {
                assert(row_shows(rows[k], machines[order[k] as int], preferred));
            }
        },
        Some(p) => {
            assert forall|k: int| 0 <= k < rows.len() && (#[trigger] rows[k]).checked implies p.contains(
                rows[k].name@,
            ) by {
                assert(row_shows(rows[k], machines[order[k] as int], preferred));
            }
            lemma_checked_names_preferred(rows, p);
        },
    }
}

} // verus!
