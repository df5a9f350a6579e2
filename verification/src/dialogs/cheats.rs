//! The cheats dialog: how it classifies a cheat, what each row shows, and what setting
//! a cheat's state sends.
use crate::status::Cheat;
use crate::status::CheatParameter;
use crate::status::CheatParameterItem;
use crate::text::parse_i32;
use crate::text::parsed_i32;
use crate::text::str_eq;
use crate::text::strings_view;
use vstd::prelude::*;

verus! {

/// The kinds of cheat that the cheats dialog tells apart.
#[derive(Debug, Clone, Copy, PartialEq, Eq, Structural)]
pub enum CheatType {
    Text,
    OneShot,
    OnOff,
    OneShotParameter,
    ValueParameter,
    ItemListParameter,
    Unknown,
}

/// The kind of a cheat, from which scripts it has and whether its parameter (if any)
/// lists items.  The rules are tried in order:
/// - no on, off or run script and no parameter: text;
/// - only an on script and no parameter: one shot;
/// - both on and off scripts, or a run script without a parameter: on/off;
/// - a changed script but no on, off or run script, with a parameter that lists items:
///   one shot with a parameter;
/// - a parameter without items: a value parameter;
/// - a parameter with items: an item list parameter;
/// - anything else: unknown.
pub open spec fn cheat_kind(
    on: bool,
    off: bool,
    run: bool,
    changed: bool,
    parameter_items_empty: Option<bool>,
) -> CheatType {
    if !on && !off && !run && parameter_items_empty is None {
        CheatType::Text
    } else if on && !off && !run && parameter_items_empty is None {
        CheatType::OneShot
    } else if on && off {
        CheatType::OnOff
    } else if run && parameter_items_empty is None {
        CheatType::OnOff
    } else if !on && !off && changed && parameter_items_empty == Some(false) {
        CheatType::OneShotParameter
    } else if parameter_items_empty == Some(true) {
        CheatType::ValueParameter
    } else if parameter_items_empty == Some(false) {
        CheatType::ItemListParameter
    } else {
        CheatType::Unknown
    }
}

/// Whether the cheat's parameter, if it has one, lists no items.
pub open spec fn parameter_items_empty(cheat: Cheat) -> Option<bool> {
    match cheat.parameter {
        Some(p) => Some(p.items@.len() == 0),
        None => None,
    }
}

/// The kind of `cheat`; see [`cheat_kind`].
pub fn classify_cheat(cheat: &Cheat) -> (r: CheatType)
    ensures
        r == cheat_kind(
            cheat.has_on_script,
            cheat.has_off_script,
            cheat.has_run_script,
            cheat.has_changed_script,
            parameter_items_empty(*cheat),
        ),
{
    let on = cheat.has_on_script;
    let off = cheat.has_off_script;
    let run = cheat.has_run_script;
    let changed = cheat.has_changed_script;
    let items_empty: Option<bool> = match &cheat.parameter {
        Some(p) => Some(p.items.len() == 0),
        None => None,
    };
    match (on, off, run, changed, items_empty) {
        (false, false, false, _, None) => CheatType::Text,
        (true, false, false, _, None) => CheatType::OneShot,
        (true, true, _, _, _) => CheatType::OnOff,
        (_, _, true, _, None) => CheatType::OnOff,
        (false, false, _, true, Some(false)) => CheatType::OneShotParameter,
        (_, _, _, _, Some(true)) => CheatType::ValueParameter,
        (_, _, _, _, Some(false)) => CheatType::ItemListParameter,
        _ => CheatType::Unknown,
    }
}

/// The name of a kind of cheat, in kebab case.
pub open spec fn cheat_type_name(t: CheatType) -> Seq<char> {
    match t {
        CheatType::Text => "text"@,
        CheatType::OneShot => "one-shot"@,
        CheatType::OnOff => "on-off"@,
        CheatType::OneShotParameter => "one-shot-parameter"@,
        CheatType::ValueParameter => "value-parameter"@,
        CheatType::ItemListParameter => "item-list-parameter"@,
        CheatType::Unknown => "unknown"@,
    }
}

impl CheatType {
    /// The kind's name, in kebab case.
    pub fn name(&self) -> (r: &'static str)
        ensures
            r@ == cheat_type_name(*self),
    {
        match self {
            CheatType::Text => "text",
            CheatType::OneShot => "one-shot",
            CheatType::OnOff => "on-off",
            CheatType::OneShotParameter => "one-shot-parameter",
            CheatType::ValueParameter => "value-parameter",
            CheatType::ItemListParameter => "item-list-parameter",
            CheatType::Unknown => "unknown",
        }
    }
}

/// What a row of the cheats dialog shows: the cheat's kind, whether it is enabled, its
/// description and comment, whether it has a script run on changes, its parameter's
/// value, minimum, maximum and step (0 without a parameter), and the texts of the
/// parameter's items.
#[derive(Clone, Debug, PartialEq, Eq)]
pub struct CheatsDialogEntry {
    pub cheat_type: String,
    pub cheat_enabled: bool,
    pub description: String,
    pub comment: String,
    pub has_changed_script: bool,
    pub value: i32,
    pub minimum: i32,
    pub maximum: i32,
    pub step: i32,
    pub items: Vec<String>,
}

/// The kind of a cheat.
pub open spec fn kind_of(c: Cheat) -> CheatType {
    cheat_kind(c.has_on_script, c.has_off_script, c.has_run_script, c.has_changed_script, parameter_items_empty(c))
}

/// Whether the cheat's parameter (if any) has a minimum, maximum and step that an
/// `i32` holds.
pub open spec fn parameter_fits(c: Cheat) -> bool {
    c.parameter matches Some(p) ==> p.minimum <= i32::MAX && p.maximum <= i32::MAX && p.step <= i32::MAX
}

/// The value that a row shows: the parameter's value read as a number (0 where it
/// reads as none), or 0 without a parameter.
pub open spec fn shown_value(c: Cheat) -> i32 {
    match c.parameter {
        Some(p) => match parsed_i32(p.value@) {
            Some(v) => v,
            None => 0,
        },
        None => 0,
    }
}

/// The texts of the parameter's items; none without a parameter.
pub open spec fn item_texts(c: Cheat) -> Seq<Seq<char>> {
    match c.parameter {
        Some(p) => p.items@.map_values(|i: CheatParameterItem| i.text@),
        None => Seq::empty(),
    }
}

/// Whether `e` shows cheat `c`.
pub open spec fn row_shows_cheat(e: CheatsDialogEntry, c: Cheat) -> bool {
    &&& e.cheat_type@ == cheat_type_name(kind_of(c))
    &&& e.cheat_enabled == c.enabled
    &&& e.description@ == c.description@
    &&& e.comment@ == c.comment@
    &&& e.has_changed_script == c.has_changed_script
    &&& e.value == shown_value(c)
    &&& e.minimum == (match c.parameter {
        Some(p) => p.minimum as int,
        None => 0,
    })
    &&& e.maximum == (match c.parameter {
        Some(p) => p.maximum as int,
        None => 0,
    })
    &&& e.step == (match c.parameter {
        Some(p) => p.step as int,
        None => 0,
    })
    &&& strings_view(e.items@) == item_texts(c)
}

/// What row `index` of the cheats dialog shows; `None` past the last cheat.
pub fn cheat_row_data(cheats: &Vec<Cheat>, index: usize) -> (r: Option<CheatsDialogEntry>)
    requires
        index < cheats.len() ==> parameter_fits(cheats@[index as int]),
    ensures
        r is None <==> index >= cheats.len(),
        r matches Some(e) ==> row_shows_cheat(e, cheats@[index as int]),
{
    if index >= cheats.len() {
        return None;
    }
    let c = &cheats[index];
    let cheat_type = classify_cheat(c).name().to_string();
    let (value, minimum, maximum, step, items) = match &c.parameter {
        Some(p) => {
            let value = match parse_i32(p.value.as_str()) {
                Some(v) => v,
                None => 0,
            };
            let mut items: Vec<String> = Vec::new();
            let mut k: usize = 0;
            while k < p.items.len()
                invariant
                    k <= p.items.len(),
                    items.len() == k,
                    forall|j: int| 0 <= j < k ==> (#[trigger] items@[j])@ == p.items@[j].text@,
                decreases p.items.len() - k,
            {
                items.push(p.items[k].text.clone());
                k = k + 1;
            }
            assert(strings_view(items@) =~= p.items@.map_values(|i: CheatParameterItem| i.text@));
            (value, p.minimum as i32, p.maximum as i32, p.step as i32, items)
        },
        None => {
            let items: Vec<String> = Vec::new();
            assert(strings_view(items@) =~= Seq::<Seq<char>>::empty());
            (0, 0, 0, 0, items)
        },
    };
    Some(
        CheatsDialogEntry {
            cheat_type,
            cheat_enabled: c.enabled,
            description: c.description.clone(),
            comment: c.comment.clone(),
            has_changed_script: c.has_changed_script,
            value,
            minimum,
            maximum,
            step,
            items,
        },
    )
}

/// The value of the parameter item chosen when a cheat's state is set, where one is.
pub fn cheat_parameter_value(cheat: &Cheat, parameter_index: Option<i32>) -> (r: Option<u64>)
    requires
        parameter_index matches Some(i) ==> 0 <= i && (cheat.parameter matches Some(p) && i < p.items.len()),
    ensures
        r == (match parameter_index {
            Some(i) => Some(cheat.parameter->0.items@[i as int].value),
            None => None,
        }),
{
    match parameter_index {
        Some(i) => match &cheat.parameter {
            Some(p) => Some(p.items[i as usize].value),
            None => None,
        },
        None => None,
    }
}

/// Whether two cheats are the same in every field.
pub open spec fn cheat_same(a: Cheat, b: Cheat) -> bool {
    &&& a.id@ == b.id@
    &&& a.enabled == b.enabled
    &&& a.has_run_script == b.has_run_script
    &&& a.has_on_script == b.has_on_script
    &&& a.has_off_script == b.has_off_script
    &&& a.has_changed_script == b.has_changed_script
    &&& a.description@ == b.description@
    &&& a.comment@ == b.comment@
    &&& match (a.parameter, b.parameter) {
        (Some(p), Some(q)) => parameter_same(p, q),
        (None, None) => true,
        _ => false,
    }
}

/// Whether two cheat parameters are the same in every field.
pub open spec fn parameter_same(p: CheatParameter, q: CheatParameter) -> bool {
    &&& p.value@ == q.value@
    &&& p.minimum == q.minimum
    &&& p.maximum == q.maximum
    &&& p.step == q.step
    &&& p.items.len() == q.items.len()
    &&& forall|k: int|
        0 <= k < p.items.len() ==> (#[trigger] p.items@[k]).value == q.items@[k].value && p.items@[k].text@
            == q.items@[k].text@
}

/// Whether two lists of cheats are the same, cheat by cheat.
pub open spec fn cheats_same(a: Seq<Cheat>, b: Seq<Cheat>) -> bool {
    a.len() == b.len() && forall|k: int| 0 <= k < a.len() ==> cheat_same(#[trigger] a[k], b[k])
}

fn parameter_eq(p: &CheatParameter, q: &CheatParameter) -> (r: bool)
    ensures
        r == parameter_same(*p, *q),
{
    if !(p.minimum == q.minimum && p.maximum == q.maximum && p.step == q.step && p.items.len() == q.items.len()
        && str_eq(p.value.as_str(), q.value.as_str())) {
        return false;
    }
    let mut k: usize = 0;
    while k < p.items.len()
        invariant
            k <= p.items.len(),
            p.items.len() == q.items.len(),
            forall|j: int|
                0 <= j < k ==> (#[trigger] p.items@[j]).value == q.items@[j].value && p.items@[j].text@
                    == q.items@[j].text@,
        decreases p.items.len() - k,
    {
        if !(p.items[k].value == q.items[k].value && str_eq(p.items[k].text.as_str(), q.items[k].text.as_str())) {
            return false;
        }
        k = k + 1;
    }
    true
}

fn cheat_eq(a: &Cheat, b: &Cheat) -> (r: bool)
    ensures
        r == cheat_same(*a, *b),
{
    let same_parameter = match (&a.parameter, &b.parameter) {
        (Some(p), Some(q)) => parameter_eq(p, q),
        (None, None) => true,
        _ => false,
    };
    same_parameter && a.enabled == b.enabled && a.has_run_script == b.has_run_script && a.has_on_script
        == b.has_on_script && a.has_off_script == b.has_off_script && a.has_changed_script == b.has_changed_script
        && str_eq(a.id.as_str(), b.id.as_str()) && str_eq(a.description.as_str(), b.description.as_str())
        && str_eq(a.comment.as_str(), b.comment.as_str())
}

fn cheats_eq(a: &Vec<Cheat>, b: &Vec<Cheat>) -> (r: bool)
    ensures
        r == cheats_same(a@, b@),
{
    if a.len() != b.len() {
        return false;
    }
    let mut k: usize = 0;
    while k < a.len()
        invariant
            k <= a.len(),
            a.len() == b.len(),
            forall|j: int| 0 <= j < k ==> cheat_same(#[trigger] a@[j], b@[j]),
        decreases a.len() - k,
    {
        if !cheat_eq(&a[k], &b[k]) {
            return false;
        }
        k = k + 1;
    }
    true
}

/// The cheats that the dialog shows, kept in step with what the emulation reports.
pub struct CheatDialogModel {
    pub cheats: Vec<Cheat>,
}

impl CheatDialogModel {
    /// A model showing `cheats`.
    pub fn new(cheats: Vec<Cheat>) -> (r: Self)
        ensures
            r.cheats == cheats,
    {
        CheatDialogModel { cheats }
    }

    /// Takes the cheats now reported: where they differ from those shown they are shown
    /// instead, and `true` is returned; else nothing changes.
    pub fn update(&mut self, cheats: Vec<Cheat>) -> (changed: bool)
        ensures
            changed == !cheats_same(old(self).cheats@, cheats@),
            changed ==> final(self).cheats == cheats,
            !changed ==> final(self).cheats == old(self).cheats,
    {
        if cheats_eq(&self.cheats, &cheats) {
            false
        } else {
            self.cheats = cheats;
            true
        }
    }

    /// The number of rows: one per cheat.
    pub fn row_count(&self) -> (r: usize)
        ensures
            r == self.cheats.len(),
    {
        self.cheats.len()
    }

    /// What row `index` shows; see [`cheat_row_data`].
    pub fn row_data(&self, index: usize) -> (r: Option<CheatsDialogEntry>)
        requires
            index < self.cheats.len() ==> parameter_fits(self.cheats@[index as int]),
        ensures
            r is None <==> index >= self.cheats.len(),
            r matches Some(e) ==> row_shows_cheat(e, self.cheats@[index as int]),
    {
        cheat_row_data(&self.cheats, index)
    }
}

} // verus!
