//! The slot configuration of a machine.
//!
//! A machine's slots are listed in the order in which the slot hierarchy is walked:
//! each slot with its depth, the tag of the device that holds it, its name, the
//! options it offers (each an option name and the description of the device that
//! the option plugs in), and the option chosen, if any.
use crate::text::str_eq;
use vstd::prelude::*;

verus! {

/// An option of a slot: its name, and the description of the device it plugs in.
#[derive(Debug)]
pub struct SlotOption {
    pub name: String,
    pub description: String,
}

/// A slot of a machine, as the slot hierarchy is walked.
#[derive(Debug)]
pub struct Slot {
    pub indent: usize,
    pub base_tag: String,
    pub name: String,
    pub options: Vec<SlotOption>,
    pub current_option_index: Option<usize>,
}

/// The slots of a machine, in the order in which the slot hierarchy is walked.
#[derive(Debug)]
pub struct MachineConfig {
    pub machine_name: String,
    pub slots: Vec<Slot>,
}

/// Why a slot option could not be set.
#[derive(Clone, Copy, Debug, PartialEq, Eq, Structural)]
pub enum MachineConfigError {
    UnknownSlot,
    UnknownOption,
}

/// A slot, with its strings taken by their characters.
pub struct SlotView {
    pub indent: nat,
    pub base_tag: Seq<char>,
    pub name: Seq<char>,
    pub option_names: Seq<Seq<char>>,
    pub option_descriptions: Seq<Seq<char>>,
    pub current: Option<nat>,
}

/// A machine's slot configuration, with its strings taken by their characters.
pub struct ConfigView {
    pub machine_name: Seq<char>,
    pub slots: Seq<SlotView>,
}

impl View for Slot {
    type V = SlotView;

    open spec fn view(&self) -> SlotView {
        SlotView {
            indent: self.indent as nat,
            base_tag: self.base_tag@,
            name: self.name@,
            option_names: self.options@.map_values(|o: SlotOption| o.name@),
            option_descriptions: self.options@.map_values(|o: SlotOption| o.description@),
            current: match self.current_option_index {
                Some(i) => Some(i as nat),
                None => None,
            },
        }
    }
}

impl View for MachineConfig {
    type V = ConfigView;

    open spec fn view(&self) -> ConfigView {
        ConfigView {
            machine_name: self.machine_name@,
            slots: self.slots@.map_values(|s: Slot| s@),
        }
    }
}

/// The full tag of a slot: the tag of the device that holds it, then its name.
pub open spec fn slot_tag(s: SlotView) -> Seq<char> {
    s.base_tag + s.name
}

/// A slot is well formed when its chosen option is one that it offers (and its depth
/// leaves room for one more level).
pub open spec fn slot_wf(s: SlotView) -> bool {
    &&& s.indent < usize::MAX
    &&& s.option_names.len() <= usize::MAX
    &&& s.option_names.len() == s.option_descriptions.len()
    &&& s.current matches Some(i) ==> i < s.option_names.len()
}

/// A configuration is well formed when its slots are.
pub open spec fn config_wf(c: ConfigView) -> bool {
    forall|k: int| 0 <= k < c.slots.len() ==> slot_wf(#[trigger] c.slots[k])
}

/// The name of the chosen option of a slot, if any.
pub open spec fn current_option_name(s: SlotView) -> Option<Seq<char>> {
    match s.current {
        Some(i) => Some(s.option_names[i as int]),
        None => None,
    }
}

/// The index of the first element of `s` equal to `x`, searching from `k`.
pub open spec fn index_from<A>(s: Seq<A>, x: A, k: int) -> Option<int>
    decreases s.len() - k,
{
    if k < 0 || k >= s.len() {
        None
    } else if s[k] == x {
        Some(k)
    } else {
        index_from(s, x, k + 1)
    }
}

/// The index of the first slot with the given full tag, if any.
pub open spec fn find_slot(slots: Seq<SlotView>, tag: Seq<char>) -> Option<int> {
    index_from(slots.map_values(|s: SlotView| slot_tag(s)), tag, 0)
}

/// What choosing `option_name` (no option when `None`) for the slot `tag` gives:
/// an error when there is no such slot or it offers no such option; no new
/// configuration when that option is already chosen; else the configuration with
/// that option chosen.
pub open spec fn with_slot_option(c: ConfigView, tag: Seq<char>, option_name: Option<Seq<char>>) -> Result<
    Option<ConfigView>,
    MachineConfigError,
> {
    match find_slot(c.slots, tag) {
        None => Err(MachineConfigError::UnknownSlot),
        Some(k) => {
            let s = c.slots[k];
            let new_index: Result<Option<nat>, MachineConfigError> = match option_name {
                None => Ok(None),
                Some(n) => match index_from(s.option_names, n, 0) {
                    Some(i) => Ok(Some(i as nat)),
                    None => Err(MachineConfigError::UnknownOption),
                },
            };
            match new_index {
                Err(e) => Err(e),
                Ok(i) => if i == s.current {
                    Ok(None)
                } else {
                    Ok(Some(ConfigView { slots: c.slots.update(k, SlotView { current: i, ..s }), ..c }))
                },
            }
        },
    }
}

/// Whether a slot's choice differs from the one in `base`: it does when there is
/// no base, when the base has no slot with its tag, or when the chosen options'
/// names differ.
pub open spec fn slot_changed(s: SlotView, base: Option<ConfigView>) -> bool {
    match base {
        None => true,
        Some(b) => match find_slot(b.slots, slot_tag(s)) {
            None => true,
            Some(k) => current_option_name(b.slots[k]) != current_option_name(s),
        },
    }
}

/// The slots whose choice differs from `base`, in order, each with its tag and the
/// name of its chosen option.
pub open spec fn changed_slot_list(slots: Seq<SlotView>, base: Option<ConfigView>) -> Seq<
    (Seq<char>, Option<Seq<char>>),
>
    decreases slots.len(),
{
    if slots.len() == 0 {
        Seq::empty()
    } else {
        let rest = changed_slot_list(slots.drop_last(), base);
        let s = slots.last();
        if slot_changed(s, base) {
            rest.push((slot_tag(s), current_option_name(s)))
        } else {
            rest
        }
    }
}

/// A search that finds `x` finds it at an index from `k` on, inside `s`.
pub proof fn lemma_index_from_range<A>(s: Seq<A>, x: A, k: int)
    requires
        0 <= k,
    ensures
        index_from(s, x, k) matches Some(i) ==> k <= i < s.len() && s[i] == x,
    decreases s.len() - k,
{
    if k < s.len() && s[k] != x {
        lemma_index_from_range(s, x, k + 1);
    }
}

/// Choosing a slot option keeps a configuration well formed, and its machine.
pub proof fn lemma_with_slot_option_wf(c: ConfigView, tag: Seq<char>, option_name: Option<Seq<char>>)
    requires
        config_wf(c),
    ensures
        with_slot_option(c, tag, option_name) matches Ok(Some(n)) ==> config_wf(n)
            && n.machine_name == c.machine_name && n.slots.len() == c.slots.len(),
{
    let tags = c.slots.map_values(|s: SlotView| slot_tag(s));
    lemma_index_from_range(tags, tag, 0);
    if let Some(k) = find_slot(c.slots, tag) {
        let s = c.slots[k];
        if let Some(n) = option_name {
            lemma_index_from_range(s.option_names, n, 0);
        }
        if let Ok(Some(n)) = with_slot_option(c, tag, option_name) {
            assert(slot_wf(c.slots[k]));
            assert forall|j: int| 0 <= j < n.slots.len() implies slot_wf(#[trigger] n.slots[j]) by {
                if j != k {
                    assert(n.slots[j] == c.slots[j]);
                }
            }
        }
    }
}

/// When `x` is at index `j`, a search from `k` (at most `j`) finds it.
pub proof fn lemma_index_from_found<A>(s: Seq<A>, x: A, j: int, k: int)
    requires
        0 <= k <= j < s.len(),
        s[j] == x,
    ensures
        index_from(s, x, k) matches Some(i) && k <= i <= j && s[i] == x,
    decreases j - k,
{
    if k < j && s[k] != x {
        lemma_index_from_found(s, x, j, k + 1);
    }
}

/// The first index holding `x` in `s`, searching from 0, when the first `k`
/// elements differ from `x`.
proof fn lemma_index_skip<A>(s: Seq<A>, x: A, k: int)
    requires
        0 <= k <= s.len(),
        forall|j: int| 0 <= j < k ==> s[j] != x,
    ensures
        index_from(s, x, 0) == index_from(s, x, k),
    decreases k,
{
    if k > 0 {
        lemma_index_skip(s, x, k - 1);
    }
}

fn find_option(options: &Vec<SlotOption>, name: &str) -> (r: Option<usize>)
    ensures
        r matches Some(i) ==> i < options.len() && index_from(
            options@.map_values(|o: SlotOption| o.name@),
            name@,
            0,
        ) == Some(i as int),
        r is None ==> index_from(options@.map_values(|o: SlotOption| o.name@), name@, 0) is None,
{
    let ghost names = options@.map_values(|o: SlotOption| o.name@);
    for i in 0..options.len()
        invariant
            names == options@.map_values(|o: SlotOption| o.name@),
            forall|j: int| 0 <= j < i ==> names[j] != name@,
    {
        if str_eq(options[i].name.as_str(), name) {
            proof {
                lemma_index_skip(names, name@, i as int);
            }
            return Some(i);
        }
    }
    proof {
        lemma_index_skip(names, name@, options.len() as int);
    }
    None
}

fn copy_string(s: &String) -> (r: String)
    ensures
        r@ == s@,
{
    s.clone()
}

impl SlotOption {
    /// A copy of this option.
    pub fn copy(&self) -> (r: SlotOption)
        ensures
            r.name@ == self.name@,
            r.description@ == self.description@,
    {
        SlotOption { name: copy_string(&self.name), description: copy_string(&self.description) }
    }
}

impl Slot {
    /// A copy of this slot.
    pub fn copy(&self) -> (r: Slot)
        ensures
            r@ == self@,
    {
        let mut options: Vec<SlotOption> = Vec::new();
        for i in 0..self.options.len()
            invariant
                options@.len() == i,
                forall|k: int| 0 <= k < i ==> #[trigger] options@[k].name@ == self.options@[k].name@,
                forall|k: int|
                    0 <= k < i ==> #[trigger] options@[k].description@
                        == self.options@[k].description@,
        {
            options.push(self.options[i].copy());
        }
        let r = Slot {
            indent: self.indent,
            base_tag: copy_string(&self.base_tag),
            name: copy_string(&self.name),
            options,
            current_option_index: self.current_option_index,
        };
        assert(r@.option_names =~= self@.option_names);
        assert(r@.option_descriptions =~= self@.option_descriptions);
        r
    }

    /// The full tag of this slot.
    pub fn tag(&self) -> (r: String)
        ensures
            r@ == slot_tag(self@),
    {
        let mut r = copy_string(&self.base_tag);
        r.append(self.name.as_str());
        r
    }
}

impl MachineConfig {
    /// A copy of this configuration.
    pub fn copy(&self) -> (r: MachineConfig)
        ensures
            r@ == self@,
    {
        let mut slots: Vec<Slot> = Vec::new();
        for i in 0..self.slots.len()
            invariant
                slots@.len() == i,
                forall|k: int| 0 <= k < i ==> #[trigger] slots@[k]@ == self.slots@[k]@,
        {
            slots.push(self.slots[i].copy());
        }
        let r = MachineConfig { machine_name: copy_string(&self.machine_name), slots };
        assert(r@.slots =~= self@.slots);
        r
    }

    /// The index of the first slot with the full tag `tag`, if any.
    pub fn lookup_tag(&self, tag: &str) -> (r: Option<usize>)
        ensures
            r matches Some(k) ==> k < self.slots.len() && find_slot(self@.slots, tag@) == Some(
                k as int,
            ),
            r is None ==> find_slot(self@.slots, tag@) is None,
    {
        let ghost tags = self@.slots.map_values(|s: SlotView| slot_tag(s));
        for i in 0..self.slots.len()
            invariant
                tags == self@.slots.map_values(|s: SlotView| slot_tag(s)),
                forall|j: int| 0 <= j < i ==> tags[j] != tag@,
        {
            let t = self.slots[i].tag();
            if str_eq(t.as_str(), tag) {
                proof {
                    lemma_index_skip(tags, tag@, i as int);
                }
                return Some(i);
            }
        }
        proof {
            lemma_index_skip(tags, tag@, self.slots.len() as int);
        }
        None
    }

    /// Chooses `option_name` (no option when `None`) for the slot `tag`; see
    /// [`with_slot_option`].
    pub fn set_slot_option(&self, tag: &str, option_name: Option<&str>) -> (r: Result<
        Option<MachineConfig>,
        MachineConfigError,
    >)
        ensures
            match with_slot_option(
                self@,
                tag@,
                match option_name {
                    Some(n) => Some(n@),
                    None => None,
                },
            ) {
                Ok(Some(c)) => r matches Ok(Some(m)) && m@ == c,
                Ok(None) => r matches Ok(None),
                Err(e) => r == Err::<Option<MachineConfig>, MachineConfigError>(e),
            },
    {
        let k = match self.lookup_tag(tag) {
            Some(k) => k,
            None => {
                return Err(MachineConfigError::UnknownSlot);
            },
        };
        let slot = &self.slots[k];
        let new_index: Option<usize> = match option_name {
            None => None,
            Some(n) => match find_option(&slot.options, n) {
                Some(i) => Some(i),
                None => {
                    return Err(MachineConfigError::UnknownOption);
                },
            },
        };
        if new_index == slot.current_option_index {
            return Ok(None);
        }
        let mut result = self.copy();
        let mut new_slot = slot.copy();
        new_slot.current_option_index = new_index;
        let ghost before = result.slots@;
        result.slots.set(k, new_slot);
        assert(result@.slots =~= self@.slots.update(
            k as int,
            SlotView {
                current: match new_index {
                    Some(i) => Some(i as nat),
                    None => None,
                },
                ..self@.slots[k as int]
            },
        ));
        Ok(Some(result))
    }

    /// The slots whose choice differs from `base`, each with its tag and the name of
    /// its chosen option; see [`changed_slot_list`].
    pub fn changed_slots(&self, base: Option<&MachineConfig>) -> (r: Vec<(String, Option<String>)>)
        requires
            config_wf(self@),
            base matches Some(b) ==> config_wf(b@),
        ensures
            r@.map_values(
                |p: (String, Option<String>)|
                    (
                        p.0@,
                        match p.1 {
                            Some(n) => Some(n@),
                            None => None,
                        },
                    ),
            ) == changed_slot_list(
                self@.slots,
                match base {
                    Some(b) => Some(b@),
                    None => None,
                },
            ),
    {
        let ghost bv = match base {
            Some(b) => Some(b@),
            None => None::<ConfigView>,
        };
        let ghost slots = self@.slots;
        let mut r: Vec<(String, Option<String>)> = Vec::new();
        for i in 0..self.slots.len()
            invariant
                slots == self@.slots,
                config_wf(self@),
                base matches Some(b) ==> config_wf(b@),
                bv == match base {
                    Some(b) => Some(b@),
                    None => None::<ConfigView>,
                },
                r@.map_values(
                    |p: (String, Option<String>)|
                        (
                            p.0@,
                            match p.1 {
                                Some(n) => Some(n@),
                                None => None,
                            },
                        ),
                ) == changed_slot_list(slots.take(i as int), bv),
        {
            let slot = &self.slots[i];
            assert(slot_wf(slots[i as int]));
            let name: Option<String> = match slot.current_option_index {
                Some(j) => Some(copy_string(&slot.options[j].name)),
                None => None,
            };
            let tag = slot.tag();
            let changed = match base {
                None => true,
                Some(b) => match b.lookup_tag(tag.as_str()) {
                    None => true,
                    Some(k) => {
                        let bs = &b.slots[k];
                        assert(slot_wf(b@.slots[k as int]));
                        match (bs.current_option_index, slot.current_option_index) {
                            (Some(x), Some(y)) => !str_eq(
                                bs.options[x].name.as_str(),
                                slot.options[y].name.as_str(),
                            ),
                            (None, None) => false,
                            _ => true,
                        }
                    },
                },
            };
            assert(slots.take(i + 1).drop_last() =~= slots.take(i as int));
            let ghost old_r = r@;
            if changed {
                r.push((tag, name));
                assert(r@.map_values(
                    |p: (String, Option<String>)|
                        (
                            p.0@,
                            match p.1 {
                                Some(n) => Some(n@),
                                None => None,
                            },
                        ),
                ) =~= changed_slot_list(slots.take(i as int), bv).push(
                    (slot_tag(slots[i as int]), current_option_name(slots[i as int])),
                ));
            }
        }
        assert(slots.take(self.slots.len() as int) =~= slots);
        r
    }
}

} // verus!
