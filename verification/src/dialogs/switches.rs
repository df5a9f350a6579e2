//! The model behind the dialog that sets a machine's configuration switches and DIP
//! switches: one row per input of the chosen class, each offering the settings that the
//! machine's description lists for that input.
use vstd::prelude::*;
use crate::status::Input;
use crate::status::InputClass;
use crate::text::opt_view;
use crate::text::str_eq;
use crate::text::strings_view;

verus! {

/// A setting that a configuration of a machine offers: its name and the value it sets.
#[derive(Debug)]
pub struct ConfigurationSetting {
    pub name: String,
    pub value: u32,
}

/// A configuration (or bank of DIP switches) of a machine, as the machine's description
/// lists it: the port it lives on, the mask of its bits, and the settings it offers.
#[derive(Debug)]
pub struct Configuration {
    pub tag: String,
    pub mask: u32,
    pub settings: Vec<ConfigurationSetting>,
}

/// A row of the dialog: the input it shows, and the configuration of the machine that
/// describes that input, if one does.
#[derive(Clone, Copy, Debug, PartialEq, Eq)]
pub struct Entry {
    pub input_index: usize,
    pub config_index: Option<usize>,
}

/// Whether configuration `c` describes `input`: same port, same mask.
pub open spec fn config_describes(c: Configuration, input: Input) -> bool {
    c.tag@ == input.port_tag@ && c.mask == input.mask
}

/// The index of the first configuration, from `start` on, that describes `input`.
pub open spec fn first_config_from(cs: Seq<Configuration>, input: Input, start: int) -> Option<usize>
    decreases cs.len() - start,
{
    if start < 0 || start >= cs.len() {
        None
    } else if config_describes(cs[start], input) {
        Some(start as usize)
    } else {
        first_config_from(cs, input, start + 1)
    }
}

/// The rows for `inputs` on a machine with configurations `cs`: one for each input of
/// class `class`, in the order of the inputs.
pub open spec fn entries_of(cs: Seq<Configuration>, class: InputClass, inputs: Seq<Input>) -> Seq<Entry>
    decreases inputs.len(),
{
    if inputs.len() == 0 {
        Seq::empty()
    } else {
        let i = inputs.len() - 1;
        let before = entries_of(cs, class, inputs.drop_last());
        if inputs[i].class == Some(class) {
            before.push(Entry { input_index: i as usize, config_index: first_config_from(cs, inputs[i], 0) })
        } else {
            before
        }
    }
}

/// The configurations of machine `machine_index`, where one is known.
pub open spec fn machine_of(machines: Seq<Vec<Configuration>>, machine_index: Option<usize>) -> Option<Seq<Configuration>> {
    match machine_index {
        Some(m) => Some(machines[m as int]@),
        None => None,
    }
}

/// The rows of the dialog: none where no machine is known.
pub open spec fn switch_entries(class: InputClass, machine: Option<Seq<Configuration>>, inputs: Seq<Input>) -> Seq<Entry> {
    match machine {
        Some(cs) => entries_of(cs, class, inputs),
        None => Seq::empty(),
    }
}

proof fn lemma_first_config_from(cs: Seq<Configuration>, input: Input, start: int)
    requires
        0 <= start,
        cs.len() <= usize::MAX,
    ensures
        match first_config_from(cs, input, start) {
            Some(j) => start <= j < cs.len() && config_describes(cs[j as int], input),
            None => true,
        },
    decreases cs.len() - start,
{
    if start < cs.len() && !config_describes(cs[start], input) {
        lemma_first_config_from(cs, input, start + 1);
    }
}

proof fn lemma_entries_of(cs: Seq<Configuration>, class: InputClass, inputs: Seq<Input>)
    requires
        cs.len() <= usize::MAX,
        inputs.len() <= usize::MAX,
    ensures
        entries_of(cs, class, inputs).len() <= inputs.len(),
        forall|k: int| 0 <= k < entries_of(cs, class, inputs).len() ==> {
            let e = #[trigger] entries_of(cs, class, inputs)[k];
            &&& e.input_index < inputs.len()
            &&& inputs[e.input_index as int].class == Some(class)
            &&& e.config_index == first_config_from(cs, inputs[e.input_index as int], 0)
            &&& match e.config_index {
                Some(c) => c < cs.len(),
                None => true,
            }
        },
    decreases inputs.len(),
{
    if inputs.len() > 0 {
        let i = inputs.len() - 1;
        lemma_entries_of(cs, class, inputs.drop_last());
        lemma_first_config_from(cs, inputs[i], 0);
    }
}

/// The index of the first of `cs` that describes `input`.
fn first_config_index(cs: &Vec<Configuration>, input: &Input) -> (r: Option<usize>)
    ensures
        r == first_config_from(cs@, *input, 0),
{
    let mut j: usize = 0;
    while j < cs.len()
        invariant
            j <= cs.len(),
            first_config_from(cs@, *input, 0) == first_config_from(cs@, *input, j as int),
        decreases cs.len() - j,
    {
        if cs[j].mask == input.mask && str_eq(cs[j].tag.as_str(), input.port_tag.as_str()) {
            return Some(j);
        }
        j = j + 1;
    }
    None
}

/// The rows for `inputs` of class `class` on machine `machine_index`, whose
/// configurations `machines` lists.
fn build_entries(
    machines: &Vec<Vec<Configuration>>,
    class: InputClass,
    machine_index: Option<usize>,
    inputs: &Vec<Input>,
) -> (r: Vec<Entry>)
    requires
        match machine_index {
            Some(m) => m < machines.len(),
            None => true,
        },
    ensures
        r@ == switch_entries(class, machine_of(machines@, machine_index), inputs@),
{
    let cs = match machine_index {
        Some(m) => &machines[m],
        None => {
            return Vec::new();
        },
    };
    let mut entries: Vec<Entry> = Vec::new();
    let mut i: usize = 0;
    while i < inputs.len()
        invariant
            i <= inputs.len(),
            entries@ == entries_of(cs@, class, inputs@.take(i as int)),
        decreases inputs.len() - i,
    {
        proof {
            assert(inputs@.take(i as int + 1).drop_last() =~= inputs@.take(i as int));
        }
        let input = &inputs[i];
        let of_class = match input.class {
            Some(c) => c == class,
            None => false,
        };
        if of_class {
            let config_index = first_config_index(cs, input);
            entries.push(Entry { input_index: i, config_index });
        }
        i = i + 1;
    }
    proof {
        assert(inputs@.take(inputs@.len() as int) =~= inputs@);
    }
    entries
}

/// Whether two inputs are the same in every field.
pub open spec fn input_same(a: Input, b: Input) -> bool {
    &&& a.port_tag@ == b.port_tag@
    &&& a.mask == b.mask
    &&& a.class == b.class
    &&& a.group == b.group
    &&& a.input_type == b.input_type
    &&& a.first_keyboard_code == b.first_keyboard_code
    &&& a.name@ == b.name@
    &&& a.is_analog == b.is_analog
    &&& opt_view(a.seq_standard_tokens) == opt_view(b.seq_standard_tokens)
    &&& opt_view(a.seq_decrement_tokens) == opt_view(b.seq_decrement_tokens)
    &&& opt_view(a.seq_increment_tokens) == opt_view(b.seq_increment_tokens)
    &&& a.value == b.value
}

/// Whether two lists of inputs are the same, input by input.
pub open spec fn inputs_same(a: Seq<Input>, b: Seq<Input>) -> bool {
    a.len() == b.len() && forall|i: int| 0 <= i < a.len() ==> input_same(#[trigger] a[i], b[i])
}

/// Any list of inputs is the same as itself; so, by the contract of
/// `SwitchesDialogModel::update`, reporting again the machine and inputs that the model
/// holds changes nothing and returns `false`.
pub proof fn lemma_inputs_same_reflexive(inputs: Seq<Input>)
    ensures
        inputs_same(inputs, inputs),
{
}

/// The index of the first setting, from `start` on, whose value is `value`.
pub open spec fn first_setting_from(ss: Seq<ConfigurationSetting>, value: Option<u32>, start: int) -> Option<int>
    decreases ss.len() - start,
{
    if start < 0 || start >= ss.len() {
        None
    } else if value == Some(ss[start].value) {
        Some(start)
    } else {
        first_setting_from(ss, value, start + 1)
    }
}

/// The names of the settings, in order.
pub open spec fn setting_names(ss: Seq<ConfigurationSetting>) -> Seq<Seq<char>> {
    ss.map_values(|s: ConfigurationSetting| s.name@)
}

/// Whether every configuration of every machine has few enough settings for an `i32`
/// to number them.
pub open spec fn settings_fit(machines: Seq<Vec<Configuration>>) -> bool {
    forall|m: int, c: int|
        0 <= m < machines.len() && 0 <= c < machines[m].len() ==> #[trigger] machines[m]@[c].settings.len()
            <= i32::MAX
}

/// What row `row` shows, given the machine's configurations (if a machine is known), the
/// inputs and the rows: the input's name, the names of the settings offered, and the
/// index of the setting whose value the input has (-1 where none has it).
pub open spec fn row_spec(
    machine: Option<Seq<Configuration>>,
    inputs: Seq<Input>,
    entries: Seq<Entry>,
    row: int,
) -> Option<(Seq<char>, Seq<Seq<char>>, int)> {
    if row < 0 || row >= entries.len() {
        None
    } else {
        match machine {
            None => None,
            Some(cs) => {
                let e = entries[row];
                let input = inputs[e.input_index as int];
                match e.config_index {
                    None => Some((input.name@, Seq::empty(), -1)),
                    Some(c) => {
                        let ss = cs[c as int].settings@;
                        let current = match first_setting_from(ss, input.value, 0) {
                            Some(p) => p,
                            None => -1,
                        };
                        Some((input.name@, setting_names(ss), current))
                    },
                }
            },
        }
    }
}

proof fn lemma_first_setting_from(ss: Seq<ConfigurationSetting>, value: Option<u32>, start: int)
    requires
        0 <= start,
    ensures
        match first_setting_from(ss, value, start) {
            Some(p) => start <= p < ss.len(),
            None => true,
        },
    decreases ss.len() - start,
{
    if start < ss.len() && value != Some(ss[start].value) {
        lemma_first_setting_from(ss, value, start + 1);
    }
}

fn opt_u32_eq(a: Option<u32>, b: Option<u32>) -> (r: bool)
    ensures
        r == (a == b),
{
    match (a, b) {
        (Some(x), Some(y)) => x == y,
        (None, None) => true,
        _ => false,
    }
}

fn opt_string_eq(a: &Option<String>, b: &Option<String>) -> (r: bool)
    ensures
        r == (opt_view(*a) == opt_view(*b)),
{
    match (a, b) {
        (Some(x), Some(y)) => str_eq(x.as_str(), y.as_str()),
        (None, None) => true,
        _ => false,
    }
}

fn input_eq(a: &Input, b: &Input) -> (r: bool)
    ensures
        r == input_same(*a, *b),
{
    let same_class = match (a.class, b.class) {
        (Some(x), Some(y)) => x == y,
        (None, None) => true,
        _ => false,
    };
    a.mask == b.mask && same_class && a.group == b.group && a.input_type == b.input_type
        && opt_u32_eq(a.first_keyboard_code, b.first_keyboard_code) && a.is_analog == b.is_analog
        && opt_u32_eq(a.value, b.value) && str_eq(a.port_tag.as_str(), b.port_tag.as_str())
        && str_eq(a.name.as_str(), b.name.as_str())
        && opt_string_eq(&a.seq_standard_tokens, &b.seq_standard_tokens)
        && opt_string_eq(&a.seq_decrement_tokens, &b.seq_decrement_tokens)
        && opt_string_eq(&a.seq_increment_tokens, &b.seq_increment_tokens)
}

pub(crate) fn inputs_eq(a: &Vec<Input>, b: &Vec<Input>) -> (r: bool)
    ensures
        r == inputs_same(a@, b@),
{
    if a.len() != b.len() {
        return false;
    }
    let mut i: usize = 0;
    while i < a.len()
        invariant
            i <= a.len(),
            a.len() == b.len(),
            forall|k: int| 0 <= k < i ==> input_same(#[trigger] a@[k], b@[k]),
        decreases a.len() - i,
    {
        if !input_eq(&a[i], &b[i]) {
            return false;
        }
        i = i + 1;
    }
    true
}

/// The index of the first of `settings` whose value is `value`.
fn first_setting_index(settings: &Vec<ConfigurationSetting>, value: Option<u32>) -> (r: Option<usize>)
    ensures
        match r {
            Some(p) => first_setting_from(settings@, value, 0) == Some(p as int),
            None => first_setting_from(settings@, value, 0) is None,
        },
{
    let mut j: usize = 0;
    while j < settings.len()
        invariant
            j <= settings.len(),
            first_setting_from(settings@, value, 0) == first_setting_from(settings@, value, j as int),
        decreases settings.len() - j,
    {
        if opt_u32_eq(value, Some(settings[j].value)) {
            return Some(j);
        }
        j = j + 1;
    }
    None
}

/// What a row of the dialog shows: the input's name, the names of the settings to choose
/// from, and the index of the setting now in effect (-1 where none is).
#[derive(Clone, Debug, PartialEq, Eq)]
pub struct SwitchesDialogEntry {
    pub name: String,
    pub options: Vec<String>,
    pub current_option_index: i32,
}

struct SwitchesDialogState {
    machine_index: Option<usize>,
    inputs: Vec<Input>,
    entries: Vec<Entry>,
}

/// The rows of the switches dialog for one class of inputs, kept in step with what the
/// running emulation reports.
pub struct SwitchesDialogModel {
    class: InputClass,
    machines: Vec<Vec<Configuration>>,
    state: SwitchesDialogState,
}

impl SwitchesDialogModel {
    #[verifier::type_invariant]
    spec fn well_formed(self) -> bool {
        &&& settings_fit(self.machines@)
        &&& match self.state.machine_index {
            Some(m) => m < self.machines.len(),
            None => true,
        }
        &&& self.state.entries@ == switch_entries(
            self.class,
            machine_of(self.machines@, self.state.machine_index),
            self.state.inputs@,
        )
    }

    /// The class of inputs that the dialog shows.
    pub closed spec fn input_class(&self) -> InputClass {
        self.class
    }

    /// The configurations of each machine of the database, by machine index.
    pub closed spec fn machine_configurations(&self) -> Seq<Vec<Configuration>> {
        self.machines@
    }

    /// The machine now running, by index, where one is known.
    pub closed spec fn machine_index(&self) -> Option<usize> {
        self.state.machine_index
    }

    /// The inputs of the running machine.
    pub closed spec fn inputs(&self) -> Seq<Input> {
        self.state.inputs@
    }

    /// The rows of the dialog.
    pub closed spec fn entries(&self) -> Seq<Entry> {
        self.state.entries@
    }

    /// A model for inputs of class `class`, with no machine and no rows yet.
    pub fn new(class: InputClass, machine_configurations: Vec<Vec<Configuration>>) -> (r: Self)
        requires
            settings_fit(machine_configurations@),
        ensures
            r.input_class() == class,
            r.machine_configurations() == machine_configurations@,
            r.machine_index() is None,
            r.inputs().len() == 0,
            r.entries().len() == 0,
    {
        let state = SwitchesDialogState { machine_index: None, inputs: Vec::new(), entries: Vec::new() };
        SwitchesDialogModel { class, machines: machine_configurations, state }
    }

    /// Takes the machine now running and its inputs. Where either differs from what the
    /// model holds, the rows are built anew and `true` is returned; else nothing changes.
    pub fn update(&mut self, machine_index: Option<usize>, inputs: Vec<Input>) -> (changed: bool)
        requires
            match machine_index {
                Some(m) => m < old(self).machine_configurations().len(),
                None => true,
            },
        ensures
            changed == (old(self).machine_index() != machine_index || !inputs_same(old(self).inputs(), inputs@)),
            final(self).input_class() == old(self).input_class(),
            final(self).machine_configurations() == old(self).machine_configurations(),
            changed ==> final(self).machine_index() == machine_index && final(self).inputs() == inputs@,
            !changed ==> final(self).machine_index() == old(self).machine_index() && final(self).inputs()
                == old(self).inputs() && final(self).entries() == old(self).entries(),
            final(self).entries() == switch_entries(
                final(self).input_class(),
                machine_of(final(self).machine_configurations(), final(self).machine_index()),
                final(self).inputs(),
            ),
    {
        proof {
            use_type_invariant(&*self);
        }
        let same_machine = match (self.state.machine_index, machine_index) {
            (Some(a), Some(b)) => a == b,
            (None, None) => true,
            _ => false,
        };
        let changed = !same_machine || !inputs_eq(&self.state.inputs, &inputs);
        if changed {
            let entries = build_entries(&self.machines, self.class, machine_index, &inputs);
            self.state = SwitchesDialogState { machine_index, inputs, entries };
        }
        changed
    }

    /// The number of rows.
    pub fn row_count(&self) -> (r: usize)
        ensures
            r == self.entries().len(),
    {
        self.state.entries.len()
    }

    /// What row `row` shows; `None` past the last row.
    pub fn row_data(&self, row: usize) -> (r: Option<SwitchesDialogEntry>)
        ensures
            match r {
                None => row_spec(
                    machine_of(self.machine_configurations(), self.machine_index()),
                    self.inputs(),
                    self.entries(),
                    row as int,
                ) is None,
                Some(e) => row_spec(
                    machine_of(self.machine_configurations(), self.machine_index()),
                    self.inputs(),
                    self.entries(),
                    row as int,
                ) == Some((e.name@, strings_view(e.options@), e.current_option_index as int)),
            },
    {
        proof {
            use_type_invariant(self);
        }
        if row >= self.state.entries.len() {
            return None;
        }
        let m = match self.state.machine_index {
            Some(m) => m,
            None => {
                return None;
            },
        };
        proof {
            assert(self.machines@[m as int]@.len() == self.machines@[m as int].len());
            assert(self.state.inputs@.len() == self.state.inputs.len());
            lemma_entries_of(self.machines@[m as int]@, self.class, self.state.inputs@);
        }
        let entry = self.state.entries[row];
        let input = &self.state.inputs[entry.input_index];
        let name = input.name.clone();
        match entry.config_index {
            None => Some(SwitchesDialogEntry { name, options: Vec::new(), current_option_index: -1 }),
            Some(c) => {
                let settings = &self.machines[m][c].settings;
                let mut options: Vec<String> = Vec::new();
                let mut i: usize = 0;
                while i < settings.len()
                    invariant
                        i <= settings.len(),
                        options.len() == i,
                        forall|k: int| 0 <= k < i ==> (#[trigger] options@[k])@ == settings@[k].name@,
                    decreases settings.len() - i,
                {
                    options.push(settings[i].name.clone());
                    i = i + 1;
                }
                proof {
                    assert(strings_view(options@) =~= setting_names(settings@));
                    assert(settings.len() <= i32::MAX);
                    lemma_first_setting_from(settings@, input.value, 0);
                }
                let current_option_index: i32 = match first_setting_index(settings, input.value) {
                    Some(p) => p as i32,
                    None => -1,
                };
                Some(SwitchesDialogEntry { name, options, current_option_index })
            },
        }
    }
}

} // verus!
