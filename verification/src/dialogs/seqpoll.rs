//! The dialog that polls for a key or button to put into an input's sequence: its
//! texts, the sequence it starts from, and when it is done.
use crate::dialogs::input::menu::{command_view, CommandView, InputCommand};
use crate::status::Input;
use crate::status::InputDevice;
use crate::status::InputDeviceClass;
use crate::status::InputDeviceClassName;
use crate::status::InputDeviceItem;
use crate::status::SeqType;
use crate::text::lemma_seq_lt_total;
use crate::text::lemma_seq_lt_trans;
use crate::text::seq_lt;
use crate::text::str_lt;
use crate::text::strings_view;
use crate::text::opt_view;
use crate::text::push_str;
use crate::text::str_eq;
use crate::text::string_from_chars;
use vstd::prelude::*;

verus! {

/// Whether polling replaces an input's sequence or adds to it.
#[derive(Debug, Clone, Copy, PartialEq, Eq, Structural)]
pub enum SeqPollDialogType {
    Specify,
    Add,
}

/// The index of the first input, from `start` on, on port `port_tag` with mask `mask`.
pub open spec fn input_index_from(inputs: Seq<Input>, port_tag: Seq<char>, mask: u32, start: int) -> Option<int>
    decreases inputs.len() - start,
{
    if start < 0 || start >= inputs.len() {
        None
    } else if inputs[start].port_tag@ == port_tag && inputs[start].mask == mask {
        Some(start)
    } else {
        input_index_from(inputs, port_tag, mask, start + 1)
    }
}

/// The tokens of the input's sequence of type `seq_type`, where it has one.
pub open spec fn seq_tokens_view(input: Input, seq_type: SeqType) -> Option<Seq<char>> {
    match seq_type {
        SeqType::Standard => opt_view(input.seq_standard_tokens),
        SeqType::Decrement => opt_view(input.seq_decrement_tokens),
        SeqType::Increment => opt_view(input.seq_increment_tokens),
    }
}

/// The dialog's title: "Specify " or "Add To ", then the target's name and suffix.
pub open spec fn poll_title(poll_type: SeqPollDialogType, target: Seq<char>) -> Seq<char> {
    match poll_type {
        SeqPollDialogType::Specify => "Specify "@ + target,
        SeqPollDialogType::Add => "Add To "@ + target,
    }
}

/// The dialog's caption, asking for a key or button to specify (or add to) the target.
pub open spec fn poll_caption(poll_type: SeqPollDialogType, target: Seq<char>) -> Seq<char> {
    match poll_type {
        SeqPollDialogType::Specify => "Press key or button to specify "@ + target,
        SeqPollDialogType::Add => "Press key or button to add to "@ + target,
    }
}

/// The sequence that polling starts from: nothing to specify a new one, the present
/// tokens (or nothing) to add to them.
pub open spec fn poll_start_seq(poll_type: SeqPollDialogType, tokens: Option<Seq<char>>) -> Seq<char> {
    match (poll_type, tokens) {
        (SeqPollDialogType::Add, Some(t)) => t,
        _ => Seq::empty(),
    }
}

/// The codes that choosing a mouse item sets: the item's code alone, or after the
/// start sequence and " or ".
pub open spec fn mouse_codes(start_seq: Seq<char>, code: Seq<char>) -> Seq<char> {
    if start_seq.len() == 0 {
        code
    } else {
        start_seq + " or "@ + code
    }
}

/// The index of the input on port `port_tag` with mask `mask`; the first one, where
/// several match.
pub fn find_input_index(inputs: &Vec<Input>, port_tag: &str, mask: u32) -> (r: Option<usize>)
    ensures
        match r {
            Some(i) => input_index_from(inputs@, port_tag@, mask, 0) == Some(i as int),
            None => input_index_from(inputs@, port_tag@, mask, 0) is None,
        },
{
    let mut i: usize = 0;
    while i < inputs.len()
        invariant
            i <= inputs.len(),
            input_index_from(inputs@, port_tag@, mask, 0) == input_index_from(inputs@, port_tag@, mask, i as int),
        decreases inputs.len() - i,
    {
        if inputs[i].mask == mask && str_eq(inputs[i].port_tag.as_str(), port_tag) {
            return Some(i);
        }
        i = i + 1;
    }
    None
}

/// The tokens of the input's sequence of type `seq_type`.
pub fn seq_tokens_of(input: &Input, seq_type: SeqType) -> (r: &Option<String>)
    ensures
        opt_view(*r) == seq_tokens_view(*input, seq_type),
{
    match seq_type {
        SeqType::Standard => &input.seq_standard_tokens,
        SeqType::Decrement => &input.seq_decrement_tokens,
        SeqType::Increment => &input.seq_increment_tokens,
    }
}

/// The dialog's title, its caption and the sequence that polling starts from, for the
/// target named `target_name` with `target_name_suffix` (which says which of the
/// input's sequences is meant) and that sequence's present tokens.
pub fn seq_poll_texts(
    poll_type: SeqPollDialogType,
    target_name: &str,
    target_name_suffix: &str,
    seq_tokens: &Option<String>,
) -> (r: (String, String, String))
    ensures
        r.0@ == poll_title(poll_type, target_name@ + target_name_suffix@),
        r.1@ == poll_caption(poll_type, target_name@ + target_name_suffix@),
        r.2@ == poll_start_seq(poll_type, opt_view(*seq_tokens)),
{
    let mut title: Vec<char> = Vec::new();
    let mut caption: Vec<char> = Vec::new();
    let mut start: Vec<char> = Vec::new();
    match poll_type {
        SeqPollDialogType::Specify => {
            push_str(&mut title, "Specify ");
            push_str(&mut caption, "Press key or button to specify ");
        },
        SeqPollDialogType::Add => {
            push_str(&mut title, "Add To ");
            push_str(&mut caption, "Press key or button to add to ");
            if let Some(t) = seq_tokens {
                push_str(&mut start, t.as_str());
            }
        },
    }
    push_str(&mut title, target_name);
    push_str(&mut title, target_name_suffix);
    push_str(&mut caption, target_name);
    push_str(&mut caption, target_name_suffix);
    let ghost target = target_name@ + target_name_suffix@;
    assert(title@ =~= poll_title(poll_type, target));
    assert(caption@ =~= poll_caption(poll_type, target));
    assert(start@ =~= poll_start_seq(poll_type, opt_view(*seq_tokens)));
    (string_from_chars(&title), string_from_chars(&caption), string_from_chars(&start))
}

/// The codes that choosing the mouse item with code `code` sets.
pub fn mouse_item_codes(start_seq: &str, code: &str) -> (r: String)
    ensures
        r@ == mouse_codes(start_seq@, code@),
{
    let mut out: Vec<char> = Vec::new();
    if !start_seq.is_empty() {
        push_str(&mut out, start_seq);
        push_str(&mut out, " or ");
    }
    push_str(&mut out, code);
    assert(out@ =~= mouse_codes(start_seq@, code@));
    string_from_chars(&out)
}

/// The controls of `items` whose token is not among the axis tokens, in order.
pub open spec fn kept_items(items: Seq<InputDeviceItem>, axis_tokens: Seq<Seq<char>>) -> Seq<InputDeviceItem>
    decreases items.len(),
{
    if items.len() == 0 {
        Seq::empty()
    } else {
        let prev = kept_items(items.drop_last(), axis_tokens);
        if axis_tokens.contains(items.last().token@) {
            prev
        } else {
            prev.push(items.last())
        }
    }
}

/// The non-axis controls of the devices `ds`, device after device.
pub open spec fn device_items(ds: Seq<InputDevice>, axis_tokens: Seq<Seq<char>>) -> Seq<InputDeviceItem>
    decreases ds.len(),
{
    if ds.len() == 0 {
        Seq::empty()
    } else {
        device_items(ds.drop_last(), axis_tokens) + kept_items(ds.last().items@, axis_tokens)
    }
}

/// The non-axis controls of the mice among the device classes `cs`, in order.
pub open spec fn mouse_items(cs: Seq<InputDeviceClass>, axis_tokens: Seq<Seq<char>>) -> Seq<InputDeviceItem>
    decreases cs.len(),
{
    if cs.len() == 0 {
        Seq::empty()
    } else {
        let prev = mouse_items(cs.drop_last(), axis_tokens);
        if cs.last().name is Mouse {
            prev + device_items(cs.last().devices@, axis_tokens)
        } else {
            prev
        }
    }
}

/// Control `i` is listed before control `j`: by name, and in the given order among equal
/// names.
pub open spec fn name_before(items: Seq<InputDeviceItem>, i: int, j: int) -> bool {
    ||| seq_lt(items[i].name@, items[j].name@)
    ||| (items[i].name@ == items[j].name@ && i < j)
}

/// Whether `order` lists every control of `items` by its index there, each before the
/// next. As `name_before` is a strict total order, only one such order exists.
pub open spec fn is_name_order(items: Seq<InputDeviceItem>, order: Seq<usize>) -> bool {
    &&& order.len() == items.len()
    &&& forall|k: int| 0 <= k < order.len() ==> #[trigger] order[k] < items.len()
    &&& forall|a: int, b: int|
        0 <= a < b < order.len() ==> name_before(items, #[trigger] order[a] as int, #[trigger] order[b] as int)
}

fn copy_item(item: &InputDeviceItem) -> (r: InputDeviceItem)
    ensures
        r == *item,
{
    InputDeviceItem { name: item.name.clone(), token: item.token.clone(), code: item.code.clone() }
}

fn is_axis_token(axis_tokens: &Vec<String>, token: &str) -> (r: bool)
    ensures
        r == strings_view(axis_tokens@).contains(token@),
{
    let mut i: usize = 0;
    while i < axis_tokens.len()
        invariant
            i <= axis_tokens.len(),
            forall|k: int| 0 <= k < i ==> (#[trigger] axis_tokens@[k])@ != token@,
        decreases axis_tokens.len() - i,
    {
        if str_eq(axis_tokens[i].as_str(), token) {
            assert(strings_view(axis_tokens@)[i as int] == token@);
            return true;
        }
        i = i + 1;
    }
    assert forall|k: int| 0 <= k < strings_view(axis_tokens@).len() implies strings_view(axis_tokens@)[k]
        != token@ by {
        assert(strings_view(axis_tokens@)[k] == axis_tokens@[k]@);
    }
    false
}

fn push_kept_items(out: &mut Vec<InputDeviceItem>, items: &Vec<InputDeviceItem>, axis_tokens: &Vec<String>)
    ensures
        final(out)@ == old(out)@ + kept_items(items@, strings_view(axis_tokens@)),
{
    let ghost start = out@;
    let ghost axis = strings_view(axis_tokens@);
    let mut i: usize = 0;
    while i < items.len()
        invariant
            i <= items@.len(),
            axis == strings_view(axis_tokens@),
            out@ == start + kept_items(items@.take(i as int), axis),
        decreases items@.len() - i,
    {
        assert(items@.take(i + 1).drop_last() =~= items@.take(i as int));
        if !is_axis_token(axis_tokens, items[i].token.as_str()) {
            out.push(copy_item(&items[i]));
            assert(out@ =~= start + kept_items(items@.take(i + 1), axis));
        } else {
            assert(out@ =~= start + kept_items(items@.take(i + 1), axis));
        }
        i = i + 1;
    }
    assert(items@.take(items@.len() as int) =~= items@);
}

fn gather_mouse_items(classes: &Vec<InputDeviceClass>, axis_tokens: &Vec<String>) -> (r: Vec<InputDeviceItem>)
    ensures
        r@ == mouse_items(classes@, strings_view(axis_tokens@)),
{
    let ghost axis = strings_view(axis_tokens@);
    let mut out: Vec<InputDeviceItem> = Vec::new();
    let mut c: usize = 0;
    while c < classes.len()
        invariant
            c <= classes@.len(),
            axis == strings_view(axis_tokens@),
            out@ == mouse_items(classes@.take(c as int), axis),
        decreases classes@.len() - c,
    {
        assert(classes@.take(c + 1).drop_last() =~= classes@.take(c as int));
        let class = &classes[c];
        let is_mouse = match class.name {
            InputDeviceClassName::Mouse => true,
            _ => false,
        };
        if is_mouse {
            let ghost start = out@;
            let mut d: usize = 0;
            while d < class.devices.len()
                invariant
                    d <= class.devices@.len(),
                    axis == strings_view(axis_tokens@),
                    out@ == start + device_items(class.devices@.take(d as int), axis),
                decreases class.devices@.len() - d,
            {
                assert(class.devices@.take(d + 1).drop_last() =~= class.devices@.take(d as int));
                push_kept_items(&mut out, &class.devices[d].items, axis_tokens);
                assert(out@ =~= start + device_items(class.devices@.take(d + 1), axis));
                d = d + 1;
            }
            assert(class.devices@.take(class.devices@.len() as int) =~= class.devices@);
        }
        c = c + 1;
    }
    assert(classes@.take(classes@.len() as int) =~= classes@);
    out
}

fn name_order(items: &Vec<InputDeviceItem>) -> (order: Vec<usize>)
    ensures
        is_name_order(items@, order@),
{
    let mut order: Vec<usize> = Vec::new();
    let mut i: usize = 0;
    while i < items.len()
        invariant
            i <= items.len(),
            order.len() == i,
            forall|k: int| 0 <= k < order.len() ==> #[trigger] order@[k] < i,
            forall|a: int, b: int|
                0 <= a < b < order.len() ==> name_before(items@, #[trigger] order@[a] as int, #[trigger] order@[b] as int),
        decreases items.len() - i,
    {
        let mut p: usize = 0;
        while p < order.len()
            invariant
                i < items.len(),
                p <= order.len(),
                forall|k: int| 0 <= k < order.len() ==> #[trigger] order@[k] < i,
                forall|q: int| 0 <= q < p ==> !seq_lt(items@[i as int].name@, #[trigger] items@[order@[q] as int].name@),
            ensures
                p <= order.len(),
                forall|q: int| 0 <= q < p ==> !seq_lt(items@[i as int].name@, #[trigger] items@[order@[q] as int].name@),
                p < order.len() ==> seq_lt(items@[i as int].name@, items@[order@[p as int] as int].name@),
            decreases order.len() - p,
        {
            if str_lt(items[i].name.as_str(), items[order[p]].name.as_str()) {
                break;
            }
            p = p + 1;
        }
        let ghost old_order = order@;
        order.insert(p, i);
        proof {
            let o = order@;
            assert(o =~= old_order.insert(p as int, i));
            assert forall|a: int, b: int| 0 <= a < b < o.len() implies name_before(
                items@,
                #[trigger] o[a] as int,
                #[trigger] o[b] as int,
            ) by {
                if b == p {
                    let x = items@[old_order[a] as int].name@;
                    let y = items@[i as int].name@;
                    lemma_seq_lt_total(x, y);
                } else if a == p {
                    let y = items@[i as int].name@;
                    let first = items@[old_order[p as int] as int].name@;
                    if b - 1 == p {
                        assert(seq_lt(y, first));
                    } else {
                        assert(name_before(items@, old_order[p as int] as int, old_order[b - 1] as int));
                        let z = items@[old_order[b - 1] as int].name@;
                        if seq_lt(first, z) {
                            lemma_seq_lt_trans(y, first, z);
                        }
                    }
                } else if a < p && b > p {
                    assert(o[a] == old_order[a]);
                    assert(o[b] == old_order[b - 1]);
                } else if b < p {
                    assert(o[a] == old_order[a]);
                    assert(o[b] == old_order[b]);
                } else {
                    assert(o[a] == old_order[a - 1]);
                    assert(o[b] == old_order[b - 1]);
                }
            }
        }
        i = i + 1;
    }
    order
}

/// The mouse choices that the dialog offers: every control of the host's mice that is not
/// an axis (its token is not among `axis_tokens`, the tokens that name axes), ordered by
/// name (in the order of the devices among equal names), each with its name and the
/// command that sets the input's sequence to the start sequence or'ed with the
/// control's code.
pub fn mouse_input_items(
    input_device_classes: &Vec<InputDeviceClass>,
    axis_tokens: &Vec<String>,
    port_tag: &str,
    mask: u32,
    seq_type: SeqType,
    start_seq: &str,
) -> (r: Vec<(String, InputCommand)>)
    ensures
        ({
            let items = mouse_items(input_device_classes@, strings_view(axis_tokens@));
            &&& r.len() == items.len()
            &&& exists|order: Seq<usize>|
                is_name_order(items, order) && forall|k: int|
                    0 <= k < r.len() ==> {
                        &&& (#[trigger] r@[k]).0@ == items[order[k] as int].name@
                        &&& command_view(r@[k].1) == CommandView::SeqSet(
                            seq![(port_tag@, mask, seq_type, mouse_codes(start_seq@, items[order[k] as int].code@))],
                        )
                    }
        }),
{
    let items = gather_mouse_items(input_device_classes, axis_tokens);
    let order = name_order(&items);
    let mut r: Vec<(String, InputCommand)> = Vec::new();
    let mut k: usize = 0;
    while k < order.len()
        invariant
            items@ == mouse_items(input_device_classes@, strings_view(axis_tokens@)),
            is_name_order(items@, order@),
            k <= order.len(),
            r.len() == k,
            forall|j: int|
                0 <= j < k ==> {
                    &&& (#[trigger] r@[j]).0@ == items@[order@[j] as int].name@
                    &&& command_view(r@[j].1) == CommandView::SeqSet(
                        seq![(port_tag@, mask, seq_type, mouse_codes(start_seq@, items@[order@[j] as int].code@))],
                    )
                },
        decreases order.len() - k,
    {
        let item = &items[order[k]];
        let codes = mouse_item_codes(start_seq, item.code.as_str());
        let tag = port_tag.to_string();
        assert(tag@ == port_tag@);
        let seqs = vec![(tag, mask, seq_type, codes)];
        assert(seqs@.map_values(|s: (String, u32, SeqType, String)| (s.0@, s.1, s.2, s.3@)) =~= seq![
            (port_tag@, mask, seq_type, mouse_codes(start_seq@, items@[order@[k as int] as int].code@)),
        ]);
        let command = InputCommand::SeqSet(seqs);
        proof {
            assert(command_view(command) == CommandView::SeqSet(
                seq![(port_tag@, mask, seq_type, mouse_codes(start_seq@, items@[order@[k as int] as int].code@))],
            ));
        }
        r.push((item.name.clone(), command));
        k = k + 1;
    }
    r
}

/// Watches what the emulation reports while the dialog is up: whether it has been seen
/// polling for input.
#[derive(Debug, Clone, Copy, PartialEq, Eq)]
pub struct SeqPollMonitor {
    pub seen_polling: bool,
}

impl SeqPollMonitor {
    /// A monitor that has not seen polling yet.
    pub fn new() -> (r: Self)
        ensures
            !r.seen_polling,
    {
        SeqPollMonitor { seen_polling: false }
    }

    /// Takes a report: `None` where no machine runs, else whether the machine is polling
    /// for input. Returns whether the dialog is done: where no machine runs, or where
    /// polling has stopped after it was seen. Polling is seen where a report shows it and
    /// the dialog is not done.
    pub fn status_changed(&mut self, polling_input_seq: Option<bool>) -> (done: bool)
        ensures
            done == (polling_input_seq is None || (old(self).seen_polling && polling_input_seq == Some(false))),
            final(self).seen_polling == (old(self).seen_polling || (!done && polling_input_seq == Some(true))),
    {
        match polling_input_seq {
            None => true,
            Some(polling) => {
                if self.seen_polling && !polling {
                    true
                } else {
                    if polling {
                        self.seen_polling = true;
                    }
                    false
                }
            },
        }
    }
}

} // verus!
