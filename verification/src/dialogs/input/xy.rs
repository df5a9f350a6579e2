//! The logic behind the dialog for the two axes of an analog control.
use vstd::prelude::*;

use crate::dialogs::input::menu::{command_view, multi_seq, set_multi_seq, CommandView, InputCommand};
use crate::dialogs::input::primary::InputDialogEntry;
use crate::dialogs::input::{build_code_text, code_text, codes_view, InputAxis};
use crate::dialogs::seqpoll::SeqPollDialogType;
use crate::status::{Input, SeqType};
use crate::text::{chars_of, push_str, string_from_chars, sub_vec, trim_end_by, ws_pred};

verus! {

/// An input's name without its final axis letter (`X`, `Y` or `Z`) and the whitespace before
/// it, if it ends with such a letter.
pub open spec fn axis_stem(name: Seq<char>) -> Option<Seq<char>> {
    if name.len() > 0 && (name.last() == 'X' || name.last() == 'Y' || name.last() == 'Z') {
        Some(trim_end_by(name.drop_last(), ws_pred()))
    } else {
        None
    }
}

/// The name of an analog control: the stem of its X input's name, else of its Y input's name,
/// else `<<UNKNOWN>>`.
pub open spec fn aggregate_name_of(x_input: Option<Input>, y_input: Option<Input>) -> Seq<char> {
    let from_x = match x_input {
        Some(i) => axis_stem(i.name@),
        None => None,
    };
    let from_y = match y_input {
        Some(i) => axis_stem(i.name@),
        None => None,
    };
    match (from_x, from_y) {
        (Some(n), _) => n,
        (None, Some(n)) => n,
        _ => seq!['<', '<', 'U', 'N', 'K', 'N', 'O', 'W', 'N', '>', '>'],
    }
}

fn stem_exec(name: &String) -> (r: Option<Vec<char>>)
    ensures
        match r {
            Some(v) => axis_stem(name@) == Some(v@),
            None => axis_stem(name@) is None,
        },
{
    let n = chars_of(name.as_str());
    if n.len() > 0 && (n[n.len() - 1] == 'X' || n[n.len() - 1] == 'Y' || n[n.len() - 1] == 'Z') {
        let stem = sub_vec(&n, 0, n.len() - 1);
        assert(stem@ =~= n@.drop_last());
        let w = crate::text::trailing_ws_count(&stem);
        Some(sub_vec(&stem, 0, stem.len() - w))
    } else {
        None
    }
}

/// The name of an analog control, from the names of its X and Y inputs.
pub fn aggregate_name(x_input: Option<&Input>, y_input: Option<&Input>) -> (r: String)
    ensures
        r@ == aggregate_name_of(
            match x_input {
                Some(i) => Some(*i),
                None => None,
            },
            match y_input {
                Some(i) => Some(*i),
                None => None,
            },
        ),
{
    let from_x = match x_input {
        Some(i) => stem_exec(&i.name),
        None => None,
    };
    let from_y = match y_input {
        Some(i) => stem_exec(&i.name),
        None => None,
    };
    match (from_x, from_y) {
        (Some(n), _) => string_from_chars(&n),
        (None, Some(n)) => string_from_chars(&n),
        _ => {
            let unknown = vec!['<', '<', 'U', 'N', 'K', 'N', 'O', 'W', 'N', '>', '>'];
            assert(unknown@ =~= seq!['<', '<', 'U', 'N', 'K', 'N', 'O', 'W', 'N', '>', '>']);
            string_from_chars(&unknown)
        },
    }
}

/// The first index from `i` on of an input with port tag `tag`.
pub open spec fn find_port_from(inputs: Seq<Input>, tag: Seq<char>, i: int) -> Option<int>
    decreases inputs.len() - i,
{
    if i < 0 || i >= inputs.len() {
        None
    } else if inputs[i].port_tag@ == tag {
        Some(i)
    } else {
        find_port_from(inputs, tag, i + 1)
    }
}

/// The index of the input that `this_input` (a port tag and mask) names: the first input whose
/// port tag is the given one (the mask is compared with itself, so any mask matches).
pub fn lookup_input(inputs: &[Input], this_input: &Option<(String, u32)>) -> (r: Option<usize>)
    ensures
        match this_input {
            Some((tag, _)) => crate::text::opt_int(r) == find_port_from(inputs@, tag@, 0),
            None => r is None,
        },
        r matches Some(i) ==> i < inputs@.len(),
{
    match this_input {
        None => None,
        Some((tag, _mask)) => {
            let mut i: usize = 0;
            while i < inputs.len()
                invariant
                    i <= inputs@.len(),
                    this_input matches Some((t, _)) && t@ == tag@,
                    find_port_from(inputs@, tag@, 0) == find_port_from(inputs@, tag@, i as int),
                decreases inputs@.len() - i,
            {
                if inputs[i].port_tag == *tag {
                    return Some(i);
                }
                i = i + 1;
            }
            None
        },
    }
}

/// The entry of the analog-control dialog for one direction of one axis: the input's name
/// followed by `suffix` (the text naming the direction), the text of the axis' standard
/// sequence and of the direction's sequence, and a command that opens the dialog that
/// specifies the direction's sequence. `None` where the input is missing.
pub fn build_xy_dialog_entry(
    inputs: &[Input],
    input_index: Option<usize>,
    axis: InputAxis,
    seq_type: SeqType,
    suffix: &str,
    codes: &Vec<(String, String)>,
) -> (r: Option<InputDialogEntry>)
    requires
        input_index matches Some(i) ==> i < inputs@.len(),
    ensures
        r is None <==> input_index is None,
        r matches Some(e) ==> ({
            let i = input_index->0;
            &&& e.name@ == inputs@[i as int].name@ + suffix@
            &&& e.text@ == code_text(
                inputs@,
                seq![(i, Some(axis), SeqType::Standard), (i, Some(axis), seq_type)],
                codes_view(codes@),
            )
            &&& command_view(e.primary_command) == (CommandView::SeqPollDialog {
                port_tag: inputs@[i as int].port_tag@,
                mask: inputs@[i as int].mask,
                seq_type,
                poll_type: SeqPollDialogType::Specify,
            })
        }),
{
    match input_index {
        None => None,
        Some(i) => {
            let input = &inputs[i];
            let mut name_chars = chars_of(input.name.as_str());
            push_str(&mut name_chars, suffix);
            let name = string_from_chars(&name_chars);
            let input_seqs = vec![(i, Some(axis), SeqType::Standard), (i, Some(axis), seq_type)];
            assert(input_seqs@ =~= seq![(i, Some(axis), SeqType::Standard), (i, Some(axis), seq_type)]);
            let text = build_code_text(inputs, &input_seqs, codes);
            let primary_command = InputCommand::SeqPollDialog {
                port_tag: input.port_tag.clone(),
                mask: input.mask,
                seq_type,
                poll_type: SeqPollDialogType::Specify,
            };
            Some(InputDialogEntry { name, text, primary_command })
        },
    }
}

/// The command that sets every sequence (standard, decrement, increment) of the X input and
/// then of the Y input, those present, to `tokens`: the dialog's "clear" (empty tokens) and
/// "restore defaults" (`*`) commands.
pub fn set_all_seqs_command(x_input: Option<&Input>, y_input: Option<&Input>, tokens: &str) -> (r: InputCommand)
    ensures
        command_view(r) == multi_seq(
            match x_input {
                Some(i) => Some(*i),
                None => None,
            },
            match y_input {
                Some(i) => Some(*i),
                None => None,
            },
            tokens@,
            tokens@,
            tokens@,
            tokens@,
            tokens@,
            tokens@,
        ),
{
    set_multi_seq(x_input, y_input, tokens, tokens, tokens, tokens, tokens, tokens)
}

} // verus!
