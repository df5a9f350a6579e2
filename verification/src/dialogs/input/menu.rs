//! The context menu of a row of the input dialog.
//!
//! A single input offers to specify, add to or clear its sequence.  An analog control
//! (its X and Y inputs) offers quick choices (the arrow keys, the number pad, and each
//! host device with both an X and a Y axis) before a separator, then to specify or
//! clear its sequences.
use crate::dialogs::input::class_prefix;
use crate::dialogs::input::primary::ClusterView;
use crate::dialogs::input::primary::InputCluster;
use crate::dialogs::seqpoll::SeqPollDialogType;
use crate::status::Input;
use crate::status::InputDevice;
use crate::status::InputDeviceClass;
use crate::status::InputDeviceItem;
use crate::status::SeqType;
use crate::text::decimal;
use crate::text::join;
use crate::text::lemma_join_step;
use crate::text::push_decimal;
use crate::text::push_str;
use crate::text::str_eq;
use crate::text::string_from_chars;
use vstd::prelude::*;

verus! {

/// What a menu entry does.
pub enum InputCommand {
    /// Opens the dialog that polls for a sequence of an input.
    SeqPollDialog { port_tag: String, mask: u32, seq_type: SeqType, poll_type: SeqPollDialogType },
    /// Opens the dialog for the X and Y inputs of an analog control.
    InputXyDialog { x_input: Option<(String, u32)>, y_input: Option<(String, u32)> },
    /// Sets sequences: for each, the input's port tag and mask, which of its sequences,
    /// and the tokens.
    SeqSet(Vec<(String, u32, SeqType, String)>),
    /// Opens the dialog that picks several quick choices at once: each with its title
    /// and the sequences it sets.
    InputSelectMultipleDialog { selections: Vec<(String, Vec<(String, u32, SeqType, String)>)> },
}

/// An entry of the context menu: its title and what it does.
pub struct ContextMenuEntry {
    pub title: String,
    pub command: Option<InputCommand>,
}

/// What a menu entry does, with its strings taken by their characters.
pub enum CommandView {
    SeqPollDialog { port_tag: Seq<char>, mask: u32, seq_type: SeqType, poll_type: SeqPollDialogType },
    InputXyDialog { x_input: Option<(Seq<char>, u32)>, y_input: Option<(Seq<char>, u32)> },
    SeqSet(Seq<(Seq<char>, u32, SeqType, Seq<char>)>),
    InputSelectMultipleDialog { selections: Seq<(Seq<char>, Seq<(Seq<char>, u32, SeqType, Seq<char>)>)> },
}

/// Sequence settings, taken by their characters.
pub open spec fn seqs_view(seqs: Seq<(String, u32, SeqType, String)>) -> Seq<
    (Seq<char>, u32, SeqType, Seq<char>),
> {
    seqs.map_values(|s: (String, u32, SeqType, String)| (s.0@, s.1, s.2, s.3@))
}

/// A menu entry, with its strings taken by their characters.
pub struct EntryView {
    pub title: Seq<char>,
    pub command: Option<CommandView>,
}

/// The view of a command.
pub open spec fn command_view(c: InputCommand) -> CommandView {
    match c {
        InputCommand::SeqPollDialog { port_tag, mask, seq_type, poll_type } => CommandView::SeqPollDialog {
            port_tag: port_tag@,
            mask,
            seq_type,
            poll_type,
        },
        InputCommand::InputXyDialog { x_input, y_input } => CommandView::InputXyDialog {
            x_input: match x_input {
                Some(p) => Some((p.0@, p.1)),
                None => None,
            },
            y_input: match y_input {
                Some(p) => Some((p.0@, p.1)),
                None => None,
            },
        },
        InputCommand::SeqSet(seqs) => CommandView::SeqSet(
            seqs@.map_values(|s: (String, u32, SeqType, String)| (s.0@, s.1, s.2, s.3@)),
        ),
        InputCommand::InputSelectMultipleDialog { selections } => CommandView::InputSelectMultipleDialog {
            selections: selections@.map_values(
                |x: (String, Vec<(String, u32, SeqType, String)>)| (x.0@, seqs_view(x.1@)),
            ),
        },
    }
}

/// The view of a menu entry; `None` for a separator.
pub open spec fn entry_view(e: Option<ContextMenuEntry>) -> Option<EntryView> {
    match e {
        Some(x) => Some(
            EntryView {
                title: x.title@,
                command: match x.command {
                    Some(c) => Some(command_view(c)),
                    None => None,
                },
            },
        ),
        None => None,
    }
}

/// The view of a menu, separators as `None`.
pub open spec fn menu_view(m: Seq<Option<ContextMenuEntry>>) -> Seq<Option<EntryView>> {
    m.map_values(|e: Option<ContextMenuEntry>| entry_view(e))
}

/// The sequence setting for one of an input's sequences, when there is an input.
pub open spec fn seq_part(input: Option<Input>, seq_type: SeqType, tokens: Seq<char>) -> Seq<
    (Seq<char>, u32, SeqType, Seq<char>),
> {
    match input {
        Some(i) => seq![(i.port_tag@, i.mask, seq_type, tokens)],
        None => Seq::empty(),
    }
}

/// Sets all three sequences of the X input and of the Y input (those present).
pub open spec fn multi_seq(
    x: Option<Input>,
    y: Option<Input>,
    xs: Seq<char>,
    xd: Seq<char>,
    xi: Seq<char>,
    ys: Seq<char>,
    yd: Seq<char>,
    yi: Seq<char>,
) -> CommandView {
    CommandView::SeqSet(
        seq_part(x, SeqType::Standard, xs) + seq_part(x, SeqType::Decrement, xd) + seq_part(
            x,
            SeqType::Increment,
            xi,
        ) + seq_part(y, SeqType::Standard, ys) + seq_part(y, SeqType::Decrement, yd) + seq_part(
            y,
            SeqType::Increment,
            yi,
        ),
    )
}

/// The codes of a device's controls that have the given token, in order.
pub open spec fn codes_with_token(items: Seq<InputDeviceItem>, token: Seq<char>) -> Seq<Seq<char>>
    decreases items.len(),
{
    if items.len() == 0 {
        Seq::empty()
    } else {
        let rest = codes_with_token(items.drop_last(), token);
        if items.last().token@ == token {
            rest.push(items.last().code@)
        } else {
            rest
        }
    }
}

/// The codes of a device's axis, joined by " or ".
pub open spec fn axis_codes(d: InputDevice, token: Seq<char>) -> Seq<char> {
    join(codes_with_token(d.items@, token), " or "@)
}

/// The title of a device's quick choice: the class prefix, the device's number and its
/// name in parentheses, or just its name when the class has no prefix.
pub open spec fn device_title(c: InputDeviceClass, d: InputDevice) -> Seq<char> {
    match class_prefix(c) {
        Some(p) => p + " #"@ + decimal((d.devindex + 1) as nat) + " ("@ + d.name@ + ")"@,
        None => d.name@,
    }
}

/// The quick choice for a device: its X axis for the X input and its Y axis for the Y
/// input, offered only when both inputs are there and the device has both axes.
pub open spec fn quick_device_entry(
    c: InputDeviceClass,
    d: InputDevice,
    x: Option<Input>,
    y: Option<Input>,
) -> Option<EntryView> {
    let xc = if x is Some {
        axis_codes(d, "XAXIS"@)
    } else {
        Seq::empty()
    };
    let yc = if y is Some {
        axis_codes(d, "YAXIS"@)
    } else {
        Seq::empty()
    };
    if xc.len() > 0 && yc.len() > 0 {
        Some(
            EntryView {
                title: device_title(c, d),
                command: Some(multi_seq(x, y, xc, Seq::empty(), Seq::empty(), yc, Seq::empty(), Seq::empty())),
            },
        )
    } else {
        None
    }
}

/// The quick choices for the devices of the first `n` classes, in order.
pub open spec fn quick_entries_for_classes(
    classes: Seq<InputDeviceClass>,
    x: Option<Input>,
    y: Option<Input>,
) -> Seq<Option<EntryView>>
    decreases classes.len(),
{
    if classes.len() == 0 {
        Seq::empty()
    } else {
        quick_entries_for_classes(classes.drop_last(), x, y) + quick_entries_for_devices(
            classes.last(),
            classes.last().devices@,
            x,
            y,
        )
    }
}

/// The quick choices for some devices of a class, in order.
pub open spec fn quick_entries_for_devices(
    c: InputDeviceClass,
    devices: Seq<InputDevice>,
    x: Option<Input>,
    y: Option<Input>,
) -> Seq<Option<EntryView>>
    decreases devices.len(),
{
    if devices.len() == 0 {
        Seq::empty()
    } else {
        let rest = quick_entries_for_devices(c, devices.drop_last(), x, y);
        match quick_device_entry(c, devices.last(), x, y) {
            Some(e) => rest.push(Some(e)),
            None => rest,
        }
    }
}

/// The input at an optional index.
pub open spec fn input_at(inputs: Seq<Input>, index: Option<usize>) -> Option<Input> {
    match index {
        Some(i) => Some(inputs[i as int]),
        None => None,
    }
}

/// The port tag and mask of an optional input.
pub open spec fn input_key(i: Option<Input>) -> Option<(Seq<char>, u32)> {
    match i {
        Some(x) => Some((x.port_tag@, x.mask)),
        None => None,
    }
}

/// The context menu of a cluster.
pub open spec fn cluster_menu(
    inputs: Seq<Input>,
    classes: Seq<InputDeviceClass>,
    cluster: ClusterView,
) -> Seq<Option<EntryView>> {
    match cluster {
        ClusterView::Single(i) => {
            let input = inputs[i as int];
            seq![
                Some(EntryView {
                    title: "Specify..."@,
                    command: Some(CommandView::SeqPollDialog {
                        port_tag: input.port_tag@,
                        mask: input.mask,
                        seq_type: SeqType::Standard,
                        poll_type: SeqPollDialogType::Specify,
                    }),
                }),
                Some(EntryView {
                    title: "Add..."@,
                    command: Some(CommandView::SeqPollDialog {
                        port_tag: input.port_tag@,
                        mask: input.mask,
                        seq_type: SeqType::Standard,
                        poll_type: SeqPollDialogType::Add,
                    }),
                }),
                Some(EntryView {
                    title: "Clear"@,
                    command: Some(CommandView::SeqSet(
                        seq![(input.port_tag@, input.mask, SeqType::Standard, Seq::<char>::empty())],
                    )),
                }),
            ]
        },
        ClusterView::Xy(xi, yi, _) => {
            let x = input_at(inputs, xi);
            let y = input_at(inputs, yi);
            let e = Seq::<char>::empty();
            let quick = if x is Some || y is Some {
                seq![
                    Some(EntryView {
                        title: "Arrow Keys"@,
                        command: Some(multi_seq(x, y, e, "KEYCODE_LEFT"@, "KEYCODE_RIGHT"@, e, "KEYCODE_UP"@, "KEYCODE_DOWN"@)),
                    }),
                    Some(EntryView {
                        title: "Number Pad"@,
                        command: Some(multi_seq(x, y, e, "KEYCODE_4PAD"@, "KEYCODE_6PAD"@, e, "KEYCODE_8PAD"@, "KEYCODE_2PAD"@)),
                    }),
                ] + quick_entries_for_classes(classes, x, y) + seq![None::<EntryView>]
            } else {
                Seq::empty()
            };
            quick + seq![
                Some(EntryView {
                    title: "Specify..."@,
                    command: Some(CommandView::InputXyDialog { x_input: input_key(x), y_input: input_key(y) }),
                }),
                Some(EntryView { title: "Clear"@, command: Some(multi_seq(x, y, e, e, e, e, e, e)) }),
            ]
        },
    }
}

fn push_seq_part(
    out: &mut Vec<(String, u32, SeqType, String)>,
    input: Option<&Input>,
    seq_type: SeqType,
    tokens: &str,
)
    ensures
        final(out)@.map_values(|s: (String, u32, SeqType, String)| (s.0@, s.1, s.2, s.3@))
            == old(out)@.map_values(|s: (String, u32, SeqType, String)| (s.0@, s.1, s.2, s.3@))
            + seq_part(
            match input {
                Some(i) => Some(*i),
                None => None,
            },
            seq_type,
            tokens@,
        ),
{
    let ghost before = out@;
    match input {
        Some(i) => {
            out.push((i.port_tag.clone(), i.mask, seq_type, tokens.to_owned()));
            assert(out@.map_values(|s: (String, u32, SeqType, String)| (s.0@, s.1, s.2, s.3@))
                =~= before.map_values(|s: (String, u32, SeqType, String)| (s.0@, s.1, s.2, s.3@))
                + seq![(i.port_tag@, i.mask, seq_type, tokens@)]);
        },
        None => {
            assert(out@.map_values(|s: (String, u32, SeqType, String)| (s.0@, s.1, s.2, s.3@))
                =~= before.map_values(|s: (String, u32, SeqType, String)| (s.0@, s.1, s.2, s.3@))
                + Seq::<(Seq<char>, u32, SeqType, Seq<char>)>::empty());
        },
    }
}

/// Sets all three sequences of the X input and of the Y input (those present).
#[allow(clippy::too_many_arguments)]
pub fn set_multi_seq(
    x_input: Option<&Input>,
    y_input: Option<&Input>,
    x_standard_tokens: &str,
    x_decrement_tokens: &str,
    x_increment_tokens: &str,
    y_standard_tokens: &str,
    y_decrement_tokens: &str,
    y_increment_tokens: &str,
) -> (r: InputCommand)
    ensures
        command_view(r) == multi_seq(
            match x_input {
                Some(i) => Some(*i),
                None => None,
            },
            match y_input {
                Some(i) => Some(*i),
                None => None,
            },
            x_standard_tokens@,
            x_decrement_tokens@,
            x_increment_tokens@,
            y_standard_tokens@,
            y_decrement_tokens@,
            y_increment_tokens@,
        ),
{
    let mut seqs: Vec<(String, u32, SeqType, String)> = Vec::new();
    push_seq_part(&mut seqs, x_input, SeqType::Standard, x_standard_tokens);
    push_seq_part(&mut seqs, x_input, SeqType::Decrement, x_decrement_tokens);
    push_seq_part(&mut seqs, x_input, SeqType::Increment, x_increment_tokens);
    push_seq_part(&mut seqs, y_input, SeqType::Standard, y_standard_tokens);
    push_seq_part(&mut seqs, y_input, SeqType::Decrement, y_decrement_tokens);
    push_seq_part(&mut seqs, y_input, SeqType::Increment, y_increment_tokens);
    assert(seqs@.map_values(|s: (String, u32, SeqType, String)| (s.0@, s.1, s.2, s.3@))
        =~= Seq::<(Seq<char>, u32, SeqType, Seq<char>)>::empty() + seq_part(
        match x_input {
            Some(i) => Some(*i),
            None => None,
        },
        SeqType::Standard,
        x_standard_tokens@,
    ) + seq_part(
        match x_input {
            Some(i) => Some(*i),
            None => None,
        },
        SeqType::Decrement,
        x_decrement_tokens@,
    ) + seq_part(
        match x_input {
            Some(i) => Some(*i),
            None => None,
        },
        SeqType::Increment,
        x_increment_tokens@,
    ) + seq_part(
        match y_input {
            Some(i) => Some(*i),
            None => None,
        },
        SeqType::Standard,
        y_standard_tokens@,
    ) + seq_part(
        match y_input {
            Some(i) => Some(*i),
            None => None,
        },
        SeqType::Decrement,
        y_decrement_tokens@,
    ) + seq_part(
        match y_input {
            Some(i) => Some(*i),
            None => None,
        },
        SeqType::Increment,
        y_increment_tokens@,
    ));
    InputCommand::SeqSet(seqs)
}

fn axis_codes_exec(d: &InputDevice, token: &str) -> (r: String)
    ensures
        r@ == axis_codes(*d, token@),
{
    let ghost codes = codes_with_token(d.items@, token@);
    let mut out: Vec<char> = Vec::new();
    let mut count: usize = 0;
    for i in 0..d.items.len()
        invariant
            count == codes_with_token(d.items@.take(i as int), token@).len(),
            count <= i,
            out@ == join(codes_with_token(d.items@.take(i as int), token@), " or "@),
    {
        let item = &d.items[i];
        assert(d.items@.take(i + 1).drop_last() =~= d.items@.take(i as int));
        if str_eq(item.token.as_str(), token) {
            let ghost prev = codes_with_token(d.items@.take(i as int), token@);
            let ghost next = prev.push(item.code@);
            assert(codes_with_token(d.items@.take(i + 1), token@) == next);
            proof {
                lemma_join_step(next, " or "@, prev.len() as int);
                assert(next.take(prev.len() as int) =~= prev);
                assert(next.take(prev.len() as int + 1) =~= next);
            }
            if count > 0 {
                push_str(&mut out, " or ");
            }
            push_str(&mut out, item.code.as_str());
            count = count + 1;
        }
    }
    assert(d.items@.take(d.items.len() as int) =~= d.items@);
    string_from_chars(&out)
}

fn device_title_exec(c: &InputDeviceClass, d: &InputDevice) -> (r: String)
    ensures
        r@ == device_title(*c, *d),
{
    match c.prefix() {
        Some(p) => {
            let mut out: Vec<char> = Vec::new();
            push_str(&mut out, p.as_str());
            push_str(&mut out, " #");
            push_decimal(&mut out, d.devindex as u64 + 1);
            push_str(&mut out, " (");
            push_str(&mut out, d.name.as_str());
            push_str(&mut out, ")");
            assert(out@ =~= device_title(*c, *d));
            string_from_chars(&out)
        },
        None => d.name.clone(),
    }
}

fn quick_device_entry_exec(
    c: &InputDeviceClass,
    d: &InputDevice,
    x: Option<&Input>,
    y: Option<&Input>,
) -> (r: Option<ContextMenuEntry>)
    ensures
        entry_view(r) == quick_device_entry(
            *c,
            *d,
            match x {
                Some(i) => Some(*i),
                None => None,
            },
            match y {
                Some(i) => Some(*i),
                None => None,
            },
        ),
{
    let xc = match x {
        Some(_) => axis_codes_exec(d, "XAXIS"),
        None => String::new(),
    };
    let yc = match y {
        Some(_) => axis_codes_exec(d, "YAXIS"),
        None => String::new(),
    };
    if xc.as_str().is_empty() || yc.as_str().is_empty() {
        return None;
    }
    let command = set_multi_seq(x, y, xc.as_str(), "", "", yc.as_str(), "", "");
    proof {
        reveal_strlit("");
        assert(""@ =~= Seq::<char>::empty());
    }
    Some(ContextMenuEntry { title: device_title_exec(c, d), command: Some(command) })
}

fn title(s: &str) -> (r: String)
    ensures
        r@ == s@,
{
    s.to_owned()
}

/// The context menu of a row of the input dialog; see [`cluster_menu`].  Separators
/// are `None`.
pub fn input_cluster_context_menu(
    inputs: &[Input],
    input_device_classes: &[InputDeviceClass],
    cluster: &InputCluster,
) -> (r: Vec<Option<ContextMenuEntry>>)
    requires
        match cluster@ {
            ClusterView::Single(i) => i < inputs@.len(),
            ClusterView::Xy(x, y, _) => (x matches Some(i) ==> i < inputs@.len()) && (y matches Some(
                i,
            ) ==> i < inputs@.len()),
        },
    ensures
        menu_view(r@) == cluster_menu(inputs@, input_device_classes@, cluster@),
{
    let mut menu: Vec<Option<ContextMenuEntry>> = Vec::new();
    match cluster {
        InputCluster::Single(index) => {
            let input = &inputs[*index];
            menu.push(
                Some(
                    ContextMenuEntry {
                        title: title("Specify..."),
                        command: Some(
                            InputCommand::SeqPollDialog {
                                port_tag: input.port_tag.clone(),
                                mask: input.mask,
                                seq_type: SeqType::Standard,
                                poll_type: SeqPollDialogType::Specify,
                            },
                        ),
                    },
                ),
            );
            menu.push(
                Some(
                    ContextMenuEntry {
                        title: title("Add..."),
                        command: Some(
                            InputCommand::SeqPollDialog {
                                port_tag: input.port_tag.clone(),
                                mask: input.mask,
                                seq_type: SeqType::Standard,
                                poll_type: SeqPollDialogType::Add,
                            },
                        ),
                    },
                ),
            );
            let mut seqs: Vec<(String, u32, SeqType, String)> = Vec::new();
            seqs.push((input.port_tag.clone(), input.mask, SeqType::Standard, String::new()));
            assert(seqs@.map_values(|s: (String, u32, SeqType, String)| (s.0@, s.1, s.2, s.3@))
                =~= seq![(input.port_tag@, input.mask, SeqType::Standard, Seq::<char>::empty())]);
            menu.push(
                Some(
                    ContextMenuEntry { title: title("Clear"), command: Some(InputCommand::SeqSet(seqs)) },
                ),
            );
            let ghost expected = cluster_menu(inputs@, input_device_classes@, cluster@);
            assert(menu_view(menu@)[0] == expected[0]);
            assert(menu_view(menu@)[1] == expected[1]);
            assert(menu_view(menu@)[2] == expected[2]);
            assert(menu_view(menu@) =~= expected);
        },
        InputCluster::Xy { x_input_index, y_input_index, .. } => {
            let x: Option<&Input> = match x_input_index {
                Some(i) => Some(&inputs[*i]),
                None => None,
            };
            let y: Option<&Input> = match y_input_index {
                Some(i) => Some(&inputs[*i]),
                None => None,
            };
            let ghost xv = input_at(inputs@, *x_input_index);
            let ghost yv = input_at(inputs@, *y_input_index);
            let ghost e = Seq::<char>::empty();
            proof {
                reveal_strlit("");
                assert(""@ =~= e);
            }
            let ghost quick = if xv is Some || yv is Some {
                seq![
                    Some(EntryView {
                        title: "Arrow Keys"@,
                        command: Some(multi_seq(xv, yv, e, "KEYCODE_LEFT"@, "KEYCODE_RIGHT"@, e, "KEYCODE_UP"@, "KEYCODE_DOWN"@)),
                    }),
                    Some(EntryView {
                        title: "Number Pad"@,
                        command: Some(multi_seq(xv, yv, e, "KEYCODE_4PAD"@, "KEYCODE_6PAD"@, e, "KEYCODE_8PAD"@, "KEYCODE_2PAD"@)),
                    }),
                ] + quick_entries_for_classes(input_device_classes@, xv, yv) + seq![None::<EntryView>]
            } else {
                Seq::<Option<EntryView>>::empty()
            };
            assert(xv == match x {
                Some(i) => Some(*i),
                None => None::<Input>,
            });
            assert(yv == match y {
                Some(i) => Some(*i),
                None => None::<Input>,
            });
            if x.is_some() || y.is_some() {
                menu.push(
                    Some(
                        ContextMenuEntry {
                            title: title("Arrow Keys"),
                            command: Some(
                                set_multi_seq(
                                    x,
                                    y,
                                    "",
                                    "KEYCODE_LEFT",
                                    "KEYCODE_RIGHT",
                                    "",
                                    "KEYCODE_UP",
                                    "KEYCODE_DOWN",
                                ),
                            ),
                        },
                    ),
                );
                menu.push(
                    Some(
                        ContextMenuEntry {
                            title: title("Number Pad"),
                            command: Some(
                                set_multi_seq(
                                    x,
                                    y,
                                    "",
                                    "KEYCODE_4PAD",
                                    "KEYCODE_6PAD",
                                    "",
                                    "KEYCODE_8PAD",
                                    "KEYCODE_2PAD",
                                ),
                            ),
                        },
                    ),
                );
                let ghost head = menu_view(menu@);
                for c in 0..input_device_classes.len()
                    invariant
                        xv == match x {
                            Some(i) => Some(*i),
                            None => None::<Input>,
                        },
                        yv == match y {
                            Some(i) => Some(*i),
                            None => None::<Input>,
                        },
                        menu_view(menu@) == head + quick_entries_for_classes(
                            input_device_classes@.take(c as int),
                            xv,
                            yv,
                        ),
                {
                    let class = &input_device_classes[c];
                    let ghost before = menu_view(menu@);
                    for d in 0..class.devices.len()
                        invariant
                            xv == match x {
                                Some(i) => Some(*i),
                                None => None::<Input>,
                            },
                            yv == match y {
                                Some(i) => Some(*i),
                                None => None::<Input>,
                            },
                            menu_view(menu@) == before + quick_entries_for_devices(
                                *class,
                                class.devices@.take(d as int),
                                xv,
                                yv,
                            ),
                    {
                        let e = quick_device_entry_exec(class, &class.devices[d], x, y);
                        assert(class.devices@.take(d + 1).drop_last() =~= class.devices@.take(
                            d as int,
                        ));
                        let ghost prev = menu_view(menu@);
                        let ghost ev = entry_view(e);
                        assert(class.devices@.take(d + 1).last() == class.devices@[d as int]);
                        match e {
                            Some(entry) => {
                                menu.push(Some(entry));
                                assert(menu_view(menu@) =~= prev.push(ev));
                            },
                            None => {},
                        }
                        assert(menu_view(menu@) =~= before + quick_entries_for_devices(
                            *class,
                            class.devices@.take(d + 1),
                            xv,
                            yv,
                        ));
                    }
                    assert(class.devices@.take(class.devices.len() as int) =~= class.devices@);
                    assert(input_device_classes@.take(c + 1).drop_last() =~= input_device_classes@.take(
                        c as int,
                    ));
                    assert(menu_view(menu@) =~= head + quick_entries_for_classes(
                        input_device_classes@.take(c + 1),
                        xv,
                        yv,
                    ));
                }
                assert(input_device_classes@.take(input_device_classes.len() as int)
                    =~= input_device_classes@);
                let ghost before_sep = menu_view(menu@);
                menu.push(None);
                assert(menu_view(menu@) =~= before_sep.push(None));
                assert(head[0] == quick[0]);
                assert(head[1] == quick[1]);
                assert(menu_view(menu@) =~= quick);
            } else {
                assert(menu_view(menu@) =~= quick);
            }
            let x_key = match x {
                Some(i) => Some((i.port_tag.clone(), i.mask)),
                None => None,
            };
            let y_key = match y {
                Some(i) => Some((i.port_tag.clone(), i.mask)),
                None => None,
            };
            let ghost q = menu_view(menu@);
            menu.push(
                Some(
                    ContextMenuEntry {
                        title: title("Specify..."),
                        command: Some(InputCommand::InputXyDialog { x_input: x_key, y_input: y_key }),
                    },
                ),
            );
            menu.push(
                Some(
                    ContextMenuEntry {
                        title: title("Clear"),
                        command: Some(set_multi_seq(x, y, "", "", "", "", "", "")),
                    },
                ),
            );
            let ghost expected = cluster_menu(inputs@, input_device_classes@, cluster@);
            assert(expected == quick + seq![
                Some(EntryView {
                    title: "Specify..."@,
                    command: Some(CommandView::InputXyDialog { x_input: input_key(xv), y_input: input_key(yv) }),
                }),
                Some(EntryView { title: "Clear"@, command: Some(multi_seq(xv, yv, e, e, e, e, e, e)) }),
            ]);
            assert(menu_view(menu@)[q.len() as int] == expected[q.len() as int]);
            assert(menu_view(menu@)[q.len() as int + 1] == expected[q.len() as int + 1]);
            assert(menu_view(menu@) =~= expected);
        },
    }
    menu
}

/// Whether a control token names an axis: X, Y, Z or RZ.
pub open spec fn is_axis_token(t: Seq<char>) -> bool {
    t == "XAXIS"@ || t == "YAXIS"@ || t == "ZAXIS"@ || t == "RZAXIS"@
}

/// The title of an axis choice: the class prefix and the device's number, the
/// control's name, then the device's name in parentheses.
pub open spec fn axis_title(c: InputDeviceClass, d: InputDevice, item: InputDeviceItem) -> Seq<char> {
    match class_prefix(c) {
        Some(p) => p + " #"@ + decimal((d.devindex + 1) as nat) + " "@ + item.name@ + " ("@ + d.name@
            + ")"@,
        None => item.name@ + " ("@ + d.name@ + ")"@,
    }
}

/// The choice that sets an input's standard sequence to an axis.
pub open spec fn axis_entry(input: Input, c: InputDeviceClass, d: InputDevice, item: InputDeviceItem) -> Option<
    EntryView,
> {
    Some(
        EntryView {
            title: axis_title(c, d, item),
            command: Some(
                CommandView::SeqSet(seq![(input.port_tag@, input.mask, SeqType::Standard, item.code@)]),
            ),
        },
    )
}

/// The axis choices for some controls of a device, in order.
pub open spec fn axis_entries_for_items(
    input: Input,
    c: InputDeviceClass,
    d: InputDevice,
    items: Seq<InputDeviceItem>,
) -> Seq<Option<EntryView>>
    decreases items.len(),
{
    if items.len() == 0 {
        Seq::empty()
    } else {
        let rest = axis_entries_for_items(input, c, d, items.drop_last());
        if is_axis_token(items.last().token@) {
            rest.push(axis_entry(input, c, d, items.last()))
        } else {
            rest
        }
    }
}

/// The axis choices for some devices of a class, in order.
pub open spec fn axis_entries_for_devices(input: Input, c: InputDeviceClass, devices: Seq<InputDevice>) -> Seq<
    Option<EntryView>,
>
    decreases devices.len(),
{
    if devices.len() == 0 {
        Seq::empty()
    } else {
        axis_entries_for_devices(input, c, devices.drop_last()) + axis_entries_for_items(
            input,
            c,
            devices.last(),
            devices.last().items@,
        )
    }
}

/// The axis choices for the devices of some classes, in order.
pub open spec fn axis_entries(input: Input, classes: Seq<InputDeviceClass>) -> Seq<Option<EntryView>>
    decreases classes.len(),
{
    if classes.len() == 0 {
        Seq::empty()
    } else {
        axis_entries(input, classes.drop_last()) + axis_entries_for_devices(
            input,
            classes.last(),
            classes.last().devices@,
        )
    }
}

/// The entries to specify, add to or clear one of an input's sequences.
pub open spec fn seq_entries(input: Input, seq_type: SeqType) -> Seq<Option<EntryView>> {
    seq![
        Some(EntryView {
            title: "Specify..."@,
            command: Some(CommandView::SeqPollDialog {
                port_tag: input.port_tag@,
                mask: input.mask,
                seq_type,
                poll_type: SeqPollDialogType::Specify,
            }),
        }),
        Some(EntryView {
            title: "Add..."@,
            command: Some(CommandView::SeqPollDialog {
                port_tag: input.port_tag@,
                mask: input.mask,
                seq_type,
                poll_type: SeqPollDialogType::Add,
            }),
        }),
        Some(EntryView {
            title: "Clear"@,
            command: Some(CommandView::SeqSet(
                seq![(input.port_tag@, input.mask, seq_type, Seq::<char>::empty())],
            )),
        }),
    ]
}

fn axis_title_exec(c: &InputDeviceClass, d: &InputDevice, item: &InputDeviceItem) -> (r: String)
    ensures
        r@ == axis_title(*c, *d, *item),
{
    let mut out: Vec<char> = Vec::new();
    match c.prefix() {
        Some(p) => {
            push_str(&mut out, p.as_str());
            push_str(&mut out, " #");
            push_decimal(&mut out, d.devindex as u64 + 1);
            push_str(&mut out, " ");
        },
        None => {},
    }
    push_str(&mut out, item.name.as_str());
    push_str(&mut out, " (");
    push_str(&mut out, d.name.as_str());
    push_str(&mut out, ")");
    assert(out@ =~= axis_title(*c, *d, *item));
    string_from_chars(&out)
}

fn is_axis_token_exec(t: &str) -> (r: bool)
    ensures
        r == is_axis_token(t@),
{
    str_eq(t, "XAXIS") || str_eq(t, "YAXIS") || str_eq(t, "ZAXIS") || str_eq(t, "RZAXIS")
}

/// The two parts of the context menu of one of an analog control's sequences: the
/// host axes that can drive the input, then the entries to specify, add to or clear
/// the sequence `seq_type`.
pub fn axis_context_menu(
    input: &Input,
    input_device_classes: &[InputDeviceClass],
    seq_type: SeqType,
) -> (r: (Vec<Option<ContextMenuEntry>>, Vec<Option<ContextMenuEntry>>))
    ensures
        menu_view(r.0@) == axis_entries(*input, input_device_classes@),
        menu_view(r.1@) == seq_entries(*input, seq_type),
{
    let mut axes: Vec<Option<ContextMenuEntry>> = Vec::new();
    for c in 0..input_device_classes.len()
        invariant
            menu_view(axes@) == axis_entries(*input, input_device_classes@.take(c as int)),
    {
        let class = &input_device_classes[c];
        let ghost before_class = menu_view(axes@);
        for d in 0..class.devices.len()
            invariant
                menu_view(axes@) == before_class + axis_entries_for_devices(
                    *input,
                    *class,
                    class.devices@.take(d as int),
                ),
        {
            let device = &class.devices[d];
            let ghost before_device = menu_view(axes@);
            for k in 0..device.items.len()
                invariant
                    menu_view(axes@) == before_device + axis_entries_for_items(
                        *input,
                        *class,
                        *device,
                        device.items@.take(k as int),
                    ),
            {
                let item = &device.items[k];
                assert(device.items@.take(k + 1).drop_last() =~= device.items@.take(k as int));
                assert(device.items@.take(k + 1).last() == *item);
                if is_axis_token_exec(item.token.as_str()) {
                    let mut seqs: Vec<(String, u32, SeqType, String)> = Vec::new();
                    seqs.push((input.port_tag.clone(), input.mask, SeqType::Standard, item.code.clone()));
                    assert(seqs@.map_values(|s: (String, u32, SeqType, String)| (s.0@, s.1, s.2, s.3@))
                        =~= seq![(input.port_tag@, input.mask, SeqType::Standard, item.code@)]);
                    let ghost prev = menu_view(axes@);
                    let entry = ContextMenuEntry {
                        title: axis_title_exec(class, device, item),
                        command: Some(InputCommand::SeqSet(seqs)),
                    };
                    assert(entry_view(Some(entry)) == axis_entry(*input, *class, *device, *item));
                    axes.push(Some(entry));
                    assert(menu_view(axes@) =~= prev.push(axis_entry(*input, *class, *device, *item)));
                }
                assert(menu_view(axes@) =~= before_device + axis_entries_for_items(
                    *input,
                    *class,
                    *device,
                    device.items@.take(k + 1),
                ));
            }
            assert(device.items@.take(device.items.len() as int) =~= device.items@);
            assert(class.devices@.take(d + 1).drop_last() =~= class.devices@.take(d as int));
            assert(class.devices@.take(d + 1).last() == *device);
            assert(menu_view(axes@) =~= before_class + axis_entries_for_devices(
                *input,
                *class,
                class.devices@.take(d + 1),
            ));
        }
        assert(class.devices@.take(class.devices.len() as int) =~= class.devices@);
        assert(input_device_classes@.take(c + 1).drop_last() =~= input_device_classes@.take(c as int));
        assert(menu_view(axes@) =~= axis_entries(*input, input_device_classes@.take(c + 1)));
    }
    assert(input_device_classes@.take(input_device_classes.len() as int) =~= input_device_classes@);
    let mut seq_menu: Vec<Option<ContextMenuEntry>> = Vec::new();
    seq_menu.push(
        Some(
            ContextMenuEntry {
                title: title("Specify..."),
                command: Some(
                    InputCommand::SeqPollDialog {
                        port_tag: input.port_tag.clone(),
                        mask: input.mask,
                        seq_type,
                        poll_type: SeqPollDialogType::Specify,
                    },
                ),
            },
        ),
    );
    seq_menu.push(
        Some(
            ContextMenuEntry {
                title: title("Add..."),
                command: Some(
                    InputCommand::SeqPollDialog {
                        port_tag: input.port_tag.clone(),
                        mask: input.mask,
                        seq_type,
                        poll_type: SeqPollDialogType::Add,
                    },
                ),
            },
        ),
    );
    let mut seqs: Vec<(String, u32, SeqType, String)> = Vec::new();
    seqs.push((input.port_tag.clone(), input.mask, seq_type, String::new()));
    assert(seqs@.map_values(|s: (String, u32, SeqType, String)| (s.0@, s.1, s.2, s.3@))
        =~= seq![(input.port_tag@, input.mask, seq_type, Seq::<char>::empty())]);
    seq_menu.push(
        Some(ContextMenuEntry { title: title("Clear"), command: Some(InputCommand::SeqSet(seqs)) }),
    );
    let ghost expected = seq_entries(*input, seq_type);
    assert(menu_view(seq_menu@)[0] == expected[0]);
    assert(menu_view(seq_menu@)[1] == expected[1]);
    assert(menu_view(seq_menu@)[2] == expected[2]);
    assert(menu_view(seq_menu@) =~= expected);
    (axes, seq_menu)
}

/// The view of a list of menu entries.
pub open spec fn entries_view(v: Seq<ContextMenuEntry>) -> Seq<EntryView> {
    v.map_values(|e: ContextMenuEntry| entry_view(Some(e))->0)
}

/// The settings of a quick item's sequences, each naming its input by index: those
/// whose input is there, with the input's port tag and mask.
pub open spec fn resolved_seqs(inputs: Seq<Option<Input>>, seqs: Seq<(usize, SeqType, Seq<char>)>) -> Seq<
    (Seq<char>, u32, SeqType, Seq<char>),
>
    decreases seqs.len(),
{
    if seqs.len() == 0 {
        Seq::empty()
    } else {
        let rest = resolved_seqs(inputs, seqs.drop_last());
        let (index, seq_type, code) = seqs.last();
        match inputs[index as int] {
            Some(i) => rest.push((i.port_tag@, i.mask, seq_type, code)),
            None => rest,
        }
    }
}

/// The quick items that have sequences, each with its title and its resolved
/// settings.
pub open spec fn kept_quick_items(
    inputs: Seq<Option<Input>>,
    items: Seq<(Seq<char>, Seq<(usize, SeqType, Seq<char>)>)>,
) -> Seq<(Seq<char>, Seq<(Seq<char>, u32, SeqType, Seq<char>)>)>
    decreases items.len(),
{
    if items.len() == 0 {
        Seq::empty()
    } else {
        let rest = kept_quick_items(inputs, items.drop_last());
        if items.last().1.len() > 0 {
            rest.push((items.last().0, resolved_seqs(inputs, items.last().1)))
        } else {
            rest
        }
    }
}

/// The first part of a quick menu: an entry per kept quick item, then "Multiple..."
/// when there are at least two of them.
pub open spec fn quick_menu(kept: Seq<(Seq<char>, Seq<(Seq<char>, u32, SeqType, Seq<char>)>)>) -> Seq<
    EntryView,
> {
    kept.map_values(
        |k: (Seq<char>, Seq<(Seq<char>, u32, SeqType, Seq<char>)>)|
            EntryView { title: k.0, command: Some(CommandView::SeqSet(k.1)) },
    ) + if kept.len() >= 2 {
        seq![
            EntryView {
                title: "Multiple..."@,
                command: Some(CommandView::InputSelectMultipleDialog { selections: kept }),
            },
        ]
    } else {
        Seq::empty()
    }
}

/// An entry with the given title when there is a command for it.
pub open spec fn optional_entry(title: Seq<char>, command: Option<InputCommand>) -> Seq<EntryView> {
    match command {
        Some(c) => seq![EntryView { title, command: Some(command_view(c)) }],
        None => Seq::empty(),
    }
}

/// The quick items, taken by their characters.
pub open spec fn quick_items_view(items: Seq<(String, Vec<(usize, SeqType, String)>)>) -> Seq<
    (Seq<char>, Seq<(usize, SeqType, Seq<char>)>),
> {
    items.map_values(
        |q: (String, Vec<(usize, SeqType, String)>)|
            (q.0@, q.1@.map_values(|s: (usize, SeqType, String)| (s.0, s.1, s.2@))),
    )
}

/// The inputs, each taken by value.
pub open spec fn inputs_view(inputs: Seq<Option<&Input>>) -> Seq<Option<Input>> {
    inputs.map_values(
        |i: Option<&Input>|
            match i {
                Some(x) => Some(*x),
                None => None,
            },
    )
}

fn clone_seqs(v: &Vec<(String, u32, SeqType, String)>) -> (r: Vec<(String, u32, SeqType, String)>)
    ensures
        seqs_view(r@) == seqs_view(v@),
{
    let mut r: Vec<(String, u32, SeqType, String)> = Vec::new();
    for i in 0..v.len()
        invariant
            seqs_view(r@) == seqs_view(v@).take(i as int),
    {
        let ghost before = r@;
        r.push((v[i].0.clone(), v[i].1, v[i].2, v[i].3.clone()));
        assert(seqs_view(r@) =~= seqs_view(before).push(seqs_view(v@)[i as int]));
        assert(seqs_view(v@).take(i + 1) =~= seqs_view(v@).take(i as int).push(seqs_view(v@)[i as int]));
    }
    assert(seqs_view(v@).take(v.len() as int) =~= seqs_view(v@));
    r
}

fn resolve_seqs(inputs: &[Option<&Input>], seqs: &Vec<(usize, SeqType, String)>) -> (r: Vec<
    (String, u32, SeqType, String),
>)
    requires
        forall|k: int| 0 <= k < seqs@.len() ==> #[trigger] seqs@[k].0 < inputs@.len(),
    ensures
        seqs_view(r@) == resolved_seqs(
            inputs_view(inputs@),
            seqs@.map_values(|s: (usize, SeqType, String)| (s.0, s.1, s.2@)),
        ),
{
    let ghost sv = seqs@.map_values(|s: (usize, SeqType, String)| (s.0, s.1, s.2@));
    let ghost iv = inputs_view(inputs@);
    let mut r: Vec<(String, u32, SeqType, String)> = Vec::new();
    for k in 0..seqs.len()
        invariant
            sv == seqs@.map_values(|s: (usize, SeqType, String)| (s.0, s.1, s.2@)),
            iv == inputs_view(inputs@),
            forall|k: int| 0 <= k < seqs@.len() ==> #[trigger] seqs@[k].0 < inputs@.len(),
            seqs_view(r@) == resolved_seqs(iv, sv.take(k as int)),
    {
        let (index, seq_type, code) = (seqs[k].0, seqs[k].1, &seqs[k].2);
        assert(sv.take(k + 1).drop_last() =~= sv.take(k as int));
        assert(sv.take(k + 1).last() == (index, seq_type, code@));
        assert(seqs@[k as int].0 < inputs@.len());
        match inputs[index] {
            Some(i) => {
                let ghost before = r@;
                r.push((i.port_tag.clone(), i.mask, seq_type, code.clone()));
                assert(seqs_view(r@) =~= seqs_view(before).push((i.port_tag@, i.mask, seq_type, code@)));
            },
            None => {},
        }
    }
    assert(sv.take(seqs.len() as int) =~= sv);
    r
}

/// The two parts of a quick menu: the kept quick items (those with sequences) and,
/// with two or more of them, "Multiple..."; then "Specify...", "Add..." and "Clear"
/// for the commands given.  Each quick item names its inputs by index into
/// `quick_item_inputs`; sequences whose input is absent are left out.
pub fn build_context_menu(
    quick_item_inputs: &[Option<&Input>],
    quick_items: &Vec<(String, Vec<(usize, SeqType, String)>)>,
    specify_command: Option<InputCommand>,
    add_command: Option<InputCommand>,
    clear_command: Option<InputCommand>,
) -> (r: (Vec<ContextMenuEntry>, Vec<ContextMenuEntry>))
    requires
        forall|q: int, k: int|
            0 <= q < quick_items@.len() && 0 <= k < quick_items@[q].1@.len() ==> #[trigger] quick_items@[q].1@[k].0
                < quick_item_inputs@.len(),
    ensures
        entries_view(r.0@) == quick_menu(
            kept_quick_items(inputs_view(quick_item_inputs@), quick_items_view(quick_items@)),
        ),
        entries_view(r.1@) == optional_entry("Specify..."@, specify_command) + optional_entry(
            "Add..."@,
            add_command,
        ) + optional_entry("Clear"@, clear_command),
{
    let ghost iv = inputs_view(quick_item_inputs@);
    let ghost qv = quick_items_view(quick_items@);
    let mut kept: Vec<(String, Vec<(String, u32, SeqType, String)>)> = Vec::new();
    for q in 0..quick_items.len()
        invariant
            iv == inputs_view(quick_item_inputs@),
            qv == quick_items_view(quick_items@),
            forall|q: int, k: int|
                0 <= q < quick_items@.len() && 0 <= k < quick_items@[q].1@.len() ==> #[trigger] quick_items@[q].1@[k].0
                    < quick_item_inputs@.len(),
            kept@.map_values(
                |x: (String, Vec<(String, u32, SeqType, String)>)| (x.0@, seqs_view(x.1@)),
            ) == kept_quick_items(iv, qv.take(q as int)),
    {
        assert(qv.take(q + 1).drop_last() =~= qv.take(q as int));
        let item = &quick_items[q];
        assert(qv.take(q + 1).last() == qv[q as int]);
        let ghost before = kept@;
        if item.1.len() > 0 {
            assert forall|k: int| 0 <= k < item.1@.len() implies #[trigger] item.1@[k].0
                < quick_item_inputs@.len() by {
                assert(quick_items@[q as int].1@[k].0 < quick_item_inputs@.len());
            }
            let resolved = resolve_seqs(quick_item_inputs, &item.1);
            kept.push((item.0.clone(), resolved));
            assert(kept@.map_values(
                |x: (String, Vec<(String, u32, SeqType, String)>)| (x.0@, seqs_view(x.1@)),
            ) =~= before.map_values(
                |x: (String, Vec<(String, u32, SeqType, String)>)| (x.0@, seqs_view(x.1@)),
            ).push((qv[q as int].0, resolved_seqs(iv, qv[q as int].1))));
        }
    }
    assert(qv.take(quick_items.len() as int) =~= qv);
    let ghost kv = kept@.map_values(
        |x: (String, Vec<(String, u32, SeqType, String)>)| (x.0@, seqs_view(x.1@)),
    );
    let mut entries_1: Vec<ContextMenuEntry> = Vec::new();
    for i in 0..kept.len()
        invariant
            kv == kept@.map_values(
                |x: (String, Vec<(String, u32, SeqType, String)>)| (x.0@, seqs_view(x.1@)),
            ),
            entries_view(entries_1@) == kv.take(i as int).map_values(
                |k: (Seq<char>, Seq<(Seq<char>, u32, SeqType, Seq<char>)>)|
                    EntryView { title: k.0, command: Some(CommandView::SeqSet(k.1)) },
            ),
    {
        let ghost before = entries_1@;
        let e = ContextMenuEntry {
            title: kept[i].0.clone(),
            command: Some(InputCommand::SeqSet(clone_seqs(&kept[i].1))),
        };
        entries_1.push(e);
        assert(entries_view(entries_1@) =~= entries_view(before).push(
            EntryView { title: kv[i as int].0, command: Some(CommandView::SeqSet(kv[i as int].1)) },
        ));
        assert(kv.take(i + 1) =~= kv.take(i as int).push(kv[i as int]));
    }
    assert(kv.take(kept.len() as int) =~= kv);
    if kept.len() >= 2 {
        let mut selections: Vec<(String, Vec<(String, u32, SeqType, String)>)> = Vec::new();
        for i in 0..kept.len()
            invariant
                kv == kept@.map_values(
                    |x: (String, Vec<(String, u32, SeqType, String)>)| (x.0@, seqs_view(x.1@)),
                ),
                selections@.map_values(
                    |x: (String, Vec<(String, u32, SeqType, String)>)| (x.0@, seqs_view(x.1@)),
                ) == kv.take(i as int),
        {
            let ghost before = selections@;
            selections.push((kept[i].0.clone(), clone_seqs(&kept[i].1)));
            assert(selections@.map_values(
                |x: (String, Vec<(String, u32, SeqType, String)>)| (x.0@, seqs_view(x.1@)),
            ) =~= before.map_values(
                |x: (String, Vec<(String, u32, SeqType, String)>)| (x.0@, seqs_view(x.1@)),
            ).push(kv[i as int]));
            assert(kv.take(i + 1) =~= kv.take(i as int).push(kv[i as int]));
        }
        assert(kv.take(kept.len() as int) =~= kv);
        let ghost before = entries_1@;
        entries_1.push(
            ContextMenuEntry {
                title: title("Multiple..."),
                command: Some(InputCommand::InputSelectMultipleDialog { selections }),
            },
        );
        assert(entries_view(entries_1@) =~= entries_view(before).push(
            EntryView {
                title: "Multiple..."@,
                command: Some(CommandView::InputSelectMultipleDialog { selections: kv }),
            },
        ));
    }
    assert(entries_view(entries_1@) =~= quick_menu(kv));
    let mut entries_2: Vec<ContextMenuEntry> = Vec::new();
    let ghost e0 = optional_entry("Specify..."@, specify_command);
    let ghost e1 = optional_entry("Add..."@, add_command);
    let ghost e2 = optional_entry("Clear"@, clear_command);
    match specify_command {
        Some(c) => {
            entries_2.push(ContextMenuEntry { title: title("Specify..."), command: Some(c) });
        },
        None => {},
    }
    assert(entries_view(entries_2@) =~= e0);
    match add_command {
        Some(c) => {
            entries_2.push(ContextMenuEntry { title: title("Add..."), command: Some(c) });
        },
        None => {},
    }
    assert(entries_view(entries_2@) =~= e0 + e1);
    match clear_command {
        Some(c) => {
            entries_2.push(ContextMenuEntry { title: title("Clear"), command: Some(c) });
        },
        None => {},
    }
    assert(entries_view(entries_2@) =~= e0 + e1 + e2);
    (entries_1, entries_2)
}

} // verus!
