//! Grouping the inputs of one class into the rows ("clusters") of the input dialog.
use vstd::prelude::*;

use crate::dialogs::input::{build_codes, code_text, codes_of, codes_view, opt_str, InputAxis};
use crate::dialogs::input::menu::{command_view, CommandView, InputCommand};
use crate::dialogs::switches::{inputs_eq, inputs_same};
use crate::status::{InputDevice, InputDeviceClass, InputDeviceClassName, InputDeviceItem};
use crate::text::str_eq;
use crate::prefs::string_copy;
use crate::status::{Input, InputClass, SeqType};
use crate::text::{seq_lt, is_digit, is_ws, string_from_chars, sub_vec, trailing_count, trim_end_by, ws_pred};

verus! {

/// A row of the input dialog: one digital input, or the X and Y inputs of an analog control.
#[derive(Debug, PartialEq, Eq)]
pub enum InputCluster {
    Single(usize),
    Xy { x_input_index: Option<usize>, y_input_index: Option<usize>, aggregate_name: Option<String> },
}

/// What a cluster is, with its name as a character sequence.
pub enum ClusterView {
    Single(usize),
    Xy(Option<usize>, Option<usize>, Option<Seq<char>>),
}

impl View for InputCluster {
    type V = ClusterView;

    open spec fn view(&self) -> ClusterView {
        match self {
            InputCluster::Single(i) => ClusterView::Single(*i),
            InputCluster::Xy { x_input_index, y_input_index, aggregate_name } => ClusterView::Xy(
                *x_input_index,
                *y_input_index,
                opt_str(*aggregate_name),
            ),
        }
    }
}

/// The views of a list of clusters.
pub open spec fn clusters_view(s: Seq<InputCluster>) -> Seq<ClusterView> {
    s.map_values(|c: InputCluster| c@)
}

/// A digit or whitespace.
pub open spec fn digit_or_ws_pred() -> spec_fn(char) -> bool {
    |c: char| is_digit(c) || is_ws(c)
}

/// The cluster that one input makes: an analog input named `... X` (or without a final `Y`) is
/// the X half of a pair, one named `... Y` the Y half; the pair's name is the input's name
/// without its number and axis letter.
pub open spec fn cluster_of(index: usize, input: Input) -> ClusterView {
    if input.is_analog {
        let n = trim_end_by(input.name@, digit_or_ws_pred());
        let is_y = n.len() > 0 && n.last() == 'Y';
        let agg = if n.len() > 0 && (n.last() == 'X' || n.last() == 'Y' || n.last() == 'Z') {
            Some(trim_end_by(n.drop_last(), ws_pred()))
        } else {
            None
        };
        if is_y {
            ClusterView::Xy(None, Some(index), agg)
        } else {
            ClusterView::Xy(Some(index), None, agg)
        }
    } else {
        ClusterView::Single(index)
    }
}

/// Two halves of the same analog control merged into one cluster, if they are such halves.
pub open spec fn coalesced(a: ClusterView, b: ClusterView) -> Option<ClusterView> {
    match (a, b) {
        (ClusterView::Xy(ax, ay, an), ClusterView::Xy(bx, by, bn)) => if an != bn {
            None
        } else {
            match (ax, ay, bx, by) {
                (Some(x), None, None, Some(y)) => Some(ClusterView::Xy(Some(x), Some(y), an)),
                (None, Some(x), Some(y), None) => Some(ClusterView::Xy(Some(x), Some(y), an)),
                _ => None,
            }
        },
        _ => None,
    }
}

/// The sort key of an input in the dialog: group, type, first keyboard code (zero if none),
/// then name.
pub open spec fn key_less(a: Input, b: Input) -> bool {
    let ak = match a.first_keyboard_code {
        Some(k) => k,
        None => 0,
    };
    let bk = match b.first_keyboard_code {
        Some(k) => k,
        None => 0,
    };
    a.group < b.group || (a.group == b.group && (a.input_type < b.input_type || (a.input_type
        == b.input_type && (ak < bk || (ak == bk && seq_lt(a.name@, b.name@))))))
}

/// The indices of the inputs of `class`, in order.
pub open spec fn class_indices(inputs: Seq<Input>, class: InputClass) -> Seq<usize>
    decreases inputs.len(),
{
    if inputs.len() == 0 {
        seq![]
    } else {
        let prev = class_indices(inputs.drop_last(), class);
        if inputs.last().class == Some(class) {
            prev.push((inputs.len() - 1) as usize)
        } else {
            prev
        }
    }
}

/// Where `x` goes in the sorted `s`: before the first entry whose input sorts after it.
pub open spec fn insert_pos(inputs: Seq<Input>, s: Seq<usize>, x: usize, k: int) -> int
    decreases s.len() - k,
{
    if k < 0 || k >= s.len() {
        s.len() as int
    } else if key_less(inputs[x as int], inputs[s[k] as int]) {
        k
    } else {
        insert_pos(inputs, s, x, k + 1)
    }
}

/// `s` sorted by the inputs' sort keys; inputs with equal keys keep their order.
pub open spec fn sort_indices(inputs: Seq<Input>, s: Seq<usize>) -> Seq<usize>
    decreases s.len(),
{
    if s.len() == 0 {
        seq![]
    } else {
        let sorted = sort_indices(inputs, s.drop_last());
        sorted.insert(insert_pos(inputs, sorted, s.last(), 0), s.last())
    }
}

/// Two inputs are the same port field.
pub open spec fn same_field(a: Input, b: Input) -> bool {
    a.port_tag@ == b.port_tag@ && a.mask == b.mask
}

/// `s` with each run of the same port field kept only at its first entry.
pub open spec fn dedupe(inputs: Seq<Input>, s: Seq<usize>) -> Seq<usize>
    decreases s.len(),
{
    if s.len() <= 1 {
        s
    } else {
        let d = dedupe(inputs, s.drop_last());
        if d.len() > 0 && same_field(inputs[d.last() as int], inputs[s.last() as int]) {
            d
        } else {
            d.push(s.last())
        }
    }
}

/// `c` with each cluster merged into the one before it where they are halves of a pair.
pub open spec fn coalesce_all(c: Seq<ClusterView>) -> Seq<ClusterView>
    decreases c.len(),
{
    if c.len() <= 1 {
        c
    } else {
        let d = coalesce_all(c.drop_last());
        if d.len() > 0 {
            match coalesced(d.last(), c.last()) {
                Some(m) => d.drop_last().push(m),
                None => d.push(c.last()),
            }
        } else {
            d.push(c.last())
        }
    }
}

/// The rows of the input dialog for `class`: its inputs, sorted, without repeated port fields,
/// each made a cluster, with the halves of each analog pair merged.
pub open spec fn clusters_of(inputs: Seq<Input>, class: InputClass) -> Seq<ClusterView> {
    let sorted = sort_indices(inputs, class_indices(inputs, class));
    let unique = dedupe(inputs, sorted);
    coalesce_all(unique.map_values(|i: usize| cluster_of(i, inputs[i as int])))
}

fn trailing_digit_or_ws_count(s: &Vec<char>) -> (r: usize)
    ensures
        r == trailing_count(s@, digit_or_ws_pred()),
        r <= s@.len(),
{
    let mut j: usize = s.len();
    assert(s@.take(s@.len() as int) =~= s@);
    while j > 0 && (('0' <= s[j - 1] && s[j - 1] <= '9') || crate::text::is_whitespace(s[j - 1]))
        invariant
            j <= s@.len(),
            trailing_count(s@, digit_or_ws_pred()) == (s@.len() - j) + trailing_count(
                s@.take(j as int),
                digit_or_ws_pred(),
            ),
        decreases j,
    {
        assert(s@.take(j as int).drop_last() =~= s@.take(j - 1));
        j = j - 1;
    }
    s.len() - j
}

/// The cluster that the input at `index` makes on its own.
pub fn input_cluster_from_input(index: usize, input: &Input) -> (r: InputCluster)
    ensures
        r@ == cluster_of(index, *input),
{
    if input.is_analog {
        let name = crate::text::chars_of(input.name.as_str());
        let t = trailing_digit_or_ws_count(&name);
        let n = sub_vec(&name, 0, name.len() - t);
        let is_y = n.len() > 0 && n[n.len() - 1] == 'Y';
        let aggregate_name = if n.len() > 0 && (n[n.len() - 1] == 'X' || n[n.len() - 1] == 'Y' || n[n.len() - 1] == 'Z') {
            let stem = sub_vec(&n, 0, n.len() - 1);
            assert(stem@ =~= n@.drop_last());
            let w = crate::text::trailing_ws_count(&stem);
            let trimmed = sub_vec(&stem, 0, stem.len() - w);
            Some(string_from_chars(&trimmed))
        } else {
            None
        };
        if is_y {
            InputCluster::Xy { x_input_index: None, y_input_index: Some(index), aggregate_name }
        } else {
            InputCluster::Xy { x_input_index: Some(index), y_input_index: None, aggregate_name }
        }
    } else {
        InputCluster::Single(index)
    }
}

/// The X index, Y index and name of a pair cluster; nothing for a single input.
pub fn input_cluster_as_multi(input_cluster: &InputCluster) -> (r: Option<
    (Option<usize>, Option<usize>, Option<String>),
>)
    ensures
        match input_cluster@ {
            ClusterView::Single(_) => r is None,
            ClusterView::Xy(x, y, n) => r matches Some((rx, ry, rn)) && rx == x && ry == y
                && opt_str(rn) == n,
        },
{
    match input_cluster {
        InputCluster::Single(_) => None,
        InputCluster::Xy { x_input_index, y_input_index, aggregate_name } => {
            let n = match aggregate_name {
                Some(a) => Some(string_copy(a)),
                None => None,
            };
            Some((*x_input_index, *y_input_index, n))
        },
    }
}

fn opt_string_eq(a: &Option<String>, b: &Option<String>) -> (r: bool)
    ensures
        r == (opt_str(*a) == opt_str(*b)),
{
    match (a, b) {
        (Some(x), Some(y)) => *x == *y,
        (None, None) => true,
        _ => false,
    }
}

/// The two halves of an analog pair merged into one cluster; nothing if `a` and `b` are not the
/// X and Y halves (in either order) of a control with the same name.
pub fn coalesce_input_clusters(a: &InputCluster, b: &InputCluster) -> (r: Option<InputCluster>)
    ensures
        match r {
            Some(m) => coalesced(a@, b@) == Some(m@),
            None => coalesced(a@, b@) is None,
        },
{
    let (a_x, a_y, a_name) = match input_cluster_as_multi(a) {
        Some(t) => t,
        None => return None,
    };
    let (b_x, b_y, b_name) = match input_cluster_as_multi(b) {
        Some(t) => t,
        None => return None,
    };
    if !opt_string_eq(&a_name, &b_name) {
        return None;
    }
    let (x, y) = match (a_x, a_y, b_x, b_y) {
        (Some(x), None, None, Some(y)) => (x, y),
        (None, Some(x), Some(y), None) => (x, y),
        _ => return None,
    };
    Some(InputCluster::Xy { x_input_index: Some(x), y_input_index: Some(y), aggregate_name: a_name })
}

fn input_key_less(a: &Input, b: &Input) -> (r: bool)
    ensures
        r == key_less(*a, *b),
{
    let ak = match a.first_keyboard_code {
        Some(k) => k,
        None => 0,
    };
    let bk = match b.first_keyboard_code {
        Some(k) => k,
        None => 0,
    };
    if a.group != b.group {
        return a.group < b.group;
    }
    if a.input_type != b.input_type {
        return a.input_type < b.input_type;
    }
    if ak != bk {
        return ak < bk;
    }
    crate::text::str_lt(a.name.as_str(), b.name.as_str())
}

/// The rows of the input dialog for the inputs of `class`: the inputs are sorted by group, type,
/// first keyboard code and name (inputs with equal keys keep their order), a repeated port field
/// is kept only once, each input becomes a cluster, and the X and Y halves of an analog control
/// that follow each other are merged into one row.
pub fn build_clusters(inputs: &[Input], class: InputClass) -> (r: Vec<InputCluster>)
    ensures
        clusters_view(r@) == clusters_of(inputs@, class),
{
    // the inputs of this class
    let mut selected: Vec<usize> = Vec::new();
    let mut i: usize = 0;
    while i < inputs.len()
        invariant
            i <= inputs@.len(),
            selected@ == class_indices(inputs@.take(i as int), class),
            forall|k: int| 0 <= k < selected@.len() ==> #[trigger] selected@[k] < i,
        decreases inputs@.len() - i,
    {
        assert(inputs@.take(i + 1).drop_last() =~= inputs@.take(i as int));
        if inputs[i].class == Some(class) {
            selected.push(i);
        }
        i = i + 1;
    }
    assert(inputs@.take(inputs@.len() as int) =~= inputs@);

    // sort them, keeping inputs with equal keys in order
    let mut sorted: Vec<usize> = Vec::new();
    let mut j: usize = 0;
    while j < selected.len()
        invariant
            j <= selected@.len(),
            selected@ == class_indices(inputs@, class),
            forall|k: int| 0 <= k < selected@.len() ==> #[trigger] selected@[k] < inputs@.len(),
            sorted@ == sort_indices(inputs@, selected@.take(j as int)),
            sorted@.len() == j,
            forall|k: int| 0 <= k < sorted@.len() ==> #[trigger] sorted@[k] < inputs@.len(),
        decreases selected@.len() - j,
    {
        assert(selected@.take(j + 1).drop_last() =~= selected@.take(j as int));
        let x = selected[j];
        let mut pos: usize = 0;
        while pos < sorted.len() && !input_key_less(&inputs[x], &inputs[sorted[pos]])
            invariant
                pos <= sorted@.len(),
                x < inputs@.len(),
                forall|k: int| 0 <= k < sorted@.len() ==> #[trigger] sorted@[k] < inputs@.len(),
                insert_pos(inputs@, sorted@, x, 0) == insert_pos(inputs@, sorted@, x, pos as int),
            decreases sorted@.len() - pos,
        {
            pos = pos + 1;
        }
        let ghost before = sorted@;
        sorted.insert(pos, x);
        assert forall|k: int| 0 <= k < sorted@.len() implies #[trigger] sorted@[k] < inputs@.len() by {
            if k < pos {
                assert(sorted@[k] == before[k]);
            } else if k > pos {
                assert(sorted@[k] == before[k - 1]);
            }
        }
        j = j + 1;
    }
    assert(selected@.take(selected@.len() as int) =~= selected@);

    // keep only the first of each run of the same port field
    let ghost sorted_view = sorted@;
    let mut unique: Vec<usize> = Vec::new();
    let mut k: usize = 0;
    while k < sorted.len()
        invariant
            k <= sorted@.len(),
            sorted@ == sorted_view,
            forall|m: int| 0 <= m < sorted@.len() ==> #[trigger] sorted@[m] < inputs@.len(),
            unique@ == dedupe(inputs@, sorted@.take(k as int)),
            forall|m: int| 0 <= m < unique@.len() ==> #[trigger] unique@[m] < inputs@.len(),
            k > 0 ==> unique@.len() > 0,
        decreases sorted@.len() - k,
    {
        assert(sorted@.take(k + 1).drop_last() =~= sorted@.take(k as int));
        let x = sorted[k];
        if k == 0 {
            unique.push(x);
            assert(unique@ =~= sorted@.take(1));
        } else {
            let last = unique[unique.len() - 1];
            let same = inputs[last].port_tag == inputs[x].port_tag && inputs[last].mask == inputs[x].mask;
            if !same {
                unique.push(x);
            }
        }
        k = k + 1;
    }
    assert(sorted@.take(sorted@.len() as int) =~= sorted@);

    // make the clusters and merge the halves of pairs
    let ghost cl = unique@.map_values(|i: usize| cluster_of(i, inputs@[i as int]));
    let mut result: Vec<InputCluster> = Vec::new();
    let mut m: usize = 0;
    while m < unique.len()
        invariant
            m <= unique@.len(),
            forall|q: int| 0 <= q < unique@.len() ==> #[trigger] unique@[q] < inputs@.len(),
            cl == unique@.map_values(|i: usize| cluster_of(i, inputs@[i as int])),
            clusters_view(result@) == coalesce_all(cl.take(m as int)),
            m > 0 ==> result@.len() > 0,
        decreases unique@.len() - m,
    {
        assert(cl.take(m + 1).drop_last() =~= cl.take(m as int));
        let idx = unique[m];
        let c = input_cluster_from_input(idx, &inputs[idx]);
        if m == 0 {
            result.push(c);
            assert(clusters_view(result@) =~= cl.take(1));
        } else {
            let ghost before = clusters_view(result@);
            let merged = coalesce_input_clusters(&result[result.len() - 1], &c);
            match merged {
                Some(mc) => {
                    let ghost cv = mc@;
                    result.pop();
                    result.push(mc);
                    assert(clusters_view(result@) =~= before.drop_last().push(cv));
                },
                None => {
                    let ghost cv = c@;
                    result.push(c);
                    assert(clusters_view(result@) =~= before.push(cv));
                },
            }
        }
        m = m + 1;
    }
    assert(cl.take(unique@.len() as int) =~= cl);
    result
}

/// The name of a row: the input's name, or the pair's name, or else the name of its X or Y
/// input.
pub fn input_cluster_name(inputs: &[Input], cluster: &InputCluster) -> (r: String)
    requires
        match cluster@ {
            ClusterView::Single(i) => i < inputs@.len(),
            ClusterView::Xy(x, y, n) => (x matches Some(i) ==> i < inputs@.len()) && (y matches Some(
                i,
            ) ==> i < inputs@.len()) && (n is Some || x is Some || y is Some),
        },
    ensures
        r@ == match cluster@ {
            ClusterView::Single(i) => inputs@[i as int].name@,
            ClusterView::Xy(x, y, n) => match (n, x, y) {
                (Some(n), _, _) => n,
                (None, Some(i), _) => inputs@[i as int].name@,
                (None, None, Some(i)) => inputs@[i as int].name@,
                _ => Seq::empty(),
            },
        },
{
    match cluster {
        InputCluster::Single(i) => string_copy(&inputs[*i].name),
        InputCluster::Xy { x_input_index, y_input_index, aggregate_name } => match aggregate_name {
            Some(n) => string_copy(n),
            None => match x_input_index {
                Some(i) => string_copy(&inputs[*i].name),
                None => match y_input_index {
                    Some(i) => string_copy(&inputs[*i].name),
                    None => String::new(),
                },
            },
        },
    }
}

/// The sequences that a row shows: the standard sequence of a single input; for a pair, the
/// standard, decrement and increment sequences of its X input and then of its Y input.
pub open spec fn cluster_seqs(c: ClusterView) -> Seq<(usize, Option<InputAxis>, SeqType)> {
    match c {
        ClusterView::Single(i) => seq![(i, None, SeqType::Standard)],
        ClusterView::Xy(x, y, _) => {
            let xs = match x {
                Some(i) => seq![
                    (i, Some(InputAxis::X), SeqType::Standard),
                    (i, Some(InputAxis::X), SeqType::Decrement),
                    (i, Some(InputAxis::X), SeqType::Increment),
                ],
                None => seq![],
            };
            let ys = match y {
                Some(i) => seq![
                    (i, Some(InputAxis::Y), SeqType::Standard),
                    (i, Some(InputAxis::Y), SeqType::Decrement),
                    (i, Some(InputAxis::Y), SeqType::Increment),
                ],
                None => seq![],
            };
            xs + ys
        },
    }
}

/// The sequences that a row shows, each naming its input by index.
pub fn input_cluster_input_seqs(cluster: &InputCluster) -> (r: Vec<(usize, Option<InputAxis>, SeqType)>)
    ensures
        r@ == cluster_seqs(cluster@),
{
    let mut r: Vec<(usize, Option<InputAxis>, SeqType)> = Vec::new();
    match cluster {
        InputCluster::Single(i) => {
            r.push((*i, None, SeqType::Standard));
        },
        InputCluster::Xy { x_input_index, y_input_index, .. } => {
            if let Some(i) = x_input_index {
                r.push((*i, Some(InputAxis::X), SeqType::Standard));
                r.push((*i, Some(InputAxis::X), SeqType::Decrement));
                r.push((*i, Some(InputAxis::X), SeqType::Increment));
            }
            if let Some(i) = y_input_index {
                r.push((*i, Some(InputAxis::Y), SeqType::Standard));
                r.push((*i, Some(InputAxis::Y), SeqType::Decrement));
                r.push((*i, Some(InputAxis::Y), SeqType::Increment));
            }
        },
    }
    assert(r@ =~= cluster_seqs(cluster@));
    r
}

/// The text shown for a cluster's input sequences: the sequences of its inputs (each
/// with its axis arrow), described with the device codes, joined by " / ".
pub fn input_cluster_code_text(
    inputs: &[Input],
    cluster: &InputCluster,
    codes: &Vec<(String, String)>,
) -> (r: String)
    requires
        match cluster@ {
            ClusterView::Single(i) => i < inputs@.len(),
            ClusterView::Xy(x, y, _) => (x matches Some(i) ==> i < inputs@.len()) && (y matches Some(
                i,
            ) ==> i < inputs@.len()),
        },
    ensures
        r@ == crate::dialogs::input::code_text(
            inputs@,
            cluster_seqs(cluster@),
            crate::dialogs::input::codes_view(codes@),
        ),
{
    let seqs = input_cluster_input_seqs(cluster);
    assert forall|i: int| 0 <= i < seqs@.len() implies #[trigger] seqs@[i].0 < inputs@.len() by {
        match cluster@ {
            ClusterView::Single(k) => {},
            ClusterView::Xy(x, y, _) => {},
        }
    }
    crate::dialogs::input::build_code_text(inputs, &seqs, codes)
}

/// Whether a cluster names only inputs below `n`, and a pair has a name or an input.
pub open spec fn cluster_in_bounds(c: ClusterView, n: int) -> bool {
    match c {
        ClusterView::Single(i) => i < n,
        ClusterView::Xy(x, y, name) => (x matches Some(i) ==> i < n) && (y matches Some(i) ==> i < n) && (
        name is Some || x is Some || y is Some),
    }
}

proof fn lemma_class_indices_bounded(inputs: Seq<Input>, class: InputClass)
    requires
        inputs.len() <= usize::MAX,
    ensures
        forall|k: int| 0 <= k < class_indices(inputs, class).len() ==> #[trigger] class_indices(inputs, class)[k] < inputs.len(),
    decreases inputs.len(),
{
    if inputs.len() > 0 {
        let front = inputs.drop_last();
        lemma_class_indices_bounded(front, class);
        let prev = class_indices(front, class);
        let r = class_indices(inputs, class);
        assert forall|k: int| 0 <= k < r.len() implies #[trigger] r[k] < inputs.len() by {
            if k < prev.len() {
                assert(r[k] == prev[k]);
                assert(prev[k] < front.len());
            } else {
                assert(r[k] == (inputs.len() - 1) as usize);
            }
        }
    }
}

proof fn lemma_insert_pos_range(inputs: Seq<Input>, s: Seq<usize>, x: usize, k: int)
    requires
        0 <= k,
    ensures
        0 <= insert_pos(inputs, s, x, k) <= s.len(),
    decreases s.len() - k,
{
    if k < s.len() && !key_less(inputs[x as int], inputs[s[k] as int]) {
        lemma_insert_pos_range(inputs, s, x, k + 1);
    }
}

proof fn lemma_sort_indices_bounded(inputs: Seq<Input>, s: Seq<usize>, n: int)
    requires
        forall|k: int| 0 <= k < s.len() ==> #[trigger] s[k] < n,
    ensures
        forall|k: int| 0 <= k < sort_indices(inputs, s).len() ==> #[trigger] sort_indices(inputs, s)[k] < n,
        sort_indices(inputs, s).len() == s.len(),
    decreases s.len(),
{
    if s.len() > 0 {
        let front = s.drop_last();
        assert forall|k: int| 0 <= k < front.len() implies #[trigger] front[k] < n by {
            assert(front[k] == s[k]);
        }
        lemma_sort_indices_bounded(inputs, front, n);
        let sorted = sort_indices(inputs, front);
        lemma_insert_pos_range(inputs, sorted, s.last(), 0);
        let p = insert_pos(inputs, sorted, s.last(), 0);
        let r = sorted.insert(p, s.last());
        assert forall|k: int| 0 <= k < r.len() implies #[trigger] r[k] < n by {
            if k < p {
                assert(r[k] == sorted[k]);
            } else if k > p {
                assert(r[k] == sorted[k - 1]);
            } else {
                assert(s.last() == s[s.len() - 1]);
            }
        }
    }
}

proof fn lemma_dedupe_bounded(inputs: Seq<Input>, s: Seq<usize>, n: int)
    requires
        forall|k: int| 0 <= k < s.len() ==> #[trigger] s[k] < n,
    ensures
        forall|k: int| 0 <= k < dedupe(inputs, s).len() ==> #[trigger] dedupe(inputs, s)[k] < n,
    decreases s.len(),
{
    if s.len() > 1 {
        let front = s.drop_last();
        assert forall|k: int| 0 <= k < front.len() implies #[trigger] front[k] < n by {
            assert(front[k] == s[k]);
        }
        lemma_dedupe_bounded(inputs, front, n);
        let d = dedupe(inputs, front);
        assert(s.last() == s[s.len() - 1]);
        if !(d.len() > 0 && same_field(inputs[d.last() as int], inputs[s.last() as int])) {
            let r = d.push(s.last());
            assert forall|k: int| 0 <= k < r.len() implies #[trigger] r[k] < n by {
                if k < d.len() {
                    assert(r[k] == d[k]);
                }
            }
        }
    }
}

proof fn lemma_coalesce_all_bounded(c: Seq<ClusterView>, n: int)
    requires
        forall|k: int| 0 <= k < c.len() ==> cluster_in_bounds(#[trigger] c[k], n),
    ensures
        forall|k: int| 0 <= k < coalesce_all(c).len() ==> cluster_in_bounds(#[trigger] coalesce_all(c)[k], n),
    decreases c.len(),
{
    if c.len() > 1 {
        let front = c.drop_last();
        assert forall|k: int| 0 <= k < front.len() implies cluster_in_bounds(#[trigger] front[k], n) by {
            assert(front[k] == c[k]);
        }
        lemma_coalesce_all_bounded(front, n);
        let d = coalesce_all(front);
        assert(cluster_in_bounds(c[c.len() - 1], n));
        if d.len() > 0 {
            assert(cluster_in_bounds(d[d.len() - 1], n));
            match coalesced(d.last(), c.last()) {
                Some(m) => {
                    let r = d.drop_last().push(m);
                    assert forall|k: int| 0 <= k < r.len() implies cluster_in_bounds(#[trigger] r[k], n) by {
                        if k < d.len() - 1 {
                            assert(r[k] == d[k]);
                        }
                    }
                },
                None => {},
            }
        }
    }
}

/// Every row of the input dialog names only inputs that exist, and a pair has a name
/// or an input.
pub proof fn lemma_clusters_in_bounds(inputs: Seq<Input>, class: InputClass)
    requires
        inputs.len() <= usize::MAX,
    ensures
        forall|k: int|
            0 <= k < clusters_of(inputs, class).len() ==> cluster_in_bounds(
                #[trigger] clusters_of(inputs, class)[k],
                inputs.len() as int,
            ),
{
    let n = inputs.len() as int;
    let ci = class_indices(inputs, class);
    lemma_class_indices_bounded(inputs, class);
    lemma_sort_indices_bounded(inputs, ci, n);
    let sorted = sort_indices(inputs, ci);
    lemma_dedupe_bounded(inputs, sorted, n);
    let unique = dedupe(inputs, sorted);
    let cs = unique.map_values(|i: usize| cluster_of(i, inputs[i as int]));
    assert forall|k: int| 0 <= k < cs.len() implies cluster_in_bounds(#[trigger] cs[k], n) by {
        assert(unique[k] < n);
    }
    lemma_coalesce_all_bounded(cs, n);
}

/// The name of a row; see [`input_cluster_name`].
pub open spec fn cluster_name(inputs: Seq<Input>, c: ClusterView) -> Seq<char> {
    match c {
        ClusterView::Single(i) => inputs[i as int].name@,
        ClusterView::Xy(x, y, n) => match (n, x, y) {
            (Some(n), _, _) => n,
            (None, Some(i), _) => inputs[i as int].name@,
            (None, None, Some(i)) => inputs[i as int].name@,
            _ => Seq::empty(),
        },
    }
}

/// What choosing a row does: for a single input, the dialog that polls for its standard
/// sequence; for a pair, the dialog for its X and Y inputs.
pub open spec fn primary_command(inputs: Seq<Input>, c: ClusterView) -> CommandView {
    match c {
        ClusterView::Single(i) => CommandView::SeqPollDialog {
            port_tag: inputs[i as int].port_tag@,
            mask: inputs[i as int].mask,
            seq_type: SeqType::Standard,
            poll_type: crate::dialogs::seqpoll::SeqPollDialogType::Specify,
        },
        ClusterView::Xy(x, y, _) => CommandView::InputXyDialog {
            x_input: match x {
                Some(i) => Some((inputs[i as int].port_tag@, inputs[i as int].mask)),
                None => None,
            },
            y_input: match y {
                Some(i) => Some((inputs[i as int].port_tag@, inputs[i as int].mask)),
                None => None,
            },
        },
    }
}

/// The sequences that restoring the defaults sets: every sequence that a row shows, row
/// by row, each to the default ("*").
pub open spec fn restore_seqs(inputs: Seq<Input>, cs: Seq<ClusterView>) -> Seq<(Seq<char>, u32, SeqType, Seq<char>)>
    decreases cs.len(),
{
    if cs.len() == 0 {
        Seq::empty()
    } else {
        restore_seqs(inputs, cs.drop_last()) + cluster_seqs(cs.last()).map_values(
            |x: (usize, Option<InputAxis>, SeqType)| (inputs[x.0 as int].port_tag@, inputs[x.0 as int].mask, x.2, "*"@),
        )
    }
}

/// A host input device control, by its strings' characters.
pub open spec fn item_view(i: InputDeviceItem) -> (Seq<char>, Seq<char>, Seq<char>) {
    (i.name@, i.token@, i.code@)
}

/// A host input device, by its strings' characters.
pub open spec fn device_view(d: InputDevice) -> (Seq<char>, Seq<char>, u32, Seq<(Seq<char>, Seq<char>, Seq<char>)>) {
    (d.name@, d.id@, d.devindex, d.items@.map_values(|i: InputDeviceItem| item_view(i)))
}

/// The name of a class of host input devices, as a kind and (for other kinds) its text.
pub open spec fn class_name_view(n: InputDeviceClassName) -> (int, Seq<char>) {
    match n {
        InputDeviceClassName::Keyboard => (0, Seq::empty()),
        InputDeviceClassName::Joystick => (1, Seq::empty()),
        InputDeviceClassName::Lightgun => (2, Seq::empty()),
        InputDeviceClassName::Mouse => (3, Seq::empty()),
        InputDeviceClassName::Other(s) => (4, s@),
    }
}

/// Whether two classes of host input devices are the same in every field.
pub open spec fn class_same(a: InputDeviceClass, b: InputDeviceClass) -> bool {
    &&& class_name_view(a.name) == class_name_view(b.name)
    &&& a.enabled == b.enabled
    &&& a.multi == b.multi
    &&& a.devices@.map_values(|d: InputDevice| device_view(d)) == b.devices@.map_values(|d: InputDevice| device_view(d))
}

/// Whether two lists of classes of host input devices are the same, class by class.
pub open spec fn classes_same(a: Seq<InputDeviceClass>, b: Seq<InputDeviceClass>) -> bool {
    a.len() == b.len() && forall|k: int| 0 <= k < a.len() ==> class_same(#[trigger] a[k], b[k])
}

fn item_eq(a: &InputDeviceItem, b: &InputDeviceItem) -> (r: bool)
    ensures
        r == (item_view(*a) == item_view(*b)),
{
    str_eq(a.name.as_str(), b.name.as_str()) && str_eq(a.token.as_str(), b.token.as_str()) && str_eq(
        a.code.as_str(),
        b.code.as_str(),
    )
}

fn device_eq(a: &InputDevice, b: &InputDevice) -> (r: bool)
    ensures
        r == (device_view(*a) == device_view(*b)),
{
    let ghost av = a.items@.map_values(|i: InputDeviceItem| item_view(i));
    let ghost bv = b.items@.map_values(|i: InputDeviceItem| item_view(i));
    if !(a.devindex == b.devindex && a.items.len() == b.items.len() && str_eq(a.name.as_str(), b.name.as_str())
        && str_eq(a.id.as_str(), b.id.as_str())) {
        assert(a.items.len() != b.items.len() ==> av.len() != bv.len());
        return false;
    }
    let mut k: usize = 0;
    while k < a.items.len()
        invariant
            k <= a.items.len(),
            a.items.len() == b.items.len(),
            av == a.items@.map_values(|i: InputDeviceItem| item_view(i)),
            bv == b.items@.map_values(|i: InputDeviceItem| item_view(i)),
            forall|j: int| 0 <= j < k ==> #[trigger] av[j] == bv[j],
        decreases a.items.len() - k,
    {
        if !item_eq(&a.items[k], &b.items[k]) {
            assert(av[k as int] != bv[k as int]);
            return false;
        }
        k = k + 1;
    }
    assert(av =~= bv);
    true
}

fn class_name_eq(a: &InputDeviceClassName, b: &InputDeviceClassName) -> (r: bool)
    ensures
        r == (class_name_view(*a) == class_name_view(*b)),
{
    match (a, b) {
        (InputDeviceClassName::Keyboard, InputDeviceClassName::Keyboard) => true,
        (InputDeviceClassName::Joystick, InputDeviceClassName::Joystick) => true,
        (InputDeviceClassName::Lightgun, InputDeviceClassName::Lightgun) => true,
        (InputDeviceClassName::Mouse, InputDeviceClassName::Mouse) => true,
        (InputDeviceClassName::Other(x), InputDeviceClassName::Other(y)) => str_eq(x.as_str(), y.as_str()),
        _ => false,
    }
}

fn class_eq(a: &InputDeviceClass, b: &InputDeviceClass) -> (r: bool)
    ensures
        r == class_same(*a, *b),
{
    let ghost av = a.devices@.map_values(|d: InputDevice| device_view(d));
    let ghost bv = b.devices@.map_values(|d: InputDevice| device_view(d));
    if !(a.enabled == b.enabled && a.multi == b.multi && a.devices.len() == b.devices.len() && class_name_eq(
        &a.name,
        &b.name,
    )) {
        assert(a.devices.len() != b.devices.len() ==> av.len() != bv.len());
        return false;
    }
    let mut k: usize = 0;
    while k < a.devices.len()
        invariant
            k <= a.devices.len(),
            a.devices.len() == b.devices.len(),
            av == a.devices@.map_values(|d: InputDevice| device_view(d)),
            bv == b.devices@.map_values(|d: InputDevice| device_view(d)),
            forall|j: int| 0 <= j < k ==> #[trigger] av[j] == bv[j],
        decreases a.devices.len() - k,
    {
        if !device_eq(&a.devices[k], &b.devices[k]) {
            assert(av[k as int] != bv[k as int]);
            return false;
        }
        k = k + 1;
    }
    assert(av =~= bv);
    true
}

fn classes_eq(a: &Vec<InputDeviceClass>, b: &Vec<InputDeviceClass>) -> (r: bool)
    ensures
        r == classes_same(a@, b@),
{
    if a.len() != b.len() {
        return false;
    }
    let mut k: usize = 0;
    while k < a.len()
        invariant
            k <= a.len(),
            a.len() == b.len(),
            forall|j: int| 0 <= j < k ==> class_same(#[trigger] a@[j], b@[j]),
        decreases a.len() - k,
    {
        if !class_eq(&a[k], &b[k]) {
            return false;
        }
        k = k + 1;
    }
    true
}

/// The command that restores the defaults of every sequence that the rows show.
fn build_restore_defaults_command(inputs: &Vec<Input>, clusters: &Vec<InputCluster>) -> (r: InputCommand)
    requires
        forall|k: int| 0 <= k < clusters.len() ==> cluster_in_bounds(#[trigger] clusters@[k]@, inputs.len() as int),
    ensures
        command_view(r) == CommandView::SeqSet(restore_seqs(inputs@, clusters_view(clusters@))),
{
    let ghost cv = clusters_view(clusters@);
    let mut seqs: Vec<(String, u32, SeqType, String)> = Vec::new();
    let mut k: usize = 0;
    while k < clusters.len()
        invariant
            k <= clusters.len(),
            cv == clusters_view(clusters@),
            forall|q: int| 0 <= q < clusters.len() ==> cluster_in_bounds(#[trigger] clusters@[q]@, inputs.len() as int),
            crate::dialogs::input::menu::seqs_view(seqs@) == restore_seqs(inputs@, cv.take(k as int)),
        decreases clusters.len() - k,
    {
        let ghost before = crate::dialogs::input::menu::seqs_view(seqs@);
        proof {
            assert(cv.take(k + 1).drop_last() =~= cv.take(k as int));
            assert(cv.take(k + 1).last() == clusters@[k as int]@);
        }
        let cluster_seqs_k = input_cluster_input_seqs(&clusters[k]);
        let ghost target = cluster_seqs(clusters@[k as int]@).map_values(
            |x: (usize, Option<InputAxis>, SeqType)| (inputs@[x.0 as int].port_tag@, inputs@[x.0 as int].mask, x.2, "*"@),
        );
        let mut j: usize = 0;
        while j < cluster_seqs_k.len()
            invariant
                j <= cluster_seqs_k.len(),
                k < clusters.len(),
                target == cluster_seqs(clusters@[k as int]@).map_values(
                    |x: (usize, Option<InputAxis>, SeqType)| (inputs@[x.0 as int].port_tag@, inputs@[x.0 as int].mask, x.2, "*"@),
                ),
                cluster_seqs_k@ == cluster_seqs(clusters@[k as int]@),
                cluster_in_bounds(clusters@[k as int]@, inputs.len() as int),
                crate::dialogs::input::menu::seqs_view(seqs@) == before + target.take(j as int),
            decreases cluster_seqs_k.len() - j,
        {
            let (i, _, seq_type) = cluster_seqs_k[j];
            proof {
                match clusters@[k as int]@ {
                    ClusterView::Single(_) => {},
                    ClusterView::Xy(_, _, _) => {},
                }
                assert(i < inputs.len());
            }
            let ghost prev = crate::dialogs::input::menu::seqs_view(seqs@);
            seqs.push((inputs[i].port_tag.clone(), inputs[i].mask, seq_type, "*".to_string()));
            assert(crate::dialogs::input::menu::seqs_view(seqs@) =~= prev.push(
                (inputs@[i as int].port_tag@, inputs@[i as int].mask, seq_type, "*"@),
            ));
            assert(target.take(j + 1) =~= target.take(j as int).push(target[j as int]));
            j = j + 1;
        }
        assert(target.take(cluster_seqs_k.len() as int) =~= target);
        k = k + 1;
    }
    assert(cv.take(clusters.len() as int) =~= cv);
    InputCommand::SeqSet(seqs)
}

/// What a row of the input dialog shows: the name, the text of its sequences, and what
/// choosing it does.
pub struct InputDialogEntry {
    pub name: String,
    pub text: String,
    pub primary_command: InputCommand,
}

/// The rows of the input dialog for one class of inputs, kept in step with what the
/// running emulation reports.
pub struct InputDialogModel {
    class: InputClass,
    inputs: Vec<Input>,
    input_device_classes: Vec<InputDeviceClass>,
    clusters: Vec<InputCluster>,
    codes: Vec<(String, String)>,
}

impl InputDialogModel {
    #[verifier::type_invariant]
    spec fn well_formed(self) -> bool {
        &&& clusters_view(self.clusters@) == clusters_of(self.inputs@, self.class)
        &&& codes_view(self.codes@) == codes_of(self.input_device_classes@)
    }

    /// The class of inputs that the dialog shows.
    pub closed spec fn input_class(&self) -> InputClass {
        self.class
    }

    /// The inputs of the running machine.
    pub closed spec fn inputs(&self) -> Seq<Input> {
        self.inputs@
    }

    /// The classes of the host's input devices.
    pub closed spec fn input_device_classes(&self) -> Seq<InputDeviceClass> {
        self.input_device_classes@
    }

    /// A model for inputs of class `class`, with no inputs yet.
    pub fn new(class: InputClass) -> (r: Self)
        ensures
            r.input_class() == class,
            r.inputs().len() == 0,
            r.input_device_classes().len() == 0,
    {
        let inputs: Vec<Input> = Vec::new();
        let input_device_classes: Vec<InputDeviceClass> = Vec::new();
        let clusters = build_clusters(&inputs, class);
        let codes = build_codes(&input_device_classes);
        InputDialogModel { class, inputs, input_device_classes, clusters, codes }
    }

    /// Takes the inputs and host devices now reported. Where either differs from what the
    /// model holds, the rows are built anew and the command that restores the defaults
    /// of every sequence shown is returned; else nothing changes and `None` is returned.
    pub fn update(&mut self, inputs: Vec<Input>, input_device_classes: Vec<InputDeviceClass>) -> (r: Option<
        InputCommand,
    >)
        ensures
            r is Some <==> (!inputs_same(old(self).inputs(), inputs@) || !classes_same(
                old(self).input_device_classes(),
                input_device_classes@,
            )),
            final(self).input_class() == old(self).input_class(),
            r is Some ==> final(self).inputs() == inputs@ && final(self).input_device_classes()
                == input_device_classes@ && command_view(r->0) == CommandView::SeqSet(
                restore_seqs(inputs@, clusters_of(inputs@, old(self).input_class())),
            ),
            r is None ==> final(self).inputs() == old(self).inputs() && final(self).input_device_classes()
                == old(self).input_device_classes(),
    {
        if inputs_eq(&self.inputs, &inputs) && classes_eq(&self.input_device_classes, &input_device_classes) {
            return None;
        }
        let class = self.class;
        let clusters = build_clusters(&inputs, class);
        let codes = build_codes(&input_device_classes);
        proof {
            assert(inputs@.len() == inputs.len());
            lemma_clusters_in_bounds(inputs@, class);
            assert forall|k: int| 0 <= k < clusters.len() implies cluster_in_bounds(
                #[trigger] clusters@[k]@,
                inputs.len() as int,
            ) by {
                assert(clusters_view(clusters@)[k] == clusters@[k]@);
            }
        }
        let command = build_restore_defaults_command(&inputs, &clusters);
        *self = InputDialogModel { class, inputs, input_device_classes, clusters, codes };
        Some(command)
    }

    /// The number of rows.
    pub fn row_count(&self) -> (r: usize)
        ensures
            r == clusters_of(self.inputs(), self.input_class()).len(),
    {
        proof {
            use_type_invariant(self);
        }
        self.clusters.len()
    }

    /// What row `row` shows: its name, the text of its sequences described with the codes
    /// of the host's devices, and what choosing it does; `None` past the last row.
    pub fn row_data(&self, row: usize) -> (r: Option<InputDialogEntry>)
        ensures
            r is None <==> row >= clusters_of(self.inputs(), self.input_class()).len(),
            r matches Some(e) ==> ({
                let c = clusters_of(self.inputs(), self.input_class())[row as int];
                &&& e.name@ == cluster_name(self.inputs(), c)
                &&& e.text@ == code_text(self.inputs(), cluster_seqs(c), codes_of(self.input_device_classes()))
                &&& command_view(e.primary_command) == primary_command(self.inputs(), c)
            }),
    {
        proof {
            use_type_invariant(self);
        }
        if row >= self.clusters.len() {
            return None;
        }
        proof {
            assert(self.inputs@.len() == self.inputs.len());
            lemma_clusters_in_bounds(self.inputs@, self.class);
            assert(clusters_view(self.clusters@)[row as int] == self.clusters@[row as int]@);
        }
        let cluster = &self.clusters[row];
        let name = input_cluster_name(self.inputs.as_slice(), cluster);
        let text = input_cluster_code_text(self.inputs.as_slice(), cluster, &self.codes);
        let primary_command = match cluster {
            InputCluster::Single(i) => InputCommand::SeqPollDialog {
                port_tag: self.inputs[*i].port_tag.clone(),
                mask: self.inputs[*i].mask,
                seq_type: SeqType::Standard,
                poll_type: crate::dialogs::seqpoll::SeqPollDialogType::Specify,
            },
            InputCluster::Xy { x_input_index, y_input_index, .. } => {
                let x_input = match x_input_index {
                    Some(i) => Some((self.inputs[*i].port_tag.clone(), self.inputs[*i].mask)),
                    None => None,
                };
                let y_input = match y_input_index {
                    Some(i) => Some((self.inputs[*i].port_tag.clone(), self.inputs[*i].mask)),
                    None => None,
                };
                InputCommand::InputXyDialog { x_input, y_input }
            },
        };
        Some(InputDialogEntry { name, text, primary_command })
    }
}

} // verus!
