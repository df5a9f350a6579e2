//! The devices and images of a machine, as the devices and images dialog lists them.
//!
//! The list holds one entry per slot and one per image device, sorted by tag.  An
//! image device is listed under the first slot (in the order in which the slots are
//! walked) whose tag and a colon start the image's tag, with no further colon
//! after them; images under no slot are listed at the top level.
use crate::mconfig::config_wf;
use crate::mconfig::slot_tag;
use crate::mconfig::slot_wf;
use crate::mconfig::ConfigView;
use crate::mconfig::MachineConfig;
use crate::mconfig::SlotView;
use crate::text::chars_of;
use crate::text::opt_view;
use crate::text::lemma_seq_lt_asym;
use crate::text::lemma_seq_lt_total;
use crate::text::lemma_seq_lt_trans;
use crate::text::seq_lt;
use crate::text::str_lt;
use vstd::prelude::*;

verus! {

broadcast use vstd::seq_lib::to_multiset_build, vstd::seq_lib::to_multiset_insert;

/// What an entry is: a slot with the index of its chosen option, or an image device
/// with the file loaded.
#[derive(Debug)]
pub enum InternalEntryDetails {
    Slot { current_option_index: Option<usize> },
    Image { filename: Option<String> },
}

/// An entry of the list: its full tag, where its own part of the tag starts, its
/// depth, and what it is.
#[derive(Debug)]
pub struct InternalEntry {
    pub tag: String,
    pub subtag_start: usize,
    pub indent: usize,
    pub details: InternalEntryDetails,
}

/// What an entry is, with its strings taken by their characters.
pub enum DetailsView {
    Slot { current: Option<nat> },
    Image { filename: Option<Seq<char>> },
}

/// An entry, with its strings taken by their characters.
pub struct EntryView {
    pub tag: Seq<char>,
    pub subtag_start: nat,
    pub indent: nat,
    pub details: DetailsView,
}

impl View for InternalEntryDetails {
    type V = DetailsView;

    open spec fn view(&self) -> DetailsView {
        match self {
            InternalEntryDetails::Slot { current_option_index } => DetailsView::Slot {
                current: match current_option_index {
                    Some(i) => Some(*i as nat),
                    None => None,
                },
            },
            InternalEntryDetails::Image { filename } => DetailsView::Image {
                filename: opt_view(*filename),
            },
        }
    }
}

impl View for InternalEntry {
    type V = EntryView;

    open spec fn view(&self) -> EntryView {
        EntryView {
            tag: self.tag@,
            subtag_start: self.subtag_start as nat,
            indent: self.indent as nat,
            details: self.details@,
        }
    }
}

/// The entries, each taken by its view.
pub open spec fn entries_view(es: Seq<InternalEntry>) -> Seq<EntryView> {
    es.map_values(|e: InternalEntry| e@)
}

/// Images given as (tag, file loaded) pairs, taken by their characters.
pub open spec fn images_view(images: Seq<(String, Option<String>)>) -> Seq<
    (Seq<char>, Option<Seq<char>>),
> {
    images.map_values(|i: (String, Option<String>)| (i.0@, opt_view(i.1)))
}

/// The start of the tags of the images right under a slot: the slot's tag and a colon.
pub open spec fn slot_prefix(s: SlotView) -> Seq<char> {
    slot_tag(s).push(':')
}

/// Whether the image `tag` lies right under the tag prefix `prefix`: it starts with
/// it, and no colon follows.
pub open spec fn image_under(prefix: Seq<char>, tag: Seq<char>) -> bool {
    &&& prefix.len() <= tag.len()
    &&& tag.take(prefix.len() as int) == prefix
    &&& !tag.skip(prefix.len() as int).contains(':')
}

/// The first slot, from index `k` on, that the image `tag` lies right under.
pub open spec fn parent_from(slots: Seq<SlotView>, tag: Seq<char>, k: int) -> Option<int>
    decreases slots.len() - k,
{
    if k < 0 || k >= slots.len() {
        None
    } else if image_under(slot_prefix(slots[k]), tag) {
        Some(k)
    } else {
        parent_from(slots, tag, k + 1)
    }
}

/// The entry of a slot.
pub open spec fn slot_entry(s: SlotView) -> EntryView {
    EntryView {
        tag: slot_tag(s),
        subtag_start: s.base_tag.len(),
        indent: s.indent,
        details: DetailsView::Slot { current: s.current },
    }
}

/// The entry of an image: under its parent slot, one level deeper than it, with its
/// own part of the tag after the slot's prefix; at the top level when it has no
/// parent.
pub open spec fn image_entry(slots: Seq<SlotView>, image: (Seq<char>, Option<Seq<char>>)) -> EntryView {
    match parent_from(slots, image.0, 0) {
        Some(k) => EntryView {
            tag: image.0,
            subtag_start: slot_prefix(slots[k]).len(),
            indent: slots[k].indent + 1,
            details: DetailsView::Image { filename: image.1 },
        },
        None => EntryView {
            tag: image.0,
            subtag_start: 0,
            indent: 0,
            details: DetailsView::Image { filename: image.1 },
        },
    }
}

/// The entries of a configuration's slots and of the images, before sorting.
pub open spec fn unsorted_entries(
    slots: Seq<SlotView>,
    images: Seq<(Seq<char>, Option<Seq<char>>)>,
) -> Seq<EntryView> {
    slots.map_values(|s: SlotView| slot_entry(s)) + images.map_values(
        |i: (Seq<char>, Option<Seq<char>>)| image_entry(slots, i),
    )
}

/// Entries sorted by tag, in code point order.
pub open spec fn sorted_by_tag(es: Seq<EntryView>) -> bool {
    forall|i: int, j: int| 0 <= i < j < es.len() ==> !seq_lt(#[trigger] es[j].tag, #[trigger] es[i].tag)
}

/// Whether entry `i` of `u` comes before entry `j` once sorted by tag: by tag, and in
/// the order of `u` where tags are equal.
pub open spec fn tag_before(u: Seq<EntryView>, i: int, j: int) -> bool {
    seq_lt(u[i].tag, u[j].tag) || (u[i].tag == u[j].tag && i < j)
}

/// Whether `es` is `u` sorted by tag, keeping the order of entries with equal tags:
/// `order` says where in `u` each entry of `es` stands. As `tag_before` is a strict
/// total order, only one such arrangement exists.
pub open spec fn stably_sorted_from(es: Seq<EntryView>, u: Seq<EntryView>, order: Seq<int>) -> bool {
    &&& order.len() == es.len()
    &&& es.len() == u.len()
    &&& forall|k: int| 0 <= k < order.len() ==> 0 <= #[trigger] order[k] < u.len() && es[k] == u[order[k]]
    &&& forall|a: int, b: int| 0 <= a < b < order.len() ==> tag_before(u, #[trigger] order[a], #[trigger] order[b])
}

/// The entries listed for a configuration and images: those of the slots and of the
/// images, sorted by tag, keeping the order of entries with equal tags.
pub open spec fn listed_entries(
    es: Seq<EntryView>,
    slots: Seq<SlotView>,
    images: Seq<(Seq<char>, Option<Seq<char>>)>,
) -> bool {
    &&& sorted_by_tag(es)
    &&& es.to_multiset() == unsorted_entries(slots, images).to_multiset()
    &&& exists|order: Seq<int>| stably_sorted_from(es, unsorted_entries(slots, images), order)
}

/// Every slot entry names a slot of the configuration, and every entry's own part of
/// the tag starts within the tag.
pub open spec fn entries_fit(es: Seq<EntryView>, slots: Seq<SlotView>) -> bool {
    forall|i: int|
        0 <= i < es.len() ==> {
            &&& #[trigger] es[i].subtag_start <= es[i].tag.len()
            &&& es[i].details is Slot ==> exists|k: int|
                0 <= k < slots.len() && slot_entry(slots[k]) == es[i]
        }
}

proof fn lemma_parent_from(slots: Seq<SlotView>, tag: Seq<char>, k: int)
    requires
        0 <= k <= slots.len(),
    ensures
        parent_from(slots, tag, k) matches Some(p) ==> k <= p < slots.len() && image_under(
            slot_prefix(slots[p]),
            tag,
        ),
    decreases slots.len() - k,
{
    if k < slots.len() {
        lemma_parent_from(slots, tag, k + 1);
    }
}

fn copy_string(s: &String) -> (r: String)
    ensures
        r@ == s@,
{
    s.clone()
}

fn copy_opt_string(s: &Option<String>) -> (r: Option<String>)
    ensures
        opt_view(r) == opt_view(*s),
{
    match s {
        Some(x) => Some(copy_string(x)),
        None => None,
    }
}

/// Whether the image `tag` lies right under `prefix`.
fn is_image_under(prefix: &Vec<char>, tag: &Vec<char>) -> (r: bool)
    ensures
        r == image_under(prefix@, tag@),
{
    if prefix.len() > tag.len() {
        return false;
    }
    for i in 0..prefix.len()
        invariant
            prefix.len() <= tag.len(),
            forall|k: int| 0 <= k < i ==> tag@[k] == prefix@[k],
    {
        if tag[i] != prefix[i] {
            assert(tag@.take(prefix.len() as int)[i as int] != prefix@[i as int]);
            return false;
        }
    }
    assert(tag@.take(prefix.len() as int) =~= prefix@);
    let mut j: usize = prefix.len();
    while j < tag.len()
        invariant
            prefix.len() <= j <= tag.len(),
            forall|k: int| prefix.len() <= k < j ==> tag@[k] != ':',
        decreases tag.len() - j,
    {
        if tag[j] == ':' {
            assert(tag@.skip(prefix.len() as int)[j - prefix.len()] == ':');
            return false;
        }
        j = j + 1;
    }
    assert forall|c: char| tag@.skip(prefix.len() as int).contains(c) implies c != ':' by {
        let k = choose|k: int|
            0 <= k < tag@.skip(prefix.len() as int).len() && tag@.skip(prefix.len() as int)[k]
                == c;
        assert(tag@[k + prefix.len()] == c);
    }
    true
}

fn slot_entry_exec(config: &MachineConfig, k: usize) -> (r: InternalEntry)
    requires
        k < config.slots.len(),
    ensures
        r@ == slot_entry(config@.slots[k as int]),
{
    let slot = &config.slots[k];
    let tag = slot.tag();
    let base = chars_of(slot.base_tag.as_str());
    InternalEntry {
        tag,
        subtag_start: base.len(),
        indent: slot.indent,
        details: InternalEntryDetails::Slot { current_option_index: slot.current_option_index },
    }
}

fn image_entry_exec(config: &MachineConfig, tag: &String, filename: &Option<String>) -> (r:
    InternalEntry)
    requires
        config_wf(config@),
    ensures
        r@ == image_entry(config@.slots, (tag@, opt_view(*filename))),
{
    let ghost slots = config@.slots;
    let tag_chars = chars_of(tag.as_str());
    let mut k: usize = 0;
    while k < config.slots.len()
        invariant
            slots == config@.slots,
            config_wf(config@),
            k <= config.slots.len(),
            tag_chars@ == tag@,
            parent_from(slots, tag@, 0) == parent_from(slots, tag@, k as int),
        decreases config.slots.len() - k,
    {
        assert(slot_wf(slots[k as int]));
        let mut prefix = chars_of(config.slots[k].tag().as_str());
        prefix.push(':');
        if is_image_under(&prefix, &tag_chars) {
            return InternalEntry {
                tag: copy_string(tag),
                subtag_start: prefix.len(),
                indent: config.slots[k].indent + 1,
                details: InternalEntryDetails::Image { filename: copy_opt_string(filename) },
            };
        }
        k = k + 1;
    }
    InternalEntry {
        tag: copy_string(tag),
        subtag_start: 0,
        indent: 0,
        details: InternalEntryDetails::Image { filename: copy_opt_string(filename) },
    }
}

proof fn lemma_sorted_insert(s: Seq<EntryView>, p: int, x: EntryView)
    requires
        0 <= p <= s.len(),
        sorted_by_tag(s),
        forall|q: int| 0 <= q < p ==> !seq_lt(x.tag, #[trigger] s[q].tag),
        p < s.len() ==> seq_lt(x.tag, s[p].tag),
    ensures
        sorted_by_tag(s.insert(p, x)),
{
    let t = s.insert(p, x);
    assert forall|i: int, j: int| 0 <= i < j < t.len() implies !seq_lt(
        #[trigger] t[j].tag,
        #[trigger] t[i].tag,
    ) by {
        if i < p && j == p {
            lemma_seq_lt_total(x.tag, s[i].tag);
            lemma_seq_lt_asym(s[i].tag, x.tag);
        } else if i == p && j > p {
            // s[p] <= s[j - 1], and x < s[p]
            if j - 1 == p {
                lemma_seq_lt_asym(x.tag, s[p].tag);
            } else {
                lemma_seq_lt_total(s[p].tag, s[j - 1].tag);
                if seq_lt(s[p].tag, s[j - 1].tag) {
                    lemma_seq_lt_trans(x.tag, s[p].tag, s[j - 1].tag);
                }
                lemma_seq_lt_asym(x.tag, s[j - 1].tag);
            }
        } else if i < p && j > p {
            assert(t[i] == s[i]);
            assert(t[j] == s[j - 1]);
        } else if j < p {
            assert(t[i] == s[i]);
            assert(t[j] == s[j]);
        } else {
            assert(t[i] == s[i - 1]);
            assert(t[j] == s[j - 1]);
        }
    }
}

proof fn lemma_stable_insert(u: Seq<EntryView>, s: Seq<EntryView>, order: Seq<int>, i: int, p: int)
    requires
        0 <= i < u.len(),
        order.len() == s.len(),
        0 <= p <= s.len(),
        forall|k: int| 0 <= k < order.len() ==> 0 <= #[trigger] order[k] < i && s[k] == u[order[k]],
        forall|a: int, b: int| 0 <= a < b < order.len() ==> tag_before(u, #[trigger] order[a], #[trigger] order[b]),
        forall|q: int| 0 <= q < p ==> !seq_lt(u[i].tag, #[trigger] s[q].tag),
        p < s.len() ==> seq_lt(u[i].tag, s[p].tag),
    ensures
        forall|k: int|
            0 <= k < order.len() + 1 ==> 0 <= #[trigger] order.insert(p, i)[k] < i + 1 && s.insert(p, u[i])[k]
                == u[order.insert(p, i)[k]],
        forall|a: int, b: int|
            0 <= a < b < order.len() + 1 ==> tag_before(u, #[trigger] order.insert(p, i)[a], #[trigger] order.insert(p, i)[b]),
{
    let o = order.insert(p, i);
    let t = s.insert(p, u[i]);
    assert forall|k: int| 0 <= k < order.len() + 1 implies 0 <= #[trigger] o[k] < i + 1 && t[k] == u[o[k]] by {
        if k < p {
            assert(o[k] == order[k]);
        } else if k > p {
            assert(o[k] == order[k - 1]);
        }
    }
    assert forall|a: int, b: int| 0 <= a < b < order.len() + 1 implies tag_before(u, #[trigger] o[a], #[trigger] o[b]) by {
        if b == p {
            assert(o[a] == order[a]);
            assert(s[a] == u[order[a]]);
            lemma_seq_lt_total(u[order[a]].tag, u[i].tag);
        } else if a == p {
            assert(o[b] == order[b - 1]);
            let y = u[i].tag;
            let first = u[order[p]].tag;
            assert(s[p] == u[order[p]]);
            if b - 1 == p {
                assert(seq_lt(y, first));
            } else {
                assert(tag_before(u, order[p], order[b - 1]));
                let z = u[order[b - 1]].tag;
                if seq_lt(first, z) {
                    lemma_seq_lt_trans(y, first, z);
                }
            }
        } else if a < p && b > p {
            assert(o[a] == order[a]);
            assert(o[b] == order[b - 1]);
        } else if b < p {
            assert(o[a] == order[a]);
            assert(o[b] == order[b]);
        } else {
            assert(o[a] == order[a - 1]);
            assert(o[b] == order[b - 1]);
        }
    }
}

/// Sorts the entries by tag, keeping the order of entries with equal tags.
fn sort_entries(unsorted: Vec<InternalEntry>) -> (r: Vec<InternalEntry>)
    ensures
        sorted_by_tag(entries_view(r@)),
        entries_view(r@).to_multiset() == entries_view(unsorted@).to_multiset(),
        exists|order: Seq<int>| stably_sorted_from(entries_view(r@), entries_view(unsorted@), order),
{
    let ghost u = entries_view(unsorted@);
    let mut sorted: Vec<InternalEntry> = Vec::new();
    let mut rest = unsorted;
    // take entries from the back of `rest`, so the reversed walk keeps equal tags in order
    let mut items: Vec<InternalEntry> = Vec::new();
    while rest.len() > 0
        invariant
            u == entries_view(unsorted@),
            entries_view(rest@) + entries_view(items@).reverse() == u,
        decreases rest.len(),
    {
        let e = rest.pop().unwrap();
        items.push(e);
        assert(entries_view(rest@) + entries_view(items@).reverse() =~= u);
    }
    assert(entries_view(items@).reverse() =~= u);
    assert(entries_view(sorted@) =~= Seq::<EntryView>::empty());
    assert(u.take(0) =~= Seq::<EntryView>::empty());
    assert(u.skip(0) =~= u);
    let n = items.len();
    let mut i: usize = 0;
    let ghost mut order: Seq<int> = Seq::empty();
    while items.len() > 0
        invariant
            u == entries_view(unsorted@),
            i + items.len() == n,
            n == u.len(),
            entries_view(items@).reverse() == u.skip(i as int),
            sorted_by_tag(entries_view(sorted@)),
            entries_view(sorted@).to_multiset() == u.take(i as int).to_multiset(),
            order.len() == sorted.len(),
            sorted.len() == i,
            forall|k: int| 0 <= k < order.len() ==> 0 <= #[trigger] order[k] < i && entries_view(sorted@)[k] == u[order[k]],
            forall|a: int, b: int| 0 <= a < b < order.len() ==> tag_before(u, #[trigger] order[a], #[trigger] order[b]),
        decreases items.len(),
    {
        let ghost before_items = entries_view(items@);
        let x = items.pop().unwrap();
        proof {
            assert(before_items.reverse()[0] == before_items.last());
            assert(entries_view(items@) =~= before_items.drop_last());
            assert(entries_view(items@).reverse() =~= before_items.reverse().drop_first());
            assert(u.skip(i as int)[0] == u[i as int]);
            assert(u.skip(i as int).drop_first() =~= u.skip(i + 1));
            assert(u.take(i + 1) =~= u.take(i as int).push(u[i as int]));
        }
        let mut p: usize = 0;
        while p < sorted.len()
            invariant
                p <= sorted.len(),
                forall|q: int| 0 <= q < p ==> !seq_lt(x.tag@, #[trigger] entries_view(sorted@)[q].tag),
            ensures
                p <= sorted.len(),
                forall|q: int| 0 <= q < p ==> !seq_lt(x.tag@, #[trigger] entries_view(sorted@)[q].tag),
                p < sorted.len() ==> seq_lt(x.tag@, entries_view(sorted@)[p as int].tag),
            decreases sorted.len() - p,
        {
            if str_lt(x.tag.as_str(), sorted[p].tag.as_str()) {
                break;
            }
            p = p + 1;
        }
        let ghost sv = entries_view(sorted@);
        proof {
            if p < sorted.len() {
                assert(seq_lt(x.tag@, sv[p as int].tag));
            }
            lemma_sorted_insert(sv, p as int, x@);
            assert(x@ == u[i as int]);
            lemma_stable_insert(u, sv, order, i as int, p as int);
            order = order.insert(p as int, i as int);
        }
        sorted.insert(p, x);
        assert(entries_view(sorted@) =~= sv.insert(p as int, x@));
        i = i + 1;
    }
    assert(u.take(n as int) =~= u);
    assert(stably_sorted_from(entries_view(sorted@), u, order));
    sorted
}

proof fn lemma_unsorted_fit(slots: Seq<SlotView>, images: Seq<(Seq<char>, Option<Seq<char>>)>)
    ensures
        entries_fit(unsorted_entries(slots, images), slots),
{
    let u = unsorted_entries(slots, images);
    let n = slots.len();
    assert forall|i: int| 0 <= i < u.len() implies {
        &&& #[trigger] u[i].subtag_start <= u[i].tag.len()
        &&& u[i].details is Slot ==> exists|k: int|
            0 <= k < slots.len() && slot_entry(slots[k]) == u[i]
    } by {
        if i < n {
            assert(u[i] == slot_entry(slots[i]));
        } else {
            let img = images[i - n];
            assert(u[i] == image_entry(slots, img));
            lemma_parent_from(slots, img.0, 0);
        }
    }
}

proof fn lemma_fit_by_multiset(es: Seq<EntryView>, u: Seq<EntryView>, slots: Seq<SlotView>)
    requires
        entries_fit(u, slots),
        es.to_multiset() == u.to_multiset(),
    ensures
        entries_fit(es, slots),
{
    broadcast use vstd::seq_lib::to_multiset_contains;

    assert forall|i: int| 0 <= i < es.len() implies {
        &&& #[trigger] es[i].subtag_start <= es[i].tag.len()
        &&& es[i].details is Slot ==> exists|k: int|
            0 <= k < slots.len() && slot_entry(slots[k]) == es[i]
    } by {
        assert(es.contains(es[i]));
        assert(es.to_multiset().count(es[i]) > 0);
        assert(u.contains(es[i]));
        let j = choose|j: int| 0 <= j < u.len() && u[j] == es[i];
        assert(u[j].subtag_start <= u[j].tag.len());
    }
}

/// The entries listed for a configuration and images: one per slot and one per
/// image, sorted by tag.
fn build_entries(config: &MachineConfig, images: &Vec<(String, Option<String>)>) -> (r: Vec<
    InternalEntry,
>)
    requires
        config_wf(config@),
    ensures
        listed_entries(entries_view(r@), config@.slots, images_view(images@)),
        entries_fit(entries_view(r@), config@.slots),
{
    let ghost slots = config@.slots;
    let ghost imgs = images_view(images@);
    let mut unsorted: Vec<InternalEntry> = Vec::new();
    for k in 0..config.slots.len()
        invariant
            slots == config@.slots,
            entries_view(unsorted@) == slots.take(k as int).map_values(|s: SlotView| slot_entry(s)),
    {
        let ghost before = unsorted@;
        let e = slot_entry_exec(config, k);
        unsorted.push(e);
        assert(unsorted@ == before.push(e));
        assert(entries_view(unsorted@) =~= entries_view(before).push(e@));
        assert(slots.take(k + 1).map_values(|s: SlotView| slot_entry(s)) =~= slots.take(
            k as int,
        ).map_values(|s: SlotView| slot_entry(s)).push(slot_entry(slots[k as int])));
        assert(entries_view(unsorted@) =~= slots.take(k + 1).map_values(
            |s: SlotView| slot_entry(s),
        ));
    }
    assert(slots.take(slots.len() as int) =~= slots);
    let ghost slot_part = entries_view(unsorted@);
    for j in 0..images.len()
        invariant
            slots == config@.slots,
            config_wf(config@),
            imgs == images_view(images@),
            slot_part == slots.map_values(|s: SlotView| slot_entry(s)),
            entries_view(unsorted@) == slot_part + imgs.take(j as int).map_values(
                |i: (Seq<char>, Option<Seq<char>>)| image_entry(slots, i),
            ),
    {
        let e = image_entry_exec(config, &images[j].0, &images[j].1);
        let ghost before = unsorted@;
        unsorted.push(e);
        assert(imgs[j as int] == (images@[j as int].0@, opt_view(images@[j as int].1)));
        assert(entries_view(unsorted@) =~= entries_view(before).push(e@));
        assert(imgs.take(j + 1).map_values(
            |i: (Seq<char>, Option<Seq<char>>)| image_entry(slots, i),
        ) =~= imgs.take(j as int).map_values(
            |i: (Seq<char>, Option<Seq<char>>)| image_entry(slots, i),
        ).push(image_entry(slots, imgs[j as int])));
        assert(entries_view(unsorted@) =~= slot_part + imgs.take(j + 1).map_values(
            |i: (Seq<char>, Option<Seq<char>>)| image_entry(slots, i),
        ));
    }
    assert(imgs.take(images.len() as int) =~= imgs);
    assert(entries_view(unsorted@) =~= unsorted_entries(slots, imgs));
    let r = sort_entries(unsorted);
    proof {
        lemma_unsorted_fit(slots, imgs);
        lemma_fit_by_multiset(entries_view(r@), unsorted_entries(slots, imgs), slots);
    }
    r
}

/// A machine's clean slot configuration, and the one with unsaved changes, if any.
#[derive(Debug)]
pub struct MachineConfigPair {
    pub clean: MachineConfig,
    pub dirty: Option<MachineConfig>,
}

/// An optional configuration, taken by its view.
pub open spec fn opt_config_view(c: Option<MachineConfig>) -> Option<ConfigView> {
    match c {
        Some(m) => Some(m@),
        None => None,
    }
}

impl MachineConfigPair {
    /// The configuration in effect: the changed one if there is one, else the clean one.
    pub open spec fn current_view(&self) -> ConfigView {
        match self.dirty {
            Some(d) => d@,
            None => self.clean@,
        }
    }

    /// Both configurations are well formed.
    pub open spec fn pair_wf(&self) -> bool {
        &&& config_wf(self.clean@)
        &&& self.dirty matches Some(d) ==> config_wf(d@)
    }

    /// The configuration in effect.
    pub fn current_config(&self) -> (r: &MachineConfig)
        ensures
            r@ == self.current_view(),
    {
        match &self.dirty {
            Some(d) => d,
            None => &self.clean,
        }
    }

    fn copy(&self) -> (r: MachineConfigPair)
        ensures
            r.clean@ == self.clean@,
            opt_config_view(r.dirty) == opt_config_view(self.dirty),
    {
        MachineConfigPair {
            clean: self.clean.copy(),
            dirty: match &self.dirty {
                Some(d) => Some(d.copy()),
                None => None,
            },
        }
    }
}

/// The listed entries and the configurations they were made from.
#[derive(Debug)]
struct DevicesImagesConfigCore {
    machine_configs: MachineConfigPair,
    entries: Vec<InternalEntry>,
}

/// The devices and images of the running machine, or of the machine being
/// configured, with the user's unsaved slot changes.
#[derive(Debug)]
pub struct DevicesImagesConfig {
    core: Option<DevicesImagesConfigCore>,
}

/// An option of a slot as the dialog lists it: its name and the description of the
/// device it plugs in; both absent for the "no option" choice.
#[derive(Debug)]
pub struct EntryOption {
    pub name: Option<String>,
    pub description: Option<String>,
}

/// What a listed entry is: a slot with its choices (the "no option" choice first)
/// and the index of the chosen one, or an image device with the file loaded.
#[derive(Debug)]
pub enum EntryDetails {
    Slot { options: Vec<EntryOption>, current_option_index: usize },
    Image { filename: Option<String> },
}

/// An entry as the dialog lists it: the full tag, the entry's own part of it, its
/// depth, and what it is.
#[derive(Debug)]
pub struct Entry {
    pub tag: String,
    pub subtag: String,
    pub indent: usize,
    pub details: EntryDetails,
}

/// No two slots have the same full tag.
pub open spec fn slot_tags_distinct(slots: Seq<SlotView>) -> bool {
    forall|a: int, b: int|
        0 <= a < b < slots.len() ==> slot_tag(#[trigger] slots[a]) != slot_tag(#[trigger] slots[b])
}

/// The choices listed for a slot: "no option", then each of its options with the
/// description of its device.
pub open spec fn slot_choices(s: SlotView) -> Seq<(Option<Seq<char>>, Option<Seq<char>>)> {
    seq![(None::<Seq<char>>, None::<Seq<char>>)] + Seq::new(
        s.option_names.len(),
        |i: int| (Some(s.option_names[i]), Some(s.option_descriptions[i])),
    )
}

/// The listed choices, taken by their characters.
pub open spec fn choices_view(options: Seq<EntryOption>) -> Seq<(Option<Seq<char>>, Option<Seq<char>>)> {
    options.map_values(|o: EntryOption| (opt_view(o.name), opt_view(o.description)))
}

/// The images of the entries, as (tag, file loaded) pairs, in order.
pub open spec fn entry_images(es: Seq<EntryView>) -> Seq<(Seq<char>, Option<Seq<char>>)>
    decreases es.len(),
{
    if es.len() == 0 {
        Seq::empty()
    } else {
        let rest = entry_images(es.drop_last());
        match es.last().details {
            DetailsView::Image { filename } => rest.push((es.last().tag, filename)),
            DetailsView::Slot { .. } => rest,
        }
    }
}

/// Whether two entries differ in tag or in what they are.
pub open spec fn entry_changed(a: EntryView, b: EntryView) -> bool {
    a.tag != b.tag || a.details != b.details
}

/// The indexes below `n` at which the entries differ.
pub open spec fn differing_rows(a: Seq<EntryView>, b: Seq<EntryView>, n: int) -> Seq<int>
    decreases n,
{
    if n <= 0 {
        Seq::empty()
    } else {
        let rest = differing_rows(a, b, n - 1);
        if entry_changed(a[n - 1], b[n - 1]) {
            rest.push(n - 1)
        } else {
            rest
        }
    }
}

/// The rows that changed between two lists: `None` when their lengths differ, else
/// the indexes at which the entries differ.
pub open spec fn changed_rows(a: Seq<EntryView>, b: Seq<EntryView>) -> Option<Seq<int>> {
    if a.len() != b.len() {
        None
    } else {
        Some(differing_rows(a, b, a.len() as int))
    }
}

/// A slot of the running machine, with its strings taken by their characters: its
/// tag, whether its option can be chosen, and the chosen option's name.
pub struct StatusSlotView {
    pub name: Seq<char>,
    pub selectable: bool,
    pub current_name: Option<Seq<char>>,
}

/// The view of a slot of the running machine.
pub open spec fn status_slot_view(s: crate::status::StatusSlot) -> StatusSlotView {
    StatusSlotView {
        name: s.name@,
        selectable: s.has_selectable_options,
        current_name: match s.current_option {
            Some(x) => Some(s.options@[x as int].name@),
            None => None,
        },
    }
}

/// A reported slot whose option can be chosen names one of its options, if any.
pub open spec fn status_slot_wf(s: crate::status::StatusSlot) -> bool {
    s.has_selectable_options ==> (s.current_option matches Some(x) ==> x < s.options.len())
}

/// The configuration after applying the reported choices of the selectable slots, in
/// order, to `clean`: `Ok(None)` when none changes anything, `Ok(Some(c))` for the
/// last configuration that a change produced, an error when a slot or option is
/// unknown.  Each change applies to the last configuration produced, or to `clean`.
pub open spec fn apply_status_slots(clean: ConfigView, slots: Seq<StatusSlotView>) -> Result<
    Option<ConfigView>,
    crate::mconfig::MachineConfigError,
>
    decreases slots.len(),
{
    if slots.len() == 0 {
        Ok(None)
    } else {
        match apply_status_slots(clean, slots.drop_last()) {
            Err(e) => Err(e),
            Ok(c) => {
                let s = slots.last();
                if !s.selectable {
                    Ok(c)
                } else {
                    let base = match c {
                        Some(x) => x,
                        None => clean,
                    };
                    match crate::mconfig::with_slot_option(base, s.name, s.current_name) {
                        Err(e) => Err(e),
                        Ok(Some(n)) => Ok(Some(n)),
                        Ok(None) => Ok(c),
                    }
                }
            },
        }
    }
}

/// The index of the first configuration for the machine `name`.
pub open spec fn find_machine(machines: Seq<MachineConfig>, name: Seq<char>) -> Option<int> {
    crate::mconfig::index_from(machines.map_values(|m: MachineConfig| m@.machine_name), name, 0)
}

impl DevicesImagesConfig {
    #[verifier::type_invariant]
    spec fn inv(self) -> bool {
        match self.core {
            None => true,
            Some(c) => {
                &&& c.machine_configs.pair_wf()
                &&& entries_fit(entries_view(c.entries@), c.machine_configs.current_view().slots)
            },
        }
    }

    /// The clean configuration and the changed one, if any; `None` when no machine is
    /// configured.
    pub closed spec fn configs(&self) -> Option<(ConfigView, Option<ConfigView>)> {
        match self.core {
            Some(c) => Some((c.machine_configs.clean@, opt_config_view(c.machine_configs.dirty))),
            None => None,
        }
    }

    /// The listed entries, in order.
    pub closed spec fn entries(&self) -> Seq<EntryView> {
        match self.core {
            Some(c) => entries_view(c.entries@),
            None => Seq::empty(),
        }
    }

    /// The configuration in effect, if a machine is configured.
    pub open spec fn current(&self) -> Option<ConfigView> {
        match self.configs() {
            Some((c, Some(d))) => Some(d),
            Some((c, None)) => Some(c),
            None => None,
        }
    }

    /// Nothing configured, and nothing listed.
    pub fn new() -> (r: Self)
        ensures
            r.configs() is None,
            r.entries() == Seq::<EntryView>::empty(),
    {
        DevicesImagesConfig { core: None }
    }

    fn from_configs(machine_configs: MachineConfigPair, images: &Vec<(String, Option<String>)>) -> (r:
        Self)
        requires
            machine_configs.pair_wf(),
        ensures
            r.configs() == Some(
                (machine_configs.clean@, opt_config_view(machine_configs.dirty)),
            ),
            listed_entries(r.entries(), machine_configs.current_view().slots, images_view(images@)),
    {
        let entries = build_entries(machine_configs.current_config(), images);
        DevicesImagesConfig { core: Some(DevicesImagesConfigCore { machine_configs, entries }) }
    }

    /// The configuration of the machine `machine_name` among `machines`, with no
    /// changes and no images; nothing configured when no name is given.
    pub fn with_machine_name(machines: &Vec<MachineConfig>, machine_name: Option<&str>) -> (r: Self)
        requires
            forall|k: int| 0 <= k < machines.len() ==> config_wf(#[trigger] machines@[k]@),
            machine_name matches Some(n) ==> find_machine(machines@, n@) is Some,
        ensures
            machine_name is None ==> r.configs() is None && r.entries() == Seq::<EntryView>::empty(),
            machine_name matches Some(n) ==> {
                let k = find_machine(machines@, n@)->0;
                &&& r.configs() == Some((machines@[k]@, None::<ConfigView>))
                &&& listed_entries(
                    r.entries(),
                    machines@[k]@.slots,
                    Seq::<(Seq<char>, Option<Seq<char>>)>::empty(),
                )
            },
    {
        match machine_name {
            None => Self::new(),
            Some(n) => {
                let k = find_machine_exec(machines, n);
                let machine_configs = MachineConfigPair { clean: machines[k].copy(), dirty: None };
                let images: Vec<(String, Option<String>)> = Vec::new();
                assert(images_view(images@) =~= Seq::<(Seq<char>, Option<Seq<char>>)>::empty());
                Self::from_configs(machine_configs, &images)
            },
        }
    }

    /// Whether the user changed the configuration without saving it.
    pub fn is_dirty(&self) -> (r: bool)
        ensures
            r == (self.configs() matches Some((_, Some(_)))),
    {
        match &self.core {
            Some(c) => c.machine_configs.dirty.is_some(),
            None => false,
        }
    }

    /// The number of listed entries.
    pub fn entry_count(&self) -> (r: usize)
        ensures
            r == self.entries().len(),
    {
        match &self.core {
            Some(c) => c.entries.len(),
            None => 0,
        }
    }
}

fn find_machine_exec(machines: &Vec<MachineConfig>, name: &str) -> (r: usize)
    requires
        find_machine(machines@, name@) is Some,
    ensures
        r < machines.len(),
        find_machine(machines@, name@) == Some(r as int),
{
    let ghost names = machines@.map_values(|m: MachineConfig| m@.machine_name);
    let mut k: usize = 0;
    while k < machines.len()
        invariant
            names == machines@.map_values(|m: MachineConfig| m@.machine_name),
            k <= machines.len(),
            crate::mconfig::index_from(names, name@, 0) == crate::mconfig::index_from(
                names,
                name@,
                k as int,
            ),
        decreases machines.len() - k,
    {
        if crate::text::str_eq(machines[k].machine_name.as_str(), name) {
            return k;
        }
        k = k + 1;
    }
    k
}

/// How the dialog shows the entry `v` of the configuration `cfg`.
pub open spec fn entry_shown(e: Entry, v: EntryView, cfg: ConfigView) -> bool {
    &&& e.tag@ == v.tag
    &&& e.subtag@ == v.tag.skip(v.subtag_start as int)
    &&& e.indent == v.indent
    &&& match v.details {
        DetailsView::Image { filename } => e.details matches EntryDetails::Image { filename: f }
            && opt_view(f) == filename,
        DetailsView::Slot { current } => e.details matches EntryDetails::Slot {
            options,
            current_option_index,
        } && current_option_index == (match current {
            Some(i) => i + 1,
            None => 0,
        }) && choices_view(options@) == slot_choices(
            cfg.slots[crate::mconfig::find_slot(cfg.slots, v.tag)->0],
        ),
    }
}

fn slot_choices_exec(slot: &crate::mconfig::Slot) -> (r: Vec<EntryOption>)
    requires
        slot_wf(slot@),
    ensures
        choices_view(r@) == slot_choices(slot@),
{
    let mut r: Vec<EntryOption> = Vec::new();
    r.push(EntryOption { name: None, description: None });
    for i in 0..slot.options.len()
        invariant
            slot_wf(slot@),
            choices_view(r@) == slot_choices(slot@).take(i + 1),
    {
        let ghost before = r@;
        r.push(
            EntryOption {
                name: Some(copy_string(&slot.options[i].name)),
                description: Some(copy_string(&slot.options[i].description)),
            },
        );
        assert(choices_view(r@) =~= choices_view(before).push(
            (Some(slot@.option_names[i as int]), Some(slot@.option_descriptions[i as int])),
        ));
        assert(slot_choices(slot@).take(i + 2) =~= slot_choices(slot@).take(i + 1).push(
            slot_choices(slot@)[i + 1],
        ));
    }
    assert(slot_choices(slot@).take(slot.options.len() + 1) =~= slot_choices(slot@));
    r
}

impl DevicesImagesConfig {
    /// The entry at `index` as the dialog shows it; `None` past the end of the list.
    pub fn entry(&self, index: usize) -> (r: Option<Entry>)
        ensures
            r is None <==> index >= self.entries().len(),
            r matches Some(e) ==> entry_shown(e, self.entries()[index as int], self.current()->0),
            r matches Some(e) ==> e.subtag@.is_suffix_of(e.tag@),
            r matches Some(e) ==> (e.details matches EntryDetails::Slot { options, current_option_index }
                ==> {
                &&& options@.len() >= 1
                &&& options@[0].name is None
                &&& options@[0].description is None
                &&& slot_tags_distinct(self.current()->0.slots) ==> current_option_index < options@.len()
            }),
    {
        proof {
            use_type_invariant(self);
        }
        let core = match &self.core {
            Some(c) => c,
            None => {
                return None;
            },
        };
        if index >= core.entries.len() {
            return None;
        }
        let internal = &core.entries[index];
        let cfg = core.machine_configs.current_config();
        let ghost v = internal@;
        assert(v == entries_view(core.entries@)[index as int]);
        assert(v.subtag_start <= v.tag.len());
        let details = match &internal.details {
            InternalEntryDetails::Slot { current_option_index } => {
                let ghost slots = cfg@.slots;
                let ghost k0 = choose|k: int| 0 <= k < slots.len() && slot_entry(slots[k]) == v;
                proof {
                    let tags = slots.map_values(|s: SlotView| slot_tag(s));
                    assert(tags[k0] == v.tag);
                    crate::mconfig::lemma_index_from_found(tags, v.tag, k0, 0);
                    assert(slot_wf(slots[k0]));
                }
                let k = match cfg.lookup_tag(internal.tag.as_str()) {
                    Some(k) => k,
                    None => {
                        return None;
                    },
                };
                assert(slot_wf(cfg@.slots[k as int]));
                let options = slot_choices_exec(&cfg.slots[k]);
                let current: usize = match current_option_index {
                    Some(i) => *i + 1,
                    None => 0,
                };
                proof {
                    assert(choices_view(options@)[0] == slot_choices(cfg@.slots[k as int])[0]);
                    assert(choices_view(options@).len() == options@.len());
                    assert(slot_choices(cfg@.slots[k as int]).len() == 1 + cfg@.slots[k as int].option_names.len());
                    assert(options@.len() >= 1);
                    assert(options@[0].name is None);
                    assert(cfg@ == self.current()->0);
                    if slot_tags_distinct(cfg@.slots) {
                        assert(slot_tag(cfg@.slots[k as int]) == v.tag);
                        assert(k as int == k0);
                        assert(v.details == DetailsView::Slot { current: cfg@.slots[k0].current });
                        assert(current < options@.len());
                    }
                }
                EntryDetails::Slot { options, current_option_index: current }
            },
            InternalEntryDetails::Image { filename } => EntryDetails::Image {
                filename: copy_opt_string(filename),
            },
        };
        let chars = chars_of(internal.tag.as_str());
        let sub = crate::text::sub_vec(&chars, internal.subtag_start, chars.len());
        assert(sub@ =~= v.tag.skip(v.subtag_start as int));
        assert(v.tag.skip(v.subtag_start as int) =~= v.tag.subrange(
            (v.tag.len() - v.tag.skip(v.subtag_start as int).len()) as int,
            v.tag.len() as int,
        ));
        Some(
            Entry {
                tag: copy_string(&internal.tag),
                subtag: crate::text::string_from_chars(&sub),
                indent: internal.indent,
                details,
            },
        )
    }
}

/// The reported images, as (tag, file loaded) pairs.
pub open spec fn status_images_view(images: Seq<crate::status::StatusImage>) -> Seq<
    (Seq<char>, Option<Seq<char>>),
> {
    images.map_values(|i: crate::status::StatusImage| (i.tag@, opt_view(i.filename)))
}

/// The reported slots, taken by their views.
pub open spec fn status_slots_view(slots: Seq<crate::status::StatusSlot>) -> Seq<StatusSlotView> {
    slots.map_values(|s: crate::status::StatusSlot| status_slot_view(s))
}

/// The configurations that a status report starts from: the current ones when they
/// are for the running machine, else the running machine's configuration, unchanged.
pub open spec fn status_base(
    configs: Option<(ConfigView, Option<ConfigView>)>,
    machines: Seq<MachineConfig>,
    machine_name: Seq<char>,
) -> (ConfigView, Option<ConfigView>) {
    match configs {
        Some((c, d)) => if c.machine_name == machine_name {
            (c, d)
        } else {
            (machines[find_machine(machines, machine_name)->0]@, None)
        },
        None => (machines[find_machine(machines, machine_name)->0]@, None),
    }
}

/// The configurations after a status report for the running machine: the result of
/// applying the reported slots as the new clean configuration when it changed
/// anything, else the starting configurations.
pub open spec fn status_configs(
    base: (ConfigView, Option<ConfigView>),
    slots: Seq<StatusSlotView>,
) -> (ConfigView, Option<ConfigView>) {
    match apply_status_slots(base.0, slots) {
        Ok(Some(c)) => (c, None),
        _ => base,
    }
}

proof fn lemma_apply_wf(clean: ConfigView, slots: Seq<StatusSlotView>)
    requires
        config_wf(clean),
    ensures
        apply_status_slots(clean, slots) matches Ok(Some(c)) ==> config_wf(c),
    decreases slots.len(),
{
    if slots.len() > 0 {
        lemma_apply_wf(clean, slots.drop_last());
        if let Ok(c) = apply_status_slots(clean, slots.drop_last()) {
            let base = match c {
                Some(x) => x,
                None => clean,
            };
            let s = slots.last();
            crate::mconfig::lemma_with_slot_option_wf(base, s.name, s.current_name);
        }
    }
}

proof fn lemma_apply_err_stays(clean: ConfigView, slots: Seq<StatusSlotView>, k: int)
    requires
        0 <= k <= slots.len(),
        apply_status_slots(clean, slots.take(k)) is Err,
    ensures
        apply_status_slots(clean, slots) is Err,
    decreases slots.len() - k,
{
    if k < slots.len() {
        assert(slots.take(k + 1).drop_last() =~= slots.take(k));
        lemma_apply_err_stays(clean, slots, k + 1);
    } else {
        assert(slots.take(k) =~= slots);
    }
}

fn status_images(images: &Vec<crate::status::StatusImage>) -> (r: Vec<(String, Option<String>)>)
    ensures
        images_view(r@) == status_images_view(images@),
{
    let mut r: Vec<(String, Option<String>)> = Vec::new();
    for i in 0..images.len()
        invariant
            images_view(r@) == status_images_view(images@).take(i as int),
    {
        let ghost before = r@;
        r.push((copy_string(&images[i].tag), copy_opt_string(&images[i].filename)));
        assert(images_view(r@) =~= images_view(before).push(
            (images@[i as int].tag@, opt_view(images@[i as int].filename)),
        ));
        assert(status_images_view(images@).take(i + 1) =~= status_images_view(images@).take(
            i as int,
        ).push(status_images_view(images@)[i as int]));
    }
    assert(status_images_view(images@).take(images.len() as int) =~= status_images_view(images@));
    r
}

impl DevicesImagesConfig {
    /// The configuration after the emulation reports `status`.  With no machine running,
    /// nothing is configured.  Otherwise the reported choices of the selectable slots
    /// are applied to the clean configuration (the current one if it is for the running
    /// machine, else the running machine's from `machines`); if that changes anything
    /// the result becomes the new clean configuration and unsaved changes are dropped.
    /// The list then holds the slots of the configuration in effect and the reported
    /// images.
    pub fn update_status(&self, status: &crate::status::Status, machines: &Vec<MachineConfig>) -> (r:
        Self)
        requires
            forall|k: int| 0 <= k < machines.len() ==> config_wf(#[trigger] machines@[k]@),
            status.running matches Some(run) ==> {
                &&& find_machine(machines@, run.machine_name@) is Some
                &&& forall|i: int|
                    0 <= i < run.slots.len() ==> status_slot_wf(#[trigger] run.slots@[i])
                &&& apply_status_slots(
                    status_base(self.configs(), machines@, run.machine_name@).0,
                    status_slots_view(run.slots@),
                ) is Ok
            },
        ensures
            status.running is None ==> r.configs() is None && r.entries() == Seq::<
                EntryView,
            >::empty(),
            status.running matches Some(run) ==> {
                let configs = status_configs(
                    status_base(self.configs(), machines@, run.machine_name@),
                    status_slots_view(run.slots@),
                );
                &&& r.configs() == Some(configs)
                &&& listed_entries(
                    r.entries(),
                    r.current()->0.slots,
                    status_images_view(run.images@),
                )
            },
    {
        proof {
            use_type_invariant(self);
        }
        let run = match &status.running {
            None => {
                return Self::new();
            },
            Some(r) => r,
        };
        let ghost base = status_base(self.configs(), machines@, run.machine_name@);
        let ghost views = status_slots_view(run.slots@);
        let same_machine = match &self.core {
            Some(c) => crate::text::str_eq(
                c.machine_configs.clean.machine_name.as_str(),
                run.machine_name.as_str(),
            ),
            None => false,
        };
        let base_pair = if same_machine {
            match &self.core {
                Some(c) => c.machine_configs.copy(),
                None => MachineConfigPair { clean: machines[0].copy(), dirty: None },
            }
        } else {
            let k = find_machine_exec(machines, run.machine_name.as_str());
            MachineConfigPair { clean: machines[k].copy(), dirty: None }
        };
        assert(base_pair.clean@ == base.0 && opt_config_view(base_pair.dirty) == base.1);
        assert(base_pair.pair_wf());
        let mut config: Option<MachineConfig> = None;
        assert(views.take(0) =~= Seq::<StatusSlotView>::empty());
        for i in 0..run.slots.len()
            invariant
                views == status_slots_view(run.slots@),
                forall|j: int| 0 <= j < run.slots.len() ==> status_slot_wf(#[trigger] run.slots@[j]),
                base_pair.clean@ == base.0,
                config_wf(base.0),
                apply_status_slots(base.0, views) is Ok,
                apply_status_slots(base.0, views.take(i as int)) == Ok::<
                    Option<ConfigView>,
                    crate::mconfig::MachineConfigError,
                >(opt_config_view(config)),
                config matches Some(c) ==> config_wf(c@),
        {
            let slot = &run.slots[i];
            assert(views.take(i + 1).drop_last() =~= views.take(i as int));
            assert(views.take(i + 1).last() == status_slot_view(run.slots@[i as int]));
            if slot.has_selectable_options {
                assert(status_slot_wf(run.slots@[i as int]));
                let name: Option<&str> = match slot.current_option {
                    Some(x) => Some(slot.options[x].name.as_str()),
                    None => None,
                };
                let res = match &config {
                    Some(c) => c.set_slot_option(slot.name.as_str(), name),
                    None => base_pair.clean.set_slot_option(slot.name.as_str(), name),
                };
                proof {
                    let b = match opt_config_view(config) {
                        Some(c) => c,
                        None => base.0,
                    };
                    crate::mconfig::lemma_with_slot_option_wf(
                        b,
                        slot.name@,
                        views[i as int].current_name,
                    );
                }
                match res {
                    Ok(Some(n)) => {
                        config = Some(n);
                    },
                    Ok(None) => {},
                    Err(_) => {
                        proof {
                            lemma_apply_err_stays(base.0, views, i + 1);
                        }
                        return Self::new();
                    },
                }
            }
        }
        assert(views.take(run.slots.len() as int) =~= views);
        proof {
            lemma_apply_wf(base.0, views);
        }
        let pair = match config {
            Some(c) => MachineConfigPair { clean: c, dirty: None },
            None => base_pair,
        };
        let images = status_images(&run.images);
        Self::from_configs(pair, &images)
    }
}

fn entry_images_exec(entries: &Vec<InternalEntry>) -> (r: Vec<(String, Option<String>)>)
    ensures
        images_view(r@) == entry_images(entries_view(entries@)),
{
    let ghost es = entries_view(entries@);
    let mut r: Vec<(String, Option<String>)> = Vec::new();
    for i in 0..entries.len()
        invariant
            es == entries_view(entries@),
            images_view(r@) == entry_images(es.take(i as int)),
    {
        assert(es.take(i + 1).drop_last() =~= es.take(i as int));
        assert(es.take(i + 1).last() == entries@[i as int]@);
        match &entries[i].details {
            InternalEntryDetails::Image { filename } => {
                let ghost before = r@;
                r.push((copy_string(&entries[i].tag), copy_opt_string(filename)));
                assert(images_view(r@) =~= images_view(before).push(
                    (entries@[i as int].tag@, opt_view(*filename)),
                ));
            },
            InternalEntryDetails::Slot { .. } => {},
        }
    }
    assert(es.take(entries.len() as int) =~= es);
    r
}

fn same_details(a: &InternalEntryDetails, b: &InternalEntryDetails) -> (r: bool)
    ensures
        r == (a@ == b@),
{
    match (a, b) {
        (
            InternalEntryDetails::Slot { current_option_index: x },
            InternalEntryDetails::Slot { current_option_index: y },
        ) => *x == *y,
        (InternalEntryDetails::Image { filename: x }, InternalEntryDetails::Image { filename: y }) => {
            match (x, y) {
                (Some(p), Some(q)) => crate::text::str_eq(p.as_str(), q.as_str()),
                (None, None) => true,
                _ => false,
            }
        },
        _ => false,
    }
}

impl DevicesImagesConfig {
    /// The configuration with `new_option_name` (no option when `None`) chosen for the
    /// slot `tag` in the configuration in effect, kept as an unsaved change beside the
    /// clean configuration.  The list then holds the slots of the changed configuration
    /// and the images listed before.
    pub fn set_slot_option(&self, tag: &str, new_option_name: Option<&str>) -> (r: Self)
        requires
            self.configs() is Some,
            crate::mconfig::with_slot_option(
                self.current()->0,
                tag@,
                match new_option_name {
                    Some(n) => Some(n@),
                    None => None,
                },
            ) is Ok,
        ensures
            ({
                let cur = self.current()->0;
                let changed = match crate::mconfig::with_slot_option(
                    cur,
                    tag@,
                    match new_option_name {
                        Some(n) => Some(n@),
                        None => None,
                    },
                ) {
                    Ok(Some(c)) => c,
                    _ => cur,
                };
                let clean = self.configs()->0;
                &&& r.configs() == Some((clean.0, Some(changed)))
                &&& listed_entries(r.entries(), changed.slots, entry_images(self.entries()))
            }),
    {
        proof {
            use_type_invariant(self);
        }
        let core = match &self.core {
            Some(c) => c,
            None => {
                return Self::new();
            },
        };
        let cfg = core.machine_configs.current_config();
        let changed = match cfg.set_slot_option(tag, new_option_name) {
            Ok(Some(c)) => c,
            Ok(None) => cfg.copy(),
            Err(_) => {
                return Self::new();
            },
        };
        proof {
            crate::mconfig::lemma_with_slot_option_wf(
                cfg@,
                tag@,
                match new_option_name {
                    Some(n) => Some(n@),
                    None => None,
                },
            );
        }
        let machine_configs = MachineConfigPair {
            clean: core.machine_configs.clean.copy(),
            dirty: Some(changed),
        };
        let images = entry_images_exec(&core.entries);
        Self::from_configs(machine_configs, &images)
    }

    /// The slots whose choice the unsaved changes alter, each with its tag and the name
    /// of its chosen option; empty when there are no unsaved changes.
    pub fn changed_slots(&self) -> (r: Vec<(String, Option<String>)>)
        ensures
            r@.map_values(|p: (String, Option<String>)| (p.0@, opt_view(p.1))) == match self.configs() {
                Some((c, Some(d))) => crate::mconfig::changed_slot_list(d.slots, Some(c)),
                _ => Seq::empty(),
            },
    {
        proof {
            use_type_invariant(self);
        }
        let r = match &self.core {
            Some(core) => match &core.machine_configs.dirty {
                Some(dirty) => dirty.changed_slots(Some(&core.machine_configs.clean)),
                None => Vec::new(),
            },
            None => Vec::new(),
        };
        assert(r@.map_values(|p: (String, Option<String>)| (p.0@, opt_view(p.1))) =~= r@.map_values(
            |p: (String, Option<String>)|
                (
                    p.0@,
                    match p.1 {
                        Some(n) => Some(n@),
                        None => None,
                    },
                ),
        ));
        r
    }

    /// The rows that differ (in tag, or in what the entry is) between this list and
    /// `other`'s; `None` when the lists differ in length.
    pub fn identify_changed_rows(&self, other: &Self) -> (r: Option<Vec<usize>>)
        ensures
            match changed_rows(self.entries(), other.entries()) {
                None => r is None,
                Some(rows) => r matches Some(v) && v@.map_values(|i: usize| i as int) == rows,
            },
    {
        let empty_a: Vec<InternalEntry> = Vec::new();
        let empty_b: Vec<InternalEntry> = Vec::new();
        let a = match &self.core {
            Some(c) => &c.entries,
            None => &empty_a,
        };
        let b = match &other.core {
            Some(c) => &c.entries,
            None => &empty_b,
        };
        assert(entries_view(a@) == self.entries());
        assert(entries_view(b@) == other.entries());
        if a.len() != b.len() {
            return None;
        }
        let ghost av = entries_view(a@);
        let ghost bv = entries_view(b@);
        let mut rows: Vec<usize> = Vec::new();
        for i in 0..a.len()
            invariant
                a.len() == b.len(),
                av == entries_view(a@),
                bv == entries_view(b@),
                rows@.map_values(|i: usize| i as int) == differing_rows(av, bv, i as int),
        {
            let differ = !crate::text::str_eq(a[i].tag.as_str(), b[i].tag.as_str()) || !same_details(
                &a[i].details,
                &b[i].details,
            );
            assert(av[i as int] == a@[i as int]@);
            assert(bv[i as int] == b@[i as int]@);
            let ghost before = rows@;
            if differ {
                rows.push(i);
                assert(rows@.map_values(|i: usize| i as int) =~= before.map_values(
                    |i: usize| i as int,
                ).push(i as int));
            }
        }
        Some(rows)
    }
}

/// A list compared with itself has no changed rows.
pub proof fn lemma_no_changed_rows_with_self(a: Seq<EntryView>)
    ensures
        changed_rows(a, a) == Some(Seq::<int>::empty()),
{
    lemma_differing_rows_self(a, a.len() as int);
}

proof fn lemma_differing_rows_self(a: Seq<EntryView>, n: int)
    ensures
        differing_rows(a, a, n) == Seq::<int>::empty(),
    decreases n,
{
    if n > 0 {
        lemma_differing_rows_self(a, n - 1);
    }
}

/// The changed rows are exactly the indexes, in increasing order, at which the
/// lists differ.
pub proof fn lemma_changed_rows_exact(a: Seq<EntryView>, b: Seq<EntryView>, n: int)
    requires
        0 <= n <= a.len(),
        n <= b.len(),
    ensures
        forall|i: int|
            0 <= i < n ==> (differing_rows(a, b, n).contains(i) <==> entry_changed(a[i], b[i])),
        forall|k: int|
            0 <= k < differing_rows(a, b, n).len() ==> 0 <= #[trigger] differing_rows(a, b, n)[k]
                < n,
        forall|k: int, l: int|
            0 <= k < l < differing_rows(a, b, n).len() ==> #[trigger] differing_rows(a, b, n)[k]
                < #[trigger] differing_rows(a, b, n)[l],
    decreases n,
{
    if n > 0 {
        lemma_changed_rows_exact(a, b, n - 1);
        let rest = differing_rows(a, b, n - 1);
        let d = differing_rows(a, b, n);
        assert forall|i: int| 0 <= i < n implies (d.contains(i) <==> entry_changed(a[i], b[i])) by {
            if i < n - 1 {
                if d.contains(i) {
                    let k = choose|k: int| 0 <= k < d.len() && d[k] == i;
                    if k < rest.len() {
                        assert(rest[k] == i);
                    }
                }
                if rest.contains(i) {
                    let k = choose|k: int| 0 <= k < rest.len() && rest[k] == i;
                    assert(d[k] == i);
                }
            } else {
                if entry_changed(a[i], b[i]) {
                    assert(d[d.len() - 1] == i);
                } else if d.contains(i) {
                    let k = choose|k: int| 0 <= k < d.len() && d[k] == i;
                    assert(rest[k] == i);
                }
            }
        }
    }
}

} // verus!
