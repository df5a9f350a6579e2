//! Reading `history.xml`: the entries' texts, keyed by system and by software item.
use vstd::prelude::*;

use crate::history_xml::markdown::{md_text_with, md_urls, push_markdown_urls};
use crate::text::{
    chars_of, ends_with, join, lemma_join_step, lines, lines_of, push_range, starts_with,
    string_from_chars, trim, trim_chars,
};

verus! {

/// A line of history text as the `history.xml` reader writes it: `- TITLE -` becomes bold and
/// bare `http://`/`https://` URLs become Markdown links.
pub open spec fn md_line_plain(l: Seq<char>) -> Seq<char> {
    if starts_with(l, seq!['-', ' ']) && ends_with(l.skip(2), seq![' ', '-']) {
        md_urls(seq!['*', '*'] + l.subrange(2, l.len() - 2) + seq!['*', '*'], false)
    } else {
        md_urls(l, false)
    }
}

/// The line conversion of the `history.xml` reader.
pub open spec fn md_line_plain_fn() -> spec_fn(Seq<char>) -> Seq<char> {
    |l: Seq<char>| md_line_plain(l)
}

/// The Markdown that the `history.xml` reader stores for an entry's text.
pub open spec fn md_text_plain(text: Seq<char>) -> Seq<char> {
    md_text_with(text, md_line_plain_fn())
}

fn push_md_line_plain(out: &mut Vec<char>, l: &Vec<char>)
    ensures
        final(out)@ == old(out)@ + md_line_plain(l@),
{
    let n = l.len();
    if n >= 4 && l[0] == '-' && l[1] == ' ' && l[n - 2] == ' ' && l[n - 1] == '-' {
        assert(l@.take(2) =~= seq!['-', ' ']);
        assert(l@.skip(2).skip(l@.skip(2).len() - 2) =~= seq![' ', '-']);
        let mut bold: Vec<char> = Vec::new();
        bold.push('*');
        bold.push('*');
        push_range(&mut bold, l, 2, n - 2);
        bold.push('*');
        bold.push('*');
        assert(bold@ =~= seq!['*', '*'] + l@.subrange(2, l@.len() - 2) + seq!['*', '*']);
        push_markdown_urls(out, &bold, false);
    } else {
        proof {
            if starts_with(l@, seq!['-', ' ']) && ends_with(l@.skip(2), seq![' ', '-']) {
                assert(l@.take(2)[0] == '-' && l@.take(2)[1] == ' ');
                let t = l@.skip(2);
                assert(t.skip(t.len() - 2)[0] == ' ' && t.skip(t.len() - 2)[1] == '-');
                assert(false);
            }
        }
        push_markdown_urls(out, l, false);
    }
}

/// Turns the text of a `history.xml` entry into the Markdown that the reader stores: the text is
/// trimmed, `- TITLE -` lines become bold, bare URLs become Markdown links, and the lines are
/// joined with newlines.
pub fn markdown_from_history_text(text: &str) -> (r: String)
    ensures
        r@ == md_text_plain(text@),
{
    let chars = chars_of(text);
    let trimmed = trim_chars(&chars);
    let ls = lines_of(&trimmed);
    let ghost parts = lines(trim(text@)).map_values(md_line_plain_fn());
    let mut out: Vec<char> = Vec::new();
    let mut k: usize = 0;
    while k < ls.len()
        invariant
            k <= ls@.len(),
            ls@.len() == lines(trimmed@).len(),
            trimmed@ == trim(text@),
            forall|i: int| 0 <= i < ls@.len() ==> #[trigger] ls@[i]@ == lines(trimmed@)[i],
            parts == lines(trim(text@)).map_values(md_line_plain_fn()),
            out@ == join(parts.take(k as int), seq!['\n']),
        decreases ls@.len() - k,
    {
        proof {
            lemma_join_step(parts, seq!['\n'], k as int);
        }
        if k > 0 {
            out.push('\n');
        }
        push_md_line_plain(&mut out, &ls[k]);
        proof {
            assert(parts[k as int] == md_line_plain(ls@[k as int]@));
            assert(out@ =~= join(parts.take(k + 1), seq!['\n']));
        }
        k = k + 1;
    }
    assert(parts.take(ls@.len() as int) =~= parts);
    string_from_chars(&out)
}

/// Turns the bare `http://` and `https://` URLs in `text` into Markdown links.
pub fn markdown_urls(text: &str) -> (r: String)
    ensures
        r@ == md_urls(text@, false),
{
    let chars = chars_of(text);
    let mut out: Vec<char> = Vec::new();
    push_markdown_urls(&mut out, &chars, false);
    assert(out@ =~= md_urls(text@, false));
    string_from_chars(&out)
}

/// Where the `history.xml` reader is.
#[derive(Clone, Copy, Debug, PartialEq, Eq, Structural)]
pub enum HistoryPhase {
    Root,
    History,
    Entry,
    EntrySystems,
    EntrySoftware,
    EntryText,
}

/// The attributes that `history.xml` elements must have.
#[derive(Clone, Copy, Debug, PartialEq, Eq, Structural)]
pub enum MandatoryAttribute {
    List,
    Name,
}

/// Why `history.xml` could not be read.
#[derive(Clone, Copy, Debug, PartialEq, Eq, Structural)]
pub enum HistoryError {
    /// A `system` or `item` element lacks an attribute it must have.
    MissingMandatoryAttribute(MandatoryAttribute),
    /// An element ended that had not started.
    UnbalancedEnd,
    /// An entry ended without a `text` element.
    EntryWithoutText,
}

/// What an entry is about: a system, or an item of a software list.
pub enum EntryInfoView {
    System(Seq<char>),
    Software(Seq<char>, Seq<char>),
}

/// What the reader knows so far: the phases of the open elements it reads, how deep
/// it is inside a skipped element, what the current entry is about, the text read for
/// it, and the texts stored so far by system and by software item, in order.
pub struct HistoryState {
    pub phases: Seq<HistoryPhase>,
    pub skip_depth: nat,
    pub infos: Seq<EntryInfoView>,
    pub text: Option<Seq<char>>,
    pub systems: Seq<(Seq<char>, Seq<char>)>,
    pub software: Seq<((Seq<char>, Seq<char>), Seq<char>)>,
}

/// The phase of the innermost open element read, `Root` when there is none.
pub open spec fn history_phase(phases: Seq<HistoryPhase>) -> HistoryPhase {
    if phases.len() == 0 {
        HistoryPhase::Root
    } else {
        phases.last()
    }
}

/// The texts stored for the entry's systems and software items, in order.
pub open spec fn store_entry(
    infos: Seq<EntryInfoView>,
    md: Seq<char>,
    systems: Seq<(Seq<char>, Seq<char>)>,
    software: Seq<((Seq<char>, Seq<char>), Seq<char>)>,
) -> (Seq<(Seq<char>, Seq<char>)>, Seq<((Seq<char>, Seq<char>), Seq<char>)>)
    decreases infos.len(),
{
    if infos.len() == 0 {
        (systems, software)
    } else {
        let (sy, so) = store_entry(infos.drop_last(), md, systems, software);
        match infos.last() {
            EntryInfoView::System(n) => (sy.push((n, md)), so),
            EntryInfoView::Software(l, n) => (sy, so.push(((l, n), md))),
        }
    }
}

/// The state after one event of `history.xml`.
pub open spec fn history_step(s: HistoryState, e: crate::xml::EventView) -> Result<
    HistoryState,
    HistoryError,
> {
    match e {
        crate::xml::EventView::Start { name, attributes } => if s.skip_depth > 0 {
            Ok(HistoryState { skip_depth: s.skip_depth + 1, ..s })
        } else {
            let p = history_phase(s.phases);
            if p == HistoryPhase::Root && name == "history"@ {
                Ok(HistoryState { phases: s.phases.push(HistoryPhase::History), ..s })
            } else if p == HistoryPhase::History && name == "entry"@ {
                Ok(HistoryState { phases: s.phases.push(HistoryPhase::Entry), ..s })
            } else if p == HistoryPhase::Entry && name == "systems"@ {
                Ok(HistoryState { phases: s.phases.push(HistoryPhase::EntrySystems), ..s })
            } else if p == HistoryPhase::Entry && name == "software"@ {
                Ok(HistoryState { phases: s.phases.push(HistoryPhase::EntrySoftware), ..s })
            } else if p == HistoryPhase::Entry && name == "text"@ {
                Ok(
                    HistoryState {
                        phases: s.phases.push(HistoryPhase::EntryText),
                        text: Some(Seq::empty()),
                        ..s
                    },
                )
            } else if p == HistoryPhase::EntrySystems && name == "system"@ {
                match crate::xml::attribute(attributes, "name"@) {
                    None => Err(HistoryError::MissingMandatoryAttribute(MandatoryAttribute::Name)),
                    Some(n) => Ok(
                        HistoryState {
                            phases: s.phases.push(HistoryPhase::EntrySystems),
                            infos: s.infos.push(EntryInfoView::System(n)),
                            ..s
                        },
                    ),
                }
            } else if p == HistoryPhase::EntrySoftware && name == "item"@ {
                match (
                    crate::xml::attribute(attributes, "list"@),
                    crate::xml::attribute(attributes, "name"@),
                ) {
                    (None, _) => Err(HistoryError::MissingMandatoryAttribute(MandatoryAttribute::List)),
                    (_, None) => Err(HistoryError::MissingMandatoryAttribute(MandatoryAttribute::Name)),
                    (Some(l), Some(n)) => Ok(
                        HistoryState {
                            phases: s.phases.push(HistoryPhase::EntrySoftware),
                            infos: s.infos.push(EntryInfoView::Software(l, n)),
                            ..s
                        },
                    ),
                }
            } else {
                Ok(HistoryState { skip_depth: 1, ..s })
            }
        },
        crate::xml::EventView::End { text } => if s.skip_depth > 0 {
            Ok(HistoryState { skip_depth: (s.skip_depth - 1) as nat, ..s })
        } else if s.phases.len() == 0 {
            Err(HistoryError::UnbalancedEnd)
        } else if s.phases.last() == HistoryPhase::Entry {
            match s.text {
                None => Err(HistoryError::EntryWithoutText),
                Some(t) => {
                    let (sy, so) = store_entry(s.infos, md_text_plain(t), s.systems, s.software);
                    Ok(
                        HistoryState {
                            phases: s.phases.drop_last(),
                            infos: Seq::empty(),
                            text: None,
                            systems: sy,
                            software: so,
                            ..s
                        },
                    )
                },
            }
        } else if s.phases.last() == HistoryPhase::EntryText {
            Ok(
                HistoryState {
                    phases: s.phases.drop_last(),
                    text: Some(
                        match s.text {
                            Some(t) => t,
                            None => Seq::empty(),
                        } + text,
                    ),
                    ..s
                },
            )
        } else {
            Ok(HistoryState { phases: s.phases.drop_last(), ..s })
        },
    }
}

/// The state after the events of `history.xml`, from the state before them.
pub open spec fn history_run(s: HistoryState, events: Seq<crate::xml::EventView>) -> Result<
    HistoryState,
    HistoryError,
>
    decreases events.len(),
{
    if events.len() == 0 {
        Ok(s)
    } else {
        match history_run(s, events.drop_last()) {
            Ok(t) => history_step(t, events.last()),
            Err(e) => Err(e),
        }
    }
}

/// The state before any event.
pub open spec fn history_initial() -> HistoryState {
    HistoryState {
        phases: Seq::empty(),
        skip_depth: 0,
        infos: Seq::empty(),
        text: None,
        systems: Seq::empty(),
        software: Seq::empty(),
    }
}

/// The history texts of `history.xml`: each stored text with the system, or the
/// software list and item, it is for, in the order read.
pub struct HistoryXml {
    systems: Vec<(String, String)>,
    software: Vec<((String, String), String)>,
}

/// The value stored last for `key`, if any.
pub open spec fn last_value<K>(pairs: Seq<(K, Seq<char>)>, key: K) -> Option<Seq<char>>
    decreases pairs.len(),
{
    if pairs.len() == 0 {
        None
    } else if pairs.last().0 == key {
        Some(pairs.last().1)
    } else {
        last_value(pairs.drop_last(), key)
    }
}

impl HistoryXml {
    /// The texts stored by system, in the order read.
    pub closed spec fn systems_view(&self) -> Seq<(Seq<char>, Seq<char>)> {
        self.systems@.map_values(|p: (String, String)| (p.0@, p.1@))
    }

    /// The texts stored by software list and item, in the order read.
    pub closed spec fn software_view(&self) -> Seq<((Seq<char>, Seq<char>), Seq<char>)> {
        self.software@.map_values(|p: ((String, String), String)| ((p.0.0@, p.0.1@), p.1@))
    }

    /// The history text of a system: the last one stored for it.
    pub fn by_system(&self, system: &str) -> (r: Option<String>)
        ensures
            match last_value(self.systems_view(), system@) {
                Some(t) => r matches Some(x) && x@ == t,
                None => r is None,
            },
    {
        let ghost v = self.systems_view();
        let mut k: usize = self.systems.len();
        assert(v.take(k as int) =~= v);
        while k > 0
            invariant
                k <= self.systems.len(),
                v == self.systems_view(),
                last_value(v, system@) == last_value(v.take(k as int), system@),
            decreases k,
        {
            assert(v.take(k as int).drop_last() =~= v.take(k - 1));
            if crate::text::str_eq(self.systems[k - 1].0.as_str(), system) {
                return Some(self.systems[k - 1].1.clone());
            }
            k = k - 1;
        }
        None
    }

    /// The history text of a software item: the last one stored for it.
    pub fn by_software(&self, list: &str, name: &str) -> (r: Option<String>)
        ensures
            match last_value(self.software_view(), (list@, name@)) {
                Some(t) => r matches Some(x) && x@ == t,
                None => r is None,
            },
    {
        let ghost v = self.software_view();
        let mut k: usize = self.software.len();
        assert(v.take(k as int) =~= v);
        while k > 0
            invariant
                k <= self.software.len(),
                v == self.software_view(),
                last_value(v, (list@, name@)) == last_value(v.take(k as int), (list@, name@)),
            decreases k,
        {
            assert(v.take(k as int).drop_last() =~= v.take(k - 1));
            let e = &self.software[k - 1];
            if crate::text::str_eq(e.0.0.as_str(), list) && crate::text::str_eq(e.0.1.as_str(), name) {
                return Some(e.1.clone());
            }
            k = k - 1;
        }
        None
    }
}

/// What an entry is about, as the reader keeps it.
pub enum EntryInfo {
    System(String),
    Software(String, String),
}

/// The view of what an entry is about.
pub open spec fn info_view(i: EntryInfo) -> EntryInfoView {
    match i {
        EntryInfo::System(n) => EntryInfoView::System(n@),
        EntryInfo::Software(l, n) => EntryInfoView::Software(l@, n@),
    }
}

proof fn lemma_history_err_stays(evs: Seq<crate::xml::EventView>, k: int, j: int, e: HistoryError)
    requires
        0 <= k <= j <= evs.len(),
        history_run(history_initial(), evs.take(k)) == Err::<HistoryState, HistoryError>(e),
    ensures
        history_run(history_initial(), evs.take(j)) == Err::<HistoryState, HistoryError>(e),
    decreases j - k,
{
    if j > k {
        lemma_history_err_stays(evs, k, j - 1, e);
        assert(evs.take(j).drop_last() =~= evs.take(j - 1));
    }
}

fn phase_top(phases: &Vec<HistoryPhase>) -> (r: HistoryPhase)
    ensures
        r == history_phase(phases@),
{
    if phases.len() == 0 {
        HistoryPhase::Root
    } else {
        phases[phases.len() - 1]
    }
}

/// Reads the history texts from the events of `history.xml`: each `entry` of the
/// top-level `history` element stores the Markdown of its `text` for each `system`
/// (under `systems`) and each `item` (under `software`) it names.  Other elements are
/// skipped with everything inside them.
pub fn parse_from_events(events: &Vec<crate::xml::XmlEvent>) -> (r: Result<HistoryXml, HistoryError>)
    requires
        !(history_run(history_initial(), crate::xml::events_view(events@)) matches Err(
            HistoryError::EntryWithoutText,
        )),
    ensures
        match history_run(history_initial(), crate::xml::events_view(events@)) {
            Ok(s) => r matches Ok(h) && h.systems_view() == s.systems && h.software_view()
                == s.software,
            Err(e) => r == Err::<HistoryXml, HistoryError>(e),
        },
{
    let ghost evs = crate::xml::events_view(events@);
    let mut phases: Vec<HistoryPhase> = Vec::new();
    let mut skip_depth: usize = 0;
    let mut infos: Vec<EntryInfo> = Vec::new();
    let mut text: Option<Vec<char>> = None;
    let mut h = HistoryXml { systems: Vec::new(), software: Vec::new() };
    let ghost mut st = history_initial();
    assert(h.systems_view() =~= st.systems);
    assert(h.software_view() =~= st.software);
    assert(infos@.map_values(|i: EntryInfo| info_view(i)) =~= st.infos);
    for i in 0..events.len()
        invariant
            evs == crate::xml::events_view(events@),
            !(history_run(history_initial(), evs) matches Err(HistoryError::EntryWithoutText)),
            history_run(history_initial(), evs.take(i as int)) == Ok::<HistoryState, HistoryError>(
                st,
            ),
            phases@ == st.phases,
            skip_depth == st.skip_depth,
            skip_depth <= i,
            infos@.map_values(|i: EntryInfo| info_view(i)) == st.infos,
            match text {
                Some(t) => st.text == Some(t@),
                None => st.text is None,
            },
            h.systems_view() == st.systems,
            h.software_view() == st.software,
    {
        assert(evs.take(i + 1).drop_last() =~= evs.take(i as int));
        assert(evs.take(i + 1).last() == crate::xml::event_view(events@[i as int]));
        let ghost next = history_step(st, crate::xml::event_view(events@[i as int]));
        proof {
            if next is Err {
                let e = next->Err_0;
                lemma_history_err_stays(evs, i + 1, evs.len() as int, e);
                assert(evs.take(evs.len() as int) =~= evs);
            }
        }
        match &events[i] {
            crate::xml::XmlEvent::Start { name, attributes } => {
                if skip_depth > 0 {
                    skip_depth = skip_depth + 1;
                } else {
                    let p = phase_top(&phases);
                    let n = name.as_str();
                    if p == HistoryPhase::Root && crate::text::str_eq(n, "history") {
                        phases.push(HistoryPhase::History);
                    } else if p == HistoryPhase::History && crate::text::str_eq(n, "entry") {
                        phases.push(HistoryPhase::Entry);
                    } else if p == HistoryPhase::Entry && crate::text::str_eq(n, "systems") {
                        phases.push(HistoryPhase::EntrySystems);
                    } else if p == HistoryPhase::Entry && crate::text::str_eq(n, "software") {
                        phases.push(HistoryPhase::EntrySoftware);
                    } else if p == HistoryPhase::Entry && crate::text::str_eq(n, "text") {
                        text = Some(Vec::new());
                        phases.push(HistoryPhase::EntryText);
                    } else if p == HistoryPhase::EntrySystems && crate::text::str_eq(n, "system") {
                        match crate::xml::find_attribute(attributes, "name") {
                            None => {
                                return Err(
                                    HistoryError::MissingMandatoryAttribute(MandatoryAttribute::Name),
                                );
                            },
                            Some(v) => {
                                let ghost before = infos@;
                                infos.push(EntryInfo::System(v));
                                assert(infos@.map_values(|i: EntryInfo| info_view(i)) =~= before.map_values(
                                    |i: EntryInfo| info_view(i),
                                ).push(info_view(infos@.last())));
                                phases.push(HistoryPhase::EntrySystems);
                            },
                        }
                    } else if p == HistoryPhase::EntrySoftware && crate::text::str_eq(n, "item") {
                        let l = crate::xml::find_attribute(attributes, "list");
                        let m = crate::xml::find_attribute(attributes, "name");
                        match (l, m) {
                            (None, _) => {
                                return Err(
                                    HistoryError::MissingMandatoryAttribute(MandatoryAttribute::List),
                                );
                            },
                            (_, None) => {
                                return Err(
                                    HistoryError::MissingMandatoryAttribute(MandatoryAttribute::Name),
                                );
                            },
                            (Some(l), Some(m)) => {
                                let ghost before = infos@;
                                infos.push(EntryInfo::Software(l, m));
                                assert(infos@.map_values(|i: EntryInfo| info_view(i)) =~= before.map_values(
                                    |i: EntryInfo| info_view(i),
                                ).push(info_view(infos@.last())));
                                phases.push(HistoryPhase::EntrySoftware);
                            },
                        }
                    } else {
                        skip_depth = 1;
                    }
                }
            },
            crate::xml::XmlEvent::End { text: event_text } => {
                if skip_depth > 0 {
                    skip_depth = skip_depth - 1;
                } else if phases.len() == 0 {
                    return Err(HistoryError::UnbalancedEnd);
                } else {
                    let top = phases[phases.len() - 1];
                    if top == HistoryPhase::Entry {
                        let t = match &text {
                            Some(t) => crate::text::string_from_chars(t),
                            None => {
                                return Err(HistoryError::EntryWithoutText);
                            },
                        };
                        let md = markdown_from_history_text(t.as_str());
                        let ghost iv = st.infos;
                        let ghost sys0 = st.systems;
                        let ghost soft0 = st.software;
                        let ghost mdv = md_text_plain(t@);
                        for k in 0..infos.len()
                            invariant
                                iv == infos@.map_values(|i: EntryInfo| info_view(i)),
                                md@ == mdv,
                                (h.systems_view(), h.software_view()) == store_entry(
                                    iv.take(k as int),
                                    mdv,
                                    sys0,
                                    soft0,
                                ),
                        {
                            assert(iv.take(k + 1).drop_last() =~= iv.take(k as int));
                            assert(iv.take(k + 1).last() == info_view(infos@[k as int]));
                            match &infos[k] {
                                EntryInfo::System(n) => {
                                    let ghost before = h.systems@;
                                    h.systems.push((n.clone(), md.clone()));
                                    assert(h.systems_view() =~= before.map_values(
                                        |p: (String, String)| (p.0@, p.1@),
                                    ).push((n@, mdv)));
                                },
                                EntryInfo::Software(l, n) => {
                                    let ghost before = h.software@;
                                    h.software.push(((l.clone(), n.clone()), md.clone()));
                                    assert(h.software_view() =~= before.map_values(
                                        |p: ((String, String), String)| ((p.0.0@, p.0.1@), p.1@),
                                    ).push(((l@, n@), mdv)));
                                },
                            }
                        }
                        assert(iv.take(infos.len() as int) =~= iv);
                        infos = Vec::new();
                        assert(infos@.map_values(|i: EntryInfo| info_view(i)) =~= Seq::<
                            EntryInfoView,
                        >::empty());
                        text = None;
                    } else if top == HistoryPhase::EntryText {
                        let mut t = match text {
                            Some(t) => t,
                            None => Vec::new(),
                        };
                        crate::text::push_str(&mut t, event_text.as_str());
                        text = Some(t);
                    }
                    phases.pop();
                }
            },
        }
        proof {
            st = next->Ok_0;
        }
        assert(phases@ =~= st.phases);
    }
    assert(evs.take(events.len() as int) =~= evs);
    Ok(h)
}

} // verus!
