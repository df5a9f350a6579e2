//! Events of an XML document, as the readers of the application's XML files take
//! them.
use crate::text::str_eq;
use vstd::prelude::*;

verus! {

/// An event of an XML document: an element starts, with its name and attributes, or
/// the element last started ends, with the text it holds.
pub enum XmlEvent {
    Start { name: String, attributes: Vec<(String, String)> },
    End { text: String },
}

/// An event with its strings taken by their characters.
pub enum EventView {
    Start { name: Seq<char>, attributes: Seq<(Seq<char>, Seq<char>)> },
    End { text: Seq<char> },
}

/// The event, with strings taken by their characters.
pub open spec fn event_view(e: XmlEvent) -> EventView {
    match e {
        XmlEvent::Start { name, attributes } => EventView::Start {
            name: name@,
            attributes: attributes@.map_values(|a: (String, String)| (a.0@, a.1@)),
        },
        XmlEvent::End { text } => EventView::End { text: text@ },
    }
}

/// The value of the last attribute named `name`, if any.
pub open spec fn attribute(attributes: Seq<(Seq<char>, Seq<char>)>, name: Seq<char>) -> Option<
    Seq<char>,
>
    decreases attributes.len(),
{
    if attributes.len() == 0 {
        None
    } else if attributes.last().0 == name {
        Some(attributes.last().1)
    } else {
        attribute(attributes.drop_last(), name)
    }
}

/// The events, each taken by its view.
pub open spec fn events_view(events: Seq<XmlEvent>) -> Seq<EventView> {
    events.map_values(|e: XmlEvent| event_view(e))
}

pub fn find_attribute(attributes: &Vec<(String, String)>, name: &str) -> (r: Option<String>)
    ensures
        r matches Some(v) ==> attribute(
            attributes@.map_values(|a: (String, String)| (a.0@, a.1@)),
            name@,
        ) == Some(v@),
        r is None ==> attribute(
            attributes@.map_values(|a: (String, String)| (a.0@, a.1@)),
            name@,
        ) is None,
{
    let ghost view = attributes@.map_values(|a: (String, String)| (a.0@, a.1@));
    let mut i: usize = attributes.len();
    assert(view.take(i as int) =~= view);
    while i > 0
        invariant
            i <= attributes.len(),
            view == attributes@.map_values(|a: (String, String)| (a.0@, a.1@)),
            attribute(view, name@) == attribute(view.take(i as int), name@),
        decreases i,
    {
        assert(view.take(i as int).drop_last() =~= view.take(i - 1));
        if str_eq(attributes[i - 1].0.as_str(), name) {
            return Some(attributes[i - 1].1.clone());
        }
        i = i - 1;
    }
    None
}

} // verus!
