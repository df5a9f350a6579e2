//! Scripts of MAME commands, read from the events of an XML document.
//!
//! A script is a `script` element at the top level whose `command` children hold
//! one command each.  Elements anywhere else are skipped with everything inside
//! them.
use crate::text::str_eq;
use crate::xml::attribute;
use crate::xml::event_view;
use crate::xml::events_view;
use crate::xml::find_attribute;
use crate::xml::EventView;
use crate::xml::XmlEvent;
use vstd::prelude::*;

verus! {

/// A script: the MAME version it asks for, if any, and its commands in order.
pub struct Script {
    pub required_version: Option<String>,
    pub commands: Vec<String>,
}

/// Why a script could not be read.
#[derive(Clone, Copy, Debug, PartialEq, Eq, Structural)]
pub enum ScriptError {
    /// An element ended that had not started.
    UnbalancedEnd,
}

/// Where the reader is: outside any script, in a script, or in a command.
#[derive(Clone, Copy, Debug, PartialEq, Eq, Structural)]
pub enum Phase {
    Root,
    Script,
    Command,
}

/// What the reader knows so far: the phases of the open elements it reads, how deep
/// it is inside a skipped element, the version asked for, and the commands.
pub struct ReadState {
    pub phases: Seq<Phase>,
    pub skip_depth: nat,
    pub required_version: Option<Seq<char>>,
    pub commands: Seq<Seq<char>>,
}

/// The phase of the innermost open element read, `Root` when there is none.
pub open spec fn current_phase(phases: Seq<Phase>) -> Phase {
    if phases.len() == 0 {
        Phase::Root
    } else {
        phases.last()
    }
}

/// The state after one event; `None` when an element ends that had not started.
pub open spec fn step(s: ReadState, e: EventView) -> Option<ReadState> {
    match e {
        EventView::Start { name, attributes } => if s.skip_depth > 0 {
            Some(ReadState { skip_depth: s.skip_depth + 1, ..s })
        } else if current_phase(s.phases) == Phase::Root && name == "script"@ {
            let v = attribute(attributes, "requiredVersion"@);
            Some(
                ReadState {
                    phases: s.phases.push(Phase::Script),
                    required_version: if v is Some {
                        v
                    } else {
                        s.required_version
                    },
                    ..s
                },
            )
        } else if current_phase(s.phases) == Phase::Script && name == "command"@ {
            Some(ReadState { phases: s.phases.push(Phase::Command), ..s })
        } else {
            Some(ReadState { skip_depth: 1, ..s })
        },
        EventView::End { text } => if s.skip_depth > 0 {
            Some(ReadState { skip_depth: (s.skip_depth - 1) as nat, ..s })
        } else if s.phases.len() <= 1 {
            None
        } else if s.phases.last() == Phase::Command {
            Some(ReadState { phases: s.phases.drop_last(), commands: s.commands.push(text), ..s })
        } else {
            Some(ReadState { phases: s.phases.drop_last(), ..s })
        },
    }
}

/// The state after the events, from the state before them; `None` when one of
/// them ends an element that had not started.
pub open spec fn run(s: ReadState, events: Seq<EventView>) -> Option<ReadState>
    decreases events.len(),
{
    if events.len() == 0 {
        Some(s)
    } else {
        match run(s, events.drop_last()) {
            Some(t) => step(t, events.last()),
            None => None,
        }
    }
}

/// The state before any event.
pub open spec fn initial_state() -> ReadState {
    ReadState {
        phases: seq![Phase::Root],
        skip_depth: 0,
        required_version: None,
        commands: Seq::empty(),
    }
}

fn phase_at_top(phases: &Vec<Phase>) -> (r: Phase)
    ensures
        r == current_phase(phases@),
{
    if phases.len() == 0 {
        Phase::Root
    } else {
        phases[phases.len() - 1]
    }
}

impl Script {
    /// Reads a script from the events of an XML document: the `requiredVersion`
    /// attribute of the top-level `script` element, and the text of each `command`
    /// element inside it, in order.
    pub fn parse(events: &Vec<XmlEvent>) -> (r: Result<Script, ScriptError>)
        ensures
            match run(initial_state(), events_view(events@)) {
                Some(s) => r matches Ok(script) && script.commands@.map_values(|c: String| c@)
                    == s.commands && match script.required_version {
                    Some(v) => s.required_version == Some(v@),
                    None => s.required_version is None,
                },
                None => r == Err::<Script, ScriptError>(ScriptError::UnbalancedEnd),
            },
    {
        let ghost evs = events_view(events@);
        let mut phases: Vec<Phase> = vec![Phase::Root];
        let mut skip_depth: usize = 0;
        let mut required_version: Option<String> = None;
        let mut commands: Vec<String> = Vec::new();
        let ghost mut st = initial_state();
        assert(phases@ =~= st.phases);
        assert(commands@.map_values(|c: String| c@) =~= st.commands);
        for i in 0..events.len()
            invariant
                evs == events_view(events@),
                run(initial_state(), evs.take(i as int)) == Some(st),
                phases@ == st.phases,
                skip_depth == st.skip_depth,
                skip_depth <= i,
                commands@.map_values(|c: String| c@) == st.commands,
                match required_version {
                    Some(v) => st.required_version == Some(v@),
                    None => st.required_version is None,
                },
        {
            assert(evs.take(i + 1).drop_last() =~= evs.take(i as int));
            assert(evs.take(i + 1).last() == event_view(events@[i as int]));
            let ghost next = step(st, event_view(events@[i as int]));
            match &events[i] {
                XmlEvent::Start { name, attributes } => {
                    if skip_depth > 0 {
                        skip_depth = skip_depth + 1;
                    } else {
                        let phase = phase_at_top(&phases);
                        if phase == Phase::Root && str_eq(name.as_str(), "script") {
                            let v = find_attribute(attributes, "requiredVersion");
                            if v.is_some() {
                                required_version = v;
                            }
                            phases.push(Phase::Script);
                        } else if phase == Phase::Script && str_eq(name.as_str(), "command") {
                            phases.push(Phase::Command);
                        } else {
                            skip_depth = 1;
                        }
                    }
                },
                XmlEvent::End { text } => {
                    if skip_depth > 0 {
                        skip_depth = skip_depth - 1;
                    } else if phases.len() <= 1 {
                        assert(next is None);
                        assert(forall|j: int|
                            i < j <= evs.len() ==> run(initial_state(), #[trigger] evs.take(j))
                                is None) by {
                            assert forall|j: int| i < j <= evs.len() implies run(
                                initial_state(),
                                #[trigger] evs.take(j),
                            ) is None by {
                                lemma_run_stays_failed(evs, i as int + 1, j);
                            }
                        }
                        assert(evs.take(evs.len() as int) =~= evs);
                        return Err(ScriptError::UnbalancedEnd);
                    } else {
                        let top = phases[phases.len() - 1];
                        if top == Phase::Command {
                            commands.push(text.clone());
                            proof {
                                assert(commands@.map_values(|c: String| c@) =~= st.commands.push(
                                    text@,
                                ));
                            }
                        }
                        phases.pop();
                    }
                },
            }
            proof {
                st = next->0;
            }
            assert(phases@ =~= st.phases);
        }
        assert(evs.take(events.len() as int) =~= evs);
        Ok(Script { required_version, commands })
    }
}

proof fn lemma_run_stays_failed(evs: Seq<EventView>, k: int, j: int)
    requires
        0 < k <= j <= evs.len(),
        run(initial_state(), evs.take(k)) is None,
    ensures
        run(initial_state(), evs.take(j)) is None,
    decreases j - k,
{
    if j > k {
        lemma_run_stays_failed(evs, k, j - 1);
        assert(evs.take(j).drop_last() =~= evs.take(j - 1));
    }
}

} // verus!
