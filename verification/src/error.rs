//! The errors of the application, and the problems found before MAME starts.
use crate::text::decimal;
use crate::text::push_decimal;
use crate::text::push_str;
use crate::text::string_from_chars;
use vstd::prelude::*;

verus! {

/// A problem found while checking that MAME can be started.
#[derive(Copy, Clone, Debug, PartialEq, Eq, Structural)]
pub enum PreflightProblem {
    NoMameExecutablePath,
    NoMameExecutable,
    MameExecutableIsNotExecutable,
    NoPluginsPaths,
    PluginsBootNotFound,
    WorkerUiPluginNotFound,
}

/// The message shown for a preflight problem.
pub open spec fn problem_text(p: PreflightProblem) -> Seq<char> {
    match p {
        PreflightProblem::NoMameExecutablePath => "No MAME executable path specified"@,
        PreflightProblem::NoMameExecutable => "No MAME executable found"@,
        PreflightProblem::MameExecutableIsNotExecutable => "MAME executable file is not executable"@,
        PreflightProblem::NoPluginsPaths => "No valid plugins paths specified"@,
        PreflightProblem::PluginsBootNotFound => "MAME boot.lua not found"@,
        PreflightProblem::WorkerUiPluginNotFound => "BletchMAME worker_ui plugin not found"@,
    }
}

/// The variant's name, as debug output shows it.
pub open spec fn problem_name(p: PreflightProblem) -> Seq<char> {
    match p {
        PreflightProblem::NoMameExecutablePath => "NoMameExecutablePath"@,
        PreflightProblem::NoMameExecutable => "NoMameExecutable"@,
        PreflightProblem::MameExecutableIsNotExecutable => "MameExecutableIsNotExecutable"@,
        PreflightProblem::NoPluginsPaths => "NoPluginsPaths"@,
        PreflightProblem::PluginsBootNotFound => "PluginsBootNotFound"@,
        PreflightProblem::WorkerUiPluginNotFound => "WorkerUiPluginNotFound"@,
    }
}

/// The debug output of a list of problems: their names between brackets, separated
/// by a comma and a space.
pub open spec fn problems_list_text(ps: Seq<PreflightProblem>) -> Seq<char> {
    "["@ + problems_joined(ps) + "]"@
}

/// The problems' names, separated by a comma and a space.
pub open spec fn problems_joined(ps: Seq<PreflightProblem>) -> Seq<char>
    decreases ps.len(),
{
    if ps.len() == 0 {
        Seq::empty()
    } else if ps.len() == 1 {
        problem_name(ps[0])
    } else {
        problems_joined(ps.drop_last()) + ", "@ + problem_name(ps.last())
    }
}

fn push_problem_text(out: &mut Vec<char>, p: PreflightProblem)
    ensures
        final(out)@ == old(out)@ + problem_text(p),
{
    match p {
        PreflightProblem::NoMameExecutablePath => push_str(out, "No MAME executable path specified"),
        PreflightProblem::NoMameExecutable => push_str(out, "No MAME executable found"),
        PreflightProblem::MameExecutableIsNotExecutable => push_str(
            out,
            "MAME executable file is not executable",
        ),
        PreflightProblem::NoPluginsPaths => push_str(out, "No valid plugins paths specified"),
        PreflightProblem::PluginsBootNotFound => push_str(out, "MAME boot.lua not found"),
        PreflightProblem::WorkerUiPluginNotFound => push_str(
            out,
            "BletchMAME worker_ui plugin not found",
        ),
    }
}

fn push_problem_name(out: &mut Vec<char>, p: PreflightProblem)
    ensures
        final(out)@ == old(out)@ + problem_name(p),
{
    match p {
        PreflightProblem::NoMameExecutablePath => push_str(out, "NoMameExecutablePath"),
        PreflightProblem::NoMameExecutable => push_str(out, "NoMameExecutable"),
        PreflightProblem::MameExecutableIsNotExecutable => push_str(
            out,
            "MameExecutableIsNotExecutable",
        ),
        PreflightProblem::NoPluginsPaths => push_str(out, "NoPluginsPaths"),
        PreflightProblem::PluginsBootNotFound => push_str(out, "PluginsBootNotFound"),
        PreflightProblem::WorkerUiPluginNotFound => push_str(out, "WorkerUiPluginNotFound"),
    }
}

impl PreflightProblem {
    /// The message shown for this problem.
    pub fn to_display_string(&self) -> (r: String)
        ensures
            r@ == problem_text(*self),
    {
        let mut out: Vec<char> = Vec::new();
        push_problem_text(&mut out, *self);
        assert(out@ =~= problem_text(*self));
        string_from_chars(&out)
    }

    /// The variant's name, as debug output shows it.
    pub fn to_debug_string(&self) -> (r: String)
        ensures
            r@ == problem_name(*self),
    {
        let mut out: Vec<char> = Vec::new();
        push_problem_name(&mut out, *self);
        assert(out@ =~= problem_name(*self));
        string_from_chars(&out)
    }
}

/// The errors of the application.  Where the cause is an error of another kind,
/// the variant holds that error's message.
#[derive(Clone, Debug, PartialEq, Eq)]
pub enum Error {
    ListXmlProcessing(u64, String),
    BadMachineReference(String),
    PreferencesLoadIo(String),
    PreferencesLoadDeserl(String),
    PreferencesSave(String),
    CantFindPreferencesDirectory,
    CannotBuildInfoDbFilename,
    InfoDbLoad(String),
    InfoDbSave(String),
    SoftwareListLoad(String),
    SoftwareListLoadNoPaths,
    SoftwareListXmlParsing(u64, String),
    MamePreflightProblems(Vec<PreflightProblem>),
    CannotDeserializeInfoDbHeader,
    BadInfoDbMagicValue,
    BadInfoDbSizesHash,
    CorruptStringTable,
    CorruptSoftwareListMachineIndex,
    NoMamePathSpecified,
    CannotFindMame(String),
    MameIsNotAFile,
    MameLaunch(String),
    EofFromMame(String),
    ReadingFromMame(String),
    WritingToMame(String),
    MameErrorResponse(String),
    MameResponseNotUnderstood(String),
    StatusXmlProcessing(u64, String),
}

/// The message shown for an error.
pub open spec fn error_text(e: Error) -> Seq<char> {
    match e {
        Error::ListXmlProcessing(pos, m) => "Error processing MAME -listxml output at position "@
            + decimal(pos as nat) + ": "@ + m@,
        Error::BadMachineReference(_) => "Bad machine reference in MAME -listxml output"@,
        Error::PreferencesLoadIo(m) => "Error loading preferences: "@ + m@,
        Error::PreferencesLoadDeserl(m) => "Error loading preferences: "@ + m@,
        Error::PreferencesSave(m) => "Error saving preferences: "@ + m@,
        Error::CantFindPreferencesDirectory => "Cannot find preferences directory"@,
        Error::CannotBuildInfoDbFilename => "Cannot determine InfoDB filename"@,
        Error::InfoDbLoad(m) => "Error loading InfoDB: "@ + m@,
        Error::InfoDbSave(m) => "Error saving InfoDB: "@ + m@,
        Error::SoftwareListLoad(m) => "Error loading software list: "@ + m@,
        Error::SoftwareListLoadNoPaths => "Error loading software list: No paths specified"@,
        Error::SoftwareListXmlParsing(pos, m) => "Error parsing software list XML at position "@
            + decimal(pos as nat) + ": "@ + m@,
        Error::MamePreflightProblems(ps) => "Problems found during MAME preflight: "@
            + problems_list_text(ps@),
        Error::CannotDeserializeInfoDbHeader => "Cannot deserialize InfoDB header"@,
        Error::BadInfoDbMagicValue => "Bad InfoDB Magic Value In Header"@,
        Error::BadInfoDbSizesHash => "Bad Sizes Hash In Header"@,
        Error::CorruptStringTable => "Corrupt String Table"@,
        Error::CorruptSoftwareListMachineIndex => "Corrupt Software List Machine Index"@,
        Error::NoMamePathSpecified => "No path to MAME specified"@,
        Error::CannotFindMame(_) => "Cannot find MAME"@,
        Error::MameIsNotAFile => "MAME is not a file"@,
        Error::MameLaunch(m) => "Error launching MAME: "@ + m@,
        Error::EofFromMame(m) => "Unexpected EOF from MAME: "@ + m@,
        Error::ReadingFromMame(m) => "Error reading from MAME: "@ + m@,
        Error::WritingToMame(m) => "Error writing to MAME: "@ + m@,
        Error::MameErrorResponse(m) => "MAME Error Response: "@ + m@,
        Error::MameResponseNotUnderstood(m) => "Response not understood: "@ + m@,
        Error::StatusXmlProcessing(pos, m) => "Error parsing status XML at position "@ + decimal(
            pos as nat,
        ) + ": "@ + m@,
    }
}

fn push_problems_list(out: &mut Vec<char>, ps: &Vec<PreflightProblem>)
    ensures
        final(out)@ == old(out)@ + problems_list_text(ps@),
{
    push_str(out, "[");
    let ghost start = out@;
    for i in 0..ps.len()
        invariant
            out@ == start + problems_joined(ps@.take(i as int)),
    {
        if i > 0 {
            push_str(out, ", ");
        }
        push_problem_name(out, ps[i]);
        assert(ps@.take(i + 1).drop_last() =~= ps@.take(i as int));
        assert(out@ =~= start + problems_joined(ps@.take(i + 1)));
    }
    assert(ps@.take(ps.len() as int) =~= ps@);
    push_str(out, "]");
    assert(final(out)@ =~= old(out)@ + problems_list_text(ps@));
}

fn push_with_message(out: &mut Vec<char>, prefix: &str, m: &String)
    ensures
        final(out)@ == old(out)@ + prefix@ + m@,
{
    push_str(out, prefix);
    push_str(out, m.as_str());
}

fn push_with_position(out: &mut Vec<char>, prefix: &str, pos: u64, m: &String)
    ensures
        final(out)@ == old(out)@ + prefix@ + decimal(pos as nat) + ": "@ + m@,
{
    push_str(out, prefix);
    push_decimal(out, pos);
    push_str(out, ": ");
    push_str(out, m.as_str());
}

impl Error {
    /// The message shown for this error.
    pub fn to_display_string(&self) -> (r: String)
        ensures
            r@ == error_text(*self),
    {
        let mut out: Vec<char> = Vec::new();
        match self {
            Error::ListXmlProcessing(pos, m) => push_with_position(
                &mut out,
                "Error processing MAME -listxml output at position ",
                *pos,
                m,
            ),
            Error::BadMachineReference(_) => push_str(
                &mut out,
                "Bad machine reference in MAME -listxml output",
            ),
            Error::PreferencesLoadIo(m) => push_with_message(
                &mut out,
                "Error loading preferences: ",
                m,
            ),
            Error::PreferencesLoadDeserl(m) => push_with_message(
                &mut out,
                "Error loading preferences: ",
                m,
            ),
            Error::PreferencesSave(m) => push_with_message(&mut out, "Error saving preferences: ", m),
            Error::CantFindPreferencesDirectory => push_str(
                &mut out,
                "Cannot find preferences directory",
            ),
            Error::CannotBuildInfoDbFilename => push_str(&mut out, "Cannot determine InfoDB filename"),
            Error::InfoDbLoad(m) => push_with_message(&mut out, "Error loading InfoDB: ", m),
            Error::InfoDbSave(m) => push_with_message(&mut out, "Error saving InfoDB: ", m),
            Error::SoftwareListLoad(m) => push_with_message(
                &mut out,
                "Error loading software list: ",
                m,
            ),
            Error::SoftwareListLoadNoPaths => push_str(
                &mut out,
                "Error loading software list: No paths specified",
            ),
            Error::SoftwareListXmlParsing(pos, m) => push_with_position(
                &mut out,
                "Error parsing software list XML at position ",
                *pos,
                m,
            ),
            Error::MamePreflightProblems(ps) => {
                push_str(&mut out, "Problems found during MAME preflight: ");
                push_problems_list(&mut out, ps);
            },
            Error::CannotDeserializeInfoDbHeader => push_str(
                &mut out,
                "Cannot deserialize InfoDB header",
            ),
            Error::BadInfoDbMagicValue => push_str(&mut out, "Bad InfoDB Magic Value In Header"),
            Error::BadInfoDbSizesHash => push_str(&mut out, "Bad Sizes Hash In Header"),
            Error::CorruptStringTable => push_str(&mut out, "Corrupt String Table"),
            Error::CorruptSoftwareListMachineIndex => push_str(
                &mut out,
                "Corrupt Software List Machine Index",
            ),
            Error::NoMamePathSpecified => push_str(&mut out, "No path to MAME specified"),
            Error::CannotFindMame(_) => push_str(&mut out, "Cannot find MAME"),
            Error::MameIsNotAFile => push_str(&mut out, "MAME is not a file"),
            Error::MameLaunch(m) => push_with_message(&mut out, "Error launching MAME: ", m),
            Error::EofFromMame(m) => push_with_message(&mut out, "Unexpected EOF from MAME: ", m),
            Error::ReadingFromMame(m) => push_with_message(&mut out, "Error reading from MAME: ", m),
            Error::WritingToMame(m) => push_with_message(&mut out, "Error writing to MAME: ", m),
            Error::MameErrorResponse(m) => push_with_message(&mut out, "MAME Error Response: ", m),
            Error::MameResponseNotUnderstood(m) => push_with_message(
                &mut out,
                "Response not understood: ",
                m,
            ),
            Error::StatusXmlProcessing(pos, m) => push_with_position(
                &mut out,
                "Error parsing status XML at position ",
                *pos,
                m,
            ),
        }
        assert(out@ =~= error_text(*self));
        string_from_chars(&out)
    }
}

} // verus!
