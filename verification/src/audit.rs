//! Auditing the assets (ROMs, disks, samples, image files) that a machine needs: where to look
//! for each one, and what to report about what was found.
use crate::appstate::AuditOutcome;
use vstd::prelude::*;

use crate::assethash::{agree, hash_text, opt_sha1, AssetHash};
use crate::text::{chars_of, decimal, push_all, push_decimal, push_str, str_eq, string_from_chars, strings_view};

verus! {

/// How good the known dumps of an asset are.
#[derive(Debug, Clone, Copy, PartialEq, Eq, Structural)]
pub enum AssetStatus {
    Good,
    BadDump,
    NoDump,
}

/// The kind of device that an image file is loaded into.
#[derive(Debug, Clone, Copy, PartialEq, Eq, Hash, Structural)]
pub enum DeviceType {
    Cartridge,
    Cassette,
    Floppy,
    HardDisk,
    Cdrom,
    Printer,
    Serial,
    Parallel,
    Snapshot,
    Quickload,
    Memcard,
    Punchtape,
    Picture,
    Unknown,
}

/// The kind of an asset.
#[derive(Debug, Clone, Copy, PartialEq, Eq, Hash, Structural)]
pub enum AssetKind {
    Rom,
    Disk,
    Sample,
    ImageFile(DeviceType),
}

/// How bad an audit finding is; `Info` < `Warning` < `Fail`.
#[derive(Debug, Clone, Copy, PartialEq, Eq, PartialOrd, Ord, Hash)]
pub enum AuditSeverity {
    Info,
    Warning,
    Fail,
}

/// How an asset was found: as a plain file, or inside a ZIP or 7-Zip archive.
#[derive(Copy, Clone, Debug, PartialEq, Eq, Structural)]
pub enum PathType {
    File,
    Zip,
    SevenZ,
}

/// A finding of an audit.
#[derive(Clone, Debug, PartialEq, Eq)]
pub enum AuditMessage {
    NotFound,
    NotFoundNoGoodDump,
    NotFoundButOptional,
    WrongLength { expected: u64, found: u64 },
    WrongChecksums { expected: AssetHash, found: AssetHash },
    NeedsRedump,
    NoGoodDump,
}

/// The outcome of auditing one asset: where it was found, and the findings.
#[derive(Clone, Debug, Default, PartialEq, Eq)]
pub struct AuditResult {
    pub path: Option<(String, PathType)>,
    pub messages: Vec<AuditMessage>,
}

/// Where an asset is looked for: in the directories (or archives) named after a machine and
/// the machines it takes ROMs from, or at one absolute path.
#[derive(Clone, Debug, PartialEq, Eq)]
pub enum AssetLocation {
    MachinePaths(Vec<String>),
    Absolute(String),
}

/// The rank of a severity, for comparing them.
pub open spec fn rank(s: AuditSeverity) -> int {
    match s {
        AuditSeverity::Info => 0,
        AuditSeverity::Warning => 1,
        AuditSeverity::Fail => 2,
    }
}

/// The severity of a finding.
pub open spec fn message_severity(m: AuditMessage) -> AuditSeverity {
    match m {
        AuditMessage::NotFoundButOptional | AuditMessage::NeedsRedump | AuditMessage::NoGoodDump => {
            AuditSeverity::Info
        },
        AuditMessage::WrongLength { .. } | AuditMessage::WrongChecksums { .. } => {
            AuditSeverity::Warning
        },
        AuditMessage::NotFound | AuditMessage::NotFoundNoGoodDump => AuditSeverity::Fail,
    }
}

/// The worst severity among the findings; `Info` when there are none.
pub open spec fn max_severity(ms: Seq<AuditMessage>) -> AuditSeverity
    decreases ms.len(),
{
    if ms.len() == 0 {
        AuditSeverity::Info
    } else {
        let prev = max_severity(ms.drop_last());
        let last = message_severity(ms.last());
        if rank(last) > rank(prev) {
            last
        } else {
            prev
        }
    }
}

impl AuditMessage {
    /// How bad this finding is: a missing asset fails, a wrong length or checksum warns, the
    /// rest is information.
    pub fn severity(&self) -> (r: AuditSeverity)
        ensures
            r == message_severity(*self),
    {
        match self {
            Self::NotFoundButOptional | Self::NeedsRedump | Self::NoGoodDump => AuditSeverity::Info,
            Self::WrongLength { .. } | Self::WrongChecksums { .. } => AuditSeverity::Warning,
            Self::NotFound | Self::NotFoundNoGoodDump => AuditSeverity::Fail,
        }
    }

    /// The text that shows this finding.
    pub fn to_display_string(&self) -> (r: String)
        ensures
            r@ == message_text(*self),
    {
        let mut out: Vec<char> = Vec::new();
        match self {
            Self::NotFound => push_all(&mut out, &chars_of("NOT FOUND")),
            Self::NotFoundNoGoodDump => push_all(&mut out, &chars_of("NOT FOUND - NO GOOD DUMP KNOWN")),
            Self::NotFoundButOptional => push_all(&mut out, &chars_of("NOT FOUND BUT OPTIONAL")),
            Self::WrongLength { expected, found } => {
                push_all(&mut out, &chars_of("WRONG LENGTH (expected: "));
                push_decimal(&mut out, *expected);
                push_all(&mut out, &chars_of(" found "));
                push_decimal(&mut out, *found);
                out.push(')');
            },
            Self::WrongChecksums { expected, found } => {
                push_all(&mut out, &chars_of("WRONG CHECKSUMS EXPECTED "));
                push_all(&mut out, &chars_of(expected.to_display_string().as_str()));
                push_all(&mut out, &chars_of(" FOUND "));
                push_all(&mut out, &chars_of(found.to_display_string().as_str()));
            },
            Self::NeedsRedump => push_all(&mut out, &chars_of("NEEDS REDUMP")),
            Self::NoGoodDump => push_all(&mut out, &chars_of("NO GOOD DUMP KNOWN")),
        }
        assert(out@ =~= message_text(*self));
        string_from_chars(&out)
    }
}

/// The text that shows a finding.
pub open spec fn message_text(m: AuditMessage) -> Seq<char> {
    match m {
        AuditMessage::NotFound => "NOT FOUND"@,
        AuditMessage::NotFoundNoGoodDump => "NOT FOUND - NO GOOD DUMP KNOWN"@,
        AuditMessage::NotFoundButOptional => "NOT FOUND BUT OPTIONAL"@,
        AuditMessage::WrongLength { expected, found } => "WRONG LENGTH (expected: "@ + decimal(
            expected as nat,
        ) + " found "@ + decimal(found as nat) + seq![')'],
        AuditMessage::WrongChecksums { expected, found } => "WRONG CHECKSUMS EXPECTED "@
            + hash_text(expected.crc, opt_sha1(expected.sha1)) + " FOUND "@ + hash_text(
            found.crc,
            opt_sha1(found.sha1),
        ),
        AuditMessage::NeedsRedump => "NEEDS REDUMP"@,
        AuditMessage::NoGoodDump => "NO GOOD DUMP KNOWN"@,
    }
}

impl AuditResult {
    /// The worst severity among the findings; `Info` when there are none.
    pub fn severity(&self) -> (r: AuditSeverity)
        ensures
            r == max_severity(self.messages@),
    {
        let mut result = AuditSeverity::Info;
        let mut i: usize = 0;
        while i < self.messages.len()
            invariant
                i <= self.messages@.len(),
                result == max_severity(self.messages@.take(i as int)),
            decreases self.messages@.len() - i,
        {
            assert(self.messages@.take(i + 1).drop_last() =~= self.messages@.take(i as int));
            let s = self.messages[i].severity();
            let worse = match (s, result) {
                (AuditSeverity::Fail, AuditSeverity::Warning) => true,
                (AuditSeverity::Fail, AuditSeverity::Info) => true,
                (AuditSeverity::Warning, AuditSeverity::Info) => true,
                _ => false,
            };
            if worse {
                result = s;
            }
            i = i + 1;
        }
        assert(self.messages@.take(self.messages@.len() as int) =~= self.messages@);
        result
    }
}

impl PathType {
    /// The extension of the archive that this kind of path names, if it is an archive.
    pub fn archive_extension(&self) -> (r: Option<&'static str>)
        ensures
            match self {
                PathType::File => r is None,
                PathType::Zip => r matches Some(e) && e@ == "zip"@,
                PathType::SevenZ => r matches Some(e) && e@ == "7z"@,
            },
    {
        match self {
            PathType::File => None,
            PathType::Zip => Some("zip"),
            PathType::SevenZ => Some("7z"),
        }
    }
}

/// The findings about an asset that was found: its length if it differs from the expected one,
/// its checksums if they do not match the expected ones, and what is known of its dumps.
pub open spec fn audit_findings(
    expected_size: Option<u64>,
    actual_size: u64,
    expected_hash: AssetHash,
    actual_hash: Option<AssetHash>,
    status: AssetStatus,
) -> Seq<AuditMessage> {
    let len_msgs = match expected_size {
        Some(e) => if e != actual_size {
            seq![AuditMessage::WrongLength { expected: e, found: actual_size }]
        } else {
            seq![]
        },
        None => seq![],
    };
    let hash_msgs = match actual_hash {
        Some(a) => if !(agree(a.crc, expected_hash.crc) && agree(
            opt_sha1(a.sha1),
            opt_sha1(expected_hash.sha1),
        )) {
            seq![AuditMessage::WrongChecksums { expected: expected_hash, found: a }]
        } else {
            seq![]
        },
        None => seq![],
    };
    let status_msgs = match status {
        AssetStatus::Good => seq![],
        AssetStatus::BadDump => seq![AuditMessage::NeedsRedump],
        AssetStatus::NoDump => seq![AuditMessage::NoGoodDump],
    };
    len_msgs + hash_msgs + status_msgs
}

/// What the audit of a found asset reports: a wrong length exactly when an expected length
/// is known and the file's length differs from it (longer or shorter), naming both
/// lengths; wrong checksums exactly when the file was checksummed and a checksum known on
/// both sides differs; a needed redump exactly for a bad dump, no good dump exactly for an
/// asset with none; and never that the asset is missing. A wrong length or wrong checksums
/// make the result at least a warning.
pub proof fn lemma_found_findings(
    expected_size: Option<u64>,
    actual_size: u64,
    expected_hash: AssetHash,
    actual_hash: Option<AssetHash>,
    status: AssetStatus,
)
    ensures
        ({
            let f = audit_findings(expected_size, actual_size, expected_hash, actual_hash, status);
            &&& (exists|i: int| 0 <= i < f.len() && #[trigger] f[i] is WrongLength) <==> (expected_size is Some
                && expected_size->0 != actual_size)
            &&& forall|i: int|
                0 <= i < f.len() && #[trigger] f[i] is WrongLength ==> f[i] == (AuditMessage::WrongLength {
                    expected: expected_size->0,
                    found: actual_size,
                })
            &&& (exists|i: int| 0 <= i < f.len() && #[trigger] f[i] is WrongChecksums) <==> (actual_hash matches Some(
                a,
            ) && ((a.crc matches Some(x) && expected_hash.crc matches Some(y) && x != y) || (a.sha1 matches Some(
                x,
            ) && expected_hash.sha1 matches Some(y) && x@ != y@)))
            &&& (exists|i: int| 0 <= i < f.len() && #[trigger] f[i] is NeedsRedump) <==> status == AssetStatus::BadDump
            &&& (exists|i: int| 0 <= i < f.len() && #[trigger] f[i] is NoGoodDump) <==> status == AssetStatus::NoDump
            &&& forall|i: int|
                0 <= i < f.len() ==> !(#[trigger] f[i] is NotFound) && !(f[i] is NotFoundNoGoodDump) && !(
                f[i] is NotFoundButOptional)
            &&& (expected_size matches Some(e) && e != actual_size) ==> rank(max_severity(f)) >= 1
        }),
{
    let l = match expected_size {
        Some(e) => if e != actual_size {
            seq![AuditMessage::WrongLength { expected: e, found: actual_size }]
        } else {
            seq![]
        },
        None => seq![],
    };
    let h = match actual_hash {
        Some(a) => if !(agree(a.crc, expected_hash.crc) && agree(opt_sha1(a.sha1), opt_sha1(expected_hash.sha1))) {
            seq![AuditMessage::WrongChecksums { expected: expected_hash, found: a }]
        } else {
            seq![]
        },
        None => seq![],
    };
    let st = match status {
        AssetStatus::Good => seq![],
        AssetStatus::BadDump => seq![AuditMessage::NeedsRedump],
        AssetStatus::NoDump => seq![AuditMessage::NoGoodDump],
    };
    let f = audit_findings(expected_size, actual_size, expected_hash, actual_hash, status);
    assert(f == l + h + st);
    assert forall|i: int| 0 <= i < f.len() implies (#[trigger] f[i] is WrongLength) == (i < l.len()) && (f[i]
        is WrongChecksums) == (l.len() <= i < l.len() + h.len()) && (f[i] is NeedsRedump) == (l.len() + h.len() <= i
        && status == AssetStatus::BadDump) && (f[i] is NoGoodDump) == (l.len() + h.len() <= i && status
        == AssetStatus::NoDump) && !(f[i] is NotFound) && !(f[i] is NotFoundNoGoodDump) && !(f[i]
        is NotFoundButOptional) && (i < l.len() ==> f[i] == l[i]) by {
        if i < l.len() {
            assert(f[i] == l[i]);
        } else if i < l.len() + h.len() {
            assert(f[i] == h[i - l.len()]);
        } else {
            assert(f[i] == st[i - l.len() - h.len()]);
        }
    }
    if l.len() > 0 {
        assert(f[0] is WrongLength);
    }
    if h.len() > 0 {
        assert(f[l.len() as int] is WrongChecksums);
    }
    if st.len() > 0 {
        let j = (l.len() + h.len()) as int;
        assert(f[j] == st[0]);
    }
    match actual_hash {
        Some(a) => {
            match (a.sha1, expected_hash.sha1) {
                (Some(x), Some(y)) => {
                    assert(opt_sha1(a.sha1) == Some(x@));
                    assert(opt_sha1(expected_hash.sha1) == Some(y@));
                },
                _ => {},
            }
        },
        None => {},
    }
    if expected_size matches Some(e) && e != actual_size {
        lemma_max_severity_bounds(f);
        assert(message_severity(f[0]) == AuditSeverity::Warning);
    }
}

/// Whether an asset found on disk has to be checksummed: only when some checksum is expected.
pub fn hash_required(expected_hash: &AssetHash) -> (r: bool)
    ensures
        r == !(expected_hash.crc is None && expected_hash.sha1 is None),
{
    !expected_hash.is_default()
}

/// The result of auditing an asset that was found at `path`: see `audit_findings`.
/// `actual_hash` holds the checksums of what was found, when they were computed.
pub fn found_audit_result(
    path: String,
    path_type: PathType,
    expected_size: Option<u64>,
    actual_size: u64,
    expected_hash: &AssetHash,
    actual_hash: Option<AssetHash>,
    status: AssetStatus,
) -> (r: AuditResult)
    ensures
        r.path == Some((path, path_type)),
        r.messages@ == audit_findings(expected_size, actual_size, *expected_hash, actual_hash, status),
{
    let mut messages: Vec<AuditMessage> = Vec::new();
    if let Some(expected) = expected_size {
        if expected != actual_size {
            messages.push(AuditMessage::WrongLength { expected, found: actual_size });
        }
    }
    if let Some(actual) = actual_hash {
        if !actual.matches(expected_hash) {
            messages.push(AuditMessage::WrongChecksums { expected: *expected_hash, found: actual });
        }
    }
    match status {
        AssetStatus::Good => {},
        AssetStatus::BadDump => messages.push(AuditMessage::NeedsRedump),
        AssetStatus::NoDump => messages.push(AuditMessage::NoGoodDump),
    }
    assert(messages@ =~= audit_findings(expected_size, actual_size, *expected_hash, actual_hash, status));
    AuditResult { path: Some((path, path_type)), messages }
}

/// The finding about an asset that was not found anywhere.
pub open spec fn not_found_message(status: AssetStatus, is_optional: bool) -> AuditMessage {
    match (status, is_optional) {
        (AssetStatus::NoDump, _) => AuditMessage::NotFoundNoGoodDump,
        (_, false) => AuditMessage::NotFound,
        (_, true) => AuditMessage::NotFoundButOptional,
    }
}

/// A missing asset fails the audit exactly when it is required or no good dump of it is
/// known; an optional asset that has a good (or bad) dump is only noted.
pub proof fn lemma_not_found_severity(status: AssetStatus, is_optional: bool)
    ensures
        max_severity(seq![not_found_message(status, is_optional)]) == (if !is_optional || status
            == AssetStatus::NoDump {
            AuditSeverity::Fail
        } else {
            AuditSeverity::Info
        }),
        not_found_message(status, is_optional) is NotFound || not_found_message(status, is_optional)
            is NotFoundNoGoodDump || not_found_message(status, is_optional) is NotFoundButOptional,
{
    let ms = seq![not_found_message(status, is_optional)];
    assert(ms.drop_last() =~= Seq::<AuditMessage>::empty());
    assert(max_severity(ms.drop_last()) == AuditSeverity::Info);
    assert(ms.last() == not_found_message(status, is_optional));
}

/// The result of auditing an asset that was not found anywhere: no path, and one finding
/// (no good dump known, not found, or not found but optional).
pub fn not_found_audit_result(status: AssetStatus, is_optional: bool) -> (r: AuditResult)
    ensures
        r.path is None,
        r.messages@ == seq![not_found_message(status, is_optional)],
{
    let message = match (status, is_optional) {
        (AssetStatus::NoDump, _) => AuditMessage::NotFoundNoGoodDump,
        (_, false) => AuditMessage::NotFound,
        (_, true) => AuditMessage::NotFoundButOptional,
    };
    let mut messages: Vec<AuditMessage> = Vec::new();
    messages.push(message);
    assert(messages@ =~= seq![not_found_message(status, is_optional)]);
    AuditResult { path: None, messages }
}

/// Which list of search paths an asset is looked for in.
#[derive(Copy, Clone, Debug, PartialEq, Eq, Structural)]
pub enum SearchPaths {
    Roms,
    Samples,
    NoPaths,
}

/// One place to look for an asset: the directory (or archive) named after the machine at
/// `machine_index`, under the search path at `path_index`, as a file or an archive.
#[derive(Copy, Clone, Debug, PartialEq, Eq, Structural)]
pub struct AuditCandidate {
    pub machine_index: usize,
    pub path_index: usize,
    pub path_type: PathType,
}

/// The search paths, archive support and path types for a kind of asset.
pub open spec fn search_paths_of(kind: AssetKind) -> SearchPaths {
    match kind {
        AssetKind::Rom => SearchPaths::Roms,
        AssetKind::Sample => SearchPaths::Samples,
        AssetKind::Disk => SearchPaths::Roms,
        AssetKind::ImageFile(_) => SearchPaths::NoPaths,
    }
}

/// The ways an asset of this kind is looked for in a directory: ROMs and samples also inside
/// ZIP and 7-Zip archives, other assets only as plain files.
pub open spec fn path_types_of(kind: AssetKind) -> Seq<PathType> {
    match kind {
        AssetKind::Rom | AssetKind::Sample => seq![PathType::File, PathType::Zip, PathType::SevenZ],
        _ => seq![PathType::File],
    }
}

/// The places for one machine under the first `np` search paths, in order.
pub open spec fn machine_candidates(m: usize, np: nat, types: Seq<PathType>) -> Seq<AuditCandidate>
    decreases np,
{
    if np == 0 {
        seq![]
    } else {
        machine_candidates(m, (np - 1) as nat, types) + types.map_values(
            |t: PathType| AuditCandidate { machine_index: m, path_index: (np - 1) as usize, path_type: t },
        )
    }
}

/// The places for the first `nm` machines, in order: machine by machine, then search path by
/// search path, then path type by path type.
pub open spec fn all_candidates(nm: nat, np: nat, types: Seq<PathType>) -> Seq<AuditCandidate>
    decreases nm,
{
    if nm == 0 {
        seq![]
    } else {
        all_candidates((nm - 1) as nat, np, types) + machine_candidates((nm - 1) as usize, np, types)
    }
}

/// The number of search paths of the given list.
pub open spec fn path_count(which: SearchPaths, rom_paths: nat, sample_paths: nat) -> nat {
    match which {
        SearchPaths::Roms => rom_paths,
        SearchPaths::Samples => sample_paths,
        SearchPaths::NoPaths => 0,
    }
}

/// Where to look for an asset, in the order the audit tries them: the search paths that its
/// kind uses, and each place (machine directory, search path, path type). An asset at an
/// absolute path is looked for there alone, as a plain file, and has no such places.
pub fn audit_candidates(
    kind: AssetKind,
    location: &AssetLocation,
    rom_path_count: usize,
    sample_path_count: usize,
) -> (r: (SearchPaths, Vec<AuditCandidate>))
    ensures
        r.0 == search_paths_of(kind),
        match location {
            AssetLocation::MachinePaths(names) => r.1@ == all_candidates(
                names@.len(),
                path_count(search_paths_of(kind), rom_path_count as nat, sample_path_count as nat),
                path_types_of(kind),
            ),
            AssetLocation::Absolute(_) => r.1@ == Seq::<AuditCandidate>::empty(),
        },
{
    let which = match kind {
        AssetKind::Rom => SearchPaths::Roms,
        AssetKind::Sample => SearchPaths::Samples,
        AssetKind::Disk => SearchPaths::Roms,
        AssetKind::ImageFile(_) => SearchPaths::NoPaths,
    };
    let np = match which {
        SearchPaths::Roms => rom_path_count,
        SearchPaths::Samples => sample_path_count,
        SearchPaths::NoPaths => 0,
    };
    let mut types: Vec<PathType> = Vec::new();
    types.push(PathType::File);
    match kind {
        AssetKind::Rom | AssetKind::Sample => {
            types.push(PathType::Zip);
            types.push(PathType::SevenZ);
        },
        _ => {},
    }
    assert(types@ =~= path_types_of(kind));
    let mut result: Vec<AuditCandidate> = Vec::new();
    let names = match location {
        AssetLocation::MachinePaths(names) => names,
        AssetLocation::Absolute(_) => {
            return (which, result);
        },
    };
    let mut m: usize = 0;
    while m < names.len()
        invariant
            m <= names@.len(),
            types@ == path_types_of(kind),
            result@ == all_candidates(m as nat, np as nat, types@),
        decreases names@.len() - m,
    {
        let ghost base = result@;
        let mut p: usize = 0;
        while p < np
            invariant
                p <= np,
                m < names@.len(),
                types@ == path_types_of(kind),
                result@ == base + machine_candidates(m, p as nat, types@),
            decreases np - p,
        {
            let ghost base2 = result@;
            let mut t: usize = 0;
            while t < types.len()
                invariant
                    t <= types@.len(),
                    p < np,
                    result@ == base2 + types@.take(t as int).map_values(
                        |ty: PathType| AuditCandidate { machine_index: m, path_index: p, path_type: ty },
                    ),
                decreases types@.len() - t,
            {
                result.push(AuditCandidate { machine_index: m, path_index: p, path_type: types[t] });
                assert(types@.take(t + 1).map_values(
                    |ty: PathType| AuditCandidate { machine_index: m, path_index: p, path_type: ty },
                ) =~= types@.take(t as int).map_values(
                    |ty: PathType| AuditCandidate { machine_index: m, path_index: p, path_type: ty },
                ).push(AuditCandidate { machine_index: m, path_index: p, path_type: types@[t as int] }));
                t = t + 1;
            }
            assert(types@.take(types@.len() as int) =~= types@);
            assert(result@ =~= base + machine_candidates(m, (p + 1) as nat, types@));
            p = p + 1;
        }
        assert(result@ =~= all_candidates((m + 1) as nat, np as nat, types@));
        m = m + 1;
    }
    (which, result)
}

/// An entry of an archive: its name, whether it holds data, whether its CRC-32 is
/// recorded, and the CRC-32 recorded.
#[derive(Debug)]
pub struct ArchiveEntry {
    pub name: String,
    pub has_stream: bool,
    pub has_crc: bool,
    pub crc: u64,
}

/// Whether an archive entry holds data whose recorded CRC-32 is `crc`.
pub open spec fn entry_has_crc(e: ArchiveEntry, crc: u32) -> bool {
    e.has_stream && e.has_crc && e.crc == crc as u64
}

/// The index of the first entry, from `k` on, that holds data with the CRC-32 `crc`.
pub open spec fn first_with_crc(entries: Seq<ArchiveEntry>, crc: u32, k: int) -> Option<int>
    decreases entries.len() - k,
{
    if k < 0 || k >= entries.len() {
        None
    } else if entry_has_crc(entries[k], crc) {
        Some(k)
    } else {
        first_with_crc(entries, crc, k + 1)
    }
}

/// The name of the archive entry to read when no entry has the asset's name: the
/// first one that holds data with the asset's CRC-32, if the CRC-32 is known.
pub fn entry_name_by_crc(entries: &Vec<ArchiveEntry>, crc: Option<u32>) -> (r: Option<String>)
    ensures
        match crc {
            None => r is None,
            Some(c) => match first_with_crc(entries@, c, 0) {
                None => r is None,
                Some(k) => r matches Some(n) && n@ == entries@[k].name@,
            },
        },
{
    let c = match crc {
        Some(c) => c,
        None => {
            return None;
        },
    };
    let mut k: usize = 0;
    while k < entries.len()
        invariant
            k <= entries.len(),
            crc == Some(c),
            first_with_crc(entries@, c, 0) == first_with_crc(entries@, c, k as int),
        decreases entries.len() - k,
    {
        let e = &entries[k];
        if e.has_stream && e.has_crc && e.crc == c as u64 {
            return Some(e.name.clone());
        }
        k = k + 1;
    }
    None
}

/// Whether some asset's result is a failure.
pub open spec fn some_asset_fails(results: Seq<(Asset, AuditResult)>) -> bool {
    exists|k: int| 0 <= k < results.len() && max_severity((#[trigger] results[k]).1.messages@) == AuditSeverity::Fail
}

/// How an audit of assets ends: cancelled where it was stopped before its end; else a
/// failure, with every asset and its result, where some asset's result is a failure;
/// and a success where none is.
pub fn audit_job_outcome(results: Vec<(Asset, AuditResult)>, cancelled: bool) -> (r: AuditOutcome)
    ensures
        cancelled ==> r == AuditOutcome::Cancelled,
        !cancelled && some_asset_fails(results@) ==> r == AuditOutcome::Failed(results),
        !cancelled && !some_asset_fails(results@) ==> r == AuditOutcome::Success,
{
    if cancelled {
        return AuditOutcome::Cancelled;
    }
    let mut k: usize = 0;
    while k < results.len()
        invariant
            !cancelled,
            k <= results.len(),
            forall|j: int| 0 <= j < k ==> max_severity((#[trigger] results@[j]).1.messages@) != AuditSeverity::Fail,
        decreases results.len() - k,
    {
        let fails = match results[k].1.severity() {
            AuditSeverity::Fail => true,
            _ => false,
        };
        if fails {
            assert(max_severity(results@[k as int].1.messages@) == AuditSeverity::Fail);
            return AuditOutcome::Failed(results);
        }
        k = k + 1;
    }
    AuditOutcome::Success
}

/// A ROM of a machine, as the machine database describes it: its name, the BIOS set it
/// belongs to (if any), its size, its checksums, how good its dumps are, and whether
/// the machine runs without it.
#[derive(Debug)]
pub struct RomInfo {
    pub name: String,
    pub bios: Option<String>,
    pub size: u64,
    pub asset_hash: AssetHash,
    pub status: AssetStatus,
    pub is_optional: bool,
}

/// A disk of a machine, as the machine database describes it.
#[derive(Debug)]
pub struct DiskInfo {
    pub name: String,
    pub asset_hash: AssetHash,
    pub status: AssetStatus,
    pub is_optional: bool,
}

/// A machine of the machine database, by what the audit reads of it: its name, the
/// machine it takes ROMs from (by index), the names of its BIOS sets and the default
/// one, its ROMs, disks and samples, and the machines of the devices it references (by
/// index, where the reference names a machine).
#[derive(Debug)]
pub struct MachineInfo {
    pub name: String,
    pub rom_of: Option<usize>,
    pub biossets: Vec<String>,
    pub default_biosset_index: Option<usize>,
    pub roms: Vec<RomInfo>,
    pub disks: Vec<DiskInfo>,
    pub samples: Vec<String>,
    pub device_refs: Vec<Option<usize>>,
}

/// An asset to audit: its kind, its file name, its size (where known), where to look
/// for it, its checksums, how good its dumps are, and whether it may be missing.
#[derive(Clone, Debug, PartialEq, Eq)]
pub struct Asset {
    pub kind: AssetKind,
    pub name: String,
    pub size: Option<u64>,
    pub location: AssetLocation,
    pub asset_hash: AssetHash,
    pub status: AssetStatus,
    pub is_optional: bool,
}

/// Where an asset is looked for, with its names taken by their characters.
pub enum LocationView {
    MachinePaths(Seq<Seq<char>>),
    Absolute(Seq<char>),
}

/// An asset, with its names taken by their characters.
pub struct AssetView {
    pub kind: AssetKind,
    pub name: Seq<char>,
    pub size: Option<u64>,
    pub location: LocationView,
    pub asset_hash: AssetHash,
    pub status: AssetStatus,
    pub is_optional: bool,
}

/// The view of a location.
pub open spec fn location_view(l: AssetLocation) -> LocationView {
    match l {
        AssetLocation::MachinePaths(names) => LocationView::MachinePaths(strings_view(names@)),
        AssetLocation::Absolute(path) => LocationView::Absolute(path@),
    }
}

/// The view of an asset.
pub open spec fn asset_view(a: Asset) -> AssetView {
    AssetView {
        kind: a.kind,
        name: a.name@,
        size: a.size,
        location: location_view(a.location),
        asset_hash: a.asset_hash,
        status: a.status,
        is_optional: a.is_optional,
    }
}

/// The views of assets.
pub open spec fn assets_view(s: Seq<Asset>) -> Seq<AssetView> {
    s.map_values(|a: Asset| asset_view(a))
}

/// Whether `rank` ranks every machine above the machine it takes ROMs from and above
/// the machines of the devices it references, all of them machines of the database,
/// and whether each default BIOS set is one of the machine's. Such a ranking exists
/// exactly when following those links never comes back to a machine.
pub open spec fn ranked(machines: Seq<MachineInfo>, rank: Seq<nat>) -> bool {
    &&& rank.len() == machines.len()
    &&& forall|m: int|
        0 <= m < machines.len() ==> {
            &&& (#[trigger] machines[m]).rom_of matches Some(p) ==> p < machines.len() && rank[p as int] < rank[m]
            &&& machines[m].default_biosset_index matches Some(b) ==> b < machines[m].biossets.len()
            &&& forall|k: int|
                0 <= k < machines[m].device_refs.len() ==> (#[trigger] machines[m].device_refs@[k] matches Some(
                    d,
                ) ==> d < machines.len() && rank[d as int] < rank[m])
        }
}

/// Whether the machine database can be audited: following the links between machines
/// never comes back to a machine.
pub open spec fn auditable(machines: Seq<MachineInfo>) -> bool {
    exists|rank: Seq<nat>| ranked(machines, rank)
}

/// The names of a machine and of the machines it takes ROMs from, in order.
pub open spec fn rom_chain(machines: Seq<MachineInfo>, rank: Seq<nat>, m: int) -> Seq<Seq<char>>
    decreases rank[m],
    when ranked(machines, rank) && 0 <= m < machines.len()
{
    match machines[m].rom_of {
        Some(p) => seq![machines[m].name@] + rom_chain(machines, rank, p as int),
        None => seq![machines[m].name@],
    }
}

/// The ROMs that belong to no BIOS set or to `bios`, as assets at `location`.
pub open spec fn rom_assets(roms: Seq<RomInfo>, bios: Option<Seq<char>>, location: LocationView) -> Seq<AssetView>
    decreases roms.len(),
{
    if roms.len() == 0 {
        Seq::empty()
    } else {
        let before = rom_assets(roms.drop_last(), bios, location);
        let r = roms.last();
        let kept = match r.bios {
            Some(b) => bios == Some(b@),
            None => true,
        };
        if kept {
            before.push(
                AssetView {
                    kind: AssetKind::Rom,
                    name: r.name@,
                    size: Some(r.size),
                    location,
                    asset_hash: r.asset_hash,
                    status: r.status,
                    is_optional: r.is_optional,
                },
            )
        } else {
            before
        }
    }
}

/// A disk as an asset at `location`: a CHD file named after the disk.
pub open spec fn disk_asset(d: DiskInfo, location: LocationView) -> AssetView {
    AssetView {
        kind: AssetKind::Disk,
        name: d.name@ + ".chd"@,
        size: None,
        location,
        asset_hash: d.asset_hash,
        status: d.status,
        is_optional: d.is_optional,
    }
}

/// A sample as an asset at `location`: a WAV file named after the sample, with no
/// known checksums, and never required (the machine only sounds different without it).
pub open spec fn sample_asset(name: Seq<char>, location: LocationView) -> AssetView {
    AssetView {
        kind: AssetKind::Sample,
        name: name + ".wav"@,
        size: None,
        location,
        asset_hash: AssetHash { crc: None, sha1: None },
        status: AssetStatus::Good,
        is_optional: true,
    }
}

/// The machine's own assets: its ROMs of no BIOS set or of the default one, its disks
/// and its samples, all looked for under the names of the machine and of the machines
/// it takes ROMs from.
pub open spec fn own_assets(machines: Seq<MachineInfo>, rank: Seq<nat>, m: int) -> Seq<AssetView> {
    let mach = machines[m];
    let bios = match mach.default_biosset_index {
        Some(b) => Some(mach.biossets@[b as int]@),
        None => None,
    };
    let location = LocationView::MachinePaths(rom_chain(machines, rank, m));
    rom_assets(mach.roms@, bios, location) + mach.disks@.map_values(|d: DiskInfo| disk_asset(d, location))
        + mach.samples@.map_values(|n: String| sample_asset(n@, location))
}

/// The assets of a machine: its own, then those of the machines of the devices it
/// references, reference by reference.
pub open spec fn machine_assets(machines: Seq<MachineInfo>, rank: Seq<nat>, m: int) -> Seq<AssetView>
    decreases rank[m], 1int, 0int,
    when ranked(machines, rank) && 0 <= m < machines.len()
{
    own_assets(machines, rank, m) + refs_assets(machines, rank, m, machines[m].device_refs.len() as int)
}

/// The assets of the machines of the first `k` device references of machine `m`.
pub open spec fn refs_assets(machines: Seq<MachineInfo>, rank: Seq<nat>, m: int, k: int) -> Seq<AssetView>
    decreases rank[m], 0int, k,
    when ranked(machines, rank) && 0 <= m < machines.len() && k <= machines[m].device_refs.len()
{
    if k <= 0 {
        Seq::empty()
    } else {
        let before = refs_assets(machines, rank, m, k - 1);
        match machines[m].device_refs@[k - 1] {
            Some(d) => before + machine_assets(machines, rank, d as int),
            None => before,
        }
    }
}

fn push_rom_chain(machines: &Vec<MachineInfo>, m: usize, names: &mut Vec<String>, Ghost(rank): Ghost<Seq<nat>>)
    requires
        ranked(machines@, rank),
        m < machines.len(),
    ensures
        strings_view(final(names)@) == strings_view(old(names)@) + rom_chain(machines@, rank, m as int),
    decreases rank[m as int],
{
    let ghost before = strings_view(names@);
    let mach = &machines[m];
    names.push(mach.name.clone());
    assert(strings_view(names@) =~= before.push(mach.name@));
    match mach.rom_of {
        Some(p) => {
            assert(machines@[m as int].rom_of == Some(p));
            push_rom_chain(machines, p, names, Ghost(rank));
            assert(strings_view(names@) =~= before + rom_chain(machines@, rank, m as int));
        },
        None => {
            assert(strings_view(names@) =~= before + rom_chain(machines@, rank, m as int));
        },
    }
}

fn copy_strings(v: &Vec<String>) -> (r: Vec<String>)
    ensures
        strings_view(r@) == strings_view(v@),
{
    let mut r: Vec<String> = Vec::new();
    let mut i: usize = 0;
    while i < v.len()
        invariant
            i <= v.len(),
            r.len() == i,
            forall|k: int| 0 <= k < i ==> (#[trigger] r@[k])@ == v@[k]@,
        decreases v.len() - i,
    {
        r.push(v[i].clone());
        i = i + 1;
    }
    assert(strings_view(r@) =~= strings_view(v@));
    r
}

fn named(base: &str, extension: &str) -> (r: String)
    ensures
        r@ == base@ + extension@,
{
    let mut out: Vec<char> = Vec::new();
    push_str(&mut out, base);
    push_str(&mut out, extension);
    string_from_chars(&out)
}

fn push_own_assets(machines: &Vec<MachineInfo>, m: usize, results: &mut Vec<Asset>, Ghost(rank): Ghost<Seq<nat>>)
    requires
        ranked(machines@, rank),
        m < machines.len(),
    ensures
        assets_view(final(results)@) == assets_view(old(results)@) + own_assets(machines@, rank, m as int),
{
    let ghost start = assets_view(results@);
    let mach = &machines[m];
    assert(machines@[m as int] == *mach);
    let bios: Option<&String> = match mach.default_biosset_index {
        Some(b) => Some(&mach.biossets[b]),
        None => None,
    };
    let ghost bios_view = match mach.default_biosset_index {
        Some(b) => Some(mach.biossets@[b as int]@),
        None => None,
    };
    let mut chain: Vec<String> = Vec::new();
    push_rom_chain(machines, m, &mut chain, Ghost(rank));
    assert(strings_view(chain@) =~= rom_chain(machines@, rank, m as int));
    let ghost location = LocationView::MachinePaths(rom_chain(machines@, rank, m as int));
    let mut i: usize = 0;
    while i < mach.roms.len()
        invariant
            i <= mach.roms.len(),
            strings_view(chain@) == rom_chain(machines@, rank, m as int),
            location == LocationView::MachinePaths(rom_chain(machines@, rank, m as int)),
            bios_view == (match bios {
                Some(b) => Some(b@),
                None => None,
            }),
            assets_view(results@) == start + rom_assets(mach.roms@.take(i as int), bios_view, location),
        decreases mach.roms.len() - i,
    {
        let rom = &mach.roms[i];
        proof {
            assert(mach.roms@.take(i + 1).drop_last() =~= mach.roms@.take(i as int));
            assert(mach.roms@.take(i + 1).last() == *rom);
        }
        let kept = match &rom.bios {
            Some(b) => match bios {
                Some(d) => str_eq(b.as_str(), d.as_str()),
                None => false,
            },
            None => true,
        };
        if kept {
            let ghost before = assets_view(results@);
            let asset = Asset {
                kind: AssetKind::Rom,
                name: rom.name.clone(),
                size: Some(rom.size),
                location: AssetLocation::MachinePaths(copy_strings(&chain)),
                asset_hash: rom.asset_hash,
                status: rom.status,
                is_optional: rom.is_optional,
            };
            results.push(asset);
            assert(assets_view(results@) =~= before.push(asset_view(asset)));
        }
        i = i + 1;
    }
    assert(mach.roms@.take(mach.roms.len() as int) =~= mach.roms@);
    let ghost after_roms = assets_view(results@);
    let mut i: usize = 0;
    while i < mach.disks.len()
        invariant
            i <= mach.disks.len(),
            strings_view(chain@) == rom_chain(machines@, rank, m as int),
            location == LocationView::MachinePaths(rom_chain(machines@, rank, m as int)),
            assets_view(results@) == after_roms + mach.disks@.take(i as int).map_values(
                |d: DiskInfo| disk_asset(d, location),
            ),
        decreases mach.disks.len() - i,
    {
        let disk = &mach.disks[i];
        let ghost before = assets_view(results@);
        let asset = Asset {
            kind: AssetKind::Disk,
            name: named(disk.name.as_str(), ".chd"),
            size: None,
            location: AssetLocation::MachinePaths(copy_strings(&chain)),
            asset_hash: disk.asset_hash,
            status: disk.status,
            is_optional: disk.is_optional,
        };
        results.push(asset);
        assert(assets_view(results@) =~= before.push(asset_view(asset)));
        assert(mach.disks@.take(i + 1).map_values(|d: DiskInfo| disk_asset(d, location)) =~= mach.disks@.take(
            i as int,
        ).map_values(|d: DiskInfo| disk_asset(d, location)).push(disk_asset(*disk, location)));
        i = i + 1;
    }
    assert(mach.disks@.take(mach.disks.len() as int) =~= mach.disks@);
    let ghost after_disks = assets_view(results@);
    let mut i: usize = 0;
    while i < mach.samples.len()
        invariant
            i <= mach.samples.len(),
            strings_view(chain@) == rom_chain(machines@, rank, m as int),
            location == LocationView::MachinePaths(rom_chain(machines@, rank, m as int)),
            assets_view(results@) == after_disks + mach.samples@.take(i as int).map_values(
                |n: String| sample_asset(n@, location),
            ),
        decreases mach.samples.len() - i,
    {
        let ghost before = assets_view(results@);
        let asset = Asset {
            kind: AssetKind::Sample,
            name: named(mach.samples[i].as_str(), ".wav"),
            size: None,
            location: AssetLocation::MachinePaths(copy_strings(&chain)),
            asset_hash: AssetHash { crc: None, sha1: None },
            status: AssetStatus::Good,
            is_optional: true,
        };
        results.push(asset);
        assert(assets_view(results@) =~= before.push(asset_view(asset)));
        assert(mach.samples@.take(i + 1).map_values(|n: String| sample_asset(n@, location)) =~= mach.samples@.take(
            i as int,
        ).map_values(|n: String| sample_asset(n@, location)).push(sample_asset(mach.samples@[i as int]@, location)));
        i = i + 1;
    }
    assert(mach.samples@.take(mach.samples.len() as int) =~= mach.samples@);
    assert(assets_view(results@) =~= start + own_assets(machines@, rank, m as int));
}

fn push_machine_assets(machines: &Vec<MachineInfo>, m: usize, results: &mut Vec<Asset>, Ghost(rank): Ghost<Seq<nat>>)
    requires
        ranked(machines@, rank),
        m < machines.len(),
    ensures
        assets_view(final(results)@) == assets_view(old(results)@) + machine_assets(machines@, rank, m as int),
    decreases rank[m as int],
{
    let ghost start = assets_view(results@);
    push_own_assets(machines, m, results, Ghost(rank));
    let ghost own = own_assets(machines@, rank, m as int);
    let refs = &machines[m].device_refs;
    assert(machines@[m as int].device_refs == *refs);
    let mut k: usize = 0;
    while k < refs.len()
        invariant
            ranked(machines@, rank),
            m < machines.len(),
            *refs == machines@[m as int].device_refs,
            k <= refs.len(),
            assets_view(results@) == start + own + refs_assets(machines@, rank, m as int, k as int),
        decreases refs.len() - k,
    {
        let ghost before = assets_view(results@);
        match refs[k] {
            Some(d) => {
                assert(machines@[m as int].device_refs@[k as int] == Some(d));
                push_machine_assets(machines, d, results, Ghost(rank));
                assert(assets_view(results@) =~= start + own + refs_assets(machines@, rank, m as int, k + 1));
            },
            None => {
                assert(assets_view(results@) =~= start + own + refs_assets(machines@, rank, m as int, k + 1));
            },
        }
        k = k + 1;
    }
    assert(assets_view(results@) =~= start + machine_assets(machines@, rank, m as int));
}

/// The ranking by which the assets of a database are defined: one of those that show
/// its links to have no cycle.
pub open spec fn db_rank(machines: Seq<MachineInfo>) -> Seq<nat> {
    choose|rank: Seq<nat>| ranked(machines, rank)
}

impl Asset {
    /// The assets of machine `machine_index`: its own (ROMs of no BIOS set or of its
    /// default one, disks and samples, looked for under its name and those of the
    /// machines it takes ROMs from), then those of the machines of the devices it
    /// references.
    pub fn from_machine(machines: &Vec<MachineInfo>, machine_index: usize) -> (r: Vec<Asset>)
        requires
            machine_index < machines.len(),
            auditable(machines@),
        ensures
            assets_view(r@) == machine_assets(machines@, db_rank(machines@), machine_index as int),
    {
        let ghost rank = db_rank(machines@);
        let mut results: Vec<Asset> = Vec::new();
        push_machine_assets(machines, machine_index, &mut results, Ghost(rank));
        assert(assets_view(results@) =~= Seq::<AssetView>::empty() + machine_assets(machines@, rank, machine_index as int));
        results
    }
}

/// An image file loaded into a device: the device's tag, the file's path, the file's
/// name (the last part of its path), and the type of the device.
#[derive(Clone, Debug)]
pub struct ImageFileInfo {
    pub tag: String,
    pub filename: String,
    pub name: String,
    pub device_type: DeviceType,
}

/// An image file as an asset: looked for at its path alone, with no known checksums.
pub open spec fn image_asset(img: ImageFileInfo) -> AssetView {
    AssetView {
        kind: AssetKind::ImageFile(img.device_type),
        name: img.name@,
        size: None,
        location: LocationView::Absolute(img.filename@),
        asset_hash: AssetHash { crc: None, sha1: None },
        status: AssetStatus::Good,
        is_optional: false,
    }
}

/// The image files that are no serial port among `ports`, as assets, in order.
pub open spec fn image_assets(images: Seq<ImageFileInfo>, ports: Seq<Seq<char>>) -> Seq<AssetView>
    decreases images.len(),
{
    if images.len() == 0 {
        Seq::empty()
    } else {
        let before = image_assets(images.drop_last(), ports);
        if ports.contains(images.last().filename@) {
            before
        } else {
            before.push(image_asset(images.last()))
        }
    }
}

/// The assets of the machines plugged into slots, machine by machine.
pub open spec fn slots_assets(machines: Seq<MachineInfo>, rank: Seq<nat>, slot_machines: Seq<usize>) -> Seq<AssetView>
    decreases slot_machines.len(),
{
    if slot_machines.len() == 0 {
        Seq::empty()
    } else {
        slots_assets(machines, rank, slot_machines.drop_last()) + machine_assets(
            machines,
            rank,
            slot_machines.last() as int,
        )
    }
}

/// Whether two assets are the same asset: same kind, name and location.
pub open spec fn same_asset_key(a: AssetView, b: AssetView) -> bool {
    a.kind == b.kind && a.name == b.name && a.location == b.location
}

/// The assets, each kept only where its kind, name and location first occur.
pub open spec fn dedup_assets(s: Seq<AssetView>) -> Seq<AssetView>
    decreases s.len(),
{
    if s.len() == 0 {
        Seq::empty()
    } else {
        let before = dedup_assets(s.drop_last());
        if exists|i: int| 0 <= i < s.len() - 1 && same_asset_key(#[trigger] s[i], s.last()) {
            before
        } else {
            before.push(s.last())
        }
    }
}

/// The assets of a machine configuration and its images: those of the machine, of the
/// machines plugged into its slots and of the image files that are no serial ports,
/// each once, where it first occurs.
pub open spec fn config_assets(
    machines: Seq<MachineInfo>,
    root: int,
    slot_machines: Seq<usize>,
    images: Seq<ImageFileInfo>,
    ports: Seq<Seq<char>>,
) -> Seq<AssetView> {
    let rank = db_rank(machines);
    dedup_assets(
        machine_assets(machines, rank, root) + slots_assets(machines, rank, slot_machines) + image_assets(
            images,
            ports,
        ),
    )
}

fn strings_eq(a: &Vec<String>, b: &Vec<String>) -> (r: bool)
    ensures
        r == (strings_view(a@) == strings_view(b@)),
{
    if a.len() != b.len() {
        assert(strings_view(a@).len() != strings_view(b@).len());
        return false;
    }
    let mut i: usize = 0;
    while i < a.len()
        invariant
            i <= a.len(),
            a.len() == b.len(),
            forall|k: int| 0 <= k < i ==> (#[trigger] a@[k])@ == b@[k]@,
        decreases a.len() - i,
    {
        if !str_eq(a[i].as_str(), b[i].as_str()) {
            assert(strings_view(a@)[i as int] != strings_view(b@)[i as int]);
            return false;
        }
        i = i + 1;
    }
    assert(strings_view(a@) =~= strings_view(b@));
    true
}

fn same_key_exec(a: &Asset, b: &Asset) -> (r: bool)
    ensures
        r == same_asset_key(asset_view(*a), asset_view(*b)),
{
    let same_location = match (&a.location, &b.location) {
        (AssetLocation::MachinePaths(x), AssetLocation::MachinePaths(y)) => strings_eq(x, y),
        (AssetLocation::Absolute(x), AssetLocation::Absolute(y)) => str_eq(x.as_str(), y.as_str()),
        _ => false,
    };
    a.kind == b.kind && str_eq(a.name.as_str(), b.name.as_str()) && same_location
}

fn copy_asset(a: &Asset) -> (r: Asset)
    ensures
        asset_view(r) == asset_view(*a),
{
    let location = match &a.location {
        AssetLocation::MachinePaths(names) => AssetLocation::MachinePaths(copy_strings(names)),
        AssetLocation::Absolute(path) => AssetLocation::Absolute(path.clone()),
    };
    Asset {
        kind: a.kind,
        name: a.name.clone(),
        size: a.size,
        location,
        asset_hash: a.asset_hash,
        status: a.status,
        is_optional: a.is_optional,
    }
}

fn dedup(all: &Vec<Asset>) -> (r: Vec<Asset>)
    ensures
        assets_view(r@) == dedup_assets(assets_view(all@)),
{
    let ghost av = assets_view(all@);
    let mut out: Vec<Asset> = Vec::new();
    let mut i: usize = 0;
    while i < all.len()
        invariant
            i <= all.len(),
            av == assets_view(all@),
            assets_view(out@) == dedup_assets(av.take(i as int)),
        decreases all.len() - i,
    {
        let ghost t = av.take(i + 1);
        proof {
            assert(t.drop_last() =~= av.take(i as int));
            assert(t.last() == asset_view(all@[i as int]));
        }
        let mut j: usize = 0;
        let mut seen = false;
        while j < i
            invariant
                j <= i,
                i < all.len(),
                av == assets_view(all@),
                t == av.take(i + 1),
                seen ==> exists|k: int| 0 <= k < t.len() - 1 && same_asset_key(#[trigger] t[k], t.last()),
                !seen ==> forall|k: int| 0 <= k < j ==> !same_asset_key(#[trigger] t[k], t.last()),
            decreases i - j,
        {
            if same_key_exec(&all[j], &all[i]) {
                assert(same_asset_key(t[j as int], t.last()));
                seen = true;
            }
            j = j + 1;
        }
        if !seen {
            let ghost before = assets_view(out@);
            let a = copy_asset(&all[i]);
            out.push(a);
            assert(assets_view(out@) =~= before.push(asset_view(all@[i as int])));
        }
        i = i + 1;
    }
    assert(av.take(all.len() as int) =~= av);
    out
}

fn push_image_assets(images: &Vec<ImageFileInfo>, ports: &Vec<String>, results: &mut Vec<Asset>)
    ensures
        assets_view(final(results)@) == assets_view(old(results)@) + image_assets(images@, strings_view(ports@)),
{
    let ghost start = assets_view(results@);
    let ghost pv = strings_view(ports@);
    let mut i: usize = 0;
    while i < images.len()
        invariant
            i <= images.len(),
            pv == strings_view(ports@),
            assets_view(results@) == start + image_assets(images@.take(i as int), pv),
        decreases images.len() - i,
    {
        let img = &images[i];
        proof {
            assert(images@.take(i + 1).drop_last() =~= images@.take(i as int));
            assert(images@.take(i + 1).last() == *img);
        }
        let mut k: usize = 0;
        let mut is_port = false;
        while k < ports.len()
            invariant
                k <= ports.len(),
                pv == strings_view(ports@),
                is_port ==> pv.contains(img.filename@),
                !is_port ==> forall|q: int| 0 <= q < k ==> pv[q] != img.filename@,
            decreases ports.len() - k,
        {
            if str_eq(ports[k].as_str(), img.filename.as_str()) {
                assert(pv[k as int] == img.filename@);
                is_port = true;
            }
            k = k + 1;
        }
        if !is_port {
            let ghost before = assets_view(results@);
            let asset = Asset {
                kind: AssetKind::ImageFile(img.device_type),
                name: img.name.clone(),
                size: None,
                location: AssetLocation::Absolute(img.filename.clone()),
                asset_hash: AssetHash { crc: None, sha1: None },
                status: AssetStatus::Good,
                is_optional: false,
            };
            results.push(asset);
            assert(assets_view(results@) =~= before.push(image_asset(*img)));
        }
        i = i + 1;
    }
    assert(images@.take(images.len() as int) =~= images@);
}

impl Asset {
    /// The assets of a machine configuration: see [`Asset::from_machine_config_and_images`],
    /// with no images.
    pub fn from_machine_config(machines: &Vec<MachineInfo>, root: usize, slot_machines: &Vec<usize>) -> (r: Vec<
        Asset,
    >)
        requires
            root < machines.len(),
            forall|k: int| 0 <= k < slot_machines.len() ==> #[trigger] slot_machines@[k] < machines.len(),
            auditable(machines@),
        ensures
            assets_view(r@) == config_assets(machines@, root as int, slot_machines@, Seq::empty(), Seq::empty()),
    {
        let images: Vec<ImageFileInfo> = Vec::new();
        let ports: Vec<String> = Vec::new();
        let r = Asset::from_machine_config_and_images(machines, root, slot_machines, &images, &ports);
        assert(images@ =~= Seq::<ImageFileInfo>::empty());
        assert(strings_view(ports@) =~= Seq::<Seq<char>>::empty());
        r
    }

    /// The assets of a machine configuration and the images loaded: those of machine
    /// `root`, then those of the machines plugged into its slots (`slot_machines`, in
    /// the order in which the slots are walked), then the image files that are no
    /// serial port of `available_ports`; each asset once, where its kind, name and
    /// location first occur.
    pub fn from_machine_config_and_images(
        machines: &Vec<MachineInfo>,
        root: usize,
        slot_machines: &Vec<usize>,
        images: &Vec<ImageFileInfo>,
        available_ports: &Vec<String>,
    ) -> (r: Vec<Asset>)
        requires
            root < machines.len(),
            forall|k: int| 0 <= k < slot_machines.len() ==> #[trigger] slot_machines@[k] < machines.len(),
            auditable(machines@),
        ensures
            assets_view(r@) == config_assets(
                machines@,
                root as int,
                slot_machines@,
                images@,
                strings_view(available_ports@),
            ),
    {
        let ghost rank = db_rank(machines@);
        let mut all: Vec<Asset> = Vec::new();
        push_machine_assets(machines, root, &mut all, Ghost(rank));
        let ghost after_root = assets_view(all@);
        let mut k: usize = 0;
        while k < slot_machines.len()
            invariant
                ranked(machines@, rank),
                k <= slot_machines.len(),
                forall|q: int| 0 <= q < slot_machines.len() ==> #[trigger] slot_machines@[q] < machines.len(),
                assets_view(all@) == after_root + slots_assets(machines@, rank, slot_machines@.take(k as int)),
            decreases slot_machines.len() - k,
        {
            proof {
                assert(slot_machines@.take(k + 1).drop_last() =~= slot_machines@.take(k as int));
                assert(slot_machines@.take(k + 1).last() == slot_machines@[k as int]);
            }
            let ghost before = assets_view(all@);
            push_machine_assets(machines, slot_machines[k], &mut all, Ghost(rank));
            assert(assets_view(all@) =~= after_root + slots_assets(machines@, rank, slot_machines@.take(k + 1)));
            k = k + 1;
        }
        assert(slot_machines@.take(slot_machines.len() as int) =~= slot_machines@);
        push_image_assets(images, available_ports, &mut all);
        assert(assets_view(all@) =~= machine_assets(machines@, rank, root as int) + slots_assets(
            machines@,
            rank,
            slot_machines@,
        ) + image_assets(images@, strings_view(available_ports@)));
        dedup(&all)
    }
}

/// The worst severity bounds every finding's severity, and is that of some finding unless
/// it is `Info`.
proof fn lemma_max_severity_bounds(ms: Seq<AuditMessage>)
    ensures
        forall|i: int| 0 <= i < ms.len() ==> rank(#[trigger] message_severity(ms[i])) <= rank(max_severity(ms)),
        max_severity(ms) == AuditSeverity::Info || exists|i: int|
            0 <= i < ms.len() && #[trigger] message_severity(ms[i]) == max_severity(ms),
    decreases ms.len(),
{
    if ms.len() > 0 {
        let prev = ms.drop_last();
        lemma_max_severity_bounds(prev);
        assert forall|i: int| 0 <= i < ms.len() implies rank(#[trigger] message_severity(ms[i])) <= rank(
            max_severity(ms),
        ) by {
            if i < ms.len() - 1 {
                assert(ms[i] == prev[i]);
            }
        }
        if max_severity(ms) != AuditSeverity::Info {
            if max_severity(ms) == max_severity(prev) {
                let i = choose|i: int| 0 <= i < prev.len() && #[trigger] message_severity(prev[i]) == max_severity(prev);
                assert(ms[i] == prev[i]);
                assert(message_severity(ms[i]) == max_severity(ms));
            } else {
                assert(message_severity(ms[ms.len() - 1]) == max_severity(ms));
            }
        }
    }
}

/// Where every finding of `ms1` is also one of `ms2` (as many times), `ms2` is at least as
/// severe, and as severe when they hold the same findings.
proof fn lemma_severity_sub_multiset(ms1: Seq<AuditMessage>, ms2: Seq<AuditMessage>)
    requires
        ms1.to_multiset().subset_of(ms2.to_multiset()),
    ensures
        rank(max_severity(ms2)) >= rank(max_severity(ms1)),
        ms1.to_multiset() == ms2.to_multiset() ==> max_severity(ms2) == max_severity(ms1),
{
    broadcast use vstd::seq_lib::group_to_multiset_ensures;

    lemma_max_severity_bounds(ms1);
    lemma_max_severity_bounds(ms2);
    if max_severity(ms1) != AuditSeverity::Info {
        let i = choose|i: int| 0 <= i < ms1.len() && #[trigger] message_severity(ms1[i]) == max_severity(ms1);
        assert(ms1.contains(ms1[i]));
        assert(ms1.to_multiset().count(ms1[i]) > 0);
        assert(ms2.to_multiset().count(ms1[i]) > 0);
        assert(ms2.contains(ms1[i]));
        let j = choose|j: int| 0 <= j < ms2.len() && ms2[j] == ms1[i];
        assert(rank(message_severity(ms2[j])) <= rank(max_severity(ms2)));
    }
    if ms1.to_multiset() == ms2.to_multiset() && max_severity(ms2) != AuditSeverity::Info {
        let i = choose|i: int| 0 <= i < ms2.len() && #[trigger] message_severity(ms2[i]) == max_severity(ms2);
        assert(ms2.contains(ms2[i]));
        assert(ms2.to_multiset().count(ms2[i]) > 0);
        assert(ms1.contains(ms2[i]));
        let j = choose|j: int| 0 <= j < ms1.len() && ms1[j] == ms2[i];
        assert(rank(message_severity(ms1[j])) <= rank(max_severity(ms1)));
    }
}

/// The severity of an audit result (what `AuditResult::severity` returns, the
/// `max_severity` of its findings) does not depend on the order of its findings, and
/// adding findings never lowers it: where `r2`'s findings are a permutation of `r1`'s
/// findings followed by the findings `extra`, `r2` is at least as severe as `r1` (by
/// `rank`), and exactly as severe when there are no extra findings.
pub proof fn lemma_severity_order_and_additions(r1: AuditResult, r2: AuditResult, extra: Seq<AuditMessage>)
    requires
        r2.messages@.to_multiset() == (r1.messages@ + extra).to_multiset(),
    ensures
        rank(max_severity(r2.messages@)) >= rank(max_severity(r1.messages@)),
        extra.len() == 0 ==> max_severity(r2.messages@) == max_severity(r1.messages@),
{
    broadcast use vstd::seq_lib::group_to_multiset_ensures;

    vstd::seq_lib::lemma_multiset_commutative(r1.messages@, extra);
    assert(r1.messages@.to_multiset().subset_of(r2.messages@.to_multiset()));
    if extra.len() == 0 {
        assert(r1.messages@ + extra =~= r1.messages@);
    }
    lemma_severity_sub_multiset(r1.messages@, r2.messages@);
}

/// No two assets of a configuration are the same asset.
pub proof fn lemma_dedup_unique(s: Seq<AssetView>)
    ensures
        forall|i: int, j: int|
            0 <= i < j < dedup_assets(s).len() ==> !same_asset_key(#[trigger] dedup_assets(s)[i], #[trigger] dedup_assets(s)[j]),
        forall|i: int| 0 <= i < dedup_assets(s).len() ==> s.contains(#[trigger] dedup_assets(s)[i]),
    decreases s.len(),
{
    if s.len() > 0 {
        let prefix = s.drop_last();
        lemma_dedup_unique(prefix);
        let d = dedup_assets(prefix);
        let x = s.last();
        assert forall|i: int| 0 <= i < d.len() implies s.contains(#[trigger] d[i]) by {
            assert(prefix.contains(d[i]));
            let k = choose|k: int| 0 <= k < prefix.len() && prefix[k] == d[i];
            assert(s[k] == d[i]);
        }
        if !(exists|i: int| 0 <= i < s.len() - 1 && same_asset_key(#[trigger] s[i], x)) {
            assert forall|i: int| 0 <= i < d.len() implies !same_asset_key(#[trigger] d[i], x) by {
                assert(prefix.contains(d[i]));
                let k = choose|k: int| 0 <= k < prefix.len() && prefix[k] == d[i];
                assert(s[k] == prefix[k]);
                if same_asset_key(d[i], x) {
                    assert(same_asset_key(s[k], x));
                }
            }
            assert(s[s.len() - 1] == x);
        }
    }
}

} // verus!
