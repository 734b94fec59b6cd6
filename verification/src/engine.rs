use vstd::prelude::*;
use crate::detection::{Configuration, Detection};
use crate::strutil::{
    chars_to_string, push_chars_of_str, spec_ends_with, str_ends_with, views_of,
};

verus! {

/// Declares yara::Compiler, the rule compiler, as an opaque outside type.
#[verifier::external_type_specification]
#[verifier::external_body]
pub struct ExCompiler(yara::Compiler);

/// Declares yara::Rules, the compiled rule set, as an opaque outside type.
#[verifier::external_type_specification]
#[verifier::external_body]
pub struct ExRules(yara::Rules);

/// Relies on yara::Compiler::new: a fresh rule compiler, or the engine's
/// initialization error.
#[verifier::external_body]
fn compiler_new() -> (r: Result<yara::Compiler, String>) {
    yara::Compiler::new().map_err(|e| e.to_string())
}

/// Relies on yara::Compiler::add_rules_file: the compiler extended with the
/// rule definitions read from the file at `path`, or the error that reading
/// or parsing them raised.
#[verifier::external_body]
fn compiler_add_rules_file(c: yara::Compiler, path: &String) -> (r: Result<
    yara::Compiler,
    String,
>) {
    c.add_rules_file(path.as_str()).map_err(|e| e.to_string())
}

/// Relies on yara::Compiler::compile_rules: the compiled, immutable rule set,
/// or the compilation error.
#[verifier::external_body]
fn compiler_compile(c: yara::Compiler) -> (r: Result<yara::Rules, String>) {
    c.compile_rules().map_err(|e| e.to_string())
}

/// Relies on yara::Rules::scan_file: the identifiers of the rules matching
/// the contents of the file at `path`, in the engine's order, or the engine's
/// error; beside it, the call's elapsed wall time in whole seconds, measured
/// with std::time::Instant.
#[verifier::external_body]
fn timed_scan_file(rules: &yara::Rules, path: &String, timeout: i32) -> (r: (
    Result<Vec<String>, String>,
    u64,
)) {
    let begin = std::time::Instant::now();
    let res = match rules.scan_file(path.as_str(), timeout) {
        Ok(matched) => Ok(matched.iter().map(|m| m.identifier.to_string()).collect()),
        Err(e) => Err(e.to_string()),
    };
    (res, begin.elapsed().as_secs())
}

/// Relies on std::time::SystemTime: the clock's seconds since the unix epoch,
/// 0 if the clock stands before the epoch.
#[verifier::external_body]
fn unix_now() -> (t: u64) {
    match std::time::SystemTime::now().duration_since(std::time::UNIX_EPOCH) {
        Ok(d) => d.as_secs(),
        Err(_) => 0,
    }
}

/// Relies on walkdir::WalkDir: the paths under `root`, directories included
/// and symlinked directories followed; entries the walk could not read are
/// skipped.
#[verifier::external_body]
pub(crate) fn walk_paths(root: &String) -> (r: Vec<String>) {
    walkdir::WalkDir::new(root.as_str())
        .follow_links(true)
        .into_iter()
        .filter_map(|e| e.ok())
        .map(|e| e.path().to_string_lossy().to_string())
        .collect()
}

/// A path names a rule source file.
pub open spec fn spec_is_rule_file(p: Seq<char>) -> bool {
    spec_ends_with(p, ".yar"@) || spec_ends_with(p, ".yara"@)
}

pub fn is_rule_file(p: &str) -> (r: bool)
    ensures
        r == spec_is_rule_file(p@),
{
    str_ends_with(p, ".yar") || str_ends_with(p, ".yara")
}

/// The subsequence of `entries` naming rule source files, order kept.
pub open spec fn spec_rule_files(entries: Seq<Seq<char>>) -> Seq<Seq<char>>
    decreases entries.len(),
{
    if entries.len() == 0 {
        Seq::empty()
    } else {
        let rest = spec_rule_files(entries.drop_last());
        if spec_is_rule_file(entries.last()) {
            rest.push(entries.last())
        } else {
            rest
        }
    }
}

pub fn select_rule_files(entries: &Vec<String>) -> (r: Vec<String>)
    ensures
        views_of(r@) == spec_rule_files(views_of(entries@)),
{
    let ghost all = views_of(entries@);
    let mut r: Vec<String> = Vec::new();
    let mut i: usize = 0;
    while i < entries.len()
        invariant
            i <= entries.len(),
            all == views_of(entries@),
            views_of(r@) == spec_rule_files(all.take(i as int)),
        decreases entries.len() - i,
    {
        assert(all.take(i + 1).drop_last() =~= all.take(i as int));
        assert(all.take(i + 1).last() == entries@[i as int]@);
        if is_rule_file(entries[i].as_str()) {
            let ghost prev = r@;
            r.push(entries[i].clone());
            assert(views_of(r@) =~= views_of(prev).push(entries@[i as int]@));
        }
        assert(views_of(r@) == spec_rule_files(all.take(i + 1)));
        i += 1;
    }
    assert(all.take(entries@.len() as int) =~= all);
    r
}

/// What the file's outside probe found: whether it is a regular file or a
/// symlink, and if so whether its metadata could be read and how many bytes
/// it holds.
pub enum ProbeOutcome {
    /// The path is neither a regular file nor a symlink.
    NotScannable,
    /// Metadata lookup failed, with the message describing the failure.
    MetadataFailed(String),
    /// Metadata lookup succeeded; the file holds this many bytes.
    Sized(u64),
}

/// The plain facts the filesystem probe of one candidate path hands to the
/// engine: the path to record (canonical where canonicalization succeeded),
/// the canonicalization error if there was one, and the probe's outcome.
pub struct FileProbe {
    pub path: String,
    pub canon_error: Option<String>,
    pub outcome: ProbeOutcome,
}

/// The message recorded when the matching engine fails on a file.
pub open spec fn spec_scan_error_msg(path: Seq<char>, msg: Seq<char>) -> Seq<char> {
    "Can't scan "@ + path + ": "@ + msg
}

/// How a detection reflects the matching engine's answer `res` for a file of
/// `size` bytes at `path`: on success the matched identifiers become the tags
/// and any earlier canonicalization error is kept; on failure the engine's
/// error replaces it and no tags are recorded.
pub open spec fn spec_scan_applied(
    d: Detection,
    path: Seq<char>,
    canon_err: Option<String>,
    size: u64,
    res: Result<Vec<String>, String>,
) -> bool {
    &&& d.path@ == path
    &&& d.size == size
    &&& match res {
        Ok(tags) => d.tags@ == tags@ && d.detected == (tags@.len() > 0) && d.error == canon_err,
        Err(m) => {
            &&& d.tags@.len() == 0
            &&& !d.detected
            &&& d.error matches Some(em) && em@ == spec_scan_error_msg(path, m@)
        },
    }
}

/// Builds the detection for a file that was handed to the matching engine,
/// from the engine's answer.
pub fn detection_from_scan(
    path: String,
    canon_error: Option<String>,
    scanned_at: u64,
    time: u64,
    size: u64,
    res: Result<Vec<String>, String>,
) -> (d: Detection)
    ensures
        d.wf(),
        d.scanned_at == scanned_at,
        d.time == time,
        spec_scan_applied(d, path@, canon_error, size, res),
{
    match res {
        Ok(tags) => {
            let detected = tags.len() > 0;
            Detection { path, size, scanned_at, time, error: canon_error, detected, tags }
        },
        Err(m) => {
            let mut v: Vec<char> = Vec::new();
            push_chars_of_str(&mut v, "Can't scan ");
            push_chars_of_str(&mut v, path.as_str());
            push_chars_of_str(&mut v, ": ");
            push_chars_of_str(&mut v, m.as_str());
            let msg = chars_to_string(v);
            proof {
                assert(msg@ =~= spec_scan_error_msg(path@, m@));
            }
            Detection {
                path,
                size,
                scanned_at,
                time,
                error: Some(msg),
                detected: false,
                tags: Vec::new(),
            }
        },
    }
}

/// The matching engine: the compiled rule set and the configuration it was
/// loaded with, shared read-only across all scan jobs.
pub struct Engine {
    config: Configuration,
    rules: yara::Rules,
}

impl Engine {
    pub closed spec fn spec_config(&self) -> Configuration {
        self.config
    }

    /// Loads and compiles the rule set. A path naming a single rule file is
    /// loaded alone; any other path is walked recursively and every rule file
    /// found under it is loaded. Failure to read or compile any of them is
    /// the startup error.
    pub fn new(config: Configuration) -> (r: Result<Engine, String>)
        ensures
            r matches Ok(e) ==> e.spec_config().data_path@ == config.data_path@
                && e.spec_config().timeout == config.timeout,
    {
        let rule_files: Vec<String> = if is_rule_file(config.data_path.as_str()) {
            let mut only: Vec<String> = Vec::new();
            only.push(config.data_path.clone());
            only
        } else {
            let entries = walk_paths(&config.data_path);
            select_rule_files(&entries)
        };
        let mut compiler = match compiler_new() {
            Ok(c) => c,
            Err(e) => {
                return Err(e);
            },
        };
        let mut i: usize = 0;
        while i < rule_files.len()
            invariant
                i <= rule_files.len(),
            decreases rule_files.len() - i,
        {
            compiler = match compiler_add_rules_file(compiler, &rule_files[i]) {
                Ok(c) => c,
                Err(e) => {
                    return Err(e);
                },
            };
            i += 1;
        }
        let rules = match compiler_compile(compiler) {
            Ok(r) => r,
            Err(e) => {
                return Err(e);
            },
        };
        Ok(Engine { config, rules })
    }

    /// Scans one probed candidate. Never fails: every failure is captured
    /// inside the returned detection. A path that is not a regular file or
    /// symlink, a failed metadata lookup, and an empty file all skip the
    /// matching engine and leave time at 0; only a file with at least one
    /// byte is handed to it.
    pub fn scan(&self, probe: FileProbe) -> (d: Detection)
        ensures
            d.wf(),
            d.path@ == probe.path@,
            probe.outcome is NotScannable ==> d.size == 0 && d.time == 0 && !d.detected
                && d.tags@.len() == 0 && d.error == probe.canon_error,
            probe.outcome matches ProbeOutcome::MetadataFailed(m) ==> d.size == 0 && d.time == 0
                && !d.detected && d.tags@.len() == 0 && d.error == Some(m),
            probe.outcome matches ProbeOutcome::Sized(sz) ==> {
                &&& d.size == sz
                &&& sz == 0 ==> d.time == 0 && !d.detected && d.tags@.len() == 0 && d.error
                    == probe.canon_error
                &&& sz > 0 ==> exists|res: Result<Vec<String>, String>|
                    spec_scan_applied(d, probe.path@, probe.canon_error, sz, res)
            },
    {
        let ghost gprobe = probe;
        let scanned_at = unix_now();
        match probe.outcome {
            ProbeOutcome::NotScannable => Detection {
                path: probe.path,
                size: 0,
                scanned_at,
                time: 0,
                error: probe.canon_error,
                detected: false,
                tags: Vec::new(),
            },
            ProbeOutcome::MetadataFailed(m) => Detection {
                path: probe.path,
                size: 0,
                scanned_at,
                time: 0,
                error: Some(m),
                detected: false,
                tags: Vec::new(),
            },
            ProbeOutcome::Sized(size) => {
                if size == 0 {
                    Detection {
                        path: probe.path,
                        size: 0,
                        scanned_at,
                        time: 0,
                        error: probe.canon_error,
                        detected: false,
                        tags: Vec::new(),
                    }
                } else {
                    let (res, time) = timed_scan_file(&self.rules, &probe.path, self.config.timeout);
                    let ghost gres = res;
                    let d = detection_from_scan(
                        probe.path,
                        probe.canon_error,
                        scanned_at,
                        time,
                        size,
                        res,
                    );
                    proof {
                        assert(spec_scan_applied(d, gprobe.path@, gprobe.canon_error, size, gres));
                    }
                    d
                }
            },
        }
    }
}

} // verus!
