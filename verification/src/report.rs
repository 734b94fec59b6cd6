use vstd::prelude::*;
use crate::detection::Detection;
use crate::strutil::{
    chars_to_string, push_chars_of_str, push_dec_u64, spec_dec, spec_join, views_of,
};

verus! {

/// The hexadecimal digit character for a value below 16.
pub open spec fn spec_hex_digit(d: nat) -> char {
    if d < 10 {
        ((48 + d) as u8) as char
    } else {
        ((87 + d) as u8) as char
    }
}

/// The JSON escaping of one character.
pub open spec fn spec_escape_char(c: char) -> Seq<char> {
    if c == '"' {
        seq!['\\', '"']
    } else if c == '\\' {
        seq!['\\', '\\']
    } else if c == '\n' {
        seq!['\\', 'n']
    } else if c == '\r' {
        seq!['\\', 'r']
    } else if c == '\t' {
        seq!['\\', 't']
    } else if (c as u32) < 32 {
        seq!['\\', 'u', '0', '0', spec_hex_digit((c as u32 / 16) as nat), spec_hex_digit(
            (c as u32 % 16) as nat,
        )]
    } else {
        seq![c]
    }
}

/// The JSON escaping of a character sequence.
pub open spec fn spec_escape(s: Seq<char>) -> Seq<char>
    decreases s.len(),
{
    if s.len() == 0 {
        Seq::empty()
    } else {
        spec_escape(s.drop_last()) + spec_escape_char(s.last())
    }
}

/// The JSON rendering of one string value, quoted and escaped.
pub open spec fn spec_json_string(s: Seq<char>) -> Seq<char> {
    seq!['"'] + spec_escape(s) + seq!['"']
}

/// The JSON renderings of a sequence of string values.
pub open spec fn spec_json_strings(parts: Seq<Seq<char>>) -> Seq<Seq<char>> {
    parts.map_values(|p: Seq<char>| spec_json_string(p))
}

/// The JSON rendering of one detection: an object with the detection's
/// fields in declaration order.
pub open spec fn spec_json_detection(d: Detection) -> Seq<char> {
    "{\"path\":"@ + spec_json_string(d.path@) + ",\"size\":"@ + spec_dec(d.size as nat)
        + ",\"scanned_at\":"@ + spec_dec(d.scanned_at as nat) + ",\"time\":"@ + spec_dec(
        d.time as nat,
    ) + ",\"error\":"@ + (match d.error {
        Option::None => "null"@,
        Option::Some(e) => spec_json_string(e@),
    }) + ",\"detected\":"@ + (if d.detected {
        "true"@
    } else {
        "false"@
    }) + ",\"tags\":["@ + spec_join(spec_json_strings(views_of(d.tags@)), ","@) + "]}"@
}

/// The complete JSON document for the accumulated detections.
pub open spec fn spec_json_doc(ds: Seq<Detection>) -> Seq<char> {
    "{\"detections\":["@ + spec_join(
        ds.map_values(|d: Detection| spec_json_detection(d)),
        ","@,
    ) + "]}"@
}

fn hex_digit(d: u8) -> (c: char)
    requires
        d < 16,
    ensures
        c == spec_hex_digit(d as nat),
{
    if d < 10 {
        (48 + d) as char
    } else {
        (87 + d) as char
    }
}

fn push_escaped(out: &mut Vec<char>, s: &str)
    ensures
        final(out)@ == old(out)@ + spec_escape(s@),
{
    let n = s.unicode_len();
    let mut i: usize = 0;
    while i < n
        invariant
            i <= n,
            n == s@.len(),
            out@ == old(out)@ + spec_escape(s@.take(i as int)),
        decreases n - i,
    {
        let c = s.get_char(i);
        if c == '"' {
            out.push('\\');
            out.push('"');
        } else if c == '\\' {
            out.push('\\');
            out.push('\\');
        } else if c == '\n' {
            out.push('\\');
            out.push('n');
        } else if c == '\r' {
            out.push('\\');
            out.push('r');
        } else if c == '\t' {
            out.push('\\');
            out.push('t');
        } else if (c as u32) < 32 {
            out.push('\\');
            out.push('u');
            out.push('0');
            out.push('0');
            let v = c as u32;
            out.push(hex_digit((v / 16) as u8));
            out.push(hex_digit((v % 16) as u8));
        } else {
            out.push(c);
        }
        proof {
            assert(s@.take(i + 1).drop_last() =~= s@.take(i as int));
            assert(s@.take(i + 1).last() == s@[i as int]);
            assert(out@ =~= old(out)@ + spec_escape(s@.take(i + 1)));
        }
        i += 1;
    }
    assert(s@.take(n as int) =~= s@);
}

fn push_json_string(out: &mut Vec<char>, s: &str)
    ensures
        final(out)@ == old(out)@ + spec_json_string(s@),
{
    out.push('"');
    push_escaped(out, s);
    out.push('"');
    assert(out@ =~= old(out)@ + spec_json_string(s@));
}

proof fn lemma_join_step(parts: Seq<Seq<char>>, sep: Seq<char>, i: int)
    requires
        0 <= i < parts.len(),
    ensures
        i == 0 ==> spec_join(parts.take(1), sep) == parts[0],
        i > 0 ==> spec_join(parts.take(i + 1), sep) == spec_join(parts.take(i), sep) + sep
            + parts[i],
{
    assert(parts.take(i + 1).drop_last() =~= parts.take(i));
    assert(parts.take(i + 1).last() == parts[i]);
    if i == 0 {
        assert(parts.take(1).len() == 1);
        assert(parts.take(1)[0] == parts[0]);
    }
}

#[verifier::rlimit(100)]
fn push_json_detection(out: &mut Vec<char>, d: &Detection)
    ensures
        final(out)@ == old(out)@ + spec_json_detection(*d),
{
    push_chars_of_str(out, "{\"path\":");
    push_json_string(out, d.path.as_str());
    push_chars_of_str(out, ",\"size\":");
    push_dec_u64(out, d.size);
    push_chars_of_str(out, ",\"scanned_at\":");
    push_dec_u64(out, d.scanned_at);
    push_chars_of_str(out, ",\"time\":");
    push_dec_u64(out, d.time);
    push_chars_of_str(out, ",\"error\":");
    match &d.error {
        Option::None => push_chars_of_str(out, "null"),
        Option::Some(e) => push_json_string(out, e.as_str()),
    }
    push_chars_of_str(out, ",\"detected\":");
    if d.detected {
        push_chars_of_str(out, "true");
    } else {
        push_chars_of_str(out, "false");
    }
    push_chars_of_str(out, ",\"tags\":[");
    let ghost parts = spec_json_strings(views_of(d.tags@));
    let ghost prefix = out@;
    proof {
        assert(out@ =~= prefix + spec_join(parts.take(0), ","@));
    }
    let mut i: usize = 0;
    while i < d.tags.len()
        invariant
            i <= d.tags@.len(),
            parts == spec_json_strings(views_of(d.tags@)),
            out@ == prefix + spec_join(parts.take(i as int), ","@),
        decreases d.tags@.len() - i,
    {
        proof {
            lemma_join_step(parts, ","@, i as int);
        }
        if i > 0 {
            push_chars_of_str(out, ",");
        }
        push_json_string(out, d.tags[i].as_str());
        proof {
            assert(parts[i as int] == spec_json_string(d.tags@[i as int]@));
            assert(out@ =~= prefix + spec_join(parts.take(i + 1), ","@));
        }
        i += 1;
    }
    proof {
        assert(parts.take(d.tags@.len() as int) =~= parts);
    }
    push_chars_of_str(out, "]}");
    assert(out@ =~= old(out)@ + spec_json_detection(*d));
}

/// Renders the complete JSON document for the accumulated detections.
pub fn render_json_doc(ds: &Vec<Detection>) -> (s: String)
    ensures
        s@ == spec_json_doc(ds@),
{
    let mut out: Vec<char> = Vec::new();
    push_chars_of_str(&mut out, "{\"detections\":[");
    let ghost parts = ds@.map_values(|d: Detection| spec_json_detection(d));
    let ghost prefix = out@;
    proof {
        assert(out@ =~= prefix + spec_join(parts.take(0), ","@));
    }
    let mut i: usize = 0;
    while i < ds.len()
        invariant
            i <= ds@.len(),
            parts == ds@.map_values(|d: Detection| spec_json_detection(d)),
            out@ == prefix + spec_join(parts.take(i as int), ","@),
        decreases ds@.len() - i,
    {
        proof {
            lemma_join_step(parts, ","@, i as int);
        }
        if i > 0 {
            push_chars_of_str(&mut out, ",");
        }
        push_json_detection(&mut out, &ds[i]);
        proof {
            assert(parts[i as int] == spec_json_detection(ds@[i as int]));
            assert(out@ =~= prefix + spec_join(parts.take(i + 1), ","@));
        }
        i += 1;
    }
    proof {
        assert(parts.take(ds@.len() as int) =~= parts);
    }
    push_chars_of_str(&mut out, "]}");
    proof {
        assert(out@ =~= spec_json_doc(ds@));
    }
    chars_to_string(out)
}

/// The one-line, human-readable message for a detection: its error text, or
/// the malware alert with the matched rules, or the clean notice.
pub open spec fn spec_message(d: Detection) -> Seq<char> {
    match d.error {
        Option::Some(e) => e@,
        Option::None => if d.detected {
            "MALWARE DETECTED: '"@ + d.path@ + "' by rules: '"@ + spec_join(
                views_of(d.tags@),
                ", "@,
            ) + "'"@
        } else {
            d.path@ + " - clean"@
        },
    }
}

pub fn render_message(d: &Detection) -> (s: String)
    ensures
        s@ == spec_message(*d),
{
    match &d.error {
        Option::Some(e) => {
            let mut v: Vec<char> = Vec::new();
            push_chars_of_str(&mut v, e.as_str());
            let s = chars_to_string(v);
            proof {
                assert(s@ =~= spec_message(*d));
            }
            s
        },
        Option::None => {
            if d.detected {
                let mut v: Vec<char> = Vec::new();
                push_chars_of_str(&mut v, "MALWARE DETECTED: '");
                push_chars_of_str(&mut v, d.path.as_str());
                push_chars_of_str(&mut v, "' by rules: '");
                let ghost parts = views_of(d.tags@);
                let ghost prefix = v@;
                proof {
                    assert(v@ =~= prefix + spec_join(parts.take(0), ", "@));
                }
                let mut i: usize = 0;
                while i < d.tags.len()
                    invariant
                        i <= d.tags@.len(),
                        parts == views_of(d.tags@),
                        v@ == prefix + spec_join(parts.take(i as int), ", "@),
                    decreases d.tags@.len() - i,
                {
                    proof {
                        lemma_join_step(parts, ", "@, i as int);
                    }
                    if i > 0 {
                        push_chars_of_str(&mut v, ", ");
                    }
                    push_chars_of_str(&mut v, d.tags[i].as_str());
                    proof {
                        assert(parts[i as int] == d.tags@[i as int]@);
                        assert(v@ =~= prefix + spec_join(parts.take(i + 1), ", "@));
                    }
                    i += 1;
                }
                proof {
                    assert(parts.take(d.tags@.len() as int) =~= parts);
                }
                push_chars_of_str(&mut v, "'");
                let s = chars_to_string(v);
                proof {
                    assert(s@ =~= spec_message(*d));
                }
                s
            } else {
                let mut v: Vec<char> = Vec::new();
                push_chars_of_str(&mut v, d.path.as_str());
                push_chars_of_str(&mut v, " - clean");
                let s = chars_to_string(v);
                proof {
                    assert(s@ =~= spec_message(*d));
                }
                s
            }
        },
    }
}

/// The report policy: which detections are written, in which format, and
/// whether an output file is configured at all.
pub struct ReportPolicy {
    pub report_clean: bool,
    pub report_errors: bool,
    pub report_json: bool,
    pub has_output: bool,
}

/// Whether a detection is written at all: error-bearing detections only when
/// errors are asked for, positive detections always, clean detections only
/// when clean results are asked for.
pub open spec fn spec_reportable(d: Detection, pol: ReportPolicy) -> bool {
    if d.error is Some {
        pol.report_errors
    } else if d.detected {
        true
    } else {
        pol.report_clean
    }
}

/// What the caller must do to the output file after one report call.
pub enum WriteCommand {
    /// Nothing is written.
    NoWrite,
    /// Append exactly this text.
    Append(String),
    /// Truncate the file and write exactly this text in its place.
    Rewrite(String),
}

/// What one report call asks of its unverified surroundings.
pub struct ReportOutcome {
    pub command: WriteCommand,
    /// A positive detection additionally triggers a best-effort desktop
    /// notification; its failure is no part of the reporting contract.
    pub notify_user: bool,
}

/// The report sink: the policy and, for JSON output, the detections reported
/// so far. Mutated one call at a time, under the caller's mutual exclusion.
pub struct Report {
    policy: ReportPolicy,
    detections: Vec<Detection>,
}

impl Report {
    pub closed spec fn spec_policy(&self) -> ReportPolicy {
        self.policy
    }

    pub closed spec fn spec_detections(&self) -> Seq<Detection> {
        self.detections@
    }

    /// A fresh sink with no detections reported yet.
    pub fn setup(policy: ReportPolicy) -> (r: Report)
        ensures
            r.spec_policy() == policy,
            r.spec_detections().len() == 0,
    {
        Report { policy, detections: Vec::new() }
    }

    pub fn detection_count(&self) -> (n: usize)
        ensures
            n == self.spec_detections().len(),
    {
        self.detections.len()
    }

    /// One report call. A non-reportable detection is dropped without a
    /// write and without growing the accumulated list. A reportable one,
    /// when an output is configured, is appended as its one-line message in
    /// plain-text mode; in JSON mode it joins the accumulated list and the
    /// whole document is rewritten, so the file is a complete document whose
    /// list holds exactly the reportable calls made so far. A positive
    /// detection asks for a desktop notification in every case.
    pub fn report(&mut self, detection: Detection) -> (out: ReportOutcome)
        ensures
            final(self).spec_policy() == old(self).spec_policy(),
            out.notify_user == (detection.error is None && detection.detected),
            (!spec_reportable(detection, old(self).spec_policy()) || !old(
                self,
            ).spec_policy().has_output) ==> {
                &&& out.command is NoWrite
                &&& final(self).spec_detections() == old(self).spec_detections()
            },
            (spec_reportable(detection, old(self).spec_policy()) && old(
                self,
            ).spec_policy().has_output && old(self).spec_policy().report_json) ==> {
                &&& final(self).spec_detections() == old(self).spec_detections().push(detection)
                &&& out.command matches WriteCommand::Rewrite(s) && s@ == spec_json_doc(
                    old(self).spec_detections().push(detection),
                )
            },
            (spec_reportable(detection, old(self).spec_policy()) && old(
                self,
            ).spec_policy().has_output && !old(self).spec_policy().report_json) ==> {
                &&& final(self).spec_detections() == old(self).spec_detections()
                &&& out.command matches WriteCommand::Append(s) && s@ == spec_message(detection)
                    + "\n"@
            },
    {
        let notify_user = detection.error.is_none() && detection.detected;
        let reportable = if detection.error.is_some() {
            self.policy.report_errors
        } else if detection.detected {
            true
        } else {
            self.policy.report_clean
        };
        if reportable && self.policy.has_output {
            if self.policy.report_json {
                self.detections.push(detection);
                let doc = render_json_doc(&self.detections);
                ReportOutcome { command: WriteCommand::Rewrite(doc), notify_user }
            } else {
                let msg = render_message(&detection);
                let mut v: Vec<char> = Vec::new();
                push_chars_of_str(&mut v, msg.as_str());
                push_chars_of_str(&mut v, "\n");
                let line = chars_to_string(v);
                ReportOutcome { command: WriteCommand::Append(line), notify_user }
            }
        } else {
            ReportOutcome { command: WriteCommand::NoWrite, notify_user }
        }
    }
}

/// The subsequence of detections a policy reports, order kept: what the
/// accumulated JSON list holds after one report call per detection, starting
/// from a fresh sink. Each report call's contract is the induction step.
pub open spec fn spec_kept(ds: Seq<Detection>, pol: ReportPolicy) -> Seq<Detection>
    decreases ds.len(),
{
    if ds.len() == 0 {
        Seq::empty()
    } else {
        let rest = spec_kept(ds.drop_last(), pol);
        if spec_reportable(ds.last(), pol) {
            rest.push(ds.last())
        } else {
            rest
        }
    }
}

/// How many of the detections the policy reports.
pub open spec fn spec_count_reportable(ds: Seq<Detection>, pol: ReportPolicy) -> nat
    decreases ds.len(),
{
    if ds.len() == 0 {
        0
    } else {
        spec_count_reportable(ds.drop_last(), pol) + (if spec_reportable(ds.last(), pol) {
            1nat
        } else {
            0nat
        })
    }
}

/// Report-count law: after any sequence of report calls, the accumulated
/// list's length equals the cumulative count of reportable calls made so
/// far.
pub proof fn lemma_report_accumulation(ds: Seq<Detection>, pol: ReportPolicy)
    ensures
        spec_kept(ds, pol).len() == spec_count_reportable(ds, pol),
    decreases ds.len(),
{
    if ds.len() > 0 {
        lemma_report_accumulation(ds.drop_last(), pol);
    }
}

} // verus!
