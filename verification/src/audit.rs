//! Rendering of a dependency security audit: one block per vulnerability
//! finding, followed by summary counts.

use vstd::prelude::*;
use crate::text::{str_eq, u64_string, spec_dec};
use crate::types::{OsvAffected, OsvEvent, OsvRange, OsvReference, OsvVulnerability};

verus! {

/// A vulnerability finding associated with a dependency.
pub struct Finding {
    pub dep_name: String,
    pub vuln: OsvVulnerability,
}

/// The fixed-version line of one version event, empty when the event
/// records no fix.
pub open spec fn spec_event_line(e: OsvEvent) -> Seq<char> {
    match e.fixed {
        Some(fx) => "- **Fixed in**: "@ + fx@ + "\n"@,
        None => Seq::<char>::empty(),
    }
}

/// The fixed-version lines of a range's events, concatenated.
pub open spec fn spec_events_lines(es: Seq<OsvEvent>) -> Seq<char>
    decreases es.len(),
{
    if es.len() == 0 {
        Seq::<char>::empty()
    } else {
        spec_events_lines(es.drop_last()) + spec_event_line(es.last())
    }
}

/// The fixed-version lines of a list of ranges, concatenated.
pub open spec fn spec_ranges_lines(rs: Seq<OsvRange>) -> Seq<char>
    decreases rs.len(),
{
    if rs.len() == 0 {
        Seq::<char>::empty()
    } else {
        spec_ranges_lines(rs.drop_last()) + spec_events_lines(rs.last().events@)
    }
}

/// The fixed-version lines of a list of affected records, concatenated.
pub open spec fn spec_affected_lines(afs: Seq<OsvAffected>) -> Seq<char>
    decreases afs.len(),
{
    if afs.len() == 0 {
        Seq::<char>::empty()
    } else {
        spec_affected_lines(afs.drop_last()) + (match afs.last().ranges {
            Some(rs) => spec_ranges_lines(rs@),
            None => Seq::<char>::empty(),
        })
    }
}

/// The first advisory reference of a list, if any.
pub open spec fn spec_find_advisory(rs: Seq<OsvReference>) -> Option<OsvReference>
    decreases rs.len(),
{
    if rs.len() == 0 {
        None
    } else if rs[0].ref_type@ == "ADVISORY"@ {
        Some(rs[0])
    } else {
        spec_find_advisory(rs.drop_first(), )
    }
}

/// The reference line of a finding: the first advisory reference when one
/// exists, else the first reference of any kind, else nothing.
pub open spec fn spec_reference_line(refs: Seq<OsvReference>) -> Seq<char> {
    match spec_find_advisory(refs) {
        Some(r) => "- **Advisory**: "@ + r.url@ + "\n"@,
        None => if refs.len() > 0 {
            "- **Reference**: "@ + refs[0].url@ + "\n"@
        } else {
            Seq::<char>::empty()
        },
    }
}

/// The full block rendered for one finding.
pub open spec fn spec_finding_block(f: Finding) -> Seq<char> {
    "### "@ + f.dep_name@ + " -- "@ + f.vuln.id@ + "\n\n"@ + (match f.vuln.summary {
        Some(su) => "- **Summary**: "@ + su@ + "\n"@,
        None => Seq::<char>::empty(),
    }) + (match f.vuln.severity {
        Some(sv) => if sv@.len() > 0 {
            "- **Severity**: "@ + sv@[0].severity_type@ + " ("@ + sv@[0].score@ + ")\n"@
        } else {
            Seq::<char>::empty()
        },
        None => Seq::<char>::empty(),
    }) + (match f.vuln.affected {
        Some(afs) => spec_affected_lines(afs@),
        None => Seq::<char>::empty(),
    }) + (match f.vuln.references {
        Some(rs) => spec_reference_line(rs@),
        None => Seq::<char>::empty(),
    }) + "\n"@
}

/// The blocks of a list of findings, concatenated.
pub open spec fn spec_finding_blocks(fs: Seq<Finding>) -> Seq<char>
    decreases fs.len(),
{
    if fs.len() == 0 {
        Seq::<char>::empty()
    } else {
        spec_finding_blocks(fs.drop_last()) + spec_finding_block(fs.last())
    }
}

/// Whether some finding of `s` names the dependency `nm`.
pub open spec fn spec_has_name(s: Seq<Finding>, nm: Seq<char>) -> bool {
    exists|j: int| 0 <= j < s.len() && #[trigger] s[j].dep_name@ == nm
}

/// The number of distinct dependency names among the findings.
pub open spec fn spec_distinct_names(fs: Seq<Finding>) -> nat
    decreases fs.len(),
{
    if fs.len() == 0 {
        0nat
    } else {
        spec_distinct_names(fs.drop_last()) + (if spec_has_name(
            fs.drop_last(),
            fs.last().dep_name@,
        ) {
            0nat
        } else {
            1nat
        })
    }
}

/// The complete audit report for a crate version.
pub open spec fn spec_format_findings(
    crate_name: Seq<char>,
    version: Seq<char>,
    findings: Seq<Finding>,
    deps_checked: nat,
) -> Seq<char> {
    "# Security Audit: "@ + crate_name + " v"@ + version + "\n\n"@ + (if findings.len() == 0 {
        "No known vulnerabilities found.\n\n"@
    } else {
        "## Vulnerabilities Found\n\n"@ + spec_finding_blocks(findings)
    }) + "## Summary\n\n"@ + "- **Dependencies checked**: "@ + spec_dec(deps_checked) + "\n"@
        + "- **Vulnerabilities found**: "@ + spec_dec(findings.len()) + "\n"@
        + "- **Affected dependencies**: "@ + spec_dec(spec_distinct_names(findings)) + "\n"@
}

fn events_lines(es: &Vec<OsvEvent>) -> (r: String)
    ensures
        r@ == spec_events_lines(es@),
{
    let mut out = String::new();
    let n: usize = es.len();
    let mut i: usize = 0;
    proof {
        assert(es@.take(0) =~= Seq::<OsvEvent>::empty());
    }
    while i < n
        invariant
            n == es@.len(),
            i <= n,
            out@ == spec_events_lines(es@.take(i as int)),
        decreases n - i,
    {
        match &es[i].fixed {
            Some(fx) => {
                out.append("- **Fixed in**: ");
                out.append(fx.as_str());
                out.append("\n");
            },
            None => {},
        }
        proof {
            assert(es@.take(i as int + 1).drop_last() =~= es@.take(i as int));
            assert(es@.take(i as int + 1).last() == es@[i as int]);
            assert(out@ =~= spec_events_lines(es@.take(i as int + 1)));
        }
        i = i + 1;
    }
    proof {
        assert(es@.take(n as int) =~= es@);
    }
    out
}

fn ranges_lines(rs: &Vec<OsvRange>) -> (r: String)
    ensures
        r@ == spec_ranges_lines(rs@),
{
    let mut out = String::new();
    let n: usize = rs.len();
    let mut i: usize = 0;
    proof {
        assert(rs@.take(0) =~= Seq::<OsvRange>::empty());
    }
    while i < n
        invariant
            n == rs@.len(),
            i <= n,
            out@ == spec_ranges_lines(rs@.take(i as int)),
        decreases n - i,
    {
        let ls = events_lines(&rs[i].events);
        out.append(ls.as_str());
        proof {
            assert(rs@.take(i as int + 1).drop_last() =~= rs@.take(i as int));
            assert(rs@.take(i as int + 1).last() == rs@[i as int]);
            assert(out@ =~= spec_ranges_lines(rs@.take(i as int + 1)));
        }
        i = i + 1;
    }
    proof {
        assert(rs@.take(n as int) =~= rs@);
    }
    out
}

fn affected_lines(afs: &Vec<OsvAffected>) -> (r: String)
    ensures
        r@ == spec_affected_lines(afs@),
{
    let mut out = String::new();
    let n: usize = afs.len();
    let mut i: usize = 0;
    proof {
        assert(afs@.take(0) =~= Seq::<OsvAffected>::empty());
    }
    while i < n
        invariant
            n == afs@.len(),
            i <= n,
            out@ == spec_affected_lines(afs@.take(i as int)),
        decreases n - i,
    {
        match &afs[i].ranges {
            Some(rs) => {
                let ls = ranges_lines(rs);
                out.append(ls.as_str());
            },
            None => {},
        }
        proof {
            assert(afs@.take(i as int + 1).drop_last() =~= afs@.take(i as int));
            assert(afs@.take(i as int + 1).last() == afs@[i as int]);
            assert(out@ =~= spec_affected_lines(afs@.take(i as int + 1)));
        }
        i = i + 1;
    }
    proof {
        assert(afs@.take(n as int) =~= afs@);
    }
    out
}

fn reference_line(refs: &Vec<OsvReference>) -> (r: String)
    ensures
        r@ == spec_reference_line(refs@),
{
    let n: usize = refs.len();
    let mut i: usize = 0;
    proof {
        assert(refs@.skip(0) =~= refs@);
    }
    while i < n
        invariant
            n == refs@.len(),
            i <= n,
            spec_find_advisory(refs@) == spec_find_advisory(refs@.skip(i as int)),
        decreases n - i,
    {
        proof {
            assert(refs@.skip(i as int)[0] == refs@[i as int]);
            assert(refs@.skip(i as int).drop_first() =~= refs@.skip(i as int + 1));
        }
        if str_eq(refs[i].ref_type.as_str(), "ADVISORY") {
            let mut out = String::from_str("- **Advisory**: ");
            out.append(refs[i].url.as_str());
            out.append("\n");
            proof {
                assert(out@ =~= spec_reference_line(refs@));
            }
            return out;
        }
        i = i + 1;
    }
    proof {
        assert(refs@.skip(n as int).len() == 0);
    }
    if refs.len() > 0 {
        let mut out = String::from_str("- **Reference**: ");
        out.append(refs[0].url.as_str());
        out.append("\n");
        proof {
            assert(out@ =~= spec_reference_line(refs@));
        }
        out
    } else {
        String::new()
    }
}

fn finding_block(f: &Finding) -> (r: String)
    ensures
        r@ == spec_finding_block(*f),
{
    let mut out = String::from_str("### ");
    out.append(f.dep_name.as_str());
    out.append(" -- ");
    out.append(f.vuln.id.as_str());
    out.append("\n\n");
    match &f.vuln.summary {
        Some(su) => {
            out.append("- **Summary**: ");
            out.append(su.as_str());
            out.append("\n");
        },
        None => {},
    }
    match &f.vuln.severity {
        Some(sv) => {
            if sv.len() > 0 {
                out.append("- **Severity**: ");
                out.append(sv[0].severity_type.as_str());
                out.append(" (");
                out.append(sv[0].score.as_str());
                out.append(")\n");
            }
        },
        None => {},
    }
    match &f.vuln.affected {
        Some(afs) => {
            let ls = affected_lines(afs);
            out.append(ls.as_str());
        },
        None => {},
    }
    match &f.vuln.references {
        Some(rs) => {
            let ls = reference_line(rs);
            out.append(ls.as_str());
        },
        None => {},
    }
    out.append("\n");
    proof {
        assert(out@ =~= spec_finding_block(*f));
    }
    out
}

fn has_earlier_name(findings: &Vec<Finding>, i: usize) -> (r: bool)
    requires
        i < findings@.len(),
    ensures
        r == spec_has_name(findings@.take(i as int), findings@[i as int].dep_name@),
{
    let mut j: usize = 0;
    while j < i
        invariant
            i < findings@.len(),
            j <= i,
            forall|x: int| 0 <= x < j ==> #[trigger] findings@[x].dep_name@
                != findings@[i as int].dep_name@,
        decreases i - j,
    {
        if str_eq(findings[j].dep_name.as_str(), findings[i].dep_name.as_str()) {
            proof {
                assert(findings@.take(i as int)[j as int].dep_name@
                    == findings@[i as int].dep_name@);
            }
            return true;
        }
        j = j + 1;
    }
    proof {
        assert forall|x: int|
            0 <= x < findings@.take(i as int).len() implies #[trigger] findings@.take(
            i as int,
        )[x].dep_name@ != findings@[i as int].dep_name@ by {
            assert(findings@.take(i as int)[x] == findings@[x]);
        }
    }
    false
}

/// Render the audit report: each finding as a block with its summary,
/// severity, fixed versions and advisory link, followed by summary counts
/// of dependencies checked, vulnerabilities found and distinct affected
/// dependencies.
pub fn format_findings(
    crate_name: &str,
    version: &str,
    findings: &Vec<Finding>,
    deps_checked: usize,
) -> (r: String)
    ensures
        r@ == spec_format_findings(crate_name@, version@, findings@, deps_checked as nat),
{
    let mut out = String::from_str("# Security Audit: ");
    out.append(crate_name);
    out.append(" v");
    out.append(version);
    out.append("\n\n");
    if findings.len() == 0 {
        out.append("No known vulnerabilities found.\n\n");
    } else {
        out.append("## Vulnerabilities Found\n\n");
        let n: usize = findings.len();
        let mut i: usize = 0;
        let ghost base = out@;
        proof {
            assert(findings@.take(0) =~= Seq::<Finding>::empty());
        }
        while i < n
            invariant
                n == findings@.len(),
                i <= n,
                out@ == base + spec_finding_blocks(findings@.take(i as int)),
            decreases n - i,
        {
            let b = finding_block(&findings[i]);
            out.append(b.as_str());
            proof {
                assert(findings@.take(i as int + 1).drop_last() =~= findings@.take(i as int));
                assert(findings@.take(i as int + 1).last() == findings@[i as int]);
                assert(out@ =~= base + spec_finding_blocks(findings@.take(i as int + 1)));
            }
            i = i + 1;
        }
        proof {
            assert(findings@.take(n as int) =~= findings@);
        }
    }
    let mut distinct: usize = 0;
    let n: usize = findings.len();
    let mut i: usize = 0;
    proof {
        assert(findings@.take(0) =~= Seq::<Finding>::empty());
    }
    while i < n
        invariant
            n == findings@.len(),
            i <= n,
            distinct <= i,
            distinct as nat == spec_distinct_names(findings@.take(i as int)),
        decreases n - i,
    {
        let dup = has_earlier_name(findings, i);
        if !dup {
            distinct = distinct + 1;
        }
        proof {
            assert(findings@.take(i as int + 1).drop_last() =~= findings@.take(i as int));
            assert(findings@.take(i as int + 1).last() == findings@[i as int]);
        }
        i = i + 1;
    }
    proof {
        assert(findings@.take(n as int) =~= findings@);
    }
    out.append("## Summary\n\n");
    out.append("- **Dependencies checked**: ");
    let d1 = u64_string(deps_checked as u64);
    out.append(d1.as_str());
    out.append("\n");
    out.append("- **Vulnerabilities found**: ");
    let d2 = u64_string(findings.len() as u64);
    out.append(d2.as_str());
    out.append("\n");
    out.append("- **Affected dependencies**: ");
    let d3 = u64_string(distinct as u64);
    out.append(d3.as_str());
    out.append("\n");
    proof {
        assert(out@ =~= spec_format_findings(
            crate_name@,
            version@,
            findings@,
            deps_checked as nat,
        ));
    }
    out
}

} // verus!
