//! Decisions of the administrator CLI (`oqtoctl`): what the setup doctor
//! reports and suggests for its findings, which safe fixes it applies,
//! the install profile, user IDs and Linux usernames, and the request
//! paths and labels it prints.
//!
//! Running commands, talking to the server and printing are the caller's
//! part.

use vstd::prelude::*;
use crate::text::{
    ascii_lower, chars_of, contains_seq, is_alnum, is_alpha, is_digit, is_lower, lex_lt, lit,
    lowercase_of, sort_strings, str_contains, strings_sorted, strings_view, strip_prefix,
    strip_prefix_str, strip_suffix, strip_suffix_str, starts_with, trim,
};

verus! {

broadcast use vstd::string::group_string_axioms;

// ---------------------------------------------------------------------------
// Findings
// ---------------------------------------------------------------------------

/// How serious a finding is.
#[derive(Debug, Clone, Copy, PartialEq, Eq, Structural)]
pub enum CheckSeverity {
    Error,
    Warning,
    Info,
}

/// One discrepancy between the expected setup and what was observed.
#[derive(Debug, Clone)]
pub struct ContractFinding {
    /// Dotted identifier, e.g. `service.oqto.service.active`.
    pub id: String,
    pub severity: CheckSeverity,
    pub expected: String,
    pub observed: String,
    pub remediation: String,
}

/// How many findings there are of each severity.
#[derive(Debug, Clone, Copy)]
pub struct ContractFindingSummary {
    pub errors: usize,
    pub warnings: usize,
    pub info: usize,
}

/// A finding about one user of a team install: its ID is
/// `team.user.{username}.{suffix}` and its expectation names the user ID.
pub fn team_user_finding(
    user_id: &str,
    username: &str,
    suffix: &str,
    severity: CheckSeverity,
    expected: &str,
    observed: &str,
    remediation: &str,
) -> (r: ContractFinding)
    ensures
        r.id@ == "team.user."@ + username@ + "."@ + suffix@,
        r.severity == severity,
        r.expected@ == expected@ + " (user_id="@ + user_id@ + ")"@,
        r.observed@ == observed@,
        r.remediation@ == remediation@,
{
    let mut id = lit("team.user.");
    id.append(username);
    id.append(".");
    id.append(suffix);
    let mut exp = lit(expected);
    exp.append(" (user_id=");
    exp.append(user_id);
    exp.append(")");
    ContractFinding {
        id,
        severity,
        expected: exp,
        observed: lit(observed),
        remediation: lit(remediation),
    }
}

/// The number of findings of severity `s`.
pub open spec fn count_severity(f: Seq<ContractFinding>, s: CheckSeverity) -> nat
    decreases f.len(),
{
    if f.len() == 0 {
        0
    } else {
        count_severity(f.drop_last(), s) + if f.last().severity == s {
            1nat
        } else {
            0nat
        }
    }
}

proof fn lemma_count_bound(f: Seq<ContractFinding>, s: CheckSeverity)
    ensures
        count_severity(f, s) <= f.len(),
    decreases f.len(),
{
    if f.len() > 0 {
        lemma_count_bound(f.drop_last(), s);
    }
}

/// Counts the findings by severity.
pub fn contract_finding_summary(findings: &Vec<ContractFinding>) -> (r: ContractFindingSummary)
    ensures
        r.errors == count_severity(findings@, CheckSeverity::Error),
        r.warnings == count_severity(findings@, CheckSeverity::Warning),
        r.info == count_severity(findings@, CheckSeverity::Info),
{
    let mut s = ContractFindingSummary { errors: 0, warnings: 0, info: 0 };
    let mut i: usize = 0;
    while i < findings.len()
        invariant
            i <= findings@.len(),
            s.errors == count_severity(findings@.subrange(0, i as int), CheckSeverity::Error),
            s.warnings == count_severity(findings@.subrange(0, i as int), CheckSeverity::Warning),
            s.info == count_severity(findings@.subrange(0, i as int), CheckSeverity::Info),
        decreases findings.len() - i,
    {
        let ghost pre = findings@.subrange(0, i as int);
        assert(findings@.subrange(0, i + 1).drop_last() =~= pre);
        proof {
            lemma_count_bound(pre, CheckSeverity::Error);
            lemma_count_bound(pre, CheckSeverity::Warning);
            lemma_count_bound(pre, CheckSeverity::Info);
        }
        match findings[i].severity {
            CheckSeverity::Error => s.errors = s.errors + 1,
            CheckSeverity::Warning => s.warnings = s.warnings + 1,
            CheckSeverity::Info => s.info = s.info + 1,
        }
        i = i + 1;
    }
    assert(findings@.subrange(0, i as int) =~= findings@);
    s
}

/// The IDs of the findings.
pub open spec fn finding_ids(f: Seq<ContractFinding>) -> Seq<Seq<char>> {
    Seq::new(f.len(), |i: int| f[i].id@)
}

/// The present values of `s`, each once, in order of first appearance.
pub open spec fn unique_in_order(s: Seq<Option<Seq<char>>>) -> Seq<Seq<char>>
    decreases s.len(),
{
    if s.len() == 0 {
        Seq::empty()
    } else {
        let u = unique_in_order(s.drop_last());
        match s.last() {
            Some(x) => if u.contains(x) {
                u
            } else {
                u.push(x)
            },
            None => u,
        }
    }
}

fn push_unique(v: &mut Vec<String>, x: Option<String>)
    ensures
        strings_view(final(v)@) == match x {
            Some(s) => if strings_view(old(v)@).contains(s@) {
                strings_view(old(v)@)
            } else {
                strings_view(old(v)@).push(s@)
            },
            None => strings_view(old(v)@),
        },
{
    if let Some(s) = x {
        let mut found = false;
        let mut i: usize = 0;
        while i < v.len()
            invariant
                i <= v@.len(),
                v@ == old(v)@,
                found <==> exists|k: int| 0 <= k < i && #[trigger] strings_view(v@)[k] == s@,
            decreases v.len() - i,
        {
            if v[i] == s {
                assert(strings_view(v@)[i as int] == s@);
                found = true;
            }
            i = i + 1;
        }
        if !found {
            v.push(s);
            assert(strings_view(v@) =~= strings_view(old(v)@).push(s@));
        }
    }
}

/// The user whose runner socket a finding is about: `alice` for
/// `team.user.alice.runner.socket.canonical` or
/// `team.user.alice.runner.socket.split-routing`.
pub open spec fn runner_username(id: Seq<char>) -> Option<Seq<char>> {
    match strip_prefix(id, "team.user."@) {
        Some(rest) => match strip_suffix(rest, ".runner.socket.canonical"@) {
            Some(u) => Some(u),
            None => strip_suffix(rest, ".runner.socket.split-routing"@),
        },
        None => None,
    }
}

fn runner_username_of(id: &str) -> (r: Option<String>)
    ensures
        match runner_username(id@) {
            Some(u) => r matches Some(x) && x@ == u,
            None => r is None,
        },
{
    match strip_prefix_str(id, "team.user.") {
        Some(rest) => match strip_suffix_str(rest.as_str(), ".runner.socket.canonical") {
            Some(u) => Some(u),
            None => strip_suffix_str(rest.as_str(), ".runner.socket.split-routing"),
        },
        None => None,
    }
}

/// The users whose runner must be set up again: those named by runner
/// socket findings, each once, in order.
pub fn runner_apply_usernames(findings: &Vec<ContractFinding>) -> (r: Vec<String>)
    ensures
        strings_view(r@) == unique_in_order(
            Seq::new(findings@.len(), |i: int| runner_username(findings@[i].id@)),
        ),
{
    let ghost all = Seq::new(findings@.len(), |i: int| runner_username(findings@[i].id@));
    let mut r: Vec<String> = Vec::new();
    let mut i: usize = 0;
    while i < findings.len()
        invariant
            i <= findings@.len(),
            all == Seq::new(findings@.len(), |i: int| runner_username(findings@[i].id@)),
            strings_view(r@) == unique_in_order(all.subrange(0, i as int)),
        decreases findings.len() - i,
    {
        assert(all.subrange(0, i + 1).drop_last() =~= all.subrange(0, i as int));
        assert(all.subrange(0, i + 1).last() == runner_username(findings@[i as int].id@));
        let u = runner_username_of(findings[i].id.as_str());
        push_unique(&mut r, u);
        i = i + 1;
    }
    assert(all.subrange(0, i as int) =~= all);
    r
}

/// The service a finding says is not `state` (".enabled" or ".active"):
/// `oqto.service` for `service.oqto.service.enabled`.
pub open spec fn service_not(id: Seq<char>, state: Seq<char>) -> Option<Seq<char>> {
    match strip_prefix(id, "service."@) {
        Some(rest) => strip_suffix(rest, state),
        None => None,
    }
}

fn service_not_of(id: &str, state: &str) -> (r: Option<String>)
    ensures
        match service_not(id@, state@) {
            Some(s) => r matches Some(x) && x@ == s,
            None => r is None,
        },
{
    match strip_prefix_str(id, "service.") {
        Some(rest) => strip_suffix_str(rest.as_str(), state),
        None => None,
    }
}

/// The command suggested for a finding, if any: recreate the runner
/// socket directory; redo the Linux user isolation step for sudoers
/// problems; enable or start a service; set up a user's runner again; run
/// the doctor with `--apply` for identity problems.
pub open spec fn suggested_command(id: Seq<char>) -> Option<Seq<char>> {
    if starts_with(id, "path./run/oqto/runner-sockets."@) {
        Some("sudo install -d -m 2770 -o root -g oqto /run/oqto/runner-sockets"@)
    } else if id == "path./etc/sudoers.d/oqto-multiuser.missing"@ || id == "team.sudoers.valid"@ {
        Some("./setup.sh --team --redo linux_user_isolation"@)
    } else if service_not(id, ".enabled"@) is Some {
        Some("sudo systemctl enable "@ + service_not(id, ".enabled"@).unwrap())
    } else if service_not(id, ".active"@) is Some {
        Some("sudo systemctl start "@ + service_not(id, ".active"@).unwrap())
    } else if strip_prefix(id, "team.user."@) is Some {
        match runner_username(id) {
            Some(u) => Some("sudo oqtoctl user setup-runner "@ + u + " --force"@),
            None => None,
        }
    } else if contains_seq(id, "identity.linux_uid"@) || contains_seq(id, "identity.linux_username"@) {
        Some("sudo oqtoctl doctor --apply"@)
    } else {
        None
    }
}

fn suggested_command_of(id: &str) -> (r: Option<String>)
    ensures
        match suggested_command(id@) {
            Some(c) => r matches Some(x) && x@ == c,
            None => r is None,
        },
{
    if strip_prefix_str(id, "path./run/oqto/runner-sockets.").is_some() {
        return Some(lit("sudo install -d -m 2770 -o root -g oqto /run/oqto/runner-sockets"));
    }
    let t = lit(id);
    if t == lit("path./etc/sudoers.d/oqto-multiuser.missing") || t == lit("team.sudoers.valid") {
        return Some(lit("./setup.sh --team --redo linux_user_isolation"));
    }
    if let Some(s) = service_not_of(id, ".enabled") {
        let mut c = lit("sudo systemctl enable ");
        c.append(s.as_str());
        return Some(c);
    }
    if let Some(s) = service_not_of(id, ".active") {
        let mut c = lit("sudo systemctl start ");
        c.append(s.as_str());
        return Some(c);
    }
    if strip_prefix_str(id, "team.user.").is_some() {
        return match runner_username_of(id) {
            Some(u) => {
                let mut c = lit("sudo oqtoctl user setup-runner ");
                c.append(u.as_str());
                c.append(" --force");
                Some(c)
            },
            None => None,
        };
    }
    if str_contains(id, "identity.linux_uid") || str_contains(id, "identity.linux_username") {
        return Some(lit("sudo oqtoctl doctor --apply"));
    }
    None
}

/// The commands suggested for the findings, each once, in order.
pub fn suggested_contract_commands(findings: &Vec<ContractFinding>) -> (r: Vec<String>)
    ensures
        strings_view(r@) == unique_in_order(
            Seq::new(findings@.len(), |i: int| suggested_command(findings@[i].id@)),
        ),
{
    let ghost all = Seq::new(findings@.len(), |i: int| suggested_command(findings@[i].id@));
    let mut r: Vec<String> = Vec::new();
    let mut i: usize = 0;
    while i < findings.len()
        invariant
            i <= findings@.len(),
            all == Seq::new(findings@.len(), |i: int| suggested_command(findings@[i].id@)),
            strings_view(r@) == unique_in_order(all.subrange(0, i as int)),
        decreases findings.len() - i,
    {
        assert(all.subrange(0, i + 1).drop_last() =~= all.subrange(0, i as int));
        assert(all.subrange(0, i + 1).last() == suggested_command(findings@[i as int].id@));
        let c = suggested_command_of(findings[i].id.as_str());
        push_unique(&mut r, c);
        i = i + 1;
    }
    assert(all.subrange(0, i as int) =~= all);
    r
}

/// The setup doctor's suggestions name the fix for each kind of finding: a
/// finding whose ID is `team.sudoers.valid` or
/// `path./etc/sudoers.d/oqto-multiuser.missing` brings the command that
/// redoes the Linux user isolation step, and a finding about the runner
/// socket directory (an ID starting with `path./run/oqto/runner-sockets.`)
/// brings the command that recreates that directory; whatever else is
/// found, and in whatever order.
pub proof fn law_contract_commands(findings: Seq<ContractFinding>)
    ensures
        ({
            let cmds = unique_in_order(Seq::new(findings.len(), |i: int| suggested_command(findings[i].id@)));
            &&& (exists|i: int|
                0 <= i < findings.len() && (#[trigger] findings[i].id@ == "team.sudoers.valid"@
                    || findings[i].id@ == "path./etc/sudoers.d/oqto-multiuser.missing"@))
                ==> cmds.contains("./setup.sh --team --redo linux_user_isolation"@)
            &&& (exists|i: int|
                0 <= i < findings.len() && starts_with(#[trigger] findings[i].id@, "path./run/oqto/runner-sockets."@))
                ==> cmds.contains("sudo install -d -m 2770 -o root -g oqto /run/oqto/runner-sockets"@)
        }),
{
    let all = Seq::new(findings.len(), |i: int| suggested_command(findings[i].id@));
    law_unique_in_order(all);
    reveal_strlit("team.sudoers.valid");
    reveal_strlit("path./etc/sudoers.d/oqto-multiuser.missing");
    reveal_strlit("path./run/oqto/runner-sockets.");
    if exists|i: int|
        0 <= i < findings.len() && (#[trigger] findings[i].id@ == "team.sudoers.valid"@
            || findings[i].id@ == "path./etc/sudoers.d/oqto-multiuser.missing"@) {
        let i = choose|i: int|
            0 <= i < findings.len() && (#[trigger] findings[i].id@ == "team.sudoers.valid"@
                || findings[i].id@ == "path./etc/sudoers.d/oqto-multiuser.missing"@);
        let id = findings[i].id@;
        assert(!starts_with(id, "path./run/oqto/runner-sockets."@)) by {
            if id == "team.sudoers.valid"@ {
                assert(id.len() < "path./run/oqto/runner-sockets."@.len());
            } else {
                assert(id[6] != "path./run/oqto/runner-sockets."@[6]);
                assert(id.subrange(0, 30)[6] == id[6]);
            }
        }
        assert(all[i] == Some("./setup.sh --team --redo linux_user_isolation"@));
        assert(all.contains(Some("./setup.sh --team --redo linux_user_isolation"@)));
    }
    if exists|i: int| 0 <= i < findings.len() && starts_with(#[trigger] findings[i].id@, "path./run/oqto/runner-sockets."@) {
        let i = choose|i: int|
            0 <= i < findings.len() && starts_with(#[trigger] findings[i].id@, "path./run/oqto/runner-sockets."@);
        assert(all[i] == Some("sudo install -d -m 2770 -o root -g oqto /run/oqto/runner-sockets"@));
        assert(all.contains(Some("sudo install -d -m 2770 -o root -g oqto /run/oqto/runner-sockets"@)));
    }
}

proof fn lemma_service_finding(n: Seq<char>, state: Seq<char>)
    requires
        state == ".enabled"@ || state == ".active"@,
    ensures
        ({
            let id = "service."@ + n + state;
            &&& !starts_with(id, "path./run/oqto/runner-sockets."@)
            &&& id != "path./etc/sudoers.d/oqto-multiuser.missing"@
            &&& id != "team.sudoers.valid"@
            &&& strip_prefix(id, "service."@) == Some(n + state)
            &&& service_not(id, state) == Some(n)
            &&& (state == ".active"@ ==> service_not(id, ".enabled"@) is None)
        }),
{
    reveal_strlit("service.");
    reveal_strlit(".enabled");
    reveal_strlit(".active");
    reveal_strlit("path./run/oqto/runner-sockets.");
    reveal_strlit("path./etc/sudoers.d/oqto-multiuser.missing");
    reveal_strlit("team.sudoers.valid");
    let pre = "service."@;
    let id = pre + n + state;
    assert(id[0] == 's');
    if id.len() >= 30 {
        assert(id.subrange(0, 30)[0] == id[0]);
    }
    assert(id != "path./etc/sudoers.d/oqto-multiuser.missing"@) by {
        if id == "path./etc/sudoers.d/oqto-multiuser.missing"@ {
            assert(id[0] == 'p');
        }
    }
    assert(id != "team.sudoers.valid"@) by {
        if id == "team.sudoers.valid"@ {
            assert(id[0] == 't');
        }
    }
    assert(id.subrange(0, 8) =~= pre);
    assert(id.subrange(8, id.len() as int) =~= n + state);
    let rest = n + state;
    assert(rest.subrange(rest.len() - state.len(), rest.len() as int) =~= state);
    assert(rest.subrange(0, rest.len() - state.len()) =~= n);
    if state == ".active"@ {
        if rest.len() >= 8 {
            assert(rest.subrange(rest.len() - 8, rest.len() as int)[7] == rest[rest.len() - 1]);
            assert(rest[rest.len() - 1] == 'e');
            assert(".enabled"@[7] == 'd');
        }
    }
}

/// A finding that a service is not enabled (`service.<name>.enabled`) or
/// not active (`service.<name>.active`) brings the command that enables,
/// respectively starts, that very service, whatever else is found.
pub proof fn law_service_commands(findings: Seq<ContractFinding>, n: Seq<char>)
    ensures
        ({
            let cmds = unique_in_order(Seq::new(findings.len(), |i: int| suggested_command(findings[i].id@)));
            &&& (exists|i: int| 0 <= i < findings.len() && #[trigger] findings[i].id@ == "service."@ + n + ".enabled"@)
                ==> cmds.contains("sudo systemctl enable "@ + n)
            &&& (exists|i: int| 0 <= i < findings.len() && #[trigger] findings[i].id@ == "service."@ + n + ".active"@)
                ==> cmds.contains("sudo systemctl start "@ + n)
        }),
{
    let all = Seq::new(findings.len(), |i: int| suggested_command(findings[i].id@));
    law_unique_in_order(all);
    lemma_service_finding(n, ".enabled"@);
    lemma_service_finding(n, ".active"@);
    if exists|i: int| 0 <= i < findings.len() && #[trigger] findings[i].id@ == "service."@ + n + ".enabled"@ {
        let i = choose|i: int| 0 <= i < findings.len() && #[trigger] findings[i].id@ == "service."@ + n + ".enabled"@;
        assert(all[i] == Some("sudo systemctl enable "@ + n));
        assert(all.contains(Some("sudo systemctl enable "@ + n)));
    }
    if exists|i: int| 0 <= i < findings.len() && #[trigger] findings[i].id@ == "service."@ + n + ".active"@ {
        let i = choose|i: int| 0 <= i < findings.len() && #[trigger] findings[i].id@ == "service."@ + n + ".active"@;
        assert(all[i] == Some("sudo systemctl start "@ + n));
        assert(all.contains(Some("sudo systemctl start "@ + n)));
    }
}

// ---------------------------------------------------------------------------
// Safe fixes
// ---------------------------------------------------------------------------

/// A repair the doctor may apply on its own.
#[derive(Debug, Clone)]
pub enum SafeFix {
    /// Recreate `/run/oqto/runner-sockets` as root:oqto, mode 2770.
    RepairRunnerSocketDir,
    /// Set the user's runner up again.
    ReprovisionRunner(String),
    /// `systemctl enable` the service.
    EnableService(String),
    /// `systemctl start` the service.
    StartService(String),
}

/// A safe fix, by its texts.
pub enum FixView {
    RepairRunnerSocketDir,
    ReprovisionRunner(Seq<char>),
    EnableService(Seq<char>),
    StartService(Seq<char>),
}

/// The texts of a safe fix.
pub open spec fn fix_view(f: SafeFix) -> FixView {
    match f {
        SafeFix::RepairRunnerSocketDir => FixView::RepairRunnerSocketDir,
        SafeFix::ReprovisionRunner(u) => FixView::ReprovisionRunner(u@),
        SafeFix::EnableService(s) => FixView::EnableService(s@),
        SafeFix::StartService(s) => FixView::StartService(s@),
    }
}

/// Some finding is about the runner socket directory.
pub open spec fn needs_socket_dir_fix(ids: Seq<Seq<char>>) -> bool {
    exists|i: int| 0 <= i < ids.len() && starts_with(#[trigger] ids[i], "path./run/oqto/runner-sockets."@)
}

/// The service fixes for the findings, in order: enable a service that is
/// not enabled, otherwise start one that is not active.
pub open spec fn service_fixes(ids: Seq<Seq<char>>) -> Seq<FixView>
    decreases ids.len(),
{
    if ids.len() == 0 {
        Seq::empty()
    } else {
        let prev = service_fixes(ids.drop_last());
        match service_not(ids.last(), ".enabled"@) {
            Some(s) => prev.push(FixView::EnableService(s)),
            None => match service_not(ids.last(), ".active"@) {
                Some(s) => prev.push(FixView::StartService(s)),
                None => prev,
            },
        }
    }
}

/// The safe fixes for the findings, in the order they are applied: the
/// socket directory first when needed, then (when runners are to be fixed)
/// each affected user's runner, then (when services are to be fixed) the
/// service fixes.
pub open spec fn planned_fixes(ids: Seq<Seq<char>>, apply_services: bool, apply_runners: bool) -> Seq<
    FixView,
> {
    let runners = Seq::new(
        unique_in_order(Seq::new(ids.len(), |i: int| runner_username(ids[i]))).len(),
        |k: int|
            FixView::ReprovisionRunner(
                unique_in_order(Seq::new(ids.len(), |i: int| runner_username(ids[i])))[k],
            ),
    );
    (if needs_socket_dir_fix(ids) {
        seq![FixView::RepairRunnerSocketDir]
    } else {
        Seq::empty()
    }) + (if apply_runners {
        runners
    } else {
        Seq::empty()
    }) + (if apply_services {
        service_fixes(ids)
    } else {
        Seq::empty()
    })
}

/// The texts of a list of fixes.
pub open spec fn fixes_view(v: Seq<SafeFix>) -> Seq<FixView> {
    Seq::new(v.len(), |i: int| fix_view(v[i]))
}

/// The safe fixes to apply for the findings (see `planned_fixes`).
pub fn safe_fix_plan(findings: &Vec<ContractFinding>, apply_services: bool, apply_runners: bool) -> (r:
    Vec<SafeFix>)
    ensures
        fixes_view(r@) == planned_fixes(finding_ids(findings@), apply_services, apply_runners),
{
    let ghost ids = finding_ids(findings@);
    let mut plan: Vec<SafeFix> = Vec::new();
    let mut needs = false;
    let mut i: usize = 0;
    while i < findings.len()
        invariant
            i <= findings@.len(),
            ids == finding_ids(findings@),
            needs <==> exists|k: int| 0 <= k < i && starts_with(#[trigger] ids[k], "path./run/oqto/runner-sockets."@),
        decreases findings.len() - i,
    {
        if strip_prefix_str(findings[i].id.as_str(), "path./run/oqto/runner-sockets.").is_some() {
            assert(starts_with(ids[i as int], "path./run/oqto/runner-sockets."@));
            needs = true;
        }
        i = i + 1;
    }
    let ghost part1 = if needs_socket_dir_fix(ids) {
        seq![FixView::RepairRunnerSocketDir]
    } else {
        Seq::empty()
    };
    if needs {
        plan.push(SafeFix::RepairRunnerSocketDir);
    }
    assert(fixes_view(plan@) =~= part1);
    let ghost users_all = Seq::new(ids.len(), |i: int| runner_username(ids[i]));
    assert(users_all =~= Seq::new(findings@.len(), |i: int| runner_username(findings@[i].id@)));
    let ghost users = unique_in_order(users_all);
    let ghost runners = Seq::new(users.len(), |k: int| FixView::ReprovisionRunner(users[k]));
    let ghost part2 = if apply_runners {
        runners
    } else {
        Seq::empty()
    };
    if apply_runners {
        let names = runner_apply_usernames(findings);
        let mut k: usize = 0;
        while k < names.len()
            invariant
                k <= names@.len(),
                strings_view(names@) == users,
                runners == Seq::new(users.len(), |k: int| FixView::ReprovisionRunner(users[k])),
                fixes_view(plan@) == part1 + runners.subrange(0, k as int),
            decreases names.len() - k,
        {
            let ghost before = plan@;
            plan.push(SafeFix::ReprovisionRunner(names[k].clone()));
            assert(fixes_view(plan@) =~= fixes_view(before).push(FixView::ReprovisionRunner(names@[k as int]@)));
            assert(strings_view(names@)[k as int] == names@[k as int]@);
            assert(runners.subrange(0, k + 1) =~= runners.subrange(0, k as int).push(runners[k as int]));
            k = k + 1;
        }
        assert(runners.subrange(0, k as int) =~= runners);
    }
    assert(fixes_view(plan@) =~= part1 + part2);
    if apply_services {
        let ghost base = fixes_view(plan@);
        let mut j: usize = 0;
        while j < findings.len()
            invariant
                j <= findings@.len(),
                ids == finding_ids(findings@),
                base == part1 + part2,
                fixes_view(plan@) == base + service_fixes(ids.subrange(0, j as int)),
            decreases findings.len() - j,
        {
            let id = findings[j].id.as_str();
            let ghost pre = ids.subrange(0, j as int);
            assert(ids.subrange(0, j + 1).drop_last() =~= pre);
            assert(ids.subrange(0, j + 1).last() == id@);
            let ghost before = plan@;
            match service_not_of(id, ".enabled") {
                Some(s) => {
                    plan.push(SafeFix::EnableService(s));
                    assert(fixes_view(plan@) =~= fixes_view(before).push(FixView::EnableService(service_not(id@, ".enabled"@).unwrap())));
                },
                None => match service_not_of(id, ".active") {
                    Some(s) => {
                        plan.push(SafeFix::StartService(s));
                        assert(fixes_view(plan@) =~= fixes_view(before).push(FixView::StartService(service_not(id@, ".active"@).unwrap())));
                    },
                    None => {},
                },
            }
            j = j + 1;
        }
        assert(ids.subrange(0, j as int) =~= ids);
    } else {
        assert(part1 + part2 + Seq::<FixView>::empty() =~= part1 + part2);
    }
    plan
}

/// What the doctor reports after applying a fix.
pub open spec fn fix_message(f: FixView) -> Seq<char> {
    match f {
        FixView::RepairRunnerSocketDir => "repaired /run/oqto/runner-sockets owner/group/mode (root:oqto 2770)"@,
        FixView::ReprovisionRunner(u) => "reprovisioned oqto-runner for "@ + u,
        FixView::EnableService(s) => "enabled system service "@ + s,
        FixView::StartService(s) => "started system service "@ + s,
    }
}

/// The report line for an applied fix.
pub fn applied_fix_message(fix: &SafeFix) -> (r: String)
    ensures
        r@ == fix_message(fix_view(*fix)),
{
    match fix {
        SafeFix::RepairRunnerSocketDir => lit("repaired /run/oqto/runner-sockets owner/group/mode (root:oqto 2770)"),
        SafeFix::ReprovisionRunner(u) => {
            let mut m = lit("reprovisioned oqto-runner for ");
            m.append(u.as_str());
            m
        },
        SafeFix::EnableService(s) => {
            let mut m = lit("enabled system service ");
            m.append(s.as_str());
            m
        },
        SafeFix::StartService(s) => {
            let mut m = lit("started system service ");
            m.append(s.as_str());
            m
        },
    }
}

/// Texts in `s` strictly increase.
pub open spec fn strictly_sorted(s: Seq<Seq<char>>) -> bool {
    forall|i: int, j: int| 0 <= i < j < s.len() ==> lex_lt(#[trigger] s[i], #[trigger] s[j])
}

/// The applied-fix report: the messages sorted, each once.
pub fn applied_report(messages: Vec<String>) -> (r: Vec<String>)
    ensures
        strictly_sorted(strings_view(r@)),
        forall|m: Seq<char>| strings_view(r@).contains(m) <==> strings_view(messages@).contains(m),
{
    broadcast use vstd::seq_lib::group_to_multiset_ensures;

    let sorted = sort_strings(messages);
    let ghost sv = strings_view(sorted@);
    proof {
        assert forall|m: Seq<char>| sv.contains(m) <==> strings_view(messages@).contains(m) by {
            if sv.contains(m) {
                let k = choose|k: int| 0 <= k < sv.len() && sv[k] == m;
                assert(sorted@.contains(sorted@[k]));
                assert(sorted@.to_multiset().count(sorted@[k]) > 0);
                assert(messages@.to_multiset().count(sorted@[k]) > 0);
                let j = choose|j: int| 0 <= j < messages@.len() && messages@[j] == sorted@[k];
                assert(strings_view(messages@)[j] == m);
            }
            if strings_view(messages@).contains(m) {
                let j = choose|j: int| 0 <= j < messages@.len() && strings_view(messages@)[j] == m;
                assert(messages@.contains(messages@[j]));
                assert(messages@.to_multiset().count(messages@[j]) > 0);
                assert(sorted@.to_multiset().count(messages@[j]) > 0);
                let k = choose|k: int| 0 <= k < sorted@.len() && sorted@[k] == messages@[j];
                assert(sv[k] == m);
            }
        }
    }
    let mut r: Vec<String> = Vec::new();
    let mut i: usize = 0;
    while i < sorted.len()
        invariant
            i <= sorted@.len(),
            sv == strings_view(sorted@),
            strings_sorted(sv),
            strictly_sorted(strings_view(r@)),
            r@.len() <= i,
            r@.len() > 0 ==> strings_view(r@).last() == sv[i - 1],
            i > 0 ==> r@.len() > 0,
            forall|m: Seq<char>| strings_view(r@).contains(m) <==> sv.subrange(0, i as int).contains(m),
        decreases sorted.len() - i,
    {
        let x = &sorted[i];
        let ghost before = strings_view(r@);
        let dup = r.len() > 0 && r[r.len() - 1] == *x;
        if !dup {
            proof {
                if before.len() > 0 {
                    crate::text::lemma_lex_order(before.last(), x@, x@);
                    assert(!lex_lt(sv[i as int], sv[i - 1]));
                    assert(before.last() != x@);
                    assert forall|a: int| 0 <= a < before.len() implies lex_lt(#[trigger] before[a], x@) by {
                        if a < before.len() - 1 {
                            crate::text::lemma_lex_order(before[a], before.last(), x@);
                        }
                    }
                }
            }
            r.push(x.clone());
            assert(strings_view(r@) =~= before.push(x@));
        } else {
            assert(before.last() == x@);
        }
        proof {
            let now = sv.subrange(0, i + 1);
            let was = sv.subrange(0, i as int);
            let rv = strings_view(r@);
            assert(now =~= was.push(sv[i as int]));
            assert forall|m: Seq<char>| rv.contains(m) <==> now.contains(m) by {
                if m == sv[i as int] {
                    assert(now[i as int] == m);
                    assert(rv[rv.len() - 1] == m);
                }
                if now.contains(m) && m != sv[i as int] {
                    let k = choose|k: int| 0 <= k < now.len() && #[trigger] now[k] == m;
                    assert(was[k] == m);
                    assert(before.contains(m));
                    let k3 = choose|k3: int| 0 <= k3 < before.len() && #[trigger] before[k3] == m;
                    assert(rv[k3] == m);
                }
                if rv.contains(m) && m != sv[i as int] {
                    let k = choose|k: int| 0 <= k < rv.len() && #[trigger] rv[k] == m;
                    if !dup {
                        assert(before[k] == m);
                    }
                    assert(before.contains(m));
                    assert(was.contains(m));
                    let k2 = choose|k2: int| 0 <= k2 < was.len() && #[trigger] was[k2] == m;
                    assert(now[k2] == m);
                }
            }
        }
        i = i + 1;
    }
    assert(sv.subrange(0, i as int) =~= sv);
    r
}

// ---------------------------------------------------------------------------
// User names
// ---------------------------------------------------------------------------

/// What one character of a user ID becomes in a Linux username (after
/// ASCII lowercasing): the first may be a letter or `_`, a digit gets a `_`
/// before it, anything else becomes `_`; later ones may also be digits or
/// `-`.
pub open spec fn linux_piece(c: char, first: bool) -> Seq<char> {
    let l = ascii_lower(c);
    if first {
        if is_lower(l) || l == '_' {
            seq![l]
        } else if is_digit(l) {
            seq!['_', l]
        } else {
            seq!['_']
        }
    } else if is_lower(l) || is_digit(l) || l == '_' || l == '-' {
        seq![l]
    } else {
        seq!['_']
    }
}

/// The username built from the first `n` characters of `s`, stopping once
/// it is 32 characters long.
pub open spec fn linux_prefix(s: Seq<char>, n: int) -> Seq<char>
    decreases n,
{
    if n <= 0 {
        Seq::empty()
    } else {
        let r = linux_prefix(s, n - 1);
        if r.len() >= 32 {
            r
        } else {
            r + linux_piece(s[n - 1], n - 1 == 0)
        }
    }
}

/// `s` without trailing `c`s.
pub open spec fn without_trailing(s: Seq<char>, c: char) -> Seq<char>
    decreases s.len(),
{
    if s.len() > 0 && s.last() == c {
        without_trailing(s.drop_last(), c)
    } else {
        s
    }
}

/// The Linux username for a user ID: its characters mapped as
/// `linux_piece` says until 32 are reached, "user" when that leaves
/// nothing, and trailing hyphens dropped.
pub open spec fn linux_username(user_id: Seq<char>) -> Seq<char> {
    let raw = linux_prefix(user_id, user_id.len() as int);
    without_trailing(if raw.len() == 0 { "user"@ } else { raw }, '-')
}

/// Sanitizes a user ID into a valid Linux username (see `linux_username`).
pub fn sanitize_for_linux(user_id: &str) -> (r: String)
    ensures
        r@ == linux_username(user_id@),
{
    let v = chars_of(user_id);
    let mut out: Vec<char> = Vec::new();
    let mut i: usize = 0;
    while i < v.len() && out.len() < 32
        invariant
            i <= v@.len(),
            out@ == linux_prefix(v@, i as int),
        decreases v.len() - i,
    {
        let l = crate::text::ascii_lower_char(v[i]);
        if i == 0 {
            if crate::text::lower(l) || l == '_' {
                out.push(l);
            } else if crate::text::digit(l) {
                out.push('_');
                out.push(l);
            } else {
                out.push('_');
            }
        } else if crate::text::lower(l) || crate::text::digit(l) || l == '_' || l == '-' {
            out.push(l);
        } else {
            out.push('_');
        }
        assert(out@ =~= linux_prefix(v@, i as int) + linux_piece(v@[i as int], i == 0));
        i = i + 1;
    }
    proof {
        if i < v@.len() {
            lemma_linux_prefix_stays(v@, i as int, v@.len() as int);
        }
    }
    let mut r: Vec<char> = if out.len() == 0 {
        let u = vec!['u', 's', 'e', 'r'];
        assert(u@ =~= "user"@) by {
            reveal_strlit("user");
        }
        u
    } else {
        out
    };
    let ghost start = r@;
    assert(r@ == (if linux_prefix(v@, v@.len() as int).len() == 0 { "user"@ } else { linux_prefix(v@, v@.len() as int) }));
    while r.len() > 0 && r[r.len() - 1] == '-'
        invariant
            without_trailing(r@, '-') == without_trailing(start, '-'),
        decreases r.len(),
    {
        r.pop();
    }
    crate::text::string_of(&r)
}

proof fn lemma_linux_prefix_stays(s: Seq<char>, i: int, n: int)
    requires
        0 <= i <= n,
        linux_prefix(s, i).len() >= 32,
    ensures
        linux_prefix(s, n) == linux_prefix(s, i),
    decreases n - i,
{
    if n > i {
        lemma_linux_prefix_stays(s, i, n - 1);
    }
}

/// The characters a user ID may contain: lowercase letters, digits, `_`
/// and `-`; anything else becomes `-`.
pub open spec fn id_char(c: char) -> char {
    if is_lower(c) || is_digit(c) || c == '_' || c == '-' {
        c
    } else {
        '-'
    }
}

/// `s` without leading and trailing `c`s.
pub open spec fn trim_char(s: Seq<char>, c: char) -> Seq<char>
    decreases s.len(),
{
    if s.len() > 0 && s[0] == c {
        trim_char(s.drop_first(), c)
    } else {
        without_trailing(s, c)
    }
}

/// The readable part of a user ID made from a username: trimmed,
/// lowercased, reduced to ID characters, stripped of outer hyphens ("user"
/// if nothing is left), prefixed by `u-` unless it starts with a letter or
/// `_`, and cut to 31 characters.
pub open spec fn user_id_base(username: Seq<char>) -> Seq<char> {
    let lowered = lowercase_of(trim(username));
    let mapped = Seq::new(lowered.len(), |i: int| id_char(lowered[i]));
    let t = trim_char(mapped, '-');
    let u = if t.len() == 0 { "user"@ } else { t };
    let v = if !is_alpha(u[0]) && u[0] != '_' { "u-"@ + u } else { u };
    if v.len() > 31 { v.take(31) } else { v }
}

/// A character of nanoid's URL-safe alphabet.
pub open spec fn is_nanoid_char(c: char) -> bool {
    is_alnum(c) || c == '_' || c == '-'
}

/// `nanoid::format` with the default random source and the URL-safe
/// alphabet (what `nanoid!(size)` expands to): `size` random characters of
/// that alphabet. It never returns for a size of 0, and `8 * size` must
/// not overflow.
#[verifier::external_body]
fn random_nanoid(size: usize) -> (r: String)
    requires
        size >= 1,
        8 * size <= usize::MAX,
    ensures
        r@.len() == size,
        forall|i: int| 0 <= i < size ==> is_nanoid_char(#[trigger] r@[i]),
{
    nanoid::format(nanoid::rngs::default, &nanoid::alphabet::SAFE, size)
}

/// Generates a user ID from a username: its readable part
/// (`user_id_base`), a hyphen and four random URL-safe characters.
pub fn generate_user_id(username: &str) -> (r: String)
    ensures
        exists|suffix: Seq<char>|
            suffix.len() == 4 && (forall|i: int| 0 <= i < 4 ==> is_nanoid_char(#[trigger] suffix[i]))
                && r@ == user_id_base(username@) + "-"@ + suffix,
{
    let r = user_id_with_suffix(username, random_nanoid(4).as_str());
    r
}

/// The user ID for `username` with the given random suffix.
pub fn user_id_with_suffix(username: &str, suffix: &str) -> (r: String)
    ensures
        r@ == user_id_base(username@) + "-"@ + suffix@,
{
    let v = chars_of(username);
    let t = crate::text::trim_chars(&v);
    let ts = crate::text::string_of(&t);
    let lowered = crate::text::to_lowercase(ts.as_str());
    let lv = chars_of(lowered.as_str());
    let mut mapped: Vec<char> = Vec::new();
    let mut i: usize = 0;
    while i < lv.len()
        invariant
            i <= lv@.len(),
            mapped@ == Seq::new(i as nat, |k: int| id_char(lv@[k])),
        decreases lv.len() - i,
    {
        let c = lv[i];
        let m = if crate::text::lower(c) || crate::text::digit(c) || c == '_' || c == '-' {
            c
        } else {
            '-'
        };
        mapped.push(m);
        i = i + 1;
        assert(mapped@ =~= Seq::new(i as nat, |k: int| id_char(lv@[k])));
    }
    let ghost m0 = mapped@;
    assert(m0 =~= Seq::new(lv@.len(), |k: int| id_char(lv@[k])));
    // strip leading hyphens
    let mut a: usize = 0;
    assert(m0.subrange(0, m0.len() as int) =~= m0);
    while a < mapped.len() && mapped[a] == '-'
        invariant
            a <= mapped@.len(),
            mapped@ == m0,
            trim_char(m0, '-') == trim_char(m0.subrange(a as int, m0.len() as int), '-'),
        decreases mapped.len() - a,
    {
        assert(m0.subrange(a as int, m0.len() as int).drop_first() =~= m0.subrange(a + 1, m0.len() as int));
        a = a + 1;
    }
    let ghost rest = m0.subrange(a as int, m0.len() as int);
    assert(trim_char(rest, '-') == without_trailing(rest, '-'));
    let mut b: usize = mapped.len();
    assert(m0.subrange(a as int, b as int) =~= rest);
    while b > a && mapped[b - 1] == '-'
        invariant
            a <= b <= mapped@.len(),
            mapped@ == m0,
            without_trailing(rest, '-') == without_trailing(m0.subrange(a as int, b as int), '-'),
        decreases b,
    {
        assert(m0.subrange(a as int, b as int).drop_last() =~= m0.subrange(a as int, b - 1));
        b = b - 1;
    }
    let core = crate::text::slice_chars(&mapped, a, b);
    assert(without_trailing(core@, '-') == core@);
    let mut u: Vec<char> = if core.len() == 0 {
        let w = vec!['u', 's', 'e', 'r'];
        assert(w@ =~= "user"@) by {
            reveal_strlit("user");
        }
        w
    } else {
        core
    };
    let first = u[0];
    if !crate::text::alpha(first) && first != '_' {
        let mut p = vec!['u', '-'];
        assert(p@ =~= "u-"@) by {
            reveal_strlit("u-");
        }
        let ghost pu = p@;
        let mut k: usize = 0;
        while k < u.len()
            invariant
                k <= u@.len(),
                p@ == pu + u@.subrange(0, k as int),
            decreases u.len() - k,
        {
            p.push(u[k]);
            k = k + 1;
            assert(p@ =~= pu + u@.subrange(0, k as int));
        }
        assert(u@.subrange(0, k as int) =~= u@);
        u = p;
    }
    if u.len() > 31 {
        u.truncate(31);
        assert(u@ =~= u@.take(31));
    }
    let mut r = crate::text::string_of(&u);
    r.append("-");
    r.append(suffix);
    r
}

// ---------------------------------------------------------------------------
// Install profile
// ---------------------------------------------------------------------------

/// How oqto is installed.
#[derive(Debug, Clone, Copy, PartialEq, Eq, Structural)]
pub enum InstallProfile {
    /// One user, no isolation.
    Personal,
    /// Several users, each isolated.
    Team,
}

/// A value of the configuration file, as TOML reads it.
#[derive(Debug)]
pub enum ConfigValue {
    Text(String),
    Integer(i64),
    Boolean(bool),
    Array(Vec<ConfigValue>),
    /// A table: keys with their values.
    Table(Vec<(String, ConfigValue)>),
    /// A float or a date-time, which the CLI never reads.
    Other,
}

/// The value under `key` among table entries (the first one).
pub open spec fn entry_value(e: Seq<(String, ConfigValue)>, key: Seq<char>) -> Option<ConfigValue>
    decreases e.len(),
{
    if e.len() == 0 {
        None
    } else if e[0].0@ == key {
        Some(e[0].1)
    } else {
        entry_value(e.drop_first(), key)
    }
}

/// The value under `key` when `v` is a table (`toml::Value::get`).
pub open spec fn config_get(v: ConfigValue, key: Seq<char>) -> Option<ConfigValue> {
    match v {
        ConfigValue::Table(e) => entry_value(e@, key),
        _ => None,
    }
}

/// The value under `key` when `v` is present and a table.
pub open spec fn config_get_opt(v: Option<ConfigValue>, key: Seq<char>) -> Option<ConfigValue> {
    match v {
        Some(x) => config_get(x, key),
        None => None,
    }
}

fn get_value<'a>(v: &'a ConfigValue, key: &str) -> (r: Option<&'a ConfigValue>)
    ensures
        match config_get(*v, key@) {
            Some(x) => r matches Some(y) && *y == x,
            None => r is None,
        },
{
    match v {
        ConfigValue::Table(e) => {
            let k = lit(key);
            let mut i: usize = 0;
            assert(e@.subrange(0, e@.len() as int) =~= e@);
            while i < e.len()
                invariant
                    i <= e@.len(),
                    k@ == key@,
                    config_get(*v, key@) == entry_value(e@, key@),
                    entry_value(e@, key@) == entry_value(e@.subrange(i as int, e@.len() as int), key@),
                decreases e.len() - i,
            {
                let ghost rest = e@.subrange(i as int, e@.len() as int);
                assert(rest[0] == e@[i as int]);
                assert(rest.drop_first() =~= e@.subrange(i + 1, e@.len() as int));
                if e[i].0 == k {
                    assert(rest[0].0@ == key@);
                    assert(entry_value(rest, key@) == Some(rest[0].1));
                    return Some(&e[i].1);
                }
                i = i + 1;
            }
            None
        },
        _ => None,
    }
}

/// The install profile a configuration states: personal when
/// `local.single_user` is true, team when it is false, none when it is not
/// a boolean or absent.
pub open spec fn profile_of_config(v: ConfigValue) -> Option<InstallProfile> {
    match config_get_opt(config_get(v, "local"@), "single_user"@) {
        Some(ConfigValue::Boolean(b)) => Some(if b { InstallProfile::Personal } else { InstallProfile::Team }),
        _ => None,
    }
}

/// The install profile a parsed configuration file states.
pub fn detect_profile_from_config_value(value: &ConfigValue) -> (r: Option<InstallProfile>)
    ensures
        r == profile_of_config(*value),
{
    let local = match get_value(value, "local") {
        Some(l) => l,
        None => return None,
    };
    match get_value(local, "single_user") {
        Some(ConfigValue::Boolean(b)) => Some(if *b { InstallProfile::Personal } else { InstallProfile::Team }),
        _ => None,
    }
}

/// The runner socket pattern a configuration sets: `backend.runner.socket_pattern`,
/// else `local.runner_socket_pattern`, when a string.
pub open spec fn socket_pattern_of_config(v: ConfigValue) -> Option<Seq<char>> {
    match config_get_opt(config_get_opt(config_get(v, "backend"@), "runner"@), "socket_pattern"@) {
        Some(ConfigValue::Text(t)) => Some(t@),
        _ => match config_get_opt(config_get(v, "local"@), "runner_socket_pattern"@) {
            Some(ConfigValue::Text(t)) => Some(t@),
            _ => None,
        },
    }
}

/// The runner socket pattern of a parsed configuration file.
pub fn runner_socket_pattern_from_config(value: &ConfigValue) -> (r: Option<String>)
    ensures
        match socket_pattern_of_config(*value) {
            Some(p) => r matches Some(x) && x@ == p,
            None => r is None,
        },
{
    let first = match get_value(value, "backend") {
        Some(b) => match get_value(b, "runner") {
            Some(runner) => match get_value(runner, "socket_pattern") {
                Some(ConfigValue::Text(t)) => Some(t.clone()),
                _ => None,
            },
            None => None,
        },
        None => None,
    };
    if first.is_some() {
        return first;
    }
    match get_value(value, "local") {
        Some(l) => match get_value(l, "runner_socket_pattern") {
            Some(ConfigValue::Text(t)) => Some(t.clone()),
            _ => None,
        },
        None => None,
    }
}

/// Whether resolving `profile_arg` needs the profile stated by the
/// configuration file (only `auto` does).
pub fn profile_needs_detection(profile_arg: &str) -> (r: bool)
    ensures
        r == (profile_arg@ == "auto"@),
{
    lit(profile_arg) == lit("auto")
}

/// The install profile asked for: personal or team by name (with their
/// aliases); for `auto`, the one the configuration states, else team when
/// `OQTO_USER_MODE` is `multi` or `team`, else personal. Any other name is
/// refused.
pub open spec fn resolved_profile(
    arg: Seq<char>,
    detected: Option<InstallProfile>,
    user_mode: Option<Seq<char>>,
) -> Result<InstallProfile, Seq<char>> {
    if arg == "personal"@ || arg == "single"@ || arg == "single-user"@ {
        Ok(InstallProfile::Personal)
    } else if arg == "team"@ || arg == "multi"@ || arg == "multi-user"@ {
        Ok(InstallProfile::Team)
    } else if arg == "auto"@ {
        match detected {
            Some(p) => Ok(p),
            None => match user_mode {
                Some(m) => if m == "multi"@ || m == "team"@ {
                    Ok(InstallProfile::Team)
                } else {
                    Ok(InstallProfile::Personal)
                },
                None => Ok(InstallProfile::Personal),
            },
        }
    } else {
        Err("unknown install profile '"@ + arg + "'. Expected 'auto', 'personal' or 'team'"@)
    }
}

/// Resolves the install profile (see `resolved_profile`); `detected` is
/// what the configuration file states and `user_mode` the value of
/// `OQTO_USER_MODE`, if set.
pub fn resolve_install_profile(
    profile_arg: &str,
    detected: Option<InstallProfile>,
    user_mode: Option<String>,
) -> (r: Result<InstallProfile, String>)
    ensures
        match resolved_profile(profile_arg@, detected, crate::agent_rpc::opt_view(user_mode)) {
            Ok(p) => r == Ok::<InstallProfile, String>(p),
            Err(m) => r matches Err(x) && x@ == m,
        },
{
    let a = lit(profile_arg);
    if a == lit("personal") || a == lit("single") || a == lit("single-user") {
        Ok(InstallProfile::Personal)
    } else if a == lit("team") || a == lit("multi") || a == lit("multi-user") {
        Ok(InstallProfile::Team)
    } else if a == lit("auto") {
        match detected {
            Some(p) => Ok(p),
            None => match user_mode {
                Some(m) => if m == lit("multi") || m == lit("team") {
                    Ok(InstallProfile::Team)
                } else {
                    Ok(InstallProfile::Personal)
                },
                None => Ok(InstallProfile::Personal),
            },
        }
    } else {
        let mut e = lit("unknown install profile '");
        e.append(profile_arg);
        e.append("'. Expected 'auto', 'personal' or 'team'");
        Err(e)
    }
}

// ---------------------------------------------------------------------------
// Server requests
// ---------------------------------------------------------------------------

/// The path of the URL that `url::Url::parse` reads from the text, `None`
/// when the text is not a URL it accepts.
pub uninterp spec fn url_path_of(text: Seq<char>) -> Option<Seq<char>>;

/// `reqwest::Url::parse` followed by `Url::path`. The contract names the
/// result; parsing follows the WHATWG URL standard, which is not restated.
#[verifier::external_body]
fn parse_url_path(text: &str) -> (r: Option<String>)
    ensures
        match url_path_of(text@) {
            Some(p) => r matches Some(x) && x@ == p,
            None => r is None,
        },
{
    match reqwest::Url::parse(text) {
        Ok(u) => Some(u.path().to_string()),
        Err(_) => None,
    }
}

/// The base path of the server URL: its path without trailing slashes
/// (empty for the root), or an error when the URL does not parse.
pub open spec fn base_path_of(url: Seq<char>) -> Result<Seq<char>, Seq<char>> {
    match url_path_of(url) {
        Some(p) => Ok(crate::proxy::without_trailing_slashes(p)),
        None => Err("parsing server URL"@),
    }
}

/// The base path requests to the server are made under (see
/// `base_path_of`).
pub fn base_path_from_url(base_url: &str) -> (r: Result<String, String>)
    ensures
        match base_path_of(base_url@) {
            Ok(p) => r matches Ok(x) && x@ == p,
            Err(m) => r matches Err(x) && x@ == m,
        },
{
    match parse_url_path(base_url) {
        Some(p) => Ok(path_without_trailing_slashes(p.as_str())),
        None => Err(lit("parsing server URL")),
    }
}

fn path_without_trailing_slashes(p: &str) -> (r: String)
    ensures
        r@ == crate::proxy::without_trailing_slashes(p@),
{
    let v = chars_of(p);
    let mut n: usize = v.len();
    assert(v@.subrange(0, n as int) =~= v@);
    while n > 0 && v[n - 1] == '/'
        invariant
            n <= v@.len(),
            crate::proxy::without_trailing_slashes(v@) == crate::proxy::without_trailing_slashes(
                v@.subrange(0, n as int),
            ),
        decreases n,
    {
        assert(v@.subrange(0, n as int).drop_last() =~= v@.subrange(0, n - 1));
        n = n - 1;
    }
    let w = crate::text::slice_chars(&v, 0, n);
    crate::text::string_of(&w)
}

/// A byte left as it is by URL encoding: letters, digits, `-`, `.`, `_`
/// and `~`.
pub open spec fn is_unreserved(b: u8) -> bool {
    (48 <= b <= 57) || (65 <= b <= 90) || (97 <= b <= 122) || b == 45 || b == 46 || b == 95 || b == 126
}

/// The upper-case hexadecimal digit for `d < 16`.
pub open spec fn hex_upper(d: u8) -> char {
    if d < 10 {
        (48 + d) as char
    } else {
        (55 + d) as char
    }
}

/// Percent-encoding of bytes: unreserved bytes as they are, every other
/// byte as `%` and two upper-case hexadecimal digits.
pub open spec fn percent_encoded(b: Seq<u8>) -> Seq<char>
    decreases b.len(),
{
    if b.len() == 0 {
        Seq::empty()
    } else {
        percent_encoded(b.drop_last()) + if is_unreserved(b.last()) {
            seq![b.last() as char]
        } else {
            seq!['%', hex_upper(b.last() / 16), hex_upper(b.last() % 16)]
        }
    }
}

/// `urlencoding::encode`: the UTF-8 bytes of the text, percent-encoded
/// (every byte but alphanumerics and `-`, `_`, `.`, `~`, with upper-case
/// hexadecimal digits).
#[verifier::external_body]
fn url_encode(text: &str) -> (r: String)
    ensures
        r@ == percent_encoded(vstd::utf8::encode_utf8(text@)),
{
    urlencoding::encode(text).into_owned()
}

/// The server path listing agent sessions, with an optional search query.
pub open spec fn sessions_path_of(query: Option<Seq<char>>, limit: usize) -> Seq<char> {
    match query {
        Some(q) => "/agents/sessions?q="@ + percent_encoded(vstd::utf8::encode_utf8(q)) + "&limit="@
            + crate::text::decimal(limit as nat),
        None => "/agents/sessions?limit="@ + crate::text::decimal(limit as nat),
    }
}

/// The server path for listing agent sessions (see `sessions_path_of`).
pub fn sessions_path(query: Option<&str>, limit: usize) -> (r: String)
    ensures
        r@ == sessions_path_of(
            match query {
                Some(q) => Some(q@),
                None => None,
            },
            limit,
        ),
{
    let d = crate::text::decimal_string(limit as u64);
    match query {
        Some(q) => {
            let mut p = lit("/agents/sessions?q=");
            let e = url_encode(q);
            p.append(e.as_str());
            p.append("&limit=");
            p.append(d.as_str());
            p
        },
        None => {
            let mut p = lit("/agents/sessions?limit=");
            p.append(d.as_str());
            p
        },
    }
}

/// A session title as listed: its first 38 characters, with `...` added
/// when the title is longer than 38 bytes.
pub open spec fn title_display(title: Seq<char>) -> Seq<char> {
    let head = if title.len() > 38 { title.take(38) } else { title };
    if crate::text::utf8_len(title) > 38 { head + "..."@ } else { head }
}

/// The title as the session list shows it (see `title_display`).
pub fn session_title_display(title: &str) -> (r: String)
    ensures
        r@ == title_display(title@),
{
    let v = chars_of(title);
    let n = if v.len() > 38 { 38 } else { v.len() };
    let head = crate::text::slice_chars(&v, 0, n);
    assert(head@ == (if title@.len() > 38 { title@.take(38) } else { title@ }));
    let mut r = crate::text::string_of(&head);
    if crate::text::utf8_longer_than(&v, 38) {
        r.append("...");
    }
    r
}

/// A modification time as listed: the date, i.e. the text before the first
/// `T`.
pub fn modified_date(modified: &str) -> (r: String)
    ensures
        r@ == crate::text::split_at_char(modified@, 'T')[0],
{
    let v = chars_of(modified);
    let parts = crate::text::split_chars(&v, 'T');
    proof {
        crate::text::lemma_split_nonempty(modified@, 'T');
    }
    crate::text::string_of(&parts[0])
}

// ---------------------------------------------------------------------------
// Laws
// ---------------------------------------------------------------------------

/// A character allowed in a Linux username here: lowercase letter, digit,
/// `_` or `-`.
pub open spec fn is_username_char(c: char) -> bool {
    is_lower(c) || is_digit(c) || c == '_' || c == '-'
}

proof fn lemma_linux_prefix_shape(s: Seq<char>, n: int)
    requires
        0 <= n <= s.len(),
    ensures
        linux_prefix(s, n).len() <= 32,
        forall|i: int| 0 <= i < linux_prefix(s, n).len() ==> is_username_char(#[trigger] linux_prefix(s, n)[i]),
        linux_prefix(s, n).len() > 0 ==> (is_lower(linux_prefix(s, n)[0]) || linux_prefix(s, n)[0] == '_'),
    decreases n,
{
    if n > 0 {
        lemma_linux_prefix_shape(s, n - 1);
        let r = linux_prefix(s, n - 1);
        if r.len() < 32 {
            let piece = linux_piece(s[n - 1], n - 1 == 0);
            let t = r + piece;
            assert(t == linux_prefix(s, n));
            assert forall|i: int| 0 <= i < t.len() implies is_username_char(#[trigger] t[i]) by {
                if i < r.len() {
                    assert(t[i] == r[i]);
                } else {
                    assert(t[i] == piece[i - r.len()]);
                }
            }
            if r.len() == 0 {
                assert(n - 1 == 0 || r.len() > 0) by {
                    if n - 1 > 0 {
                        lemma_linux_prefix_nonempty(s, n - 1);
                    }
                }
                assert(t[0] == piece[0]);
            } else {
                assert(t[0] == r[0]);
            }
        }
    }
}

proof fn lemma_linux_prefix_nonempty(s: Seq<char>, n: int)
    requires
        0 < n <= s.len(),
    ensures
        linux_prefix(s, n).len() > 0,
    decreases n,
{
    if n > 1 {
        lemma_linux_prefix_nonempty(s, n - 1);
    }
}

proof fn lemma_without_trailing(s: Seq<char>, c: char)
    ensures
        without_trailing(s, c).len() <= s.len(),
        forall|i: int| 0 <= i < without_trailing(s, c).len() ==> #[trigger] without_trailing(s, c)[i] == s[i],
        without_trailing(s, c).len() > 0 ==> without_trailing(s, c).last() != c,
        s.len() > 0 && s[0] != c ==> without_trailing(s, c).len() > 0,
    decreases s.len(),
{
    if s.len() > 0 && s.last() == c {
        lemma_without_trailing(s.drop_last(), c);
    }
}

/// A sanitized username is a valid Linux username: not empty, at most 32
/// characters, only lowercase letters, digits, `_` and `-`, starting with
/// a letter or `_`, and not ending with `-`.
pub proof fn law_linux_username_valid(user_id: Seq<char>)
    ensures
        linux_username(user_id).len() > 0,
        linux_username(user_id).len() <= 32,
        forall|i: int|
            0 <= i < linux_username(user_id).len() ==> is_username_char(#[trigger] linux_username(user_id)[i]),
        is_lower(linux_username(user_id)[0]) || linux_username(user_id)[0] == '_',
        linux_username(user_id).last() != '-',
{
    let raw = linux_prefix(user_id, user_id.len() as int);
    lemma_linux_prefix_shape(user_id, user_id.len() as int);
    let base = if raw.len() == 0 {
        "user"@
    } else {
        raw
    };
    reveal_strlit("user");
    assert(base.len() > 0 && (is_lower(base[0]) || base[0] == '_'));
    assert(forall|i: int| 0 <= i < base.len() ==> is_username_char(#[trigger] base[i]));
    lemma_without_trailing(base, '-');
    let n = without_trailing(base, '-');
    assert(n == linux_username(user_id));
    assert(n[0] == base[0]);
    assert forall|i: int| 0 <= i < n.len() implies is_username_char(#[trigger] n[i]) by {
        assert(n[i] == base[i]);
    }
}

/// The readable part of a generated user ID is never empty, has at most
/// 31 characters, uses only lowercase letters, digits, `_` and `-`, and
/// starts with a letter or `_`.
pub proof fn law_user_id_base_valid(username: Seq<char>)
    ensures
        user_id_base(username).len() > 0,
        user_id_base(username).len() <= 31,
        forall|i: int|
            0 <= i < user_id_base(username).len() ==> is_username_char(#[trigger] user_id_base(username)[i]),
        is_alpha(user_id_base(username)[0]) || user_id_base(username)[0] == '_',
{
    let lowered = lowercase_of(trim(username));
    let mapped = Seq::new(lowered.len(), |i: int| id_char(lowered[i]));
    assert(forall|i: int| 0 <= i < mapped.len() ==> is_username_char(#[trigger] mapped[i]));
    lemma_trim_char(mapped, '-');
    let t = trim_char(mapped, '-');
    reveal_strlit("user");
    reveal_strlit("u-");
    let u = if t.len() == 0 {
        "user"@
    } else {
        t
    };
    assert(forall|i: int| 0 <= i < u.len() ==> is_username_char(#[trigger] u[i]));
    let v = if !is_alpha(u[0]) && u[0] != '_' {
        "u-"@ + u
    } else {
        u
    };
    assert forall|i: int| 0 <= i < v.len() implies is_username_char(#[trigger] v[i]) by {
        if !is_alpha(u[0]) && u[0] != '_' {
            if i >= 2 {
                assert(v[i] == u[i - 2]);
            }
        }
    }
    let w = if v.len() > 31 {
        v.take(31)
    } else {
        v
    };
    assert(w == user_id_base(username));
    assert(w[0] == v[0]);
    assert forall|i: int| 0 <= i < w.len() implies is_username_char(#[trigger] w[i]) by {
        assert(w[i] == v[i]);
    }
}

proof fn lemma_trim_char(s: Seq<char>, c: char)
    requires
        forall|i: int| 0 <= i < s.len() ==> is_username_char(#[trigger] s[i]),
    ensures
        forall|i: int| 0 <= i < trim_char(s, c).len() ==> is_username_char(#[trigger] trim_char(s, c)[i]),
    decreases s.len(),
{
    if s.len() > 0 && s[0] == c {
        let t = s.drop_first();
        assert forall|i: int| 0 <= i < t.len() implies is_username_char(#[trigger] t[i]) by {
            assert(t[i] == s[i + 1]);
        }
        lemma_trim_char(t, c);
        assert(trim_char(s, c) == trim_char(t, c));
    } else {
        lemma_without_trailing(s, c);
        assert forall|i: int| 0 <= i < without_trailing(s, c).len() implies is_username_char(
            #[trigger] without_trailing(s, c)[i],
        ) by {
            assert(without_trailing(s, c)[i] == s[i]);
        }
    }
}

/// Deduplicated lists (suggested commands, runner users) hold each present
/// value exactly once and nothing else.
pub proof fn law_unique_in_order(s: Seq<Option<Seq<char>>>)
    ensures
        forall|a: int, b: int|
            0 <= a < b < unique_in_order(s).len() ==> #[trigger] unique_in_order(s)[a]
                != #[trigger] unique_in_order(s)[b],
        forall|x: Seq<char>| unique_in_order(s).contains(x) <==> s.contains(Some(x)),
    decreases s.len(),
{
    if s.len() > 0 {
        law_unique_in_order(s.drop_last());
        let d = s.drop_last();
        let u = unique_in_order(d);
        let w = unique_in_order(s);
        assert forall|x: Seq<char>| w.contains(x) <==> s.contains(Some(x)) by {
            let in_d = d.contains(Some(x));
            let in_s = s.contains(Some(x));
            if in_d {
                let k = choose|k: int| 0 <= k < d.len() && d[k] == Some(x);
                assert(s[k] == Some(x));
            }
            if in_s && !in_d {
                let k = choose|k: int| 0 <= k < s.len() && s[k] == Some(x);
                if k < s.len() - 1 {
                    assert(d[k] == Some(x));
                }
                assert(s.last() == Some(x));
            }
            match s.last() {
                Some(y) => {
                    if u.contains(y) {
                        assert(w == u);
                    } else {
                        assert(w == u.push(y));
                        if u.contains(x) {
                            let k = choose|k: int| 0 <= k < u.len() && u[k] == x;
                            assert(w[k] == x);
                        }
                        if x == y {
                            assert(w[u.len() as int] == x);
                        }
                        if w.contains(x) && x != y {
                            let k = choose|k: int| 0 <= k < w.len() && w[k] == x;
                            assert(k < u.len());
                            assert(u[k] == x);
                        }
                        if x == y {
                            assert(s[s.len() - 1] == Some(x));
                        }
                    }
                },
                None => {
                    assert(w == u);
                },
            }
        }
    }
}

/// URL-encoded text uses only unreserved characters and `%` escapes with
/// upper-case hexadecimal digits.
pub proof fn law_percent_encoded_safe(b: Seq<u8>)
    ensures
        forall|i: int|
            0 <= i < percent_encoded(b).len() ==> ({
                let c = #[trigger] percent_encoded(b)[i];
                (is_alnum(c) || c == '-' || c == '.' || c == '_' || c == '~' || c == '%')
            }),
    decreases b.len(),
{
    if b.len() > 0 {
        law_percent_encoded_safe(b.drop_last());
        let prev = percent_encoded(b.drop_last());
        let x = b.last();
        let tail = if is_unreserved(x) {
            seq![x as char]
        } else {
            seq!['%', hex_upper(x / 16), hex_upper(x % 16)]
        };
        assert(percent_encoded(b) == prev + tail);
        assert forall|i: int| 0 <= i < percent_encoded(b).len() implies ({
            let c = #[trigger] percent_encoded(b)[i];
            (is_alnum(c) || c == '-' || c == '.' || c == '_' || c == '~' || c == '%')
        }) by {
            if i >= prev.len() {
                let j = i - prev.len();
                assert(percent_encoded(b)[i] == tail[j]);
            } else {
                assert(percent_encoded(b)[i] == prev[i]);
            }
        }
    }
}

// ---------------------------------------------------------------------------
// Sandbox configuration and confirmations
// ---------------------------------------------------------------------------

/// What validating the sandbox configuration reports.
#[derive(Debug, Clone)]
pub struct SandboxReport {
    /// Warnings about missing fields, in order.
    pub warnings: Vec<String>,
    /// Whether the sandbox is enabled (false unless `enabled` is true).
    pub enabled: bool,
    /// The profile (`profile`, or "default").
    pub profile: String,
}

/// The warnings for a sandbox configuration: a missing `enabled` field,
/// then a missing `deny_read` field.
pub open spec fn sandbox_warnings(v: ConfigValue) -> Seq<Seq<char>> {
    let a: Seq<Seq<char>> = if config_get(v, "enabled"@) is None {
        seq!["Missing 'enabled' field (defaults to false)"@]
    } else {
        Seq::empty()
    };
    if config_get(v, "deny_read"@) is None {
        a.push("Missing 'deny_read' field (sensitive files won't be protected)"@)
    } else {
        a
    }
}

/// Whether a sandbox configuration enables the sandbox: `enabled` is the
/// boolean true.
pub open spec fn sandbox_enabled(v: ConfigValue) -> bool {
    config_get(v, "enabled"@) == Some(ConfigValue::Boolean(true))
}

/// The report on a sandbox configuration that parsed (see
/// `sandbox_warnings`; `profile` is the text under `profile`, or
/// "default" when it is absent or not a text).
pub fn sandbox_report(config: &ConfigValue) -> (r: SandboxReport)
    ensures
        strings_view(r.warnings@) == sandbox_warnings(*config),
        r.enabled == sandbox_enabled(*config),
        r.profile@ == (match config_get(*config, "profile"@) {
            Some(ConfigValue::Text(t)) => t@,
            _ => "default"@,
        }),
{
    let mut warnings: Vec<String> = Vec::new();
    let enabled_value = get_value(config, "enabled");
    if enabled_value.is_none() {
        warnings.push(lit("Missing 'enabled' field (defaults to false)"));
    }
    let ghost first = warnings@;
    if get_value(config, "deny_read").is_none() {
        warnings.push(lit("Missing 'deny_read' field (sensitive files won't be protected)"));
    }
    assert(strings_view(warnings@) =~= sandbox_warnings(*config));
    let enabled = match enabled_value {
        Some(ConfigValue::Boolean(b)) => *b,
        _ => false,
    };
    let profile = match get_value(config, "profile") {
        Some(ConfigValue::Text(t)) => t.clone(),
        _ => lit("default"),
    };
    SandboxReport { warnings, enabled, profile }
}

/// Whether an answer to a yes/no prompt confirms: it is "y" or "Y" once
/// surrounding whitespace is removed.
pub open spec fn confirms(input: Seq<char>) -> bool {
    trim(input) == "y"@ || trim(input) == "Y"@
}

/// Whether the user confirmed a prompt (see `confirms`).
pub fn is_confirmation(input: &str) -> (r: bool)
    ensures
        r == confirms(input@),
{
    let v = crate::text::trim_chars(&chars_of(input));
    proof {
        reveal_strlit("y");
        reveal_strlit("Y");
        assert("y"@ =~= seq!['y']);
        assert("Y"@ =~= seq!['Y']);
        if v@.len() == 1 {
            assert(v@ =~= seq![v@[0]]);
        }
    }
    v.len() == 1 && (v[0] == 'y' || v[0] == 'Y')
}

// ---------------------------------------------------------------------------
// Reaching the server
// ---------------------------------------------------------------------------

/// The server URL used when none is given.
pub open spec fn default_server_url() -> Seq<char> {
    "http://localhost:8080/api"@
}

/// The admin socket used when none is given.
pub open spec fn default_admin_socket() -> Seq<char> {
    "/run/oqto/oqtoctl.sock"@
}

/// The admin socket to try: the one given on the command line, else the
/// one in `OQTO_ADMIN_SOCKET`, else the default.
pub fn admin_socket_path(from_arg: &Option<String>, from_env: &Option<String>) -> (r: String)
    ensures
        r@ == (match (*from_arg, *from_env) {
            (Some(a), _) => a@,
            (None, Some(e)) => e@,
            (None, None) => default_admin_socket(),
        }),
{
    match from_arg {
        Some(a) => a.clone(),
        None => match from_env {
            Some(e) => e.clone(),
            None => lit("/run/oqto/oqtoctl.sock"),
        },
    }
}

/// Whether the CLI talks to the server over its admin socket: only
/// without an auth token, only when a socket was asked for or the server
/// URL is the default one, and only when the socket exists.
pub fn use_admin_socket(socket_requested: bool, base_url: &str, has_auth_token: bool, socket_exists: bool) -> (r: bool)
    ensures
        r == (!has_auth_token && (socket_requested || base_url@ == default_server_url())
            && socket_exists),
{
    let is_default = lit(base_url) == lit("http://localhost:8080/api");
    !has_auth_token && (socket_requested || is_default) && socket_exists
}

/// The credentials header sent with HTTP requests: the auth token as a
/// bearer token when there is one, else the development user, else none.
pub fn auth_header(auth_token: &Option<String>, dev_user: &Option<String>) -> (r: Option<(String, String)>)
    ensures
        match *auth_token {
            Some(t) => r matches Some(h) && h.0@ == "Authorization"@ && h.1@ == "Bearer "@ + t@,
            None => match *dev_user {
                Some(u) => r matches Some(h) && h.0@ == "X-Dev-User"@ && h.1@ == u@,
                None => r is None,
            },
        },
{
    match auth_token {
        Some(t) => {
            let mut v = lit("Bearer ");
            v.append(t.as_str());
            Some((lit("Authorization"), v))
        },
        None => match dev_user {
            Some(u) => Some((lit("X-Dev-User"), u.clone())),
            None => None,
        },
    }
}

/// `s` with every occurrence of `pat` replaced by `rep`, scanning from the
/// front without overlaps (as `str::replace` does).
pub open spec fn replace_all(s: Seq<char>, pat: Seq<char>, rep: Seq<char>) -> Seq<char>
    decreases s.len(),
{
    if pat.len() == 0 {
        around_each(s, rep)
    } else if s.len() == 0 {
        s
    } else if starts_with(s, pat) {
        rep + replace_all(s.subrange(pat.len() as int, s.len() as int), pat, rep)
    } else {
        seq![s[0]] + replace_all(s.drop_first(), pat, rep)
    }
}

/// `s` with `rep` before each character and at the end (what replacing
/// the empty pattern gives).
pub open spec fn around_each(s: Seq<char>, rep: Seq<char>) -> Seq<char>
    decreases s.len(),
{
    if s.len() == 0 {
        rep
    } else {
        rep + seq![s[0]] + around_each(s.drop_first(), rep)
    }
}

/// `rep` placed before each character of `v` and at its end.
fn around_each_chars(v: &Vec<char>, rep: &str) -> (r: String)
    ensures
        r@ == around_each(v@, rep@),
{
    let mut r = String::new();
    let mut i: usize = 0;
    assert(v@.subrange(0, v@.len() as int) =~= v@);
    while i < v.len()
        invariant
            i <= v@.len(),
            r@ + around_each(v@.subrange(i as int, v@.len() as int), rep@) == around_each(v@, rep@),
        decreases v.len() - i,
    {
        let ghost rest = v@.subrange(i as int, v@.len() as int);
        assert(rest[0] == v@[i as int]);
        assert(rest.drop_first() =~= v@.subrange(i + 1, v@.len() as int));
        let ghost before = r@;
        r.append(rep);
        crate::text::push_char(&mut r, v[i]);
        assert(r@ == before + rep@ + seq![v@[i as int]]);
        i = i + 1;
        assert(r@ + around_each(v@.subrange(i as int, v@.len() as int), rep@) =~= before + around_each(rest, rep@));
    }
    r.append(rep);
    assert(v@.subrange(i as int, v@.len() as int) =~= Seq::<char>::empty());
    r
}

/// Replaces every occurrence of a pattern (see `replace_all`).
pub fn replace_str(s: &str, pat: &str, rep: &str) -> (r: String)
    ensures
        r@ == replace_all(s@, pat@, rep@),
{
    let v = chars_of(s);
    let p = chars_of(pat);
    if p.len() == 0 {
        return around_each_chars(&v, rep);
    }
    let mut r = String::new();
    let mut i: usize = 0;
    assert(v@.subrange(0, v@.len() as int) =~= v@);
    assert(r@ + replace_all(v@, p@, rep@) =~= replace_all(v@, p@, rep@));
    while i < v.len()
        invariant
            i <= v@.len(),
            p@ == pat@,
            p@.len() > 0,
            v@ == s@,
            r@ + replace_all(v@.subrange(i as int, v@.len() as int), p@, rep@) == replace_all(
                v@,
                p@,
                rep@,
            ),
        decreases v.len() - i,
    {
        let ghost rest = v@.subrange(i as int, v@.len() as int);
        let n: usize = v.len();
        let mut matches = p.len() <= n - i;
        let mut k: usize = 0;
        while matches && k < p.len()
            invariant
                i < v@.len(),
                n == v@.len(),
                k <= p@.len(),
                matches ==> i + p@.len() <= v@.len(),
                matches ==> forall|j: int| 0 <= j < k ==> v@[i + j] == p@[j],
                !matches ==> !starts_with(rest, p@),
                rest == v@.subrange(i as int, v@.len() as int),
            decreases p.len() - k,
        {
            if v[i + k] != p[k] {
                assert(rest[k as int] == v@[i + k]);
                matches = false;
            }
            k = k + 1;
        }
        if matches {
            assert(rest.subrange(0, p@.len() as int) =~= p@);
            assert(starts_with(rest, p@));
            r.append(rep);
            assert(rest.subrange(p@.len() as int, rest.len() as int) =~= v@.subrange(
                i + p@.len(),
                v@.len() as int,
            ));
            i = i + p.len();
        } else {
            assert(!starts_with(rest, p@));
            crate::text::push_char(&mut r, v[i]);
            assert(rest.drop_first() =~= v@.subrange(i + 1, v@.len() as int));
            assert(rest[0] == v@[i as int]);
            i = i + 1;
        }
    }
    assert(v@.subrange(i as int, v@.len() as int) =~= Seq::<char>::empty());
    r
}

/// The WebSocket address of the server's event mux, from its HTTP base
/// URL: trailing slashes removed, `http://` turned into `ws://` and
/// `https://` into `wss://`, then `/ws/mux`.
pub open spec fn mux_ws_url_of(base: Seq<char>) -> Seq<char> {
    replace_all(
        replace_all(crate::proxy::without_trailing_slashes(base), "http://"@, "ws://"@),
        "https://"@,
        "wss://"@,
    ) + "/ws/mux"@
}

/// The event mux address (see `mux_ws_url_of`).
pub fn mux_ws_url(base_url: &str) -> (r: String)
    ensures
        r@ == mux_ws_url_of(base_url@),
{
    proof {
        reveal_strlit("http://");
        reveal_strlit("https://");
    }
    let trimmed = crate::proxy::trim_trailing_slashes(base_url);
    let a = replace_str(trimmed.as_str(), "http://", "ws://");
    let mut b = replace_str(a.as_str(), "https://", "wss://");
    b.append("/ws/mux");
    b
}

/// Whether a mux message is a bus event: its channel is "bus" and its type
/// "event".
pub fn is_bus_event(channel: Option<&str>, kind: Option<&str>) -> (r: bool)
    ensures
        r == (channel.is_some() && channel.unwrap()@ == "bus"@ && kind.is_some() && kind.unwrap()@
            == "event"@),
{
    match (channel, kind) {
        (Some(c), Some(k)) => lit(c) == lit("bus") && lit(k) == lit("event"),
        _ => false,
    }
}

/// Whether tailing stops after `seen` events: only when a limit was given
/// and reached.
pub fn tail_limit_reached(seen: usize, limit: Option<usize>) -> (r: bool)
    ensures
        r == (limit.is_some() && seen >= limit.unwrap()),
{
    match limit {
        Some(m) => seen >= m,
        None => false,
    }
}

// ---------------------------------------------------------------------------
// User administration
// ---------------------------------------------------------------------------

/// The role given for a user, checked: "user" or "admin" in any case,
/// taken lowercased; anything else is refused.
pub fn normalize_role(role: &str) -> (r: Result<String, String>)
    ensures
        match r {
            Ok(v) => v@ == lowercase_of(role@) && (v@ == "user"@ || v@ == "admin"@),
            Err(m) => !(lowercase_of(role@) == "user"@ || lowercase_of(role@) == "admin"@) && m@
                == "Invalid role: "@ + role@ + ". Must be 'user' or 'admin'"@,
        },
{
    let lower = crate::text::to_lowercase(role);
    if lower == lit("user") || lower == lit("admin") {
        Ok(lower)
    } else {
        let mut m = lit("Invalid role: ");
        m.append(role);
        m.append(". Must be 'user' or 'admin'");
        Err(m)
    }
}

/// A password typed at the prompt is refused when empty.
pub fn check_password(password: &str) -> (r: Result<(), String>)
    ensures
        r is Ok <==> password@.len() > 0,
        r matches Err(m) ==> m@ == "Password cannot be empty"@,
{
    if password.unicode_len() == 0 {
        Err(lit("Password cannot be empty"))
    } else {
        Ok(())
    }
}

/// The confirmation typed at the prompt must repeat the password.
pub fn check_confirmation(password: &str, confirm: &str) -> (r: Result<(), String>)
    ensures
        r is Ok <==> password@ == confirm@,
        r matches Err(m) ==> m@ == "Passwords do not match"@,
{
    if lit(password) == lit(confirm) {
        Ok(())
    } else {
        Err(lit("Passwords do not match"))
    }
}

/// The value of a string of decimal digits.
pub open spec fn digits_value(s: Seq<char>) -> nat
    decreases s.len(),
{
    if s.len() == 0 {
        0
    } else {
        digits_value(s.drop_last()) * 10 + ((s.last() as nat) - 48) as nat
    }
}

/// The value of one or more ASCII digits, when it fits in a `u32`.
pub open spec fn parsed_digits(d: Seq<char>) -> Option<u32> {
    if d.len() > 0 && (forall|i: int| 0 <= i < d.len() ==> is_digit(#[trigger] d[i]))
        && digits_value(d) <= u32::MAX {
        Some(digits_value(d) as u32)
    } else {
        None
    }
}

/// A `u32` read as `str::parse` reads it: an optional `+`, then one or
/// more ASCII digits whose value fits.
pub open spec fn parsed_u32(s: Seq<char>) -> Option<u32> {
    if s.len() > 0 && s[0] == '+' {
        parsed_digits(s.drop_first())
    } else {
        parsed_digits(s)
    }
}

proof fn lemma_digits_value_grows(s: Seq<char>, c: char)
    requires
        is_digit(c),
    ensures
        digits_value(s.push(c)) >= digits_value(s),
        digits_value(s.push(c)) == digits_value(s) * 10 + ((c as nat) - 48) as nat,
{
    assert(s.push(c).drop_last() =~= s);
}

/// Reads a `u32` (see `parsed_u32`).
pub fn parse_u32(s: &Vec<char>) -> (r: Option<u32>)
    ensures
        r == parsed_u32(s@),
{
    let start: usize = if s.len() > 0 && s[0] == '+' { 1 } else { 0 };
    let ghost d = if s@.len() > 0 && s@[0] == '+' { s@.drop_first() } else { s@ };
    assert(d =~= s@.subrange(start as int, s@.len() as int));
    assert(parsed_u32(s@) == parsed_digits(d));
    if start >= s.len() {
        return None;
    }
    let limit: u64 = 0x1_0000_0000;
    let mut acc: u64 = 0;
    let mut i: usize = start;
    while i < s.len()
        invariant
            start <= i <= s@.len(),
            d == s@.subrange(start as int, s@.len() as int),
            parsed_u32(s@) == parsed_digits(d),
            limit == 0x1_0000_0000,
            forall|k: int| start <= k < i ==> is_digit(#[trigger] s@[k]),
            acc == (if digits_value(s@.subrange(start as int, i as int)) < limit {
                digits_value(s@.subrange(start as int, i as int))
            } else {
                limit as nat
            }),
        decreases s.len() - i,
    {
        let c = s[i];
        if !crate::text::digit(c) {
            assert(d[i - start] == c);
            assert(!is_digit(d[i - start]));
            return None;
        }
        let ghost pre = s@.subrange(start as int, i as int);
        proof {
            lemma_digits_value_grows(pre, c);
            assert(s@.subrange(start as int, i + 1) =~= pre.push(c));
        }
        let digit: u64 = (c as u32 - 48) as u64;
        if acc < limit {
            let next = acc * 10 + digit;
            acc = if next < limit { next } else { limit };
        }
        i = i + 1;
    }
    assert(s@.subrange(start as int, i as int) =~= d);
    assert forall|k: int| 0 <= k < d.len() implies is_digit(#[trigger] d[k]) by {
        assert(d[k] == s@[start + k]);
    }
    if acc < limit {
        Some(acc as u32)
    } else {
        None
    }
}

/// A regular user from the password database.
#[derive(Debug, Clone)]
pub struct PasswdUser {
    pub username: String,
    pub uid: u32,
    pub home: String,
}

/// Whether a UID belongs to a regular user: at least 1000, and not the
/// `nobody` UID 65534.
pub open spec fn is_regular_uid(uid: u32) -> bool {
    uid >= 1000 && uid != 65534
}

/// The regular users among password database lines, in order, as
/// (name, UID, home): each line with at least six `:`-separated fields
/// whose UID (an unreadable one counting as 0) is regular.
pub open spec fn passwd_users(lines: Seq<Seq<char>>) -> Seq<(Seq<char>, u32, Seq<char>)>
    decreases lines.len(),
{
    if lines.len() == 0 {
        Seq::empty()
    } else {
        let prev = passwd_users(lines.drop_last());
        let f = crate::text::split_at_char(lines.last(), ':');
        let uid: u32 = match parsed_u32(f[2]) {
            Some(u) => u,
            None => 0,
        };
        if f.len() >= 6 && is_regular_uid(uid) {
            prev.push((f[0], uid, f[5]))
        } else {
            prev
        }
    }
}

/// The users as (name, UID, home) texts.
pub open spec fn passwd_view(v: Seq<PasswdUser>) -> Seq<(Seq<char>, u32, Seq<char>)> {
    Seq::new(v.len(), |i: int| (v[i].username@, v[i].uid, v[i].home@))
}

/// The regular users in the contents of `/etc/passwd` (see
/// `passwd_users`).
pub fn regular_passwd_users(content: &str) -> (r: Vec<PasswdUser>)
    ensures
        passwd_view(r@) == passwd_users(crate::text::lines_of(content@)),
{
    let lines = crate::text::lines_chars(&chars_of(content));
    let ghost ls = crate::text::lines_of(content@);
    let mut r: Vec<PasswdUser> = Vec::new();
    let mut i: usize = 0;
    while i < lines.len()
        invariant
            i <= lines@.len(),
            lines@.len() == ls.len(),
            forall|k: int| 0 <= k < lines@.len() ==> (#[trigger] lines@[k])@ == ls[k],
            passwd_view(r@) == passwd_users(ls.subrange(0, i as int)),
        decreases lines.len() - i,
    {
        let line = &lines[i];
        assert(ls.subrange(0, i + 1).drop_last() =~= ls.subrange(0, i as int));
        assert(ls.subrange(0, i + 1).last() == line@);
        let f = crate::text::split_chars(line, ':');
        if f.len() >= 6 {
            let uid: u32 = match parse_u32(&f[2]) {
                Some(u) => u,
                None => 0,
            };
            if uid >= 1000 && uid != 65534 {
                let ghost before = r@;
                r.push(
                    PasswdUser {
                        username: crate::text::string_of(&f[0]),
                        uid,
                        home: crate::text::string_of(&f[5]),
                    },
                );
                assert(passwd_view(r@) =~= passwd_view(before).push((f@[0]@, uid, f@[5]@)));
            }
        }
        i = i + 1;
    }
    assert(ls.subrange(0, i as int) =~= ls);
    r
}

/// Where a user's runner service is installed.
pub fn runner_service_path(home: &str) -> (r: String)
    ensures
        r@ == home@ + "/.config/systemd/user/oqto-runner.service"@,
{
    let mut r = lit(home);
    r.append("/.config/systemd/user/oqto-runner.service");
    r
}

/// The target of a question to an agent, without a leading `@@`.
pub fn ask_target(target: &str) -> (r: String)
    ensures
        r@ == (match strip_prefix(target@, "@@"@) {
            Some(rest) => rest,
            None => target@,
        }),
{
    match strip_prefix_str(target, "@@") {
        Some(rest) => rest,
        None => lit(target),
    }
}

// ---------------------------------------------------------------------------
// Runner status, database location, user lookup
// ---------------------------------------------------------------------------

/// The socket a user's runner listens on, for the user's UID.
pub fn runner_socket_path(uid: &str) -> (r: String)
    ensures
        r@ == "/run/user/"@ + uid@ + "/oqto-runner.sock"@,
{
    let mut r = lit("/run/user/");
    r.append(uid);
    r.append("/oqto-runner.sock");
    r
}

/// What checking a user's runner found.
#[derive(Debug, Clone)]
pub enum RunnerProbe {
    /// The user's UID could not be found.
    NoUid,
    /// The runner socket exists; the service query in the user's session
    /// printed this (trimmed), when it succeeded.
    SocketFound { query_output: Option<String> },
    /// There is no runner socket; the direct service query printed this
    /// (trimmed), when it ran.
    NoSocket { query_output: Option<String> },
}

/// The runner status shown for what the checks found: "error (no uid)"
/// without a UID; with the socket present, "active" when the query's
/// output mentions "active" (as "inactive" does too), else "active (socket
/// exists)"; without the socket, the query's output, or "inactive (no
/// socket)" when there is none or it is empty.
pub open spec fn runner_status_of(p: RunnerProbe) -> Seq<char> {
    match p {
        RunnerProbe::NoUid => "error (no uid)"@,
        RunnerProbe::SocketFound { query_output } => match query_output {
            Some(o) => if contains_seq(o@, "active"@) {
                "active"@
            } else {
                "active (socket exists)"@
            },
            None => "active (socket exists)"@,
        },
        RunnerProbe::NoSocket { query_output } => match query_output {
            Some(o) => if o@.len() > 0 {
                o@
            } else {
                "inactive (no socket)"@
            },
            None => "inactive (no socket)"@,
        },
    }
}

/// The runner status text (see `runner_status_of`).
pub fn runner_status_text(probe: RunnerProbe) -> (r: String)
    ensures
        r@ == runner_status_of(probe),
{
    match probe {
        RunnerProbe::NoUid => lit("error (no uid)"),
        RunnerProbe::SocketFound { query_output } => match query_output {
            Some(o) => {
                if str_contains(o.as_str(), "active") {
                    lit("active")
                } else {
                    lit("active (socket exists)")
                }
            },
            None => lit("active (socket exists)"),
        },
        RunnerProbe::NoSocket { query_output } => match query_output {
            Some(o) => {
                if o.as_str().unicode_len() > 0 {
                    o
                } else {
                    lit("inactive (no socket)")
                }
            },
            None => lit("inactive (no socket)"),
        },
    }
}

/// Where the CLI's database is when `/var/lib/oqto` holds the service
/// user's data.
pub open spec fn service_db_path() -> Seq<char> {
    "/var/lib/oqto/.local/share/oqto/oqto.db"@
}

/// The database under `XDG_DATA_HOME`, when there is one and it exists.
pub open spec fn existing_xdg_db(x: Option<(String, bool)>) -> Option<Seq<char>> {
    match x {
        Some((path, exists)) => if exists {
            Some(path@)
        } else {
            None
        },
        None => None,
    }
}

/// The database the CLI opens, from what exists: the service user's one;
/// else the one under `XDG_DATA_HOME` (when set and not empty); else the
/// user's own one; and when none exists yet, the service user's location if
/// `/var/lib/oqto` exists, else the user's own. `user_db` is the user's own
/// database path.
pub fn choose_database_path(
    service_db_exists: bool,
    xdg_db: Option<(String, bool)>,
    user_db: String,
    user_db_exists: bool,
    var_lib_exists: bool,
) -> (r: String)
    ensures
        r@ == (if service_db_exists {
            service_db_path()
        } else if existing_xdg_db(xdg_db) is Some {
            existing_xdg_db(xdg_db)->Some_0
        } else if user_db_exists {
            user_db@
        } else if var_lib_exists {
            service_db_path()
        } else {
            user_db@
        }),
{
    if service_db_exists {
        return lit("/var/lib/oqto/.local/share/oqto/oqto.db");
    }
    match xdg_db {
        Some((path, exists)) => {
            if exists {
                return path;
            }
        },
        None => {},
    }
    if user_db_exists {
        user_db
    } else if var_lib_exists {
        lit("/var/lib/oqto/.local/share/oqto/oqto.db")
    } else {
        user_db
    }
}

/// The ID of the first listed user with the given username that has an
/// ID.
pub open spec fn user_id_by_name(users: Seq<(Option<String>, Option<String>)>, name: Seq<char>) -> Option<Seq<char>>
    decreases users.len(),
{
    if users.len() == 0 {
        None
    } else {
        match (users[0].0, users[0].1) {
            (Some(u), Some(id)) => if u@ == name {
                Some(id@)
            } else {
                user_id_by_name(users.drop_first(), name)
            },
            _ => user_id_by_name(users.drop_first(), name),
        }
    }
}

/// Finds a user's ID by username among listed users, each given as
/// (username, ID) where present (see `user_id_by_name`).
pub fn find_user_id(users: &Vec<(Option<String>, Option<String>)>, name: &str) -> (r: Option<String>)
    ensures
        match user_id_by_name(users@, name@) {
            Some(id) => r matches Some(x) && x@ == id,
            None => r is None,
        },
{
    let mut i: usize = 0;
    assert(users@.subrange(0, users@.len() as int) =~= users@);
    while i < users.len()
        invariant
            i <= users@.len(),
            user_id_by_name(users@, name@) == user_id_by_name(
                users@.subrange(i as int, users@.len() as int),
                name@,
            ),
        decreases users.len() - i,
    {
        let ghost rest = users@.subrange(i as int, users@.len() as int);
        assert(rest[0] == users@[i as int]);
        assert(rest.drop_first() =~= users@.subrange(i + 1, users@.len() as int));
        match (&users[i].0, &users[i].1) {
            (Some(u), Some(id)) => {
                if lit(u.as_str()) == lit(name) {
                    return Some(id.clone());
                }
            },
            _ => {},
        }
        i = i + 1;
    }
    None
}

/// The error for a user that could not be found by ID or name.
pub fn user_not_found(user_or_id: &str) -> (r: String)
    ensures
        r@ == "User '"@ + user_or_id@ + "' not found. Provide a valid username or user ID."@,
{
    let mut m = lit("User '");
    m.append(user_or_id);
    m.append("' not found. Provide a valid username or user ID.");
    m
}

// ---------------------------------------------------------------------------
// JSON the CLI reads
// ---------------------------------------------------------------------------

/// The text under `key` in a parsed value, or `fallback` when the text was
/// not JSON or holds no string there.
pub open spec fn str_or(v: Option<crate::json::JsonValue>, key: Seq<char>, fallback: Seq<char>) -> Seq<char> {
    match v {
        Some(x) => match crate::json::json_str(x, key) {
            Some(s) => s,
            None => fallback,
        },
        None => fallback,
    }
}

fn str_or_exec(v: &Option<crate::json::JsonValue>, key: &str, fallback: &str) -> (r: String)
    ensures
        r@ == str_or(*v, key@, fallback@),
{
    match v {
        Some(x) => match crate::json::get_str(x, key) {
            Some(s) => s,
            None => lit(fallback),
        },
        None => lit(fallback),
    }
}

fn str_field_or(v: &crate::json::JsonValue, key: &str, fallback: &str) -> (r: String)
    ensures
        r@ == str_or(Some(*v), key@, fallback@),
{
    match crate::json::get_str(v, key) {
        Some(s) => s,
        None => lit(fallback),
    }
}

/// The tab definitions as (title, content) texts, where present.
pub open spec fn tab_items(items: Seq<crate::json::JsonValue>) -> Seq<(Option<Seq<char>>, Option<Seq<char>>)> {
    Seq::new(
        items.len(),
        |i: int| (crate::json::json_str(items[i], "title"@), crate::json::json_str(items[i], "content"@)),
    )
}

/// The (title, content) pairs as texts.
pub open spec fn tab_view(v: Seq<(Option<String>, Option<String>)>) -> Seq<(Option<Seq<char>>, Option<Seq<char>>)> {
    Seq::new(v.len(), |i: int| (crate::agent_rpc::opt_view(v[i].0), crate::agent_rpc::opt_view(v[i].1)))
}

/// The tab definitions in a parsed JSON value: an array whose items give
/// each tab's `title` and `content` texts where present; anything else is
/// refused with "parsing tabs JSON".
pub fn tab_defs_from(v: &crate::json::JsonValue) -> (r: Result<Vec<(Option<String>, Option<String>)>, String>)
    ensures
        match *v {
            crate::json::JsonValue::Array(a) => r matches Ok(x) && tab_view(x@) == tab_items(a@),
            _ => r matches Err(m) && m@ == "parsing tabs JSON"@,
        },
{
    match v {
        crate::json::JsonValue::Array(a) => {
            let mut out: Vec<(Option<String>, Option<String>)> = Vec::new();
            let mut i: usize = 0;
            while i < a.len()
                invariant
                    i <= a@.len(),
                    tab_view(out@) == tab_items(a@).subrange(0, i as int),
                decreases a.len() - i,
            {
                let t = crate::json::get_str(&a[i], "title");
                let c = crate::json::get_str(&a[i], "content");
                let ghost before = out@;
                out.push((t, c));
                assert(tab_view(out@) =~= tab_view(before).push(tab_items(a@)[i as int]));
                i = i + 1;
                assert(tab_view(out@) =~= tab_items(a@).subrange(0, i as int));
            }
            assert(tab_items(a@).subrange(0, i as int) =~= tab_items(a@));
            Ok(out)
        },
        _ => Err(lit("parsing tabs JSON")),
    }
}

/// The tabs given on the command line as JSON text (see `tab_defs_from`);
/// text that is not JSON is refused the same way.
pub fn tab_defs(text: &str) -> (r: Result<Vec<(Option<String>, Option<String>)>, String>)
    ensures
        match crate::json::json_of(text@) {
            Some(crate::json::JsonValue::Array(a)) => r matches Ok(v) && tab_view(v@) == tab_items(a@),
            _ => r matches Err(m) && m@ == "parsing tabs JSON"@,
        },
{
    match crate::json::parse_json(text) {
        Some(v) => tab_defs_from(&v),
        None => Err(lit("parsing tabs JSON")),
    }
}

/// The `results` array of a config sync reply (empty when it is not an
/// array).
pub open spec fn sync_result_list(v: crate::json::JsonValue) -> Seq<crate::json::JsonValue> {
    match crate::json::json_get(v, "results"@) {
        Some(crate::json::JsonValue::Array(a)) => a@,
        _ => Seq::empty(),
    }
}

/// Each synced user's `user_id` (else "-") and `error` text, if any.
pub open spec fn sync_items(items: Seq<crate::json::JsonValue>) -> Seq<(Seq<char>, Option<Seq<char>>)> {
    Seq::new(
        items.len(),
        |i: int| (str_or(Some(items[i]), "user_id"@, "-"@), crate::json::json_str(items[i], "error"@)),
    )
}

/// The per-user results as texts.
pub open spec fn sync_view(v: Seq<(String, Option<String>)>) -> Seq<(Seq<char>, Option<Seq<char>>)> {
    Seq::new(v.len(), |i: int| (v[i].0@, crate::agent_rpc::opt_view(v[i].1)))
}

/// The results in a parsed config sync reply: each entry of its `results`
/// array as (user ID, error).
pub fn sync_results_from(v: &crate::json::JsonValue) -> (r: Vec<(String, Option<String>)>)
    ensures
        sync_view(r@) == sync_items(sync_result_list(*v)),
{
    let mut out: Vec<(String, Option<String>)> = Vec::new();
    match crate::json::get_field(v, "results") {
        Some(crate::json::JsonValue::Array(a)) => {
            let mut i: usize = 0;
            while i < a.len()
                invariant
                    i <= a@.len(),
                    sync_view(out@) == sync_items(a@).subrange(0, i as int),
                decreases a.len() - i,
            {
                let id = str_field_or(&a[i], "user_id", "-");
                let err = crate::json::get_str(&a[i], "error");
                let ghost before = out@;
                out.push((id, err));
                assert(sync_view(out@) =~= sync_view(before).push(sync_items(a@)[i as int]));
                i = i + 1;
                assert(sync_view(out@) =~= sync_items(a@).subrange(0, i as int));
            }
            assert(sync_items(a@).subrange(0, i as int) =~= sync_items(a@));
        },
        _ => {
            assert(sync_view(out@) =~= sync_items(sync_result_list(*v)));
        },
    }
    out
}

/// The results of a config sync from the reply body: `None` when it is not
/// JSON (see `sync_results_from`).
pub fn sync_results(body: &str) -> (r: Option<Vec<(String, Option<String>)>>)
    ensures
        match crate::json::json_of(body@) {
            None => r is None,
            Some(v) => r matches Some(x) && sync_view(x@) == sync_items(sync_result_list(v)),
        },
{
    match crate::json::parse_json(body) {
        None => None,
        Some(v) => Some(sync_results_from(&v)),
    }
}

/// What sending a surface came to, as the reply says.
#[derive(Debug, Clone)]
pub enum SurfaceOutcome {
    /// The user acted: the action's name.
    Action(String),
    /// Nobody acted before the timeout.
    TimedOut,
    /// The surface was dismissed.
    Dismissed,
    /// A non-blocking surface was sent, with the request ID if given.
    Sent(Option<String>),
}

/// The boolean under `key`, when it is one.
pub open spec fn json_bool(v: crate::json::JsonValue, key: Seq<char>) -> Option<bool> {
    match crate::json::json_get(v, key) {
        Some(crate::json::JsonValue::Bool(b)) => Some(b),
        _ => None,
    }
}

/// The outcome of sending a surface from the parsed reply. Blocking, an
/// `action` gives its `name` (else "unknown"), a `timeout` of true a
/// time-out, anything else a dismissal; not blocking, the surface was sent,
/// with the `request_id` text if there is one.
pub fn surface_outcome_from(v: &crate::json::JsonValue, blocking: bool) -> (r: SurfaceOutcome)
    ensures
        if !blocking {
            r matches SurfaceOutcome::Sent(id) && crate::agent_rpc::opt_view(id) == crate::json::json_str(
                *v,
                "request_id"@,
            )
        } else if crate::json::json_get(*v, "action"@) is Some {
            r matches SurfaceOutcome::Action(n) && n@ == str_or(crate::json::json_get(*v, "action"@), "name"@, "unknown"@)
        } else if json_bool(*v, "timeout"@) == Some(true) {
            r is TimedOut
        } else {
            r is Dismissed
        },
{
    if !blocking {
        return SurfaceOutcome::Sent(crate::json::get_str(v, "request_id"));
    }
    match crate::json::get_field(v, "action") {
        Some(a) => SurfaceOutcome::Action(str_field_or(a, "name", "unknown")),
        None => match crate::json::get_field(v, "timeout") {
            Some(crate::json::JsonValue::Bool(true)) => SurfaceOutcome::TimedOut,
            _ => SurfaceOutcome::Dismissed,
        },
    }
}

/// The outcome of sending a surface from the reply body: `None` when it is
/// not JSON (see `surface_outcome_from`).
pub fn surface_outcome(body: &str, blocking: bool) -> (r: Option<SurfaceOutcome>)
    ensures
        match crate::json::json_of(body@) {
            None => r is None,
            Some(v) => if !blocking {
                r matches Some(SurfaceOutcome::Sent(id)) && crate::agent_rpc::opt_view(id)
                    == crate::json::json_str(v, "request_id"@)
            } else if crate::json::json_get(v, "action"@) is Some {
                r matches Some(SurfaceOutcome::Action(n)) && n@ == str_or(
                    crate::json::json_get(v, "action"@),
                    "name"@,
                    "unknown"@,
                )
            } else if json_bool(v, "timeout"@) == Some(true) {
                r matches Some(SurfaceOutcome::TimedOut)
            } else {
                r matches Some(SurfaceOutcome::Dismissed)
            },
        },
{
    match crate::json::parse_json(body) {
        None => None,
        Some(v) => Some(surface_outcome_from(&v, blocking)),
    }
}

/// The items of a user listing reply (nothing when it is not an array).
pub open spec fn listed_items(v: crate::json::JsonValue) -> Seq<crate::json::JsonValue> {
    match v {
        crate::json::JsonValue::Array(a) => a@,
        _ => Seq::empty(),
    }
}

/// Each listed user's `username` and `id` texts, where present.
pub open spec fn user_items(items: Seq<crate::json::JsonValue>) -> Seq<(Option<Seq<char>>, Option<Seq<char>>)> {
    Seq::new(
        items.len(),
        |i: int| (crate::json::json_str(items[i], "username"@), crate::json::json_str(items[i], "id"@)),
    )
}

/// The `id` of the first listed user whose `username` is `name` and that
/// has an `id`.
pub open spec fn named_id(items: Seq<crate::json::JsonValue>, name: Seq<char>) -> Option<Seq<char>>
    decreases items.len(),
{
    if items.len() == 0 {
        None
    } else {
        match (crate::json::json_str(items[0], "username"@), crate::json::json_str(items[0], "id"@)) {
            (Some(u), Some(id)) => if u == name {
                Some(id)
            } else {
                named_id(items.drop_first(), name)
            },
            _ => named_id(items.drop_first(), name),
        }
    }
}

proof fn lemma_named_id(x: Seq<(Option<String>, Option<String>)>, items: Seq<crate::json::JsonValue>, name: Seq<char>)
    requires
        tab_view(x) == user_items(items),
    ensures
        user_id_by_name(x, name) == named_id(items, name),
    decreases items.len(),
{
    assert(x.len() == tab_view(x).len());
    if items.len() > 0 {
        assert(tab_view(x.drop_first()) =~= user_items(items.drop_first())) by {
            assert forall|i: int| 0 <= i < x.len() - 1 implies #[trigger] tab_view(x.drop_first())[i]
                == user_items(items.drop_first())[i] by {
                assert(tab_view(x)[i + 1] == user_items(items)[i + 1]);
            }
        }
        lemma_named_id(x.drop_first(), items.drop_first(), name);
        assert(tab_view(x)[0] == user_items(items)[0]);
    }
}

/// The users in a parsed listing, as (username, ID) where present.
pub fn user_listing_from(v: &crate::json::JsonValue) -> (r: Vec<(Option<String>, Option<String>)>)
    ensures
        tab_view(r@) == user_items(listed_items(*v)),
{
    let mut out: Vec<(Option<String>, Option<String>)> = Vec::new();
    match v {
        crate::json::JsonValue::Array(a) => {
            let mut i: usize = 0;
            while i < a.len()
                invariant
                    i <= a@.len(),
                    tab_view(out@) == user_items(a@).subrange(0, i as int),
                decreases a.len() - i,
            {
                let u = crate::json::get_str(&a[i], "username");
                let id = crate::json::get_str(&a[i], "id");
                let ghost before = out@;
                out.push((u, id));
                assert(tab_view(out@) =~= tab_view(before).push(user_items(a@)[i as int]));
                i = i + 1;
                assert(tab_view(out@) =~= user_items(a@).subrange(0, i as int));
            }
            assert(user_items(a@).subrange(0, i as int) =~= user_items(a@));
        },
        _ => {
            assert(tab_view(out@) =~= user_items(listed_items(*v)));
        },
    }
    out
}

/// The ID of the user named `name` in a user listing reply (see
/// `named_id`); none when the reply is not JSON.
pub fn user_id_in_listing(body: &str, name: &str) -> (r: Option<String>)
    ensures
        crate::agent_rpc::opt_view(r) == (match crate::json::json_of(body@) {
            Some(v) => named_id(listed_items(v), name@),
            None => None,
        }),
{
    match crate::json::parse_json(body) {
        None => None,
        Some(v) => {
            let users = user_listing_from(&v);
            let r = find_user_id(&users, name);
            proof {
                lemma_named_id(users@, listed_items(v), name@);
            }
            r
        },
    }
}

/// The `id` text of the user a lookup by ID answered with; none when the
/// reply is not JSON or has none.
pub fn user_id_in_reply(body: &str) -> (r: Option<String>)
    ensures
        crate::agent_rpc::opt_view(r) == (match crate::json::json_of(body@) {
            Some(v) => crate::json::json_str(v, "id"@),
            None => None,
        }),
{
    match crate::json::parse_json(body) {
        None => None,
        Some(v) => crate::json::get_str(&v, "id"),
    }
}

/// The error for a user found neither by ID nor by username.
pub fn user_not_found_message(user: &str) -> (r: String)
    ensures
        r@ == "User '"@ + user@ + "' not found. Provide a valid username or user ID."@,
{
    let mut m = lit("User '");
    m.append(user);
    m.append("' not found. Provide a valid username or user ID.");
    m
}

/// What a failed server request reports: the body's `error` text, else its
/// `message` text, else the body itself.
pub open spec fn failure_message_of(body: Seq<char>) -> Seq<char> {
    let v = crate::json::json_of(body);
    str_or(v, "error"@, str_or(v, "message"@, body))
}

/// The message of a failed server request from its parsed body (`None`
/// when the body is not JSON) and the body's text: the `error` text, else
/// the `message` text, else the body itself.
pub fn failure_message_from(v: &Option<crate::json::JsonValue>, body: &str) -> (r: String)
    ensures
        r@ == str_or(*v, "error"@, str_or(*v, "message"@, body@)),
{
    let m = str_or_exec(v, "message", body);
    str_or_exec(v, "error", m.as_str())
}

/// The message of a failed server request (see `failure_message_of`).
pub fn api_failure_message(body: &str) -> (r: String)
    ensures
        r@ == failure_message_of(body@),
{
    let v = crate::json::parse_json(body);
    failure_message_from(&v, body)
}

/// What is shown of a created user.
#[derive(Debug, Clone)]
pub struct UserReport {
    pub username: String,
    pub email: String,
    pub role: String,
    pub linux_username: Option<String>,
    pub id: String,
}

/// The report on a created user from the server's parsed answer (`None`
/// when it is not JSON): its `username`, `email` and `role` texts, else
/// those that were asked for; its `linux_username` text if any; its `id`
/// text, else "?".
pub fn user_report_from(v: &Option<crate::json::JsonValue>, username: &str, email: &str, role: &str) -> (r:
    UserReport)
    ensures
        r.username@ == str_or(*v, "username"@, username@),
        r.email@ == str_or(*v, "email"@, email@),
        r.role@ == str_or(*v, "role"@, role@),
        crate::agent_rpc::opt_view(r.linux_username) == (match *v {
            Some(x) => crate::json::json_str(x, "linux_username"@),
            None => None,
        }),
        r.id@ == str_or(*v, "id"@, "?"@),
{
    let linux_username = match v {
        Some(x) => crate::json::get_str(x, "linux_username"),
        None => None,
    };
    UserReport {
        username: str_or_exec(v, "username", username),
        email: str_or_exec(v, "email", email),
        role: str_or_exec(v, "role", role),
        linux_username,
        id: str_or_exec(v, "id", "?"),
    }
}

/// The report on a created user from the server's answer text (see
/// `user_report_from`).
pub fn created_user_report(body: &str, username: &str, email: &str, role: &str) -> (r: UserReport)
    ensures
        r.username@ == str_or(crate::json::json_of(body@), "username"@, username@),
        r.email@ == str_or(crate::json::json_of(body@), "email"@, email@),
        r.role@ == str_or(crate::json::json_of(body@), "role"@, role@),
        crate::agent_rpc::opt_view(r.linux_username) == (match crate::json::json_of(body@) {
            Some(v) => crate::json::json_str(v, "linux_username"@),
            None => None,
        }),
        r.id@ == str_or(crate::json::json_of(body@), "id"@, "?"@),
{
    let v = crate::json::parse_json(body);
    user_report_from(&v, username, email, role)
}

/// A bus event as the tail shows it.
#[derive(Debug, Clone)]
pub struct BusEvent {
    pub topic: String,
    pub scope: String,
    pub scope_id: String,
    /// The type of the event's source.
    pub source: String,
}

/// Whether a parsed mux frame is a bus event.
pub open spec fn is_bus_event_value(v: crate::json::JsonValue) -> bool {
    crate::json::json_str(v, "channel"@) == Some("bus"@) && crate::json::json_str(v, "type"@) == Some(
        "event"@,
    )
}

/// The bus event in a parsed mux frame: none when it is not a bus event;
/// otherwise its `topic`, `scope`, `scope_id` and `source.type` texts, each
/// "-" when absent.
pub fn bus_event_from(v: &crate::json::JsonValue) -> (r: Option<BusEvent>)
    ensures
        if is_bus_event_value(*v) {
            r matches Some(e) && e.topic@ == str_or(Some(*v), "topic"@, "-"@) && e.scope@ == str_or(
                Some(*v),
                "scope"@,
                "-"@,
            ) && e.scope_id@ == str_or(Some(*v), "scope_id"@, "-"@) && e.source@ == str_or(
                crate::json::json_get(*v, "source"@),
                "type"@,
                "-"@,
            )
        } else {
            r is None
        },
{
    let channel = crate::json::get_str(v, "channel");
    let kind = crate::json::get_str(v, "type");
    let is_bus = match (&channel, &kind) {
        (Some(c), Some(k)) => *c == lit("bus") && *k == lit("event"),
        _ => false,
    };
    if !is_bus {
        return None;
    }
    let source = match crate::json::get_field(v, "source") {
        Some(s) => str_field_or(s, "type", "-"),
        None => lit("-"),
    };
    Some(
        BusEvent {
            topic: str_field_or(v, "topic", "-"),
            scope: str_field_or(v, "scope", "-"),
            scope_id: str_field_or(v, "scope_id", "-"),
            source,
        },
    )
}

/// The bus event a mux frame carries: none for a frame that is not JSON
/// (see `bus_event_from`).
pub fn bus_event_of_frame(frame: &str) -> (r: Option<BusEvent>)
    ensures
        match crate::json::json_of(frame@) {
            Some(v) => if is_bus_event_value(v) {
                r matches Some(e) && e.topic@ == str_or(Some(v), "topic"@, "-"@) && e.scope@ == str_or(
                    Some(v),
                    "scope"@,
                    "-"@,
                ) && e.scope_id@ == str_or(Some(v), "scope_id"@, "-"@) && e.source@ == str_or(
                    crate::json::json_get(v, "source"@),
                    "type"@,
                    "-"@,
                )
            } else {
                r is None
            },
            None => r is None,
        },
{
    match crate::json::parse_json(frame) {
        Some(v) => bus_event_from(&v),
        None => None,
    }
}

/// The (topic, scope, scope_id, source) texts of the bus event a mux frame
/// carries (see `bus_event_of_frame`).
pub open spec fn frame_event(frame: Seq<char>) -> Option<(Seq<char>, Seq<char>, Seq<char>, Seq<char>)> {
    match crate::json::json_of(frame) {
        Some(v) => if is_bus_event_value(v) {
            Some(
                (
                    str_or(Some(v), "topic"@, "-"@),
                    str_or(Some(v), "scope"@, "-"@),
                    str_or(Some(v), "scope_id"@, "-"@),
                    str_or(crate::json::json_get(v, "source"@), "type"@, "-"@),
                ),
            )
        } else {
            None
        },
        None => None,
    }
}

/// A bus event's texts.
pub open spec fn event_view(e: Option<BusEvent>) -> Option<(Seq<char>, Seq<char>, Seq<char>, Seq<char>)> {
    match e {
        Some(x) => Some((x.topic@, x.scope@, x.scope_id@, x.source@)),
        None => None,
    }
}

/// A bus event as the tail prints it: `[scope/scope_id] topic <- source`.
pub fn bus_event_line(e: &BusEvent) -> (r: String)
    ensures
        r@ == "["@ + e.scope@ + "/"@ + e.scope_id@ + "] "@ + e.topic@ + " <- "@ + e.source@,
{
    let mut r = lit("[");
    r.append(e.scope.as_str());
    r.append("/");
    r.append(e.scope_id.as_str());
    r.append("] ");
    r.append(e.topic.as_str());
    r.append(" <- ");
    r.append(e.source.as_str());
    r
}

/// One step of the bus tail: the event a frame carries (if any), how many
/// events have been seen after it, and whether the tail stops there.
#[derive(Debug, Clone)]
pub struct BusTailStep {
    pub event: Option<BusEvent>,
    pub seen: usize,
    pub stop: bool,
}

/// The tail's step on a text frame, having seen `seen` events: a frame that
/// is not a bus event is skipped; an event is counted, and the tail stops
/// once the count reaches `limit`.
pub fn bus_tail_step(seen: usize, limit: Option<usize>, frame: &str) -> (r: BusTailStep)
    requires
        seen < usize::MAX,
    ensures
        frame_event(frame@) is Some ==> r.seen == seen + 1 && r.stop == (limit is Some && seen + 1
            >= limit.unwrap()),
        frame_event(frame@) is None ==> r.seen == seen && !r.stop,
        event_view(r.event) == frame_event(frame@),
{
    let e = bus_event_of_frame(frame);
    match e {
        Some(ev) => {
            let n = seen + 1;
            let stop = tail_limit_reached(n, limit);
            BusTailStep { event: Some(ev), seen: n, stop }
        },
        None => BusTailStep { event: None, seen, stop: false },
    }
}

/// The unsigned integer under `key` (`v[key].as_u64()`): a number whose
/// text is digits alone, since serde_json writes every other number with a
/// sign, a point or an exponent.
pub open spec fn json_u64(v: crate::json::JsonValue, key: Seq<char>) -> Option<nat> {
    match crate::json::json_get(v, key) {
        Some(crate::json::JsonValue::Number(t)) => parsed_magnitude(t@, 0xffff_ffff_ffff_ffff),
        _ => None,
    }
}

/// The unsigned integer under `key`, else 0.
pub open spec fn u64_or_zero(v: crate::json::JsonValue, key: Seq<char>) -> nat {
    match json_u64(v, key) {
        Some(n) => n,
        None => 0,
    }
}

fn u64_field_or_zero(v: &crate::json::JsonValue, key: &str) -> (r: u64)
    ensures
        r == u64_or_zero(*v, key@),
{
    match crate::json::get_field(v, key) {
        Some(crate::json::JsonValue::Number(t)) => {
            let c = chars_of(t.as_str());
            assert(c@.subrange(0, c@.len() as int) =~= c@);
            match parse_magnitude(&c, 0, 0xffff_ffff_ffff_ffff) {
                Some(n) => n,
                None => 0,
            }
        },
        _ => 0,
    }
}

/// The message bus counters as the status command shows them.
#[derive(Debug, Clone, Copy)]
pub struct BusStats {
    pub subscribers: u64,
    pub subscriptions: u64,
    pub published: u64,
    pub delivered: u64,
    pub dropped_authz: u64,
    pub dropped_rate: u64,
}

/// The bus counters in a parsed stats reply, each 0 where the reply lacks
/// it.
pub fn bus_stats_from(v: &crate::json::JsonValue) -> (r: BusStats)
    ensures
        r.subscribers == u64_or_zero(*v, "subscriber_count"@),
        r.subscriptions == u64_or_zero(*v, "total_subscriptions"@),
        r.published == u64_or_zero(*v, "events_published"@),
        r.delivered == u64_or_zero(*v, "events_delivered"@),
        r.dropped_authz == u64_or_zero(*v, "events_dropped_authz"@),
        r.dropped_rate == u64_or_zero(*v, "events_dropped_rate"@),
{
    BusStats {
        subscribers: u64_field_or_zero(v, "subscriber_count"),
        subscriptions: u64_field_or_zero(v, "total_subscriptions"),
        published: u64_field_or_zero(v, "events_published"),
        delivered: u64_field_or_zero(v, "events_delivered"),
        dropped_authz: u64_field_or_zero(v, "events_dropped_authz"),
        dropped_rate: u64_field_or_zero(v, "events_dropped_rate"),
    }
}

/// The bus counters in a stats reply: `None` when the body is not JSON
/// (see `bus_stats_from`).
pub fn bus_stats(body: &str) -> (r: Option<BusStats>)
    ensures
        match crate::json::json_of(body@) {
            None => r is None,
            Some(v) => r matches Some(s) && s.subscribers == u64_or_zero(v, "subscriber_count"@)
                && s.subscriptions == u64_or_zero(v, "total_subscriptions"@) && s.published
                == u64_or_zero(v, "events_published"@) && s.delivered == u64_or_zero(
                v,
                "events_delivered"@,
            ) && s.dropped_authz == u64_or_zero(v, "events_dropped_authz"@) && s.dropped_rate
                == u64_or_zero(v, "events_dropped_rate"@),
        },
{
    match crate::json::parse_json(body) {
        None => None,
        Some(v) => Some(bus_stats_from(&v)),
    }
}

/// The ID of a published bus event in the parsed reply: its `event_id`
/// text, else "unknown".
pub fn published_event_id_from(v: &crate::json::JsonValue) -> (r: String)
    ensures
        r@ == str_or(Some(*v), "event_id"@, "unknown"@),
{
    str_field_or(v, "event_id", "unknown")
}

/// The ID of a published bus event from the reply: `None` when the body
/// is not JSON (see `published_event_id_from`).
pub fn published_event_id(body: &str) -> (r: Option<String>)
    ensures
        match crate::json::json_of(body@) {
            None => r is None,
            Some(v) => r matches Some(x) && x@ == str_or(Some(v), "event_id"@, "unknown"@),
        },
{
    match crate::json::parse_json(body) {
        None => None,
        Some(v) => Some(published_event_id_from(&v)),
    }
}

/// The payload of an event to publish: given with `--payload`, it must be
/// JSON ("parsing --payload JSON"); read from standard input, blank text
/// is the empty object and anything else must be JSON ("parsing payload
/// JSON from stdin").
pub fn bus_payload(text: &str, from_stdin: bool) -> (r: Result<crate::json::JsonValue, String>)
    ensures
        from_stdin && trim(text@).len() == 0 ==> (r matches Ok(crate::json::JsonValue::Object(e))
            && e@.len() == 0),
        !(from_stdin && trim(text@).len() == 0) ==> match crate::json::json_of(text@) {
            Some(v) => r == Ok::<crate::json::JsonValue, String>(v),
            None => r matches Err(m) && m@ == (if from_stdin {
                "parsing payload JSON from stdin"@
            } else {
                "parsing --payload JSON"@
            }),
        },
{
    if from_stdin {
        let t = crate::text::trim_chars(&chars_of(text));
        if t.len() == 0 {
            return Ok(crate::json::JsonValue::Object(Vec::new()));
        }
    }
    match crate::json::parse_json(text) {
        Some(v) => Ok(v),
        None => if from_stdin {
            Err(lit("parsing payload JSON from stdin"))
        } else {
            Err(lit("parsing --payload JSON"))
        },
    }
}

/// What an answer stream's event shows.
#[derive(Debug, Clone)]
pub enum AskEvent {
    /// Answer text.
    Text(String),
    /// Thinking text (shown dimmed).
    Thinking(String),
    /// The answer is complete.
    Done,
    /// The agent reported an error.
    Error(String),
}

/// The event a parsed answer stream message shows: by its `type`, a
/// "text" or "thinking" event with its `data` text, "done", or an "error"
/// event with its `error` text; another type, or a missing text, shows
/// nothing.
pub fn ask_event_from(v: &crate::json::JsonValue) -> (r: Option<AskEvent>)
    ensures
        ({
            let t = crate::json::json_str(*v, "type"@);
            let d = crate::json::json_str(*v, "data"@);
            let e = crate::json::json_str(*v, "error"@);
            if t == Some("text"@) {
                match d {
                    Some(x) => r matches Some(AskEvent::Text(y)) && y@ == x,
                    None => r is None,
                }
            } else if t == Some("thinking"@) {
                match d {
                    Some(x) => r matches Some(AskEvent::Thinking(y)) && y@ == x,
                    None => r is None,
                }
            } else if t == Some("done"@) {
                r matches Some(AskEvent::Done)
            } else if t == Some("error"@) {
                match e {
                    Some(x) => r matches Some(AskEvent::Error(y)) && y@ == x,
                    None => r is None,
                }
            } else {
                r is None
            }
        }),
{
    let t = match crate::json::get_str(v, "type") {
        Some(t) => t,
        None => {
            return None;
        },
    };
    if t == lit("text") {
        match crate::json::get_str(v, "data") {
            Some(x) => Some(AskEvent::Text(x)),
            None => None,
        }
    } else if t == lit("thinking") {
        match crate::json::get_str(v, "data") {
            Some(x) => Some(AskEvent::Thinking(x)),
            None => None,
        }
    } else if t == lit("done") {
        Some(AskEvent::Done)
    } else if t == lit("error") {
        match crate::json::get_str(v, "error") {
            Some(x) => Some(AskEvent::Error(x)),
            None => None,
        }
    } else {
        None
    }
}

/// The event in an answer stream message's data: nothing when it is not
/// JSON (see `ask_event_from`).
pub fn ask_event_of_data(data: &str) -> (r: Option<AskEvent>)
    ensures
        match crate::json::json_of(data@) {
            Some(v) => {
                let t = crate::json::json_str(v, "type"@);
                let d = crate::json::json_str(v, "data"@);
                let e = crate::json::json_str(v, "error"@);
                if t == Some("text"@) {
                    match d {
                        Some(x) => r matches Some(AskEvent::Text(y)) && y@ == x,
                        None => r is None,
                    }
                } else if t == Some("thinking"@) {
                    match d {
                        Some(x) => r matches Some(AskEvent::Thinking(y)) && y@ == x,
                        None => r is None,
                    }
                } else if t == Some("done"@) {
                    r matches Some(AskEvent::Done)
                } else if t == Some("error"@) {
                    match e {
                        Some(x) => r matches Some(AskEvent::Error(y)) && y@ == x,
                        None => r is None,
                    }
                } else {
                    r is None
                }
            },
            None => r is None,
        },
{
    match crate::json::parse_json(data) {
        Some(v) => ask_event_from(&v),
        None => None,
    }
}

/// A matching session's title as the ask command lists it: its first 40
/// characters, with `...` added when the title is longer than 40 bytes.
pub open spec fn match_title_display(title: Seq<char>) -> Seq<char> {
    let head = if title.len() > 40 { title.take(40) } else { title };
    if crate::text::utf8_len(title) > 40 { head + "..."@ } else { head }
}

fn match_title_text(title: &str) -> (r: String)
    ensures
        r@ == match_title_display(title@),
{
    let v = chars_of(title);
    let n = if v.len() > 40 { 40 } else { v.len() };
    let head = crate::text::slice_chars(&v, 0, n);
    assert(head@ == (if title@.len() > 40 { title@.take(40) } else { title@ }));
    let mut r = crate::text::string_of(&head);
    if crate::text::utf8_longer_than(&v, 40) {
        r.append("...");
    }
    r
}

/// The `matches` array of an ask reply (empty when it is not an array).
pub open spec fn match_list(v: crate::json::JsonValue) -> Seq<crate::json::JsonValue> {
    match crate::json::json_get(v, "matches"@) {
        Some(crate::json::JsonValue::Array(a)) => a@,
        _ => Seq::empty(),
    }
}

/// The matching sessions as listed: each one's `id` (else "?") and its
/// title (else "(untitled)") as `match_title_display` shows it.
pub open spec fn match_items(items: Seq<crate::json::JsonValue>) -> Seq<(Seq<char>, Seq<char>)> {
    Seq::new(
        items.len(),
        |i: int|
            (
                str_or(Some(items[i]), "id"@, "?"@),
                match_title_display(str_or(Some(items[i]), "title"@, "(untitled)"@)),
            ),
    )
}

/// The session ID suggested for a more specific target: the first match's
/// `id`, else "session_id".
pub open spec fn match_suggestion(items: Seq<crate::json::JsonValue>) -> Seq<char> {
    if items.len() > 0 {
        str_or(Some(items[0]), "id"@, "session_id"@)
    } else {
        "session_id"@
    }
}

/// What a completed ask request answered.
#[derive(Debug, Clone)]
pub enum AskReply {
    /// The target matched several sessions.
    Ambiguous { message: String, matches: Vec<(String, String)>, suggestion: String },
    /// The agent's response text.
    Answer(String),
    /// Neither: the reply is shown as it came.
    Other,
}

/// The reply to a completed ask request in its parsed body: a reply with a
/// `matches` field is ambiguous, listing its `error` text (else "Multiple
/// matches found"), the matches and the suggested ID; else its `response`
/// text, where there is one.
pub fn ask_reply_from(v: &crate::json::JsonValue) -> (r: AskReply)
    ensures
        if crate::json::json_get(*v, "matches"@) is Some {
            r matches AskReply::Ambiguous { message, matches, suggestion } && message@ == str_or(
                Some(*v),
                "error"@,
                "Multiple matches found"@,
            ) && crate::container::pairs_view(matches@) == match_items(match_list(*v)) && suggestion@
                == match_suggestion(match_list(*v))
        } else {
            match crate::json::json_str(*v, "response"@) {
                Some(t) => r matches AskReply::Answer(x) && x@ == t,
                None => r is Other,
            }
        },
{
    match crate::json::get_field(v, "matches") {
        Some(m) => {
            let message = str_field_or(v, "error", "Multiple matches found");
            let mut matches: Vec<(String, String)> = Vec::new();
            let mut suggestion = lit("session_id");
            match m {
                crate::json::JsonValue::Array(a) => {
                    let mut i: usize = 0;
                    while i < a.len()
                        invariant
                            i <= a@.len(),
                            crate::container::pairs_view(matches@) == match_items(a@).subrange(0, i as int),
                        decreases a.len() - i,
                    {
                        let id = str_field_or(&a[i], "id", "?");
                        let title = str_field_or(&a[i], "title", "(untitled)");
                        let shown = match_title_text(title.as_str());
                        let ghost before = matches@;
                        matches.push((id, shown));
                        assert(crate::container::pairs_view(matches@) =~= crate::container::pairs_view(
                            before,
                        ).push(match_items(a@)[i as int]));
                        i = i + 1;
                        assert(crate::container::pairs_view(matches@) =~= match_items(a@).subrange(0, i as int));
                    }
                    assert(match_items(a@).subrange(0, i as int) =~= match_items(a@));
                    if a.len() > 0 {
                        suggestion = str_field_or(&a[0], "id", "session_id");
                    }
                },
                _ => {},
            }
            AskReply::Ambiguous { message, matches, suggestion }
        },
        None => match crate::json::get_str(v, "response") {
            Some(t) => AskReply::Answer(t),
            None => AskReply::Other,
        },
    }
}

/// The reply to a completed ask request from its body: `None` when the
/// body is not JSON (see `ask_reply_from`).
pub fn ask_reply(body: &str) -> (r: Option<AskReply>)
    ensures
        match crate::json::json_of(body@) {
            None => r is None,
            Some(v) => if crate::json::json_get(v, "matches"@) is Some {
                r matches Some(AskReply::Ambiguous { message, matches, suggestion })
                    && message@ == str_or(Some(v), "error"@, "Multiple matches found"@)
                    && crate::container::pairs_view(matches@) == match_items(match_list(v))
                    && suggestion@ == match_suggestion(match_list(v))
            } else {
                match crate::json::json_str(v, "response"@) {
                    Some(t) => r matches Some(AskReply::Answer(x)) && x@ == t,
                    None => r matches Some(AskReply::Other),
                }
            },
        },
{
    match crate::json::parse_json(body) {
        None => None,
        Some(v) => Some(ask_reply_from(&v)),
    }
}

// ---------------------------------------------------------------------------
// TOML configuration text
// ---------------------------------------------------------------------------

#[verifier::external_type_specification]
#[verifier::external_body]
pub struct ExTomlValue(toml::Value);

/// What `toml::from_str::<toml::Value>` reads from the text, in the
/// library's form; `None` when the text is not TOML it accepts.
pub uninterp spec fn toml_config_of(text: Seq<char>) -> Option<ConfigValue>;

/// `toml::from_str::<toml::Value>`, converted one for one. The contract
/// names the result; the TOML grammar is not restated, and the error is
/// toml's message, of which nothing is said.
#[verifier::external_body]
fn parse_toml_config(text: &str) -> (r: Result<ConfigValue, String>)
    ensures
        match toml_config_of(text@) {
            Some(v) => r == Ok::<ConfigValue, String>(v),
            None => r is Err,
        },
{
    match toml::from_str::<toml::Value>(text) {
        Ok(v) => Ok(config_from_toml(&v)),
        Err(e) => Err(e.to_string()),
    }
}

/// A `toml::Value` in the library's form, variant for variant (floats and
/// date-times, which the CLI never reads, as `Other`).
#[verifier::external_body]
fn config_from_toml(v: &toml::Value) -> ConfigValue {
    match v {
        toml::Value::String(s) => ConfigValue::Text(s.clone()),
        toml::Value::Integer(i) => ConfigValue::Integer(*i),
        toml::Value::Boolean(b) => ConfigValue::Boolean(*b),
        toml::Value::Array(a) => ConfigValue::Array(a.iter().map(config_from_toml).collect()),
        toml::Value::Table(t) => ConfigValue::Table(
            t.iter().map(|(k, x)| (k.clone(), config_from_toml(x))).collect(),
        ),
        _ => ConfigValue::Other,
    }
}

/// The install profile a configuration file's text states (see
/// `profile_of_config`); none when the text is not TOML.
pub fn detect_profile_from_config_text(text: &str) -> (r: Option<InstallProfile>)
    ensures
        r == (match toml_config_of(text@) {
            Some(v) => profile_of_config(v),
            None => None,
        }),
{
    match parse_toml_config(text) {
        Ok(v) => detect_profile_from_config_value(&v),
        Err(_) => None,
    }
}

/// The report on a sandbox configuration file's text (see
/// `sandbox_report`); an error, with toml's message, when the text is not
/// TOML.
pub fn sandbox_report_from_text(text: &str) -> (r: Result<SandboxReport, String>)
    ensures
        r is Err <==> toml_config_of(text@) is None,
        toml_config_of(text@) matches Some(v) ==> (r matches Ok(rep) && strings_view(rep.warnings@)
            == sandbox_warnings(v) && rep.enabled == sandbox_enabled(v) && rep.profile@ == (match config_get(
            v,
            "profile"@,
        ) {
            Some(ConfigValue::Text(t)) => t@,
            _ => "default"@,
        })),
{
    match parse_toml_config(text) {
        Ok(v) => Ok(sandbox_report(&v)),
        Err(e) => Err(e),
    }
}

// ---------------------------------------------------------------------------
// Identity doctor
// ---------------------------------------------------------------------------

/// The value of one or more ASCII digits, when it is at most `limit`.
pub open spec fn parsed_magnitude(d: Seq<char>, limit: nat) -> Option<nat> {
    if d.len() > 0 && (forall|i: int| 0 <= i < d.len() ==> is_digit(#[trigger] d[i]))
        && digits_value(d) <= limit {
        Some(digits_value(d))
    } else {
        None
    }
}

/// An `i64` read as `str::parse` reads it: an optional sign, then one or
/// more ASCII digits whose value fits.
pub open spec fn parsed_i64(s: Seq<char>) -> Option<i64> {
    if s.len() > 0 && s[0] == '-' {
        match parsed_magnitude(s.drop_first(), 0x8000_0000_0000_0000) {
            Some(v) => Some((-v) as i64),
            None => None,
        }
    } else {
        let d = if s.len() > 0 && s[0] == '+' {
            s.drop_first()
        } else {
            s
        };
        match parsed_magnitude(d, 0x7fff_ffff_ffff_ffff) {
            Some(v) => Some(v as i64),
            None => None,
        }
    }
}

fn parse_magnitude(s: &Vec<char>, start: usize, limit: u64) -> (r: Option<u64>)
    requires
        start <= s@.len(),
    ensures
        match parsed_magnitude(s@.subrange(start as int, s@.len() as int), limit as nat) {
            Some(v) => r == Some(v as u64),
            None => r is None,
        },
{
    let ghost d = s@.subrange(start as int, s@.len() as int);
    if start >= s.len() {
        return None;
    }
    let cap: u128 = limit as u128 + 1;
    let mut acc: u128 = 0;
    let mut i: usize = start;
    while i < s.len()
        invariant
            start <= i <= s@.len(),
            d == s@.subrange(start as int, s@.len() as int),
            cap == limit + 1,
            forall|k: int| start <= k < i ==> is_digit(#[trigger] s@[k]),
            acc == (if digits_value(s@.subrange(start as int, i as int)) < cap {
                digits_value(s@.subrange(start as int, i as int))
            } else {
                cap as nat
            }),
        decreases s.len() - i,
    {
        let c = s[i];
        if !crate::text::digit(c) {
            assert(d[i - start] == c);
            return None;
        }
        let ghost pre = s@.subrange(start as int, i as int);
        proof {
            lemma_digits_value_grows(pre, c);
            assert(s@.subrange(start as int, i + 1) =~= pre.push(c));
        }
        let digit: u128 = (c as u32 - 48) as u128;
        if acc < cap {
            let next = acc * 10 + digit;
            acc = if next < cap { next } else { cap };
        }
        i = i + 1;
    }
    assert(s@.subrange(start as int, i as int) =~= d);
    assert forall|k: int| 0 <= k < d.len() implies is_digit(#[trigger] d[k]) by {
        assert(d[k] == s@[start + k]);
    }
    if acc < cap {
        Some(acc as u64)
    } else {
        None
    }
}

/// Reads an `i64` (see `parsed_i64`).
pub fn parse_i64(s: &Vec<char>) -> (r: Option<i64>)
    ensures
        r == parsed_i64(s@),
{
    if s.len() > 0 && s[0] == '-' {
        assert(s@.drop_first() =~= s@.subrange(1, s@.len() as int));
        match parse_magnitude(s, 1, 0x8000_0000_0000_0000) {
            Some(v) => {
                if v == 0x8000_0000_0000_0000 {
                    Some(-0x7fff_ffff_ffff_ffff - 1)
                } else {
                    Some(-(v as i64))
                }
            },
            None => None,
        }
    } else {
        let start: usize = if s.len() > 0 && s[0] == '+' { 1 } else { 0 };
        assert(s@.subrange(start as int, s@.len() as int) =~= (if s@.len() > 0 && s@[0] == '+' {
            s@.drop_first()
        } else {
            s@
        }));
        match parse_magnitude(s, start, 0x7fff_ffff_ffff_ffff) {
            Some(v) => Some(v as i64),
            None => None,
        }
    }
}

/// The UID that `id`'s output shows: the text after `uid=` up to `(`, read
/// as a `u32`, else 0.
pub open spec fn uid_of_id_output(out: Seq<char>) -> u32 {
    match crate::text::second_piece(out, "uid="@) {
        Some(seg) => match parsed_u32(crate::text::split_at_char(seg, '(')[0]) {
            Some(n) => n,
            None => 0,
        },
        None => 0,
    }
}

/// The UID in the output of `id` (see `uid_of_id_output`).
pub fn uid_from_id_output(out: &str) -> (r: u32)
    ensures
        r == uid_of_id_output(out@),
{
    let v = chars_of(out);
    let pat = chars_of("uid=");
    match crate::text::second_piece_chars(&v, &pat) {
        None => 0,
        Some(seg) => {
            let parts = crate::text::split_chars(&seg, '(');
            proof {
                crate::text::lemma_split_nonempty(seg@, '(');
            }
            match parse_u32(&parts[0]) {
                Some(n) => n,
                None => 0,
            }
        },
    }
}

/// What looking up a Linux user's UID (`id -u`) found.
#[derive(Debug, Clone, Copy)]
pub enum UidLookup {
    /// The user does not exist (the command failed).
    Missing,
    /// The command's output is not a number.
    Unparsed,
    Uid(i64),
}

/// The lookup's finding from whether `id -u` succeeded and what it
/// printed (read as an `i64` once trimmed).
pub fn uid_lookup(succeeded: bool, stdout: &str) -> (r: UidLookup)
    ensures
        !succeeded ==> r is Missing,
        succeeded ==> match parsed_i64(trim(stdout@)) {
            Some(u) => r == UidLookup::Uid(u),
            None => r is Unparsed,
        },
{
    if !succeeded {
        return UidLookup::Missing;
    }
    let t = crate::text::trim_chars(&chars_of(stdout));
    match parse_i64(&t) {
        Some(u) => UidLookup::Uid(u),
        None => UidLookup::Unparsed,
    }
}

/// An identity problem found for a user.
#[derive(Debug, Clone)]
pub struct IdentityIssue {
    pub user_id: String,
    pub username: String,
    pub severity: String,
    pub message: String,
    pub remediation: Option<String>,
}

/// An issue as (severity, message, remediation) texts.
pub open spec fn issue_view(i: IdentityIssue) -> (Seq<char>, Seq<char>, Option<Seq<char>>) {
    (i.severity@, i.message@, crate::agent_rpc::opt_view(i.remediation))
}

/// The issues as texts.
pub open spec fn issues_view(v: Seq<IdentityIssue>) -> Seq<(Seq<char>, Seq<char>, Option<Seq<char>>)> {
    Seq::new(v.len(), |i: int| issue_view(v[i]))
}

/// The issue reported for a user without a Linux account name.
pub open spec fn missing_linux_issue() -> (Seq<char>, Seq<char>, Option<Seq<char>>) {
    ("warning"@, "missing linux_username"@, Some("set linux_username/linux_uid from existing OS account"@))
}

fn issue(user_id: &str, username: &str, severity: &str, message: String, remediation: Option<String>) -> (r: IdentityIssue)
    ensures
        r.user_id@ == user_id@,
        r.username@ == username@,
        r.severity@ == severity@,
        r.message == message,
        r.remediation == remediation,
{
    IdentityIssue { user_id: lit(user_id), username: lit(username), severity: lit(severity), message, remediation }
}

/// The issue for a user without a Linux account name (see
/// `missing_linux_issue`).
pub fn missing_linux_username_issue(user_id: &str, username: &str) -> (r: IdentityIssue)
    ensures
        r.user_id@ == user_id@,
        r.username@ == username@,
        issue_view(r) == missing_linux_issue(),
{
    issue(
        user_id,
        username,
        "warning",
        lit("missing linux_username"),
        Some(lit("set linux_username/linux_uid from existing OS account")),
    )
}

/// The account names tried for a user without one, in order: its ID made
/// a Linux name, the same with `oqto_` before it, and likewise its
/// username.
pub fn linux_user_candidates(user_id: &str, username: &str) -> (r: Vec<String>)
    ensures
        strings_view(r@) == seq![
            linux_username(user_id@),
            "oqto_"@ + linux_username(user_id@),
            linux_username(username@),
            "oqto_"@ + linux_username(username@),
        ],
{
    let a = sanitize_for_linux(user_id);
    let mut b = lit("oqto_");
    b.append(a.as_str());
    let c = sanitize_for_linux(username);
    let mut d = lit("oqto_");
    d.append(c.as_str());
    let v = vec![a, b, c, d];
    assert(strings_view(v@) =~= seq![
        linux_username(user_id@),
        "oqto_"@ + linux_username(user_id@),
        linux_username(username@),
        "oqto_"@ + linux_username(username@),
    ]);
    v
}

/// A UID as `{:?}` shows an `Option<i64>`.
pub open spec fn debug_uid(o: Option<i64>) -> Seq<char> {
    match o {
        Some(v) => "Some("@ + crate::text::signed_decimal(v as int) + ")"@,
        None => "None"@,
    }
}

fn debug_uid_text(o: Option<i64>) -> (r: String)
    ensures
        r@ == debug_uid(o),
{
    match o {
        Some(v) => {
            let mut r = lit("Some(");
            let d = crate::text::signed_decimal_string(v);
            r.append(d.as_str());
            r.append(")");
            r
        },
        None => lit("None"),
    }
}

/// The runner socket at the canonical shared path of a Linux user.
pub open spec fn shared_socket(linux_user: Seq<char>) -> Seq<char> {
    "/run/oqto/runner-sockets/"@ + linux_user + "/oqto-runner.sock"@
}

/// The runner socket at a UID's user-runtime path.
pub open spec fn runtime_socket(uid: i64) -> Seq<char> {
    "/run/user/"@ + crate::text::signed_decimal(uid as int) + "/oqto-runner.sock"@
}

/// The issues about the runner sockets: both missing is an error; only the
/// user-runtime one present, or both present, a warning.
pub open spec fn socket_issues(linux_user: Seq<char>, uid: i64, shared_exists: bool, runtime_exists: bool) -> Seq<
    (Seq<char>, Seq<char>, Option<Seq<char>>),
> {
    let sh = shared_socket(linux_user);
    let rt = runtime_socket(uid);
    if !shared_exists && !runtime_exists {
        seq![
            (
                "error"@,
                "runner socket missing at canonical path "@ + sh + " and user-runtime path "@ + rt,
                Some("start/reprovision oqto-runner for this Linux user and verify lingering/service status"@),
            ),
        ]
    } else if !shared_exists && runtime_exists {
        seq![
            (
                "warning"@,
                "runner socket present only at user-runtime path "@ + rt + "; canonical shared path "@ + sh
                    + " is missing"@,
                Some(
                    "reinstall/restart oqto-runner with --socket /run/oqto/runner-sockets/{linux_username}/oqto-runner.sock or update backend runner_socket_pattern consistently"@,
                ),
            ),
        ]
    } else if shared_exists && runtime_exists {
        seq![
            (
                "warning"@,
                "both canonical shared and user-runtime runner sockets are present"@,
                Some("disable conflicting runner service/socket pattern to avoid split routing"@),
            ),
        ]
    } else {
        Seq::empty()
    }
}

/// The issues about a user's Linux account `linux_user`, in order: a
/// missing account, an unreadable UID, or else a UID that differs from the
/// stored one and then the runner socket issues (see `socket_issues`).
pub open spec fn account_issues(
    linux_user: Seq<char>,
    stored_uid: Option<i64>,
    lookup: UidLookup,
    shared_exists: bool,
    runtime_exists: bool,
) -> Seq<(Seq<char>, Seq<char>, Option<Seq<char>>)> {
    match lookup {
        UidLookup::Missing => seq![
            (
                "error"@,
                "linux user '"@ + linux_user + "' does not exist"@,
                Some("create linux user and re-run doctor"@),
            ),
        ],
        UidLookup::Unparsed => seq![
            ("error"@, "could not parse uid for linux user '"@ + linux_user + "'"@, None),
        ],
        UidLookup::Uid(u) => (if stored_uid != Some(u) {
            seq![
                (
                    "warning"@,
                    "linux_uid mismatch (db="@ + debug_uid(stored_uid) + ", actual="@ + debug_uid(Some(u))
                        + ") for '"@ + linux_user + "'"@,
                    Some("update users.linux_uid to actual OS uid"@),
                ),
            ]
        } else {
            Seq::empty()
        }) + socket_issues(linux_user, u, shared_exists, runtime_exists),
    }
}

/// The issues about a user's Linux account (see `account_issues`), each
/// naming the user.
pub fn linux_account_issues(
    user_id: &str,
    username: &str,
    linux_user: &str,
    stored_uid: Option<i64>,
    lookup: UidLookup,
    shared_exists: bool,
    runtime_exists: bool,
) -> (r: Vec<IdentityIssue>)
    ensures
        issues_view(r@) == account_issues(linux_user@, stored_uid, lookup, shared_exists, runtime_exists),
        forall|i: int| 0 <= i < r@.len() ==> (#[trigger] r@[i]).user_id@ == user_id@ && r@[i].username@ == username@,
{
    let mut v: Vec<IdentityIssue> = Vec::new();
    match lookup {
        UidLookup::Missing => {
            let mut m = lit("linux user '");
            m.append(linux_user);
            m.append("' does not exist");
            v.push(issue(user_id, username, "error", m, Some(lit("create linux user and re-run doctor"))));
        },
        UidLookup::Unparsed => {
            let mut m = lit("could not parse uid for linux user '");
            m.append(linux_user);
            m.append("'");
            v.push(issue(user_id, username, "error", m, None));
        },
        UidLookup::Uid(u) => {
            let differs = match stored_uid {
                Some(s) => s != u,
                None => true,
            };
            if differs {
                let mut m = lit("linux_uid mismatch (db=");
                let a = debug_uid_text(stored_uid);
                m.append(a.as_str());
                m.append(", actual=");
                let b = debug_uid_text(Some(u));
                m.append(b.as_str());
                m.append(") for '");
                m.append(linux_user);
                m.append("'");
                v.push(issue(user_id, username, "warning", m, Some(lit("update users.linux_uid to actual OS uid"))));
            }
            let mut sh = lit("/run/oqto/runner-sockets/");
            sh.append(linux_user);
            sh.append("/oqto-runner.sock");
            let mut rt = lit("/run/user/");
            let ud = crate::text::signed_decimal_string(u);
            rt.append(ud.as_str());
            rt.append("/oqto-runner.sock");
            if !shared_exists && !runtime_exists {
                let mut m = lit("runner socket missing at canonical path ");
                m.append(sh.as_str());
                m.append(" and user-runtime path ");
                m.append(rt.as_str());
                v.push(issue(user_id, username, "error", m, Some(lit("start/reprovision oqto-runner for this Linux user and verify lingering/service status"))));
            } else if !shared_exists && runtime_exists {
                let mut m = lit("runner socket present only at user-runtime path ");
                m.append(rt.as_str());
                m.append("; canonical shared path ");
                m.append(sh.as_str());
                m.append(" is missing");
                v.push(issue(user_id, username, "warning", m, Some(lit("reinstall/restart oqto-runner with --socket /run/oqto/runner-sockets/{linux_username}/oqto-runner.sock or update backend runner_socket_pattern consistently"))));
            } else if shared_exists && runtime_exists {
                v.push(issue(user_id, username, "warning", lit("both canonical shared and user-runtime runner sockets are present"), Some(lit("disable conflicting runner service/socket pattern to avoid split routing"))));
            }
        },
    }
    assert(issues_view(v@) =~= account_issues(linux_user@, stored_uid, lookup, shared_exists, runtime_exists));
    v
}

/// The note for a Linux account found and recorded for a user.
pub fn linux_user_fix_message(username: &str, linux_user: &str, uid: i64) -> (r: String)
    ensures
        r@ == username@ + ": set linux_username="@ + linux_user@ + ", linux_uid="@ + crate::text::signed_decimal(
            uid as int,
        ),
{
    let mut m = lit(username);
    m.append(": set linux_username=");
    m.append(linux_user);
    m.append(", linux_uid=");
    let d = crate::text::signed_decimal_string(uid);
    m.append(d.as_str());
    m
}

/// The note for a stored UID corrected to the actual one.
pub fn uid_fix_message(username: &str, uid: i64) -> (r: String)
    ensures
        r@ == username@ + ": updated linux_uid to "@ + debug_uid(Some(uid)),
{
    let mut m = lit(username);
    m.append(": updated linux_uid to ");
    let d = debug_uid_text(Some(uid));
    m.append(d.as_str());
    m
}

} // verus!
