//! Project configuration (`project.toml`): project, team, GitHub, deliverables,
//! dependencies and sizing, with the checks a configuration must pass.

pub mod deliverables;
pub mod dependencies;
pub mod github;
pub mod project;
pub mod sizing;
pub mod team;

use vstd::prelude::*;
use crate::calendar::{valid_civil, Date};
use crate::pattern;
use crate::text;
use self::deliverables::{all_ids_spec, Csci, Deliverables, Demonstration, Document};
use self::dependencies::{Dependencies, ExternalDependency};
use self::github::{Distraction, GitHubConfig, GitHubProject, Organisation};
use self::project::Project;
use self::sizing::Sizing;
use self::team::{Leave, Team, TeamMember};

verus! {

/// Root of a project configuration.
#[derive(Debug, Clone)]
pub struct ProjectConfig {
    /// Core project metadata.
    pub project: Project,
    /// Team composition and capacity.
    pub team: Team,
    /// GitHub configuration.
    pub github: GitHubConfig,
    /// Project deliverables.
    pub deliverables: Deliverables,
    /// External dependencies.
    pub dependencies: Dependencies,
    /// T-shirt sizing definitions.
    pub sizing: Sizing,
}

/// Why a configuration was rejected.
#[derive(Debug)]
pub enum ConfigError {
    /// An organisation's repository pattern is not a valid regular expression.
    InvalidPattern {
        /// The organisation's name.
        org: String,
        /// What the regular-expression compiler reported.
        error: regex::Error,
    },
    /// The project's end date is not after its start date.
    EndNotAfterStart,
    /// The backlog completeness is not in (0.0, 1.0].
    BacklogCompletenessOutOfRange,
    /// A deliverable ID occurs more than once.
    DuplicateId(String),
}

/// `i` is the first organisation whose repository pattern does not compile.
pub open spec fn is_first_bad_pattern(orgs: Seq<Organisation>, i: int) -> bool {
    &&& 0 <= i < orgs.len()
    &&& !pattern::regex_compiles(orgs[i].repo_pattern@)
    &&& forall|j: int| 0 <= j < i ==> pattern::regex_compiles((#[trigger] orgs[j]).repo_pattern@)
}

/// `k` is the first position whose ID occurred before.
pub open spec fn is_first_duplicate(ids: Seq<Seq<char>>, k: int) -> bool {
    &&& 0 <= k < ids.len()
    &&& exists|j: int| 0 <= j < k && ids[j] == ids[k]
    &&& forall|m: int, j: int| 0 <= j < m < k ==> ids[j] != ids[m]
}

/// Which check a configuration fails first, if any: repository patterns,
/// then the date order, then the backlog completeness, then duplicate IDs.
pub enum ValidationOutcome {
    /// Every check passes.
    Valid,
    /// The organisation at this position is the first whose pattern does not compile.
    BadPattern(int),
    /// The end date is not after the start date.
    EndNotAfterStart,
    /// The backlog completeness is out of range.
    BacklogOutOfRange,
    /// The deliverable ID at this position is the first that occurred before.
    Duplicate(int),
}

/// The outcome of checking configuration `c`.
pub open spec fn validation_outcome(c: ProjectConfig, backlog_in_range: bool) -> ValidationOutcome {
    let orgs = c.github.organisations@;
    let ids = all_ids_spec(c.deliverables);
    if exists|i: int| is_first_bad_pattern(orgs, i) {
        ValidationOutcome::BadPattern(choose|i: int| is_first_bad_pattern(orgs, i))
    } else if c.project.end_date.day <= c.project.start_date.day {
        ValidationOutcome::EndNotAfterStart
    } else if !backlog_in_range {
        ValidationOutcome::BacklogOutOfRange
    } else if exists|k: int| is_first_duplicate(ids, k) {
        ValidationOutcome::Duplicate(choose|k: int| is_first_duplicate(ids, k))
    } else {
        ValidationOutcome::Valid
    }
}

impl ProjectConfig {
    /// Checks a configuration: every organisation's repository pattern
    /// compiles, the end date is after the start date, the backlog
    /// completeness is in range (`backlog_in_range`, which the caller computes
    /// from the floating-point value as `0.0 < b && b <= 1.0`), and no
    /// deliverable ID repeats. The first failing check is reported.
    pub fn validate(&self, backlog_in_range: bool) -> (r: Result<(), ConfigError>)
        ensures
            match validation_outcome(*self, backlog_in_range) {
                ValidationOutcome::Valid => r is Ok,
                ValidationOutcome::BadPattern(i) => r matches Err(ConfigError::InvalidPattern {
                    org,
                    ..
                }) && org@ == self.github.organisations@[i].name@,
                ValidationOutcome::EndNotAfterStart => r matches Err(
                    ConfigError::EndNotAfterStart,
                ),
                ValidationOutcome::BacklogOutOfRange => r matches Err(
                    ConfigError::BacklogCompletenessOutOfRange,
                ),
                ValidationOutcome::Duplicate(k) => r matches Err(ConfigError::DuplicateId(id))
                    && id@ == all_ids_spec(self.deliverables)[k],
            },
    {
        let orgs = &self.github.organisations;
        let mut i: usize = 0;
        while i < orgs.len()
            invariant
                orgs@ == self.github.organisations@,
                i <= orgs.len(),
                forall|j: int| 0 <= j < i ==> pattern::regex_compiles((#[trigger] orgs@[j]).repo_pattern@),
            decreases orgs.len() - i,
        {
            match orgs[i].validate_pattern() {
                Ok(()) => {},
                Err(e) => {
                    proof {
                        assert(is_first_bad_pattern(orgs@, i as int));
                        let k = choose|k: int| is_first_bad_pattern(orgs@, k);
                        if k < i {
                            assert(pattern::regex_compiles(orgs@[k].repo_pattern@));
                        }
                        if k > i {
                            assert(pattern::regex_compiles(orgs@[i as int].repo_pattern@));
                        }
                        assert(k == i);
                        assert(validation_outcome(*self, backlog_in_range)
                            == ValidationOutcome::BadPattern(i as int));
                    }
                    let name = orgs[i].name.clone();
                    assert(name@ == self.github.organisations@[i as int].name@);
                    return Err(ConfigError::InvalidPattern { org: name, error: e });
                },
            }
            i = i + 1;
        }
        proof {
            if exists|k: int| is_first_bad_pattern(orgs@, k) {
                let k = choose|k: int| is_first_bad_pattern(orgs@, k);
                assert(pattern::regex_compiles(orgs@[k].repo_pattern@));
            }
        }
        if self.project.end_date.day <= self.project.start_date.day {
            return Err(ConfigError::EndNotAfterStart);
        }
        if !backlog_in_range {
            return Err(ConfigError::BacklogCompletenessOutOfRange);
        }
        let ids = self.deliverables.all_ids();
        let ghost sp = all_ids_spec(self.deliverables);
        let mut k: usize = 0;
        while k < ids.len()
            invariant
                sp == all_ids_spec(self.deliverables),
                orgs@ == self.github.organisations@,
                !exists|q: int| is_first_bad_pattern(orgs@, q),
                self.project.end_date.day > self.project.start_date.day,
                backlog_in_range,
                k <= ids.len(),
                ids.len() == sp.len(),
                forall|x: int| 0 <= x < ids.len() ==> (#[trigger] ids@[x])@ == sp[x],
                forall|m: int, j: int| 0 <= j < m < k ==> sp[j] != sp[m],
            decreases ids.len() - k,
        {
            let mut j: usize = 0;
            while j < k
                invariant
                    sp == all_ids_spec(self.deliverables),
                    orgs@ == self.github.organisations@,
                    !exists|q: int| is_first_bad_pattern(orgs@, q),
                    self.project.end_date.day > self.project.start_date.day,
                    backlog_in_range,
                    forall|m: int, x: int| 0 <= x < m < k ==> sp[x] != sp[m],
                    j <= k < ids.len(),
                    ids.len() == sp.len(),
                    forall|x: int| 0 <= x < ids.len() ==> (#[trigger] ids@[x])@ == sp[x],
                    forall|y: int| 0 <= y < j ==> sp[y] != sp[k as int],
                decreases k - j,
            {
                if text::str_eq(ids[j], ids[k]) {
                    proof {
                        assert(sp[j as int] == sp[k as int]);
                        assert(is_first_duplicate(sp, k as int));
                        let q = choose|q: int| is_first_duplicate(sp, q);
                        if q < k {
                            let w = choose|w: int| 0 <= w < q && sp[w] == sp[q];
                            assert(sp[w] != sp[q]);
                        }
                        if q > k {
                            assert(sp[j as int] != sp[k as int]);
                        }
                        assert(q == k);
                        assert(!exists|i: int| is_first_bad_pattern(orgs@, i));
                        assert(validation_outcome(*self, backlog_in_range)
                            == ValidationOutcome::Duplicate(k as int));
                    }
                    return Err(ConfigError::DuplicateId(text::owned(ids[k])));
                }
                j = j + 1;
            }
            k = k + 1;
        }
        proof {
            if exists|q: int| is_first_duplicate(sp, q) {
                let q = choose|q: int| is_first_duplicate(sp, q);
                let w = choose|w: int| 0 <= w < q && sp[w] == sp[q];
                assert(sp[w] != sp[q]);
            }
        }
        Ok(())
    }
}

/// The date of a calendar day that is known to exist.
fn ymd(year: i32, month: u32, day: u32) -> (r: Date)
    requires
        valid_civil(year as int, month as int, day as int),
    ensures
        r.day == crate::calendar::civil_day(year as int, month as int, day as int),
{
    match Date::from_ymd(year, month, day) {
        Some(d) => d,
        None => Date { day: 0 },
    }
}

/// The example configuration `deltav init` writes.
pub open spec fn is_stub(c: ProjectConfig) -> bool {
    &&& stub_project(c.project)
    &&& stub_team(c.team)
    &&& stub_github(c.github)
    &&& stub_documents(c.deliverables.documents@)
    &&& stub_other_deliverables(c.deliverables)
    &&& stub_dependencies(c.dependencies)
    &&& crate::schema::sizing::is_default_sizing(c.sizing)
}

/// The optional text is present and equal to `t`.
pub open spec fn text_is(o: Option<String>, t: Seq<char>) -> bool {
    o matches Some(s) && s@ == t
}

/// The example project.
pub open spec fn stub_project(p: Project) -> bool {
    &&& p.name@ == "Project Name"@
    &&& p.start_date.day == crate::calendar::civil_day(2025, 6, 1)
    &&& p.end_date.day == crate::calendar::civil_day(2026, 12, 15)
    &&& p.backlog_completeness_bits == 0x3FEB_3333_3333_3333
}

/// The example team: two members, one of them on leave for a week.
pub open spec fn stub_team(t: Team) -> bool {
    &&& t.members.len() == 2
    &&& t.members@[0].name@ == "Alice Chen"@ && t.members@[0].github@ == "achen"@
    &&& t.members@[0].capacity_bits == 0x3FF0_0000_0000_0000
    &&& t.members@[1].name@ == "Bob Martinez"@ && t.members@[1].github@ == "bmartinez"@
    &&& t.members@[1].capacity_bits == 0x3FE9_9999_9999_999A
    &&& t.leave.len() == 1
    &&& t.leave@[0].github@ == "achen"@
    &&& t.leave@[0].start.day == crate::calendar::civil_day(2026, 1, 20)
    &&& t.leave@[0].end.day == crate::calendar::civil_day(2026, 1, 24)
    &&& text_is(t.leave@[0].reason, "PTO"@)
}

/// The example GitHub settings.
pub open spec fn stub_github(g: GitHubConfig) -> bool {
    &&& g.enterprise_url@ == "https://github.mycompany.com"@
    &&& g.organisations.len() == 1
    &&& g.organisations@[0].name@ == "my-org"@
    &&& g.organisations@[0].repo_pattern@ == "^project-.*"@
    &&& !g.organisations@[0].is_user
    &&& g.projects.len() == 1
    &&& g.projects@[0].org@ == "my-org"@ && g.projects@[0].project_number == 1
    &&& g.projects@[0].name@ == "Project Board"@
    &&& g.distractions.len() == 1
    &&& g.distractions@[0].org@ == "my-org"@ && g.distractions@[0].repo@ == "legacy-system"@
    &&& text_is(g.distractions@[0].label, "unplanned"@)
    &&& g.distractions@[0].name@ == "Legacy Support"@
    &&& g.delivery_repos.len() == 0
}

/// The example documents.
pub open spec fn stub_documents(d: Seq<Document>) -> bool {
    &&& d.len() == 2
    &&& d[0].name@ == "Software Requirements Specification"@ && d[0].id@ == "SRS-001"@
    &&& d[0].due_date.day == crate::calendar::civil_day(2025, 9, 1)
    &&& text_is(d[0].status_label, "doc:srs"@) && d[0].depends_on.len() == 0
    &&& d[1].name@ == "Software Design Document"@ && d[1].id@ == "SDD-001"@
    &&& d[1].due_date.day == crate::calendar::civil_day(2025, 11, 15)
    &&& text_is(d[1].status_label, "doc:sdd"@)
    &&& d[1].depends_on.len() == 1 && d[1].depends_on@[0]@ == "SRS-001"@
}

/// The example CSCI and demonstration.
pub open spec fn stub_other_deliverables(d: Deliverables) -> bool {
    &&& d.csci.len() == 1
    &&& d.csci@[0].name@ == "Flight Control Unit"@ && d.csci@[0].id@ == "CSCI-FCU"@
    &&& d.csci@[0].target_date.day == crate::calendar::civil_day(2026, 6, 1)
    &&& d.csci@[0].repos.len() == 1 && d.csci@[0].repos@[0]@ == "my-org/project-fcu"@
    &&& d.csci@[0].tier1_label@ == "integration-ready"@
    &&& d.csci@[0].tier2_label@ == "hil-passed"@
    &&& d.demonstrations.len() == 1
    &&& d.demonstrations@[0].name@ == "Preliminary Design Review"@
    &&& d.demonstrations@[0].id@ == "DEMO-PDR"@
    &&& d.demonstrations@[0].start_date.day == crate::calendar::civil_day(2025, 10, 14)
    &&& d.demonstrations@[0].end_date.day == crate::calendar::civil_day(2025, 10, 16)
    &&& text_is(d.demonstrations@[0].description, "PDR demonstration milestone"@)
}

/// The example external dependency.
pub open spec fn stub_dependencies(d: Dependencies) -> bool {
    &&& d.external.len() == 1
    &&& d.external@[0].name@ == "Interface Control Document"@
    &&& d.external@[0].id@ == "ICD-001"@ && d.external@[0].owner@ == "External Team"@
    &&& d.external@[0].rc_due.day == crate::calendar::civil_day(2025, 8, 1)
    &&& d.external@[0].final_due.day == crate::calendar::civil_day(2025, 10, 1)
    &&& text_is(d.external@[0].tracking_issue, "my-org/project-integration#42"@)
}

impl ProjectConfig {
    /// An example configuration with placeholder values: a project from
    /// 2025-06-01 to 2026-12-15, two team members, one organisation, two
    /// documents, one CSCI, one demonstration and one external dependency.
    pub fn stub() -> (r: ProjectConfig)
        ensures
            is_stub(r),
            r.project.start_date.day < r.project.end_date.day,
    {
        let members = vec![
            TeamMember {
                name: text::owned("Alice Chen"),
                github: text::owned("achen"),
                capacity_bits: 0x3FF0_0000_0000_0000,
            },
            TeamMember {
                name: text::owned("Bob Martinez"),
                github: text::owned("bmartinez"),
                capacity_bits: 0x3FE9_9999_9999_999A,
            },
        ];
        let leave = vec![
            Leave {
                github: text::owned("achen"),
                start: ymd(2026, 1, 20),
                end: ymd(2026, 1, 24),
                reason: Some(text::owned("PTO")),
            },
        ];
        let organisations = vec![
            Organisation {
                name: text::owned("my-org"),
                repo_pattern: text::owned("^project-.*"),
                is_user: false,
            },
        ];
        let projects = vec![
            GitHubProject {
                org: text::owned("my-org"),
                project_number: 1,
                name: text::owned("Project Board"),
            },
        ];
        let distractions = vec![
            Distraction {
                org: text::owned("my-org"),
                repo: text::owned("legacy-system"),
                label: Some(text::owned("unplanned")),
                name: text::owned("Legacy Support"),
            },
        ];
        let documents = vec![
            Document {
                name: text::owned("Software Requirements Specification"),
                id: text::owned("SRS-001"),
                due_date: ymd(2025, 9, 1),
                status_label: Some(text::owned("doc:srs")),
                depends_on: Vec::new(),
            },
            Document {
                name: text::owned("Software Design Document"),
                id: text::owned("SDD-001"),
                due_date: ymd(2025, 11, 15),
                status_label: Some(text::owned("doc:sdd")),
                depends_on: vec![text::owned("SRS-001")],
            },
        ];
        let csci = vec![
            Csci {
                name: text::owned("Flight Control Unit"),
                id: text::owned("CSCI-FCU"),
                target_date: ymd(2026, 6, 1),
                repos: vec![text::owned("my-org/project-fcu")],
                tier1_label: text::owned("integration-ready"),
                tier2_label: text::owned("hil-passed"),
            },
        ];
        let demonstrations = vec![
            Demonstration {
                name: text::owned("Preliminary Design Review"),
                id: text::owned("DEMO-PDR"),
                start_date: ymd(2025, 10, 14),
                end_date: ymd(2025, 10, 16),
                description: Some(text::owned("PDR demonstration milestone")),
            },
        ];
        let external = vec![
            ExternalDependency {
                name: text::owned("Interface Control Document"),
                id: text::owned("ICD-001"),
                owner: text::owned("External Team"),
                rc_due: ymd(2025, 8, 1),
                final_due: ymd(2025, 10, 1),
                tracking_issue: Some(text::owned("my-org/project-integration#42")),
            },
        ];
        ProjectConfig {
            project: Project {
                name: text::owned("Project Name"),
                start_date: ymd(2025, 6, 1),
                end_date: ymd(2026, 12, 15),
                backlog_completeness_bits: 0x3FEB_3333_3333_3333,
            },
            team: Team { members, leave },
            github: GitHubConfig {
                enterprise_url: text::owned("https://github.mycompany.com"),
                organisations,
                projects,
                distractions,
                delivery_repos: Vec::new(),
            },
            deliverables: Deliverables { documents, csci, demonstrations },
            dependencies: Dependencies { external },
            sizing: Sizing::default(),
        }
    }
}

/// Comment block placed before a generated configuration file.
pub const STUB_HEADER: &'static str = "# deltav Project Configuration\n# =============================\n#\n# This file defines your project for metrics tracking.\n# Edit the values below to match your project structure.\n#\n# For JSON schema (editor autocomplete): deltav schema > project.schema.json\n#\n\n";

/// A generated configuration with the explanatory comment block before it.
pub fn add_stub_comments(toml: &str) -> (r: String)
    ensures
        r@ == STUB_HEADER@ + toml@,
{
    let mut out = text::owned(STUB_HEADER);
    text::push_str(&mut out, toml);
    out
}

} // verus!
