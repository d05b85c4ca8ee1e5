//! The records read from a challenge directory.

use vstd::prelude::*;

verus! {

/// Descriptive metadata of one challenge.
#[derive(Debug, Clone)]
pub struct Challenge {
    pub name: String,
    pub author: String,
    pub category: String,
    pub tags: Vec<String>,
}

/// Which layout of the test-status file, and of the report, is in use.
#[derive(Debug, Clone, Copy, PartialEq, Eq, Structural)]
pub enum Schema {
    /// Only whether the challenge was tested; booleans are written as words.
    Minimal,
    /// Also who tested it, who solved it and where; booleans are written as
    /// check marks.
    Extended,
}

/// The content of a test-status file.
#[derive(Debug, Clone)]
pub enum TestedStatus {
    Minimal { tested: bool },
    Extended { tested: bool, tester: String, solver: String, tested_url: String },
}

impl TestedStatus {
    /// The layout this status was read with.
    pub open spec fn spec_schema(&self) -> Schema {
        match self {
            TestedStatus::Minimal { .. } => Schema::Minimal,
            TestedStatus::Extended { .. } => Schema::Extended,
        }
    }

    pub fn schema(&self) -> (r: Schema)
        ensures
            r == self.spec_schema(),
    {
        match self {
            TestedStatus::Minimal { .. } => Schema::Minimal,
            TestedStatus::Extended { .. } => Schema::Extended,
        }
    }

    pub open spec fn spec_tested(&self) -> bool {
        match self {
            TestedStatus::Minimal { tested } => *tested,
            TestedStatus::Extended { tested, .. } => *tested,
        }
    }

    /// Whether the challenge passed testing.
    pub fn is_tested(&self) -> (r: bool)
        ensures
            r == self.spec_tested(),
    {
        match self {
            TestedStatus::Minimal { tested } => *tested,
            TestedStatus::Extended { tested, .. } => *tested,
        }
    }
}

/// Why a directory entry yields no record.
#[derive(Debug, Clone, Copy, PartialEq, Eq, Structural)]
pub enum LoadError {
    /// One of the two files is absent.
    NotFound,
    /// A file does not have the required shape.
    ParseError,
}

/// A challenge paired with its test status: one row of the report.
#[derive(Debug, Clone)]
pub struct ChallengeTested {
    pub challenge: Challenge,
    pub tested: TestedStatus,
}

impl ChallengeTested {
    /// Pairs the outcome of reading the challenge file with that of reading the
    /// test-status file. A record exists only when both were read; otherwise
    /// the first failure is passed on.
    pub fn from_parts(
        challenge: Result<Challenge, LoadError>,
        tested: Result<TestedStatus, LoadError>,
    ) -> (r: Result<ChallengeTested, LoadError>)
        ensures
            r is Ok <==> (challenge is Ok && tested is Ok),
            r is Ok ==> r->Ok_0.challenge == challenge->Ok_0 && r->Ok_0.tested
                == tested->Ok_0,
            challenge is Err ==> r == Err::<ChallengeTested, LoadError>(challenge->Err_0),
            (challenge is Ok && tested is Err) ==> r == Err::<ChallengeTested, LoadError>(
                tested->Err_0,
            ),
    {
        match challenge {
            Err(e) => Err(e),
            Ok(c) => match tested {
                Err(e) => Err(e),
                Ok(t) => Ok(ChallengeTested { challenge: c, tested: t }),
            },
        }
    }
}

/// Where the report reads from and writes to.
#[derive(Debug, Clone)]
pub struct ReportConfig {
    /// Name of the challenge metadata file looked for in each directory.
    pub challenge_file: String,
    /// Name of the test-status file looked for in each directory.
    pub tested_file: String,
    /// Root of the directory tree that is scanned.
    pub dir_path: String,
    /// Directory the report is written into.
    pub output_dir: String,
    /// Layout of the test-status file and of the report.
    pub schema: Schema,
}

/// Name of the report file for a layout.
pub open spec fn spec_output_file_name(schema: Schema) -> Seq<char> {
    match schema {
        Schema::Minimal => "README.md"@,
        Schema::Extended => "TESTED.md"@,
    }
}

impl ReportConfig {
    /// The configuration used when no option is given.
    pub fn with_defaults(schema: Schema) -> (r: ReportConfig)
        ensures
            r.challenge_file@ == "challenge.yml"@,
            r.tested_file@ == "tested.yml"@,
            r.dir_path@ == "./"@,
            r.output_dir@ == "./"@,
            r.schema == schema,
    {
        ReportConfig {
            challenge_file: String::from_str("challenge.yml"),
            tested_file: String::from_str("tested.yml"),
            dir_path: String::from_str("./"),
            output_dir: String::from_str("./"),
            schema,
        }
    }

    /// Name of the report file written into `output_dir`.
    pub fn output_file_name(&self) -> (r: String)
        ensures
            r@ == spec_output_file_name(self.schema),
    {
        match self.schema {
            Schema::Minimal => String::from_str("README.md"),
            Schema::Extended => String::from_str("TESTED.md"),
        }
    }
}

} // verus!
