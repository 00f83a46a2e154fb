use vstd::prelude::*;

verus! {

/// Why a connector tag could not be set up.
#[derive(Debug, PartialEq, Eq)]
pub enum TestError {
    ParseError(String),
    ConfigError(String),
}

/// The SQL Server versions a test can run against.
#[derive(Clone, Copy, Debug, PartialEq, Eq, Structural)]
pub enum SqlServerVersion {
    V2017,
    V2019,
}

/// The SQL Server connector, optionally pinned to one version.
#[derive(Clone, Copy, Debug, PartialEq, Eq, Structural)]
pub struct SqlServerConnectorTag {
    version: Option<SqlServerVersion>,
}

/// The connectors a test can be run against.
#[derive(Clone, Copy, Debug, PartialEq, Eq, Structural)]
pub enum ConnectorTag {
    SqlServer(SqlServerConnectorTag),
}

/// The connectors a test is restricted to.
#[derive(Debug, PartialEq, Eq)]
pub struct OnlyConnectorTags {
    pub tags: Vec<ConnectorTag>,
}

/// The connectors a test is not run against.
#[derive(Debug, PartialEq, Eq)]
pub struct ExcludeConnectorTags {
    pub tags: Vec<ConnectorTag>,
}

pub open spec fn version_name(v: SqlServerVersion) -> Seq<char> {
    match v {
        SqlServerVersion::V2017 => "2017"@,
        SqlServerVersion::V2019 => "2019"@,
    }
}

/// The version a name denotes, if any.
pub open spec fn version_of(s: Seq<char>) -> Option<SqlServerVersion> {
    if s == "2017"@ {
        Some(SqlServerVersion::V2017)
    } else if s == "2019"@ {
        Some(SqlServerVersion::V2019)
    } else {
        None
    }
}

pub open spec fn unknown_version_message(s: Seq<char>) -> Seq<char> {
    "Unknown SqlServer version `"@ + s + "`"@
}

/// The connector arguments of a test: run only against some connectors, or
/// against all but some.
#[derive(Debug, PartialEq, Eq)]
pub struct ConnectorTestArgs {
    pub only: OnlyConnectorTags,
    pub exclude: ExcludeConnectorTags,
}

/// Every connector tag, each SQL Server version once.
pub closed spec fn all_connectors() -> Seq<ConnectorTag> {
    seq![
        ConnectorTag::SqlServer(SqlServerConnectorTag { version: Some(SqlServerVersion::V2017) }),
        ConnectorTag::SqlServer(SqlServerConnectorTag { version: Some(SqlServerVersion::V2019) }),
    ]
}

/// The connectors a test runs against: the `only` list when given, else
/// every connector not excluded, in the order of `all_connectors`.
pub open spec fn connectors_spec(only: Seq<ConnectorTag>, exclude: Seq<ConnectorTag>) -> Seq<
    ConnectorTag,
> {
    if only.len() > 0 {
        only
    } else {
        all_connectors().filter(|t: ConnectorTag| !exclude.contains(t))
    }
}

pub open spec fn both_lists_message() -> Seq<char> {
    "Only one of `only` and `exclude` can be speficified for a connector test."@
}

fn copy_tags(v: &Vec<ConnectorTag>) -> (r: Vec<ConnectorTag>)
    ensures
        r@ == v@,
{
    let mut out: Vec<ConnectorTag> = Vec::new();
    let mut i: usize = 0;
    while i < v.len()
        invariant
            i <= v@.len(),
            out@ == v@.take(i as int),
        decreases v@.len() - i,
    {
        out.push(v[i]);
        proof {
            assert(out@ =~= v@.take(i + 1));
        }
        i += 1;
    }
    proof {
        assert(v@.take(v@.len() as int) =~= v@);
    }
    out
}

fn contains_tag(v: &Vec<ConnectorTag>, t: ConnectorTag) -> (r: bool)
    ensures
        r == v@.contains(t),
{
    let mut i: usize = 0;
    while i < v.len()
        invariant
            i <= v@.len(),
            forall|k: int| 0 <= k < i ==> v@[k] != t,
        decreases v@.len() - i,
    {
        if v[i] == t {
            return true;
        }
        i += 1;
    }
    false
}

impl ConnectorTestArgs {
    /// `only` and `exclude` cannot both be given.
    pub fn validate(&self) -> (r: Result<(), TestError>)
        ensures
            self.only.tags@.len() > 0 && self.exclude.tags@.len() > 0 ==> (r matches Err(
                TestError::ConfigError(m),
            ) && m@ == both_lists_message()),
            !(self.only.tags@.len() > 0 && self.exclude.tags@.len() > 0) ==> r is Ok,
    {
        if !self.only.is_empty() && !self.exclude.is_empty() {
            return Err(
                TestError::ConfigError(
                    String::from_str(
                        "Only one of `only` and `exclude` can be speficified for a connector test.",
                    ),
                ),
            );
        }
        Ok(())
    }

    /// Returns all the connectors that the test is valid for.
    pub fn connectors_to_test(&self) -> (r: Vec<ConnectorTag>)
        ensures
            r@ == connectors_spec(self.only.tags@, self.exclude.tags@),
    {
        if !self.only.is_empty() {
            return copy_tags(&self.only.tags);
        }
        let ghost ex = self.exclude.tags@;
        let mut out: Vec<ConnectorTag> = Vec::new();
        let a = ConnectorTag::SqlServer(SqlServerConnectorTag { version: Some(SqlServerVersion::V2017) });
        let b = ConnectorTag::SqlServer(SqlServerConnectorTag { version: Some(SqlServerVersion::V2019) });
        let keep_a = !contains_tag(&self.exclude.tags, a);
        let keep_b = !contains_tag(&self.exclude.tags, b);
        if keep_a {
            out.push(a);
        }
        if keep_b {
            out.push(b);
        }
        proof {
            let f = |t: ConnectorTag| !ex.contains(t);
            let all = all_connectors();
            assert(all =~= seq![a].push(b));
            assert(seq![a].drop_last() =~= Seq::<ConnectorTag>::empty());
            assert(Seq::<ConnectorTag>::empty().filter(f) =~= Seq::<ConnectorTag>::empty());
            assert(seq![a].filter(f) == seq![a].drop_last().filter(f) + (if f(a) {
                seq![a]
            } else {
                seq![]
            })) by {
                reveal(Seq::filter);
            }
            assert(all.filter(f) == seq![a].filter(f) + (if f(b) {
                seq![b]
            } else {
                seq![]
            })) by {
                reveal(Seq::filter);
                assert(all.drop_last() =~= seq![a]);
            }
            assert(out@ =~= all.filter(f));
        }
        out
    }
}

impl SqlServerVersion {
    /// Parses a version name: `2017` or `2019`.
    pub fn try_from(s: &str) -> (r: Result<SqlServerVersion, TestError>)
        ensures
            match version_of(s@) {
                Some(v) => r == Ok::<SqlServerVersion, TestError>(v),
                None => r matches Err(TestError::ParseError(m)) && m@ == unknown_version_message(s@),
            },
    {
        let given = String::from_str(s);
        if given == String::from_str("2017") {
            Ok(SqlServerVersion::V2017)
        } else if given == String::from_str("2019") {
            Ok(SqlServerVersion::V2019)
        } else {
            let message = String::from_str("Unknown SqlServer version `").concat(s).concat("`");
            Err(TestError::ParseError(message))
        }
    }

    pub fn to_string(&self) -> (r: String)
        ensures
            r@ == version_name(*self),
    {
        match self {
            SqlServerVersion::V2017 => String::from_str("2017"),
            SqlServerVersion::V2019 => String::from_str("2019"),
        }
    }
}

impl SqlServerConnectorTag {
    pub closed spec fn spec_version(self) -> Option<SqlServerVersion> {
        self.version
    }

    /// The tag for the given version name, or for any version when there
    /// is none. An unknown name fails as `SqlServerVersion::try_from` does.
    pub fn new(version: Option<&str>) -> (r: Result<Self, TestError>)
        ensures
            match version {
                None => r matches Ok(t) && t.spec_version() is None,
                Some(s) => match version_of(s@) {
                    Some(v) => r matches Ok(t) && t.spec_version() == Some(v),
                    None => r matches Err(TestError::ParseError(m)) && m@ == unknown_version_message(
                        s@,
                    ),
                },
            },
    {
        let version = match version {
            Some(v) => Some(SqlServerVersion::try_from(v)?),
            None => None,
        };
        Ok(Self { version })
    }

    /// Returns all versions of this connector.
    pub fn all() -> (r: Vec<Self>)
        ensures
            r@.len() == 2,
            r@[0].spec_version() == Some(SqlServerVersion::V2017),
            r@[1].spec_version() == Some(SqlServerVersion::V2019),
    {
        let mut v: Vec<Self> = Vec::new();
        v.push(Self { version: Some(SqlServerVersion::V2017) });
        v.push(Self { version: Some(SqlServerVersion::V2019) });
        v
    }

    pub fn version(&self) -> (r: Option<SqlServerVersion>)
        ensures
            r == self.spec_version(),
    {
        self.version
    }

    /// The connector name and the version name, as a test harness parses them.
    pub fn as_parse_pair(&self) -> (r: (String, Option<String>))
        ensures
            r.0@ == "sqlserver"@,
            match self.spec_version() {
                Some(v) => r.1 matches Some(n) && n@ == version_name(v),
                None => r.1 is None,
            },
    {
        let version = match &self.version {
            Some(v) => Some(v.to_string()),
            None => None,
        };
        (String::from_str("sqlserver"), version)
    }
}

impl OnlyConnectorTags {
    pub fn is_empty(&self) -> (r: bool)
        ensures
            r == (self.tags@.len() == 0),
    {
        self.tags.len() == 0
    }
}

impl ExcludeConnectorTags {
    pub fn is_empty(&self) -> (r: bool)
        ensures
            r == (self.tags@.len() == 0),
    {
        self.tags.len() == 0
    }
}

} // verus!
