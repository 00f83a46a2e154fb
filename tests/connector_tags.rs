use query_plan::connector::{
    ConnectorTag, ConnectorTestArgs, ExcludeConnectorTags, OnlyConnectorTags, SqlServerConnectorTag, SqlServerVersion, TestError,
};
use query_plan::schemas::some_common_schema;

#[test]
fn version_names_parse() {
    assert_eq!(SqlServerVersion::try_from("2017"), Ok(SqlServerVersion::V2017));
    assert_eq!(SqlServerVersion::try_from("2019"), Ok(SqlServerVersion::V2019));
    assert_eq!(
        SqlServerVersion::try_from("2018"),
        Err(TestError::ParseError("Unknown SqlServer version `2018`".to_string()))
    );
    assert_eq!(SqlServerVersion::V2019.to_string(), "2019");
}

#[test]
fn tag_from_version() {
    let t = SqlServerConnectorTag::new(Some("2017")).unwrap();
    assert_eq!(t.version(), Some(SqlServerVersion::V2017));
    assert_eq!(t.as_parse_pair(), ("sqlserver".to_string(), Some("2017".to_string())));
    let any = SqlServerConnectorTag::new(None).unwrap();
    assert_eq!(any.version(), None);
    assert_eq!(any.as_parse_pair(), ("sqlserver".to_string(), None));
    assert_eq!(
        SqlServerConnectorTag::new(Some("x")),
        Err(TestError::ParseError("Unknown SqlServer version `x`".to_string()))
    );
}

#[test]
fn all_versions() {
    let all = SqlServerConnectorTag::all();
    assert_eq!(all.len(), 2);
    assert_eq!(all[0].version(), Some(SqlServerVersion::V2017));
    assert_eq!(all[1].version(), Some(SqlServerVersion::V2019));
}

#[test]
fn tag_lists_emptiness() {
    let tag = ConnectorTag::SqlServer(SqlServerConnectorTag::new(None).unwrap());
    assert!(OnlyConnectorTags { tags: vec![] }.is_empty());
    assert!(!OnlyConnectorTags { tags: vec![tag] }.is_empty());
    assert!(ExcludeConnectorTags { tags: vec![] }.is_empty());
    assert!(!ExcludeConnectorTags { tags: vec![tag] }.is_empty());
}

#[test]
fn common_schema_text() {
    let schema = some_common_schema();
    assert!(schema.starts_with("model A {"));
    assert!(schema.contains("#relation(bs, B, ...)"));
    assert!(schema.ends_with('}'));
}

fn v2017() -> ConnectorTag {
    ConnectorTag::SqlServer(SqlServerConnectorTag::new(Some("2017")).unwrap())
}

fn v2019() -> ConnectorTag {
    ConnectorTag::SqlServer(SqlServerConnectorTag::new(Some("2019")).unwrap())
}

#[test]
fn connector_args_validation() {
    let both = ConnectorTestArgs {
        only: OnlyConnectorTags { tags: vec![v2017()] },
        exclude: ExcludeConnectorTags { tags: vec![v2019()] },
    };
    assert_eq!(
        both.validate(),
        Err(TestError::ConfigError(
            "Only one of `only` and `exclude` can be speficified for a connector test.".to_string()
        ))
    );
    let only = ConnectorTestArgs { only: OnlyConnectorTags { tags: vec![v2019()] }, exclude: ExcludeConnectorTags { tags: vec![] } };
    assert_eq!(only.validate(), Ok(()));
    assert_eq!(only.connectors_to_test(), vec![v2019()]);
}

#[test]
fn connectors_to_test_without_only() {
    let none = ConnectorTestArgs { only: OnlyConnectorTags { tags: vec![] }, exclude: ExcludeConnectorTags { tags: vec![] } };
    assert_eq!(none.connectors_to_test(), vec![v2017(), v2019()]);
    let excluded = ConnectorTestArgs {
        only: OnlyConnectorTags { tags: vec![] },
        exclude: ExcludeConnectorTags { tags: vec![v2017()] },
    };
    assert_eq!(excluded.connectors_to_test(), vec![v2019()]);
}
