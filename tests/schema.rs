use query_plan::datamodel::{
    parse_configuration, parse_configuration_and_ignore_datasource_urls, parse_datamodel,
    parse_datamodel_and_ignore_datasource_urls, render_datamodel_and_config_to_string, render_datamodel_to_string,
    render_schema_ast_to_string,
};
use query_plan::schema_ast::{parse_schema_ast, SchemaError};

const SCHEMA: &str = "datasource db {\n  provider = \"postgresql\"\n  url = env(\"DB\")\n}\n\nmodel User {\n  id Int @id\n  posts Post[]\n}\n\nenum Role {\n  USER\n  ADMIN\n}\n";

#[test]
fn parses_blocks_and_members() {
    let ast = parse_schema_ast(SCHEMA).unwrap();
    assert_eq!(ast.blocks.len(), 3);
    assert_eq!(ast.blocks[1].keyword, "model");
    assert_eq!(ast.blocks[1].name, "User");
    assert_eq!(ast.blocks[1].members.len(), 2);
    assert_eq!(ast.blocks[1].members[0].words, vec!["id", "Int", "@id"]);
    assert_eq!(ast.blocks[2].members[1].words, vec!["ADMIN"]);
}

#[test]
fn render_round_trip() {
    let ast = parse_schema_ast(SCHEMA).unwrap();
    let text = render_schema_ast_to_string(&ast);
    assert_eq!(text, SCHEMA);
    assert_eq!(parse_schema_ast(&text).unwrap(), ast);
}

#[test]
fn syntax_errors() {
    assert_eq!(parse_schema_ast("model A {\n  b { }\n}"), Err(SchemaError::NestedBlock));
    assert_eq!(parse_schema_ast("}"), Err(SchemaError::UnmatchedClose));
    assert_eq!(parse_schema_ast("model {\n}"), Err(SchemaError::MalformedHeader));
    assert_eq!(parse_schema_ast("model A {\n  id Int\n"), Err(SchemaError::UnclosedBlock));
    assert_eq!(parse_schema_ast("model A"), Err(SchemaError::UnclosedBlock));
    assert_eq!(parse_schema_ast("").unwrap().blocks.len(), 0);
}

#[test]
fn datamodel_validation() {
    let dm = parse_datamodel(SCHEMA).unwrap();
    assert_eq!(dm.models.len(), 1);
    assert_eq!(dm.enums.len(), 1);
    assert_eq!(dm.enums[0].name, "Role");
    assert_eq!(parse_datamodel("view V {\n}\n"), Err(SchemaError::UnknownBlockType));
    assert_eq!(parse_datamodel("model A {\n}\nenum A {\n}\n"), Err(SchemaError::DuplicateName));
    let no_url = "datasource db {\n  provider = \"sqlite\"\n}\nmodel A {\n  id Int\n}\n";
    assert_eq!(parse_datamodel(no_url), Err(SchemaError::MissingDatasourceUrl));
    assert_eq!(parse_datamodel_and_ignore_datasource_urls(no_url).unwrap().models.len(), 1);
}

#[test]
fn configuration_blocks() {
    let schema = "generator client {\n  provider = \"js\"\n}\ndatasource db {\n  url = \"x\"\n}\n";
    let config = parse_configuration(schema).unwrap();
    assert_eq!(config.datasources.len(), 1);
    assert_eq!(config.generators.len(), 1);
    assert_eq!(config.generators[0].name, "client");
    let no_url = "datasource db {\n  provider = \"sqlite\"\n}\n";
    assert_eq!(parse_configuration(no_url), Err(SchemaError::MissingDatasourceUrl));
    assert_eq!(parse_configuration_and_ignore_datasource_urls(no_url).unwrap().datasources.len(), 1);
}

#[test]
fn datamodel_rendering() {
    let dm = parse_datamodel(SCHEMA).unwrap();
    assert_eq!(
        render_datamodel_to_string(&dm),
        "model User {\n  id Int @id\n  posts Post[]\n}\n\nenum Role {\n  USER\n  ADMIN\n}\n"
    );
    let config = parse_configuration(SCHEMA).unwrap();
    assert_eq!(render_datamodel_and_config_to_string(&dm, &config), SCHEMA);
}

#[test]
fn non_ascii_words() {
    let ast = parse_schema_ast("model Größe {\n  naïve Int\n}").unwrap();
    assert_eq!(ast.blocks[0].name, "Größe");
    assert_eq!(ast.blocks[0].members[0].words, vec!["naïve", "Int"]);
}

#[test]
fn configuration_url_overrides() {
    let schema = "datasource db {\n  provider = \"postgresql\"\n  url = env(\"DB\")\n}\ndatasource other {\n  url = \"a\"\n}\n";
    let overrides = vec![("db".to_string(), "postgres://h/x".to_string()), ("db".to_string(), "ignored".to_string())];
    let config = query_plan::datamodel::parse_configuration_with_url_overrides(schema, overrides).unwrap();
    assert_eq!(config.datasources.len(), 2);
    assert_eq!(config.datasources[0].members[0].words, vec!["provider", "=", "\"postgresql\""]);
    assert_eq!(config.datasources[0].members[1].words, vec!["url", "=", "\"postgres://h/x\""]);
    assert_eq!(config.datasources[1].members[0].words, vec!["url", "=", "\"a\""]);
    assert_eq!(
        query_plan::datamodel::parse_configuration_with_url_overrides("datasource d {\n}\n", vec![]),
        Err(SchemaError::MissingDatasourceUrl)
    );
}
