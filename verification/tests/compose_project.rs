use devcontainer::compose::sanitize_project_name;
use devcontainer::compose_project::{compose_name_from_text, compose_project_name, dotenv_value};
use devcontainer::compose_service::{
    compose_files, compose_files_from_env, default_compose_files, inspect_service_definition,
    parse_service_command, version_prefix,
};
use devcontainer::json_value::JsonValue;

fn s(text: &str) -> JsonValue {
    JsonValue::Str(text.to_string())
}

fn object(entries: Vec<(&str, JsonValue)>) -> JsonValue {
    JsonValue::Object(entries.into_iter().map(|(k, v)| (k.to_string(), v)).collect())
}

fn no_env() -> Vec<(String, String)> {
    vec![]
}

#[test]
fn compose_compose_name_from_file_reads_top_level_name() {
    let text = "name: Custom-Project-Name\nservices:\n  app:\n    image: alpine:3.20\n";
    assert_eq!(compose_name_from_text(text, &no_env()), Some("Custom-Project-Name".to_string()));
}

#[test]
fn tests_compose_name_from_file_reads_top_level_name() {
    let text = "name: Custom-Project-Name\nservices:\n  app:\n    image: alpine:3.20\n";
    assert_eq!(compose_name_from_text(text, &no_env()).expect("top-level name"), "Custom-Project-Name");
}

#[test]
fn compose_compose_name_from_file_supports_colon_dash_default_interpolation() {
    let text = "name: ${DEVCONTAINER_COMPOSE_TEST_MISSING_A:-MyProj}\nservices:\n  app:\n    image: alpine:3.20\n";
    let name = compose_name_from_text(text, &no_env()).expect("top-level name");
    assert_eq!(name, "MyProj");
    assert_eq!(sanitize_project_name(&name), "myproj");
}

#[test]
fn tests_compose_name_from_file_supports_colon_dash_default_interpolation() {
    let text = "name: ${DEVCONTAINER_COMPOSE_TEST_MISSING_C:-MyProj}\nservices:\n  app:\n    image: alpine:3.20\n";
    let name = compose_name_from_text(text, &no_env()).expect("top-level name");
    assert_eq!(name, "MyProj");
    assert_eq!(sanitize_project_name(&name), "myproj");
}

#[test]
fn compose_compose_name_from_file_supports_dash_default_interpolation() {
    let text = "name: ${DEVCONTAINER_COMPOSE_TEST_MISSING_B-MyProj}\nservices:\n  app:\n    image: alpine:3.20\n";
    let name = compose_name_from_text(text, &no_env()).expect("top-level name");
    assert_eq!(name, "MyProj");
    assert_eq!(sanitize_project_name(&name), "myproj");
}

#[test]
fn tests_compose_name_from_file_supports_dash_default_interpolation() {
    let text = "name: ${DEVCONTAINER_COMPOSE_TEST_MISSING_D-MyProj}\nservices:\n  app:\n    image: alpine:3.20\n";
    let name = compose_name_from_text(text, &no_env()).expect("top-level name");
    assert_eq!(name, "MyProj");
    assert_eq!(sanitize_project_name(&name), "myproj");
}

#[test]
fn nested_and_blank_names_are_not_project_names() {
    assert_eq!(compose_name_from_text("services:\n  app:\n    name: inner\n", &no_env()), None);
    assert_eq!(compose_name_from_text("name:   \nname: second\n", &no_env()), Some("second".to_string()));
}

fn devcontainer_files() -> Vec<String> {
    vec!["/tmp/Work-Space/.devcontainer/docker-compose.yml".to_string()]
}

#[test]
fn compose_compose_project_name_defaults_to_workspace_devcontainer() {
    let texts = vec![Ok("services:\n  app:\n    image: alpine:3.20\n".to_string())];
    let name = compose_project_name(&no_env(), Ok(None), &devcontainer_files(), &texts).expect("project name");
    assert_eq!(name, "work-space_devcontainer");
}

#[test]
fn tests_compose_project_name_defaults_to_workspace_devcontainer() {
    let texts = vec![Ok("services:\n  app:\n    image: alpine:3.20\n".to_string())];
    let name = compose_project_name(&no_env(), Ok(None), &devcontainer_files(), &texts).expect("project name");
    assert_eq!(name, "work-space_devcontainer");
}

#[test]
fn project_name_prefers_environment_then_dotenv_then_files() {
    let texts = vec![Ok("name: From-File\n".to_string())];
    let env = vec![("COMPOSE_PROJECT_NAME".to_string(), "Env_Name!".to_string())];
    assert_eq!(compose_project_name(&env, Ok(None), &devcontainer_files(), &texts), Ok("env_name".to_string()));
    let blank = vec![("COMPOSE_PROJECT_NAME".to_string(), "  ".to_string())];
    assert_eq!(
        compose_project_name(&blank, Ok(Some("# comment\n COMPOSE_PROJECT_NAME = Dot \n".to_string())), &devcontainer_files(), &texts),
        Ok("from-file".to_string())
    );
    assert_eq!(
        compose_project_name(&blank, Ok(Some("COMPOSE_PROJECT_NAME=Dot.Env\n".to_string())), &devcontainer_files(), &texts),
        Ok("dotenv".to_string())
    );
    assert_eq!(compose_project_name(&no_env(), Ok(None), &devcontainer_files(), &texts), Ok("from-file".to_string()));
    assert_eq!(
        compose_project_name(&no_env(), Err("denied".to_string()), &devcontainer_files(), &texts),
        Err("denied".to_string())
    );
    assert_eq!(
        compose_project_name(&no_env(), Ok(None), &vec![], &vec![]),
        Err("Compose configuration must define at least one compose file".to_string())
    );
}

#[test]
fn project_name_reads_compose_files_from_the_last() {
    let files = vec!["/w/a.yml".to_string(), "/w/b.yml".to_string()];
    let texts = vec![Ok("name: first\n".to_string()), Err("unreadable".to_string())];
    assert_eq!(compose_project_name(&no_env(), Ok(None), &files, &texts), Err("unreadable".to_string()));
    let texts = vec![Err("unreadable".to_string()), Ok("name: second\n".to_string())];
    assert_eq!(compose_project_name(&no_env(), Ok(None), &files, &texts), Ok("second".to_string()));
    let texts = vec![Ok("services: {}\n".to_string()), Ok("services: {}\n".to_string())];
    assert_eq!(compose_project_name(&no_env(), Ok(None), &files, &texts), Ok("w".to_string()));
}

#[test]
fn dotenv_values_are_trimmed_and_must_not_be_blank() {
    assert_eq!(dotenv_value("A=1\r\n  COMPOSE_FILE= x.yml \r\n", "COMPOSE_FILE="), Some("x.yml".to_string()));
    assert_eq!(dotenv_value("COMPOSE_FILE=\n", "COMPOSE_FILE="), None);
}

fn service_document() -> JsonValue {
    object(vec![(
        "services",
        object(vec![(
            "app",
            object(vec![
                ("image", s("example/native-compose:test")),
                ("build", object(vec![("context", s("."))])),
            ]),
        )]),
    )])
}

#[test]
fn compose_inspects_service_image_and_build_presence() {
    let definition = inspect_service_definition(&vec![service_document()], "app").expect("service definition");
    assert_eq!(definition.image.as_deref(), Some("example/native-compose:test"));
    assert!(definition.has_build);
}

#[test]
fn tests_inspects_service_image_and_build_presence() {
    let definition = inspect_service_definition(&vec![service_document()], "app").expect("service definition");
    assert_eq!(definition.image.as_deref(), Some("example/native-compose:test"));
    assert!(definition.has_build);
}

#[test]
fn later_compose_files_override_service_fields() {
    let overlay = object(vec![(
        "services",
        object(vec![(
            "app",
            object(vec![
                ("user", s("node")),
                ("command", s("npm run 'dev server'")),
                ("entrypoint", JsonValue::Array(vec![s("/bin/sh"), JsonValue::Number("1".to_string()), JsonValue::Bool(true), JsonValue::Null, object(vec![])])),
            ]),
        )]),
    )]);
    let definition = inspect_service_definition(&vec![service_document(), overlay], "app").expect("definition");
    assert_eq!(definition.image.as_deref(), Some("example/native-compose:test"));
    assert_eq!(definition.user.as_deref(), Some("node"));
    assert_eq!(definition.command, Some(vec!["npm".to_string(), "run".to_string(), "dev server".to_string()]));
    assert_eq!(
        definition.entrypoint,
        Some(vec!["/bin/sh".to_string(), "1".to_string(), "true".to_string(), String::new()])
    );
    assert_eq!(
        inspect_service_definition(&vec![service_document()], "db").err(),
        Some("Unable to locate compose service `db` in compose configuration".to_string())
    );
    assert_eq!(parse_service_command(&JsonValue::Bool(true)), None);
}

#[test]
fn compose_files_come_from_the_configuration() {
    let single = object(vec![("dockerComposeFile", s("docker-compose.yml"))]);
    assert_eq!(compose_files(&single, "/w/.devcontainer"), Ok(Some(vec!["/w/.devcontainer/docker-compose.yml".to_string()])));
    let list = object(vec![("dockerComposeFile", JsonValue::Array(vec![s("a.yml"), s("/abs/b.yml")]))]);
    assert_eq!(
        compose_files(&list, "/w"),
        Ok(Some(vec!["/w/a.yml".to_string(), "/abs/b.yml".to_string()]))
    );
    let empty = object(vec![("dockerComposeFile", JsonValue::Array(vec![]))]);
    assert_eq!(compose_files(&empty, "/w"), Ok(None));
    let mixed = object(vec![("dockerComposeFile", JsonValue::Array(vec![s("a.yml"), JsonValue::Null]))]);
    assert_eq!(compose_files(&mixed, "/w"), Err("dockerComposeFile entries must be strings".to_string()));
    let wrong = object(vec![("dockerComposeFile", JsonValue::Bool(true))]);
    assert_eq!(compose_files(&wrong, "/w"), Err("dockerComposeFile must be a string or array of strings".to_string()));
    assert_eq!(compose_files(&object(vec![]), "/w"), Err("Compose configuration must define dockerComposeFile".to_string()));
}

#[test]
fn default_compose_files_follow_compose_file_settings() {
    assert_eq!(
        compose_files_from_env(Some("a.yml:/abs/b.yml"), "/w"),
        Some(vec!["/w/a.yml".to_string(), "/abs/b.yml".to_string()])
    );
    assert_eq!(default_compose_files(Some("x.yml"), None, "/w", true), vec!["/w/x.yml".to_string()]);
    assert_eq!(
        default_compose_files(None, Some("COMPOSE_FILE=one.yml:two.yml\n"), "/w", false),
        vec!["/w/one.yml".to_string(), "/w/two.yml".to_string()]
    );
    assert_eq!(
        default_compose_files(None, Some("OTHER=1\n"), "/w", true),
        vec!["/w/docker-compose.yml".to_string(), "/w/docker-compose.override.yml".to_string()]
    );
    assert_eq!(default_compose_files(None, None, "/w", false), vec!["/w/docker-compose.yml".to_string()]);
}

#[test]
fn version_prefix_repeats_the_version_line() {
    assert_eq!(version_prefix("version: '3.8'\nservices: {}\n"), "version: '3.8'\n\n");
    assert_eq!(version_prefix("  version: \"2\"\n"), "version: \"2\"\n\n");
    assert_eq!(version_prefix("services: {}\n"), "");
}
