use devcontainer::container::{
    gpu_detect_args, gpu_detected, gpu_request, serialized_container_metadata, start_container_args,
    started_container_id, GpuRequest,
};
use devcontainer::engine::ProcessResult;
use devcontainer::image_build::{image_plan, pushed_image, ImagePlan};
use devcontainer::json::to_json_text;
use devcontainer::json_value::JsonValue;
use devcontainer::runtime::ResolvedConfig;

fn s(text: &str) -> JsonValue {
    JsonValue::Str(text.to_string())
}

fn object(entries: Vec<(&str, JsonValue)>) -> JsonValue {
    let mut sorted: Vec<(String, JsonValue)> = entries.into_iter().map(|(k, v)| (k.to_string(), v)).collect();
    sorted.sort_by(|a, b| a.0.cmp(&b.0));
    JsonValue::Object(sorted)
}

fn strings(values: &[&str]) -> Vec<String> {
    values.iter().map(|v| v.to_string()).collect()
}

fn resolved(configuration: JsonValue) -> ResolvedConfig {
    ResolvedConfig {
        workspace_folder: "/home/me/project".to_string(),
        config_file: "/home/me/project/.devcontainer/devcontainer.json".to_string(),
        configuration,
    }
}

fn result(status_code: i32, stdout: &str, stderr: &str) -> ProcessResult {
    ProcessResult { status_code, stdout: stdout.to_string(), stderr: stderr.to_string() }
}

#[test]
fn json_text_is_compact_and_escaped() {
    let value = object(vec![
        ("b", JsonValue::Array(vec![JsonValue::Null, JsonValue::Bool(false), JsonValue::Number("1.5".to_string())])),
        ("a", s("say \"hi\"\n")),
        ("c", object(vec![])),
    ]);
    assert_eq!(to_json_text(&value), r#"{"a":"say \"hi\"\n","b":[null,false,1.5],"c":{}}"#);
    assert_eq!(to_json_text(&JsonValue::Array(vec![])), "[]");
    assert_eq!(to_json_text(&s("\u{1}")), "\"\\u0001\"");
}

#[test]
fn metadata_label_lists_settings_and_defaults_the_workspace_folder() {
    let configuration = object(vec![
        ("image", s("debian")),
        ("remoteUser", s("vscode")),
        ("remoteEnv", object(vec![("A", s("1"))])),
        ("postCreateCommand", s("make")),
    ]);
    assert_eq!(
        serialized_container_metadata(&configuration, "/workspaces/project", false),
        r#"{"postCreateCommand":"make","remoteEnv":{"A":"1"},"remoteUser":"vscode","workspaceFolder":"/workspaces/project"}"#
    );
    assert_eq!(
        serialized_container_metadata(&configuration, "/workspaces/project", true),
        r#"{"postCreateCommand":"make","remoteUser":"vscode","workspaceFolder":"/workspaces/project"}"#
    );
    let with_folder = object(vec![("workspaceFolder", s("/src"))]);
    assert_eq!(serialized_container_metadata(&with_folder, "/ignored", false), r#"{"workspaceFolder":"/src"}"#);
}

#[test]
fn start_arguments_follow_the_configuration() {
    let configuration = object(vec![
        ("image", s("debian")),
        ("init", JsonValue::Bool(true)),
        ("privileged", JsonValue::Bool(false)),
        ("mounts", JsonValue::Array(vec![s("type=volume,source=v,target=/v"), JsonValue::Null])),
        ("runArgs", JsonValue::Array(vec![s("--network=host"), JsonValue::Bool(true)])),
        ("containerEnv", object(vec![("A", s("1")), ("B", JsonValue::Null)])),
        ("capAdd", JsonValue::Array(vec![s("SYS_PTRACE")])),
        ("securityOpt", JsonValue::Array(vec![s("seccomp=unconfined")])),
    ]);
    let args = strings(&["--id-label", "x=y", "--mount", "type=bind,source=/a,target=/b"]);
    let engine_args = start_container_args(&resolved(configuration), &args, "img", "/workspaces/project", true);
    let metadata = r#"devcontainer.metadata={"containerEnv":{"A":"1","B":null},"workspaceFolder":"/workspaces/project"}"#;
    assert_eq!(
        engine_args,
        strings(&[
            "run",
            "-d",
            "--label",
            "devcontainer.local_folder=/home/me/project",
            "--label",
            "devcontainer.config_file=/home/me/project/.devcontainer/devcontainer.json",
            "--label",
            metadata,
            "--mount",
            "type=bind,source=/home/me/project,target=/workspaces/project",
            "--init",
            "--label",
            "x=y",
            "--mount",
            "type=bind,source=/a,target=/b",
            "--mount",
            "type=volume,source=v,target=/v",
            "--network=host",
            "-e",
            "A=1",
            "--cap-add",
            "SYS_PTRACE",
            "--security-opt",
            "seccomp=unconfined",
            "--gpus",
            "all",
            "img",
            "/bin/sh",
            "-lc",
            "while sleep 1000; do :; done",
        ])
    );
}

#[test]
fn started_container_ids_are_trimmed_and_required() {
    assert_eq!(started_container_id(&result(0, " abc123\n", "")), Ok("abc123".to_string()));
    assert_eq!(
        started_container_id(&result(0, "  \n", "")),
        Err("Container engine did not return a container id".to_string())
    );
    assert_eq!(started_container_id(&result(125, "", " no such image \n")), Err("no such image".to_string()));
}

#[test]
fn gpu_requests_follow_requirements_and_availability() {
    let with_gpu = object(vec![("hostRequirements", object(vec![("gpu", s("optional"))]))]);
    let without = object(vec![("hostRequirements", object(vec![("cpus", JsonValue::Number("2".to_string()))]))]);
    assert_eq!(gpu_request(&without, &strings(&["--gpu-availability", "all"])), GpuRequest::Omit);
    assert_eq!(gpu_request(&with_gpu, &strings(&["--gpu-availability", "all"])), GpuRequest::Add);
    assert_eq!(gpu_request(&with_gpu, &strings(&["--gpu-availability", "none"])), GpuRequest::Omit);
    assert_eq!(gpu_request(&with_gpu, &strings(&["--gpu-availability", "detect"])), GpuRequest::Detect);
    assert_eq!(gpu_request(&with_gpu, &[]), GpuRequest::Detect);
    assert_eq!(gpu_detect_args(), strings(&["info", "-f", "{{.Runtimes.nvidia}}"]));
    assert!(gpu_detected(&result(0, "/usr/bin/nvidia-container-runtime", "")));
    assert!(!gpu_detected(&result(0, "<no value>", "")));
    assert!(!gpu_detected(&result(1, "nvidia-container-runtime", "")));
}

#[test]
fn image_plans_build_with_the_configured_dockerfile() {
    let configuration = object(vec![(
        "build",
        object(vec![
            ("dockerfile", s("Dockerfile.dev")),
            ("context", s("..")),
            ("args", object(vec![("VERSION", s("1")), ("SKIP", JsonValue::Bool(true))])),
        ]),
    )]);
    let args = strings(&["--no-cache", "--cache-from", "c1", "--label", "l=1", "--platform", "linux/arm64", "--push"]);
    match image_plan(&resolved(configuration), &args).expect("plan") {
        ImagePlan::Build(build) => {
            assert_eq!(build.image_name, "devcontainer-project");
            assert!(build.push);
            assert_eq!(
                build.engine_args,
                strings(&[
                    "build",
                    "--tag",
                    "devcontainer-project",
                    "--file",
                    "/home/me/project/.devcontainer/Dockerfile.dev",
                    "--no-cache",
                    "--cache-from",
                    "c1",
                    "--label",
                    "l=1",
                    "--build-arg",
                    "VERSION=1",
                    "--platform",
                    "linux/arm64",
                    "/home/me/project/.devcontainer/..",
                ])
            );
        },
        _ => panic!("expected a build"),
    }
}

#[test]
fn image_plans_for_images_compose_and_nothing() {
    match image_plan(&resolved(object(vec![("image", s("debian:12"))])), &[]).expect("plan") {
        ImagePlan::Image(image) => assert_eq!(image, "debian:12"),
        _ => panic!("expected an image"),
    }
    let compose = object(vec![("dockerComposeFile", s("compose.yml")), ("service", s("app"))]);
    assert!(matches!(image_plan(&resolved(compose), &[]), Ok(ImagePlan::Compose)));
    let err = image_plan(&resolved(object(vec![("build", s("not an object"))])), &[]).err();
    assert_eq!(
        err.as_deref(),
        Some("Unsupported configuration: only image and build-based configs are supported natively")
    );
    let named = object(vec![("build", object(vec![]))]);
    match image_plan(&resolved(named), &strings(&["--image-name", "mine"])).expect("plan") {
        ImagePlan::Build(build) => {
            assert_eq!(build.image_name, "mine");
            assert!(!build.push);
            assert_eq!(
                build.engine_args,
                strings(&[
                    "build",
                    "--tag",
                    "mine",
                    "--file",
                    "/home/me/project/.devcontainer/Dockerfile",
                    "/home/me/project/.devcontainer/.",
                ])
            );
        },
        _ => panic!("expected a build"),
    }
    assert_eq!(pushed_image(&result(0, "", "")), Ok(()));
    assert_eq!(pushed_image(&result(1, "out", "denied")), Err("denied".to_string()));
}
