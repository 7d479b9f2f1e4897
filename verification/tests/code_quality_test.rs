use nitroterm::code_quality::{
    quality_exit_code, summarize_results, CheckResult, CodeQualityConfig, CodeQualityManager,
    PackageManager, ProjectInfo, ProjectType, QualityCheck,
};
use nitroterm::json::JsonValue;

fn obj(members: Vec<(&str, JsonValue)>) -> JsonValue {
    JsonValue::Object(members.into_iter().map(|(k, v)| (k.to_string(), v)).collect())
}

fn present(names: &[&str]) -> Vec<String> {
    names.iter().map(|s| s.to_string()).collect()
}

#[test]
fn test_code_quality_config_default() {
    let config = CodeQualityConfig::default();

    assert_eq!(config.enabled_checks.len(), 4);
    assert!(config.enabled_checks.contains(&"lint".to_string()));
    assert!(config.enabled_checks.contains(&"format".to_string()));
    assert!(config.enabled_checks.contains(&"security".to_string()));
    assert!(config.enabled_checks.contains(&"test".to_string()));
    assert_eq!(config.skip_dependencies, false);
    assert_eq!(config.max_parallel_jobs, 4);
    assert_eq!(config.timeout_seconds, 300);
}

#[test]
fn test_code_quality_config_custom() {
    let config = CodeQualityConfig {
        enabled_checks: vec!["lint".to_string(), "test".to_string()],
        skip_dependencies: true,
        max_parallel_jobs: 8,
        timeout_seconds: 600,
    };

    assert_eq!(config.enabled_checks.len(), 2);
    assert!(config.skip_dependencies);
    assert_eq!(config.max_parallel_jobs, 8);
    assert_eq!(config.timeout_seconds, 600);
}

#[test]
fn test_project_type_enum() {
    let project_types = vec![
        ProjectType::NextJs,
        ProjectType::Angular,
        ProjectType::React,
        ProjectType::Vue,
        ProjectType::NodeJs,
        ProjectType::TypeScript,
        ProjectType::JavaScript,
        ProjectType::Rust,
        ProjectType::Python,
        ProjectType::Unknown,
    ];

    for project_type in project_types {
        assert!(project_type == project_type.clone());
    }
}

#[test]
fn test_package_manager_enum() {
    let package_managers = vec![
        PackageManager::Npm,
        PackageManager::Yarn,
        PackageManager::Pnpm,
        PackageManager::Bun,
        PackageManager::Cargo,
        PackageManager::Pip,
        PackageManager::Unknown,
    ];

    for pm in package_managers {
        assert!(pm == pm.clone());
    }
}

#[test]
fn test_package_manager_command_generation() {
    let config = CodeQualityConfig::default();
    let manager = CodeQualityManager::new(config);

    assert_eq!(manager.get_package_manager_command(&PackageManager::Npm), "npm");
    assert_eq!(manager.get_package_manager_command(&PackageManager::Yarn), "yarn");
    assert_eq!(manager.get_package_manager_command(&PackageManager::Pnpm), "pnpm");
    assert_eq!(manager.get_package_manager_command(&PackageManager::Bun), "bun");
    assert_eq!(manager.get_package_manager_command(&PackageManager::Cargo), "cargo");
    assert_eq!(manager.get_package_manager_command(&PackageManager::Pip), "pip");
    assert_eq!(manager.get_package_manager_command(&PackageManager::Unknown), "npm");
}

#[test]
fn test_quality_check_creation() {
    let check = QualityCheck {
        name: "test-lint".to_string(),
        command: "eslint".to_string(),
        args: vec!["--ext".to_string(), ".js,.ts".to_string(), "src/".to_string()],
        working_dir: "/tmp/project".to_string(),
        timeout: 300,
    };

    assert_eq!(check.name, "test-lint");
    assert_eq!(check.command, "eslint");
    assert_eq!(check.args.len(), 3);
    assert_eq!(check.timeout, 300);
}

#[test]
fn test_check_result_creation() {
    let result = CheckResult {
        check_name: "lint".to_string(),
        success: true,
        output: "All checks passed".to_string(),
        error: None,
        duration_ms: 1500,
    };

    assert_eq!(result.check_name, "lint");
    assert!(result.success);
    assert_eq!(result.output, "All checks passed");
    assert!(result.error.is_none());
    assert_eq!(result.duration_ms, 1500);

    let failed_result = CheckResult {
        check_name: "format".to_string(),
        success: false,
        output: "".to_string(),
        error: Some("Formatting issues found".to_string()),
        duration_ms: 800,
    };

    assert!(!failed_result.success);
    assert!(failed_result.error.is_some());
}

#[test]
fn test_enabled_checks_filtering() {
    let mut config = CodeQualityConfig::default();
    config.enabled_checks = vec!["lint".to_string(), "test".to_string()];

    assert!(config.enabled_checks.contains(&"lint".to_string()));
    assert!(config.enabled_checks.contains(&"test".to_string()));
    assert!(!config.enabled_checks.contains(&"format".to_string()));
    assert!(!config.enabled_checks.contains(&"security".to_string()));

    let manager = CodeQualityManager::new(config);
    let info = ProjectInfo {
        project_type: ProjectType::Rust,
        package_manager: PackageManager::Cargo,
        root_path: ".".to_string(),
        config_files: vec![],
        has_typescript: false,
        frameworks: vec![],
    };
    let checks = manager.generate_quality_checks(&info);
    let selected = manager.select_enabled_checks(checks);
    let names: Vec<&str> = selected.iter().map(|c| c.name.as_str()).collect();
    assert_eq!(names, vec!["lint", "test"]);
}

#[test]
fn test_project_info_creation() {
    let project_info = ProjectInfo {
        project_type: ProjectType::NextJs,
        package_manager: PackageManager::Yarn,
        root_path: "/tmp/app".to_string(),
        config_files: vec!["/tmp/app/tsconfig.json".to_string()],
        has_typescript: true,
        frameworks: vec!["Next.js".to_string(), "React".to_string()],
    };

    assert_eq!(project_info.project_type, ProjectType::NextJs);
    assert_eq!(project_info.package_manager, PackageManager::Yarn);
    assert!(project_info.has_typescript);
    assert_eq!(project_info.frameworks.len(), 2);
    assert_eq!(project_info.config_files.len(), 1);
}

#[test]
fn detects_nextjs_project() {
    let manager = CodeQualityManager::new(CodeQualityConfig::default());
    let pkg = obj(vec![(
        "dependencies",
        obj(vec![
            ("next", JsonValue::Str("^14".to_string())),
            ("react", JsonValue::Str("^18".to_string())),
        ]),
    )]);
    let info = manager.detect_project_type(
        "/work/app",
        &present(&["package.json", "package-lock.json", "next.config.js", ".gitignore"]),
        Some(&pkg),
    );
    assert_eq!(info.project_type, ProjectType::NextJs);
    assert_eq!(info.package_manager, PackageManager::Npm);
    assert_eq!(
        info.frameworks,
        vec!["Next.js".to_string(), "React".to_string(), "Next.js".to_string()]
    );
    assert_eq!(
        info.config_files,
        vec!["/work/app/next.config.js".to_string(), "/work/app/.gitignore".to_string()]
    );
}

#[test]
fn detects_rust_python_typescript_and_plain_projects() {
    let manager = CodeQualityManager::new(CodeQualityConfig::default());
    let rust = manager.detect_project_type("p/", &present(&["Cargo.toml", "tsconfig.json"]), None);
    assert_eq!(rust.project_type, ProjectType::Rust);
    assert_eq!(rust.package_manager, PackageManager::Cargo);
    assert_eq!(rust.frameworks, vec!["Rust".to_string()]);
    assert!(rust.config_files.is_empty());

    let py = manager.detect_project_type("p", &present(&["setup.py"]), None);
    assert_eq!(py.project_type, ProjectType::Python);
    assert_eq!(py.package_manager, PackageManager::Unknown);

    let ts = manager.detect_project_type("p", &present(&["pnpm-lock.yaml", "tsconfig.json"]), None);
    assert_eq!(ts.project_type, ProjectType::TypeScript);
    assert_eq!(ts.package_manager, PackageManager::Pnpm);
    assert_eq!(ts.config_files, vec!["p/tsconfig.json".to_string()]);

    let js = manager.detect_project_type("", &present(&["package.json"]), None);
    assert_eq!(js.project_type, ProjectType::JavaScript);

    let node_pkg = obj(vec![("main", JsonValue::Str("index.js".to_string()))]);
    let node = manager.detect_project_type("", &present(&["package.json"]), Some(&node_pkg));
    assert_eq!(node.project_type, ProjectType::NodeJs);
}

#[test]
fn checks_for_each_kind_of_project() {
    let manager = CodeQualityManager::new(CodeQualityConfig::default());
    let mut info = ProjectInfo {
        project_type: ProjectType::React,
        package_manager: PackageManager::Bun,
        root_path: "r".to_string(),
        config_files: vec![],
        has_typescript: true,
        frameworks: vec![],
    };
    let front = manager.generate_quality_checks(&info);
    let names: Vec<&str> = front.iter().map(|c| c.name.as_str()).collect();
    assert_eq!(names, vec!["lint", "typecheck", "test", "security"]);
    assert!(front.iter().all(|c| c.command == "bun" && c.working_dir == "r" && c.timeout == 300));
    info.project_type = ProjectType::Unknown;
    let basic = manager.generate_quality_checks(&info);
    assert_eq!(basic[0].command, "echo");
    assert_eq!(basic[0].args, vec!["Basic validation completed".to_string()]);
    info.project_type = ProjectType::Python;
    let py = manager.generate_quality_checks(&info);
    assert_eq!(py[3].args, vec!["-r".to_string(), ".".to_string()]);
}

#[test]
fn summaries_count_passes_and_failures() {
    let results = vec![
        CheckResult { check_name: "lint".into(), success: true, output: String::new(), error: None, duration_ms: 10 },
        CheckResult { check_name: "test".into(), success: false, output: String::new(), error: Some("x".into()), duration_ms: 32 },
    ];
    let s = summarize_results(&results);
    assert_eq!((s.total, s.passed, s.failed, s.total_duration_ms), (2, 1, 1, 42));
    assert_eq!(s.failed_checks, vec!["test".to_string()]);
    assert_eq!(quality_exit_code(&results), 1);
    let passing = vec![CheckResult {
        check_name: "lint".into(),
        success: true,
        output: String::new(),
        error: None,
        duration_ms: 1,
    }];
    assert_eq!(quality_exit_code(&passing), 0);
}

fn info(project_type: ProjectType, pm: PackageManager, has_typescript: bool) -> ProjectInfo {
    ProjectInfo {
        project_type,
        package_manager: pm,
        root_path: "/work/app".to_string(),
        config_files: vec![],
        has_typescript,
        frameworks: vec![],
    }
}

fn shape(checks: &[QualityCheck]) -> Vec<(String, String, Vec<String>)> {
    checks.iter().map(|c| (c.name.clone(), c.command.clone(), c.args.clone())).collect()
}

fn row(name: &str, command: &str, args: &[&str]) -> (String, String, Vec<String>) {
    (name.to_string(), command.to_string(), args.iter().map(|a| a.to_string()).collect())
}

#[test]
fn python_rust_and_basic_check_lists() {
    let manager = CodeQualityManager::new(CodeQualityConfig::default());
    let py = manager.generate_python_checks(&info(ProjectType::Python, PackageManager::Pip, false));
    assert_eq!(
        shape(&py),
        vec![
            row("lint", "flake8", &["."]),
            row("format", "black", &["--check", "."]),
            row("test", "pytest", &[]),
            row("security", "bandit", &["-r", "."]),
        ]
    );
    assert!(py.iter().all(|c| c.working_dir == "/work/app" && c.timeout == 300));
    let rs = manager.generate_rust_checks(&info(ProjectType::Rust, PackageManager::Cargo, false));
    assert_eq!(
        shape(&rs),
        vec![
            row("format", "cargo", &["fmt", "--check"]),
            row("lint", "cargo", &["clippy", "--", "-D", "warnings"]),
            row("test", "cargo", &["test"]),
        ]
    );
    let basic = manager.generate_basic_checks(&info(ProjectType::Unknown, PackageManager::Unknown, false));
    assert_eq!(shape(&basic), vec![row("validate", "echo", &["Basic validation completed"])]);
}

#[test]
fn frontend_and_node_check_lists() {
    let manager = CodeQualityManager::new(CodeQualityConfig {
        enabled_checks: vec![],
        skip_dependencies: false,
        max_parallel_jobs: 1,
        timeout_seconds: 60,
    });
    let ts = manager.generate_frontend_checks(&info(ProjectType::React, PackageManager::Pnpm, true));
    assert_eq!(
        shape(&ts),
        vec![
            row("lint", "pnpm", &["run", "lint"]),
            row("typecheck", "pnpm", &["run", "type-check"]),
            row("test", "pnpm", &["test"]),
            row("security", "pnpm", &["audit"]),
        ]
    );
    assert!(ts.iter().all(|c| c.timeout == 60));
    let js = manager.generate_frontend_checks(&info(ProjectType::Vue, PackageManager::Unknown, false));
    assert_eq!(js.len(), 3);
    assert_eq!(js[0].command, "npm");
    let node = manager.generate_nodejs_checks(&info(ProjectType::NodeJs, PackageManager::Bun, false));
    assert_eq!(
        shape(&node),
        vec![row("lint", "bun", &["run", "lint"]), row("test", "bun", &["test"]), row("security", "bun", &["audit"])]
    );
}

#[test]
fn package_json_analysis() {
    let manager = CodeQualityManager::new(CodeQualityConfig::default());
    let pkg = obj(vec![
        ("dependencies", obj(vec![("react", JsonValue::Str("18".to_string())), ("vue", JsonValue::Str("3".to_string()))])),
        ("devDependencies", obj(vec![("typescript", JsonValue::Str("5".to_string()))])),
    ]);
    let analyzed = manager.analyze_package_json(&pkg, info(ProjectType::Unknown, PackageManager::Npm, false));
    assert_eq!(analyzed.project_type, ProjectType::Vue);
    assert_eq!(analyzed.frameworks, vec!["React".to_string(), "Vue".to_string()]);
    assert!(analyzed.has_typescript);

    let scripts_only = obj(vec![("scripts", obj(vec![]))]);
    let node = manager.analyze_package_json(&scripts_only, info(ProjectType::Unknown, PackageManager::Npm, false));
    assert_eq!(node.project_type, ProjectType::NodeJs);

    let plain = obj(vec![("name", JsonValue::Str("x".to_string()))]);
    let unknown = manager.analyze_package_json(&plain, info(ProjectType::Unknown, PackageManager::Npm, false));
    assert_eq!(unknown.project_type, ProjectType::Unknown);
}

#[test]
fn config_files_and_lock_files() {
    let manager = CodeQualityManager::new(CodeQualityConfig::default());
    let found = manager.find_config_files("/repo", &present(&["Dockerfile", "README.md", "tsconfig.json"]));
    assert_eq!(found, vec!["/repo/tsconfig.json".to_string(), "/repo/Dockerfile".to_string()]);
    assert_eq!(
        manager.find_config_files("/repo/", &present(&[".gitignore"])),
        vec!["/repo/.gitignore".to_string()]
    );
    assert_eq!(
        CodeQualityManager::package_manager_from_files(&present(&["yarn.lock", "pnpm-lock.yaml"])),
        PackageManager::Yarn
    );
    assert_eq!(
        CodeQualityManager::package_manager_from_files(&present(&["bun.lockb"])),
        PackageManager::Bun
    );
    assert_eq!(CodeQualityManager::package_manager_from_files(&present(&[])), PackageManager::Unknown);
}
