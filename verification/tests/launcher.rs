use jvm::vm::launcher::{create_vm_configuration, java_version_from_release, main_class_name, Args};

#[test]
fn main_class_name_uses_slashes() {
    assert_eq!(main_class_name("com.example.Main"), "com/example/Main");
    assert_eq!(main_class_name("com/example/Main"), "com/example/Main");
    assert_eq!(main_class_name("Main"), "Main");
    assert_eq!(main_class_name(""), "");
    assert_eq!(main_class_name("é.ü"), "é/ü");
}

#[test]
fn release_version_is_unquoted() {
    let release = "IMPLEMENTOR=\"Eclipse\"\nJAVA_VERSION=\"21.0.2\"\nOS_NAME=\"Linux\"\n";
    assert_eq!(java_version_from_release(release), Some("21.0.2".to_string()));
}

#[test]
fn release_version_first_line_wins_and_crlf() {
    let release = "JAVA_VERSION=17\r\nJAVA_VERSION=21\r\n";
    assert_eq!(java_version_from_release(release), Some("17".to_string()));
    assert_eq!(java_version_from_release("JAVA_VERSION=\"\"\"x\"\""), Some("x".to_string()));
    assert_eq!(java_version_from_release("JAVA_VERSION="), Some(String::new()));
}

#[test]
fn release_without_version() {
    assert_eq!(java_version_from_release(""), None);
    assert_eq!(java_version_from_release("JAVA_VERSIONS=1\n JAVA_VERSION=2"), None);
    assert_eq!(java_version_from_release("java_version=3"), None);
}

#[test]
fn vm_configuration_from_release() {
    let args = Args { class_path: vec!["lib".to_string()], main_class_path: "a.B".to_string() };
    let config = create_vm_configuration(
        args,
        "a/B".to_string(),
        "/opt/jdk".to_string(),
        "/work".to_string(),
        "JAVA_VERSION=\"21\"\n",
    )
    .unwrap();
    assert_eq!(config.home, "/opt/jdk");
    assert_eq!(config.main_class, "a/B");
    assert_eq!(config.version, "21");
    assert_eq!(config.class_path, vec!["lib".to_string(), "/work".to_string()]);
    assert_eq!(config.initial_heap_size, 0);
    assert_eq!(config.max_heap_size, 0);
    assert_eq!(config.frame_stack_size, 256);
    assert_eq!(config.operand_stack_size, 256);
}

#[test]
fn vm_configuration_refused_without_version() {
    let args = Args { class_path: vec![], main_class_path: "Main".to_string() };
    let err = create_vm_configuration(
        args,
        "Main".to_string(),
        "/opt/jdk".to_string(),
        "/work".to_string(),
        "OS_NAME=Linux\n",
    )
    .unwrap_err();
    assert_eq!(err, "JAVA_VERSION not found in release file");
}
