use tool_fetch::download::{check_status, is_success};
use tool_fetch::layout::{install_dir_name, temp_archive_name};
use tool_fetch::{Application, ToolError};

#[test]
fn install_directories_are_named_after_tool_and_version() {
    assert_eq!(install_dir_name(Application::Sass, "1.54.9"), "sass-1.54.9");
    assert_eq!(install_dir_name(Application::WasmBindgen, "0.2.83"), "wasm-bindgen-0.2.83");
    assert_eq!(install_dir_name(Application::WasmOpt, "version_110"), "wasm-opt-version_110");
    assert_eq!(install_dir_name(Application::WasmOpt, ""), "wasm-opt-");
}

#[test]
fn temporary_archives_are_named_after_tool_and_version() {
    assert_eq!(temp_archive_name(Application::Sass, "1.54.9"), "sass-1.54.9.tmp");
    assert_eq!(temp_archive_name(Application::WasmBindgen, "0.2.83"), "wasm-bindgen-0.2.83.tmp");
    assert_eq!(temp_archive_name(Application::WasmOpt, "version_110"), "wasm-opt-version_110.tmp");
}

#[test]
fn different_keys_have_different_names() {
    let apps = [Application::Sass, Application::WasmBindgen, Application::WasmOpt];
    let versions = ["", "1", "opt-1", "bindgen-1", "-", "1.tmp", "sass-1"];
    let mut seen: Vec<(String, String)> = Vec::new();
    for app in apps {
        for version in versions {
            let names = (install_dir_name(app, version), temp_archive_name(app, version));
            for earlier in &seen {
                assert_ne!(earlier.0, names.0);
                assert_ne!(earlier.1, names.1);
            }
            seen.push(names);
        }
    }
    assert_eq!(seen.len(), 21);
}

#[test]
fn success_is_any_status_from_200_to_299() {
    for status in [200, 201, 204, 206, 250, 299] {
        assert!(is_success(status));
        assert_eq!(check_status(status, "https://example.org/a"), Ok(()));
    }
    for status in [0, 100, 199, 300, 301, 304, 400, 404, 500, 503, u16::MAX] {
        assert!(!is_success(status));
    }
}

#[test]
fn refused_status_carries_status_and_address() {
    assert_eq!(
        check_status(404, "https://example.org/a.tar.gz"),
        Err(ToolError::NetworkFailure {
            status: 404,
            url: "https://example.org/a.tar.gz".to_string()
        })
    );
    assert_eq!(
        check_status(199, ""),
        Err(ToolError::NetworkFailure { status: 199, url: String::new() })
    );
    assert_eq!(
        check_status(300, "x"),
        Err(ToolError::NetworkFailure { status: 300, url: "x".to_string() })
    );
}
