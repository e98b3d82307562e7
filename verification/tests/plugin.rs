use koid::plugin::{
    check_fetch_url, entry_file, fetch_method, fetch_result, installed_info, plugin_dir_name, plugin_info,
    plugin_rel_path, sanitize_id, FetchMethod, PluginManifest,
};

fn manifest(id: Option<&str>) -> PluginManifest {
    PluginManifest {
        id: id.map(|s| s.to_string()),
        name: "Demo".to_string(),
        version: "1.0".to_string(),
        entry: "index.html".to_string(),
        permissions: vec!["network".to_string()],
    }
}

#[test]
fn plugin_ids_cannot_leave_the_plugin_directory() {
    assert_eq!(sanitize_id("../../etc"), "etc");
    assert_eq!(sanitize_id("my-plugin_1"), "my-plugin_1");
    assert_eq!(plugin_dir_name("a/b"), Ok("ab".to_string()));
    assert_eq!(plugin_dir_name("../"), Err("插件 id 无效".to_string()));
    assert_eq!(sanitize_id("../../etc/passwd"), "etcpasswd");
    assert_eq!(sanitize_id("插件"), "");
    assert_eq!(sanitize_id("a插b"), "ab");
    assert_eq!(plugin_dir_name("插件"), Err("插件 id 无效".to_string()));
}

#[test]
fn entry_file_is_sanitized_with_index_fallback() {
    assert_eq!(entry_file("../secret"), "secret");
    assert_eq!(entry_file(" main "), "main");
    // the dot is not kept, so a file name with an extension loses it
    assert_eq!(entry_file("index.html"), "indexhtml");
    assert_eq!(entry_file("///"), "index.html");
    assert_eq!(entry_file(""), "index.html");
}

#[test]
fn listed_plugin_takes_manifest_id_or_directory_name() {
    assert_eq!(plugin_info(manifest(Some("declared")), "dir".to_string()).id, "declared");
    let info = plugin_info(manifest(None), "dir".to_string());
    assert_eq!(info.id, "dir");
    assert_eq!(info.name, "Demo");
    assert_eq!(info.permissions, vec!["network".to_string()]);
}

#[test]
fn installed_plugin_id_is_sanitized() {
    assert_eq!(installed_info(manifest(Some("a/../b")), "root".to_string()).unwrap().id, "ab");
    assert_eq!(installed_info(manifest(None), "my plugin".to_string()).unwrap().id, "myplugin");
    assert_eq!(installed_info(manifest(Some("..")), "root".to_string()).unwrap_err(), "插件 id 无效");
}

#[test]
fn plugin_paths_stay_inside_the_workspace() {
    assert_eq!(plugin_rel_path("notes/a.txt"), Ok("notes/a.txt".to_string()));
    assert_eq!(plugin_rel_path("notes//./a.txt"), Ok("notes/a.txt".to_string()));
    assert_eq!(plugin_rel_path("./a.txt"), Ok("./a.txt".to_string()));
    assert_eq!(plugin_rel_path("."), Ok(".".to_string()));
    assert_eq!(plugin_rel_path("/etc/passwd"), Err("插件文件路径不允许绝对路径".to_string()));
    assert_eq!(plugin_rel_path("a/../../b"), Err("插件文件路径不允许越界访问".to_string()));
    assert_eq!(plugin_rel_path(""), Err("路径为空".to_string()));
    assert_eq!(plugin_rel_path("a/"), Ok("a".to_string()));
    assert_eq!(plugin_rel_path("..\\x"), Err("插件文件路径不允许越界访问".to_string()));
    assert_eq!(plugin_rel_path("C:\\x"), Err("插件文件路径不允许绝对路径".to_string()));
    assert_eq!(plugin_rel_path("notes\\a.txt"), Ok("notes/a.txt".to_string()));
}

#[test]
fn fetch_method_and_scheme() {
    assert_eq!(fetch_method("post"), FetchMethod::Post);
    assert_eq!(fetch_method("Put"), FetchMethod::Put);
    assert_eq!(fetch_method("DELETE"), FetchMethod::Delete);
    assert_eq!(fetch_method("patch"), FetchMethod::Get);
    assert_eq!(fetch_method("poſt"), FetchMethod::Post);
    assert!(check_fetch_url("https://example.com").is_ok());
    assert!(check_fetch_url("http://x").is_ok());
    assert_eq!(check_fetch_url("file:///etc/passwd"), Err("仅支持 http/https 请求".to_string()));
    let r = fetch_result(404, "missing".to_string());
    assert!(!r.ok);
    assert_eq!(r.status, 404);
    assert!(fetch_result(399, String::new()).ok);
}
