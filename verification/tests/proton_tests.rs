use gamehub::proton_manager::{
    entry_name_of, AssetEntry, DirEntry, FetchReport, InstallAction, InstallEvent, InstallStage, ProtonManager,
    ReleaseCollector, ReleaseEntry, ReleaseInfo,
};

fn asset(name: &str, url: &str) -> AssetEntry {
    AssetEntry { name: name.to_string(), browser_download_url: url.to_string() }
}

fn release(tag: &str, body: &str, assets: Option<Vec<AssetEntry>>) -> ReleaseEntry {
    ReleaseEntry { tag_name: tag.to_string(), body: body.to_string(), assets }
}

fn info(version: &str, asset_name: &str, url: &str) -> ReleaseInfo {
    ReleaseInfo {
        version: version.to_string(),
        asset_name: asset_name.to_string(),
        download_url: url.to_string(),
        body: String::new(),
    }
}

#[test]
fn catalogue_of_compatibility_tools() {
    let tools = ProtonManager::available_tools();
    let ids: Vec<&str> = tools.iter().map(|t| t.id).collect();
    assert_eq!(ids, vec!["ge-proton", "proton-cachyos", "ge-proton-rtsp", "dxvk", "vkd3d-proton"]);
    assert_eq!(tools[1].arch_filter, Some("-x86_64.tar"));
    assert_eq!(tools[3].install_subdir, "");
}

#[test]
fn versions_from_asset_names() {
    assert_eq!(ProtonManager::extract_version("GE-Proton9-20.tar.gz", "GE-Proton9-20"), "GE-Proton-9-20");
    assert_eq!(
        ProtonManager::extract_version("proton-cachyos-10.0-20250601-slr-x86_64.tar.xz", "cachyos-10.0"),
        "proton-cachyos-10.0-20250601-slr-x86_64"
    );
    assert_eq!(ProtonManager::extract_version("dxvk-2.6.1.tar.gz", "v2.6.1"), "dxvk-2.6.1");
    assert_eq!(ProtonManager::extract_version("vkd3d-proton-2.14.1.tar.zst", "v2.14.1"), "vkd3d-proton-2.14.1");
    assert_eq!(ProtonManager::extract_version("other-1.0.tar.gz", "vv1.2"), "1.2");
    assert_eq!(ProtonManager::extract_version("GE-Proton.tar.gz.tar.gz", "v7"), "7");
    assert_eq!(ProtonManager::extract_version("dxvk---3.tar.gz", "v3"), "dxvk-3");
}

#[test]
fn installed_directory_names() {
    let tools = ProtonManager::available_tools();
    assert!(tools[0].matches_installed("GE-Proton9-20"));
    assert!(!tools[0].matches_installed("GE-Proton9-20-RTSP"));
    assert!(tools[2].matches_installed("GE-Proton9-20-RTSP"));
    assert!(!tools[2].matches_installed("GE-Proton9-20"));
    assert!(tools[1].matches_installed("proton-cachyos-10.0"));
    assert!(tools[3].matches_installed("dxvk-2.6"));
    assert!(!tools[3].matches_installed("dxvk"));
    assert!(tools[4].matches_installed("vkd3d-proton-2.14"));
}

#[test]
fn asset_patterns() {
    let tools = ProtonManager::available_tools();
    assert!(ProtonManager::asset_matches_filter(&tools[1], "proton-cachyos-10.0-x86_64.tar.xz"));
    assert!(ProtonManager::asset_matches_filter(&tools[1], "proton-cachyos-10.0-x86_64.tar.zst"));
    assert!(!ProtonManager::asset_matches_filter(&tools[1], "proton-cachyos-10.0-x86_64.tar.gz"));
    assert!(ProtonManager::asset_matches_filter(&tools[0], "GE-Proton9-20.tar.gz"));
    assert!(!ProtonManager::asset_matches_filter(&tools[0], "GE-Proton9-20.sha512sum"));
}

#[test]
fn asset_qualification() {
    let tools = ProtonManager::available_tools();
    let good = asset("proton-cachyos-10-x86_64.tar.xz", "https://x/a");
    assert!(ProtonManager::asset_qualifies(&tools[1], &good, true));
    assert!(!ProtonManager::asset_qualifies(&tools[1], &good, false));
    assert!(!ProtonManager::asset_qualifies(&tools[1], &asset("proton-cachyos-10-x86_64_v3.tar.xz", "u"), true));
    assert!(!ProtonManager::asset_qualifies(&tools[0], &asset("GE-Proton9.tar.gz", ""), true));
}

#[test]
fn cachyos_picks_standard_architecture() {
    let tools = ProtonManager::available_tools();
    let rels = vec![release(
        "cachyos-10.0-20250601",
        "notes",
        Some(vec![
            asset("proton-cachyos-10.0-20250601-slr-x86_64_v3.tar.xz", "https://x/v3"),
            asset("proton-cachyos-10.0-20250601-slr-x86_64.sha512sum", "https://x/sum"),
            asset("proton-cachyos-10.0-20250601-slr-x86_64.tar.xz", "https://x/std"),
            asset("proton-cachyos-10.0-20250601-slr-x86_64_v4.tar.xz", "https://x/v4"),
        ]),
    )];
    let out = ProtonManager::list_available_releases(&tools[1], &rels);
    assert_eq!(out.len(), 1);
    assert_eq!(out[0].asset_name, "proton-cachyos-10.0-20250601-slr-x86_64.tar.xz");
    assert_eq!(out[0].download_url, "https://x/std");
    assert_eq!(out[0].version, "proton-cachyos-10.0-20250601-slr-x86_64");
    assert_eq!(out[0].body, "notes");
}

#[test]
fn one_asset_per_release_in_order() {
    let tools = ProtonManager::available_tools();
    let rels = vec![
        release("GE-Proton9-21", "b1", Some(vec![
            asset("GE-Proton9-21.tar.gz", ""),
            asset("GE-Proton9-21.tar.gz", "https://x/21"),
            asset("GE-Proton9-21b.tar.gz", "https://x/21b"),
        ])),
        release("GE-Proton9-20", "b2", None),
        release("GE-Proton9-19", "b3", Some(vec![asset("GE-Proton9-19.sha512sum", "https://x/s")])),
        release("GE-Proton9-18", "b4", Some(vec![asset("GE-Proton9-18.tar.gz", "https://x/18")])),
    ];
    let out = ProtonManager::list_available_releases(&tools[0], &rels);
    let urls: Vec<&str> = out.iter().map(|r| r.download_url.as_str()).collect();
    assert_eq!(urls, vec!["https://x/21", "https://x/18"]);
    assert_eq!(out[1].body, "b4");
    assert!(ProtonManager::list_available_releases(&tools[0], &[]).is_empty());
}

#[test]
fn fetch_reports() {
    assert_eq!(ProtonManager::fetch_report(false, "{\"message\":\"API rate limit exceeded\"}"), FetchReport::RateLimited);
    assert_eq!(ProtonManager::fetch_report(false, "secondary rate limit"), FetchReport::RateLimited);
    assert_eq!(ProtonManager::fetch_report(false, "[]"), FetchReport::NothingParsed);
    assert_eq!(ProtonManager::fetch_report(false, ""), FetchReport::Fine);
    assert_eq!(ProtonManager::fetch_report(true, "rate limit"), FetchReport::Fine);
}

#[test]
fn releases_url_of_tool() {
    let tools = ProtonManager::available_tools();
    assert_eq!(
        ProtonManager::releases_url(&tools[3]),
        "https://api.github.com/repos/doitsujin/dxvk/releases?per_page=30"
    );
}

#[test]
fn steam_and_lutris_locations() {
    assert_eq!(
        ProtonManager::steam_dir_candidates("/home/u"),
        vec![
            "/home/u/.steam/root/compatibilitytools.d",
            "/home/u/.steam/steam/compatibilitytools.d",
            "/home/u/.local/share/Steam/compatibilitytools.d",
            "/home/u/.var/app/com.valvesoftware.Steam/data/Steam/compatibilitytools.d",
        ]
    );
    assert_eq!(
        ProtonManager::steam_install_dirs("/home/u", &[false, true, false, true]),
        vec![
            "/home/u/.steam/steam/compatibilitytools.d",
            "/home/u/.var/app/com.valvesoftware.Steam/data/Steam/compatibilitytools.d",
        ]
    );
    assert!(ProtonManager::steam_install_dirs("/home/u", &[]).is_empty());
    assert_eq!(
        ProtonManager::lutris_wine_dirs("/tmp", &[true, false]),
        vec!["/tmp/.local/share/lutris/runners/wine"]
    );
}

#[test]
fn installed_versions_among_entries() {
    let tools = ProtonManager::available_tools();
    let entries = vec![
        DirEntry { path: "/s/GE-Proton9-20".into(), is_dir: true },
        DirEntry { path: "/s/GE-Proton9-20-rtsp".into(), is_dir: true },
        DirEntry { path: "/s/GE-Proton8-1".into(), is_dir: false },
        DirEntry { path: "/t/GE-Proton9-1".into(), is_dir: true },
    ];
    let ge: Vec<(String, String)> = ProtonManager::list_installed(&tools[0], &entries)
        .into_iter()
        .map(|v| (v.version, v.path))
        .collect();
    assert_eq!(
        ge,
        vec![
            ("GE-Proton9-20".to_string(), "/s/GE-Proton9-20".to_string()),
            ("GE-Proton9-1".to_string(), "/t/GE-Proton9-1".to_string()),
        ]
    );
    let rtsp = ProtonManager::list_installed(&tools[2], &entries);
    assert_eq!(rtsp.len(), 1);
    assert_eq!(rtsp[0].version, "GE-Proton9-20-rtsp");
}

#[test]
fn install_bases() {
    let tools = ProtonManager::available_tools();
    let steam = vec!["/a/compatibilitytools.d".to_string()];
    assert_eq!(ProtonManager::install_base(&tools[0], "/home/u", &steam), "/a/compatibilitytools.d");
    assert_eq!(
        ProtonManager::install_base(&tools[0], "/home/u", &[]),
        "/home/u/.steam/steam/compatibilitytools.d"
    );
    assert_eq!(ProtonManager::install_base(&tools[3], "/home/u", &steam), "/home/u/.local/share/lutris/runtime");
}

#[test]
fn decompression_by_extension() {
    assert_eq!(ProtonManager::decompress_flag("a.tar.zst"), "--zstd");
    assert_eq!(ProtonManager::decompress_flag("a.tar.xz"), "--xz");
    assert_eq!(ProtonManager::decompress_flag("a.tar.gz"), "-z");
    assert_eq!(ProtonManager::decompress_flag("zst"), "-z");
}

#[test]
fn install_run_success() {
    let tools = ProtonManager::available_tools();
    let rel = info("GE-Proton-9-20", "GE-Proton9-20.tar.gz", "https://x/20");
    let mut inst = ProtonManager::install_version(&tools[0], &rel, "/home/u", &[]);
    match inst.step(InstallEvent::Begin) {
        InstallAction::CreateDir { path } => assert_eq!(path, "/home/u/.steam/steam/compatibilitytools.d"),
        _ => panic!("expected a directory"),
    }
    match inst.step(InstallEvent::BaseDirCreated(Ok(()))) {
        InstallAction::Download { url, dest, staging_dir } => {
            assert_eq!(url, "https://x/20");
            assert_eq!(dest, "/tmp/gamehub-proton/GE-Proton9-20.tar.gz");
            assert_eq!(staging_dir, "/tmp/gamehub-proton");
        }
        _ => panic!("expected a download"),
    }
    match inst.step(InstallEvent::Downloaded(true)) {
        InstallAction::Extract { archive, dest, flag } => {
            assert_eq!(archive, "/tmp/gamehub-proton/GE-Proton9-20.tar.gz");
            assert_eq!(dest, "/home/u/.steam/steam/compatibilitytools.d");
            assert_eq!(flag, "-z");
        }
        _ => panic!("expected an extraction"),
    }
    match inst.step(InstallEvent::Extracted(true)) {
        InstallAction::Finish { result, discard } => {
            assert_eq!(
                result,
                Ok("Installed GE-Proton-9-20 to /home/u/.steam/steam/compatibilitytools.d".to_string())
            );
            assert_eq!(discard, None);
        }
        _ => panic!("expected the end"),
    }
    assert_eq!(inst.stage(), InstallStage::Finished);
}

#[test]
fn install_run_failures() {
    let tools = ProtonManager::available_tools();
    let rel = info("dxvk-2.6", "dxvk-2.6.tar.gz", "https://x/d");
    let mut a = ProtonManager::install_version(&tools[3], &rel, "/h", &[]);
    a.step(InstallEvent::Begin);
    match a.step(InstallEvent::BaseDirCreated(Err("Permission denied".to_string()))) {
        InstallAction::Finish { result, discard } => {
            assert_eq!(result, Err("Permission denied".to_string()));
            assert_eq!(discard, None);
        }
        _ => panic!("expected the end"),
    }
    let mut b = ProtonManager::install_version(&tools[3], &rel, "/h", &[]);
    b.step(InstallEvent::Begin);
    b.step(InstallEvent::BaseDirCreated(Ok(())));
    match b.step(InstallEvent::Downloaded(false)) {
        InstallAction::Finish { result, discard } => {
            assert_eq!(result, Err("Download failed".to_string()));
            assert_eq!(discard, Some("/tmp/gamehub-proton/dxvk-2.6.tar.gz".to_string()));
        }
        _ => panic!("expected the end"),
    }
    let mut c = ProtonManager::install_version(&tools[3], &rel, "/h", &[]);
    c.step(InstallEvent::Begin);
    c.step(InstallEvent::BaseDirCreated(Ok(())));
    c.step(InstallEvent::Downloaded(true));
    match c.step(InstallEvent::Extracted(false)) {
        InstallAction::Finish { result, .. } => assert_eq!(result, Err("Extraction failed".to_string())),
        _ => panic!("expected the end"),
    }
}

#[test]
fn removal_outcomes() {
    assert_eq!(ProtonManager::remove_version("/s/GE", None), Err("Directory not found".to_string()));
    assert_eq!(ProtonManager::remove_version("/s/GE", Some(Ok(()))), Ok("Removed /s/GE".to_string()));
    assert_eq!(
        ProtonManager::remove_version("/s/GE", Some(Err("busy".to_string()))),
        Err("busy".to_string())
    );
}

#[test]
fn install_and_remove_command_lines() {
    let rel = info("v", "GE-Proton9-20.tar.gz", "https://x/it's");
    assert_eq!(
        ProtonManager::install_shell_command("/home/o'neil/compat", &rel),
        "mkdir -p '/home/o'\\''neil/compat' && cd /tmp && curl -fsSL -o 'GE-Proton9-20.tar.gz' 'https://x/it'\\''s' && tar -z -xf 'GE-Proton9-20.tar.gz' -C '/home/o'\\''neil/compat' && rm -f 'GE-Proton9-20.tar.gz'"
    );
    assert_eq!(ProtonManager::remove_shell_command("/s/a b"), "rm -rf '/s/a b'");
}

#[test]
fn titles_and_notes() {
    let tools = ProtonManager::available_tools();
    let mut rel = info("GE-Proton-9-20", "a", "u");
    assert_eq!(ProtonManager::install_title(&tools[0], &rel), "Install GE-Proton — GE-Proton-9-20");
    assert_eq!(ProtonManager::release_notes(&rel), "No release notes available.");
    rel.body = "Fixes".to_string();
    assert_eq!(ProtonManager::release_notes(&rel), "Fixes");
}

#[test]
fn collector_keeps_every_list() {
    let mut c = ReleaseCollector::new(3);
    assert!(!c.is_complete());
    c.receive(2, vec![info("c", "c.tar.gz", "u2")]);
    c.receive(0, vec![info("a", "a.tar.gz", "u0"), info("a2", "a2.tar.gz", "u0b")]);
    assert!(!c.is_complete());
    c.receive(1, vec![]);
    assert!(c.is_complete());
    let lists = c.into_releases();
    let versions: Vec<Vec<String>> = lists
        .iter()
        .map(|l| l.iter().map(|r| r.version.clone()).collect())
        .collect();
    assert_eq!(
        versions,
        vec![
            vec!["a".to_string(), "a2".to_string()],
            vec![],
            vec!["c".to_string()],
        ]
    );
}

#[test]
fn collector_for_no_tools_is_complete() {
    assert!(ReleaseCollector::new(0).is_complete());
}

#[test]
fn every_ge_proton_directory_has_one_owner() {
    let tools = ProtonManager::available_tools();
    for name in ["GE-Proton9-20", "GE-Proton9-20-rtsp", "GE-Proton-RtSp", "GE-ProtonÄ-rtsp", "GE-Proton"] {
        assert!(tools[0].matches_installed(name) != tools[2].matches_installed(name), "{}", name);
    }
    let entries = vec![
        DirEntry { path: "/s/GE-Proton9-20".into(), is_dir: true },
        DirEntry { path: "/s/GE-Proton9-20-RTSP".into(), is_dir: true },
    ];
    let ge = ProtonManager::list_installed(&tools[0], &entries);
    let rtsp = ProtonManager::list_installed(&tools[2], &entries);
    assert_eq!(ge.len(), 1);
    assert_eq!(rtsp.len(), 1);
    assert_ne!(ge[0].path, rtsp[0].path);
}

#[test]
fn entry_names_from_paths() {
    assert_eq!(entry_name_of("/s/compatibilitytools.d/GE-Proton9-20"), "GE-Proton9-20");
    assert_eq!(entry_name_of("GE-Proton9-20"), "GE-Proton9-20");
    assert_eq!(entry_name_of("/s/"), "");
    assert_eq!(entry_name_of(""), "");
}

#[test]
fn entry_name_is_taken_from_the_path() {
    let tools = ProtonManager::available_tools();
    let entries = vec![DirEntry { path: "/GE-Proton-x/dxvk-2.6".into(), is_dir: true }];
    assert!(ProtonManager::list_installed(&tools[0], &entries).is_empty());
    let dxvk = ProtonManager::list_installed(&tools[3], &entries);
    assert_eq!(dxvk.len(), 1);
    assert_eq!(dxvk[0].version, "dxvk-2.6");
    assert_eq!(dxvk[0].path, "/GE-Proton-x/dxvk-2.6");
}

#[test]
fn releases_read_from_github_response() {
    let tools = ProtonManager::available_tools();
    let body = r#"[
        {"tag_name": "GE-Proton9-21", "body": "notes 21", "assets": [
            {"name": "GE-Proton9-21.sha512sum", "browser_download_url": "https://x/s"},
            {"name": "GE-Proton9-21.tar.gz", "browser_download_url": "https://x/21"}
        ]},
        {"tag_name": "GE-Proton9-20", "body": null},
        {"tag_name": "GE-Proton9-19", "assets": [
            {"name": "GE-Proton9-19.tar.gz", "browser_download_url": "https://x/19"}
        ]}
    ]"#;
    let out = ProtonManager::releases_from_response(&tools[0], body);
    assert_eq!(out.len(), 2);
    assert_eq!(out[0].version, "GE-Proton-9-21");
    assert_eq!(out[0].asset_name, "GE-Proton9-21.tar.gz");
    assert_eq!(out[0].download_url, "https://x/21");
    assert_eq!(out[0].body, "notes 21");
    assert_eq!(out[1].version, "GE-Proton-9-19");
    assert_eq!(out[1].download_url, "https://x/19");
    assert_eq!(out[1].body, "");
}

#[test]
fn unreadable_response_offers_nothing() {
    let tools = ProtonManager::available_tools();
    assert!(ProtonManager::releases_from_response(&tools[0], "{\"message\":\"API rate limit exceeded\"}").is_empty());
    assert!(ProtonManager::releases_from_response(&tools[0], "not json").is_empty());
    assert!(ProtonManager::releases_from_response(&tools[0], "").is_empty());
    assert!(ProtonManager::releases_from_response(&tools[0], "[]").is_empty());
}
