//! Extraction planning over real archives, and the end-to-end scenarios.

use std::io::Write;
use storynode_core::archive::{extract_entries, ExtractAction};
use storynode_core::footer::embedded_archive;
use storynode_core::startup::{
    get_game_data_path, startup_step, startup_window_config, DataSource, StartupEvent,
    StartupState,
};

fn build_zip(entries: &[(&str, Option<&[u8]>)]) -> Vec<u8> {
    let opts = zip::write::SimpleFileOptions::default()
        .compression_method(zip::CompressionMethod::Stored);
    let mut w = zip::ZipWriter::new(std::io::Cursor::new(Vec::new()));
    for (name, data) in entries {
        match data {
            Some(d) => {
                w.start_file(*name, opts).unwrap();
                w.write_all(d).unwrap();
            },
            None => {
                w.add_directory(*name, opts).unwrap();
            },
        }
    }
    w.finish().unwrap().into_inner()
}

fn with_trailer(prefix: &[u8], archive: &[u8]) -> Vec<u8> {
    let mut data = prefix.to_vec();
    data.extend_from_slice(archive);
    data.extend_from_slice(&(archive.len() as u64).to_le_bytes());
    data.extend_from_slice(b"SNPK");
    data
}

fn corrupt_payload(mut archive: Vec<u8>, payload: &[u8]) -> Vec<u8> {
    // flip one byte inside the stored entry data so that reading the entry
    // fails its checksum while the central directory still parses
    let pos = archive
        .windows(payload.len())
        .position(|w| w == payload)
        .expect("payload not found");
    archive[pos] ^= 0xff;
    archive
}

const MANIFEST: &[u8] = b"{\"name\":\"Demo\",\"stages\":[],\"gameSettings\":{\"title\":\"Demo Game\",\"windowWidth\":800,\"windowHeight\":600}}";

#[test]
fn extraction_plan_follows_archive_order() {
    let archive = build_zip(&[
        ("project.json", Some(MANIFEST)),
        ("assets/", None),
        ("assets/a.txt", Some(b"hello")),
    ]);
    let plan = extract_entries(&archive).expect("plan expected");
    assert_eq!(plan.len(), 3);
    assert_eq!(
        plan[0],
        ExtractAction::WriteFile(String::from("project.json"), MANIFEST.to_vec())
    );
    assert_eq!(plan[1], ExtractAction::MakeDir(String::from("assets/")));
    assert_eq!(
        plan[2],
        ExtractAction::WriteFile(String::from("assets/a.txt"), b"hello".to_vec())
    );
}

#[test]
fn unreadable_blob_fails() {
    assert!(extract_entries(&vec![1u8, 2, 3, 4, 5]).is_err());
}

#[test]
fn corrupt_entry_fails_whole_extraction() {
    let payload = b"0123456789abcdef0123456789abcdef";
    let archive = corrupt_payload(
        build_zip(&[("project.json", Some(MANIFEST)), ("blob.bin", Some(payload))]),
        payload,
    );
    assert!(extract_entries(&archive).is_err());
}

#[test]
fn extraction_is_idempotent() {
    let archive = build_zip(&[("project.json", Some(MANIFEST)), ("assets/", None)]);
    let first = extract_entries(&archive).expect("plan expected");
    let second = extract_entries(&archive).expect("plan expected");
    assert_eq!(first, second);
}

#[test]
fn scenario_no_trailer_falls_back_to_current_dir() {
    // a plain binary: no embedded data
    let exe = vec![0u8; 64];
    assert_eq!(embedded_archive(&exe), None);
    // with a manifest beside it, the current directory serves
    assert_eq!(get_game_data_path(&exe, true), Ok(DataSource::CurrentDir));
    // without one, the query fails with the explicit error
    assert_eq!(
        get_game_data_path(&exe, false),
        Err(String::from("No game data found"))
    );
}

#[test]
fn scenario_embedded_archive_configures_window() {
    let archive = build_zip(&[("project.json", Some(MANIFEST))]);
    let exe = with_trailer(&[7u8; 40], &archive);

    // the query path extracts and reports the working directory
    let source = get_game_data_path(&exe, false).expect("data source expected");
    let plan = match source {
        DataSource::WorkingDir(plan) => plan,
        DataSource::CurrentDir => panic!("expected the working directory"),
    };
    // the manifest text is what the plan writes for project.json
    let manifest_text = plan
        .iter()
        .find_map(|a| match a {
            ExtractAction::WriteFile(p, d) if p == "project.json" => {
                Some(String::from_utf8(d.clone()).unwrap())
            },
            _ => None,
        })
        .expect("project.json expected in the plan");

    // startup then configures the window from it
    let cfg = startup_window_config(&Some(manifest_text));
    assert_eq!(cfg.title, "Demo Game");
    assert_eq!(cfg.width, 800);
    assert_eq!(cfg.height, 600);
}

#[test]
fn scenario_corrupt_archive_defaults_silently() {
    let payload = b"0123456789abcdef0123456789abcdef";
    let archive = corrupt_payload(
        build_zip(&[("project.json", Some(MANIFEST)), ("blob.bin", Some(payload))]),
        payload,
    );
    let exe = with_trailer(&[], &archive);

    // the explicit query path surfaces the extraction error
    assert!(get_game_data_path(&exe, false).is_err());

    // startup swallows it: the configurator reaches the defaults
    let state = startup_step(StartupState::Unresolved, StartupEvent::ExtractionFailed);
    match state {
        StartupState::Configured(cfg) => {
            assert_eq!(cfg.title, "StoryNode Player");
            assert_eq!(cfg.width, 1280);
            assert_eq!(cfg.height, 720);
        },
        _ => panic!("expected a configured state"),
    }
}

#[test]
fn startup_walks_the_stages() {
    let state = startup_step(StartupState::Unresolved, StartupEvent::ExtractionDone);
    assert!(matches!(state, StartupState::Extracted));
    let manifest = String::from_utf8(MANIFEST.to_vec()).unwrap();
    let state = startup_step(state, StartupEvent::ManifestRead(Some(manifest)));
    assert!(matches!(state, StartupState::SettingsLoaded(Some(_))));
    let state = startup_step(state, StartupEvent::Configure);
    match state {
        StartupState::Configured(cfg) => {
            assert_eq!(cfg.title, "Demo Game");
            assert_eq!(cfg.width, 800);
            assert_eq!(cfg.height, 600);
        },
        _ => panic!("expected a configured state"),
    }
}

#[test]
fn configured_state_never_changes() {
    let state = startup_step(StartupState::Unresolved, StartupEvent::ArchiveAbsent);
    let state = startup_step(state, StartupEvent::ExtractionDone);
    match state {
        StartupState::Configured(cfg) => {
            assert_eq!(cfg.title, "StoryNode Player");
            assert_eq!(cfg.width, 1280);
            assert_eq!(cfg.height, 720);
        },
        _ => panic!("expected a configured state"),
    }
}
