use std::io::Cursor;
use std::io::Read;
use std::io::Write;
use zip::write::SimpleFileOptions;
use zip_extract::engine::Engine;
use zip_extract::engine::EntryEvent;
use zip_extract::engine::FileOutcome;
use zip_extract::plan::plan_entry;
use zip_extract::plan::EntryPlan;

fn build_archive() -> Vec<u8> {
    let mut writer = zip::ZipWriter::new(Cursor::new(Vec::new()));
    let options = SimpleFileOptions::default();
    writer.add_directory("dir1/", options).unwrap();
    writer.start_file("dir1/file.txt", options).unwrap();
    writer.write_all(b"hello").unwrap();
    writer.finish().unwrap().into_inner()
}

#[test]
fn real_zip_entries_drive_the_planner_and_engine() {
    let bytes = build_archive();
    let mut archive = zip::ZipArchive::new(Cursor::new(bytes)).unwrap();
    assert_eq!(archive.len(), 2);

    let mut engine = Engine::new(archive.len());
    let mut seen_dir = false;
    let mut seen_file = false;

    for i in 0..archive.len() {
        let mut zip_file = archive.by_index(i).unwrap();
        let raw_name = zip_file.name().to_string();
        let enclosed: Option<String> =
            zip_file.enclosed_name().and_then(|p| p.to_str().map(String::from));

        let event = match plan_entry("dest", &raw_name, enclosed.as_deref()) {
            EntryPlan::Skip => EntryEvent::Skipped,
            EntryPlan::Reject { name } => EntryEvent::Rejected { name },
            EntryPlan::MakeDir { dest } => {
                seen_dir = true;
                assert_eq!(dest, "dest/dir1");
                EntryEvent::DirMade { path: dest, failure: None }
            }
            EntryPlan::WriteFile { dest, parent } => {
                seen_file = true;
                assert_eq!(dest, "dest/dir1/file.txt");
                assert_eq!(parent, "dest/dir1");
                let mut content = Vec::new();
                zip_file.read_to_end(&mut content).unwrap();
                assert_eq!(content, b"hello");
                EntryEvent::FileDone {
                    path: dest,
                    parent_failure: None,
                    outcome: FileOutcome::Written { bytes: content.len() as u64 },
                }
            }
        };
        engine.step(event);
    }

    assert!(seen_dir);
    assert!(seen_file);
    assert_eq!(engine.total, 5);
    assert!(engine.errors.is_empty());
}

#[test]
fn zip_decoder_withholds_traversal_names_and_planner_skips_them() {
    // A name the decoder refuses to give back reaches the planner as `None`
    // and is skipped; the planner's own rejection covers a decoder that is
    // more lenient.
    let plan = plan_entry("dest", "../escape.txt", None);
    assert!(matches!(plan, EntryPlan::Skip));
}
