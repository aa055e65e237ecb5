use std::io::{Cursor, Write};

use gaea::data::serialization::archive::{read_pack, write_pack};
use gaea::data::serialization::project::{SerializedProjectError, SerializedProjectType};
use zip::write::SimpleFileOptions;
use zip::ZipWriter;

fn archive(dirs: &[&str], files: &[(&str, &str)]) -> Vec<u8> {
    let mut writer = ZipWriter::new(Cursor::new(Vec::new()));
    for d in dirs {
        writer.add_directory(*d, SimpleFileOptions::default()).unwrap();
    }
    for (name, content) in files {
        writer.start_file(*name, SimpleFileOptions::default()).unwrap();
        writer.write_all(content.as_bytes()).unwrap();
    }
    writer.finish().unwrap().into_inner()
}

const META: &str = "{\"pack\":{\"description\":\"Test Pack\",\"pack_format\":48}}";

#[test]
fn test_zip_pack_info() {
    let bytes = write_pack(META).unwrap();
    let pack = read_pack("written", &bytes).unwrap().unwrap();
    assert_eq!(pack.metadata, META);
    assert_eq!(pack.name, "written");
    assert!(matches!(pack.project_type, Err(SerializedProjectError::InvalidZipFile(m)) if m == "No data or assets directory found!"));
}

#[test]
fn test_extract_pack_info() {
    let bytes = archive(&["data/"], &[("pack.mcmeta", META), ("data/x.json", "{}")]);
    let pack = read_pack("my pack", &bytes).unwrap().unwrap();
    assert_eq!(pack.metadata, META);
    assert_eq!(pack.project_type.unwrap(), SerializedProjectType::Data);
}

#[test]
fn archives_with_assets_hold_resource_packs() {
    let bytes = archive(&["assets/"], &[("pack.mcmeta", META)]);
    let pack = read_pack("res", &bytes).unwrap().unwrap();
    assert_eq!(pack.project_type.unwrap(), SerializedProjectType::Resource);
    let both = archive(&["assets/", "data/"], &[("pack.mcmeta", META)]);
    assert_eq!(read_pack("both", &both).unwrap().unwrap().project_type.unwrap(), SerializedProjectType::Data);
}

#[test]
fn archives_without_metadata_or_structure() {
    let bytes = archive(&["data/"], &[("other.txt", "x")]);
    assert!(read_pack("none", &bytes).is_none());
    let broken = vec![1u8, 2, 3, 4];
    assert!(matches!(read_pack("broken", &broken), Some(Err(SerializedProjectError::Zip(_)))));
}
