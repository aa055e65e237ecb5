use gaea::data::adapters::pack_info::{PackInfoAdapter, PackInfoDeserializationError, PackInfoSerializationInput};
use gaea::data::adapters::project::{ProjectAdapter, ProjectDeserializeError, SerializedProjectData};
use gaea::data::adapters::resource_location::ResourceLocationAdapter;
use gaea::data::domain::pack_info::{PackDescription, PackInfo as DomainPackInfo};
use gaea::data::domain::project::{PackInfoProjectData, Project, ProjectVersion};
use gaea::data::domain::resource::ResourceLocation as DomainResourceLocation;
use gaea::data::serialization::pack_info::{PackData, PackFormat as SupportedFormats, PackInfo};
use gaea::data::serialization::project::{Project as SerializedProject, SerializedProjectType};
use gaea::data::serialization::{ResourceLocation, TextComponent};
use gaea::mc_version::MinecraftVersion;

fn pack_info(description: &str, format: u32, supported: Option<SupportedFormats>) -> PackInfo {
    PackInfo::new(PackData::new(TextComponent::String(description.to_string()), format, supported), None, None, None, None)
}

fn data_pack(format: u32) -> SerializedProject {
    SerializedProject::with_name("Test Data Pack".to_string(), SerializedProjectType::Data, pack_info("Test data description", format, None))
}

fn resource_pack(format: u32) -> SerializedProject {
    SerializedProject::with_name(
        "Test Resource Pack".to_string(),
        SerializedProjectType::Resource,
        pack_info("Test resource description", format, None),
    )
}

fn description_of(info: &DomainPackInfo) -> String {
    info.description.to_string()
}

#[test]
fn test_deser_data_pack() {
    let project = ProjectAdapter::deserialize(&SerializedProjectData::Data(data_pack(48))).unwrap();
    assert_eq!(project.name, "Test Data Pack");
    assert_eq!(project.project_version.get_base_data_mc_version(), MinecraftVersion::new(21, 0));
    match &project.pack_info {
        PackInfoProjectData::Data(info) => assert_eq!(description_of(info), "Test data description"),
        _ => panic!("Expected data pack info"),
    }
}

#[test]
fn test_deser_resource_pack() {
    let project = ProjectAdapter::deserialize(&SerializedProjectData::Resource(resource_pack(34))).unwrap();
    assert_eq!(project.name, "Test Resource Pack");
    assert_eq!(project.project_version.get_base_data_mc_version(), MinecraftVersion::new(21, 0));
    match &project.pack_info {
        PackInfoProjectData::Resource(info) => assert_eq!(description_of(info), "Test resource description"),
        _ => panic!("Expected resource pack info"),
    }
}

#[test]
fn test_deser_pack_invalid_format() {
    let result = ProjectAdapter::deserialize(&SerializedProjectData::Data(data_pack(1)));
    assert!(matches!(result, Err(ProjectDeserializeError::InvalidVersion(m)) if m == "Invalid data format 1"));
}

#[test]
fn test_deser_pack_mismatched_types() {
    let serialized = SerializedProjectData::Data(SerializedProject::with_name(
        "Test Data Pack".to_string(),
        SerializedProjectType::Resource,
        pack_info("Test resource description", 32, None),
    ));
    let result = ProjectAdapter::deserialize(&serialized);
    assert!(matches!(result, Err(ProjectDeserializeError::MismatchedType(m)) if m == "Expected data zip, got Resource"));
}

#[test]
fn test_deser_combined_pack() {
    let serialized = SerializedProjectData::Combined { data_project: data_pack(48), resource_project: resource_pack(34) };
    let project = ProjectAdapter::deserialize(&serialized).unwrap();
    assert_eq!(project.name, "Test Data Pack");
    assert_eq!(project.project_version.get_base_data_mc_version(), MinecraftVersion::new(21, 0));
    match &project.pack_info {
        PackInfoProjectData::Combined { data_info, resource_info } => {
            assert_eq!(description_of(data_info), "Test data description");
            assert_eq!(description_of(resource_info), "Test resource description");
        },
        _ => panic!("Expected combined pack info"),
    }
}

#[test]
fn test_deser_combined_pack_invalid_formats() {
    let serialized = SerializedProjectData::Combined { data_project: data_pack(4), resource_project: resource_pack(34) };
    let result = ProjectAdapter::deserialize(&serialized);
    assert!(matches!(
        result,
        Err(ProjectDeserializeError::InvalidVersion(m))
            if m == "No common mc versions between data and resource packs! Data format: 4, Resource format: 34"
    ));
}

#[test]
fn test_deser_combined_pack_mismatched_types() {
    let serialized = SerializedProjectData::Combined { data_project: resource_pack(34), resource_project: data_pack(48) };
    let result = ProjectAdapter::deserialize(&serialized);
    assert!(matches!(
        result,
        Err(ProjectDeserializeError::MismatchedType(m)) if m == "Expected data and resource zips, got data: Resource, resource: Data"
    ));
}

#[test]
fn combined_pack_takes_the_oldest_shared_release() {
    // Data format 26 covers 1.20.3 and 1.20.4; resource format 22 covers the same.
    let serialized = SerializedProjectData::Combined { data_project: data_pack(26), resource_project: resource_pack(22) };
    let project = ProjectAdapter::deserialize(&serialized).unwrap();
    assert_eq!(project.project_version.version, MinecraftVersion::new(20, 3));
    // Data format 8 covers 1.18 and 1.18.1, resource format 8 covers 1.18 to 1.18.2.
    let serialized = SerializedProjectData::Combined { data_project: data_pack(9), resource_project: resource_pack(8) };
    let project = ProjectAdapter::deserialize(&serialized).unwrap();
    assert_eq!(project.project_version.version, MinecraftVersion::new(18, 2));
}

#[test]
fn serialize_combined_project_writes_both_formats() {
    let project = Project::new(
        "both".to_string(),
        ProjectVersion::from_version(MinecraftVersion::new(19, 3)),
        PackInfoProjectData::Combined {
            data_info: DomainPackInfo::new(PackDescription::new("d".to_string()), None),
            resource_info: DomainPackInfo::new(PackDescription::new("r".to_string()), None),
        },
    );
    match ProjectAdapter::serialize(&project).unwrap() {
        SerializedProjectData::Combined { data_project, resource_project } => {
            assert_eq!(data_project.pack_info.pack.pack_format, 10);
            assert_eq!(resource_project.pack_info.pack.pack_format, 12);
            assert_eq!(data_project.project_type, SerializedProjectType::Data);
            assert_eq!(resource_project.name, "");
        },
        _ => panic!("Expected combined packs"),
    }
}

#[test]
fn pack_info_adapter_reads_description_and_format() {
    let input = PackInfoAdapter::deserialize(&pack_info("hello", 48, None)).unwrap();
    assert_eq!(input, PackInfoSerializationInput::new(PackDescription::new("hello".to_string()), 48));
    let input = PackInfoAdapter::deserialize(&pack_info("hello", 48, Some(SupportedFormats::Range(40, 50)))).unwrap();
    assert_eq!(input.format, 48);
}

#[test]
fn pack_info_adapter_refuses_unsupported_formats() {
    let r = PackInfoAdapter::deserialize(&pack_info("x", 48, Some(SupportedFormats::Single(41))));
    assert_eq!(r, Err(PackInfoDeserializationError::InvalidPackFormat(48, SupportedFormats::Single(41))));
    let r = PackInfoAdapter::deserialize(&pack_info("x", 48, Some(SupportedFormats::Range(10, 20))));
    assert!(matches!(r, Err(PackInfoDeserializationError::InvalidPackFormat(48, _))));
    let r = PackInfoAdapter::deserialize(&pack_info(
        "x",
        48,
        Some(SupportedFormats::Object { min_inclusive: 49, max_inclusive: 60 }),
    ));
    assert!(matches!(r, Err(PackInfoDeserializationError::InvalidPackFormat(48, _))));
}

#[test]
fn pack_info_adapter_round_trip() {
    let input = PackInfoSerializationInput::new(PackDescription::new("round".to_string()), 15);
    let written = PackInfoAdapter::serialize(&input).unwrap();
    assert_eq!(written.pack.pack_format, 15);
    assert_eq!(PackInfoAdapter::deserialize(&written).unwrap(), input);
}

#[test]
fn test_serialized_to_domain() {
    let loc = ResourceLocationAdapter::deserialize(&ResourceLocation::new("minecraft:stone")).unwrap();
    assert_eq!(loc.namespace, "minecraft");
    assert_eq!(loc.value, "stone");
}

#[test]
fn test_serialized_to_domain_no_namespace() {
    let loc = ResourceLocationAdapter::deserialize(&ResourceLocation::new("dirt")).unwrap();
    assert_eq!(loc.namespace, "minecraft");
    assert_eq!(loc.value, "dirt");
}

#[test]
fn test_serialized_to_domain_invalid() {
    let r = ResourceLocationAdapter::deserialize(&ResourceLocation::new("Not Valid!"));
    assert_eq!(r.unwrap_err().0, "Invalid resource location: Not Valid!");
}

#[test]
fn test_domain_to_serialized() {
    let loc = DomainResourceLocation::new("gaea".to_string(), "items/sword".to_string()).unwrap();
    let text = ResourceLocationAdapter::serialize(&loc).unwrap();
    assert_eq!(text.to_string(), "gaea:items/sword");
}

#[test]
fn resource_location_grammar() {
    assert!(DomainResourceLocation::new("UPPER".to_string(), "x".to_string()).is_err());
    assert!(DomainResourceLocation::new("ns".to_string(), "a.b-c/d_e".to_string()).is_err());
    assert!(DomainResourceLocation::new("ns".to_string(), "a.b-c/d".to_string()).is_ok());
    let loc = DomainResourceLocation::from_str("custom:path/to.thing").unwrap();
    assert_eq!(loc.to_string(), "custom:path/to.thing");
}
