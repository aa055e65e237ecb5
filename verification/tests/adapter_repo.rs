use gaea::data::adapters::pack_info::{
    PackInfoDeserializationError, PackInfoSerializationError, PackInfoSerializationInput,
};
use gaea::data::adapters::project::SerializedProjectData;
use gaea::data::domain::pack_info::PackDescription;
use gaea::data::serialization::pack_info::{PackFormat, PackInfo};
use gaea::data::serialization::project::{Project as SerializedProject, SerializedProjectType};
use gaea::data::serialization::ResourceLocation;
use gaea::repositories::adapter_repo::{
    register_default_adapters, AdapterFailure, AdapterRepoError, AdapterRepository, AdapterType,
};

#[test]
fn test_register_adapter() {
    let mut repo = AdapterRepository::new();
    assert!(!repo.has(AdapterType::PackInfo));
    repo.register(AdapterType::PackInfo);
    assert!(repo.has(AdapterType::PackInfo));
    assert!(!repo.has(AdapterType::Project));
}

#[test]
fn test_register_adapter_already_registered() {
    let mut repo = AdapterRepository::new();
    repo.register(AdapterType::Project);
    repo.register(AdapterType::Project);
    assert!(repo.has(AdapterType::Project));
}

#[test]
fn test_serialize_no_adapter_found() {
    let repo = AdapterRepository::new();
    let input = PackInfoSerializationInput::new(PackDescription::new("x".to_string()), 48);
    assert!(matches!(repo.serialize_pack_info(&input), Err(AdapterRepoError::NoAdapterFound)));
}

#[test]
fn test_deserialize_no_adapter_found() {
    let repo = AdapterRepository::new();
    assert!(matches!(repo.deserialize_pack_info(&PackInfo::default_data()), Err(AdapterRepoError::NoAdapterFound)));
}

#[test]
fn test_serialize() {
    let mut repo = AdapterRepository::new();
    register_default_adapters(&mut repo);
    let input = PackInfoSerializationInput::new(PackDescription::new("x".to_string()), 48);
    let info = repo.serialize_pack_info(&input).unwrap();
    assert_eq!(info.pack.pack_format, 48);
}

#[test]
fn test_deserialize_error() {
    let mut repo = AdapterRepository::new();
    register_default_adapters(&mut repo);
    let wrong = SerializedProjectData::Data(SerializedProject::new(SerializedProjectType::Resource, PackInfo::default_resource()));
    assert!(matches!(
        repo.deserialize_project(&wrong),
        Err(AdapterRepoError::DeserializationError(AdapterFailure::ProjectDeserialization(_)))
    ));
    assert!(matches!(
        repo.deserialize_resource_location(&ResourceLocation::new("Bad Location")),
        Err(AdapterRepoError::DeserializationError(AdapterFailure::ResourceLocation(_)))
    ));
    let loc = repo.deserialize_resource_location(&ResourceLocation::new("stone")).unwrap();
    assert_eq!(repo.serialize_resource_location(&loc).unwrap().to_string(), "minecraft:stone");
}

#[test]
fn adapter_errors_are_reported_as_their_failures() {
    let e = AdapterRepoError::serialization_error(PackInfoSerializationError::UnknownVersionTypeInSerialization);
    assert!(matches!(
        e,
        AdapterRepoError::SerializationError(AdapterFailure::PackInfoSerialization(
            PackInfoSerializationError::UnknownVersionTypeInSerialization
        ))
    ));
}

#[test]
fn registry_errors_read_as_their_messages() {
    let e = AdapterRepoError::serialization_error(PackInfoSerializationError::UnknownVersionTypeInSerialization);
    assert_eq!(e.to_string(), "Serialization error: Unknown version type is not allowed in serialization!");
    assert_eq!(AdapterRepoError::NoAdapterFound.to_string(), "No adapter found for conversion");
    let e = AdapterRepoError::deserialization_error(PackInfoDeserializationError::InvalidPackFormat(9, PackFormat::Range(4, 6)));
    assert_eq!(e.to_string(), "Deserialization error: Pack format 9 is not within supported formats Range(4, 6)!");
    let e = AdapterRepoError::deserialization_error(PackInfoDeserializationError::NoValidFormatFound(200));
    assert_eq!(e.to_string(), "Deserialization error: No valid format found for pack format 200!");
    let f = AdapterFailure::PackInfoDeserialization(PackInfoDeserializationError::InvalidPackFormat(
        1,
        PackFormat::Object { min_inclusive: 2, max_inclusive: 3 },
    ));
    assert_eq!(f.to_string(), "Pack format 1 is not within supported formats Object { min_inclusive: 2, max_inclusive: 3 }!");
}

#[test]
fn nested_registry_errors_read_through() {
    let mut repo = AdapterRepository::new();
    register_default_adapters(&mut repo);
    let wrong = SerializedProjectData::Data(SerializedProject::new(SerializedProjectType::Resource, PackInfo::default_resource()));
    let e = repo.deserialize_project(&wrong).unwrap_err();
    assert_eq!(e.to_string(), "Deserialization error: Mismatched project type! Expected data zip, got Resource");
}

#[test]
fn projects_need_the_pack_metadata_adapter() {
    let mut repo = AdapterRepository::new();
    repo.register(AdapterType::Project);
    let data = SerializedProjectData::Data(SerializedProject::new(SerializedProjectType::Data, PackInfo::default_data()));
    let e = repo.deserialize_project(&data).unwrap_err();
    assert_eq!(e.to_string(), "Deserialization error: Error deserializing pack info! No adapter found for conversion");
    let wrong = SerializedProjectData::Data(SerializedProject::new(SerializedProjectType::Resource, PackInfo::default_resource()));
    let e = repo.deserialize_project(&wrong).unwrap_err();
    assert_eq!(e.to_string(), "Deserialization error: Mismatched project type! Expected data zip, got Resource");
    repo.register(AdapterType::PackInfo);
    assert!(repo.deserialize_project(&data).is_ok());
}
