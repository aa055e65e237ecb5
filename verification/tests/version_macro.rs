use gaea::version_macro::{SemanticVersion, VersionSetElement};

fn v(major: u8, minor: u8, patch: u8) -> SemanticVersion {
    SemanticVersion { major, minor, patch }
}

#[test]
fn test_version_set_element_expand() {
    let range = VersionSetElement::Range(v(1, 18, 0), v(1, 18, 2));
    let expanded = range.expand().unwrap();
    let expected = vec![v(1, 18, 0), v(1, 18, 1), v(1, 18, 2)];
    assert_eq!(expanded, expected);
}

#[test]
fn test_version_set_element_expand_single() {
    let range = VersionSetElement::Single(v(1, 18, 2));
    let expanded = range.expand().unwrap();
    let expected = vec![v(1, 18, 2)];
    assert_eq!(expanded, expected);
}

#[test]
fn test_version_set_element_expand_out_of_order_range() {
    let range = VersionSetElement::Range(v(1, 18, 2), v(1, 18, 0));
    let result = range.expand();
    assert!(result.is_err());
}

#[test]
fn test_version_set_element_expand_non_matching_versions() {
    let range = VersionSetElement::Range(v(1, 17, 1), v(1, 18, 2));
    let result = range.expand();
    assert!(result.is_err());
}

use gaea::version_macro::{FormatList, PackFormat, VersionSet};

#[test]
fn test_semantic_version_parsing() {
    let version = SemanticVersion::parse("1.18.2").unwrap();
    assert_eq!(version, v(1, 18, 2));
}

#[test]
fn test_semantic_version_parsing_no_patch() {
    let version = SemanticVersion::parse("1.18").unwrap();
    assert_eq!(version, v(1, 18, 0));
}

#[test]
fn test_semantic_version_parsing_invalid_no_dots() {
    assert!(SemanticVersion::parse("1").is_err());
}

#[test]
fn test_semantic_version_parsing_invalid_non_numeric() {
    assert!(SemanticVersion::parse("ab.cd.ef").is_err());
}

#[test]
fn test_version_set_element_parsing() {
    let version = VersionSetElement::parse("1.18.2").unwrap();
    assert_eq!(version, VersionSetElement::Single(v(1, 18, 2)));
}

#[test]
fn test_version_set_element_parsing_range() {
    let version = VersionSetElement::parse("1.18..1.18.2").unwrap();
    assert_eq!(version, VersionSetElement::Range(v(1, 18, 0), v(1, 18, 2)));
}

#[test]
fn test_version_set_element_parsing_range_invalid() {
    assert!(VersionSetElement::parse("1.18..").is_err());
    assert!(VersionSetElement::parse("..1.18").is_err());
}

#[test]
fn test_version_set_parsing_single() {
    let version = VersionSet::parse("1.18.2").unwrap();
    let expected = VersionSetElement::Single(v(1, 18, 2));
    assert!(matches!(version, VersionSet::Element(x) if x == expected));
}

#[test]
fn test_version_set_parsing_single_range() {
    let version = VersionSet::parse("1.18..1.18.2").unwrap();
    let expected = VersionSetElement::Range(v(1, 18, 0), v(1, 18, 2));
    assert!(matches!(version, VersionSet::Element(x) if x == expected));
}

#[test]
fn test_version_set_parsing_list() {
    let version = VersionSet::parse("[1.18, 1.18.1, 1.18.2]").unwrap();
    let expected = vec![
        VersionSetElement::Single(v(1, 18, 0)),
        VersionSetElement::Single(v(1, 18, 1)),
        VersionSetElement::Single(v(1, 18, 2)),
    ];
    assert!(matches!(version, VersionSet::List(x) if x == expected));
}

#[test]
fn test_version_set_parsing_list_with_range() {
    let version = VersionSet::parse("[1.18, 1.18.1..1.18.2]").unwrap();
    let expected = vec![
        VersionSetElement::Single(v(1, 18, 0)),
        VersionSetElement::Range(v(1, 18, 1), v(1, 18, 2)),
    ];
    assert!(matches!(version, VersionSet::List(x) if x == expected));
}

#[test]
fn test_version_set_parsing_invalid() {
    assert!(VersionSet::parse("[1.18,,, 1.18.1..1.18.2]").is_err());
}

#[test]
fn version_set_expand() {
    let version = VersionSet::parse("[1.18, 1.18.1..1.18.2]").unwrap();
    let expanded = version.expand().unwrap();
    assert_eq!(expanded, vec![v(1, 18, 0), v(1, 18, 1), v(1, 18, 2)]);
}

#[test]
fn version_set_expand_no_ranges() {
    let version = VersionSet::parse("[1.18, 1.18.1, 1.18.2]").unwrap();
    let expanded = version.expand().unwrap();
    assert_eq!(expanded, vec![v(1, 18, 0), v(1, 18, 1), v(1, 18, 2)]);
}

#[test]
fn version_set_expand_invalid() {
    let version = VersionSet::parse("[1.18.2..1.18]").unwrap();
    assert!(version.expand().is_err());
}

#[test]
fn test_pack_format_parsing_single_version() {
    let format = PackFormat::parse("(8, 1.18)").unwrap();
    assert_eq!(format, PackFormat { format_id: 8, versions: vec![v(1, 18, 0)] });
}

#[test]
fn test_pack_format_parsing_single_range() {
    let format = PackFormat::parse("(8, 1.18..1.18.2)").unwrap();
    assert_eq!(format, PackFormat { format_id: 8, versions: vec![v(1, 18, 0), v(1, 18, 1), v(1, 18, 2)] });
}

#[test]
fn test_pack_format_parsing_list() {
    let format = PackFormat::parse("(8, [1.18, 1.18.1, 1.18.2])").unwrap();
    assert_eq!(format, PackFormat { format_id: 8, versions: vec![v(1, 18, 0), v(1, 18, 1), v(1, 18, 2)] });
}

#[test]
fn test_pack_format_parsing_non_numeric_format_id() {
    assert!(PackFormat::parse("(a, 1.18)").is_err());
}

#[test]
fn test_pack_format_parsing_missing_versions() {
    assert!(PackFormat::parse("(8,)").is_err());
}

#[test]
fn test_pack_format_parsing_missing_comma() {
    assert!(PackFormat::parse("(8 1.18)").is_err());
}

#[test]
fn test_pack_format_parsing_non_tuple() {
    assert!(PackFormat::parse("8, 1.18").is_err());
}

#[test]
fn test_format_list_parsing() {
    let text = "data = [\n    (8, [1.18, 1.18.1]),\n    (9, 1.18.2)\n],\nresource = [\n    (8, 1.18..1.18.2)\n]";
    let format_list = FormatList::parse(text).unwrap();
    let expected = FormatList {
        data_formats: vec![
            PackFormat { format_id: 8, versions: vec![v(1, 18, 0), v(1, 18, 1)] },
            PackFormat { format_id: 9, versions: vec![v(1, 18, 2)] },
        ],
        resource_packs: vec![PackFormat { format_id: 8, versions: vec![v(1, 18, 0), v(1, 18, 1), v(1, 18, 2)] }],
        mc_versions: vec![v(1, 18, 0), v(1, 18, 1), v(1, 18, 2)],
    };
    assert_eq!(format_list, expected);
}

#[test]
fn test_format_list_parsing_missing_comma() {
    let text = "data = [(8, [1.18, 1.18.1]), (9, 1.18.2)]\nresource = [(8, 1.18..1.18.2)]";
    assert!(FormatList::parse(text).is_err());
}

#[test]
fn test_format_list_parsing_missing_data() {
    assert!(FormatList::parse("resource = [(8, 1.18..1.18.2)]").is_err());
}

#[test]
fn test_format_list_parsing_missing_resource() {
    assert!(FormatList::parse("data = [(8, [1.18, 1.18.1]), (9, 1.18.2)]").is_err());
}

#[test]
fn test_format_list_parsing_missing_equals() {
    let text = "data [(8, [1.18, 1.18.1]), (9, 1.18.2)], resource [(8, 1.18..1.18.2)]";
    assert!(FormatList::parse(text).is_err());
}

#[test]
fn test_format_list_parsing_unbraketed() {
    let text = "data = (8, [1.18, 1.18.1]), (9, 1.18.2), resource = (8, 1.18..1.18.2)";
    assert!(FormatList::parse(text).is_err());
}

#[test]
fn format_list_with_trailing_commas_and_empty_lists() {
    let list = FormatList::parse("data = [(4, [1.13, 1.13.1,],),], resource = []");
    assert!(list.is_err());
    let list = FormatList::parse("data = [(4, [1.13, 1.13.1,]),], resource = []").unwrap();
    assert_eq!(list.data_formats.len(), 1);
    assert_eq!(list.resource_packs.len(), 0);
    assert_eq!(list.mc_versions, vec![v(1, 13, 0), v(1, 13, 1)]);
}

#[test]
fn format_list_refuses_ranges_that_do_not_expand() {
    assert!(FormatList::parse("data = [(8, 1.18.2..1.18)], resource = []").is_err());
    assert!(FormatList::parse("data = [(8, 1.17..1.18.2)], resource = []").is_err());
}

#[test]
fn format_list_sorts_and_merges_releases() {
    let list = FormatList::parse("data = [(9, 1.18.2), (8, 1.18)], resource = [(8, [1.18.1, 1.18])]").unwrap();
    assert_eq!(list.mc_versions, vec![v(1, 18, 0), v(1, 18, 1), v(1, 18, 2)]);
}

#[test]
fn expand_error_messages() {
    let e = VersionSetElement::Range(v(1, 18, 2), v(1, 18, 0)).expand().unwrap_err();
    assert!(e.to_string().contains("End version must be greater than start version"));
    let e = VersionSetElement::Range(v(1, 17, 1), v(1, 18, 2)).expand().unwrap_err();
    assert!(e.to_string().contains("Start and end versions must have the same major and minor versions"));
}

#[test]
fn release_texts_and_constant_names() {
    assert_eq!(v(1, 18, 0).text(), "1.18");
    assert_eq!(v(1, 18, 2).text(), "1.18.2");
    assert_eq!(v(1, 18, 0).constant_name(), "V1_18");
    assert_eq!(v(1, 18, 2).constant_name(), "V1_18_2");
    let f = PackFormat { format_id: 8, versions: vec![v(1, 18, 0)] };
    assert_eq!(f.constant_name(true), "D8");
    assert_eq!(f.constant_name(false), "R8");
    assert_eq!(SemanticVersion::parse(&v(1, 21, 7).text()).unwrap(), v(1, 21, 7));
}
