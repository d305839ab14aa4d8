use json_schema::naming::{reference_stem, reference_target};

#[test]
fn target_of_a_fragment_reference() {
    assert_eq!(reference_target("#/definitions/house_pet"), "HousePet");
}

#[test]
fn target_without_any_slash_is_the_whole_text() {
    assert_eq!(reference_target("house_pet"), "HousePet");
}

#[test]
fn target_stops_at_the_first_dot_of_the_last_segment() {
    assert_eq!(reference_target("common.v1/pet_owner.schema.json"), "PetOwner");
}

#[test]
fn target_ignores_dots_in_earlier_segments() {
    assert_eq!(reference_target("../shared.d/defs.json#/definitions/animal"), "Animal");
}

#[test]
fn target_behind_a_trailing_slash_is_empty() {
    assert_eq!(reference_target("#/definitions/"), "");
}

#[test]
fn target_of_a_segment_that_starts_with_a_dot_is_empty() {
    assert_eq!(reference_target("#/definitions/.hidden"), "");
}

#[test]
fn target_of_the_empty_reference_is_empty() {
    assert_eq!(reference_target(""), "");
}

#[test]
fn target_counts_characters_not_bytes() {
    assert_eq!(reference_target("défs/über_straße.json"), "überStraße");
}

#[test]
fn target_is_in_type_name_casing() {
    assert_eq!(reference_target("#/definitions/petOwner"), "PetOwner");
    assert_eq!(reference_target("#/definitions/pet-owner"), "PetOwner");
    assert_eq!(reference_target("#/definitions/PET_OWNER"), "PetOwner");
}

#[test]
fn stem_is_the_last_segment_before_its_first_dot() {
    assert_eq!(reference_stem("#/definitions/house_pet"), "house_pet");
    assert_eq!(reference_stem("common.v1/pet_owner.schema.json"), "pet_owner");
    assert_eq!(reference_stem("house_pet"), "house_pet");
    assert_eq!(reference_stem("a/b/"), "");
    assert_eq!(reference_stem("a/.b"), "");
    assert_eq!(reference_stem("."), "");
    assert_eq!(reference_stem("/"), "");
    assert_eq!(reference_stem(""), "");
}

#[test]
fn stem_keeps_the_spelling_of_the_reference() {
    assert_eq!(reference_stem("défs/über_straße.json"), "über_straße");
    assert_eq!(reference_stem("#/definitions/PetOwner"), "PetOwner");
}
