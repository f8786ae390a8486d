use std::collections::HashSet;
use rust_exercises::artifact::{kind_step, Artifact, ArtifactKind, ArtifactKindName, KindAnswer, KindField, KindStep, Measure};
use rust_exercises::artifact_library::{create_example_library, Library, LibraryError};

#[test]
fn test_add_and_remove() {
    let mut lib: Library = create_example_library();

    assert_eq!(lib.list_ids().len(), 4);
    lib.add_artifact(Artifact::new(
        5,
        Some(3),
        "Introduction to Systems Programming",
        "Jane Doe",
        vec!["systems", "rust", "programming"],
        ArtifactKind::Book { pages: 420, isbn: "9780201109504".to_string() },
    ))
    .unwrap();

    assert!(lib.has_artifact(5));
    assert_eq!(lib.list_ids().len(), 5);
    println!(">>>> [ADD BOOK] <<<<");
    println!("{:#?}", lib);

    match lib.remove_artifact(5) {
        Ok(_) => {},
        Err(_) => panic!(),
    }

    assert_eq!(lib.list_ids().len(), 4);
    println!(">>>> [REMOVE BOOK] <<<<");
    println!("{:#?}", lib);
}

#[test]
fn test_lend_and_return() {
    let mut lib: Library = create_example_library();

    // Book -> units = 2 -> units = 1
    match lib.lend_artifact(1, 1) {
        Ok(_) => {},
        Err(_) => panic!(),
    }
    assert!(lib.has_available_artifact(1, 1));

    // Book -> units = 1 -> units = 0
    match lib.lend_artifact(1, 1) {
        Ok(_) => {},
        Err(_) => panic!(),
    }
    assert!(!lib.has_available_artifact(1, 1)); // false => unavailable

    // Book -> units = 0 -> units = 1
    match lib.return_artifact(1, 1) {
        Ok(_) => {},
        Err(_) => panic!(),
    }
    assert!(lib.has_available_artifact(1, 1));

    // Statue -> cannot lend
    println!("LOOK AT MY BALLSSSS {}", lib.has_available_artifact(3, 1));
    assert!(!lib.can_lend(3));
    assert!(lib.has_available_artifact(3, 1)); // cannot lend BUT there are units

    println!(">>>> [CHECK UNITS] <<<<");
    println!("{:#?}", lib);
}

#[test]
fn test_find_by_title() {
    let lib: Library = create_example_library();
    let expected_id: u32 = 2;
    let found_id = lib.find_artifact_by_title("Rust Audio Guide");
    assert!(found_id.is_some());

    let found_id = found_id.unwrap();
    assert_eq!(found_id.len(), 1);

    let found_id = found_id.iter().next().copied().unwrap();
    assert_eq!(found_id, expected_id);

    println!(">>>> [FOUND AUDIOBOOK BY TITLE] <<<<");
    let artifact = lib.get_artifact_clone_by_id(found_id);
    println!("{:#?}", artifact);
}

#[test]
fn test_find_by_author() {
    let mut lib: Library = create_example_library();

    lib.add_artifact(Artifact::new(
        5,
        Some(3),
        "Rust ASMR",
        "Steve Klabnik",
        vec!["systems", "rust", "programming"],
        ArtifactKind::AudioBook {
            duration_minutes: Measure::from_bits(90.0f32.to_bits()),
            narrator: "Joe".to_string(),
        },
    ))
    .unwrap();

    let found_id = lib.find_artifact_by_author("Steve Klabnik");
    assert!(found_id.is_some());

    let found_id = found_id.unwrap();
    assert_eq!(found_id.len(), 2);

    let found_id = found_id.iter().copied().collect::<Vec<u32>>();
    println!(">>>> [FOUND BOOK AND AUDIOBOOK BY AUTHOR] <<<<");
    for id in found_id {
        let artifact = lib.get_artifact_clone_by_id(id);
        println!("{:#?}", artifact);
    }
}

#[test]
fn test_find_by_keyword() {
    let mut lib: Library = create_example_library();
    lib.add_artifact(Artifact::new(
        5,
        Some(2),
        "C Primer",
        "Steve McQueen",
        vec!["c", "advanced", "programming"],
        ArtifactKind::Book { pages: 1000, isbn: "9780201109504".to_string() },
    ))
    .unwrap();

    lib.add_artifact(Artifact::new(
        6,
        Some(1),
        "Go Programming for Dummies",
        "Joe Bob",
        vec!["go", "advanced", "programming"],
        ArtifactKind::Book { pages: 1000, isbn: "9780201109504".to_string() },
    ))
    .unwrap();

    // case 1: _
    let found_id = lib.find_artifact_by_keyword("programming");
    assert!(found_id.is_ok());
    let found_id = found_id.unwrap();
    assert!(found_id.is_some());
    let found_id = found_id.unwrap().drain().collect::<Vec<u32>>();
    assert_eq!(found_id.len(), 3);
    println!(">>>> [FOUND WITH KEYWORD 'programming'] <<<<");
    for id in found_id {
        let artifact = lib.get_artifact_clone_by_id(id).unwrap();
        println!("Title: {:#?}, Kind: {:#?}", &artifact.title, &artifact.kind);
    }

    // case 2: OR
    let found_id = lib.find_artifact_by_keyword("go OR c");
    assert!(found_id.is_ok());
    let found_id = found_id.unwrap();
    assert!(found_id.is_some());
    let found_id = found_id.unwrap().drain().collect::<Vec<u32>>();
    assert_eq!(found_id.len(), 2);
    println!(">>>> [FOUND WITH KEYWORD 'go OR c'] <<<<");
    for id in found_id {
        let artifact = lib.get_artifact_clone_by_id(id).unwrap();
        println!("Title: {:#?}, Kind: {:#?}", &artifact.title, &artifact.kind);
    }

    // case 3: AND
    let found_id = lib.find_artifact_by_keyword("rust AND audio");
    assert!(found_id.is_ok());
    let found_id = found_id.unwrap();
    assert!(found_id.is_some());
    let found_id = found_id.unwrap().drain().collect::<Vec<u32>>();
    assert_eq!(found_id.len(), 1);
    println!(">>>> [FOUND WITH KEYWORD 'rust AND audio'] <<<<");
    for id in found_id {
        let artifact = lib.get_artifact_clone_by_id(id).unwrap();
        println!("Title: {:#?}, Kind: {:#?}", &artifact.title, &artifact.kind);
    }

    // case 4: OR -> AND
    let found_id = lib.find_artifact_by_keyword("rust OR go AND programming");
    assert!(found_id.is_ok());
    let found_id = found_id.unwrap();
    assert!(found_id.is_some());
    let found_id = found_id.unwrap().drain().collect::<Vec<u32>>();
    assert_eq!(found_id.len(), 2);
    println!(">>>> [FOUND WITH KEYWORD 'rust OR go AND programming'] <<<<");
    for id in found_id {
        let artifact = lib.get_artifact_clone_by_id(id).unwrap();
        println!("Title: {:#?}, Kind: {:#?}", &artifact.title, &artifact.kind);
    }
}

#[test]
fn test_find_by_kind() {
    let lib: Library = create_example_library();

    for name in [
        ArtifactKindName::Book,
        ArtifactKindName::AudioBook,
        ArtifactKindName::Statue,
        ArtifactKindName::Painting,
    ] {
        let found_id = lib.find_artifact_by_kind(name);
        assert!(found_id.is_some());
        let found_id = found_id.unwrap();
        let found_id = found_id.clone().drain().collect::<Vec<u32>>();
        assert_eq!(found_id.len(), 1);

        println!(">>>> [FOUND WITH KIND {:#?}] <<<<", name);
        let artifact = lib.get_artifact_clone_by_id(found_id[0]).unwrap();
        println!("Title: {:#?}, Kind: {:#?}", &artifact.title, &artifact.kind);
    }
}

#[test]
fn test_getters() {
    let lib: Library = create_example_library();

    // Book
    let book = lib.get_artifact_clone_by_id(1).unwrap();
    assert!(lib.get_pages(&book).is_ok());
    assert!(lib.get_isbn(&book).is_ok());
    assert!(lib.get_duration_minutes(&book).is_err());

    // AudioBook
    let audio_book = lib.get_artifact_clone_by_id(2).unwrap();
    assert!(lib.get_duration_minutes(&audio_book).is_ok());
    assert!(lib.get_narrator(&audio_book).is_ok());
    assert!(lib.get_isbn(&audio_book).is_err());

    // Statue
    let statue = lib.get_artifact_clone_by_id(3).unwrap();
    assert!(lib.get_dimensions_cm(&statue).is_ok());
    assert!(lib.get_height_cm(&statue).is_ok());
    assert!(lib.get_weight_kg(&statue).is_ok());
    assert!(lib.get_material(&statue).is_ok());
    assert!(lib.get_style(&statue).is_err());

    // Painting
    let painting = lib.get_artifact_clone_by_id(4).unwrap();
    assert!(lib.get_dimensions_cm(&painting).is_ok()); // shares this with Statue
    assert!(lib.get_style(&painting).is_ok());
    assert!(lib.get_medium(&painting).is_ok());
    assert!(lib.get_pages(&painting).is_err());
}

#[test]
fn errors_name_what_went_wrong() {
    let mut lib: Library = create_example_library();
    match lib.add_artifact(Artifact::new(
        1,
        None,
        "Again",
        "Someone",
        vec![],
        ArtifactKind::Book { pages: 1, isbn: "x".to_string() },
    )) {
        Err(LibraryError::DuplicatedId(id, mut ids)) => {
            assert_eq!(id, 1);
            ids.sort();
            assert_eq!(ids, vec![1, 2, 3, 4]);
        },
        other => panic!("{:?}", other),
    }
    match lib.remove_artifact(9) {
        Err(LibraryError::IdNotAvailable(9, _)) => {},
        other => panic!("{:?}", other),
    }
    match lib.lend_artifact(3, 1) {
        Err(LibraryError::CannotLoan(ArtifactKindName::Statue)) => {},
        other => panic!("{:?}", other),
    }
    match lib.lend_artifact(1, 3) {
        Err(LibraryError::NotEnoughUnitsAvailable(3, 2)) => {},
        other => panic!("{:?}", other),
    }
    match lib.return_artifact(4, 1) {
        Err(LibraryError::CannotLoan(ArtifactKindName::Painting)) => {},
        other => panic!("{:?}", other),
    }
    match lib.find_artifact_by_keyword("rust audio") {
        Err(LibraryError::MalformedQuery(2, 0)) => {},
        other => panic!("{:?}", other),
    }
    let book = lib.get_artifact_clone_by_id(1).unwrap();
    match lib.get_style(&book) {
        Err(LibraryError::FieldNotAvailable(field, kind)) => {
            assert_eq!(field, "style");
            assert_eq!(kind, "Book");
        },
        other => panic!("{:?}", other),
    }
    assert_eq!(lib.get_pages(&book).unwrap(), 552);
}

#[test]
fn returning_what_was_lent_restores_the_units() {
    let mut lib: Library = create_example_library();
    lib.lend_artifact(2, 1).unwrap();
    assert!(!lib.has_available_artifact(2, 1));
    lib.return_artifact(2, 1).unwrap();
    assert!(lib.has_available_artifact(2, 1));
    assert_eq!(lib.get_artifact_clone_by_id(2).unwrap().units, 1);
}

#[test]
fn removing_what_was_added_restores_the_ids() {
    let mut lib: Library = create_example_library();
    let mut before = lib.list_ids();
    before.sort();
    lib.add_artifact(Artifact::new(
        7,
        Some(1),
        "Night Watch",
        "Rembrandt",
        vec!["painting"],
        ArtifactKind::Painting {
            dimensions_cm: (Measure::from_bits(363.0f32.to_bits()), Measure::from_bits(437.0f32.to_bits())),
            style: "Baroque".to_string(),
            medium: "Oil".to_string(),
        },
    ))
    .unwrap();
    assert_eq!(lib.find_artifact_by_author("Rembrandt").unwrap().len(), 1);
    lib.remove_artifact(7).unwrap();
    let mut after = lib.list_ids();
    after.sort();
    assert_eq!(before, after);
    assert!(lib.find_artifact_by_author("Rembrandt").is_none());
}

#[test]
fn kinds_are_entered_field_by_field() {
    let mut answers: Vec<KindAnswer> = Vec::new();
    assert!(matches!(kind_step(2, &answers), KindStep::Ask(KindField::WidthCm)));
    answers.push(KindAnswer::Amount(Measure::from_bits(1.0f32.to_bits())));
    answers.push(KindAnswer::Amount(Measure::from_bits(2.0f32.to_bits())));
    assert!(matches!(kind_step(2, &answers), KindStep::Ask(KindField::HeightCm)));
    answers.push(KindAnswer::Amount(Measure::from_bits(3.0f32.to_bits())));
    answers.push(KindAnswer::Amount(Measure::from_bits(4.0f32.to_bits())));
    assert!(matches!(kind_step(2, &answers), KindStep::Ask(KindField::Material)));
    answers.push(KindAnswer::Text("Bronze".to_string()));
    match kind_step(2, &answers) {
        KindStep::Done(ArtifactKind::Statue { dimensions_cm, height_cm, weight_kg, material }) => {
            assert_eq!(f32::from_bits(dimensions_cm.1.bits), 2.0);
            assert_eq!(f32::from_bits(height_cm.bits), 3.0);
            assert_eq!(f32::from_bits(weight_kg.bits), 4.0);
            assert_eq!(material, "Bronze");
        },
        other => panic!("{:?}", other),
    }
    let book = vec![KindAnswer::Number(300), KindAnswer::Text("978".to_string())];
    assert!(matches!(kind_step(0, &book), KindStep::Done(ArtifactKind::Book { pages: 300, .. })));
    assert!(matches!(kind_step(1, &book), KindStep::Invalid));
    assert!(matches!(kind_step(3, &Vec::new()), KindStep::Ask(KindField::WidthCm)));
    assert!(matches!(kind_step(7, &Vec::new()), KindStep::Invalid));
}

#[test]
fn unknown_keywords_stand_for_no_artifact() {
    let lib: Library = create_example_library();
    assert_eq!(lib.find_artifact_by_keyword("zzz").unwrap(), Some(HashSet::new()));
    assert_eq!(lib.find_artifact_by_keyword("rust AND zzz").unwrap(), Some(HashSet::new()));
    assert_eq!(lib.find_artifact_by_keyword("zzz OR audio").unwrap(), Some(HashSet::from([2])));
    assert_eq!(lib.find_artifact_by_keyword("rust OR zzz").unwrap(), Some(HashSet::from([1, 2])));
}

#[test]
fn operators_without_keywords_are_malformed() {
    let lib: Library = create_example_library();
    match lib.find_artifact_by_keyword("AND") {
        Err(LibraryError::MalformedQuery(0, 1)) => {},
        other => panic!("{:?}", other),
    }
    match lib.find_artifact_by_keyword("rust AND") {
        Err(LibraryError::MalformedQuery(1, 1)) => {},
        other => panic!("{:?}", other),
    }
    assert!(lib.find_artifact_by_keyword("   ").unwrap().is_none());
}
