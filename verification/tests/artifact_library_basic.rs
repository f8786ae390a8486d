use std::collections::HashSet;
use rust_exercises::artifact::{Artifact, ArtifactKind, ArtifactKindName, Measure};
use rust_exercises::artifact_library_basic::{create_example_library, Library};

#[test]
fn main_test_add_and_remove() {
    let mut lib: Library = create_example_library();

    assert_eq!(lib.list_ids().len(), 4);
    lib.add_artifact(Artifact::new(
        5,
        Some(3),
        "Introduction to Systems Programming",
        "Jane Doe",
        vec!["systems", "rust", "programming"],
        ArtifactKind::Book { pages: 420, isbn: "9780201109504".to_string() },
    ));

    assert_eq!(lib.has_artifact(5), true);
    assert_eq!(lib.list_ids().len(), 5);
    println!(">>>> [ADD BOOK] <<<<");
    println!("{:#?}", lib);

    lib.remove_artifact(5);

    assert_eq!(lib.list_ids().len(), 4);
    println!(">>>> [REMOVE BOOK] <<<<");
    println!("{:#?}", lib);
}

#[test]
fn main_test_lend_and_return() {
    let mut lib: Library = create_example_library();

    // Book -> units = 2 -> units = 1
    lib.lend_artifact(1, 1);
    assert_eq!(lib.has_available_artifact(1, 1), true);

    // Book -> units = 1 -> units = 0
    lib.lend_artifact(1, 1);
    assert_eq!(lib.has_available_artifact(1, 1), false);

    // Book -> units = 0 -> units = 1
    lib.return_artifact(1, 1);
    assert_eq!(lib.has_available_artifact(1, 1), true);

    // Statue -> cannot lend
    lib.lend_artifact(3, 1);
    assert_eq!(lib.has_available_artifact(3, 1), true);

    println!(">>>> [CHECK UNITS] <<<<");
    println!("{:#?}", lib);
}

#[test]
fn main_test_find_by_title() {
    let lib: Library = create_example_library();
    let expected_id: u32 = 2;
    let found_id = lib.find_artifact_by_title("Rust Audio Guide");
    assert_eq!(found_id.len(), 1);

    let found_id = found_id.iter().next().copied().unwrap();
    assert_eq!(found_id, expected_id);

    println!(">>>> [FOUND AUDIOBOOK BY TITLE] <<<<");
    let artifact = lib.get_artifact_clone_by_id(found_id);
    println!("{:#?}", artifact);
}

#[test]
fn main_test_find_by_author() {
    let mut lib: Library = create_example_library();

    lib.add_artifact(Artifact::new(
        5,
        Some(3),
        "Rust ASMR",
        "Steve Klabnik",
        vec!["systems", "rust", "programming"],
        ArtifactKind::AudioBook {
            duration_minutes: Measure::from_bits(90.0f32.to_bits()),
            narrator: "Joe".to_string(),
        },
    ));

    let found_id = lib.find_artifact_by_author("Steve Klabnik");
    assert_eq!(found_id.len(), 2);

    let found_id = found_id.iter().copied().collect::<Vec<u32>>();
    println!(">>>> [FOUND BOOK AND AUDIOBOOK BY AUTHOR] <<<<");
    for id in found_id {
        let artifact = lib.get_artifact_clone_by_id(id);
        println!("{:#?}", artifact);
    }
}

#[test]
fn main_test_find_by_keyword() {
    let mut lib: Library = create_example_library();
    lib.add_artifact(Artifact::new(
        5,
        Some(2),
        "C Primer",
        "Steve McQueen",
        vec!["c", "advanced", "programming"],
        ArtifactKind::Book { pages: 1000, isbn: "9780201109504".to_string() },
    ));

    lib.add_artifact(Artifact::new(
        6,
        Some(1),
        "Go Programming for Dummies",
        "Joe Bob",
        vec!["go", "advanced", "programming"],
        ArtifactKind::Book { pages: 1000, isbn: "9780201109504".to_string() },
    ));

    // case 1: _
    let found_id = lib.find_artifact_by_keyword("programming");
    let found_id = found_id.unwrap().drain().collect::<Vec<u32>>();
    assert_eq!(found_id.len(), 3);
    println!(">>>> [FOUND WITH KEYWORD 'programming'] <<<<");
    for id in found_id {
        let artifact = lib.get_artifact_clone_by_id(id).unwrap();
        println!("Title: {:#?}, Kind: {:#?}", &artifact.title, &artifact.kind);
    }

    // case 2: OR
    let found_id = lib.find_artifact_by_keyword("go OR c");
    let found_id = found_id.unwrap().drain().collect::<Vec<u32>>();
    assert_eq!(found_id.len(), 2);
    println!(">>>> [FOUND WITH KEYWORD 'go OR c'] <<<<");
    for id in found_id {
        let artifact = lib.get_artifact_clone_by_id(id).unwrap();
        println!("Title: {:#?}, Kind: {:#?}", &artifact.title, &artifact.kind);
    }

    // case 3: AND
    let found_id = lib.find_artifact_by_keyword("rust AND audio");
    let found_id = found_id.unwrap().drain().collect::<Vec<u32>>();
    assert_eq!(found_id.len(), 1);
    println!(">>>> [FOUND WITH KEYWORD 'rust AND audio'] <<<<");
    for id in found_id {
        let artifact = lib.get_artifact_clone_by_id(id).unwrap();
        println!("Title: {:#?}, Kind: {:#?}", &artifact.title, &artifact.kind);
    }

    // case 4: OR -> AND
    let found_id = lib.find_artifact_by_keyword("rust OR go AND programming");
    let found_id = found_id.unwrap().drain().collect::<Vec<u32>>();
    assert_eq!(found_id.len(), 2);
    println!(">>>> [FOUND WITH KEYWORD 'rust OR go AND programming'] <<<<");
    for id in found_id {
        let artifact = lib.get_artifact_clone_by_id(id).unwrap();
        println!("Title: {:#?}, Kind: {:#?}", &artifact.title, &artifact.kind);
    }
}

#[test]
fn main_test_find_by_kind() {
    let lib: Library = create_example_library();

    for name in vec![
        ArtifactKindName::Book,
        ArtifactKindName::AudioBook,
        ArtifactKindName::Statue,
        ArtifactKindName::Painting,
    ] {
        let mut found_id = lib.find_artifact_by_kind(name).clone();
        let found_id = found_id.drain().collect::<Vec<u32>>();
        assert_eq!(found_id.len(), 1);

        println!(">>>> [FOUND WITH KIND {:#?}] <<<<", name);
        let artifact = lib.get_artifact_clone_by_id(found_id[0]).unwrap();
        println!("Title: {:#?}, Kind: {:#?}", &artifact.title, &artifact.kind);
    }
}

#[test]
fn lending_more_than_on_shelf_or_unknown_ids_change_nothing() {
    let mut lib: Library = create_example_library();
    lib.lend_artifact(1, 5);
    assert!(lib.has_available_artifact(1, 2));
    lib.lend_artifact(42, 1);
    lib.return_artifact(42, 1);
    lib.remove_artifact(42);
    assert_eq!(lib.list_ids().len(), 4);
    assert!(!lib.has_artifact(42));
}

#[test]
fn malformed_or_empty_queries_give_nothing() {
    let lib: Library = create_example_library();
    assert!(lib.find_artifact_by_keyword("").is_none());
    assert!(lib.find_artifact_by_keyword("rust AND").is_none());
    assert!(lib.find_artifact_by_keyword("rust audio").is_none());
    assert!(lib.find_artifact_by_keyword("AND").is_none());
    assert!(lib.find_artifact_by_keyword("OR OR").is_none());
}

#[test]
fn unknown_keywords_match_nothing() {
    let lib: Library = create_example_library();
    assert_eq!(lib.find_artifact_by_keyword("zzz"), Some(HashSet::new()));
    assert_eq!(lib.find_artifact_by_keyword("rust AND zzz"), Some(HashSet::new()));
    assert_eq!(lib.find_artifact_by_keyword("zzz OR audio"), Some(HashSet::from([2])));
}
