use rust_exercises::book_library::{create_examples, Book, Library};

#[test]
fn test() {
    let (book1, book2, book3) = create_examples();

    println!("Book 1: {} by {}", book1.title, book1.author);
    println!("Book 2: {} by {}", book2.title, book2.author);
    println!("Book 3: {} by {}", book3.title, book3.author);

    let mut lib = Library { books: vec![book1.clone(), book2.clone()] };

    lib.add_book(&book3);
    println!("{:#?}", lib);

    lib.remove_book(&book3);
    println!("{:#?}", lib);

    lib.give_book(&book1);
    println!("{:#?}", lib);

    lib.receive_book(&book1);
    println!("{:#?}", lib);

    lib.add_book(&book1);
    lib.add_book(&book1);
    lib.give_book(&book1);
    lib.give_book(&book1);
    println!("{:#?}", lib);

    lib.receive_book(&book3);
    println!("{:#?}", lib);
}

#[test]
fn books_compare_without_availability() {
    let (book1, book2, _) = create_examples();
    let mut lent = book1.clone();
    lent.is_available = false;
    assert!(lent == book1);
    assert!(book1 != book2);
    let again = Book::new(
        "978-3-16-148410-0",
        "The Rust Programming Language",
        "Steve Klabnik and Carol Nichols",
        vec!["rust", "programming", "systems"],
    );
    assert!(again == book1);
    assert!(again.is_available);
    assert_eq!(again.keywords, vec!["rust".to_string(), "programming".to_string(), "systems".to_string()]);
}

#[test]
fn giving_lends_the_first_available_copy_and_receiving_returns_the_first_lent_one() {
    let (book1, book2, _) = create_examples();
    let mut lib = Library { books: vec![book1.clone(), book2.clone(), book1.clone()] };
    assert_eq!(lib.find_book(&book1), 0);
    assert_eq!(lib.find_all_books(&book1), vec![0, 2]);
    lib.give_book(&book1);
    assert!(!lib.books[0].is_available && lib.books[2].is_available);
    lib.give_book(&book1);
    assert!(!lib.books[2].is_available);
    assert!(!lib.receive_book(&book1));
    assert!(lib.books[0].is_available && !lib.books[2].is_available);
}

#[test]
fn receiving_an_unknown_book_is_a_donation() {
    let (book1, _, book3) = create_examples();
    let mut lib = Library { books: vec![book1.clone()] };
    assert!(lib.receive_book(&book3));
    assert_eq!(lib.books.len(), 2);
    assert!(lib.books[1] == book3);
    lib.remove_book(&book3);
    assert_eq!(lib.books.len(), 1);
    assert!(lib.books[0] == book1);
}
