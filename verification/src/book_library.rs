use vstd::prelude::*;
use crate::text::{str_eq, views_of};

verus! {

/// A book, with whether its copy is on the shelf.
#[derive(Debug, Clone)]
pub struct Book {
    pub isbn: String,
    pub title: String,
    pub author: String,
    pub keywords: Vec<String>,
    pub is_available: bool,
}

/// What a book holds, as character sequences.
pub struct BookView {
    pub isbn: Seq<char>,
    pub title: Seq<char>,
    pub author: Seq<char>,
    pub keywords: Seq<Seq<char>>,
    pub is_available: bool,
}

impl View for Book {
    type V = BookView;

    open spec fn view(&self) -> BookView {
        BookView {
            isbn: self.isbn@,
            title: self.title@,
            author: self.author@,
            keywords: views_of(self.keywords@),
            is_available: self.is_available,
        }
    }
}

/// Two books are the same title when all but availability agree.
pub open spec fn same_book(a: BookView, b: BookView) -> bool {
    a.isbn == b.isbn && a.title == b.title && a.author == b.author && a.keywords == b.keywords
}

/// Copies a list of strings.
fn copy_strings(v: &Vec<String>) -> (r: Vec<String>)
    ensures
        views_of(r@) == views_of(v@),
{
    let mut r: Vec<String> = Vec::new();
    let mut i: usize = 0;
    while i < v.len()
        invariant
            i <= v@.len(),
            views_of(r@) == views_of(v@.take(i as int)),
        decreases v@.len() - i,
    {
        let ghost before = r@;
        let c = v[i].clone();
        r.push(c);
        assert(views_of(r@) =~= views_of(before).push(v@[i as int]@));
        assert(v@.take(i + 1) =~= v@.take(i as int).push(v@[i as int]));
        assert(views_of(v@.take(i + 1)) =~= views_of(v@.take(i as int)).push(v@[i as int]@));
        i += 1;
    }
    assert(v@.take(v@.len() as int) =~= v@);
    r
}

/// Whether two lists of strings are equal.
fn strings_eq(a: &Vec<String>, b: &Vec<String>) -> (r: bool)
    ensures
        r == (views_of(a@) == views_of(b@)),
{
    if a.len() != b.len() {
        assert(views_of(a@).len() != views_of(b@).len());
        return false;
    }
    let mut i: usize = 0;
    while i < a.len()
        invariant
            a@.len() == b@.len(),
            i <= a@.len(),
            forall|k: int| 0 <= k < i ==> a@[k]@ == #[trigger] b@[k]@,
        decreases a@.len() - i,
    {
        if !str_eq(a[i].as_str(), b[i].as_str()) {
            assert(views_of(a@)[i as int] != views_of(b@)[i as int]);
            return false;
        }
        i += 1;
    }
    assert(views_of(a@) =~= views_of(b@));
    true
}

/// The characters of each string of a list.
pub open spec fn str_views(v: Seq<&str>) -> Seq<Seq<char>> {
    v.map_values(|s: &str| s@)
}

impl Book {
    /// A new available book.
    pub fn new(isbn: &str, title: &str, author: &str, keywords: Vec<&str>) -> (b: Self)
        ensures
            b@ == (BookView {
                isbn: isbn@,
                title: title@,
                author: author@,
                keywords: str_views(keywords@),
                is_available: true,
            }),
    {
        let mut ks: Vec<String> = Vec::new();
        let mut i: usize = 0;
        while i < keywords.len()
            invariant
                i <= keywords@.len(),
                views_of(ks@) == str_views(keywords@.take(i as int)),
            decreases keywords@.len() - i,
        {
            let ghost before = ks@;
            let k = String::from_str(keywords[i]);
            ks.push(k);
            assert(views_of(ks@) =~= views_of(before).push(keywords@[i as int]@));
            assert(keywords@.take(i + 1) =~= keywords@.take(i as int).push(keywords@[i as int]));
            assert(str_views(keywords@.take(i + 1)) =~= str_views(keywords@.take(i as int)).push(
                keywords@[i as int]@,
            ));
            i += 1;
        }
        assert(keywords@.take(keywords@.len() as int) =~= keywords@);
        Self {
            isbn: String::from_str(isbn),
            title: String::from_str(title),
            author: String::from_str(author),
            keywords: ks,
            is_available: true,
        }
    }

    /// A copy of the book.
    pub fn duplicate(&self) -> (b: Self)
        ensures
            b@ == self@,
    {
        Self {
            isbn: self.isbn.clone(),
            title: self.title.clone(),
            author: self.author.clone(),
            keywords: copy_strings(&self.keywords),
            is_available: self.is_available,
        }
    }
}

impl PartialEq for Book {
    fn eq(&self, other: &Self) -> (r: bool) {
        str_eq(self.isbn.as_str(), other.isbn.as_str()) && str_eq(
            self.title.as_str(),
            other.title.as_str(),
        ) && str_eq(self.author.as_str(), other.author.as_str()) && strings_eq(
            &self.keywords,
            &other.keywords,
        )
    }
}

impl vstd::std_specs::cmp::PartialEqSpecImpl for Book {
    open spec fn obeys_eq_spec() -> bool {
        true
    }

    open spec fn eq_spec(&self, other: &Self) -> bool {
        same_book(self@, other@)
    }
}

impl Eq for Book {

}

/// A library: the books on record, one entry per copy.
#[derive(Debug)]
pub struct Library {
    pub books: Vec<Book>,
}

/// The books of a library, as views.
pub open spec fn shelf(books: Seq<Book>) -> Seq<BookView> {
    books.map_values(|b: Book| b@)
}

/// Whether some copy of `book` is on record.
pub open spec fn has_copy(books: Seq<BookView>, book: BookView) -> bool {
    exists|k: int| 0 <= k < books.len() && same_book(books[k], book)
}

/// Whether some copy of `book` is on the shelf, ready to lend.
pub open spec fn has_available_copy(books: Seq<BookView>, book: BookView) -> bool {
    exists|k: int| 0 <= k < books.len() && same_book(books[k], book) && books[k].is_available
}

/// Whether some copy of `book` is out on loan.
pub open spec fn has_lent_copy(books: Seq<BookView>, book: BookView) -> bool {
    exists|k: int| 0 <= k < books.len() && same_book(books[k], book) && !books[k].is_available
}

/// The view of a book with its availability set to `available`.
pub open spec fn with_availability(b: BookView, available: bool) -> BookView {
    BookView { is_available: available, ..b }
}

/// Removing the first copy of a book just added, when the shelf had no copy of
/// it, gives back the shelf as it was.
pub proof fn law_remove_undoes_add(books: Seq<BookView>, book: BookView, i: int)
    requires
        !has_copy(books, book),
        0 <= i < books.len() + 1,
        same_book(books.push(book)[i], book),
        forall|k: int| 0 <= k < i ==> !same_book(#[trigger] books.push(book)[k], book),
    ensures
        books.push(book).remove(i) == books,
{
    if i < books.len() {
        assert(same_book(books[i], book));
        assert(has_copy(books, book));
    }
    assert(books.push(book).remove(i) =~= books);
}

/// Receiving a book just lent, when no copy of it was out on loan, gives back
/// the shelf as it was.
pub proof fn law_receive_undoes_give(books: Seq<BookView>, book: BookView, i: int, j: int)
    requires
        !has_lent_copy(books, book),
        0 <= i < books.len(),
        same_book(books[i], book) && books[i].is_available,
        0 <= j < books.len(),
        ({
            let lent = books.update(i, with_availability(books[i], false));
            &&& same_book(lent[j], book) && !lent[j].is_available
            &&& forall|k: int| 0 <= k < j ==> !(same_book(#[trigger] lent[k], book) && !lent[k].is_available)
        }),
    ensures
        ({
            let lent = books.update(i, with_availability(books[i], false));
            lent.update(j, with_availability(lent[j], true))
        }) == books,
{
    let lent = books.update(i, with_availability(books[i], false));
    if j != i {
        assert(lent[j] == books[j]);
        assert(has_lent_copy(books, book));
    }
    assert(lent.update(j, with_availability(lent[j], true)) =~= books);
}

/// Whether two books are the same title.
fn same(a: &Book, b: &Book) -> (r: bool)
    ensures
        r == same_book(a@, b@),
{
    str_eq(a.isbn.as_str(), b.isbn.as_str()) && str_eq(a.title.as_str(), b.title.as_str())
        && str_eq(a.author.as_str(), b.author.as_str()) && strings_eq(&a.keywords, &b.keywords)
}

impl Library {
    /// The position of the first copy of `book`.
    pub fn find_book(&self, book: &Book) -> (i: usize)
        requires
            has_copy(shelf(self.books@), book@),
        ensures
            i < self.books@.len(),
            same_book(self.books@[i as int]@, book@),
            forall|k: int| 0 <= k < i ==> !same_book(#[trigger] self.books@[k]@, book@),
    {
        let mut i: usize = 0;
        while i < self.books.len()
            invariant
                i <= self.books@.len(),
                has_copy(shelf(self.books@), book@),
                forall|k: int| 0 <= k < i ==> !same_book(#[trigger] self.books@[k]@, book@),
            decreases self.books@.len() - i,
        {
            if same(&self.books[i], book) {
                return i;
            }
            i += 1;
        }
        proof {
            let k = choose|k: int|
                0 <= k < shelf(self.books@).len() && same_book(shelf(self.books@)[k], book@);
            assert(shelf(self.books@)[k] == self.books@[k]@);
        }
        i
    }

    /// The positions of all copies of `book`, in increasing order.
    pub fn find_all_books(&self, book: &Book) -> (indices: Vec<usize>)
        ensures
            forall|j: int|
                0 <= j < indices@.len() ==> #[trigger] indices@[j] < self.books@.len()
                    && same_book(self.books@[indices@[j] as int]@, book@),
            forall|j1: int, j2: int|
                0 <= j1 < j2 < indices@.len() ==> #[trigger] indices@[j1] < #[trigger] indices@[j2],
            forall|k: int|
                0 <= k < self.books@.len() && same_book(#[trigger] self.books@[k]@, book@)
                    ==> indices@.contains(k as usize),
    {
        let mut indices: Vec<usize> = Vec::new();
        let mut i: usize = 0;
        while i < self.books.len()
            invariant
                i <= self.books@.len(),
                forall|j: int|
                    0 <= j < indices@.len() ==> #[trigger] indices@[j] < i && same_book(
                        self.books@[indices@[j] as int]@,
                        book@,
                    ),
                forall|j1: int, j2: int|
                    0 <= j1 < j2 < indices@.len() ==> #[trigger] indices@[j1]
                        < #[trigger] indices@[j2],
                forall|k: int|
                    0 <= k < i && same_book(#[trigger] self.books@[k]@, book@)
                        ==> indices@.contains(k as usize),
            decreases self.books@.len() - i,
        {
            if same(&self.books[i], book) {
                let ghost before = indices@;
                indices.push(i);
                assert forall|k: int|
                    0 <= k < i + 1 && same_book(#[trigger] self.books@[k]@, book@) implies indices@.contains(
                    k as usize,
                ) by {
                    if k < i {
                        let j = choose|j: int| 0 <= j < before.len() && before[j] == k as usize;
                        assert(indices@[j] == k as usize);
                    } else {
                        assert(indices@[before.len() as int] == i);
                    }
                }
            }
            i += 1;
        }
        indices
    }

    /// Adds a copy of `book`.
    pub fn add_book(&mut self, book: &Book)
        ensures
            shelf(final(self).books@) == shelf(old(self).books@).push(book@),
    {
        let ghost before = shelf(self.books@);
        self.books.push(book.duplicate());
        assert(shelf(self.books@) =~= before.push(book@));
    }

    /// Removes the first copy of `book`.
    pub fn remove_book(&mut self, book: &Book)
        requires
            has_copy(shelf(old(self).books@), book@),
        ensures
            exists|i: int|
                0 <= i < old(self).books@.len() && same_book(old(self).books@[i]@, book@) && (
                forall|k: int| 0 <= k < i ==> !same_book(#[trigger] old(self).books@[k]@, book@))
                    && shelf(final(self).books@) == shelf(old(self).books@).remove(i),
    {
        let i = self.find_book(book);
        let ghost before = shelf(self.books@);
        self.books.remove(i);
        assert(shelf(self.books@) =~= before.remove(i as int));
    }

    /// The position of the first copy of `book` whose availability is `available`.
    pub fn first_copy_with(&self, book: &Book, available: bool) -> (r: Option<usize>)
        ensures
            match r {
                Some(i) => i < self.books@.len() && same_book(self.books@[i as int]@, book@)
                    && self.books@[i as int].is_available == available && forall|k: int|
                    0 <= k < i ==> !(same_book(#[trigger] self.books@[k]@, book@)
                        && self.books@[k].is_available == available),
                None => forall|k: int|
                    0 <= k < self.books@.len() ==> !(same_book(#[trigger] self.books@[k]@, book@)
                        && self.books@[k].is_available == available),
            },
    {
        let mut i: usize = 0;
        while i < self.books.len()
            invariant
                i <= self.books@.len(),
                forall|k: int|
                    0 <= k < i ==> !(same_book(#[trigger] self.books@[k]@, book@)
                        && self.books@[k].is_available == available),
            decreases self.books@.len() - i,
        {
            if self.books[i].is_available == available && same(&self.books[i], book) {
                return Some(i);
            }
            i += 1;
        }
        None
    }

    /// Lends the first copy of `book` that is on the shelf.
    pub fn give_book(&mut self, book: &Book)
        requires
            has_available_copy(shelf(old(self).books@), book@),
        ensures
            exists|i: int|
                0 <= i < old(self).books@.len() && #[trigger] same_book(old(self).books@[i]@, book@)
                    && old(self).books@[i].is_available && (forall|k: int|
                    0 <= k < i ==> !(same_book(#[trigger] old(self).books@[k]@, book@)
                        && old(self).books@[k].is_available)) && shelf(final(self).books@)
                    == shelf(old(self).books@).update(
                    i,
                    with_availability(old(self).books@[i]@, false),
                ),
    {
        let ghost before = self.books@;
        match self.first_copy_with(book, true) {
            Some(i) => {
                self.books[i].is_available = false;
                assert(shelf(self.books@) =~= shelf(before).update(
                    i as int,
                    with_availability(before[i as int]@, false),
                ));
                assert(same_book(before[i as int]@, book@));
            },
            None => {
                proof {
                    let k = choose|k: int|
                        0 <= k < shelf(before).len() && same_book(shelf(before)[k], book@)
                            && shelf(before)[k].is_available;
                    assert(shelf(before)[k] == before[k]@);
                }
            },
        }
    }

    /// Takes back a lent copy of `book`: the first copy out on loan returns to
    /// the shelf. When no copy is out, the book is kept as a donation and added;
    /// the result tells whether that happened.
    pub fn receive_book(&mut self, book: &Book) -> (donated: bool)
        ensures
            donated == !has_lent_copy(shelf(old(self).books@), book@),
            donated ==> shelf(final(self).books@) == shelf(old(self).books@).push(book@),
            !donated ==> exists|i: int|
                0 <= i < old(self).books@.len() && #[trigger] same_book(old(self).books@[i]@, book@)
                    && !old(self).books@[i].is_available && (forall|k: int|
                    0 <= k < i ==> !(same_book(#[trigger] old(self).books@[k]@, book@)
                        && !old(self).books@[k].is_available)) && shelf(final(self).books@)
                    == shelf(old(self).books@).update(
                    i,
                    with_availability(old(self).books@[i]@, true),
                ),
    {
        let ghost before = self.books@;
        match self.first_copy_with(book, false) {
            Some(i) => {
                self.books[i].is_available = true;
                assert(shelf(self.books@) =~= shelf(before).update(
                    i as int,
                    with_availability(before[i as int]@, true),
                ));
                assert(same_book(before[i as int]@, book@));
                assert(shelf(before)[i as int] == before[i as int]@);
                false
            },
            None => {
                proof {
                    if has_lent_copy(shelf(before), book@) {
                        let k = choose|k: int|
                            0 <= k < shelf(before).len() && same_book(shelf(before)[k], book@)
                                && !shelf(before)[k].is_available;
                        assert(shelf(before)[k] == before[k]@);
                    }
                }
                self.add_book(book);
                true
            },
        }
    }
}

/// The view of a new, available book.
pub open spec fn new_book_view(
    isbn: Seq<char>,
    title: Seq<char>,
    author: Seq<char>,
    keywords: Seq<Seq<char>>,
) -> BookView {
    BookView { isbn, title, author, keywords, is_available: true }
}

/// Three sample books.
pub fn create_examples() -> (books: (Book, Book, Book))
    ensures
        books.0@ == new_book_view(
            "978-3-16-148410-0"@,
            "The Rust Programming Language"@,
            "Steve Klabnik and Carol Nichols"@,
            seq!["rust"@, "programming"@, "systems"@],
        ),
        books.1@ == new_book_view(
            "978-0-201-83595-3"@,
            "The C Programming Language"@,
            "Brian W. Kernighan and Dennis M. Ritchie"@,
            seq!["c"@, "programming"@, "classic"@],
        ),
        books.2@ == new_book_view(
            "978-1-59327-599-0"@,
            "Automate the Boring Stuff with Python"@,
            "Al Sweigart"@,
            seq!["python"@, "automation"@, "beginner"@],
        ),
{
    let k1 = vec!["rust", "programming", "systems"];
    assert(str_views(k1@) =~= seq!["rust"@, "programming"@, "systems"@]);
    let book1 = Book::new(
        "978-3-16-148410-0",
        "The Rust Programming Language",
        "Steve Klabnik and Carol Nichols",
        k1,
    );
    let k2 = vec!["c", "programming", "classic"];
    assert(str_views(k2@) =~= seq!["c"@, "programming"@, "classic"@]);
    let book2 = Book::new(
        "978-0-201-83595-3",
        "The C Programming Language",
        "Brian W. Kernighan and Dennis M. Ritchie",
        k2,
    );
    let k3 = vec!["python", "automation", "beginner"];
    assert(str_views(k3@) =~= seq!["python"@, "automation"@, "beginner"@]);
    let book3 = Book::new(
        "978-1-59327-599-0",
        "Automate the Boring Stuff with Python",
        "Al Sweigart",
        k3,
    );
    (book1, book2, book3)
}

} // verus!
