use vstd::prelude::*;
use crate::text::{parse_u32, parse_u32_spec, split_words, views_of, words};
use crate::string_edit::{lowercase_of, str_to_lowercase};

verus! {

/// The four kinds of artifact, without their kind-specific data.
#[derive(Debug, Clone, Copy, PartialEq, Eq, Hash, Structural)]
pub enum ArtifactKindName {
    Book,
    AudioBook,
    Statue,
    Painting,
}

/// The name of each kind, as text.
pub open spec fn kind_label(name: ArtifactKindName) -> Seq<char> {
    match name {
        ArtifactKindName::Book => "Book"@,
        ArtifactKindName::AudioBook => "AudioBook"@,
        ArtifactKindName::Statue => "Statue"@,
        ArtifactKindName::Painting => "Painting"@,
    }
}

impl ArtifactKindName {
    /// The kind's name as text, e.g. `"AudioBook"`.
    pub fn label(&self) -> (s: String)
        ensures
            s@ == kind_label(*self),
    {
        match self {
            ArtifactKindName::Book => String::from_str("Book"),
            ArtifactKindName::AudioBook => String::from_str("AudioBook"),
            ArtifactKindName::Statue => String::from_str("Statue"),
            ArtifactKindName::Painting => String::from_str("Painting"),
        }
    }
}

/// A physical measurement (minutes, centimetres, kilograms), kept as the bit
/// pattern of an `f32`. The library stores and hands it back unchanged and
/// never computes with it.
#[derive(Debug, Clone, Copy, PartialEq, Eq, Structural)]
pub struct Measure {
    pub bits: u32,
}

impl Measure {
    /// The measurement with the given `f32` bit pattern.
    pub fn from_bits(bits: u32) -> (m: Self)
        ensures
            m.bits == bits,
    {
        Measure { bits }
    }
}

/// The kind of an artifact, with the data that only that kind has.
#[derive(Debug)]
pub enum ArtifactKind {
    Book { pages: u32, isbn: String },
    AudioBook { duration_minutes: Measure, narrator: String },
    Statue { dimensions_cm: (Measure, Measure), height_cm: Measure, weight_kg: Measure, material: String },
    Painting { dimensions_cm: (Measure, Measure), style: String, medium: String },
}

/// The kind-specific data, with text as character sequences.
pub enum KindView {
    Book { pages: u32, isbn: Seq<char> },
    AudioBook { duration_minutes: Measure, narrator: Seq<char> },
    Statue {
        dimensions_cm: (Measure, Measure),
        height_cm: Measure,
        weight_kg: Measure,
        material: Seq<char>,
    },
    Painting { dimensions_cm: (Measure, Measure), style: Seq<char>, medium: Seq<char> },
}

impl View for ArtifactKind {
    type V = KindView;

    open spec fn view(&self) -> KindView {
        match self {
            ArtifactKind::Book { pages, isbn } => KindView::Book { pages: *pages, isbn: isbn@ },
            ArtifactKind::AudioBook { duration_minutes, narrator } => KindView::AudioBook {
                duration_minutes: *duration_minutes,
                narrator: narrator@,
            },
            ArtifactKind::Statue { dimensions_cm, height_cm, weight_kg, material } => KindView::Statue {
                dimensions_cm: *dimensions_cm,
                height_cm: *height_cm,
                weight_kg: *weight_kg,
                material: material@,
            },
            ArtifactKind::Painting { dimensions_cm, style, medium } => KindView::Painting {
                dimensions_cm: *dimensions_cm,
                style: style@,
                medium: medium@,
            },
        }
    }
}

/// The name of a kind.
pub open spec fn kind_name_of(k: KindView) -> ArtifactKindName {
    match k {
        KindView::Book { .. } => ArtifactKindName::Book,
        KindView::AudioBook { .. } => ArtifactKindName::AudioBook,
        KindView::Statue { .. } => ArtifactKindName::Statue,
        KindView::Painting { .. } => ArtifactKindName::Painting,
    }
}

/// Whether artifacts of a kind may be lent: books and audio books may,
/// statues and paintings may not.
pub open spec fn lendable(name: ArtifactKindName) -> bool {
    name == ArtifactKindName::Book || name == ArtifactKindName::AudioBook
}

/// Each artifact is named by its own variant: a book is a `Book`, an audio
/// book an `AudioBook`, a statue a `Statue`, a painting a `Painting`; the names
/// read as those words; and only books and audio books may be lent.
pub proof fn law_kind_names_match_variants(k: ArtifactKind, v: KindView)
    ensures
        (k is Book) <==> kind_name_of(k@) == ArtifactKindName::Book,
        (k is AudioBook) <==> kind_name_of(k@) == ArtifactKindName::AudioBook,
        (k is Statue) <==> kind_name_of(k@) == ArtifactKindName::Statue,
        (k is Painting) <==> kind_name_of(k@) == ArtifactKindName::Painting,
        (v is Book) <==> kind_name_of(v) == ArtifactKindName::Book,
        (v is AudioBook) <==> kind_name_of(v) == ArtifactKindName::AudioBook,
        (v is Statue) <==> kind_name_of(v) == ArtifactKindName::Statue,
        (v is Painting) <==> kind_name_of(v) == ArtifactKindName::Painting,
        kind_label(ArtifactKindName::Book) == "Book"@,
        kind_label(ArtifactKindName::AudioBook) == "AudioBook"@,
        kind_label(ArtifactKindName::Statue) == "Statue"@,
        kind_label(ArtifactKindName::Painting) == "Painting"@,
        lendable(kind_name_of(v)) <==> (v is Book || v is AudioBook),
{
}

impl ArtifactKind {
    /// The name of this kind.
    pub fn name(&self) -> (n: ArtifactKindName)
        ensures
            n == kind_name_of(self@),
    {
        match self {
            ArtifactKind::Book { .. } => ArtifactKindName::Book,
            ArtifactKind::AudioBook { .. } => ArtifactKindName::AudioBook,
            ArtifactKind::Statue { .. } => ArtifactKindName::Statue,
            ArtifactKind::Painting { .. } => ArtifactKindName::Painting,
        }
    }

    /// A copy of the kind and its data.
    pub fn duplicate(&self) -> (k: Self)
        ensures
            k@ == self@,
    {
        match self {
            ArtifactKind::Book { pages, isbn } => ArtifactKind::Book { pages: *pages, isbn: isbn.clone() },
            ArtifactKind::AudioBook { duration_minutes, narrator } => ArtifactKind::AudioBook {
                duration_minutes: *duration_minutes,
                narrator: narrator.clone(),
            },
            ArtifactKind::Statue { dimensions_cm, height_cm, weight_kg, material } => ArtifactKind::Statue {
                dimensions_cm: *dimensions_cm,
                height_cm: *height_cm,
                weight_kg: *weight_kg,
                material: material.clone(),
            },
            ArtifactKind::Painting { dimensions_cm, style, medium } => ArtifactKind::Painting {
                dimensions_cm: *dimensions_cm,
                style: style.clone(),
                medium: medium.clone(),
            },
        }
    }
}

/// An item of the library: how many units of it are on the shelf, its title,
/// author and keywords, and its kind.
#[derive(Debug)]
pub struct Artifact {
    pub id: u32,
    pub units: u32,
    pub title: String,
    pub author: String,
    pub keywords: Vec<String>,
    pub kind: ArtifactKind,
}

/// What an artifact holds, with text as character sequences.
pub struct ArtifactView {
    pub id: u32,
    pub units: u32,
    pub title: Seq<char>,
    pub author: Seq<char>,
    pub keywords: Seq<Seq<char>>,
    pub kind: KindView,
}

impl View for Artifact {
    type V = ArtifactView;

    open spec fn view(&self) -> ArtifactView {
        ArtifactView {
            id: self.id,
            units: self.units,
            title: self.title@,
            author: self.author@,
            keywords: views_of(self.keywords@),
            kind: self.kind@,
        }
    }
}

/// The characters of each string of a list.
pub open spec fn str_views(v: Seq<&str>) -> Seq<Seq<char>> {
    v.map_values(|s: &str| s@)
}

/// Copies a list of strings.
pub fn copy_strings(v: &Vec<String>) -> (r: Vec<String>)
    ensures
        views_of(r@) == views_of(v@),
{
    let mut r: Vec<String> = Vec::new();
    let mut i: usize = 0;
    while i < v.len()
        invariant
            i <= v@.len(),
            views_of(r@) == views_of(v@.take(i as int)),
        decreases v@.len() - i,
    {
        let ghost before = r@;
        let c = v[i].clone();
        r.push(c);
        assert(views_of(r@) =~= views_of(before).push(v@[i as int]@));
        assert(v@.take(i + 1) =~= v@.take(i as int).push(v@[i as int]));
        assert(views_of(v@.take(i + 1)) =~= views_of(v@.take(i as int)).push(v@[i as int]@));
        i += 1;
    }
    assert(v@.take(v@.len() as int) =~= v@);
    r
}

/// Owned copies of a list of string slices.
pub fn owned_strings(v: &Vec<&str>) -> (r: Vec<String>)
    ensures
        views_of(r@) == str_views(v@),
{
    let mut r: Vec<String> = Vec::new();
    let mut i: usize = 0;
    while i < v.len()
        invariant
            i <= v@.len(),
            views_of(r@) == str_views(v@.take(i as int)),
        decreases v@.len() - i,
    {
        let ghost before = r@;
        let k = String::from_str(v[i]);
        r.push(k);
        assert(views_of(r@) =~= views_of(before).push(v@[i as int]@));
        assert(v@.take(i + 1) =~= v@.take(i as int).push(v@[i as int]));
        assert(str_views(v@.take(i + 1)) =~= str_views(v@.take(i as int)).push(v@[i as int]@));
        i += 1;
    }
    assert(v@.take(v@.len() as int) =~= v@);
    r
}

impl Artifact {
    /// A new artifact; without a unit count it has one unit.
    pub fn new(
        id: u32,
        units: Option<u32>,
        title: &str,
        author: &str,
        keywords: Vec<&str>,
        kind: ArtifactKind,
    ) -> (a: Self)
        ensures
            a@ == (ArtifactView {
                id,
                units: match units {
                    Some(u) => u,
                    None => 1,
                },
                title: title@,
                author: author@,
                keywords: str_views(keywords@),
                kind: kind@,
            }),
    {
        let units = match units {
            Some(u) => u,
            None => 1,
        };
        Self {
            id,
            units,
            title: String::from_str(title),
            author: String::from_str(author),
            keywords: owned_strings(&keywords),
            kind,
        }
    }

    /// A copy of the artifact.
    pub fn duplicate(&self) -> (a: Self)
        ensures
            a@ == self@,
    {
        Self {
            id: self.id,
            units: self.units,
            title: self.title.clone(),
            author: self.author.clone(),
            keywords: copy_strings(&self.keywords),
            kind: self.kind.duplicate(),
        }
    }
}

/// The keywords typed on a line: its words, lower-cased.
pub fn keywords_from_line(line: &str) -> (keywords: Vec<String>)
    ensures
        views_of(keywords@) == words(lowercase_of(line@)),
{
    let lower = str_to_lowercase(line);
    split_words(lower.as_str())
}

/// What a line typed as the id of a new artifact gives.
#[derive(Debug, PartialEq, Eq, Structural)]
pub enum NewId {
    /// A number that no artifact has yet.
    Accepted(u32),
    /// A number that an artifact already has.
    Taken(u32),
    /// Text that is not a number.
    NotANumber,
}

/// Reads a line typed as the id of a new artifact, against the ids in use.
pub fn check_new_id(line: &str, existing_ids: &Vec<u32>) -> (r: NewId)
    ensures
        match parse_u32_spec(line@) {
            None => r == NewId::NotANumber,
            Some(n) => if existing_ids@.contains(n) {
                r == NewId::Taken(n)
            } else {
                r == NewId::Accepted(n)
            },
        },
{
    match parse_u32(line) {
        None => NewId::NotANumber,
        Some(n) => {
            let mut i: usize = 0;
            while i < existing_ids.len()
                invariant
                    i <= existing_ids@.len(),
                    parse_u32_spec(line@) == Some(n),
                    forall|j: int| 0 <= j < i ==> existing_ids@[j] != n,
                decreases existing_ids@.len() - i,
            {
                if existing_ids[i] == n {
                    assert(existing_ids@[i as int] == n);
                    return NewId::Taken(n);
                }
                i += 1;
            }
            NewId::Accepted(n)
        },
    }
}

/// A field asked for when a new artifact's kind is entered.
#[derive(Debug, Clone, Copy, PartialEq, Eq, Structural)]
pub enum KindField {
    Pages,
    Isbn,
    DurationMinutes,
    Narrator,
    WidthCm,
    DepthCm,
    HeightCm,
    WeightKg,
    Material,
    Style,
    Medium,
}

/// An answer to one of those fields: a count, a measurement or a text.
#[derive(Debug)]
pub enum KindAnswer {
    Number(u32),
    Amount(Measure),
    Text(String),
}

/// The next step of entering a kind: ask for a field, the kind entered, or a
/// menu option (or answers) that give no kind.
#[derive(Debug)]
pub enum KindStep {
    Ask(KindField),
    Done(ArtifactKind),
    Invalid,
}

/// The fields asked for each kind option of the menu, in the order asked:
/// 0 a book, 1 an audio book, 2 a statue, 3 a painting; other options ask nothing.
pub open spec fn kind_fields(option: u32) -> Seq<KindField> {
    if option == 0 {
        seq![KindField::Pages, KindField::Isbn]
    } else if option == 1 {
        seq![KindField::DurationMinutes, KindField::Narrator]
    } else if option == 2 {
        seq![
            KindField::WidthCm,
            KindField::DepthCm,
            KindField::HeightCm,
            KindField::WeightKg,
            KindField::Material,
        ]
    } else if option == 3 {
        seq![KindField::WidthCm, KindField::DepthCm, KindField::Style, KindField::Medium]
    } else {
        seq![]
    }
}

/// The kind that the answers give for a menu option, once all its fields are
/// answered: counts for counts, measurements for measurements, texts for texts.
pub open spec fn kind_of_answers(option: u32, a: Seq<KindAnswer>) -> Option<ArtifactKind> {
    if option == 0 {
        match (a[0], a[1]) {
            (KindAnswer::Number(pages), KindAnswer::Text(isbn)) => Some(ArtifactKind::Book { pages, isbn }),
            _ => None,
        }
    } else if option == 1 {
        match (a[0], a[1]) {
            (KindAnswer::Amount(duration_minutes), KindAnswer::Text(narrator)) => Some(
                ArtifactKind::AudioBook { duration_minutes, narrator },
            ),
            _ => None,
        }
    } else if option == 2 {
        match (a[0], a[1], a[2], a[3], a[4]) {
            (
                KindAnswer::Amount(width),
                KindAnswer::Amount(depth),
                KindAnswer::Amount(height_cm),
                KindAnswer::Amount(weight_kg),
                KindAnswer::Text(material),
            ) => Some(
                ArtifactKind::Statue { dimensions_cm: (width, depth), height_cm, weight_kg, material },
            ),
            _ => None,
        }
    } else {
        match (a[0], a[1], a[2], a[3]) {
            (
                KindAnswer::Amount(width),
                KindAnswer::Amount(depth),
                KindAnswer::Text(style),
                KindAnswer::Text(medium),
            ) => Some(ArtifactKind::Painting { dimensions_cm: (width, depth), style, medium }),
            _ => None,
        }
    }
}

/// The step after the answers so far for a menu option: an option other than
/// 0 to 3 gives no kind; otherwise the next unanswered field is asked, and once
/// all are answered the kind is built from them (answers of the wrong sort give
/// no kind).
pub open spec fn kind_step_spec(option: u32, answers: Seq<KindAnswer>) -> KindStep {
    if option > 3 {
        KindStep::Invalid
    } else if answers.len() < kind_fields(option).len() {
        KindStep::Ask(kind_fields(option)[answers.len() as int])
    } else {
        match kind_of_answers(option, answers) {
            Some(k) => KindStep::Done(k),
            None => KindStep::Invalid,
        }
    }
}

/// The text of an answer, if it is a text.
fn answer_text(a: &KindAnswer) -> (r: Option<String>)
    ensures
        match a {
            KindAnswer::Text(t) => r == Some(*t),
            _ => r is None,
        },
{
    match a {
        KindAnswer::Text(t) => Some(t.clone()),
        _ => None,
    }
}

/// The measurement of an answer, if it is one.
fn answer_amount(a: &KindAnswer) -> (r: Option<Measure>)
    ensures
        match a {
            KindAnswer::Amount(m) => r == Some(*m),
            _ => r is None,
        },
{
    match a {
        KindAnswer::Amount(m) => Some(*m),
        _ => None,
    }
}

/// Decides the next step of entering a kind from the menu option and the
/// answers read so far.
pub fn kind_step(option: u32, answers: &Vec<KindAnswer>) -> (r: KindStep)
    ensures
        r == kind_step_spec(option, answers@),
{
    let n = answers.len();
    if option == 0 {
        if n < 2 {
            return KindStep::Ask(if n == 0 { KindField::Pages } else { KindField::Isbn });
        }
        let pages = match &answers[0] {
            KindAnswer::Number(p) => *p,
            _ => {
                return KindStep::Invalid;
            },
        };
        match answer_text(&answers[1]) {
            Some(isbn) => KindStep::Done(ArtifactKind::Book { pages, isbn }),
            None => KindStep::Invalid,
        }
    } else if option == 1 {
        if n < 2 {
            return KindStep::Ask(if n == 0 { KindField::DurationMinutes } else { KindField::Narrator });
        }
        match (answer_amount(&answers[0]), answer_text(&answers[1])) {
            (Some(duration_minutes), Some(narrator)) => KindStep::Done(
                ArtifactKind::AudioBook { duration_minutes, narrator },
            ),
            _ => KindStep::Invalid,
        }
    } else if option == 2 {
        if n < 5 {
            let field = if n == 0 {
                KindField::WidthCm
            } else if n == 1 {
                KindField::DepthCm
            } else if n == 2 {
                KindField::HeightCm
            } else if n == 3 {
                KindField::WeightKg
            } else {
                KindField::Material
            };
            return KindStep::Ask(field);
        }
        match (
            answer_amount(&answers[0]),
            answer_amount(&answers[1]),
            answer_amount(&answers[2]),
            answer_amount(&answers[3]),
            answer_text(&answers[4]),
        ) {
            (Some(width), Some(depth), Some(height_cm), Some(weight_kg), Some(material)) => KindStep::Done(
                ArtifactKind::Statue { dimensions_cm: (width, depth), height_cm, weight_kg, material },
            ),
            _ => KindStep::Invalid,
        }
    } else if option == 3 {
        if n < 4 {
            let field = if n == 0 {
                KindField::WidthCm
            } else if n == 1 {
                KindField::DepthCm
            } else if n == 2 {
                KindField::Style
            } else {
                KindField::Medium
            };
            return KindStep::Ask(field);
        }
        match (
            answer_amount(&answers[0]),
            answer_amount(&answers[1]),
            answer_text(&answers[2]),
            answer_text(&answers[3]),
        ) {
            (Some(width), Some(depth), Some(style), Some(medium)) => KindStep::Done(
                ArtifactKind::Painting { dimensions_cm: (width, depth), style, medium },
            ),
            _ => KindStep::Invalid,
        }
    } else {
        KindStep::Invalid
    }
}

} // verus!
