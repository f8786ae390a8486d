use vstd::prelude::*;
use crate::grocery_store::Price;
use crate::name_map::NameMap;
use crate::text::{trim, trimmed, views_of};

verus! {

/// A product on sale.
#[derive(Debug)]
pub struct Product {
    pub id: String,
    pub name: String,
    pub expiration_date: String,
    pub price: Price,
    pub stock: u32,
}

/// What a product holds, with text as character sequences.
pub struct ProductView {
    pub id: Seq<char>,
    pub name: Seq<char>,
    pub expiration_date: Seq<char>,
    pub price: Price,
    pub stock: u32,
}

impl View for Product {
    type V = ProductView;

    open spec fn view(&self) -> ProductView {
        ProductView {
            id: self.id@,
            name: self.name@,
            expiration_date: self.expiration_date@,
            price: self.price,
            stock: self.stock,
        }
    }
}

impl Product {
    /// A product with the given fields.
    pub fn new(id: &str, name: &str, expiration_date: &str, price: Price, stock: u32) -> (p: Product)
        ensures
            p@ == (ProductView {
                id: id@,
                name: name@,
                expiration_date: expiration_date@,
                price,
                stock,
            }),
    {
        Product {
            id: String::from_str(id),
            name: String::from_str(name),
            expiration_date: String::from_str(expiration_date),
            price,
            stock,
        }
    }

    /// A copy of this product.
    pub fn duplicate(&self) -> (p: Product)
        ensures
            p@ == self@,
    {
        Product {
            id: self.id.clone(),
            name: self.name.clone(),
            expiration_date: self.expiration_date.clone(),
            price: self.price,
            stock: self.stock,
        }
    }
}

/// The products of a zone, by id.
pub type ZoneView = Map<Seq<char>, ProductView>;

/// The zones of a shelf, by name.
pub type ShelfView = Map<Seq<char>, ZoneView>;

/// The shelves of a row, by name.
pub type RowView = Map<Seq<char>, ShelfView>;

/// A place in the store: row, shelf and zone names.
pub type AddressView = (Seq<char>, Seq<char>, Seq<char>);

/// A part of a shelf holding products, keyed by id.
#[derive(Debug)]
pub struct Zone {
    pub products: NameMap<Product>,
}

/// A shelf, divided into named zones.
#[derive(Debug)]
pub struct Shelf {
    pub zones: NameMap<Zone>,
}

/// A row of named shelves.
#[derive(Debug)]
pub struct Row {
    pub shelves: NameMap<Shelf>,
}

impl View for Zone {
    type V = ZoneView;

    open spec fn view(&self) -> ZoneView {
        self.products@
    }
}

impl View for Shelf {
    type V = ShelfView;

    open spec fn view(&self) -> ShelfView {
        self.zones@
    }
}

impl View for Row {
    type V = RowView;

    open spec fn view(&self) -> RowView {
        self.shelves@
    }
}

impl Zone {
    /// A zone with no products.
    pub fn new() -> (z: Zone)
        ensures
            z@ == ZoneView::empty(),
    {
        Zone { products: NameMap::new() }
    }
}

impl Shelf {
    /// A shelf with no zones.
    pub fn new() -> (s: Shelf)
        ensures
            s@ == ShelfView::empty(),
    {
        Shelf { zones: NameMap::new() }
    }
}

impl Row {
    /// A row with no shelves.
    pub fn new() -> (r: Row)
        ensures
            r@ == RowView::empty(),
    {
        Row { shelves: NameMap::new() }
    }
}

/// The errors of the store's operations.
#[derive(Debug)]
pub enum GroceryErrors {
    RowAlreadyExists(String),
    ShelfAlreadyExists(String, String),
    ZoneAlreadyExists(String, String, String),
    ProductAlreadyExists(String, String, String, Product),
    ProductNotFound(String),
    RowNotFound(String),
    ShelfNotFound(String, String),
    ZoneNotFound(String, String, String),
    U32Overflow(u32, u32),
    NotEnoughStock(String, u32, u32),
    InvalidPrice(Price),
    InvalidArguments(Option<String>, Option<String>, Option<String>),
}

/// An error, with text as character sequences.
pub enum ErrorView {
    RowAlreadyExists(Seq<char>),
    ShelfAlreadyExists(Seq<char>, Seq<char>),
    ZoneAlreadyExists(Seq<char>, Seq<char>, Seq<char>),
    ProductAlreadyExists(Seq<char>, Seq<char>, Seq<char>, ProductView),
    ProductNotFound(Seq<char>),
    RowNotFound(Seq<char>),
    ShelfNotFound(Seq<char>, Seq<char>),
    ZoneNotFound(Seq<char>, Seq<char>, Seq<char>),
    U32Overflow(u32, u32),
    NotEnoughStock(Seq<char>, u32, u32),
    InvalidPrice(Price),
    InvalidArguments(Option<Seq<char>>, Option<Seq<char>>, Option<Seq<char>>),
}

/// The text of an optional string.
pub open spec fn opt_text(o: Option<String>) -> Option<Seq<char>> {
    match o {
        Some(s) => Some(s@),
        None => None,
    }
}

/// The text of an optional string slice.
pub open spec fn opt_str(o: Option<&str>) -> Option<Seq<char>> {
    match o {
        Some(s) => Some(s@),
        None => None,
    }
}

impl View for GroceryErrors {
    type V = ErrorView;

    open spec fn view(&self) -> ErrorView {
        match self {
            GroceryErrors::RowAlreadyExists(a) => ErrorView::RowAlreadyExists(a@),
            GroceryErrors::ShelfAlreadyExists(a, b) => ErrorView::ShelfAlreadyExists(a@, b@),
            GroceryErrors::ZoneAlreadyExists(a, b, c) => ErrorView::ZoneAlreadyExists(a@, b@, c@),
            GroceryErrors::ProductAlreadyExists(a, b, c, p) => ErrorView::ProductAlreadyExists(
                a@,
                b@,
                c@,
                p@,
            ),
            GroceryErrors::ProductNotFound(a) => ErrorView::ProductNotFound(a@),
            GroceryErrors::RowNotFound(a) => ErrorView::RowNotFound(a@),
            GroceryErrors::ShelfNotFound(a, b) => ErrorView::ShelfNotFound(a@, b@),
            GroceryErrors::ZoneNotFound(a, b, c) => ErrorView::ZoneNotFound(a@, b@, c@),
            GroceryErrors::U32Overflow(a, b) => ErrorView::U32Overflow(*a, *b),
            GroceryErrors::NotEnoughStock(a, b, c) => ErrorView::NotEnoughStock(a@, *b, *c),
            GroceryErrors::InvalidPrice(p) => ErrorView::InvalidPrice(*p),
            GroceryErrors::InvalidArguments(a, b, c) => ErrorView::InvalidArguments(
                opt_text(*a),
                opt_text(*b),
                opt_text(*c),
            ),
        }
    }
}

/// A result with its value and error taken by their views.
pub open spec fn outcome_of<T: View>(r: Result<T, GroceryErrors>) -> Result<T::V, ErrorView> {
    match r {
        Ok(t) => Ok(t@),
        Err(e) => Err(e@),
    }
}

/// The store: rows by name, and for each product id the place it was last added to.
pub struct StoreView {
    pub rows: Map<Seq<char>, RowView>,
    pub product_map: Map<Seq<char>, AddressView>,
}

/// A grocery store whose rows, shelves, zones and products are kept by name,
/// with an index from product ids to places.
#[derive(Debug)]
pub struct GroceryStore {
    rows: NameMap<Row>,
    product_map: NameMap<(String, String, String)>,
}

impl View for GroceryStore {
    type V = StoreView;

    closed spec fn view(&self) -> StoreView {
        StoreView { rows: self.rows@, product_map: self.product_map@ }
    }
}

/// Whether row `r` exists.
pub open spec fn has_row(v: StoreView, r: Seq<char>) -> bool {
    v.rows.contains_key(r)
}

/// Whether shelf `s` exists in row `r`.
pub open spec fn has_shelf(v: StoreView, r: Seq<char>, s: Seq<char>) -> bool {
    has_row(v, r) && v.rows[r].contains_key(s)
}

/// Whether zone `z` exists in shelf `s` of row `r`.
pub open spec fn has_zone(v: StoreView, r: Seq<char>, s: Seq<char>, z: Seq<char>) -> bool {
    has_shelf(v, r, s) && v.rows[r][s].contains_key(z)
}

/// The rows with zone `z` of shelf `s` of row `r` set to `zv`.
pub open spec fn with_zone(
    rows: Map<Seq<char>, RowView>,
    r: Seq<char>,
    s: Seq<char>,
    z: Seq<char>,
    zv: ZoneView,
) -> Map<Seq<char>, RowView> {
    rows.insert(r, rows[r].insert(s, rows[r][s].insert(z, zv)))
}

/// The error for a place that does not exist, naming the first missing part.
pub open spec fn place_error(v: StoreView, r: Seq<char>, s: Seq<char>, z: Seq<char>) -> Option<
    ErrorView,
> {
    if !has_row(v, r) {
        Some(ErrorView::RowNotFound(r))
    } else if !has_shelf(v, r, s) {
        Some(ErrorView::ShelfNotFound(r, s))
    } else if !has_zone(v, r, s, z) {
        Some(ErrorView::ZoneNotFound(r, s, z))
    } else {
        None
    }
}

/// The product that the index leads to for `id`: the index has `id`, its place
/// exists, and that zone holds a product under `id`.
pub open spec fn product_at(v: StoreView, id: Seq<char>) -> Option<ProductView> {
    if v.product_map.contains_key(id) {
        let a = v.product_map[id];
        if has_zone(v, a.0, a.1, a.2) && v.rows[a.0][a.1][a.2].contains_key(id) {
            Some(v.rows[a.0][a.1][a.2][id])
        } else {
            None
        }
    } else {
        None
    }
}

/// Whether the index sends `id` to an existing zone that no longer holds it.
pub open spec fn address_is_stale(v: StoreView, id: Seq<char>) -> bool {
    v.product_map.contains_key(id) && {
        let a = v.product_map[id];
        has_zone(v, a.0, a.1, a.2) && !v.rows[a.0][a.1][a.2].contains_key(id)
    }
}

/// The store with the product that the index leads to for `id` replaced by `p`.
pub open spec fn with_product(v: StoreView, id: Seq<char>, p: ProductView) -> StoreView {
    let a = v.product_map[id];
    StoreView {
        rows: with_zone(v.rows, a.0, a.1, a.2, v.rows[a.0][a.1][a.2].insert(id, p)),
        ..v
    }
}

/// What adding row `r` leaves and answers: a new empty row, or, for a row that
/// exists, the error and no change.
pub open spec fn add_row_outcome(v: StoreView, r: Seq<char>) -> (StoreView, Result<(), ErrorView>) {
    if v.rows.contains_key(r) {
        (v, Err(ErrorView::RowAlreadyExists(r)))
    } else {
        (StoreView { rows: v.rows.insert(r, RowView::empty()), ..v }, Ok(()))
    }
}

/// What adding shelf `s` to row `r` leaves and answers: a new empty shelf, or,
/// for a shelf that exists, the error and no change; nothing happens without
/// the row.
pub open spec fn add_shelf_outcome(v: StoreView, r: Seq<char>, s: Seq<char>) -> (
    StoreView,
    Result<(), ErrorView>,
) {
    if !has_row(v, r) {
        (v, Ok(()))
    } else if v.rows[r].contains_key(s) {
        (v, Err(ErrorView::ShelfAlreadyExists(r, s)))
    } else {
        (StoreView { rows: v.rows.insert(r, v.rows[r].insert(s, ShelfView::empty())), ..v }, Ok(()))
    }
}

/// What adding zone `z` to shelf `s` of row `r` leaves and answers: a new empty
/// zone, or, for a zone that exists, the error and no change; nothing happens
/// without the shelf.
pub open spec fn add_zone_outcome(v: StoreView, r: Seq<char>, s: Seq<char>, z: Seq<char>) -> (
    StoreView,
    Result<(), ErrorView>,
) {
    if !has_shelf(v, r, s) {
        (v, Ok(()))
    } else if v.rows[r][s].contains_key(z) {
        (v, Err(ErrorView::ZoneAlreadyExists(r, s, z)))
    } else {
        (StoreView { rows: with_zone(v.rows, r, s, z, ZoneView::empty()), ..v }, Ok(()))
    }
}

/// What adding product `p` at a place leaves and answers: the place must exist
/// and its zone must not hold `p`'s id yet; then the index sends `p`'s id there
/// and the zone holds `p` under its id. On any error nothing changes.
pub open spec fn add_product_outcome(
    v: StoreView,
    r: Seq<char>,
    s: Seq<char>,
    z: Seq<char>,
    p: ProductView,
) -> (StoreView, Result<(), ErrorView>) {
    match place_error(v, r, s, z) {
        Some(e) => (v, Err(e)),
        None => if v.rows[r][s][z].contains_key(p.id) {
            (v, Err(ErrorView::ProductAlreadyExists(r, s, z, p)))
        } else {
            (
                StoreView {
                    rows: with_zone(v.rows, r, s, z, v.rows[r][s][z].insert(p.id, p)),
                    product_map: v.product_map.insert(p.id, (r, s, z)),
                },
                Ok(()),
            )
        },
    }
}

/// What removing product `id` leaves and answers: the product leaves its zone and
/// the index, and is handed back.
pub open spec fn remove_product_outcome(v: StoreView, id: Seq<char>) -> (
    StoreView,
    Result<ProductView, ErrorView>,
) {
    if !v.product_map.contains_key(id) {
        (v, Err(ErrorView::ProductNotFound(id)))
    } else {
        let a = v.product_map[id];
        match place_error(v, a.0, a.1, a.2) {
            Some(e) => (v, Err(e)),
            None => (
                StoreView {
                    rows: with_zone(v.rows, a.0, a.1, a.2, v.rows[a.0][a.1][a.2].remove(id)),
                    product_map: v.product_map.remove(id),
                },
                Ok(v.rows[a.0][a.1][a.2][id]),
            ),
        }
    }
}

/// The pair of state and answer, with the answer's value dropped.
pub open spec fn unit_outcome(o: (StoreView, Result<ProductView, ErrorView>)) -> (
    StoreView,
    Result<(), ErrorView>,
) {
    (
        o.0,
        match o.1 {
            Ok(_) => Ok(()),
            Err(e) => Err(e),
        },
    )
}

/// What restocking product `id` with `units` leaves and answers: the stock grows
/// unless the sum overflows a `u32`.
pub open spec fn restock_outcome(v: StoreView, id: Seq<char>, units: u32) -> (
    StoreView,
    Result<(), ErrorView>,
) {
    match product_at(v, id) {
        None => (v, Err(ErrorView::ProductNotFound(id))),
        Some(p) => if p.stock + units > u32::MAX {
            (v, Err(ErrorView::U32Overflow(units, p.stock)))
        } else {
            (with_product(v, id, ProductView { stock: (p.stock + units) as u32, ..p }), Ok(()))
        },
    }
}

/// What selling `units` of product `id` leaves and answers: the stock shrinks and
/// the unit price is handed back, unless the stock is too small.
pub open spec fn sell_outcome(v: StoreView, id: Seq<char>, units: u32) -> (
    StoreView,
    Result<Price, ErrorView>,
) {
    let p = product_at(v, id).unwrap();
    if units > p.stock {
        (v, Err(ErrorView::NotEnoughStock(id, units, p.stock)))
    } else {
        (with_product(v, id, ProductView { stock: (p.stock - units) as u32, ..p }), Ok(p.price))
    }
}

/// What renaming product `id` leaves and answers.
pub open spec fn rename_outcome(v: StoreView, id: Seq<char>, name: Seq<char>) -> (
    StoreView,
    Result<(), ErrorView>,
) {
    match product_at(v, id) {
        None => (v, Err(ErrorView::ProductNotFound(id))),
        Some(p) => (with_product(v, id, ProductView { name, ..p }), Ok(())),
    }
}

/// What repricing product `id` leaves and answers: a price below zero is refused
/// first.
pub open spec fn reprice_outcome(v: StoreView, id: Seq<char>, price: Price) -> (
    StoreView,
    Result<(), ErrorView>,
) {
    if price.below_zero() {
        (v, Err(ErrorView::InvalidPrice(price)))
    } else {
        match product_at(v, id) {
            None => (v, Err(ErrorView::ProductNotFound(id))),
            Some(p) => (with_product(v, id, ProductView { price, ..p }), Ok(())),
        }
    }
}

/// What moving product `id` to a place leaves and answers: the product that the
/// index leads to for `id` is taken out of its zone and out of the index, then
/// added at the new place. When it cannot be taken out or cannot be added there,
/// nothing changes and that error is answered.
pub open spec fn change_position_outcome(
    v: StoreView,
    id: Seq<char>,
    r: Seq<char>,
    s: Seq<char>,
    z: Seq<char>,
) -> (StoreView, Result<(), ErrorView>) {
    let (mid, removed) = remove_product_outcome(v, id);
    match removed {
        Err(e) => (v, Err(e)),
        Ok(p) => {
            let (w, added) = add_product_outcome(mid, r, s, z, p);
            match added {
                Ok(_) => (w, Ok(())),
                Err(e) => (v, Err(e)),
            }
        },
    }
}

/// Whether a place matches the given row, shelf and zone; a missing part matches
/// any.
pub open spec fn address_matches(
    a: AddressView,
    r: Option<Seq<char>>,
    s: Option<Seq<char>>,
    z: Option<Seq<char>>,
) -> bool {
    &&& (r matches Some(x) ==> a.0 == x)
    &&& (s matches Some(x) ==> a.1 == x)
    &&& (z matches Some(x) ==> a.2 == x)
}

/// Whether product `k` is listed for the given row, shelf and zone: the index has
/// it at a matching place and leads to a product.
pub open spec fn listed(
    v: StoreView,
    r: Option<Seq<char>>,
    s: Option<Seq<char>>,
    z: Option<Seq<char>>,
    k: Seq<char>,
) -> bool {
    &&& v.product_map.contains_key(k)
    &&& address_matches(v.product_map[k], r, s, z)
    &&& product_at(v, k) is Some
}

/// Whether the parts given form a prefix of row, shelf, zone.
pub open spec fn valid_address_query(
    r: Option<Seq<char>>,
    s: Option<Seq<char>>,
    z: Option<Seq<char>>,
) -> bool {
    &&& (r is None ==> s is None && z is None)
    &&& (s is None ==> z is None)
}

/// Whether `part` is what `want` asks for; nothing asked matches anything.
fn part_matches(part: &String, want: Option<&str>) -> (r: bool)
    ensures
        r == (opt_str(want) matches Some(x) ==> part@ == x),
{
    match want {
        Some(w) => crate::text::str_eq(part.as_str(), w),
        None => true,
    }
}

/// Setting a zone to what it already holds leaves the rows unchanged.
proof fn lemma_with_same_zone(rows: Map<Seq<char>, RowView>, r: Seq<char>, s: Seq<char>, z: Seq<char>)
    requires
        rows.contains_key(r),
        rows[r].contains_key(s),
        rows[r][s].contains_key(z),
    ensures
        with_zone(rows, r, s, z, rows[r][s][z]) == rows,
{
    let w = with_zone(rows, r, s, z, rows[r][s][z]);
    assert(w[r][s] =~= rows[r][s]);
    assert(w[r] =~= rows[r]);
    assert(w =~= rows);
}

/// Setting the same zone twice keeps only the second setting.
proof fn lemma_with_zone_twice(
    rows: Map<Seq<char>, RowView>,
    r: Seq<char>,
    s: Seq<char>,
    z: Seq<char>,
    first: ZoneView,
    second: ZoneView,
)
    requires
        rows.contains_key(r),
        rows[r].contains_key(s),
    ensures
        with_zone(with_zone(rows, r, s, z, first), r, s, z, second) == with_zone(rows, r, s, z, second),
{
    let w = with_zone(with_zone(rows, r, s, z, first), r, s, z, second);
    let u = with_zone(rows, r, s, z, second);
    assert(w[r][s] =~= u[r][s]);
    assert(w[r] =~= u[r]);
    assert(w =~= u);
}

/// A product added at an existing place whose zone does not hold its id yet is
/// what the index then leads to for its id.
pub proof fn law_added_product_is_found(v: StoreView, r: Seq<char>, s: Seq<char>, z: Seq<char>, p: ProductView)
    requires
        has_zone(v, r, s, z),
        !v.rows[r][s][z].contains_key(p.id),
    ensures
        product_at(add_product_outcome(v, r, s, z, p).0, p.id) == Some(p),
{
}

/// Removing a product just added, under an id that neither the index nor the
/// zone had, gives back the store as it was and hands back the product.
pub proof fn law_remove_undoes_add(v: StoreView, r: Seq<char>, s: Seq<char>, z: Seq<char>, p: ProductView)
    requires
        has_zone(v, r, s, z),
        !v.rows[r][s][z].contains_key(p.id),
        !v.product_map.contains_key(p.id),
    ensures
        add_product_outcome(v, r, s, z, p).1 == Ok::<(), ErrorView>(()),
        remove_product_outcome(add_product_outcome(v, r, s, z, p).0, p.id) == (v, Ok::<
            ProductView,
            ErrorView,
        >(p)),
{
    let mid = add_product_outcome(v, r, s, z, p).0;
    let back = remove_product_outcome(mid, p.id).0;
    assert(mid.rows[r][s][z].remove(p.id) =~= v.rows[r][s][z]);
    lemma_with_zone_twice(v.rows, r, s, z, v.rows[r][s][z].insert(p.id, p), v.rows[r][s][z]);
    lemma_with_same_zone(v.rows, r, s, z);
    assert(back.product_map =~= v.product_map);
}

/// Selling the units just restocked gives back the store as it was, and the
/// product's price.
pub proof fn law_sell_undoes_restock(v: StoreView, id: Seq<char>, units: u32)
    requires
        product_at(v, id) is Some,
        product_at(v, id).unwrap().stock + units <= u32::MAX,
    ensures
        restock_outcome(v, id, units).1 == Ok::<(), ErrorView>(()),
        product_at(restock_outcome(v, id, units).0, id) is Some,
        sell_outcome(restock_outcome(v, id, units).0, id, units) == (v, Ok::<Price, ErrorView>(
            product_at(v, id).unwrap().price,
        )),
{
    let p = product_at(v, id).unwrap();
    let a = v.product_map[id];
    let w = restock_outcome(v, id, units).0;
    assert(w.product_map == v.product_map);
    assert(w.rows[a.0][a.1][a.2][id] == ProductView { stock: (p.stock + units) as u32, ..p });
    let back = sell_outcome(w, id, units).0;
    assert(back.rows[a.0][a.1][a.2] =~= v.rows[a.0][a.1][a.2]);
    assert(back.rows[a.0][a.1] =~= v.rows[a.0][a.1]);
    assert(back.rows[a.0] =~= v.rows[a.0]);
    assert(back.rows =~= v.rows);
}

/// Repricing a product with a price that is not below zero (zero, any positive
/// price, with the sign bit clear) succeeds and the product then has that price
/// and is otherwise unchanged; a negative price is refused and changes nothing.
pub proof fn law_reprice_sets_any_nonnegative_price(v: StoreView, id: Seq<char>, price: Price)
    requires
        product_at(v, id) is Some,
    ensures
        price.bits < 0x8000_0000 ==> reprice_outcome(v, id, price).1 == Ok::<(), ErrorView>(())
            && product_at(reprice_outcome(v, id, price).0, id) == Some(
            ProductView { price, ..product_at(v, id).unwrap() },
        ),
        0x8000_0000 < price.bits <= 0xFF80_0000 ==> reprice_outcome(v, id, price) == (
            v,
            Err::<(), ErrorView>(ErrorView::InvalidPrice(price)),
        ),
{
    if price.bits < 0x8000_0000 {
        let p = product_at(v, id).unwrap();
        let a = v.product_map[id];
        let w = reprice_outcome(v, id, price).0;
        assert(w.product_map == v.product_map);
        assert(has_zone(w, a.0, a.1, a.2));
        assert(w.rows[a.0][a.1][a.2][id] == ProductView { price, ..p });
    }
}

/// `w` is `v` with product `id` moved to zone `z` of shelf `s` of row `r`: the
/// index sends the id there, the product found for the id is the same, the old
/// zone (when it is another zone) no longer holds it, and every other zone is as
/// it was.
pub open spec fn moved(v: StoreView, w: StoreView, id: Seq<char>, r: Seq<char>, s: Seq<char>, z: Seq<char>) -> bool {
    let a = v.product_map[id];
    &&& w.product_map == v.product_map.insert(id, (r, s, z))
    &&& product_at(w, id) == product_at(v, id)
    &&& (a != (r, s, z) ==> has_zone(w, a.0, a.1, a.2) && !w.rows[a.0][a.1][a.2].contains_key(id))
    &&& forall|r2: Seq<char>, s2: Seq<char>, z2: Seq<char>|
        has_zone(v, r2, s2, z2) && (r2, s2, z2) != a && (r2, s2, z2) != (r, s, z) ==> has_zone(
            w,
            r2,
            s2,
            z2,
        ) && #[trigger] w.rows[r2][s2][z2] == v.rows[r2][s2][z2]
}

/// What a successful move comes to, for a product filed under its own id (as
/// every product this store's operations add is): the index sends the id to the
/// new place, the new zone holds the product, the old zone (when it is another
/// zone) no longer holds it, and every other zone is as it was.
pub proof fn lemma_change_position_net(v: StoreView, id: Seq<char>, r: Seq<char>, s: Seq<char>, z: Seq<char>)
    requires
        !address_is_stale(v, id),
    ensures
        change_position_outcome(v, id, r, s, z).1 is Ok ==> product_at(v, id) is Some,
        change_position_outcome(v, id, r, s, z).1 is Ok && product_at(v, id).unwrap().id == id
            ==> moved(v, change_position_outcome(v, id, r, s, z).0, id, r, s, z),
{
    let out = change_position_outcome(v, id, r, s, z);
    if out.1 is Ok {
        assert(v.product_map.contains_key(id));
        let a = v.product_map[id];
        assert(place_error(v, a.0, a.1, a.2) is None);
        assert(product_at(v, id) is Some);
        let p = product_at(v, id).unwrap();
        if p.id == id {
            let w = out.0;
            assert(w.product_map =~= v.product_map.insert(id, (r, s, z)));
        }
    }
}

impl GroceryStore {
    /// An empty store.
    pub fn new() -> (s: Self)
        ensures
            s@ == (StoreView { rows: Map::empty(), product_map: Map::empty() }),
    {
        GroceryStore { rows: NameMap::new(), product_map: NameMap::new() }
    }

    /// Adds an empty row; a row of that name that exists is kept as it is and
    /// reported.
    pub fn add_row(&mut self, row_name: &str) -> (r: Result<(), GroceryErrors>)
        ensures
            (final(self)@, outcome_of(r)) == add_row_outcome(old(self)@, row_name@),
    {
        if self.rows.contains_key(row_name) {
            return Err(GroceryErrors::RowAlreadyExists(String::from_str(row_name)));
        }
        let _ = self.rows.insert(row_name, Row::new());
        Ok(())
    }

    /// Adds an empty shelf to a row; a shelf of that name that exists is kept as
    /// it is and reported. Nothing happens when the row is missing.
    pub fn add_shelf(&mut self, row_name: &str, shelf_name: &str) -> (r: Result<(), GroceryErrors>)
        ensures
            (final(self)@, outcome_of(r)) == add_shelf_outcome(old(self)@, row_name@, shelf_name@),
    {
        match self.rows.get(row_name) {
            None => {
                return Ok(());
            },
            Some(row) => {
                if row.shelves.contains_key(shelf_name) {
                    return Err(
                        GroceryErrors::ShelfAlreadyExists(
                            String::from_str(row_name),
                            String::from_str(shelf_name),
                        ),
                    );
                }
            },
        }
        let ghost before = self@;
        let mut row = self.rows.remove(row_name).unwrap();
        let _ = row.shelves.insert(shelf_name, Shelf::new());
        let ghost rv = row@;
        let _ = self.rows.insert(row_name, row);
        assert(self@.rows =~= before.rows.insert(row_name@, rv));
        Ok(())
    }

    /// Adds an empty zone to a shelf; a zone of that name that exists is kept as
    /// it is and reported. Nothing happens when the row or shelf is missing.
    pub fn add_zone(&mut self, row_name: &str, shelf_name: &str, zone_name: &str) -> (r: Result<
        (),
        GroceryErrors,
    >)
        ensures
            (final(self)@, outcome_of(r)) == add_zone_outcome(
                old(self)@,
                row_name@,
                shelf_name@,
                zone_name@,
            ),
    {
        match self.rows.get(row_name) {
            None => {
                return Ok(());
            },
            Some(row) => match row.shelves.get(shelf_name) {
                None => {
                    return Ok(());
                },
                Some(shelf) => {
                    if shelf.zones.contains_key(zone_name) {
                        return Err(
                            GroceryErrors::ZoneAlreadyExists(
                                String::from_str(row_name),
                                String::from_str(shelf_name),
                                String::from_str(zone_name),
                            ),
                        );
                    }
                },
            },
        }
        let ghost before = self@;
        let mut row = self.rows.remove(row_name).unwrap();
        let mut shelf = row.shelves.remove(shelf_name).unwrap();
        let _ = shelf.zones.insert(zone_name, Zone::new());
        let ghost sv = shelf@;
        let _ = row.shelves.insert(shelf_name, shelf);
        assert(row@ =~= before.rows[row_name@].insert(shelf_name@, sv));
        let ghost rv = row@;
        let _ = self.rows.insert(row_name, row);
        assert(self@.rows =~= before.rows.insert(row_name@, rv));
        assert(self@.rows =~= with_zone(before.rows, row_name@, shelf_name@, zone_name@, ZoneView::empty()));
        Ok(())
    }

    /// The error for a place that does not exist, or `None` when it does.
    fn place_error(&self, row_name: &str, shelf_name: &str, zone_name: &str) -> (e: Option<
        GroceryErrors,
    >)
        ensures
            match e {
                Some(err) => place_error(self@, row_name@, shelf_name@, zone_name@) == Some(err@),
                None => place_error(self@, row_name@, shelf_name@, zone_name@) is None,
            },
    {
        match self.rows.get(row_name) {
            None => Some(GroceryErrors::RowNotFound(String::from_str(row_name))),
            Some(row) => match row.shelves.get(shelf_name) {
                None => Some(
                    GroceryErrors::ShelfNotFound(
                        String::from_str(row_name),
                        String::from_str(shelf_name),
                    ),
                ),
                Some(shelf) => {
                    if shelf.zones.contains_key(zone_name) {
                        None
                    } else {
                        Some(
                            GroceryErrors::ZoneNotFound(
                                String::from_str(row_name),
                                String::from_str(shelf_name),
                                String::from_str(zone_name),
                            ),
                        )
                    }
                },
            },
        }
    }

    /// Puts `product` under `key` in an existing zone, handing back what the key held.
    fn put_product(
        &mut self,
        row_name: &str,
        shelf_name: &str,
        zone_name: &str,
        key: &str,
        product: Product,
    ) -> (previous: Option<Product>)
        requires
            has_zone(old(self)@, row_name@, shelf_name@, zone_name@),
        ensures
            final(self)@ == (StoreView {
                rows: with_zone(
                    old(self)@.rows,
                    row_name@,
                    shelf_name@,
                    zone_name@,
                    old(self)@.rows[row_name@][shelf_name@][zone_name@].insert(key@, product@),
                ),
                ..old(self)@
            }),
            match previous {
                Some(p) => old(self)@.rows[row_name@][shelf_name@][zone_name@].contains_key(key@)
                    && p@ == old(self)@.rows[row_name@][shelf_name@][zone_name@][key@],
                None => !old(self)@.rows[row_name@][shelf_name@][zone_name@].contains_key(key@),
            },
    {
        let ghost before = self@;
        let mut row = self.rows.remove(row_name).unwrap();
        let mut shelf = row.shelves.remove(shelf_name).unwrap();
        let mut zone = shelf.zones.remove(zone_name).unwrap();
        let previous = zone.products.insert(key, product);
        let ghost zv = zone@;
        let _ = shelf.zones.insert(zone_name, zone);
        assert(shelf@ =~= before.rows[row_name@][shelf_name@].insert(zone_name@, zv));
        let ghost sv = shelf@;
        let _ = row.shelves.insert(shelf_name, shelf);
        assert(row@ =~= before.rows[row_name@].insert(shelf_name@, sv));
        let ghost rv = row@;
        let _ = self.rows.insert(row_name, row);
        assert(self@.rows =~= before.rows.insert(row_name@, rv));
        assert(self@.rows =~= with_zone(
            before.rows,
            row_name@,
            shelf_name@,
            zone_name@,
            before.rows[row_name@][shelf_name@][zone_name@].insert(key@, product@),
        ));
        previous
    }

    /// Takes the product under `key` out of an existing zone.
    fn take_product(&mut self, row_name: &str, shelf_name: &str, zone_name: &str, key: &str) -> (taken:
        Option<Product>)
        requires
            has_zone(old(self)@, row_name@, shelf_name@, zone_name@),
        ensures
            final(self)@ == (StoreView {
                rows: with_zone(
                    old(self)@.rows,
                    row_name@,
                    shelf_name@,
                    zone_name@,
                    old(self)@.rows[row_name@][shelf_name@][zone_name@].remove(key@),
                ),
                ..old(self)@
            }),
            match taken {
                Some(p) => old(self)@.rows[row_name@][shelf_name@][zone_name@].contains_key(key@)
                    && p@ == old(self)@.rows[row_name@][shelf_name@][zone_name@][key@],
                None => !old(self)@.rows[row_name@][shelf_name@][zone_name@].contains_key(key@),
            },
    {
        let ghost before = self@;
        let mut row = self.rows.remove(row_name).unwrap();
        let mut shelf = row.shelves.remove(shelf_name).unwrap();
        let mut zone = shelf.zones.remove(zone_name).unwrap();
        let taken = zone.products.remove(key);
        let ghost zv = zone@;
        let _ = shelf.zones.insert(zone_name, zone);
        assert(shelf@ =~= before.rows[row_name@][shelf_name@].insert(zone_name@, zv));
        let ghost sv = shelf@;
        let _ = row.shelves.insert(shelf_name, shelf);
        assert(row@ =~= before.rows[row_name@].insert(shelf_name@, sv));
        let ghost rv = row@;
        let _ = self.rows.insert(row_name, row);
        assert(self@.rows =~= before.rows.insert(row_name@, rv));
        assert(self@.rows =~= with_zone(
            before.rows,
            row_name@,
            shelf_name@,
            zone_name@,
            before.rows[row_name@][shelf_name@][zone_name@].remove(key@),
        ));
        taken
    }

    /// Whether an existing zone holds a product under `key`.
    fn zone_holds(&self, row_name: &str, shelf_name: &str, zone_name: &str, key: &str) -> (b: bool)
        requires
            has_zone(self@, row_name@, shelf_name@, zone_name@),
        ensures
            b == self@.rows[row_name@][shelf_name@][zone_name@].contains_key(key@),
    {
        let row = self.rows.get(row_name).unwrap();
        let shelf = row.shelves.get(shelf_name).unwrap();
        let zone = shelf.zones.get(zone_name).unwrap();
        zone.products.contains_key(key)
    }

    /// Adds `product` at a place. The place must exist and its zone must not
    /// hold the product's id yet; then the index sends the product's id there
    /// and the zone holds the product under its id. On any error nothing
    /// changes.
    pub fn add_product(
        &mut self,
        row_name: &str,
        shelf_name: &str,
        zone_name: &str,
        product: Product,
    ) -> (r: Result<(), GroceryErrors>)
        ensures
            (final(self)@, outcome_of(r)) == add_product_outcome(
                old(self)@,
                row_name@,
                shelf_name@,
                zone_name@,
                product@,
            ),
    {
        if let Some(e) = self.place_error(row_name, shelf_name, zone_name) {
            return Err(e);
        }
        if self.zone_holds(row_name, shelf_name, zone_name, product.id.as_str()) {
            return Err(
                GroceryErrors::ProductAlreadyExists(
                    String::from_str(row_name),
                    String::from_str(shelf_name),
                    String::from_str(zone_name),
                    product,
                ),
            );
        }
        let _ = self.product_map.insert(
            product.id.as_str(),
            (String::from_str(row_name), String::from_str(shelf_name), String::from_str(zone_name)),
        );
        let id = product.id.clone();
        let _ = self.put_product(row_name, shelf_name, zone_name, id.as_str(), product);
        Ok(())
    }

    /// Removes the product that the index leads to for `id` and hands it back.
    pub fn remove_product(&mut self, id: &str) -> (r: Result<Product, GroceryErrors>)
        requires
            !address_is_stale(old(self)@, id@),
        ensures
            (final(self)@, outcome_of(r)) == remove_product_outcome(old(self)@, id@),
    {
        let (row_name, shelf_name, zone_name) = match self.find_address_from_id(id) {
            Some(address) => address,
            None => {
                return Err(GroceryErrors::ProductNotFound(String::from_str(id)));
            },
        };
        if let Some(e) = self.place_error(row_name.as_str(), shelf_name.as_str(), zone_name.as_str()) {
            return Err(e);
        }
        let taken = self.take_product(row_name.as_str(), shelf_name.as_str(), zone_name.as_str(), id);
        let _ = self.product_map.remove(id);
        match taken {
            Some(product) => Ok(product),
            None => {
                proof {
                    assert(false);
                }
                Err(GroceryErrors::ProductNotFound(String::from_str(id)))
            },
        }
    }

    /// The place that the index gives for `id`.
    pub fn find_address_from_id(&self, product_id: &str) -> (r: Option<(String, String, String)>)
        ensures
            match r {
                Some(a) => self@.product_map.contains_key(product_id@) && a@
                    == self@.product_map[product_id@],
                None => !self@.product_map.contains_key(product_id@),
            },
    {
        match self.product_map.get(product_id) {
            Some(a) => Some((a.0.clone(), a.1.clone(), a.2.clone())),
            None => None,
        }
    }

    /// Whether the index sends `id` to an existing zone that no longer holds it;
    /// removing or moving such a product is not possible.
    pub fn has_stale_address(&self, id: &str) -> (r: bool)
        ensures
            r == address_is_stale(self@, id@),
    {
        match self.find_address_from_id(id) {
            None => false,
            Some((row_name, shelf_name, zone_name)) => self.place_error(
                row_name.as_str(),
                shelf_name.as_str(),
                zone_name.as_str(),
            ).is_none() && self.get_product_from_id(id).is_none(),
        }
    }

    /// The product that the index leads to for `id`.
    pub fn get_product_from_id(&self, product_id: &str) -> (r: Option<&Product>)
        ensures
            match r {
                Some(p) => product_at(self@, product_id@) == Some(p@),
                None => product_at(self@, product_id@) is None,
            },
    {
        let a = self.product_map.get(product_id)?;
        let row = self.rows.get(a.0.as_str())?;
        let shelf = row.shelves.get(a.1.as_str())?;
        let zone = shelf.zones.get(a.2.as_str())?;
        zone.products.get(product_id)
    }

    /// Replaces the product that the index leads to for `id`.
    fn replace_found(&mut self, id: &str, product: Product)
        requires
            product_at(old(self)@, id@) is Some,
        ensures
            final(self)@ == with_product(old(self)@, id@, product@),
    {
        let (row_name, shelf_name, zone_name) = self.find_address_from_id(id).unwrap();
        let _ = self.put_product(row_name.as_str(), shelf_name.as_str(), zone_name.as_str(), id, product);
    }

    /// Adds `units` to the stock of product `id`; a sum past `u32::MAX` is refused.
    pub fn restock_product(&mut self, id: &str, units: u32) -> (r: Result<(), GroceryErrors>)
        ensures
            (final(self)@, outcome_of(r)) == restock_outcome(old(self)@, id@, units),
    {
        let mut product = match self.get_product_from_id(id) {
            Some(p) => p.duplicate(),
            None => {
                return Err(GroceryErrors::ProductNotFound(String::from_str(id)));
            },
        };
        match product.stock.checked_add(units) {
            Some(stock) => {
                product.stock = stock;
                self.replace_found(id, product);
                Ok(())
            },
            None => Err(GroceryErrors::U32Overflow(units, product.stock)),
        }
    }

    /// Takes `units` from the stock of product `id` and hands back its unit price,
    /// from which the seller's takings grow; more units than in stock are refused.
    pub fn sell_product(&mut self, id: &str, units: u32) -> (r: Result<Price, GroceryErrors>)
        requires
            product_at(old(self)@, id@) is Some,
        ensures
            (final(self)@, outcome_of(r)) == sell_outcome(old(self)@, id@, units),
    {
        let mut product = self.get_product_from_id(id).unwrap().duplicate();
        if units > product.stock {
            Err(GroceryErrors::NotEnoughStock(String::from_str(id), units, product.stock))
        } else {
            product.stock = product.stock - units;
            let price = product.price;
            self.replace_found(id, product);
            Ok(price)
        }
    }

    /// Renames product `id`.
    pub fn change_product_name(&mut self, id: &str, new_name: &str) -> (r: Result<(), GroceryErrors>)
        ensures
            (final(self)@, outcome_of(r)) == rename_outcome(old(self)@, id@, new_name@),
    {
        let mut product = match self.get_product_from_id(id) {
            Some(p) => p.duplicate(),
            None => {
                return Err(GroceryErrors::ProductNotFound(String::from_str(id)));
            },
        };
        product.name = String::from_str(new_name);
        self.replace_found(id, product);
        Ok(())
    }

    /// Sets the price of product `id`; a price below zero is refused.
    pub fn change_product_price(&mut self, id: &str, new_price: Price) -> (r: Result<
        (),
        GroceryErrors,
    >)
        ensures
            (final(self)@, outcome_of(r)) == reprice_outcome(old(self)@, id@, new_price),
    {
        if new_price.is_below_zero() {
            return Err(GroceryErrors::InvalidPrice(new_price));
        }
        let mut product = match self.get_product_from_id(id) {
            Some(p) => p.duplicate(),
            None => {
                return Err(GroceryErrors::ProductNotFound(String::from_str(id)));
            },
        };
        product.price = new_price;
        self.replace_found(id, product);
        Ok(())
    }

    /// Moves product `id` to a place: takes it out of its zone and the index,
    /// then adds it at the new place. When it cannot be added there it goes
    /// back where it was, and the error of adding is answered.
    pub fn change_product_position(
        &mut self,
        id: &str,
        row_name: &str,
        shelf_name: &str,
        zone_name: &str,
    ) -> (r: Result<(), GroceryErrors>)
        requires
            !address_is_stale(old(self)@, id@),
        ensures
            (final(self)@, outcome_of(r)) == change_position_outcome(
                old(self)@,
                id@,
                row_name@,
                shelf_name@,
                zone_name@,
            ),
            r is Ok ==> product_at(old(self)@, id@) is Some,
            r is Ok && product_at(old(self)@, id@).unwrap().id == id@ ==> moved(
                old(self)@,
                final(self)@,
                id@,
                row_name@,
                shelf_name@,
                zone_name@,
            ),
    {
        proof {
            lemma_change_position_net(old(self)@, id@, row_name@, shelf_name@, zone_name@);
        }
        let ghost before = self@;
        let address = self.find_address_from_id(id);
        let product = match self.remove_product(id) {
            Ok(product) => product,
            Err(e) => {
                return Err(e);
            },
        };
        let (old_row, old_shelf, old_zone) = address.unwrap();
        let back = product.duplicate();
        let ghost mid = self@;
        match self.add_product(row_name, shelf_name, zone_name, product) {
            Ok(()) => Ok(()),
            Err(e) => {
                let _ = self.put_product(old_row.as_str(), old_shelf.as_str(), old_zone.as_str(), id, back);
                let _ = self.product_map.insert(id, (old_row, old_shelf, old_zone));
                proof {
                    let a = before.product_map[id@];
                    let zv = before.rows[a.0][a.1][a.2];
                    assert(zv.remove(id@).insert(id@, zv[id@]) =~= zv);
                    lemma_with_zone_twice(before.rows, a.0, a.1, a.2, zv.remove(id@), zv);
                    lemma_with_same_zone(before.rows, a.0, a.1, a.2);
                    assert(self@.product_map =~= before.product_map);
                }
                Err(e)
            },
        }
    }

    /// The ids of the products listed for the given row, shelf and zone, each once.
    fn ids_where(&self, row_name: Option<&str>, shelf_name: Option<&str>, zone_name: Option<&str>) -> (ids:
        Vec<String>)
        ensures
            views_of(ids@).no_duplicates(),
            forall|k: Seq<char>|
                #[trigger] views_of(ids@).contains(k) == listed(
                    self@,
                    opt_str(row_name),
                    opt_str(shelf_name),
                    opt_str(zone_name),
                    k,
                ),
    {
        let ghost r = opt_str(row_name);
        let ghost s = opt_str(shelf_name);
        let ghost z = opt_str(zone_name);
        let keys = self.product_map.keys();
        let mut ids: Vec<String> = Vec::new();
        let mut i: usize = 0;
        while i < keys.len()
            invariant
                i <= keys@.len(),
                r == opt_str(row_name),
                s == opt_str(shelf_name),
                z == opt_str(zone_name),
                views_of(keys@).no_duplicates(),
                forall|k: Seq<char>| #[trigger] views_of(keys@).contains(k) == self@.product_map.contains_key(k),
                forall|a: int, b: int| 0 <= a < b < ids@.len() ==> ids@[a]@ != ids@[b]@,
                forall|a: int| 0 <= a < ids@.len() ==> exists|j: int| 0 <= j < i && (#[trigger] ids@[a])@ == keys@[j]@,
                forall|a: int| 0 <= a < ids@.len() ==> listed(self@, r, s, z, (#[trigger] ids@[a])@),
                forall|j: int| 0 <= j < i && listed(self@, r, s, z, (#[trigger] keys@[j])@) ==> exists|a: int|
                    0 <= a < ids@.len() && ids@[a]@ == keys@[j]@,
            decreases keys@.len() - i,
        {
            let ghost old_ids = ids@;
            let key = keys[i].as_str();
            assert(views_of(keys@)[i as int] == keys@[i as int]@);
            assert(views_of(keys@).contains(key@));
            let a = self.product_map.get(key).unwrap();
            if part_matches(&a.0, row_name) && part_matches(&a.1, shelf_name) && part_matches(
                &a.2,
                zone_name,
            ) && self.get_product_from_id(key).is_some() {
                proof {
                    assert forall|b: int| 0 <= b < ids@.len() implies ids@[b]@ != key@ by {
                        let j = choose|j: int| 0 <= j < i && (#[trigger] ids@[b])@ == keys@[j]@;
                        assert(views_of(keys@)[j] == keys@[j]@);
                    }
                }
                assert(listed(self@, r, s, z, key@));
                ids.push(keys[i].clone());
                assert(ids@[ids@.len() - 1]@ == keys@[i as int]@);
            } else {
                assert(!listed(self@, r, s, z, keys@[i as int]@));
            }
            i += 1;
            assert forall|j: int| 0 <= j < i && listed(self@, r, s, z, (#[trigger] keys@[j])@) implies exists|
                a: int,
            | 0 <= a < ids@.len() && ids@[a]@ == keys@[j]@ by {
                if j < i - 1 {
                    let a = choose|a: int| 0 <= a < old_ids.len() && old_ids[a]@ == keys@[j]@;
                    assert(ids@[a] == old_ids[a]);
                } else {
                    assert(ids@[ids@.len() - 1]@ == keys@[j]@);
                }
            }
        }
        proof {
            let vi = views_of(ids@);
            assert forall|a: int, b: int| 0 <= a < vi.len() && 0 <= b < vi.len() && a != b implies vi[a]
                != vi[b] by {
                if a < b {
                    assert(ids@[a]@ != ids@[b]@);
                } else {
                    assert(ids@[b]@ != ids@[a]@);
                }
            }
            assert forall|k: Seq<char>| #[trigger] vi.contains(k) == listed(self@, r, s, z, k) by {
                if vi.contains(k) {
                    let a = choose|a: int| 0 <= a < vi.len() && vi[a] == k;
                    assert(ids@[a]@ == k);
                }
                if listed(self@, r, s, z, k) {
                    assert(views_of(keys@).contains(k));
                    let j = choose|j: int| 0 <= j < views_of(keys@).len() && views_of(keys@)[j] == k;
                    assert(keys@[j]@ == k);
                    let a = choose|a: int| 0 <= a < ids@.len() && ids@[a]@ == keys@[j]@;
                    assert(vi[a] == k);
                }
            }
        }
        ids
    }

    /// The ids of all products, each once.
    pub fn list_products(&self) -> (ids: Vec<String>)
        ensures
            views_of(ids@).no_duplicates(),
            forall|k: Seq<char>| #[trigger] views_of(ids@).contains(k) == listed(self@, None, None, None, k),
    {
        self.ids_where(None, None, None)
    }

    /// The ids of the products in a row, each once.
    pub fn list_products_at_row(&self, row_name: &str) -> (ids: Vec<String>)
        ensures
            views_of(ids@).no_duplicates(),
            forall|k: Seq<char>| #[trigger] views_of(ids@).contains(k) == listed(
                self@,
                Some(row_name@),
                None,
                None,
                k,
            ),
    {
        self.ids_where(Some(row_name), None, None)
    }

    /// The ids of the products on a shelf, each once.
    pub fn list_products_at_shelf(&self, row_name: &str, shelf_name: &str) -> (ids: Vec<String>)
        ensures
            views_of(ids@).no_duplicates(),
            forall|k: Seq<char>| #[trigger] views_of(ids@).contains(k) == listed(
                self@,
                Some(row_name@),
                Some(shelf_name@),
                None,
                k,
            ),
    {
        self.ids_where(Some(row_name), Some(shelf_name), None)
    }

    /// The ids of the products in a zone, each once.
    pub fn list_products_at_zone(&self, row_name: &str, shelf_name: &str, zone_name: &str) -> (ids:
        Vec<String>)
        ensures
            views_of(ids@).no_duplicates(),
            forall|k: Seq<char>| #[trigger] views_of(ids@).contains(k) == listed(
                self@,
                Some(row_name@),
                Some(shelf_name@),
                Some(zone_name@),
                k,
            ),
    {
        self.ids_where(Some(row_name), Some(shelf_name), Some(zone_name))
    }

    /// The ids of the products at a partial place, each once: the parts given must
    /// be a prefix of row, shelf, zone, and any other combination is refused.
    pub fn list_products_at_address(
        &self,
        row_name: Option<&str>,
        shelf_name: Option<&str>,
        zone_name: Option<&str>,
    ) -> (r: Result<Vec<String>, GroceryErrors>)
        ensures
            valid_address_query(opt_str(row_name), opt_str(shelf_name), opt_str(zone_name)) ==> (r matches Ok(
                ids,
            ) && views_of(ids@).no_duplicates() && forall|k: Seq<char>|
                #[trigger] views_of(ids@).contains(k) == listed(
                    self@,
                    opt_str(row_name),
                    opt_str(shelf_name),
                    opt_str(zone_name),
                    k,
                )),
            !valid_address_query(opt_str(row_name), opt_str(shelf_name), opt_str(zone_name)) ==> (r matches Err(
                e,
            ) && e@ == ErrorView::InvalidArguments(
                opt_str(row_name),
                opt_str(shelf_name),
                opt_str(zone_name),
            )),
    {
        match (row_name, shelf_name, zone_name) {
            (Some(_), Some(_), Some(_)) => Ok(self.ids_where(row_name, shelf_name, zone_name)),
            (Some(_), Some(_), None) => Ok(self.ids_where(row_name, shelf_name, None)),
            (Some(_), None, None) => Ok(self.ids_where(row_name, None, None)),
            (None, None, None) => Ok(self.ids_where(None, None, None)),
            _ => Err(
                GroceryErrors::InvalidArguments(
                    owned_text(row_name),
                    owned_text(shelf_name),
                    owned_text(zone_name),
                ),
            ),
        }
    }
}

/// An owned copy of an optional string slice.
fn owned_text(o: Option<&str>) -> (r: Option<String>)
    ensures
        opt_text(r) == opt_str(o),
{
    match o {
        Some(s) => Some(String::from_str(s)),
        None => None,
    }
}

/// The layout of the example store: two rows of two shelves of two empty zones,
/// and an empty index.
pub open spec fn example_layout() -> StoreView {
    let empty = ZoneView::empty();
    StoreView {
        rows: map![
            "food"@ => map![
                "healthy"@ => map!["fruits"@ => empty, "veggies"@ => empty],
                "snacks"@ => map!["chips"@ => empty, "cookies"@ => empty],
            ],
            "beverages"@ => map![
                "alcohol"@ => map!["beers"@ => empty, "wines"@ => empty],
                "soft_drinks"@ => map!["juices"@ => empty, "sodas"@ => empty],
            ],
        ],
        product_map: Map::empty(),
    }
}

/// The example store, with its rows, shelves and zones and no products.
pub fn build_store() -> (r: Result<GroceryStore, GroceryErrors>)
    ensures
        r matches Ok(store) && store@ == example_layout(),
{
    proof {
        reveal_strlit("food");
        reveal_strlit("beverages");
        reveal_strlit("healthy");
        reveal_strlit("snacks");
        reveal_strlit("alcohol");
        reveal_strlit("soft_drinks");
        reveal_strlit("fruits");
        reveal_strlit("veggies");
        reveal_strlit("chips");
        reveal_strlit("cookies");
        reveal_strlit("beers");
        reveal_strlit("wines");
        reveal_strlit("juices");
        reveal_strlit("sodas");
        assert("food"@.len() != "beverages"@.len());
        assert("healthy"@.len() != "snacks"@.len());
        assert("alcohol"@.len() != "soft_drinks"@.len());
        assert("fruits"@.len() != "veggies"@.len());
        assert("chips"@.len() != "cookies"@.len());
        assert("beers"@[0] != "wines"@[0]);
        assert("juices"@.len() != "sodas"@.len());
    }
    let mut store = GroceryStore::new();
    store.add_row("food")?;
    store.add_row("beverages")?;
    store.add_shelf("food", "healthy")?;
    store.add_shelf("food", "snacks")?;
    store.add_shelf("beverages", "alcohol")?;
    store.add_shelf("beverages", "soft_drinks")?;
    store.add_zone("food", "healthy", "fruits")?;
    store.add_zone("food", "healthy", "veggies")?;
    store.add_zone("food", "snacks", "chips")?;
    store.add_zone("food", "snacks", "cookies")?;
    store.add_zone("beverages", "alcohol", "beers")?;
    store.add_zone("beverages", "alcohol", "wines")?;
    store.add_zone("beverages", "soft_drinks", "juices")?;
    store.add_zone("beverages", "soft_drinks", "sodas")?;
    assert(store@.rows["food"@]["healthy"@] =~= example_layout().rows["food"@]["healthy"@]);
    assert(store@.rows["food"@]["snacks"@] =~= example_layout().rows["food"@]["snacks"@]);
    assert(store@.rows["beverages"@]["alcohol"@] =~= example_layout().rows["beverages"@]["alcohol"@]);
    assert(store@.rows["beverages"@]["soft_drinks"@] =~= example_layout().rows["beverages"@]["soft_drinks"@]);
    assert(store@.rows["food"@] =~= example_layout().rows["food"@]);
    assert(store@.rows["beverages"@] =~= example_layout().rows["beverages"@]);
    assert(store@.rows =~= example_layout().rows);
    assert(store@.product_map =~= example_layout().product_map);
    Ok(store)
}

/// An id typed on a line: the line without surrounding white space.
pub fn product_id_input(line: &str) -> (id: String)
    ensures
        id@ == trimmed(line@),
{
    trim(line)
}

/// A place typed on three lines, row, shelf and zone, each without surrounding
/// white space.
pub fn address_input(row_line: &str, shelf_line: &str, zone_line: &str) -> (a: (String, String, String))
    ensures
        a.0@ == trimmed(row_line@),
        a.1@ == trimmed(shelf_line@),
        a.2@ == trimmed(zone_line@),
{
    (trim(row_line), trim(shelf_line), trim(zone_line))
}

/// The next step of reading a partial place: a prompt to show, or the place read.
pub enum PartialAddressStep {
    Ask(&'static str),
    Done(Option<String>, Option<String>, Option<String>),
}

/// Whether the answers so far ask for another part: an empty answer ends the
/// place, and so does the zone.
pub open spec fn needs_more(a: Seq<Seq<char>>) -> bool {
    ||| a.len() == 0
    ||| a.len() == 1 && a[0].len() > 0
    ||| a.len() == 2 && a[0].len() > 0 && a[1].len() > 0
}

/// The prompt for the part after `n` answers.
pub open spec fn prompt_for(n: nat) -> Seq<char> {
    if n == 0 {
        "Enter row: "@
    } else if n == 1 {
        "Enter shelf: "@
    } else {
        "Enter zone: "@
    }
}

/// The place that the answers give: the answers before the first empty one, in
/// the order row, shelf, zone.
pub open spec fn partial_address(a: Seq<Seq<char>>) -> (
    Option<Seq<char>>,
    Option<Seq<char>>,
    Option<Seq<char>>,
) {
    if a.len() == 0 || a[0].len() == 0 {
        (None, None, None)
    } else if a.len() == 1 || a[1].len() == 0 {
        (Some(a[0]), None, None)
    } else if a.len() == 2 || a[2].len() == 0 {
        (Some(a[0]), Some(a[1]), None)
    } else {
        (Some(a[0]), Some(a[1]), Some(a[2]))
    }
}

/// Decides the next step of reading a partial place from the (trimmed) answers
/// read so far.
pub fn partial_address_input(answers: &Vec<String>) -> (step: PartialAddressStep)
    ensures
        needs_more(views_of(answers@)) ==> (step matches PartialAddressStep::Ask(p) && p@ == prompt_for(
            answers@.len(),
        )),
        !needs_more(views_of(answers@)) ==> (step matches PartialAddressStep::Done(r, s, z) && (
            opt_text(r),
            opt_text(s),
            opt_text(z),
        ) == partial_address(views_of(answers@))),
{
    proof {
        reveal_strlit("Enter row: ");
        reveal_strlit("Enter shelf: ");
        reveal_strlit("Enter zone: ");
    }
    let ghost a = views_of(answers@);
    let n = answers.len();
    if n == 0 {
        return PartialAddressStep::Ask("Enter row: ");
    }
    assert(a[0] == answers@[0]@);
    if answers[0].as_str().unicode_len() == 0 {
        return PartialAddressStep::Done(None, None, None);
    }
    if n == 1 {
        return PartialAddressStep::Ask("Enter shelf: ");
    }
    assert(a[1] == answers@[1]@);
    if answers[1].as_str().unicode_len() == 0 {
        return PartialAddressStep::Done(Some(answers[0].clone()), None, None);
    }
    if n == 2 {
        return PartialAddressStep::Ask("Enter zone: ");
    }
    assert(a[2] == answers@[2]@);
    if answers[2].as_str().unicode_len() == 0 {
        return PartialAddressStep::Done(Some(answers[0].clone()), Some(answers[1].clone()), None);
    }
    PartialAddressStep::Done(
        Some(answers[0].clone()),
        Some(answers[1].clone()),
        Some(answers[2].clone()),
    )
}

/// A product of the example stock.
pub open spec fn stock_item(id: Seq<char>, name: Seq<char>, date: Seq<char>, bits: u32, stock: u32) -> ProductView {
    ProductView { id, name, expiration_date: date, price: Price { bits }, stock }
}

/// Adds product `p` at a place unless an earlier step failed; a failure is kept.
pub open spec fn then_add(
    o: (StoreView, Result<(), ErrorView>),
    r: Seq<char>,
    s: Seq<char>,
    z: Seq<char>,
    p: ProductView,
) -> (StoreView, Result<(), ErrorView>) {
    match o.1 {
        Ok(_) => add_product_outcome(o.0, r, s, z, p),
        Err(_) => o,
    }
}

/// What stocking the example products leaves and answers: the sixteen products
/// are added one by one, and the first failure ends the stocking.
pub open spec fn stock_outcome(v: StoreView) -> (StoreView, Result<(), ErrorView>) {
    then_add(
        then_add(
        then_add(
        then_add(
        then_add(
        then_add(
        then_add(
        then_add(
        then_add(
        then_add(
        then_add(
        then_add(
        then_add(
        then_add(
        then_add(
        then_add(
        (v, Ok(())),
        "food"@,
        "healthy"@,
        "fruits"@,
        stock_item("01"@, "apple"@, "2025-04-20"@, 0x3f99999a, 50),
    ),
        "food"@,
        "healthy"@,
        "veggies"@,
        stock_item("02"@, "carrot"@, "2025-05-10"@, 0x3f4ccccd, 40),
    ),
        "food"@,
        "snacks"@,
        "chips"@,
        stock_item("03"@, "pringles"@, "2026-01-15"@, 0x40200000, 30),
    ),
        "food"@,
        "snacks"@,
        "cookies"@,
        stock_item("04"@, "oreo"@, "2026-03-05"@, 0x40400000, 25),
    ),
        "beverages"@,
        "alcohol"@,
        "beers"@,
        stock_item("05"@, "superbock"@, "2026-12-01"@, 0x3fc00000, 60),
    ),
        "beverages"@,
        "alcohol"@,
        "wines"@,
        stock_item("06"@, "red_wine"@, "2030-06-01"@, 0x41200000, 20),
    ),
        "beverages"@,
        "soft_drinks"@,
        "juices"@,
        stock_item("07"@, "orange_juice"@, "2025-07-15"@, 0x400ccccd, 35),
    ),
        "beverages"@,
        "soft_drinks"@,
        "sodas"@,
        stock_item("08"@, "coke"@, "2026-02-20"@, 0x3fe00000, 45),
    ),
        "food"@,
        "healthy"@,
        "fruits"@,
        stock_item("09"@, "banana"@, "2025-04-15"@, 0x3f8ccccd, 55),
    ),
        "food"@,
        "healthy"@,
        "veggies"@,
        stock_item("10"@, "tomato"@, "2025-04-30"@, 0x3fa66666, 40),
    ),
        "food"@,
        "snacks"@,
        "chips"@,
        stock_item("11"@, "cheetos"@, "2026-02-10"@, 0x40333333, 28),
    ),
        "food"@,
        "snacks"@,
        "cookies"@,
        stock_item("12"@, "filipinos"@, "2026-05-01"@, 0x404ccccd, 22),
    ),
        "beverages"@,
        "alcohol"@,
        "beers"@,
        stock_item("13"@, "sagres"@, "2027-01-10"@, 0x3fcccccd, 58),
    ),
        "beverages"@,
        "alcohol"@,
        "wines"@,
        stock_item("14"@, "white_wine"@, "2031-08-15"@, 0x41400000, 18),
    ),
        "beverages"@,
        "soft_drinks"@,
        "juices"@,
        stock_item("15"@, "apple_juice"@, "2025-09-10"@, 0x4019999a, 33),
    ),
        "beverages"@,
        "soft_drinks"@,
        "sodas"@,
        stock_item("16"@, "pepsi"@, "2026-03-25"@, 0x3fe66666, 42),
    )
}

/// The example store stocked: two products in each of its eight zones, and the
/// index sending each product to its zone.
pub open spec fn example_stock() -> StoreView {
    StoreView {
        rows: map![
            "food"@ => map![
                "healthy"@ => map!["fruits"@ => map!["01"@ => stock_item("01"@, "apple"@, "2025-04-20"@, 0x3f99999a, 50), "09"@ => stock_item("09"@, "banana"@, "2025-04-15"@, 0x3f8ccccd, 55)], "veggies"@ => map!["02"@ => stock_item("02"@, "carrot"@, "2025-05-10"@, 0x3f4ccccd, 40), "10"@ => stock_item("10"@, "tomato"@, "2025-04-30"@, 0x3fa66666, 40)]],
                "snacks"@ => map!["chips"@ => map!["03"@ => stock_item("03"@, "pringles"@, "2026-01-15"@, 0x40200000, 30), "11"@ => stock_item("11"@, "cheetos"@, "2026-02-10"@, 0x40333333, 28)], "cookies"@ => map!["04"@ => stock_item("04"@, "oreo"@, "2026-03-05"@, 0x40400000, 25), "12"@ => stock_item("12"@, "filipinos"@, "2026-05-01"@, 0x404ccccd, 22)]],
            ],
            "beverages"@ => map![
                "alcohol"@ => map!["beers"@ => map!["05"@ => stock_item("05"@, "superbock"@, "2026-12-01"@, 0x3fc00000, 60), "13"@ => stock_item("13"@, "sagres"@, "2027-01-10"@, 0x3fcccccd, 58)], "wines"@ => map!["06"@ => stock_item("06"@, "red_wine"@, "2030-06-01"@, 0x41200000, 20), "14"@ => stock_item("14"@, "white_wine"@, "2031-08-15"@, 0x41400000, 18)]],
                "soft_drinks"@ => map!["juices"@ => map!["07"@ => stock_item("07"@, "orange_juice"@, "2025-07-15"@, 0x400ccccd, 35), "15"@ => stock_item("15"@, "apple_juice"@, "2025-09-10"@, 0x4019999a, 33)], "sodas"@ => map!["08"@ => stock_item("08"@, "coke"@, "2026-02-20"@, 0x3fe00000, 45), "16"@ => stock_item("16"@, "pepsi"@, "2026-03-25"@, 0x3fe66666, 42)]],
            ],
        ],
        product_map: map![
            "01"@ => ("food"@, "healthy"@, "fruits"@),
            "02"@ => ("food"@, "healthy"@, "veggies"@),
            "03"@ => ("food"@, "snacks"@, "chips"@),
            "04"@ => ("food"@, "snacks"@, "cookies"@),
            "05"@ => ("beverages"@, "alcohol"@, "beers"@),
            "06"@ => ("beverages"@, "alcohol"@, "wines"@),
            "07"@ => ("beverages"@, "soft_drinks"@, "juices"@),
            "08"@ => ("beverages"@, "soft_drinks"@, "sodas"@),
            "09"@ => ("food"@, "healthy"@, "fruits"@),
            "10"@ => ("food"@, "healthy"@, "veggies"@),
            "11"@ => ("food"@, "snacks"@, "chips"@),
            "12"@ => ("food"@, "snacks"@, "cookies"@),
            "13"@ => ("beverages"@, "alcohol"@, "beers"@),
            "14"@ => ("beverages"@, "alcohol"@, "wines"@),
            "15"@ => ("beverages"@, "soft_drinks"@, "juices"@),
            "16"@ => ("beverages"@, "soft_drinks"@, "sodas"@),
        ],
    }
}

/// The example stock computed on the example layout: every product is added.
proof fn lemma_stock_of_layout()
    ensures
        stock_outcome(example_layout()) == (example_stock(), Ok::<(), ErrorView>(())),
{
        reveal_strlit("food");
        reveal_strlit("beverages");
        reveal_strlit("healthy");
        reveal_strlit("snacks");
        reveal_strlit("alcohol");
        reveal_strlit("soft_drinks");
        reveal_strlit("fruits");
        reveal_strlit("veggies");
        reveal_strlit("chips");
        reveal_strlit("cookies");
        reveal_strlit("beers");
        reveal_strlit("wines");
        reveal_strlit("juices");
        reveal_strlit("sodas");
        reveal_strlit("01");
        reveal_strlit("02");
        reveal_strlit("03");
        reveal_strlit("04");
        reveal_strlit("05");
        reveal_strlit("06");
        reveal_strlit("07");
        reveal_strlit("08");
        reveal_strlit("09");
        reveal_strlit("10");
        reveal_strlit("11");
        reveal_strlit("12");
        reveal_strlit("13");
        reveal_strlit("14");
        reveal_strlit("15");
        reveal_strlit("16");
        reveal_strlit("2025-04-15");
        reveal_strlit("2025-04-20");
        reveal_strlit("2025-04-30");
        reveal_strlit("2025-05-10");
        reveal_strlit("2025-07-15");
        reveal_strlit("2025-09-10");
        reveal_strlit("2026-01-15");
        reveal_strlit("2026-02-10");
        reveal_strlit("2026-02-20");
        reveal_strlit("2026-03-05");
        reveal_strlit("2026-03-25");
        reveal_strlit("2026-05-01");
        reveal_strlit("2026-12-01");
        reveal_strlit("2027-01-10");
        reveal_strlit("2030-06-01");
        reveal_strlit("2031-08-15");
        reveal_strlit("alcohol");
        reveal_strlit("apple");
        reveal_strlit("apple_juice");
        reveal_strlit("banana");
        reveal_strlit("beers");
        reveal_strlit("beverages");
        reveal_strlit("carrot");
        reveal_strlit("cheetos");
        reveal_strlit("chips");
        reveal_strlit("coke");
        reveal_strlit("cookies");
        reveal_strlit("filipinos");
        reveal_strlit("food");
        reveal_strlit("fruits");
        reveal_strlit("healthy");
        reveal_strlit("juices");
        reveal_strlit("orange_juice");
        reveal_strlit("oreo");
        reveal_strlit("pepsi");
        reveal_strlit("pringles");
        reveal_strlit("red_wine");
        reveal_strlit("sagres");
        reveal_strlit("snacks");
        reveal_strlit("sodas");
        reveal_strlit("soft_drinks");
        reveal_strlit("superbock");
        reveal_strlit("tomato");
        reveal_strlit("veggies");
        reveal_strlit("white_wine");
        reveal_strlit("wines");
        assert("food"@.len() != "beverages"@.len());
        assert("healthy"@.len() != "snacks"@.len());
        assert("alcohol"@.len() != "soft_drinks"@.len());
        assert("fruits"@.len() != "veggies"@.len());
        assert("chips"@.len() != "cookies"@.len());
        assert("beers"@[0] != "wines"@[0]);
        assert("juices"@.len() != "sodas"@.len());
        assert("01"@ != "09"@) by { assert("01"@[1] != "09"@[1]); }
        assert("02"@ != "10"@) by { assert("02"@[0] != "10"@[0]); }
        assert("03"@ != "11"@) by { assert("03"@[0] != "11"@[0]); }
        assert("04"@ != "12"@) by { assert("04"@[0] != "12"@[0]); }
        assert("05"@ != "13"@) by { assert("05"@[0] != "13"@[0]); }
        assert("06"@ != "14"@) by { assert("06"@[0] != "14"@[0]); }
        assert("07"@ != "15"@) by { assert("07"@[0] != "15"@[0]); }
        assert("08"@ != "16"@) by { assert("08"@[0] != "16"@[0]); }
    let out = stock_outcome(example_layout());
    let st = example_stock();
    assert(out.1 == Ok::<(), ErrorView>(()));
    assert(out.0.rows["food"@]["healthy"@]["fruits"@] =~= st.rows["food"@]["healthy"@]["fruits"@]);
    assert(out.0.rows["food"@]["healthy"@]["veggies"@] =~= st.rows["food"@]["healthy"@]["veggies"@]);
    assert(out.0.rows["food"@]["snacks"@]["chips"@] =~= st.rows["food"@]["snacks"@]["chips"@]);
    assert(out.0.rows["food"@]["snacks"@]["cookies"@] =~= st.rows["food"@]["snacks"@]["cookies"@]);
    assert(out.0.rows["beverages"@]["alcohol"@]["beers"@] =~= st.rows["beverages"@]["alcohol"@]["beers"@]);
    assert(out.0.rows["beverages"@]["alcohol"@]["wines"@] =~= st.rows["beverages"@]["alcohol"@]["wines"@]);
    assert(out.0.rows["beverages"@]["soft_drinks"@]["juices"@] =~= st.rows["beverages"@]["soft_drinks"@]["juices"@]);
    assert(out.0.rows["beverages"@]["soft_drinks"@]["sodas"@] =~= st.rows["beverages"@]["soft_drinks"@]["sodas"@]);
    assert(out.0.rows["food"@]["healthy"@] =~= st.rows["food"@]["healthy"@]);
    assert(out.0.rows["food"@]["snacks"@] =~= st.rows["food"@]["snacks"@]);
    assert(out.0.rows["beverages"@]["alcohol"@] =~= st.rows["beverages"@]["alcohol"@]);
    assert(out.0.rows["beverages"@]["soft_drinks"@] =~= st.rows["beverages"@]["soft_drinks"@]);
    assert(out.0.rows["food"@] =~= st.rows["food"@]);
    assert(out.0.rows["beverages"@] =~= st.rows["beverages"@]);
    assert(out.0.rows =~= st.rows);
    assert(out.0.product_map =~= st.product_map);
}

/// Stocks the store with the sixteen example products, adding them one by one
/// and stopping at the first failure. On the example layout every product is
/// added.
pub fn populate_store(store: &mut GroceryStore) -> (r: Result<(), GroceryErrors>)
    ensures
        (final(store)@, outcome_of(r)) == stock_outcome(old(store)@),
        old(store)@ == example_layout() ==> r is Ok && final(store)@ == example_stock(),
{
    proof {
        lemma_stock_of_layout();
    }
    store.add_product("food", "healthy", "fruits", Product::new("01", "apple", "2025-04-20", Price::from_bits(0x3f99999a), 50))?;
    store.add_product("food", "healthy", "veggies", Product::new("02", "carrot", "2025-05-10", Price::from_bits(0x3f4ccccd), 40))?;
    store.add_product("food", "snacks", "chips", Product::new("03", "pringles", "2026-01-15", Price::from_bits(0x40200000), 30))?;
    store.add_product("food", "snacks", "cookies", Product::new("04", "oreo", "2026-03-05", Price::from_bits(0x40400000), 25))?;
    store.add_product("beverages", "alcohol", "beers", Product::new("05", "superbock", "2026-12-01", Price::from_bits(0x3fc00000), 60))?;
    store.add_product("beverages", "alcohol", "wines", Product::new("06", "red_wine", "2030-06-01", Price::from_bits(0x41200000), 20))?;
    store.add_product("beverages", "soft_drinks", "juices", Product::new("07", "orange_juice", "2025-07-15", Price::from_bits(0x400ccccd), 35))?;
    store.add_product("beverages", "soft_drinks", "sodas", Product::new("08", "coke", "2026-02-20", Price::from_bits(0x3fe00000), 45))?;
    store.add_product("food", "healthy", "fruits", Product::new("09", "banana", "2025-04-15", Price::from_bits(0x3f8ccccd), 55))?;
    store.add_product("food", "healthy", "veggies", Product::new("10", "tomato", "2025-04-30", Price::from_bits(0x3fa66666), 40))?;
    store.add_product("food", "snacks", "chips", Product::new("11", "cheetos", "2026-02-10", Price::from_bits(0x40333333), 28))?;
    store.add_product("food", "snacks", "cookies", Product::new("12", "filipinos", "2026-05-01", Price::from_bits(0x404ccccd), 22))?;
    store.add_product("beverages", "alcohol", "beers", Product::new("13", "sagres", "2027-01-10", Price::from_bits(0x3fcccccd), 58))?;
    store.add_product("beverages", "alcohol", "wines", Product::new("14", "white_wine", "2031-08-15", Price::from_bits(0x41400000), 18))?;
    store.add_product("beverages", "soft_drinks", "juices", Product::new("15", "apple_juice", "2025-09-10", Price::from_bits(0x4019999a), 33))?;
    store.add_product("beverages", "soft_drinks", "sodas", Product::new("16", "pepsi", "2026-03-25", Price::from_bits(0x3fe66666), 42))?;
    Ok(())
}

} // verus!
