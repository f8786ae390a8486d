use vstd::prelude::*;
use crate::text::str_eq;

verus! {

/// A price, kept as the bit pattern of an `f32`; the store stores and hands it
/// back unchanged and never computes with it.
#[derive(Debug, Clone, Copy, PartialEq, Eq, Structural)]
pub struct Price {
    pub bits: u32,
}

impl View for Price {
    type V = Price;

    open spec fn view(&self) -> Price {
        *self
    }
}

impl Price {
    /// The price with the given `f32` bit pattern.
    pub fn from_bits(bits: u32) -> (p: Self)
        ensures
            p.bits == bits,
    {
        Price { bits }
    }

    /// Whether the `f32` with these bits is below zero: its sign bit is set and it
    /// is neither negative zero nor a NaN (IEEE 754 order, which `f32` follows).
    pub open spec fn below_zero(self) -> bool {
        0x8000_0001 <= self.bits <= 0xFF80_0000
    }

    /// Whether this price is below zero.
    pub fn is_below_zero(&self) -> (r: bool)
        ensures
            r == self.below_zero(),
    {
        0x8000_0001 <= self.bits && self.bits <= 0xFF80_0000
    }
}

/// A price is below zero exactly when it is a negative number: no price with
/// the sign bit clear (zero, every positive number, positive infinity) is below
/// zero, nor is negative zero or a NaN; and the negation of every positive
/// number or of positive infinity (the same bits with the sign bit set) is.
pub proof fn law_below_zero_means_negative(p: Price, magnitude: u32)
    ensures
        p.bits < 0x8000_0000 ==> !p.below_zero(),
        p.bits == 0x8000_0000 ==> !p.below_zero(),
        p.bits > 0xFF80_0000 ==> !p.below_zero(),
        0x7F80_0000 < p.bits < 0x8000_0000 ==> !p.below_zero(),
        0 < magnitude <= 0x7F80_0000 ==> (Price { bits: (magnitude + 0x8000_0000) as u32 }).below_zero(),
        p.below_zero() ==> 0 < p.bits - 0x8000_0000 <= 0x7F80_0000,
{
}

/// A product on sale.
#[derive(Debug)]
pub struct Product {
    pub id: String,
    pub name: String,
    pub expiration_date: String,
    pub price: Price,
    pub stock: u32,
}

/// A part of a shelf holding products.
#[derive(Debug)]
pub struct Zone {
    pub name: String,
    pub products: Vec<Product>,
}

/// A shelf, divided into zones.
#[derive(Debug)]
pub struct Shelf {
    pub name: String,
    pub zones: Vec<Zone>,
}

/// A row of shelves.
#[derive(Debug)]
pub struct Row {
    pub name: String,
    pub shelves: Vec<Shelf>,
}

/// What a product holds, with text as character sequences.
pub struct ProductView {
    pub id: Seq<char>,
    pub name: Seq<char>,
    pub expiration_date: Seq<char>,
    pub price: Price,
    pub stock: u32,
}

/// A zone's name and products.
pub struct ZoneView {
    pub name: Seq<char>,
    pub products: Seq<ProductView>,
}

/// A shelf's name and zones.
pub struct ShelfView {
    pub name: Seq<char>,
    pub zones: Seq<ZoneView>,
}

/// A row's name and shelves.
pub struct RowView {
    pub name: Seq<char>,
    pub shelves: Seq<ShelfView>,
}

impl View for Product {
    type V = ProductView;

    open spec fn view(&self) -> ProductView {
        ProductView {
            id: self.id@,
            name: self.name@,
            expiration_date: self.expiration_date@,
            price: self.price,
            stock: self.stock,
        }
    }
}

impl View for Zone {
    type V = ZoneView;

    open spec fn view(&self) -> ZoneView {
        ZoneView { name: self.name@, products: self.products@.map_values(|p: Product| p@) }
    }
}

impl View for Shelf {
    type V = ShelfView;

    open spec fn view(&self) -> ShelfView {
        ShelfView { name: self.name@, zones: self.zones@.map_values(|z: Zone| z@) }
    }
}

impl View for Row {
    type V = RowView;

    open spec fn view(&self) -> RowView {
        RowView { name: self.name@, shelves: self.shelves@.map_values(|s: Shelf| s@) }
    }
}

/// The views of a sequence of rows.
pub open spec fn rows_view(rows: Seq<Row>) -> Seq<RowView> {
    rows.map_values(|r: Row| r@)
}

impl Product {
    /// A new product.
    pub fn new(id: &str, name: &str, expiration_data: &str, price: Price, stock: u32) -> (p: Product)
        ensures
            p@ == (ProductView {
                id: id@,
                name: name@,
                expiration_date: expiration_data@,
                price,
                stock,
            }),
    {
        Product {
            id: String::from_str(id),
            name: String::from_str(name),
            expiration_date: String::from_str(expiration_data),
            price,
            stock,
        }
    }
}

impl Zone {
    /// A zone with the given products.
    pub fn new(name: &str, products: Vec<Product>) -> (z: Zone)
        ensures
            z@ == (ZoneView { name: name@, products: products@.map_values(|p: Product| p@) }),
    {
        Zone { name: String::from_str(name), products }
    }
}

impl Shelf {
    /// A shelf with the given zones.
    pub fn new(name: &str, zones: Vec<Zone>) -> (s: Shelf)
        ensures
            s@ == (ShelfView { name: name@, zones: zones@.map_values(|z: Zone| z@) }),
    {
        Shelf { name: String::from_str(name), zones }
    }
}

impl Row {
    /// A row with the given shelves.
    pub fn new(name: &str, shelves: Vec<Shelf>) -> (r: Row)
        ensures
            r@ == (RowView { name: name@, shelves: shelves@.map_values(|s: Shelf| s@) }),
    {
        Row { name: String::from_str(name), shelves }
    }
}

/// Whether the zone holds a product with this id.
pub open spec fn zone_has_product(zv: ZoneView, id: Seq<char>) -> bool {
    exists|p: int| 0 <= p < zv.products.len() && #[trigger] zv.products[p].id == id
}

/// Whether the shelf holds a product with this id.
pub open spec fn shelf_has_product(sv: ShelfView, id: Seq<char>) -> bool {
    exists|z: int| 0 <= z < sv.zones.len() && zone_has_product(#[trigger] sv.zones[z], id)
}

/// Whether the row holds a product with this id.
pub open spec fn row_has_product(rv: RowView, id: Seq<char>) -> bool {
    exists|s: int| 0 <= s < rv.shelves.len() && shelf_has_product(#[trigger] rv.shelves[s], id)
}

/// Whether the store holds a product with this id.
pub open spec fn store_has_product(v: Seq<RowView>, id: Seq<char>) -> bool {
    exists|r: int| 0 <= r < v.len() && row_has_product(#[trigger] v[r], id)
}

/// `(r, s, z, p)` is the first place, in row, shelf, zone, product order,
/// holding a product with this id.
pub open spec fn first_product_at(v: Seq<RowView>, id: Seq<char>, r: int, s: int, z: int, p: int) -> bool {
    &&& 0 <= r < v.len()
    &&& 0 <= s < v[r].shelves.len()
    &&& 0 <= z < v[r].shelves[s].zones.len()
    &&& 0 <= p < v[r].shelves[s].zones[z].products.len()
    &&& v[r].shelves[s].zones[z].products[p].id == id
    &&& forall|r2: int| 0 <= r2 < r ==> !row_has_product(#[trigger] v[r2], id)
    &&& forall|s2: int| 0 <= s2 < s ==> !shelf_has_product(#[trigger] v[r].shelves[s2], id)
    &&& forall|z2: int| 0 <= z2 < z ==> !zone_has_product(#[trigger] v[r].shelves[s].zones[z2], id)
    &&& forall|p2: int| 0 <= p2 < p ==> #[trigger] v[r].shelves[s].zones[z].products[p2].id != id
}

/// Whether the shelf has a zone with this name.
pub open spec fn shelf_has_zone(sv: ShelfView, name: Seq<char>) -> bool {
    exists|z: int| 0 <= z < sv.zones.len() && #[trigger] sv.zones[z].name == name
}

/// Whether the row has a zone with this name.
pub open spec fn row_has_zone(rv: RowView, name: Seq<char>) -> bool {
    exists|s: int| 0 <= s < rv.shelves.len() && shelf_has_zone(#[trigger] rv.shelves[s], name)
}

/// Whether the store has a zone with this name.
pub open spec fn store_has_zone(v: Seq<RowView>, name: Seq<char>) -> bool {
    exists|r: int| 0 <= r < v.len() && row_has_zone(#[trigger] v[r], name)
}

/// `(r, s, z)` is the first place, in row, shelf, zone order, of a zone with this name.
pub open spec fn first_zone_at(v: Seq<RowView>, name: Seq<char>, r: int, s: int, z: int) -> bool {
    &&& 0 <= r < v.len()
    &&& 0 <= s < v[r].shelves.len()
    &&& 0 <= z < v[r].shelves[s].zones.len()
    &&& v[r].shelves[s].zones[z].name == name
    &&& forall|r2: int| 0 <= r2 < r ==> !row_has_zone(#[trigger] v[r2], name)
    &&& forall|s2: int| 0 <= s2 < s ==> !shelf_has_zone(#[trigger] v[r].shelves[s2], name)
    &&& forall|z2: int| 0 <= z2 < z ==> #[trigger] v[r].shelves[s].zones[z2].name != name
}

/// Whether the row has a shelf with this name.
pub open spec fn row_has_shelf(rv: RowView, name: Seq<char>) -> bool {
    exists|s: int| 0 <= s < rv.shelves.len() && #[trigger] rv.shelves[s].name == name
}

/// The first position in `zone` of a product with this id.
fn position_in_zone(zone: &Zone, id: &str) -> (r: Option<usize>)
    ensures
        match r {
            Some(p) => p < zone@.products.len() && zone@.products[p as int].id == id@ && forall|
                p2: int,
            | 0 <= p2 < p ==> #[trigger] zone@.products[p2].id != id@,
            None => !zone_has_product(zone@, id@),
        },
{
    let mut p: usize = 0;
    while p < zone.products.len()
        invariant
            p <= zone.products@.len(),
            forall|p2: int| 0 <= p2 < p ==> #[trigger] zone@.products[p2].id != id@,
        decreases zone.products@.len() - p,
    {
        if str_eq(zone.products[p].id.as_str(), id) {
            return Some(p);
        }
        p += 1;
    }
    None
}

/// The first position in `shelf` of a product with this id.
fn position_in_shelf(shelf: &Shelf, id: &str) -> (r: Option<(usize, usize)>)
    ensures
        match r {
            Some((z, p)) => z < shelf@.zones.len() && p < shelf@.zones[z as int].products.len()
                && shelf@.zones[z as int].products[p as int].id == id@ && (forall|z2: int|
                0 <= z2 < z ==> !zone_has_product(#[trigger] shelf@.zones[z2], id@)) && (forall|
                p2: int,
            | 0 <= p2 < p ==> #[trigger] shelf@.zones[z as int].products[p2].id != id@),
            None => !shelf_has_product(shelf@, id@),
        },
{
    let mut z: usize = 0;
    while z < shelf.zones.len()
        invariant
            z <= shelf.zones@.len(),
            forall|z2: int| 0 <= z2 < z ==> !zone_has_product(#[trigger] shelf@.zones[z2], id@),
        decreases shelf.zones@.len() - z,
    {
        match position_in_zone(&shelf.zones[z], id) {
            Some(p) => {
                return Some((z, p));
            },
            None => {},
        }
        z += 1;
    }
    None
}

/// The first position in `row` of a product with this id.
fn position_in_row(row: &Row, id: &str) -> (r: Option<(usize, usize, usize)>)
    ensures
        match r {
            Some((s, z, p)) => s < row@.shelves.len() && z < row@.shelves[s as int].zones.len() && p
                < row@.shelves[s as int].zones[z as int].products.len()
                && row@.shelves[s as int].zones[z as int].products[p as int].id == id@ && (forall|
                s2: int,
            | 0 <= s2 < s ==> !shelf_has_product(#[trigger] row@.shelves[s2], id@)) && (forall|
                z2: int,
            |
                0 <= z2 < z ==> !zone_has_product(#[trigger] row@.shelves[s as int].zones[z2], id@))
                && (forall|p2: int|
                0 <= p2 < p ==> #[trigger] row@.shelves[s as int].zones[z as int].products[p2].id
                    != id@),
            None => !row_has_product(row@, id@),
        },
{
    let mut s: usize = 0;
    while s < row.shelves.len()
        invariant
            s <= row.shelves@.len(),
            forall|s2: int| 0 <= s2 < s ==> !shelf_has_product(#[trigger] row@.shelves[s2], id@),
        decreases row.shelves@.len() - s,
    {
        match position_in_shelf(&row.shelves[s], id) {
            Some((z, p)) => {
                return Some((s, z, p));
            },
            None => {},
        }
        s += 1;
    }
    None
}

/// The first position in `shelf` of a zone with this name.
fn zone_in_shelf(shelf: &Shelf, name: &str) -> (r: Option<usize>)
    ensures
        match r {
            Some(z) => z < shelf@.zones.len() && shelf@.zones[z as int].name == name@ && forall|
                z2: int,
            | 0 <= z2 < z ==> #[trigger] shelf@.zones[z2].name != name@,
            None => !shelf_has_zone(shelf@, name@),
        },
{
    let mut z: usize = 0;
    while z < shelf.zones.len()
        invariant
            z <= shelf.zones@.len(),
            forall|z2: int| 0 <= z2 < z ==> #[trigger] shelf@.zones[z2].name != name@,
        decreases shelf.zones@.len() - z,
    {
        if str_eq(shelf.zones[z].name.as_str(), name) {
            return Some(z);
        }
        z += 1;
    }
    None
}

/// The first position in `row` of a zone with this name.
fn zone_in_row(row: &Row, name: &str) -> (r: Option<(usize, usize)>)
    ensures
        match r {
            Some((s, z)) => s < row@.shelves.len() && z < row@.shelves[s as int].zones.len()
                && row@.shelves[s as int].zones[z as int].name == name@ && (forall|s2: int|
                0 <= s2 < s ==> !shelf_has_zone(#[trigger] row@.shelves[s2], name@)) && (forall|
                z2: int,
            | 0 <= z2 < z ==> #[trigger] row@.shelves[s as int].zones[z2].name != name@),
            None => !row_has_zone(row@, name@),
        },
{
    let mut s: usize = 0;
    while s < row.shelves.len()
        invariant
            s <= row.shelves@.len(),
            forall|s2: int| 0 <= s2 < s ==> !shelf_has_zone(#[trigger] row@.shelves[s2], name@),
        decreases row.shelves@.len() - s,
    {
        match zone_in_shelf(&row.shelves[s], name) {
            Some(z) => {
                return Some((s, z));
            },
            None => {},
        }
        s += 1;
    }
    None
}

/// The first position in `row` of a shelf with this name.
fn shelf_in_row(row: &Row, name: &str) -> (r: Option<usize>)
    ensures
        match r {
            Some(s) => s < row@.shelves.len() && row@.shelves[s as int].name == name@ && forall|
                s2: int,
            | 0 <= s2 < s ==> #[trigger] row@.shelves[s2].name != name@,
            None => !row_has_shelf(row@, name@),
        },
{
    let mut s: usize = 0;
    while s < row.shelves.len()
        invariant
            s <= row.shelves@.len(),
            forall|s2: int| 0 <= s2 < s ==> #[trigger] row@.shelves[s2].name != name@,
        decreases row.shelves@.len() - s,
    {
        if str_eq(row.shelves[s].name.as_str(), name) {
            return Some(s);
        }
        s += 1;
    }
    None
}

/// The rows with the zone at `(r, s, z)` replaced.
pub open spec fn with_zone(v: Seq<RowView>, r: int, s: int, z: int, zv: ZoneView) -> Seq<RowView> {
    v.update(
        r,
        RowView {
            shelves: v[r].shelves.update(
                s,
                ShelfView { zones: v[r].shelves[s].zones.update(z, zv), ..v[r].shelves[s] },
            ),
            ..v[r]
        },
    )
}

/// Replacing the same zone twice keeps only the second replacement.
proof fn lemma_with_zone_twice(
    v: Seq<RowView>,
    r: int,
    s: int,
    z: int,
    first: ZoneView,
    second: ZoneView,
)
    requires
        0 <= r < v.len(),
        0 <= s < v[r].shelves.len(),
        0 <= z < v[r].shelves[s].zones.len(),
    ensures
        with_zone(with_zone(v, r, s, z, first), r, s, z, second) == with_zone(v, r, s, z, second),
{
    let w = with_zone(with_zone(v, r, s, z, first), r, s, z, second);
    let u = with_zone(v, r, s, z, second);
    assert(w[r].shelves[s].zones =~= u[r].shelves[s].zones);
    assert(w[r].shelves =~= u[r].shelves);
    assert(w =~= u);
}

/// The first place of a product with this id is unique.
proof fn lemma_first_product_unique(
    v: Seq<RowView>,
    id: Seq<char>,
    a: (int, int, int, int),
    b: (int, int, int, int),
)
    requires
        first_product_at(v, id, a.0, a.1, a.2, a.3),
        first_product_at(v, id, b.0, b.1, b.2, b.3),
    ensures
        a == b,
{
    assert(zone_has_product(v[a.0].shelves[a.1].zones[a.2], id));
    assert(shelf_has_product(v[a.0].shelves[a.1], id));
    assert(row_has_product(v[a.0], id));
    assert(zone_has_product(v[b.0].shelves[b.1].zones[b.2], id));
    assert(shelf_has_product(v[b.0].shelves[b.1], id));
    assert(row_has_product(v[b.0], id));
    if a.0 < b.0 {
    } else if b.0 < a.0 {
    } else if a.1 < b.1 {
    } else if b.1 < a.1 {
    } else if a.2 < b.2 {
    } else if b.2 < a.2 {
    } else if a.3 < b.3 {
    } else if b.3 < a.3 {
    }
}

/// The first place of a zone with this name is unique.
proof fn lemma_first_zone_unique(v: Seq<RowView>, name: Seq<char>, a: (int, int, int), b: (int, int, int))
    requires
        first_zone_at(v, name, a.0, a.1, a.2),
        first_zone_at(v, name, b.0, b.1, b.2),
    ensures
        a == b,
{
    assert(shelf_has_zone(v[a.0].shelves[a.1], name));
    assert(row_has_zone(v[a.0], name));
    assert(shelf_has_zone(v[b.0].shelves[b.1], name));
    assert(row_has_zone(v[b.0], name));
    if a.0 < b.0 {
    } else if b.0 < a.0 {
    } else if a.1 < b.1 {
    } else if b.1 < a.1 {
    } else if a.2 < b.2 {
    } else if b.2 < a.2 {
    }
}

/// Where the first product with this id is.
pub open spec fn product_place(v: Seq<RowView>, id: Seq<char>) -> (int, int, int, int) {
    choose|p: (int, int, int, int)| first_product_at(v, id, p.0, p.1, p.2, p.3)
}

/// The first product with this id.
pub open spec fn first_product(v: Seq<RowView>, id: Seq<char>) -> ProductView {
    let p = product_place(v, id);
    v[p.0].shelves[p.1].zones[p.2].products[p.3]
}

/// The store without the first product with this id.
pub open spec fn without_first_product(v: Seq<RowView>, id: Seq<char>) -> Seq<RowView> {
    let p = product_place(v, id);
    with_products(v, p.0, p.1, p.2, zone_products(v, p.0, p.1, p.2).remove(p.3))
}

/// The store with the first product with this id replaced by `pv`.
pub open spec fn with_first_product(v: Seq<RowView>, id: Seq<char>, pv: ProductView) -> Seq<RowView> {
    let p = product_place(v, id);
    with_products(v, p.0, p.1, p.2, zone_products(v, p.0, p.1, p.2).update(p.3, pv))
}

/// Where the first zone with this name is.
pub open spec fn zone_place(v: Seq<RowView>, name: Seq<char>) -> (int, int, int) {
    choose|p: (int, int, int)| first_zone_at(v, name, p.0, p.1, p.2)
}

/// The store with `pv` added at the end of the first zone with this name.
pub open spec fn with_product_in_zone(v: Seq<RowView>, name: Seq<char>, pv: ProductView) -> Seq<RowView> {
    let p = zone_place(v, name);
    with_products(v, p.0, p.1, p.2, zone_products(v, p.0, p.1, p.2).push(pv))
}

/// The products of the zone at `(r, s, z)`.
pub open spec fn zone_products(v: Seq<RowView>, r: int, s: int, z: int) -> Seq<ProductView> {
    v[r].shelves[s].zones[z].products
}

/// The rows with the products of the zone at `(r, s, z)` replaced.
pub open spec fn with_products(v: Seq<RowView>, r: int, s: int, z: int, ps: Seq<ProductView>) -> Seq<
    RowView,
> {
    with_zone(v, r, s, z, ZoneView { products: ps, ..v[r].shelves[s].zones[z] })
}

/// A property that holds at `k` holds at a least index, no later than `k`.
proof fn lemma_least(f: spec_fn(int) -> bool, k: int)
    requires
        0 <= k,
        f(k),
    ensures
        exists|m: int| 0 <= m <= k && #[trigger] f(m) && forall|j: int| 0 <= j < m ==> !#[trigger] f(j),
    decreases k,
{
    if exists|j: int| 0 <= j < k && #[trigger] f(j) {
        let j = choose|j: int| 0 <= j < k && #[trigger] f(j);
        lemma_least(f, j);
    } else {
        assert(forall|j: int| 0 <= j < k ==> !#[trigger] f(j));
    }
}

/// A store with a zone of this name has a first such zone.
proof fn lemma_first_zone_exists(v: Seq<RowView>, name: Seq<char>)
    requires
        store_has_zone(v, name),
    ensures
        first_zone_at(v, name, zone_place(v, name).0, zone_place(v, name).1, zone_place(v, name).2),
{
    let r0 = choose|r: int| 0 <= r < v.len() && row_has_zone(#[trigger] v[r], name);
    let fr = |r: int| 0 <= r < v.len() && row_has_zone(v[r], name);
    assert(fr(r0));
    lemma_least(fr, r0);
    let r = choose|m: int| 0 <= m <= r0 && #[trigger] fr(m) && forall|j: int| 0 <= j < m ==> !#[trigger] fr(j);
    let row = v[r];
    let s0 = choose|s: int| 0 <= s < row.shelves.len() && shelf_has_zone(#[trigger] row.shelves[s], name);
    let fs = |s: int| 0 <= s < row.shelves.len() && shelf_has_zone(row.shelves[s], name);
    assert(fs(s0));
    lemma_least(fs, s0);
    let s = choose|m: int| 0 <= m <= s0 && #[trigger] fs(m) && forall|j: int| 0 <= j < m ==> !#[trigger] fs(j);
    let shelf = row.shelves[s];
    let z0 = choose|z: int| 0 <= z < shelf.zones.len() && #[trigger] shelf.zones[z].name == name;
    let fz = |z: int| 0 <= z < shelf.zones.len() && shelf.zones[z].name == name;
    assert(fz(z0));
    lemma_least(fz, z0);
    let z = choose|m: int| 0 <= m <= z0 && #[trigger] fz(m) && forall|j: int| 0 <= j < m ==> !#[trigger] fz(j);
    assert forall|r2: int| 0 <= r2 < r implies !row_has_zone(#[trigger] v[r2], name) by {
        assert(!fr(r2));
    }
    assert forall|s2: int| 0 <= s2 < s implies !shelf_has_zone(#[trigger] v[r].shelves[s2], name) by {
        assert(!fs(s2));
    }
    assert forall|z2: int| 0 <= z2 < z implies #[trigger] v[r].shelves[s].zones[z2].name != name by {
        assert(!fz(z2));
    }
    let t = (r, s, z);
    assert(first_zone_at(v, name, t.0, t.1, t.2));
    assert(exists|q: (int, int, int)| first_zone_at(v, name, q.0, q.1, q.2));
}

/// A store holding a product with this id has a first such product.
proof fn lemma_first_product_exists(v: Seq<RowView>, id: Seq<char>)
    requires
        store_has_product(v, id),
    ensures
        first_product_at(
            v,
            id,
            product_place(v, id).0,
            product_place(v, id).1,
            product_place(v, id).2,
            product_place(v, id).3,
        ),
{
    let r0 = choose|r: int| 0 <= r < v.len() && row_has_product(#[trigger] v[r], id);
    let fr = |r: int| 0 <= r < v.len() && row_has_product(v[r], id);
    assert(fr(r0));
    lemma_least(fr, r0);
    let r = choose|m: int| 0 <= m <= r0 && #[trigger] fr(m) && forall|j: int| 0 <= j < m ==> !#[trigger] fr(j);
    let row = v[r];
    let s0 = choose|s: int| 0 <= s < row.shelves.len() && shelf_has_product(#[trigger] row.shelves[s], id);
    let fs = |s: int| 0 <= s < row.shelves.len() && shelf_has_product(row.shelves[s], id);
    assert(fs(s0));
    lemma_least(fs, s0);
    let s = choose|m: int| 0 <= m <= s0 && #[trigger] fs(m) && forall|j: int| 0 <= j < m ==> !#[trigger] fs(j);
    let shelf = row.shelves[s];
    let z0 = choose|z: int| 0 <= z < shelf.zones.len() && zone_has_product(#[trigger] shelf.zones[z], id);
    let fz = |z: int| 0 <= z < shelf.zones.len() && zone_has_product(shelf.zones[z], id);
    assert(fz(z0));
    lemma_least(fz, z0);
    let z = choose|m: int| 0 <= m <= z0 && #[trigger] fz(m) && forall|j: int| 0 <= j < m ==> !#[trigger] fz(j);
    let zone = shelf.zones[z];
    let p0 = choose|p: int| 0 <= p < zone.products.len() && #[trigger] zone.products[p].id == id;
    let fp = |p: int| 0 <= p < zone.products.len() && zone.products[p].id == id;
    assert(fp(p0));
    lemma_least(fp, p0);
    let p = choose|m: int| 0 <= m <= p0 && #[trigger] fp(m) && forall|j: int| 0 <= j < m ==> !#[trigger] fp(j);
    assert forall|r2: int| 0 <= r2 < r implies !row_has_product(#[trigger] v[r2], id) by {
        assert(!fr(r2));
    }
    assert forall|s2: int| 0 <= s2 < s implies !shelf_has_product(#[trigger] v[r].shelves[s2], id) by {
        assert(!fs(s2));
    }
    assert forall|z2: int| 0 <= z2 < z implies !zone_has_product(#[trigger] v[r].shelves[s].zones[z2], id) by {
        assert(!fz(z2));
    }
    assert forall|p2: int| 0 <= p2 < p implies #[trigger] v[r].shelves[s].zones[z].products[p2].id != id by {
        assert(!fp(p2));
    }
    let t = (r, s, z, p);
    assert(first_product_at(v, id, t.0, t.1, t.2, t.3));
    assert(exists|q: (int, int, int, int)| first_product_at(v, id, q.0, q.1, q.2, q.3));
}

/// Setting a zone to what it already holds leaves the rows unchanged.
proof fn lemma_with_same_zone(v: Seq<RowView>, r: int, s: int, z: int)
    requires
        0 <= r < v.len(),
        0 <= s < v[r].shelves.len(),
        0 <= z < v[r].shelves[s].zones.len(),
    ensures
        with_zone(v, r, s, z, v[r].shelves[s].zones[z]) == v,
{
    let w = with_zone(v, r, s, z, v[r].shelves[s].zones[z]);
    assert(w[r].shelves[s].zones =~= v[r].shelves[s].zones);
    assert(w[r].shelves =~= v[r].shelves);
    assert(w =~= v);
}

/// A product added under an id that was nowhere in the store is the first
/// product with that id, at the end of the first zone with the zone name.
proof fn lemma_added_is_first(v: Seq<RowView>, zone: Seq<char>, pv: ProductView)
    requires
        store_has_zone(v, zone),
        !store_has_product(v, pv.id),
    ensures
        first_zone_at(v, zone, zone_place(v, zone).0, zone_place(v, zone).1, zone_place(v, zone).2),
        store_has_product(with_product_in_zone(v, zone, pv), pv.id),
        product_place(with_product_in_zone(v, zone, pv), pv.id) == (
            zone_place(v, zone).0,
            zone_place(v, zone).1,
            zone_place(v, zone).2,
            zone_products(v, zone_place(v, zone).0, zone_place(v, zone).1, zone_place(v, zone).2).len() as int,
        ),
{
    lemma_first_zone_exists(v, zone);
    let (r, s, z) = zone_place(v, zone);
    let old_products = zone_products(v, r, s, z);
    let n = old_products.len() as int;
    let w = with_product_in_zone(v, zone, pv);
    let id = pv.id;
    assert(zone_products(w, r, s, z) == old_products.push(pv));
    assert forall|r2: int| 0 <= r2 < r implies !row_has_product(#[trigger] w[r2], id) by {
        assert(w[r2] == v[r2]);
        if row_has_product(v[r2], id) {
            assert(store_has_product(v, id));
        }
    }
    assert forall|s2: int| 0 <= s2 < s implies !shelf_has_product(#[trigger] w[r].shelves[s2], id) by {
        assert(w[r].shelves[s2] == v[r].shelves[s2]);
        if shelf_has_product(v[r].shelves[s2], id) {
            assert(row_has_product(v[r], id));
        }
    }
    assert forall|z2: int| 0 <= z2 < z implies !zone_has_product(#[trigger] w[r].shelves[s].zones[z2], id) by {
        assert(w[r].shelves[s].zones[z2] == v[r].shelves[s].zones[z2]);
        if zone_has_product(v[r].shelves[s].zones[z2], id) {
            assert(shelf_has_product(v[r].shelves[s], id));
            assert(row_has_product(v[r], id));
        }
    }
    assert forall|p2: int| 0 <= p2 < n implies #[trigger] w[r].shelves[s].zones[z].products[p2].id != id by {
        assert(w[r].shelves[s].zones[z].products[p2] == old_products[p2]);
        if old_products[p2].id == id {
            assert(zone_has_product(v[r].shelves[s].zones[z], id));
            assert(shelf_has_product(v[r].shelves[s], id));
            assert(row_has_product(v[r], id));
        }
    }
    assert(first_product_at(w, id, r, s, z, n));
    assert(zone_has_product(w[r].shelves[s].zones[z], id));
    assert(shelf_has_product(w[r].shelves[s], id));
    assert(row_has_product(w[r], id));
    lemma_first_product_exists(w, id);
    lemma_first_product_unique(w, id, (r, s, z, n), product_place(w, id));
}

/// A product added under an id that was nowhere in the store is then the
/// product found under that id.
pub proof fn law_added_product_is_found(v: Seq<RowView>, zone: Seq<char>, pv: ProductView)
    requires
        store_has_zone(v, zone),
        !store_has_product(v, pv.id),
    ensures
        store_has_product(with_product_in_zone(v, zone, pv), pv.id),
        first_product(with_product_in_zone(v, zone, pv), pv.id) == pv,
{
    lemma_added_is_first(v, zone, pv);
}

/// Removing a product just added, under an id that was nowhere in the store,
/// gives back the store as it was.
pub proof fn law_remove_undoes_add(v: Seq<RowView>, zone: Seq<char>, pv: ProductView)
    requires
        store_has_zone(v, zone),
        !store_has_product(v, pv.id),
    ensures
        without_first_product(with_product_in_zone(v, zone, pv), pv.id) == v,
{
    lemma_added_is_first(v, zone, pv);
    let (r, s, z) = zone_place(v, zone);
    let old_products = zone_products(v, r, s, z);
    let n = old_products.len() as int;
    let w = with_product_in_zone(v, zone, pv);
    assert(zone_products(w, r, s, z).remove(n) =~= old_products);
    lemma_with_zone_twice(
        v,
        r,
        s,
        z,
        ZoneView { products: old_products.push(pv), ..v[r].shelves[s].zones[z] },
        ZoneView { products: old_products, ..v[r].shelves[s].zones[z] },
    );
    lemma_with_same_zone(v, r, s, z);
}

/// Selling the units just restocked gives back the store as it was.
pub proof fn law_sell_undoes_restock(v: Seq<RowView>, id: Seq<char>, units: u32)
    requires
        store_has_product(v, id),
        first_product(v, id).stock + units <= u32::MAX,
    ensures
        ({
            let p = first_product(v, id);
            let w = with_first_product(v, id, ProductView { stock: (p.stock + units) as u32, ..p });
            let q = first_product(w, id);
            q.stock >= units && with_first_product(w, id, ProductView { stock: (q.stock - units) as u32, ..q })
                == v
        }),
{
    lemma_first_product_exists(v, id);
    let (r, s, z, k) = product_place(v, id);
    let p = first_product(v, id);
    let pv = ProductView { stock: (p.stock + units) as u32, ..p };
    let w = with_first_product(v, id, pv);
    let old_products = zone_products(v, r, s, z);
    assert(zone_products(w, r, s, z) == old_products.update(k, pv));
    assert forall|r2: int| 0 <= r2 < r implies !row_has_product(#[trigger] w[r2], id) by {
        assert(w[r2] == v[r2]);
    }
    assert forall|s2: int| 0 <= s2 < s implies !shelf_has_product(#[trigger] w[r].shelves[s2], id) by {
        assert(w[r].shelves[s2] == v[r].shelves[s2]);
    }
    assert forall|z2: int| 0 <= z2 < z implies !zone_has_product(#[trigger] w[r].shelves[s].zones[z2], id) by {
        assert(w[r].shelves[s].zones[z2] == v[r].shelves[s].zones[z2]);
    }
    assert forall|p2: int| 0 <= p2 < k implies #[trigger] w[r].shelves[s].zones[z].products[p2].id != id by {
        assert(w[r].shelves[s].zones[z].products[p2] == old_products[p2]);
    }
    assert(first_product_at(w, id, r, s, z, k));
    assert(zone_has_product(w[r].shelves[s].zones[z], id));
    assert(shelf_has_product(w[r].shelves[s], id));
    assert(row_has_product(w[r], id));
    lemma_first_product_exists(w, id);
    lemma_first_product_unique(w, id, (r, s, z, k), product_place(w, id));
    let q = first_product(w, id);
    assert(q == pv);
    assert(ProductView { stock: (q.stock - units) as u32, ..q } == p);
    assert(zone_products(w, r, s, z).update(k, p) =~= old_products);
    lemma_with_zone_twice(
        v,
        r,
        s,
        z,
        ZoneView { products: old_products.update(k, pv), ..v[r].shelves[s].zones[z] },
        ZoneView { products: old_products, ..v[r].shelves[s].zones[z] },
    );
    lemma_with_same_zone(v, r, s, z);
}

/// A grocery store: rows of shelves, shelves of zones, zones of products.
/// Product ids and row, shelf and zone names are meant to be unique; where they
/// are not, the first match in row, shelf, zone, product order counts.
#[derive(Debug)]
pub struct GroceryStore {
    rows: Vec<Row>,
}

impl View for GroceryStore {
    type V = Seq<RowView>;

    closed spec fn view(&self) -> Seq<RowView> {
        rows_view(self.rows@)
    }
}

impl GroceryStore {
    /// A store with no rows.
    pub fn new() -> (store: GroceryStore)
        ensures
            store@ == Seq::<RowView>::empty(),
    {
        let store = GroceryStore { rows: Vec::new() };
        assert(store@ =~= Seq::<RowView>::empty());
        store
    }

    /// Appends rows to the store.
    pub fn add_rows(&mut self, rows: Vec<Row>)
        ensures
            final(self)@ == old(self)@ + rows_view(rows@),
    {
        let mut rows = rows;
        let ghost before = self@;
        let ghost added = rows_view(rows@);
        self.rows.append(&mut rows);
        assert(self@ =~= before + added);
    }

    /// The first row with this name.
    pub fn row_position(&self, row_name: &str) -> (r: Option<usize>)
        ensures
            match r {
                Some(i) => i < self@.len() && self@[i as int].name == row_name@ && forall|i2: int|
                    0 <= i2 < i ==> #[trigger] self@[i2].name != row_name@,
                None => forall|i2: int| 0 <= i2 < self@.len() ==> #[trigger] self@[i2].name != row_name@,
            },
    {
        let mut i: usize = 0;
        while i < self.rows.len()
            invariant
                i <= self.rows@.len(),
                forall|i2: int| 0 <= i2 < i ==> #[trigger] self@[i2].name != row_name@,
            decreases self.rows@.len() - i,
        {
            if str_eq(self.rows[i].name.as_str(), row_name) {
                return Some(i);
            }
            i += 1;
        }
        None
    }

    /// The first shelf with this name, in row order.
    pub fn shelf_position(&self, shelf_name: &str) -> (r: Option<(usize, usize)>)
        ensures
            match r {
                Some((i, j)) => i < self@.len() && j < self@[i as int].shelves.len()
                    && self@[i as int].shelves[j as int].name == shelf_name@ && (forall|i2: int|
                    0 <= i2 < i ==> !row_has_shelf(#[trigger] self@[i2], shelf_name@)) && (forall|
                    j2: int,
                | 0 <= j2 < j ==> #[trigger] self@[i as int].shelves[j2].name != shelf_name@),
                None => forall|i2: int|
                    0 <= i2 < self@.len() ==> !row_has_shelf(#[trigger] self@[i2], shelf_name@),
            },
    {
        let mut i: usize = 0;
        while i < self.rows.len()
            invariant
                i <= self.rows@.len(),
                forall|i2: int| 0 <= i2 < i ==> !row_has_shelf(#[trigger] self@[i2], shelf_name@),
            decreases self.rows@.len() - i,
        {
            match shelf_in_row(&self.rows[i], shelf_name) {
                Some(j) => {
                    return Some((i, j));
                },
                None => {},
            }
            i += 1;
        }
        None
    }

    /// The first zone with this name, in row and shelf order.
    pub fn zone_position(&self, zone_name: &str) -> (r: Option<(usize, usize, usize)>)
        ensures
            match r {
                Some((i, j, k)) => first_zone_at(self@, zone_name@, i as int, j as int, k as int),
                None => !store_has_zone(self@, zone_name@),
            },
    {
        let mut i: usize = 0;
        while i < self.rows.len()
            invariant
                i <= self.rows@.len(),
                forall|i2: int| 0 <= i2 < i ==> !row_has_zone(#[trigger] self@[i2], zone_name@),
            decreases self.rows@.len() - i,
        {
            match zone_in_row(&self.rows[i], zone_name) {
                Some((j, k)) => {
                    return Some((i, j, k));
                },
                None => {},
            }
            i += 1;
        }
        None
    }

    /// The first place holding a product with this id.
    pub fn product_position(&self, product_id: &str) -> (r: Option<(usize, usize, usize, usize)>)
        ensures
            match r {
                Some((i, j, k, l)) => first_product_at(
                    self@,
                    product_id@,
                    i as int,
                    j as int,
                    k as int,
                    l as int,
                ),
                None => !store_has_product(self@, product_id@),
            },
    {
        let mut i: usize = 0;
        while i < self.rows.len()
            invariant
                i <= self.rows@.len(),
                forall|i2: int| 0 <= i2 < i ==> !row_has_product(#[trigger] self@[i2], product_id@),
            decreases self.rows@.len() - i,
        {
            match position_in_row(&self.rows[i], product_id) {
                Some((j, k, l)) => {
                    return Some((i, j, k, l));
                },
                None => {},
            }
            i += 1;
        }
        None
    }

    /// Puts `zone` at `(i, j, k)` and returns the zone that was there.
    fn replace_zone(&mut self, i: usize, j: usize, k: usize, zone: Zone) -> (previous: Zone)
        requires
            i < old(self)@.len(),
            j < old(self)@[i as int].shelves.len(),
            k < old(self)@[i as int].shelves[j as int].zones.len(),
        ensures
            previous@ == old(self)@[i as int].shelves[j as int].zones[k as int],
            final(self)@ == with_zone(old(self)@, i as int, j as int, k as int, zone@),
    {
        let ghost v = self@;
        let ghost rows0 = self.rows@;
        let mut row = self.rows.remove(i);
        let ghost shelves0 = row.shelves@;
        let mut shelf = row.shelves.remove(j);
        let ghost zones0 = shelf.zones@;
        let previous = shelf.zones.remove(k);
        assert(zones0[k as int] == previous);
        shelf.zones.insert(k, zone);
        assert(shelf.zones@ =~= zones0.update(k as int, zone));
        assert(shelf@.zones =~= v[i as int].shelves[j as int].zones.update(k as int, zone@));
        row.shelves.insert(j, shelf);
        assert(row.shelves@ =~= shelves0.update(j as int, shelf));
        assert(row@.shelves =~= v[i as int].shelves.update(
            j as int,
            ShelfView { zones: v[i as int].shelves[j as int].zones.update(k as int, zone@), ..v[i as int].shelves[j as int] },
        ));
        self.rows.insert(i, row);
        assert(self.rows@ =~= rows0.update(i as int, row));
        assert(self@ =~= with_zone(v, i as int, j as int, k as int, zone@));
        previous
    }

    /// Adds a new product to the first zone with this name. Refused when a
    /// product with the id exists anywhere in the store, or else when no zone
    /// has the name.
    pub fn add_product(
        &mut self,
        zone_name: &str,
        id: &str,
        name: &str,
        expiration_date: &str,
        price: Price,
        stock: u32,
    ) -> (r: Result<(), &'static str>)
        ensures
            match r {
                Ok(()) => !store_has_product(old(self)@, id@) && store_has_zone(old(self)@, zone_name@)
                    && final(self)@ == with_product_in_zone(
                    old(self)@,
                    zone_name@,
                    ProductView { id: id@, name: name@, expiration_date: expiration_date@, price, stock },
                ),
                Err(e) => final(self)@ == old(self)@ && if store_has_product(old(self)@, id@) {
                    e@ == "Product already exists!"@
                } else {
                    !store_has_zone(old(self)@, zone_name@) && e@ == "Zone not found"@
                },
            },
    {
        if let Some(_) = self.product_position(id) {
            return Err("Product already exists!");
        }
        let product = Product::new(id, name, expiration_date, price, stock);
        if let Some((i, j, k)) = self.zone_position(zone_name) {
            let ghost before = self@;
            proof {
                lemma_first_zone_unique(before, zone_name@, (i as int, j as int, k as int), zone_place(before, zone_name@));
                assert(shelf_has_zone(before[i as int].shelves[j as int], zone_name@));
                assert(row_has_zone(before[i as int], zone_name@));
            }
            let mut zone = self.replace_zone(i, j, k, Zone::new("", Vec::new()));
            zone.products.push(product);
            assert(zone@.products =~= zone_products(before, i as int, j as int, k as int).push(product@));
            let ghost placeholder = self@;
            let ghost new_zone = zone@;
            self.replace_zone(i, j, k, zone);
            proof {
                lemma_with_zone_twice(before, i as int, j as int, k as int, placeholder[i as int].shelves[j as int].zones[k as int], new_zone);
            }
            assert(self@ =~= with_products(
                before,
                i as int,
                j as int,
                k as int,
                zone_products(before, i as int, j as int, k as int).push(product@),
            ));
            Ok(())
        } else {
            Err("Zone not found")
        }
    }

    /// The place of the first product with this id, as `product_place` names it.
    fn find_product(&self, id: &str) -> (r: Option<(usize, usize, usize, usize)>)
        ensures
            match r {
                Some((i, j, k, l)) => store_has_product(self@, id@) && product_place(self@, id@) == (
                    i as int,
                    j as int,
                    k as int,
                    l as int,
                ) && first_product_at(self@, id@, i as int, j as int, k as int, l as int),
                None => !store_has_product(self@, id@),
            },
    {
        match self.product_position(id) {
            Some((i, j, k, l)) => {
                proof {
                    let p = (i as int, j as int, k as int, l as int);
                    lemma_first_product_unique(self@, id@, p, product_place(self@, id@));
                    assert(zone_has_product(self@[p.0].shelves[p.1].zones[p.2], id@));
                    assert(shelf_has_product(self@[p.0].shelves[p.1], id@));
                    assert(row_has_product(self@[p.0], id@));
                }
                Some((i, j, k, l))
            },
            None => None,
        }
    }

    /// Removes the first product with this id.
    pub fn remove_product(&mut self, id: &str) -> (r: Result<(), &'static str>)
        ensures
            match r {
                Ok(()) => store_has_product(old(self)@, id@) && final(self)@ == without_first_product(
                    old(self)@,
                    id@,
                ),
                Err(e) => !store_has_product(old(self)@, id@) && final(self)@ == old(self)@ && e@
                    == "Product not found"@,
            },
    {
        if let Some((i, j, k, l)) = self.find_product(id) {
            let ghost before = self@;
            let mut zone = self.replace_zone(i, j, k, Zone::new("", Vec::new()));
            let ghost placeholder = self@;
            zone.products.remove(l);
            assert(zone@.products =~= zone_products(before, i as int, j as int, k as int).remove(
                l as int,
            ));
            let ghost new_zone = zone@;
            self.replace_zone(i, j, k, zone);
            proof {
                lemma_with_zone_twice(
                    before,
                    i as int,
                    j as int,
                    k as int,
                    placeholder[i as int].shelves[j as int].zones[k as int],
                    new_zone,
                );
            }
            assert(self@ =~= without_first_product(before, id@));
            Ok(())
        } else {
            Err("Product not found")
        }
    }

    /// Replaces the product at a place with `product`.
    fn replace_product(&mut self, i: usize, j: usize, k: usize, l: usize, product: Product)
        requires
            i < old(self)@.len(),
            j < old(self)@[i as int].shelves.len(),
            k < old(self)@[i as int].shelves[j as int].zones.len(),
            l < old(self)@[i as int].shelves[j as int].zones[k as int].products.len(),
        ensures
            final(self)@ == with_products(
                old(self)@,
                i as int,
                j as int,
                k as int,
                zone_products(old(self)@, i as int, j as int, k as int).update(l as int, product@),
            ),
    {
        let ghost before = self@;
        let mut zone = self.replace_zone(i, j, k, Zone::new("", Vec::new()));
        let ghost placeholder = self@;
        let ghost ps0 = zone.products@;
        zone.products.remove(l);
        zone.products.insert(l, product);
        assert(zone.products@ =~= ps0.update(l as int, product));
        assert(zone@.products =~= zone_products(before, i as int, j as int, k as int).update(
            l as int,
            product@,
        ));
        let ghost new_zone = zone@;
        self.replace_zone(i, j, k, zone);
        proof {
            lemma_with_zone_twice(
                before,
                i as int,
                j as int,
                k as int,
                placeholder[i as int].shelves[j as int].zones[k as int],
                new_zone,
            );
        }
        assert(self@ =~= with_products(
            before,
            i as int,
            j as int,
            k as int,
            zone_products(before, i as int, j as int, k as int).update(l as int, product@),
        ));
    }

    /// A copy of the product at a place.
    fn product_copy(&self, i: usize, j: usize, k: usize, l: usize) -> (p: Product)
        requires
            i < self@.len(),
            j < self@[i as int].shelves.len(),
            k < self@[i as int].shelves[j as int].zones.len(),
            l < self@[i as int].shelves[j as int].zones[k as int].products.len(),
        ensures
            p@ == self@[i as int].shelves[j as int].zones[k as int].products[l as int],
    {
        let product = &self.rows[i].shelves[j].zones[k].products[l];
        Product {
            id: product.id.clone(),
            name: product.name.clone(),
            expiration_date: product.expiration_date.clone(),
            price: product.price,
            stock: product.stock,
        }
    }

    /// Adds `units` to the stock of the first product with this id.
    pub fn restock_product(&mut self, id: &str, units: u32) -> (r: Result<(), &'static str>)
        requires
            store_has_product(old(self)@, id@) ==> first_product(old(self)@, id@).stock + units
                <= u32::MAX,
        ensures
            match r {
                Ok(()) => store_has_product(old(self)@, id@) && final(self)@ == with_first_product(
                    old(self)@,
                    id@,
                    ProductView {
                        stock: (first_product(old(self)@, id@).stock + units) as u32,
                        ..first_product(old(self)@, id@)
                    },
                ),
                Err(e) => !store_has_product(old(self)@, id@) && final(self)@ == old(self)@ && e@
                    == "Product not found"@,
            },
    {
        if let Some((i, j, k, l)) = self.find_product(id) {
            let mut product = self.product_copy(i, j, k, l);
            product.stock = product.stock + units;
            self.replace_product(i, j, k, l, product);
            Ok(())
        } else {
            Err("Product not found")
        }
    }

    /// Sells `units` of the first product with this id and returns its unit
    /// price; refused when the product is unknown or fewer units are in stock.
    pub fn sell_product(&mut self, id: &str, units: u32) -> (r: Result<Price, &'static str>)
        ensures
            match r {
                Ok(price) => store_has_product(old(self)@, id@) && first_product(
                    old(self)@,
                    id@,
                ).stock >= units && price == first_product(old(self)@, id@).price && final(self)@
                    == with_first_product(
                    old(self)@,
                    id@,
                    ProductView {
                        stock: (first_product(old(self)@, id@).stock - units) as u32,
                        ..first_product(old(self)@, id@)
                    },
                ),
                Err(e) => final(self)@ == old(self)@ && if store_has_product(old(self)@, id@) {
                    first_product(old(self)@, id@).stock < units && e@
                        == "Not enough units in stock!"@
                } else {
                    e@ == "Product not found"@
                },
            },
    {
        if let Some((i, j, k, l)) = self.find_product(id) {
            let mut product = self.product_copy(i, j, k, l);
            if product.stock < units {
                Err("Not enough units in stock!")
            } else {
                product.stock = product.stock - units;
                let price = product.price;
                self.replace_product(i, j, k, l, product);
                Ok(price)
            }
        } else {
            Err("Product not found")
        }
    }

    /// Renames the first product with this id.
    pub fn change_product_name(&mut self, id: &str, new_name: &str) -> (r: Result<(), &'static str>)
        ensures
            match r {
                Ok(()) => store_has_product(old(self)@, id@) && final(self)@ == with_first_product(
                    old(self)@,
                    id@,
                    ProductView { name: new_name@, ..first_product(old(self)@, id@) },
                ),
                Err(e) => !store_has_product(old(self)@, id@) && final(self)@ == old(self)@ && e@
                    == "Product not found"@,
            },
    {
        if let Some((i, j, k, l)) = self.find_product(id) {
            let mut product = self.product_copy(i, j, k, l);
            product.name = String::from_str(new_name);
            self.replace_product(i, j, k, l, product);
            Ok(())
        } else {
            Err("Product not found")
        }
    }

    /// Sets the price of the first product with this id.
    pub fn change_product_price(&mut self, id: &str, new_price: Price) -> (r: Result<
        (),
        &'static str,
    >)
        ensures
            match r {
                Ok(()) => store_has_product(old(self)@, id@) && final(self)@ == with_first_product(
                    old(self)@,
                    id@,
                    ProductView { price: new_price, ..first_product(old(self)@, id@) },
                ),
                Err(e) => !store_has_product(old(self)@, id@) && final(self)@ == old(self)@ && e@
                    == "Product not found"@,
            },
    {
        if let Some((i, j, k, l)) = self.find_product(id) {
            let mut product = self.product_copy(i, j, k, l);
            product.price = new_price;
            self.replace_product(i, j, k, l, product);
            Ok(())
        } else {
            Err("Product not found")
        }
    }

    /// The id, name, expiration date, price and stock of the first product with this id.
    pub fn get_product_info(&self, id: &str) -> (r: Option<(String, String, String, Price, u32)>)
        ensures
            match r {
                Some((pid, name, date, price, stock)) => store_has_product(self@, id@) && pid@
                    == id@ && pid@ == first_product(self@, id@).id && name@ == first_product(self@, id@).name
                    && date@ == first_product(self@, id@).expiration_date && price == first_product(
                    self@,
                    id@,
                ).price && stock == first_product(self@, id@).stock,
                None => !store_has_product(self@, id@),
            },
    {
        if let Some((i, j, k, l)) = self.find_product(id) {
            let product = self.product_copy(i, j, k, l);
            let Product { id: id_, name, expiration_date, price, stock } = product;
            Some((id_, name, expiration_date, price, stock))
        } else {
            None
        }
    }

    /// Moves the first product with this id to the first zone named `new_zone`:
    /// the product is removed, then added again there. When adding fails the
    /// product stays removed and the error of adding is returned.
    pub fn change_product_position(&mut self, id: &str, new_zone: &str) -> (r: Result<
        (),
        &'static str,
    >)
        ensures
            !store_has_product(old(self)@, id@) ==> r == Err::<(), &'static str>("Product not found")
                && final(self)@ == old(self)@,
            store_has_product(old(self)@, id@) ==> {
                let removed = without_first_product(old(self)@, id@);
                let p = first_product(old(self)@, id@);
                match r {
                    Ok(()) => !store_has_product(removed, id@) && store_has_zone(removed, new_zone@)
                        && final(self)@ == with_product_in_zone(removed, new_zone@, p),
                    Err(e) => final(self)@ == removed && if store_has_product(removed, id@) {
                        e@ == "Product already exists!"@
                    } else {
                        !store_has_zone(removed, new_zone@) && e@ == "Zone not found"@
                    },
                }
            },
    {
        let ghost before = self@;
        if let Some((id_, name, expiration_date, price, stock)) = self.get_product_info(id) {
            match self.remove_product(id) {
                Ok(()) => {},
                Err(_) => {
                    return Err("Failed removing product");
                },
            }
            let ghost removed = self@;
            proof {
                assert(ProductView {
                    id: id_@,
                    name: name@,
                    expiration_date: expiration_date@,
                    price,
                    stock,
                } == first_product(before, id@));
                assert(removed == without_first_product(before, id@));
            }
            match self.add_product(
                new_zone,
                id_.as_str(),
                name.as_str(),
                expiration_date.as_str(),
                price,
                stock,
            ) {
                Ok(()) => {},
                Err(error) => {
                    return Err(error);
                },
            }
            return Ok(());
        }
        Err("Product not found")
    }
}

/// An empty zone with this name.
pub open spec fn empty_zone(name: Seq<char>) -> ZoneView {
    ZoneView { name, products: Seq::empty() }
}

/// The rows of the example store: two rows of two shelves of two empty zones.
pub open spec fn example_rows() -> Seq<RowView> {
    seq![
        RowView {
            name: "food"@,
            shelves: seq![
                ShelfView { name: "healthy"@, zones: seq![empty_zone("fruit"@), empty_zone("veggies"@)] },
                ShelfView { name: "snacks"@, zones: seq![empty_zone("chips"@), empty_zone("cookies"@)] },
            ],
        },
        RowView {
            name: "beverages"@,
            shelves: seq![
                ShelfView { name: "alcohol"@, zones: seq![empty_zone("wine"@), empty_zone("beer"@)] },
                ShelfView { name: "soft"@, zones: seq![empty_zone("juice"@), empty_zone("water"@)] },
            ],
        },
    ]
}

/// An empty zone named `name`.
fn empty_zone_named(name: &str) -> (z: Zone)
    ensures
        z@ == empty_zone(name@),
{
    let z = Zone::new(name, Vec::new());
    assert(z@.products =~= Seq::<ProductView>::empty());
    z
}

/// A shelf named `name` with two empty zones.
fn shelf_of_two(name: &str, first: &str, second: &str) -> (s: Shelf)
    ensures
        s@ == (ShelfView { name: name@, zones: seq![empty_zone(first@), empty_zone(second@)] }),
{
    let s = Shelf::new(name, vec![empty_zone_named(first), empty_zone_named(second)]);
    assert(s@.zones =~= seq![empty_zone(first@), empty_zone(second@)]);
    s
}

/// The example store, with its rows, shelves and zones and no products.
pub fn create_store() -> (store: GroceryStore)
    ensures
        store@ == example_rows(),
{
    let mut store = GroceryStore::new();
    let row1 = Row::new(
        "food",
        vec![shelf_of_two("healthy", "fruit", "veggies"), shelf_of_two("snacks", "chips", "cookies")],
    );
    let row2 = Row::new(
        "beverages",
        vec![shelf_of_two("alcohol", "wine", "beer"), shelf_of_two("soft", "juice", "water")],
    );
    let ghost v1 = row1@;
    let ghost v2 = row2@;
    assert(v1.shelves =~= example_rows()[0].shelves);
    assert(v2.shelves =~= example_rows()[1].shelves);
    store.add_rows(vec![row1, row2]);
    assert(store@ =~= example_rows());
    store
}


/// A product of the example stock, its price given by its `f32` bits.
pub open spec fn stock_entry(id: Seq<char>, name: Seq<char>, date: Seq<char>, bits: u32, stock: u32) -> ProductView {
    ProductView { id, name, expiration_date: date, price: Price { bits }, stock }
}

/// The rows after an attempt to add a product to the first zone named `zone`:
/// the product is added when its id is new and the zone exists, and otherwise
/// nothing changes.
#[verifier::opaque]
pub open spec fn after_add(v: Seq<RowView>, zone: Seq<char>, pv: ProductView) -> Seq<RowView> {
    if !store_has_product(v, pv.id) && store_has_zone(v, zone) {
        with_product_in_zone(v, zone, pv)
    } else {
        v
    }
}

/// The rows after an attempt to add each of the sixteen example products in
/// turn; an attempt that is refused is passed over.
pub open spec fn stocked_rows(v: Seq<RowView>) -> Seq<RowView> {
    let v = after_add(v, "fruit"@, stock_entry("001"@, "apple"@, "02-03-2025"@, 0x3f7d70a4, 50));
    let v = after_add(v, "fruit"@, stock_entry("002"@, "banana"@, "02-04-2025"@, 0x3fbeb852, 25));
    let v = after_add(v, "veggies"@, stock_entry("003"@, "carrot"@, "03-04-2025"@, 0x3ffeb852, 10));
    let v = after_add(v, "veggies"@, stock_entry("004"@, "tomato"@, "03-05-2025"@, 0x3ffeb852, 12));
    let v = after_add(v, "chips"@, stock_entry("005"@, "pringles"@, "03-05-2026"@, 0x403f5c29, 10));
    let v = after_add(v, "chips"@, stock_entry("006"@, "ruffles"@, "03-08-2026"@, 0x401f5c29, 8));
    let v = after_add(v, "cookies"@, stock_entry("007"@, "oreo"@, "03-08-2030"@, 0x3ffeb852, 5));
    let v = after_add(v, "cookies"@, stock_entry("008"@, "shortcakes"@, "03-01-2030"@, 0x3fa51eb8, 6));
    let v = after_add(v, "wine"@, stock_entry("009"@, "red wine"@, "03-01-2050"@, 0x409fae14, 80));
    let v = after_add(v, "wine"@, stock_entry("010"@, "white wine"@, "08-01-2050"@, 0x407f5c29, 50));
    let v = after_add(v, "beer"@, stock_entry("011"@, "ipa"@, "08-01-2040"@, 0x403f5c29, 2));
    let v = after_add(v, "beer"@, stock_entry("012"@, "lager"@, "08-01-2070"@, 0x405f5c29, 3));
    let v = after_add(v, "juice"@, stock_entry("013"@, "orange juice"@, "08-01-2026"@, 0x3ffeb852, 6));
    let v = after_add(v, "juice"@, stock_entry("014"@, "apple juice"@, "05-01-2026"@, 0x400c28f6, 7));
    let v = after_add(v, "water"@, stock_entry("015"@, "monchique"@, "05-01-2080"@, 0x4247f5c3, 1));
    let v = after_add(v, "water"@, stock_entry("016"@, "fizzle"@, "01-01-2100"@, 0x3efae148, 20));
    v
}

/// Adds a product as `add_product` does and passes over a refusal.
fn try_add_product(
    store: &mut GroceryStore,
    zone_name: &str,
    id: &str,
    name: &str,
    expiration_date: &str,
    price: Price,
    stock: u32,
)
    ensures
        final(store)@ == after_add(
            old(store)@,
            zone_name@,
            ProductView { id: id@, name: name@, expiration_date: expiration_date@, price, stock },
        ),
{
    proof {
        reveal(after_add);
    }
    let _ = store.add_product(zone_name, id, name, expiration_date, price, stock);
}

/// Stocks the store with the sixteen example products, one per call of
/// `add_product`; a product that cannot be added is passed over.
pub fn populate_store(store: &mut GroceryStore)
    ensures
        final(store)@ == stocked_rows(old(store)@),
{
    try_add_product(store, "fruit", "001", "apple", "02-03-2025", Price::from_bits(0x3f7d70a4), 50);
    try_add_product(store, "fruit", "002", "banana", "02-04-2025", Price::from_bits(0x3fbeb852), 25);
    try_add_product(store, "veggies", "003", "carrot", "03-04-2025", Price::from_bits(0x3ffeb852), 10);
    try_add_product(store, "veggies", "004", "tomato", "03-05-2025", Price::from_bits(0x3ffeb852), 12);
    try_add_product(store, "chips", "005", "pringles", "03-05-2026", Price::from_bits(0x403f5c29), 10);
    try_add_product(store, "chips", "006", "ruffles", "03-08-2026", Price::from_bits(0x401f5c29), 8);
    try_add_product(store, "cookies", "007", "oreo", "03-08-2030", Price::from_bits(0x3ffeb852), 5);
    try_add_product(store, "cookies", "008", "shortcakes", "03-01-2030", Price::from_bits(0x3fa51eb8), 6);
    try_add_product(store, "wine", "009", "red wine", "03-01-2050", Price::from_bits(0x409fae14), 80);
    try_add_product(store, "wine", "010", "white wine", "08-01-2050", Price::from_bits(0x407f5c29), 50);
    try_add_product(store, "beer", "011", "ipa", "08-01-2040", Price::from_bits(0x403f5c29), 2);
    try_add_product(store, "beer", "012", "lager", "08-01-2070", Price::from_bits(0x405f5c29), 3);
    try_add_product(store, "juice", "013", "orange juice", "08-01-2026", Price::from_bits(0x3ffeb852), 6);
    try_add_product(store, "juice", "014", "apple juice", "05-01-2026", Price::from_bits(0x400c28f6), 7);
    try_add_product(store, "water", "015", "monchique", "05-01-2080", Price::from_bits(0x4247f5c3), 1);
    try_add_product(store, "water", "016", "fizzle", "01-01-2100", Price::from_bits(0x3efae148), 20);
}

} // verus!
