use crate::game::snake::in_field;
use crate::point::Point;
use crate::size::Size;
use rand::Rng;
use std::collections::HashSet;
use vstd::arithmetic::div_mod::{
    lemma_fundamental_div_mod, lemma_fundamental_div_mod_converse, lemma_multiply_divide_lt,
};
use vstd::prelude::*;

verus! {

broadcast use vstd::std_specs::hash::group_hash_axioms;

/// What a pickup looks like; the kinds behave alike.
#[derive(PartialEq, Eq, Structural, Debug, Clone, Copy)]
pub enum PickupKind {
    Cherry,
    Apple,
}

/// An item on the field that makes the snake grow when eaten.
#[derive(PartialEq, Eq, Structural, Debug, Clone, Copy)]
pub struct Pickup {
    pub pickup_kind: PickupKind,
    pub position: Point,
}

/// The membership key of a cell: distinct for distinct `i32` pairs.
pub open spec fn cell_key(x: int, y: int) -> int {
    (x + 0x8000_0000) * 0x1_0000_0000 + (y + 0x8000_0000)
}

/// The cell with row-major index `i` on a field `width` cells wide.
pub open spec fn cell_of(i: int, width: u32) -> Point {
    Point { x: (i % width as int) as i32, y: (i / width as int) as i32 }
}

/// The row-major index of a cell.
pub open spec fn index_of(p: Point, width: u32) -> int {
    p.y * width + p.x
}

/// Whether the cell with index `i` is not occupied.
pub open spec fn is_free(occupied: Seq<Point>, width: u32, i: int) -> bool {
    !occupied.contains(cell_of(i, width))
}

/// How many of the cells with index below `n` are free.
pub open spec fn free_before(occupied: Seq<Point>, width: u32, n: nat) -> nat
    decreases n,
{
    if n == 0 {
        0
    } else {
        free_before(occupied, width, (n - 1) as nat) + if is_free(occupied, width, n - 1) {
            1nat
        } else {
            0nat
        }
    }
}

/// An occupied set as placement expects it: cells of the field, each once,
/// on a field whose cells `i32` can address.
pub open spec fn valid_occupied(occupied: Seq<Point>, size: Size) -> bool {
    &&& size.width <= i32::MAX
    &&& size.height <= i32::MAX
    &&& occupied.no_duplicates()
    &&& forall|i: int|
        0 <= i < occupied.len() ==> in_field(
            (#[trigger] occupied[i]).x as int,
            occupied[i].y as int,
            size,
        )
}

/// `p` is the free cell that `rank` free cells precede in row-major order.
pub open spec fn is_nth_free_cell(occupied: Seq<Point>, size: Size, rank: int, p: Point) -> bool {
    exists|i: int|
        0 <= i < size.area() && is_free(occupied, size.width, i) && #[trigger] free_before(
            occupied,
            size.width,
            i as nat,
        ) == rank && cell_of(i, size.width) == p
}

proof fn lemma_cell_key_injective(a: Point, b: Point)
    requires
        cell_key(a.x as int, a.y as int) == cell_key(b.x as int, b.y as int),
    ensures
        a == b,
{
    let (ax, ay, bx, by) = (a.x + 0x8000_0000, a.y + 0x8000_0000, b.x + 0x8000_0000, b.y
        + 0x8000_0000);
    assert(ax == bx && ay == by) by (nonlinear_arith)
        requires
            0 <= ax < 0x1_0000_0000,
            0 <= ay < 0x1_0000_0000,
            0 <= bx < 0x1_0000_0000,
            0 <= by < 0x1_0000_0000,
            ax * 0x1_0000_0000 + ay == bx * 0x1_0000_0000 + by,
    ;
}

/// Cells with index below the area lie in the field, and index and cell
/// correspond both ways.
proof fn lemma_cell_of_index(i: int, size: Size)
    requires
        0 <= i < size.area(),
        size.width <= i32::MAX,
        size.height <= i32::MAX,
    ensures
        0 <= i % (size.width as int) < size.width,
        0 <= i / (size.width as int) < size.height,
        in_field(cell_of(i, size.width).x as int, cell_of(i, size.width).y as int, size),
        index_of(cell_of(i, size.width), size.width) == i,
{
    let w = size.width as int;
    let h = size.height as int;
    assert(w > 0) by (nonlinear_arith)
        requires
            0 <= i < w * h,
            h >= 0,
    ;
    lemma_multiply_divide_lt(i, w, h);
    lemma_fundamental_div_mod(i, w);
    assert(0 <= i / w) by (nonlinear_arith)
        requires
            0 <= i,
            w > 0,
    ;
    assert(i == (i / w) * w + i % w) by (nonlinear_arith)
        requires
            i == w * (i / w) + (i % w),
    ;
}

proof fn lemma_index_of_cell(p: Point, size: Size)
    requires
        in_field(p.x as int, p.y as int, size),
        size.width <= i32::MAX,
        size.height <= i32::MAX,
    ensures
        0 <= index_of(p, size.width) < size.area(),
        cell_of(index_of(p, size.width), size.width) == p,
{
    let w = size.width as int;
    let h = size.height as int;
    let i = index_of(p, size.width);
    assert(0 <= p.y * w + p.x < w * h) by (nonlinear_arith)
        requires
            0 <= p.x < w,
            0 <= p.y < h,
    ;
    lemma_fundamental_div_mod_converse(i, w, p.y as int, p.x as int);
}

/// More free cells can only come later: `free_before` is monotone.
proof fn lemma_free_before_monotone(occupied: Seq<Point>, width: u32, a: nat, b: nat)
    requires
        a <= b,
    ensures
        free_before(occupied, width, a) <= free_before(occupied, width, b),
    decreases b - a,
{
    if a < b {
        lemma_free_before_monotone(occupied, width, a, (b - 1) as nat);
    }
}

proof fn lemma_all_free(width: u32, n: nat)
    ensures
        free_before(Seq::<Point>::empty(), width, n) == n,
    decreases n,
{
    if n > 0 {
        lemma_all_free(width, (n - 1) as nat);
    }
}

/// Dropping the last occupied cell frees exactly its index.
proof fn lemma_free_before_drop_last(occupied: Seq<Point>, size: Size, n: nat)
    requires
        valid_occupied(occupied, size),
        occupied.len() > 0,
        n <= size.area(),
    ensures
        free_before(occupied.drop_last(), size.width, n) == free_before(occupied, size.width, n)
            + if index_of(occupied.last(), size.width) < n {
            1nat
        } else {
            0nat
        },
    decreases n,
{
    if n > 0 {
        let m = (n - 1) as int;
        let w = size.width;
        let rest = occupied.drop_last();
        let p = occupied.last();
        lemma_free_before_drop_last(occupied, size, (n - 1) as nat);
        lemma_cell_of_index(m, size);
        assert(occupied[occupied.len() - 1] == p);
        assert(in_field(p.x as int, p.y as int, size));
        lemma_index_of_cell(p, size);
        let c = cell_of(m, w);
        if index_of(p, w) == m {
            assert(c == p);
            assert(occupied.contains(c));
            assert(!rest.contains(c)) by {
                if rest.contains(c) {
                    let j = choose|j: int| 0 <= j < rest.len() && rest[j] == c;
                    assert(occupied[j] == occupied[occupied.len() - 1]);
                }
            }
        } else {
            assert(c != p);
            assert(rest.contains(c) == occupied.contains(c)) by {
                if occupied.contains(c) {
                    let j = choose|j: int| 0 <= j < occupied.len() && occupied[j] == c;
                    assert(rest[j] == c);
                }
                if rest.contains(c) {
                    let j = choose|j: int| 0 <= j < rest.len() && rest[j] == c;
                    assert(occupied[j] == c);
                }
            }
        }
    }
}

/// On a valid occupied set, exactly `area - len` cells are free.
proof fn lemma_free_total(occupied: Seq<Point>, size: Size)
    requires
        valid_occupied(occupied, size),
    ensures
        free_before(occupied, size.width, size.area() as nat) == size.area() - occupied.len(),
    decreases occupied.len(),
{
    assert(size.area() >= 0) by (nonlinear_arith)
        requires
            size.width >= 0,
            size.height >= 0,
    ;
    if occupied.len() == 0 {
        assert(occupied =~= Seq::<Point>::empty());
        lemma_all_free(size.width, size.area() as nat);
    } else {
        let rest = occupied.drop_last();
        assert(valid_occupied(rest, size)) by {
            assert forall|i: int| 0 <= i < rest.len() implies in_field(
                (#[trigger] rest[i]).x as int,
                rest[i].y as int,
                size,
            ) by {
                assert(rest[i] == occupied[i]);
            }
            assert forall|i: int, j: int|
                0 <= i < rest.len() && 0 <= j < rest.len() && i != j implies rest[i]
                != rest[j] by {
                assert(rest[i] == occupied[i] && rest[j] == occupied[j]);
            }
        }
        lemma_free_total(rest, size);
        lemma_free_before_drop_last(occupied, size, size.area() as nat);
        let p = occupied.last();
        assert(occupied[occupied.len() - 1] == p);
        lemma_index_of_cell(p, size);
    }
}

/// Placement pairs the ranks `[0, area - len)` one-to-one with the free cells:
/// every free cell of the field is the `rank`-th free cell for exactly one
/// such rank, and no rank names two cells. A rank drawn uniformly therefore
/// picks every free cell with the same chance.
pub proof fn lemma_placement_uniform(occupied: Seq<Point>, size: Size, p: Point, q: Point)
    requires
        valid_occupied(occupied, size),
    ensures
        in_field(p.x as int, p.y as int, size) && !occupied.contains(p) ==> exists|rank: int|
            0 <= rank < size.area() - occupied.len() && is_nth_free_cell(
                occupied,
                size,
                rank,
                p,
            ),
        forall|r1: int, r2: int|
            is_nth_free_cell(occupied, size, r1, p) && is_nth_free_cell(occupied, size, r2, p)
                ==> r1 == r2,
        forall|rank: int|
            is_nth_free_cell(occupied, size, rank, p) && is_nth_free_cell(occupied, size, rank, q)
                ==> p == q,
{
    let w = size.width;
    lemma_free_total(occupied, size);
    if in_field(p.x as int, p.y as int, size) && !occupied.contains(p) {
        lemma_index_of_cell(p, size);
        let i = index_of(p, w);
        lemma_free_before_monotone(occupied, w, (i + 1) as nat, size.area() as nat);
        assert(is_nth_free_cell(occupied, size, free_before(occupied, w, i as nat) as int, p));
    }
    assert forall|r1: int, r2: int|
        is_nth_free_cell(occupied, size, r1, p) && is_nth_free_cell(occupied, size, r2, p)
            implies r1 == r2 by {
        let i = choose|i: int|
            0 <= i < size.area() && is_free(occupied, w, i) && #[trigger] free_before(
                occupied,
                w,
                i as nat,
            ) == r1 && cell_of(i, w) == p;
        let j = choose|j: int|
            0 <= j < size.area() && is_free(occupied, w, j) && #[trigger] free_before(
                occupied,
                w,
                j as nat,
            ) == r2 && cell_of(j, w) == p;
        lemma_cell_of_index(i, size);
        lemma_cell_of_index(j, size);
    }
    assert forall|rank: int|
        is_nth_free_cell(occupied, size, rank, p) && is_nth_free_cell(occupied, size, rank, q)
            implies p == q by {
        let i = choose|i: int|
            0 <= i < size.area() && is_free(occupied, w, i) && #[trigger] free_before(
                occupied,
                w,
                i as nat,
            ) == rank && cell_of(i, w) == p;
        let j = choose|j: int|
            0 <= j < size.area() && is_free(occupied, w, j) && #[trigger] free_before(
                occupied,
                w,
                j as nat,
            ) == rank && cell_of(j, w) == q;
        if i < j {
            lemma_free_before_monotone(occupied, w, (i + 1) as nat, j as nat);
        } else if j < i {
            lemma_free_before_monotone(occupied, w, (j + 1) as nat, i as nat);
        }
    }
}

/// The membership key of `(x, y)`.
fn get_hashcode(x: i32, y: i32) -> (r: u64)
    ensures
        r == cell_key(x as int, y as int),
{
    let kx = (x as i64 + 0x8000_0000) as u64;
    let ky = (y as i64 + 0x8000_0000) as u64;
    assert(kx * 0x1_0000_0000 + ky <= u64::MAX) by (nonlinear_arith)
        requires
            kx < 0x1_0000_0000,
            ky < 0x1_0000_0000,
    ;
    kx * 0x1_0000_0000 + ky
}

/// Relies on rand's `thread_rng` and `Rng::gen_range(low, high)`, which gives a
/// value in `[low, high)` and panics when `low >= high`.
#[verifier::external_body]
fn random_below(bound: u64) -> (r: u64)
    requires
        0 < bound,
    ensures
        r < bound,
{
    rand::thread_rng().gen_range(0, bound)
}

/// The free cell that `rank` free cells precede in row-major order, if the
/// field has more than `rank` free cells.
pub fn find_nth_free_cell(field_size: Size, occupied_cells: &[Point], rank: u64) -> (r: Option<
    Point,
>)
    requires
        field_size.width <= i32::MAX,
        field_size.height <= i32::MAX,
    ensures
        r.is_some() <==> rank < free_before(
            occupied_cells@,
            field_size.width,
            field_size.area() as nat,
        ),
        r matches Some(p) ==> is_nth_free_cell(occupied_cells@, field_size, rank as int, p),
{
    let ghost occ = occupied_cells@;
    let mut keys: HashSet<u64> = HashSet::new();
    let mut k: usize = 0;
    while k < occupied_cells.len()
        invariant
            k <= occ.len(),
            occ == occupied_cells@,
            forall|key: u64|
                #![trigger keys@.contains(key)]
                keys@.contains(key) <==> exists|j: int|
                    0 <= j < k && cell_key(occ[j].x as int, occ[j].y as int) == key,
        decreases occ.len() - k,
    {
        let p = occupied_cells[k];
        let key = get_hashcode(p.x, p.y);
        keys.insert(key);
        assert forall|key2: u64| #![trigger keys@.contains(key2)]
            keys@.contains(key2) <==> exists|j: int|
                0 <= j < k + 1 && cell_key(occ[j].x as int, occ[j].y as int) == key2 by {
            if key2 == key {
                assert(cell_key(occ[k as int].x as int, occ[k as int].y as int) == key2);
            }
        }
        k = k + 1;
    }

    let width = field_size.width as u64;
    assert(width * field_size.height <= u64::MAX) by (nonlinear_arith)
        requires
            width <= i32::MAX,
            field_size.height <= i32::MAX,
    ;
    let area: u64 = width * field_size.height as u64;
    let mut idx: u64 = 0;
    let mut count: u64 = 0;
    while idx < area
        invariant
            idx <= area,
            area == field_size.area(),
            width == field_size.width,
            field_size.width <= i32::MAX,
            field_size.height <= i32::MAX,
            count == free_before(occ, field_size.width, idx as nat),
            count <= rank,
            occ == occupied_cells@,
            forall|key: u64|
                #![trigger keys@.contains(key)]
                keys@.contains(key) <==> exists|j: int|
                    0 <= j < occ.len() && cell_key(occ[j].x as int, occ[j].y as int) == key,
        decreases area - idx,
    {
        proof {
            lemma_cell_of_index(idx as int, field_size);
        }
        let x = (idx % width) as i32;
        let y = (idx / width) as i32;
        let ghost c = cell_of(idx as int, field_size.width);
        assert(c == Point { x, y });
        let key = get_hashcode(x, y);
        let taken = keys.contains(&key);
        assert(taken == occ.contains(c)) by {
            if taken {
                let j = choose|j: int|
                    0 <= j < occ.len() && cell_key(occ[j].x as int, occ[j].y as int) == key;
                lemma_cell_key_injective(occ[j], c);
            }
            if occ.contains(c) {
                let j = choose|j: int| 0 <= j < occ.len() && occ[j] == c;
                assert(keys@.contains(key));
            }
        }
        if !taken {
            if count == rank {
                proof {
                    lemma_free_before_monotone(
                        occ,
                        field_size.width,
                        (idx + 1) as nat,
                        area as nat,
                    );
                }
                return Some(Point::new(x, y));
            }
            count = count + 1;
        }
        idx = idx + 1;
    }
    None
}

/// A free cell of the field chosen uniformly at random, or `None` when every
/// cell is occupied.
pub fn find_non_occupied_cell(field_size: Size, occupied_cells: &[Point]) -> (r: Option<Point>)
    requires
        valid_occupied(occupied_cells@, field_size),
    ensures
        r.is_none() <==> occupied_cells@.len() == field_size.area(),
        r matches Some(p) ==> {
            &&& in_field(p.x as int, p.y as int, field_size)
            &&& !occupied_cells@.contains(p)
            &&& exists|rank: int|
                0 <= rank < field_size.area() - occupied_cells@.len() && is_nth_free_cell(
                    occupied_cells@,
                    field_size,
                    rank,
                    p,
                )
        },
{
    proof {
        lemma_free_total(occupied_cells@, field_size);
    }
    assert(field_size.width * field_size.height <= u64::MAX) by (nonlinear_arith)
        requires
            field_size.width <= i32::MAX,
            field_size.height <= i32::MAX,
    ;
    let area: u64 = field_size.width as u64 * field_size.height as u64;
    let free_count: u64 = area - occupied_cells.len() as u64;
    if free_count == 0 {
        return None;
    }
    let rank = random_below(free_count);
    let r = find_nth_free_cell(field_size, occupied_cells, rank);
    proof {
        if let Some(p) = r {
            let i = choose|i: int|
                0 <= i < field_size.area() && is_free(occupied_cells@, field_size.width, i)
                    && #[trigger] free_before(occupied_cells@, field_size.width, i as nat)
                    == rank && cell_of(i, field_size.width) == p;
            lemma_cell_of_index(i, field_size);
        }
    }
    r
}

impl Pickup {
    /// A cherry on a random free cell, or `None` when the field is full.
    pub fn new_cherry(field_size: Size, occupied_cells: &[Point]) -> (r: Option<Pickup>)
        requires
            valid_occupied(occupied_cells@, field_size),
        ensures
            r.is_none() <==> occupied_cells@.len() == field_size.area(),
            r matches Some(pk) ==> {
                &&& pk.pickup_kind == PickupKind::Cherry
                &&& in_field(pk.position.x as int, pk.position.y as int, field_size)
                &&& !occupied_cells@.contains(pk.position)
            },
    {
        match find_non_occupied_cell(field_size, occupied_cells) {
            Some(position) => Some(Pickup { pickup_kind: PickupKind::Cherry, position }),
            None => None,
        }
    }

    /// An apple on a random free cell, or `None` when the field is full.
    pub fn new_apple(field_size: Size, occupied_cells: &[Point]) -> (r: Option<Pickup>)
        requires
            valid_occupied(occupied_cells@, field_size),
        ensures
            r.is_none() <==> occupied_cells@.len() == field_size.area(),
            r matches Some(pk) ==> {
                &&& pk.pickup_kind == PickupKind::Apple
                &&& in_field(pk.position.x as int, pk.position.y as int, field_size)
                &&& !occupied_cells@.contains(pk.position)
            },
    {
        match find_non_occupied_cell(field_size, occupied_cells) {
            Some(position) => Some(Pickup { pickup_kind: PickupKind::Apple, position }),
            None => None,
        }
    }
}

} // verus!
