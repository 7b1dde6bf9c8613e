//! Ship looks: the style byte chosen in the customisation menu, and the
//! outline shapes and mesh indices that a style byte stands for.
//!
//! Coordinates are in quarter units: the value 20 stands for the length 5.0.
//! Every corner of every ship part lies on that quarter grid, so the
//! conversion back to lengths is exact.

use vstd::prelude::*;

verus! {

/// The look of a ship, as picked in the customisation menu.
/// `base` selects the hull: 0 cursor, 1 spear, 2 triangle, 3 arrow.
#[derive(Clone, Copy, Debug, PartialEq, Eq, Structural)]
pub struct ShipStyle {
    pub base: u8,
    pub aspects: bool,
    pub lined: bool,
    pub spear: bool,
    pub spikes: bool,
    pub gem: bool,
    pub shards: bool,
}

pub open spec fn flag(b: bool, weight: int) -> int {
    if b { weight } else { 0 }
}

/// The style byte of a look: the hull in the two top bits, then one bit each
/// for lined, spear, spikes, gem, shards and aspects.
pub open spec fn style_byte(s: ShipStyle) -> int {
    s.base * 64 + flag(s.lined, 32) + flag(s.spear, 16) + flag(s.spikes, 8) + flag(s.gem, 4)
        + flag(s.shards, 2) + flag(s.aspects, 1)
}

/// The bit of weight `2^k` in `b`, for `k < 8`.
pub open spec fn bit_set(b: u8, weight: int) -> bool {
    (b as int / weight) % 2 == 1
}

/// The look that a style byte stands for.
pub open spec fn style_of_byte(b: u8) -> ShipStyle {
    ShipStyle {
        base: (b / 64) as u8,
        aspects: bit_set(b, 1),
        lined: bit_set(b, 32),
        spear: bit_set(b, 16),
        spikes: bit_set(b, 8),
        gem: bit_set(b, 4),
        shards: bit_set(b, 2),
    }
}

impl ShipStyle {
    /// Packs the look into its style byte.
    pub fn to_byte(&self) -> (r: u8)
        requires
            self.base < 4,
        ensures
            r as int == style_byte(*self),
    {
        self.base * 64 + (self.lined as u8) * 32 + (self.spear as u8) * 16 + (self.spikes as u8) * 8
            + (self.gem as u8) * 4 + (self.shards as u8) * 2 + (self.aspects as u8)
    }

    /// Reads the look out of a style byte.
    pub fn from_byte(b: u8) -> (r: ShipStyle)
        ensures
            r == style_of_byte(b),
    {
        ShipStyle {
            base: b / 64,
            aspects: b % 2 == 1,
            lined: (b / 32) % 2 == 1,
            spear: (b / 16) % 2 == 1,
            spikes: (b / 8) % 2 == 1,
            gem: (b / 4) % 2 == 1,
            shards: (b / 2) % 2 == 1,
        }
    }
}

/// Packing a look and reading it back gives the same look.
pub proof fn law_style_round_trip(s: ShipStyle)
    requires
        s.base < 4,
    ensures
        0 <= style_byte(s) < 256,
        style_of_byte(style_byte(s) as u8) == s,
{
    let b = style_byte(s);
    assert(0 <= b < 256);
    let bb = b as u8;
    assert(bb as int == b);
    assert(bb / 64 == s.base);
    assert(bit_set(bb, 1) == s.aspects);
    assert(bit_set(bb, 2) == s.shards);
    assert(bit_set(bb, 4) == s.gem);
    assert(bit_set(bb, 8) == s.spikes);
    assert(bit_set(bb, 16) == s.spear);
    assert(bit_set(bb, 32) == s.lined);
}

/// Reading a style byte and packing the look again gives the same byte.
pub proof fn law_byte_round_trip(b: u8)
    ensures
        style_of_byte(b).base < 4,
        style_byte(style_of_byte(b)) == b,
{
    assert((b / 64) * 64 + ((b / 32) % 2) * 32 + ((b / 16) % 2) * 16 + ((b / 8) % 2) * 8 + ((b / 4)
        % 2) * 4 + ((b / 2) % 2) * 2 + b % 2 == b) by (bit_vector);
    assert(b / 64 < 4) by (bit_vector);
    let s = style_of_byte(b);
    assert(flag(s.lined, 32) == ((b / 32) % 2) * 32);
    assert(flag(s.spear, 16) == ((b / 16) % 2) * 16);
    assert(flag(s.spikes, 8) == ((b / 8) % 2) * 8);
    assert(flag(s.gem, 4) == ((b / 4) % 2) * 4);
    assert(flag(s.shards, 2) == ((b / 2) % 2) * 2);
    assert(flag(s.aspects, 1) == b % 2);
}


/// A closed outline: the corners of one ship part, in quarter units.
pub type Outline = Seq<(i32, i32)>;

pub open spec fn shard_outlines() -> Seq<Outline> {
    seq![
        seq![(-4i32, -12i32), (0i32, -24i32), (4i32, -12i32)],
        seq![(4i32, -12i32), (12i32, -22i32), (12i32, -10i32)],
        seq![(-4i32, -12i32), (-12i32, -22i32), (-12i32, -10i32)],
    ]
}

/// The hull outline for each value of `ShipStyle::base`.
pub open spec fn hull_outline(base: u8) -> Outline {
    if base == 0 {
        seq![(0i32, 20i32), (12i32, -10i32), (0i32, -20i32), (-12i32, -10i32)]
    } else if base == 1 {
        seq![(0i32, 20i32), (16i32, -20i32), (4i32, -12i32), (0i32, -20i32), (-4i32, -12i32), (-16i32, -20i32)]
    } else if base == 2 {
        seq![(0i32, 20i32), (16i32, -20i32), (-16i32, -20i32)]
    } else {
        seq![(0i32, 20i32), (16i32, -20i32), (0i32, -12i32), (-16i32, -20i32)]
    }
}

pub open spec fn spear_outline() -> Outline {
    seq![(0i32, 24i32), (-4i32, 16i32), (0i32, 14i32), (4i32, 16i32)]
}

pub open spec fn spike_outlines() -> Seq<Outline> {
    seq![
        seq![(2i32, 15i32), (12i32, 3i32), (10i32, -5i32)],
        seq![(-2i32, 15i32), (-12i32, 3i32), (-10i32, -5i32)],
    ]
}

pub open spec fn gem_outline() -> Outline {
    seq![(0i32, 12i32), (-8i32, -8i32), (0i32, -12i32), (8i32, -8i32)]
}

/// The parts of a ship of the given look, back to front: shards, hull,
/// spear, spikes, gem; each decoration only where its bit is set.
pub open spec fn ship_outlines(s: ShipStyle) -> Seq<Outline> {
    (if s.shards { shard_outlines() } else { Seq::empty() })
        + seq![hull_outline(s.base)]
        + (if s.spear { seq![spear_outline()] } else { Seq::empty() })
        + (if s.spikes { spike_outlines() } else { Seq::empty() })
        + (if s.gem { seq![gem_outline()] } else { Seq::empty() })
}

/// A part as it is handed to the mesh: lined parts repeat their first corner
/// at the end, so that the outline closes.
pub open spec fn drawn_outline(o: Outline, lined: bool) -> Outline {
    if lined { o.push(o[0]) } else { o }
}

/// Where the corners of part `i` start in the concatenation of the drawn parts.
pub open spec fn part_start(parts: Seq<Outline>, i: int, lined: bool) -> int
    decreases i,
{
    if i <= 0 {
        0
    } else {
        part_start(parts, i - 1, lined) + parts[i - 1].len() + flag(lined, 1)
    }
}

/// Line-list indices of a closed outline of `len` corners starting at `start`:
/// corner k joined to corner k + 1, the last to the first.
pub open spec fn line_indices(start: int, len: int) -> Seq<u32> {
    Seq::new(
        (2 * len) as nat,
        |j: int| (if j % 2 == 0 { start + j / 2 } else { start + (j / 2 + 1) % len }) as u32,
    )
}

/// Triangle-list indices of a fan over a polygon of `len` corners starting at
/// `start`: the triangles (0, k - 1, k) for k from 2 up.
pub open spec fn fan_indices(start: int, len: int) -> Seq<u32> {
    Seq::new(
        (3 * (len - 2)) as nat,
        |j: int|
            (if j % 3 == 0 {
                start
            } else if j % 3 == 1 {
                start + j / 3 + 1
            } else {
                start + j / 3 + 2
            }) as u32,
    )
}

pub open spec fn part_indices(parts: Seq<Outline>, i: int, lined: bool) -> Seq<u32> {
    if lined {
        line_indices(part_start(parts, i, lined), parts[i].len() as int)
    } else {
        fan_indices(part_start(parts, i, lined), parts[i].len() as int)
    }
}

pub open spec fn nested_view<T>(v: Seq<Vec<T>>) -> Seq<Seq<T>> {
    v.map_values(|p: Vec<T>| p@)
}

fn outline(points: Vec<(i32, i32)>, lined: bool) -> (r: Vec<(i32, i32)>)
    requires
        points.len() > 0,
    ensures
        r@ == drawn_outline(points@, lined),
{
    let mut p = points;
    if lined {
        let first = p[0];
        p.push(first);
    }
    p
}

fn hull(base: u8, lined: bool) -> (r: Vec<(i32, i32)>)
    ensures
        r@ == drawn_outline(hull_outline(base), lined),
{
    if base == 0 {
        outline(vec![(0, 20), (12, -10), (0, -20), (-12, -10)], lined)
    } else if base == 1 {
        outline(vec![(0, 20), (16, -20), (4, -12), (0, -20), (-4, -12), (-16, -20)], lined)
    } else if base == 2 {
        outline(vec![(0, 20), (16, -20), (-16, -20)], lined)
    } else {
        outline(vec![(0, 20), (16, -20), (0, -12), (-16, -20)], lined)
    }
}

proof fn lemma_part_start_bound(parts: Seq<Outline>, i: int, lined: bool)
    requires
        0 <= i <= parts.len(),
        forall|k: int| 0 <= k < parts.len() ==> (#[trigger] parts[k]).len() <= 6,
    ensures
        0 <= part_start(parts, i, lined) <= 7 * i,
    decreases i,
{
    if i > 0 {
        lemma_part_start_bound(parts, i - 1, lined);
    }
}

fn line_list(start: u32, len: u32) -> (r: Vec<u32>)
    requires
        len > 0,
        start + 2 * len < u32::MAX,
    ensures
        r@ == line_indices(start as int, len as int),
{
    let mut d: Vec<u32> = Vec::new();
    let mut k: u32 = 0;
    while k < len
        invariant
            k <= len,
            len > 0,
            start + 2 * len < u32::MAX,
            d@ =~= line_indices(start as int, len as int).take(2 * k),
        decreases len - k,
    {
        d.push(start + k);
        d.push(start + (k + 1) % len);
        assert(d@ =~= line_indices(start as int, len as int).take(2 * (k + 1)));
        k = k + 1;
    }
    assert(line_indices(start as int, len as int).take(2 * len) =~= line_indices(
        start as int,
        len as int,
    ));
    d
}

fn fan_list(start: u32, len: u32) -> (r: Vec<u32>)
    requires
        len >= 2,
        start + len < u32::MAX,
    ensures
        r@ == fan_indices(start as int, len as int),
{
    let mut d: Vec<u32> = Vec::new();
    let mut k: u32 = 2;
    while k < len
        invariant
            2 <= k <= len,
            start + len < u32::MAX,
            d@ =~= fan_indices(start as int, len as int).take(3 * (k - 2)),
        decreases len - k,
    {
        d.push(start + 0);
        d.push(start + k - 1);
        d.push(start + k);
        assert(d@ =~= fan_indices(start as int, len as int).take(3 * (k + 1 - 2)));
        k = k + 1;
    }
    assert(fan_indices(start as int, len as int).take(3 * (len - 2)) =~= fan_indices(
        start as int,
        len as int,
    ));
    d
}

/// The parts of a ship's outline and the mesh indices of each part, for the
/// style byte `style`. Coordinates are in quarter units. Lined ships close
/// each part by repeating its first corner and get line-list indices; the
/// others get triangle-fan indices. Indices count corners across all parts.
pub fn get_ship_vertices(style: u8) -> (r: (Vec<Vec<(i32, i32)>>, Vec<Vec<u32>>))
    ensures
        ({
            let parts = ship_outlines(style_of_byte(style));
            let lined = style_of_byte(style).lined;
            &&& nested_view(r.0@) == parts.map_values(|o: Outline| drawn_outline(o, lined))
            &&& r.1@.len() == parts.len()
            &&& forall|i: int|
                0 <= i < parts.len() ==> (#[trigger] r.1@[i])@ == part_indices(parts, i, lined)
        }),
{
    let st = ShipStyle::from_byte(style);
    let lined = st.lined;
    let ghost parts = ship_outlines(st);
    let mut vertices: Vec<Vec<(i32, i32)>> = Vec::new();
    if st.shards {
        vertices.push(outline(vec![(-4, -12), (0, -24), (4, -12)], lined));
        vertices.push(outline(vec![(4, -12), (12, -22), (12, -10)], lined));
        vertices.push(outline(vec![(-4, -12), (-12, -22), (-12, -10)], lined));
    }
    vertices.push(hull(st.base, lined));
    if st.spear {
        vertices.push(outline(vec![(0, 24), (-4, 16), (0, 14), (4, 16)], lined));
    }
    if st.spikes {
        vertices.push(outline(vec![(2, 15), (12, 3), (10, -5)], lined));
        vertices.push(outline(vec![(-2, 15), (-12, 3), (-10, -5)], lined));
    }
    if st.gem {
        vertices.push(outline(vec![(0, 12), (-8, -8), (0, -12), (8, -8)], lined));
    }
    assert(nested_view(vertices@) =~= parts.map_values(|o: Outline| drawn_outline(o, lined)));
    assert(parts.len() <= 9);
    assert forall|k: int| 0 <= k < parts.len() implies 3 <= (#[trigger] parts[k]).len() <= 6 by {
    }

    let mut indices: Vec<Vec<u32>> = Vec::new();
    let mut last: u32 = 0;
    let mut i: usize = 0;
    while i < vertices.len()
        invariant
            i <= vertices.len(),
            vertices.len() == parts.len(),
            parts.len() <= 9,
            forall|k: int| 0 <= k < parts.len() ==> 3 <= (#[trigger] parts[k]).len() <= 6,
            nested_view(vertices@) == parts.map_values(|o: Outline| drawn_outline(o, lined)),
            last as int == part_start(parts, i as int, lined),
            indices@.len() == i,
            forall|k: int| 0 <= k < i ==> (#[trigger] indices@[k])@ == part_indices(parts, k, lined),
        decreases vertices.len() - i,
    {
        proof {
            lemma_part_start_bound(parts, i as int, lined);
            assert(nested_view(vertices@)[i as int] == vertices@[i as int]@);
        }
        let drawn = vertices[i].len();
        if lined {
            let n = (drawn - 1) as u32;
            indices.push(line_list(last, n));
            last = last + n + 1;
        } else {
            let n = drawn as u32;
            indices.push(fan_list(last, n));
            last = last + n;
        }
        i = i + 1;
    }
    (vertices, indices)
}


/// The data of a ship mesh before it is scaled into the world: every corner of
/// every part in order (quarter units), whether the corner is drawn in white
/// instead of the player's colour, the indices, and whether the mesh is a
/// line list (true) or a triangle list.
pub struct ShipMesh {
    pub points: Vec<(i32, i32)>,
    pub highlighted: Vec<bool>,
    pub indices: Vec<u32>,
    pub lined: bool,
}

/// A part belongs to the hull when it has the hull's nose corner (0, 5).
pub open spec fn is_hull_part(o: Outline) -> bool {
    o.contains((0i32, 20i32))
}

/// Per corner of each drawn part: drawn in white, which happens on the hull of
/// an "aspects" ship.
pub open spec fn highlight_marks(drawn: Seq<Outline>, aspects: bool) -> Seq<Seq<bool>> {
    drawn.map_values(|o: Outline| Seq::new(o.len(), |k: int| aspects && is_hull_part(o)))
}

fn has_nose(points: &Vec<(i32, i32)>) -> (r: bool)
    ensures
        r == is_hull_part(points@),
{
    let mut k: usize = 0;
    while k < points.len()
        invariant
            k <= points.len(),
            forall|j: int| 0 <= j < k ==> points@[j] != (0i32, 20i32),
        decreases points.len() - k,
    {
        if points[k].0 == 0 && points[k].1 == 20 {
            assert(points@[k as int] == (0i32, 20i32));
            return true;
        }
        k = k + 1;
    }
    false
}

proof fn lemma_flatten_step<T>(s: Seq<Seq<T>>, i: int)
    requires
        0 <= i < s.len(),
    ensures
        s.take(i + 1).flatten_alt() == s.take(i).flatten_alt() + s[i],
{
    assert(s.take(i + 1).drop_last() =~= s.take(i));
}

/// Everything the game needs to build the mesh of a ship of style `style`:
/// the parts of `get_ship_vertices` laid end to end, their indices laid end
/// to end, and which corners are drawn in white (the hull of an "aspects"
/// ship; everything else takes the player's colour).
pub fn ship_mesh_layout(style: u8) -> (r: ShipMesh)
    ensures
        ({
            let st = style_of_byte(style);
            let parts = ship_outlines(st);
            let drawn = parts.map_values(|o: Outline| drawn_outline(o, st.lined));
            &&& r.lined == st.lined
            &&& r.points@ == drawn.flatten_alt()
            &&& r.highlighted@ == highlight_marks(drawn, st.aspects).flatten_alt()
            &&& r.indices@ == Seq::new(parts.len(), |i: int| part_indices(parts, i, st.lined)).flatten_alt()
        }),
{
    let st = ShipStyle::from_byte(style);
    let (vertices, index_parts) = get_ship_vertices(style);
    let ghost parts = ship_outlines(st);
    let ghost drawn = parts.map_values(|o: Outline| drawn_outline(o, st.lined));
    let ghost marks = highlight_marks(drawn, st.aspects);
    let ghost idx = Seq::new(parts.len(), |i: int| part_indices(parts, i, st.lined));
    let mut points: Vec<(i32, i32)> = Vec::new();
    let mut highlighted: Vec<bool> = Vec::new();
    let mut indices: Vec<u32> = Vec::new();
    let mut i: usize = 0;
    while i < vertices.len()
        invariant
            i <= vertices.len(),
            nested_view(vertices@) == drawn,
            drawn.len() == parts.len(),
            marks == highlight_marks(drawn, st.aspects),
            idx == Seq::new(parts.len(), |i: int| part_indices(parts, i, st.lined)),
            index_parts@.len() == parts.len(),
            forall|k: int|
                0 <= k < parts.len() ==> (#[trigger] index_parts@[k])@ == part_indices(
                    parts,
                    k,
                    st.lined,
                ),
            points@ == drawn.take(i as int).flatten_alt(),
            highlighted@ == marks.take(i as int).flatten_alt(),
            indices@ == idx.take(i as int).flatten_alt(),
        decreases vertices.len() - i,
    {
        let part = &vertices[i];
        proof {
            assert(nested_view(vertices@)[i as int] == part@);
            lemma_flatten_step(drawn, i as int);
            lemma_flatten_step(marks, i as int);
            lemma_flatten_step(idx, i as int);
        }
        let white = st.aspects && has_nose(part);
        let ghost p0 = points@;
        let ghost h0 = highlighted@;
        let mut k: usize = 0;
        while k < part.len()
            invariant
                k <= part.len(),
                points@ == p0 + part@.take(k as int),
                highlighted@ == h0 + Seq::new(k as nat, |j: int| white),
            decreases part.len() - k,
        {
            points.push(part[k]);
            highlighted.push(white);
            assert(part@.take(k + 1) =~= part@.take(k as int).push(part@[k as int]));
            assert(Seq::new((k + 1) as nat, |j: int| white) =~= Seq::new(k as nat, |j: int| white).push(white));
            k = k + 1;
        }
        assert(part@.take(k as int) =~= part@);
        assert(marks[i as int] =~= Seq::new(k as nat, |j: int| white));
        let ids = &index_parts[i];
        let ghost q0 = indices@;
        let mut k: usize = 0;
        while k < ids.len()
            invariant
                k <= ids.len(),
                indices@ == q0 + ids@.take(k as int),
            decreases ids.len() - k,
        {
            indices.push(ids[k]);
            assert(ids@.take(k + 1) =~= ids@.take(k as int).push(ids@[k as int]));
            k = k + 1;
        }
        assert(ids@.take(k as int) =~= ids@);
        i = i + 1;
    }
    assert(drawn.take(i as int) =~= drawn);
    assert(marks.take(i as int) =~= marks);
    assert(idx.take(i as int) =~= idx);
    ShipMesh { points, highlighted, indices, lined: st.lined }
}

/// The hull of every ship, by the two top bits of its style byte, in quarter
/// units: 0 a four-corner cursor, 1 a six-corner spear with notches, 2 a
/// triangle, 3 a four-corner arrow notched at the back. Every hull starts
/// at the nose (0, 5) and is mirror-symmetric about the ship's axis. It is
/// the part after the three shards when the ship has them, else the first.
pub proof fn law_hull_by_base(b: u8)
    ensures
        ({
            let st = style_of_byte(b);
            let h = ship_outlines(st)[if st.shards { 3int } else { 0int }];
            &&& b / 64 == 0 ==> h == seq![(0i32, 20i32), (12i32, -10i32), (0i32, -20i32), (-12i32, -10i32)]
            &&& b / 64 == 1 ==> h == seq![
                (0i32, 20i32),
                (16i32, -20i32),
                (4i32, -12i32),
                (0i32, -20i32),
                (-4i32, -12i32),
                (-16i32, -20i32),
            ]
            &&& b / 64 == 2 ==> h == seq![(0i32, 20i32), (16i32, -20i32), (-16i32, -20i32)]
            &&& b / 64 == 3 ==> h == seq![(0i32, 20i32), (16i32, -20i32), (0i32, -12i32), (-16i32, -20i32)]
            &&& h[0] == (0i32, 20i32)
            &&& forall|k: int| 0 <= k < h.len() ==> h.contains(((-(#[trigger] h[k]).0) as i32, h[k].1))
        }),
{
    let st = style_of_byte(b);
    assert(b / 64 < 4) by (bit_vector);
    let parts = ship_outlines(st);
    let shards = if st.shards { shard_outlines() } else { Seq::<Outline>::empty() };
    let idx: int = if st.shards { 3 } else { 0 };
    assert(shards.len() == idx);
    assert(parts[idx] == hull_outline(st.base));
    let h = hull_outline(st.base);
    assert forall|k: int| 0 <= k < h.len() implies h.contains(((-(#[trigger] h[k]).0) as i32, h[k].1)) by {
        if st.base == 0 {
            if k == 0 { assert(h[0] == ((-h[0].0) as i32, h[0].1)); }
            if k == 1 { assert(h[3] == ((-h[1].0) as i32, h[1].1)); }
            if k == 2 { assert(h[2] == ((-h[2].0) as i32, h[2].1)); }
            if k == 3 { assert(h[1] == ((-h[3].0) as i32, h[3].1)); }
        } else if st.base == 1 {
            if k == 0 { assert(h[0] == ((-h[0].0) as i32, h[0].1)); }
            if k == 1 { assert(h[5] == ((-h[1].0) as i32, h[1].1)); }
            if k == 2 { assert(h[4] == ((-h[2].0) as i32, h[2].1)); }
            if k == 3 { assert(h[3] == ((-h[3].0) as i32, h[3].1)); }
            if k == 4 { assert(h[2] == ((-h[4].0) as i32, h[4].1)); }
            if k == 5 { assert(h[1] == ((-h[5].0) as i32, h[5].1)); }
        } else if st.base == 2 {
            if k == 0 { assert(h[0] == ((-h[0].0) as i32, h[0].1)); }
            if k == 1 { assert(h[2] == ((-h[1].0) as i32, h[1].1)); }
            if k == 2 { assert(h[1] == ((-h[2].0) as i32, h[2].1)); }
        } else {
            if k == 0 { assert(h[0] == ((-h[0].0) as i32, h[0].1)); }
            if k == 1 { assert(h[3] == ((-h[1].0) as i32, h[1].1)); }
            if k == 2 { assert(h[2] == ((-h[2].0) as i32, h[2].1)); }
            if k == 3 { assert(h[1] == ((-h[3].0) as i32, h[3].1)); }
        }
    }
}

} // verus!
