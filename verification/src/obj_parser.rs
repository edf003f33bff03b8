//! A parser for the mesh text format that lists vertices (`v x y z`)
//! and triangular faces (`f a b c`, one-based vertex references). The
//! kernel itself never parses text: this module turns the text into
//! triangle shapes gathered under one group, and hands everything else
//! through unchanged.
//!
//! Numbers too large for their target saturate instead of failing, a
//! second decimal point ends a number as malformed, and a face line
//! whose vertex references fall outside the vertex list yields no
//! triangle: malformed input never panics, it just contributes nothing.

use vstd::prelude::*;

verus! {

use crate::fx::{fx_clamp, Scalar, FX_MAX, SCALE};
use crate::point::{point, pv, Point, V4};
use crate::shape::{IntersectableType, Shape};
use crate::world::World;

#[derive(Clone, Copy, Debug, PartialEq, Eq, Structural)]
pub enum ObjNodeType {
    Decimal,
    Integer,
    MinusSign,
    ShapeStart,
    Slash,
    Space,
    VertexStart,
}

/// One classified character of a mesh line.
#[derive(Clone, Copy, Debug, PartialEq, Eq, Structural)]
pub struct ObjNode {
    pub value: char,
    pub node_type: ObjNodeType,
}

/// A parser over one line's classified characters.
pub struct ObjLineParser {
    pub line: Vec<ObjNode>,
}

/// The result of parsing a whole mesh text: the world holding the
/// group and its triangles, the group's index, and the vertex list.
pub struct ObjParser {
    pub world: World,
    pub group: usize,
    pub vertices: Vec<Point>,
}

/// The numeric value of a digit character, zero for anything else.
pub open spec fn digit_val(c: char) -> int {
    if c == '0' {
        0
    } else if c == '1' {
        1
    } else if c == '2' {
        2
    } else if c == '3' {
        3
    } else if c == '4' {
        4
    } else if c == '5' {
        5
    } else if c == '6' {
        6
    } else if c == '7' {
        7
    } else if c == '8' {
        8
    } else if c == '9' {
        9
    } else {
        0
    }
}

/// The tokens left after the leading run of spaces.
pub open spec fn spec_drop_spaces(s: Seq<ObjNode>) -> Seq<ObjNode>
    decreases s.len(),
{
    if s.len() > 0 && s[0].node_type == ObjNodeType::Space {
        spec_drop_spaces(s.drop_first())
    } else {
        s
    }
}

/// One token taken from the front when it has the wanted kind.
pub open spec fn spec_consume(s: Seq<ObjNode>, t: ObjNodeType) -> (Seq<ObjNode>, Option<ObjNode>) {
    if s.len() > 0 && s[0].node_type == t {
        (s.drop_first(), Some(s[0]))
    } else {
        (s, None)
    }
}

/// An accumulated decimal value, saturating at the largest `i32`.
pub open spec fn sat_i32(v: int) -> int {
    if v > i32::MAX {
        i32::MAX as int
    } else {
        v
    }
}

/// An accumulated count of millionth-scale units, saturating.
pub open spec fn sat_units(v: int) -> int {
    if v > FX_MAX {
        FX_MAX as int
    } else {
        v
    }
}

/// The scan of an integer reference: digit and slash tokens are
/// consumed; digits before the first slash accumulate (saturating),
/// digits after it are discarded. The result is the remaining tokens,
/// the value, and whether any digit counted.
pub open spec fn spec_int_scan(s: Seq<ObjNode>, acc: int, has: bool, disc: bool) -> (
    Seq<ObjNode>,
    int,
    bool,
)
    decreases s.len(),
{
    if s.len() == 0 {
        (s, acc, has)
    } else if s[0].node_type == ObjNodeType::Integer {
        spec_int_scan(
            s.drop_first(),
            if disc {
                acc
            } else {
                sat_i32(acc * 10 + digit_val(s[0].value))
            },
            if disc {
                has
            } else {
                true
            },
            disc,
        )
    } else if s[0].node_type == ObjNodeType::Slash {
        spec_int_scan(s.drop_first(), acc, has, true)
    } else {
        (s, acc, has)
    }
}

/// The accumulated reference value stays a non-negative `i32`.
proof fn lemma_int_scan_bounds(s: Seq<ObjNode>, acc: int, has: bool, disc: bool)
    requires
        0 <= acc <= i32::MAX,
    ensures
        0 <= spec_int_scan(s, acc, has, disc).1 <= i32::MAX,
    decreases s.len(),
{
    if s.len() == 0 {
    } else if s[0].node_type == ObjNodeType::Integer {
        lemma_int_scan_bounds(
            s.drop_first(),
            if disc {
                acc
            } else {
                sat_i32(acc * 10 + digit_val(s[0].value))
            },
            if disc {
                has
            } else {
                true
            },
            disc,
        );
    } else if s[0].node_type == ObjNodeType::Slash {
        lemma_int_scan_bounds(s.drop_first(), acc, has, true);
    }
}

/// The scan of a number's whole part: leading digits accumulate,
/// saturating at the representable magnitude.
pub open spec fn spec_whole_scan(s: Seq<ObjNode>, acc: int, has: bool) -> (Seq<ObjNode>, int, bool)
    decreases s.len(),
{
    if s.len() > 0 && s[0].node_type == ObjNodeType::Integer {
        spec_whole_scan(s.drop_first(), sat_units(acc * 10 + digit_val(s[0].value)), true)
    } else {
        (s, acc, has)
    }
}

/// The scan of a number's fractional part: each digit adds under a
/// tenfold-shrinking weight that starts at one tenth of a unit, so
/// digits past the sixth are consumed but weightless.
pub open spec fn spec_frac_scan(s: Seq<ObjNode>, acc: int, w: int, has: bool) -> (
    Seq<ObjNode>,
    int,
    bool,
)
    decreases s.len(),
{
    if s.len() > 0 && s[0].node_type == ObjNodeType::Integer {
        spec_frac_scan(s.drop_first(), acc + digit_val(s[0].value) * w, w / 10, true)
    } else {
        (s, acc, has)
    }
}

/// The tokens left after a number: an optional minus sign, the whole
/// digits, and, after a decimal point, the fractional digits.
pub open spec fn spec_float_rest(s: Seq<ObjNode>) -> Seq<ObjNode> {
    let s1 = if s.len() > 0 && s[0].node_type == ObjNodeType::MinusSign {
        s.drop_first()
    } else {
        s
    };
    let w = spec_whole_scan(s1, 0, false);
    if w.0.len() > 0 && w.0[0].node_type == ObjNodeType::Decimal {
        spec_frac_scan(w.0.drop_first(), 0, 100_000, false).0
    } else {
        w.0
    }
}

/// The value of a number in millionths: the signed, saturated
/// combination of its whole and fractional digits; nothing when no
/// digit occurred at all.
pub open spec fn spec_float_value(s: Seq<ObjNode>) -> Option<int> {
    let neg = s.len() > 0 && s[0].node_type == ObjNodeType::MinusSign;
    let s1 = if neg {
        s.drop_first()
    } else {
        s
    };
    let w = spec_whole_scan(s1, 0, false);
    let f = if w.0.len() > 0 && w.0[0].node_type == ObjNodeType::Decimal {
        spec_frac_scan(w.0.drop_first(), 0, 100_000, false)
    } else {
        (w.0, 0int, false)
    };
    if w.2 || f.2 {
        Some(fx_clamp((if neg { -1int } else { 1int }) * (w.1 * SCALE + f.1)))
    } else {
        None
    }
}

/// The coordinates named by a vertex line: the vertex mark, then three
/// whitespace-separated numbers.
pub open spec fn spec_parse_point(s: Seq<ObjNode>) -> Option<(int, int, int)> {
    let c = spec_consume(s, ObjNodeType::VertexStart);
    if c.1 is None {
        None
    } else {
        let s2 = spec_drop_spaces(c.0);
        match spec_float_value(s2) {
            None => None,
            Some(x) => {
                let s3 = spec_drop_spaces(spec_float_rest(s2));
                match spec_float_value(s3) {
                    None => None,
                    Some(y) => {
                        let s4 = spec_drop_spaces(spec_float_rest(s3));
                        match spec_float_value(s4) {
                            None => None,
                            Some(z) => Some((x, y, z)),
                        }
                    },
                }
            },
        }
    }
}

/// The state after an integer reference: the remaining tokens and the
/// value, if any digit counted.
pub open spec fn spec_int_value(s: Seq<ObjNode>) -> (Seq<ObjNode>, Option<int>) {
    let st = spec_int_scan(s, 0, false, false);
    (st.0, if st.2 { Some(st.1) } else { None })
}

/// The three vertices named by a face line: the face mark, then three
/// whitespace-separated one-based references into the vertex list;
/// nothing when a reference is missing or out of range.
pub open spec fn spec_parse_shape(s: Seq<ObjNode>, vertices: Seq<Point>) -> Option<(
    Point,
    Point,
    Point,
)> {
    let c = spec_consume(s, ObjNodeType::ShapeStart);
    if c.1 is None {
        None
    } else {
        let (sa, a) = spec_int_value(spec_drop_spaces(c.0));
        match a {
            None => None,
            Some(ai) => {
                let (sb, b) = spec_int_value(spec_drop_spaces(sa));
                match b {
                    None => None,
                    Some(bi) => {
                        let (sc, cc) = spec_int_value(spec_drop_spaces(sb));
                        match cc {
                            None => None,
                            Some(ci) => {
                                if 1 <= ai <= vertices.len() && 1 <= bi <= vertices.len() && 1 <= ci
                                    <= vertices.len() {
                                    Some((vertices[ai - 1], vertices[bi - 1], vertices[ci - 1]))
                                } else {
                                    None
                                }
                            },
                        }
                    },
                }
            },
        }
    }
}

impl ObjLineParser {
    /// Whether the next token has the given kind.
    pub fn peek(&self, node_type: ObjNodeType) -> (r: bool)
        ensures
            r == (self.line@.len() > 0 && self.line@[0].node_type == node_type),
    {
        if self.line.len() == 0 {
            false
        } else {
            self.line[0].node_type == node_type
        }
    }

    /// Take the next token when it has the given kind.
    pub fn consume(&mut self, node_type: ObjNodeType) -> (r: Option<ObjNode>)
        ensures
            (final(self).line@, r) == spec_consume(old(self).line@, node_type),
    {
        if self.line.len() == 0 {
            return None;
        }
        if self.line[0].node_type == node_type {
            let head = self.line.remove(0);
            proof {
                assert(self.line@ =~= old(self).line@.drop_first());
            }
            Some(head)
        } else {
            None
        }
    }

    /// Drop the leading run of spaces.
    pub fn consume_whitespace(&mut self)
        ensures
            final(self).line@ == spec_drop_spaces(old(self).line@),
    {
        while self.peek(ObjNodeType::Space)
            invariant
                spec_drop_spaces(self.line@) == spec_drop_spaces(old(self).line@),
            decreases self.line@.len(),
        {
            self.consume(ObjNodeType::Space);
        }
    }

    /// Read an integer reference: digits, saturating at the largest
    /// representable value, with any slash-separated trailing references
    /// consumed and discarded.
    pub fn consume_integer(&mut self) -> (r: Option<i32>)
        ensures
            ({
                let st = spec_int_scan(old(self).line@, 0, false, false);
                &&& final(self).line@ == st.0
                &&& 0 <= st.1 <= i32::MAX
                &&& r == (if st.2 {
                    Some(st.1 as i32)
                } else {
                    None::<i32>
                })
            }),
    {
        proof {
            lemma_int_scan_bounds(self.line@, 0, false, false);
        }
        let mut acc: i32 = 0;
        let mut has = false;
        let mut disc = false;
        while self.peek(ObjNodeType::Integer) || self.peek(ObjNodeType::Slash)
            invariant
                0 <= acc <= i32::MAX,
                spec_int_scan(old(self).line@, 0, false, false) == spec_int_scan(
                    self.line@,
                    acc as int,
                    has,
                    disc,
                ),
            decreases self.line@.len(),
        {
            if self.peek(ObjNodeType::Integer) {
                let n = self.consume(ObjNodeType::Integer).unwrap();
                if !disc {
                    let d = digit_of(n.value);
                    let wide = acc as i64 * 10 + d as i64;
                    acc = if wide > i32::MAX as i64 {
                        i32::MAX
                    } else {
                        wide as i32
                    };
                    has = true;
                }
            } else {
                self.consume(ObjNodeType::Slash);
                disc = true;
            }
        }
        if has {
            Some(acc)
        } else {
            None
        }
    }

    /// Read a number into millionths: an optional minus sign, whole
    /// digits, and fractional digits after one decimal point, of which
    /// the first six carry weight. Nothing is returned when no digit
    /// occurred.
    pub fn consume_float(&mut self) -> (r: Option<Scalar>)
        ensures
            final(self).line@ == spec_float_rest(old(self).line@),
            r matches Some(x) ==> spec_float_value(old(self).line@) == Some(x@),
            r is None ==> spec_float_value(old(self).line@) is None,
    {
        let negative = self.peek(ObjNodeType::MinusSign);
        if negative {
            self.consume(ObjNodeType::MinusSign);
        }
        let ghost s1 = self.line@;
        let mut whole: u64 = 0;
        let mut has_w = false;
        while self.peek(ObjNodeType::Integer)
            invariant
                whole <= FX_MAX as u64,
                spec_whole_scan(s1, 0, false) == spec_whole_scan(self.line@, whole as int, has_w),
            decreases self.line@.len(),
        {
            let n = self.consume(ObjNodeType::Integer).unwrap();
            let d = digit_of(n.value);
            let wide = whole as u128 * 10 + d as u128;
            whole = if wide > FX_MAX as u128 {
                FX_MAX as u64
            } else {
                wide as u64
            };
            has_w = true;
        }
        let mut frac: u64 = 0;
        let mut has_f = false;
        if self.peek(ObjNodeType::Decimal) {
            self.consume(ObjNodeType::Decimal);
            let ghost s2 = self.line@;
            let mut w: u64 = 100_000;
            while self.peek(ObjNodeType::Integer)
                invariant
                    w <= 100_000,
                    frac < SCALE as u64,
                    frac + 10 * w <= SCALE as u64,
                    spec_frac_scan(s2, 0, 100_000, false) == spec_frac_scan(
                        self.line@,
                        frac as int,
                        w as int,
                        has_f,
                    ),
                decreases self.line@.len(),
            {
                let n = self.consume(ObjNodeType::Integer).unwrap();
                let d = digit_of(n.value);
                frac = frac + d as u64 * w;
                w = w / 10;
                has_f = true;
            }
        }
        proof {
            // the sign phase consumed exactly what the value spec skips
            let s0 = old(self).line@;
            let negs = s0.len() > 0 && s0[0].node_type == ObjNodeType::MinusSign;
            assert(negative == negs);
            let s1s = if negs {
                s0.drop_first()
            } else {
                s0
            };
            assert(s1 == s1s);
        }
        if !(has_w || has_f) {
            return None;
        }
        let magnitude: i128 = whole as i128 * SCALE as i128 + frac as i128;
        let signed: i128 = if negative {
            -magnitude
        } else {
            magnitude
        };
        proof {
            // tie the finished phase scans back to the whole token list
            let s0 = old(self).line@;
            let w = spec_whole_scan(s1, 0, false);
            assert(w.1 == whole as int);
            assert(w.2 == has_w);
            let f = if w.0.len() > 0 && w.0[0].node_type == ObjNodeType::Decimal {
                spec_frac_scan(w.0.drop_first(), 0, 100_000, false)
            } else {
                (w.0, 0int, false)
            };
            assert(f.1 == frac as int);
            assert(f.2 == has_f);
            assert(spec_float_value(s0) == Some(fx_clamp(signed as int)));
        }
        Some(Scalar { v: crate::fx::clamp_wide(signed) })
    }

    /// Read a vertex line into a point.
    pub fn parse_point(&mut self) -> (r: Option<Point>)
        ensures
            r matches Some(p) ==> ({
                let c = spec_parse_point(old(self).line@);
                c matches Some(v) && pv(p) == (V4 { x: v.0, y: v.1, z: v.2, w: SCALE as int })
            }),
            r is None ==> spec_parse_point(old(self).line@) is None,
    {
        if self.consume(ObjNodeType::VertexStart).is_none() {
            return None;
        }
        self.consume_whitespace();
        let x = match self.consume_float() {
            Some(v) => v,
            None => {
                return None;
            },
        };
        self.consume_whitespace();
        let y = match self.consume_float() {
            Some(v) => v,
            None => {
                return None;
            },
        };
        self.consume_whitespace();
        let z = match self.consume_float() {
            Some(v) => v,
            None => {
                return None;
            },
        };
        Some(point(x, y, z))
    }

    /// Read a face line into a triangle over the vertex list.
    pub fn parse_shape(&mut self, vertices: &[Point]) -> (r: Option<Shape>)
        ensures
            r matches Some(s) ==> ({
                let c = spec_parse_shape(old(self).line@, vertices@);
                &&& c matches Some(v)
                &&& s.wf()
                &&& s.parent.is_none()
                &&& s.intersectable.children@.len() == 0
                &&& s.intersectable.intersectable_type == IntersectableType::Triangle
                &&& (c matches Some(v) ==> s.intersectable.p1 == v.0 && s.intersectable.p2 == v.1
                    && s.intersectable.p3 == v.2)
            }),
            r is None ==> spec_parse_shape(old(self).line@, vertices@) is None,
    {
        if self.consume(ObjNodeType::ShapeStart).is_none() {
            return None;
        }
        self.consume_whitespace();
        let ai = match self.consume_integer() {
            Some(v) => v,
            None => {
                return None;
            },
        };
        self.consume_whitespace();
        let bi = match self.consume_integer() {
            Some(v) => v,
            None => {
                return None;
            },
        };
        self.consume_whitespace();
        let ci = match self.consume_integer() {
            Some(v) => v,
            None => {
                return None;
            },
        };
        if !(1 <= ai && ai as usize <= vertices.len() && 1 <= bi && bi as usize <= vertices.len()
            && 1 <= ci && ci as usize <= vertices.len()) {
            return None;
        }
        let a = vertices[ai as usize - 1];
        let b = vertices[bi as usize - 1];
        let c = vertices[ci as usize - 1];
        Some(Shape::triangle(a, b, c))
    }

    /// Parse one line: a vertex line yields its point, a face line its
    /// triangle over the vertex list, and anything else nothing.
    pub fn run(&mut self, vertices: &[Point]) -> (r: (Vec<Point>, Vec<Shape>))
        ensures
            r.0@.len() <= 1 && r.1@.len() <= 1,
            forall|j: int|
                0 <= j < r.1@.len() ==> (#[trigger] r.1@[j]).wf() && r.1@[j].parent.is_none()
                    && r.1@[j].intersectable.children@.len() == 0
                    && r.1@[j].intersectable.intersectable_type == IntersectableType::Triangle,
            ({
                let s0 = old(self).line@;
                if s0.len() > 0 && s0[0].node_type == ObjNodeType::VertexStart {
                    &&& r.1@.len() == 0
                    &&& (match spec_parse_point(s0) {
                        Some(v) => r.0@.len() == 1 && pv(r.0@[0]) == (V4 {
                            x: v.0,
                            y: v.1,
                            z: v.2,
                            w: SCALE as int,
                        }),
                        None => r.0@.len() == 0,
                    })
                } else if s0.len() > 0 && s0[0].node_type == ObjNodeType::ShapeStart {
                    &&& r.0@.len() == 0
                    &&& (match spec_parse_shape(s0, vertices@) {
                        Some(v) => r.1@.len() == 1 && r.1@[0].intersectable.p1 == v.0
                            && r.1@[0].intersectable.p2 == v.1 && r.1@[0].intersectable.p3 == v.2,
                        None => r.1@.len() == 0,
                    })
                } else {
                    r.0@.len() == 0 && r.1@.len() == 0
                }
            }),
    {
        let mut points: Vec<Point> = Vec::new();
        let mut shapes: Vec<Shape> = Vec::new();
        if self.peek(ObjNodeType::VertexStart) {
            if let Some(vertex) = self.parse_point() {
                points.push(vertex);
            }
        } else if self.peek(ObjNodeType::ShapeStart) {
            if let Some(shape) = self.parse_shape(vertices) {
                shapes.push(shape);
            }
        }
        (points, shapes)
    }
}

/// The numeric value of an ASCII digit.
fn digit_of(c: char) -> (r: u8)
    ensures
        r as int == digit_val(c),
        r <= 9,
{
    if c == '0' {
        0
    } else if c == '1' {
        1
    } else if c == '2' {
        2
    } else if c == '3' {
        3
    } else if c == '4' {
        4
    } else if c == '5' {
        5
    } else if c == '6' {
        6
    } else if c == '7' {
        7
    } else if c == '8' {
        8
    } else if c == '9' {
        9
    } else {
        0
    }
}

/// Classify one byte of mesh text; unrecognized bytes carry no token.
fn classify(b: u8) -> (r: Option<ObjNodeType>)
    ensures
        true,
{
    if b == 118 {
        Some(ObjNodeType::VertexStart)
    } else if b == 102 {
        Some(ObjNodeType::ShapeStart)
    } else if b == 32 {
        Some(ObjNodeType::Space)
    } else if 48 <= b && b <= 57 {
        Some(ObjNodeType::Integer)
    } else if b == 46 {
        Some(ObjNodeType::Decimal)
    } else if b == 45 {
        Some(ObjNodeType::MinusSign)
    } else if b == 47 {
        Some(ObjNodeType::Slash)
    } else {
        None
    }
}

impl ObjParser {
    /// Parse a whole mesh text: the classified lines are read in order,
    /// vertex lines growing the vertex list and face lines adding
    /// triangles under one group, which stands as the world's single
    /// top-level object.
    pub fn parse(text: &str) -> (r: ObjParser)
        ensures
            r.world.wf(),
            r.group == 0,
            r.world.shapes@.len() >= 1,
            r.world.shapes@[0].intersectable.intersectable_type == IntersectableType::Group,
            r.world.shapes@[0].parent.is_none(),
            r.world.objects@ =~= seq![0usize],
            forall|j: int|
                1 <= j < r.world.shapes@.len() ==> (#[trigger] r.world.shapes@[j])
                    .intersectable.intersectable_type == IntersectableType::Triangle
                    && r.world.shapes@[j].parent == Some(0usize),
    {
        let mut world = World::empty();
        let group = world.add_shape(Shape::group());
        let mut vertices: Vec<Point> = Vec::new();
        let bytes = text.as_bytes();
        let mut lines: Vec<Vec<ObjNode>> = Vec::new();
        let mut current: Vec<ObjNode> = Vec::new();
        let mut k: usize = 0;
        while k < bytes.len()
            decreases bytes.len() - k,
        {
            let b = bytes[k];
            if b == 10 {
                lines.push(current);
                current = Vec::new();
            } else {
                match classify(b) {
                    Some(node_type) => {
                        current.push(ObjNode { value: b as char, node_type });
                    },
                    None => {},
                }
            }
            k = k + 1;
        }
        lines.push(current);

        while lines.len() > 0
            invariant
                world.wf(),
                group == 0,
                world.shapes@.len() >= 1,
                world.shapes@[0].intersectable.intersectable_type == IntersectableType::Group,
                world.shapes@[0].parent.is_none(),
                world.objects@ =~= seq![0usize],
                forall|j: int|
                    1 <= j < world.shapes@.len() ==> (#[trigger] world.shapes@[j])
                        .intersectable.intersectable_type == IntersectableType::Triangle
                        && world.shapes@[j].parent == Some(0usize),
            decreases lines.len(),
        {
            let line = lines.remove(0);
            let mut line_parser = ObjLineParser { line };
            let (points, mut shapes) = line_parser.run(vertices.as_slice());
            let mut pi: usize = 0;
            while pi < points.len()
                decreases points.len() - pi,
            {
                vertices.push(points[pi]);
                pi = pi + 1;
            }
            while shapes.len() > 0
                invariant
                    world.wf(),
                    group == 0,
                    world.shapes@.len() >= 1,
                    world.shapes@[0].intersectable.intersectable_type == IntersectableType::Group,
                    world.shapes@[0].parent.is_none(),
                    world.objects@ =~= seq![0usize],
                    forall|j: int|
                        1 <= j < world.shapes@.len() ==> (#[trigger] world.shapes@[j])
                            .intersectable.intersectable_type == IntersectableType::Triangle
                            && world.shapes@[j].parent == Some(0usize),
                    forall|j: int|
                        0 <= j < shapes@.len() ==> (#[trigger] shapes@[j]).wf()
                            && shapes@[j].parent.is_none()
                            && shapes@[j].intersectable.children@.len() == 0
                            && shapes@[j].intersectable.intersectable_type
                            == IntersectableType::Triangle,
                decreases shapes.len(),
            {
                let shape = shapes.remove(0);
                world.add_group(group, shape);
            }
        }
        ObjParser { world, group, vertices }
    }
}

} // verus!
