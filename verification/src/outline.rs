use vstd::prelude::*;

verus! {

/// A height at which a cube has vertices. What number a level stands for
/// depends on the cube's magnitudes and is decided by whoever draws it.
#[derive(Clone, Copy, Debug, PartialEq, Eq, Structural)]
pub enum Level {
    /// The top face: the compressed height of the whole stack.
    Top,
    /// The ground plane, height zero.
    Base,
    /// The underside of the flat band that every cube stands on.
    Pedestal,
    /// The running height after the segments `0..=i` of the stack.
    Division(usize),
}

/// A vertex of a cube in the cube's own frame. `x` and `y` count half-widths
/// of the cube, so a corner has both at `1` or `-1` and the axis has both at `0`.
#[derive(Clone, Copy, Debug, PartialEq, Eq, Structural)]
pub struct Vertex {
    pub x: i8,
    pub y: i8,
    pub level: Level,
}

/// The paths that draw one stacked cube, before any coordinates exist.
#[derive(Debug, PartialEq, Eq)]
pub struct Cube {
    /// Open two-point lines: two per segment, then the vertical edge.
    pub inner_paths: Vec<Vec<Vertex>>,
    /// Closed silhouette of the two visible side faces.
    pub outer_path: Vec<Vertex>,
    /// Closed silhouette of the band under the cube.
    pub base_outer_path: Vec<Vertex>,
    /// Where the label goes: on the axis, at the top.
    pub text_anchor: Vertex,
}

/// The vertex at `(x, y)` half-widths and `level`.
pub open spec fn vertex(x: int, y: int, level: Level) -> Vertex {
    Vertex { x: x as i8, y: y as i8, level }
}

/// The footprint corners `(1,-1) (1,1) (-1,1)` at `upper`, then
/// `(-1,1) (-1,-1) (1,-1)` at `lower`.
pub open spec fn spec_silhouette(upper: Level, lower: Level) -> Seq<Vertex> {
    seq![
        vertex(1, -1, upper),
        vertex(1, 1, upper),
        vertex(-1, 1, upper),
        vertex(-1, 1, lower),
        vertex(-1, -1, lower),
        vertex(1, -1, lower),
    ]
}

/// The edge from the near corner `(-1,-1)` to `(1,-1)` at one level.
pub open spec fn spec_front_line(level: Level) -> Seq<Vertex> {
    seq![vertex(-1, -1, level), vertex(1, -1, level)]
}

/// The edge from the near corner `(-1,-1)` to `(-1,1)` at one level.
pub open spec fn spec_side_line(level: Level) -> Seq<Vertex> {
    seq![vertex(-1, -1, level), vertex(-1, 1, level)]
}

/// The near corner's edge from the top down to the ground.
pub open spec fn spec_vertical_edge() -> Seq<Vertex> {
    seq![vertex(-1, -1, Level::Top), vertex(-1, -1, Level::Base)]
}

/// The `i`-th inner path of a cube of `segments` segments: for each segment
/// its front line and its side line, in stacking order, and the vertical
/// edge last.
pub open spec fn spec_inner_path(segments: nat, i: int) -> Seq<Vertex> {
    if i >= 2 * segments {
        spec_vertical_edge()
    } else if i % 2 == 0 {
        spec_front_line(Level::Division((i / 2) as usize))
    } else {
        spec_side_line(Level::Division((i / 2) as usize))
    }
}

impl Cube {
    /// The paths are those of a cube whose stack has `segments` segments.
    pub open spec fn is_outline_of(&self, segments: nat) -> bool {
        &&& self.outer_path@ == spec_silhouette(Level::Top, Level::Base)
        &&& self.base_outer_path@ == spec_silhouette(Level::Base, Level::Pedestal)
        &&& self.inner_paths@.len() == 2 * segments + 1
        &&& forall|i: int|
            0 <= i < self.inner_paths@.len() ==> (#[trigger] self.inner_paths@[i])@
                == spec_inner_path(segments, i)
        &&& self.text_anchor == vertex(0, 0, Level::Top)
    }
}

fn silhouette(upper: Level, lower: Level) -> (path: Vec<Vertex>)
    ensures
        path@ == spec_silhouette(upper, lower),
{
    let mut path: Vec<Vertex> = Vec::new();
    path.push(Vertex { x: 1, y: -1, level: upper });
    path.push(Vertex { x: 1, y: 1, level: upper });
    path.push(Vertex { x: -1, y: 1, level: upper });
    path.push(Vertex { x: -1, y: 1, level: lower });
    path.push(Vertex { x: -1, y: -1, level: lower });
    path.push(Vertex { x: 1, y: -1, level: lower });
    path
}

fn line(from: Vertex, to: Vertex) -> (path: Vec<Vertex>)
    ensures
        path@ == seq![from, to],
{
    let mut path: Vec<Vertex> = Vec::new();
    path.push(from);
    path.push(to);
    path
}

/// Lays out the paths of a cube whose stack has `segments` segments.
///
/// The outer path runs round the two visible side faces from the top to the
/// ground, the base path round the band beneath from the ground to the
/// pedestal. Every segment contributes a front line and a side line at its
/// running height; the vertical edge closes the list. An empty stack keeps
/// only the vertical edge.
pub fn mk_cube(segments: usize) -> (cube: Cube)
    requires
        2 * segments + 1 <= usize::MAX,
    ensures
        cube.is_outline_of(segments as nat),
{
    let outer_path = silhouette(Level::Top, Level::Base);
    let base_outer_path = silhouette(Level::Base, Level::Pedestal);
    let mut inner_paths: Vec<Vec<Vertex>> = Vec::new();
    let mut i: usize = 0;
    while i < segments
        invariant
            i <= segments,
            2 * segments + 1 <= usize::MAX,
            inner_paths@.len() == 2 * i,
            forall|k: int|
                0 <= k < 2 * i ==> (#[trigger] inner_paths@[k])@ == spec_inner_path(
                    segments as nat,
                    k,
                ),
        decreases segments - i,
    {
        let near = Vertex { x: -1, y: -1, level: Level::Division(i) };
        inner_paths.push(line(near, Vertex { x: 1, y: -1, level: Level::Division(i) }));
        inner_paths.push(line(near, Vertex { x: -1, y: 1, level: Level::Division(i) }));
        i = i + 1;
    }
    inner_paths.push(
        line(
            Vertex { x: -1, y: -1, level: Level::Top },
            Vertex { x: -1, y: -1, level: Level::Base },
        ),
    );
    Cube {
        inner_paths,
        outer_path,
        base_outer_path,
        text_anchor: Vertex { x: 0, y: 0, level: Level::Top },
    }
}

} // verus!
