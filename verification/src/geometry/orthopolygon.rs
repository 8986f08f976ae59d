//! Orthogonal polygons on pixel corners, and the ray cast that places a
//! point relative to one.

use vstd::prelude::*;

verus! {

/// Position of a point relative to an orthopolygon.
#[derive(Debug, Clone, Copy, PartialEq, Eq, Structural)]
pub enum PointPosition {
    Outside,
    Vertex,
    Edge,
    Inside,
}

/// The even vertex following `k`, wrapping around at the end.
pub open spec fn next_vertex(s: Seq<(i32, i32)>, k: int) -> (i32, i32) {
    if k + 1 == s.len() {
        s[0]
    } else {
        s[k + 1]
    }
}

/// The position of (x, y) relative to the polygon, examined edge pair by
/// edge pair from index `k` on with `crossings` ray crossings seen so far.
///
/// Each consecutive pair of even vertices stands for a horizontal edge
/// followed by a vertical edge down to the next even vertex.  A point on a
/// corner is `Vertex`, a point on either edge is `Edge`; otherwise the
/// standard even-odd ray cast counts, with half-open intervals, how often
/// an upward ray from the point crosses the polygon.
pub open spec fn point_position_from(s: Seq<(i32, i32)>, x: i32, y: i32, k: int,
    crossings: int) -> PointPosition
    decreases s.len() - k
{
    if k < 0 || k >= s.len() {
        if crossings % 2 == 0 {
            PointPosition::Outside
        } else {
            PointPosition::Inside
        }
    } else {
        let (x0, y0) = s[k];
        let (x1, y1) = next_vertex(s, k);
        let x_between = (x0 <= x && x < x1) || (x1 <= x && x < x0);
        let y_between = (y0 <= y && y < y1) || (y1 <= y && y < y0);
        if (y == y0 && (x == x0 || x == x1)) || (y == y1 && x == x1) {
            PointPosition::Vertex
        } else if (y == y0 && x_between) || (x == x1 && y_between) {
            PointPosition::Edge
        } else {
            point_position_from(s, x, y, k + 1,
                crossings + if y0 < y && x_between { 1int } else { 0int })
        }
    }
}

/// The position of (x, y) relative to the polygon given by its even
/// vertices.
pub open spec fn point_position_spec(s: Seq<(i32, i32)>, x: i32, y: i32) -> PointPosition {
    point_position_from(s, x, y, 0, 0)
}

/// The full vertex list derived from the even vertices: each odd vertex
/// takes its y from the even vertex before it and its x from the even
/// vertex after it.
pub open spec fn interleaved_spec(s: Seq<(i32, i32)>) -> Seq<(i32, i32)> {
    Seq::new(2 * s.len(), |i: int|
        if i % 2 == 0 {
            s[i / 2]
        } else {
            (next_vertex(s, i / 2).0, s[i / 2].1)
        })
}

/// A polygon with integer vertex coordinates and all edges parallel to the
/// coordinate axes.  Each even edge is parallel to the x axis, each odd
/// edge to the y axis, so the even vertices suffice to describe it.
///
/// Two orthopolygons are considered equal only if their vertex lists are
/// identical: same shape, same starting point, same direction.
#[derive(Debug, Clone, PartialEq, Eq, Hash)]
pub struct Orthopolygon {
    even_vertices: Vec<(i32, i32)>,
}

impl Orthopolygon {
    pub closed spec fn spec_even_vertices(&self) -> Seq<(i32, i32)> {
        self.even_vertices@
    }

    /// Creates an orthopolygon from a list of even vertices,
    /// taking ownership of the list.
    pub fn from(even_vertices: Vec<(i32, i32)>) -> (r: Self)
        ensures
            r.spec_even_vertices() == even_vertices@,
    {
        Self { even_vertices }
    }

    /// The even vertices of the orthopolygon.
    pub fn even_vertices(&self) -> (r: &Vec<(i32, i32)>)
        ensures
            r@ == self.spec_even_vertices(),
    {
        &self.even_vertices
    }

    /// All vertices of the orthopolygon: the stored even vertices with the
    /// odd vertices synthesized between them.
    pub fn vertices(&self) -> (r: Vec<(i32, i32)>)
        ensures
            r@ == interleaved_spec(self.spec_even_vertices()),
    {
        let ghost s = self.even_vertices@;
        let n = self.even_vertices.len();
        let mut result: Vec<(i32, i32)> = Vec::new();
        let mut k: usize = 0;
        while k < n
            invariant
                n == s.len(),
                self.even_vertices@ == s,
                0 <= k <= n,
                result@.len() == 2 * k,
                forall|i: int| 0 <= i < 2 * k
                    ==> result@[i] == #[trigger] interleaved_spec(s)[i],
            decreases n - k,
        {
            let even = self.even_vertices[k];
            let after = if k + 1 == n {
                self.even_vertices[0]
            } else {
                self.even_vertices[k + 1]
            };
            result.push(even);
            result.push((after.0, even.1));
            proof {
                assert(interleaved_spec(s)[2 * k] == s[k as int]);
                assert(interleaved_spec(s)[2 * k + 1]
                    == (next_vertex(s, k as int).0, s[k as int].1));
            }
            k = k + 1;
        }
        proof {
            assert(result@ =~= interleaved_spec(s));
        }
        result
    }

    /// Uses the ray casting algorithm to determine whether the point is
    /// inside the orthopolygon, outside, on an edge, or at a vertex.
    pub fn get_point_position(&self, x: i32, y: i32) -> (r: PointPosition)
        ensures
            r == point_position_spec(self.spec_even_vertices(), x, y),
    {
        let ghost s = self.even_vertices@;
        let n = self.even_vertices.len();
        let mut crossings: usize = 0;
        let mut k: usize = 0;
        while k < n
            invariant
                n == s.len(),
                self.even_vertices@ == s,
                0 <= k <= n,
                crossings <= k,
                point_position_spec(s, x, y)
                    == point_position_from(s, x, y, k as int, crossings as int),
            decreases n - k,
        {
            let (x0, y0) = self.even_vertices[k];
            let (x1, y1) = if k + 1 == n {
                self.even_vertices[0]
            } else {
                self.even_vertices[k + 1]
            };
            if (y == y0 && (x == x0 || x == x1)) || (y == y1 && x == x1) {
                return PointPosition::Vertex;
            }
            let x_between = (x0 <= x && x < x1) || (x1 <= x && x < x0);
            let y_between = (y0 <= y && y < y1) || (y1 <= y && y < y0);
            if (y == y0 && x_between) || (x == x1 && y_between) {
                return PointPosition::Edge;
            }
            if y0 < y && x_between {
                crossings = crossings + 1;
            }
            k = k + 1;
        }
        if crossings % 2 == 0 {
            PointPosition::Outside
        } else {
            PointPosition::Inside
        }
    }
}

} // verus!
