use vstd::prelude::*;
use crate::geometry::Point;

verus! {

/// A list of lines, each given by its start and end position.
#[derive(Clone, Debug)]
pub struct LineList {
    pub lines: Vec<(Point, Point)>,
}

/// Lines of length `length` from the origin along x, y and z.
pub open spec fn axis_lines(length: i64) -> Seq<(Point, Point)> {
    seq![
        (Point { x: 0, y: 0, z: 0 }, Point { x: length, y: 0, z: 0 }),
        (Point { x: 0, y: 0, z: 0 }, Point { x: 0, y: length, z: 0 }),
        (Point { x: 0, y: 0, z: 0 }, Point { x: 0, y: 0, z: length }),
    ]
}

/// The vertices of a line list: each line's start then its end, in order.
pub open spec fn line_vertices(lines: Seq<(Point, Point)>) -> Seq<Point>
    decreases lines.len(),
{
    if lines.len() == 0 {
        seq![]
    } else {
        line_vertices(lines.drop_last()).push(lines.last().0).push(lines.last().1)
    }
}

/// Each line contributes two vertices, at positions `2 i` and `2 i + 1`.
pub proof fn lemma_line_vertices_layout(lines: Seq<(Point, Point)>)
    ensures
        line_vertices(lines).len() == 2 * lines.len(),
        forall|i: int|
            0 <= i < lines.len() ==> line_vertices(lines)[2 * i] == (#[trigger] lines[i]).0
                && line_vertices(lines)[2 * i + 1] == lines[i].1,
    decreases lines.len(),
{
    if lines.len() > 0 {
        let rest = lines.drop_last();
        lemma_line_vertices_layout(rest);
        assert forall|i: int| 0 <= i < lines.len() implies line_vertices(lines)[2 * i] == (
        #[trigger] lines[i]).0 && line_vertices(lines)[2 * i + 1] == lines[i].1 by {
            if i < rest.len() {
                assert(rest[i] == lines[i]);
            }
        }
    }
}

impl LineList {
    /// Three lines of the given length from the origin along the positive
    /// x, y and z axes, in that order.
    pub fn axes(length: i64) -> (r: LineList)
        ensures
            r.lines@ == axis_lines(length),
    {
        let origin = Point { x: 0, y: 0, z: 0 };
        let lines = vec![
            (origin, Point { x: length, y: 0, z: 0 }),
            (origin, Point { x: 0, y: length, z: 0 }),
            (origin, Point { x: 0, y: 0, z: length }),
        ];
        LineList { lines }
    }

    /// The vertex list that draws these lines as a line-list primitive: every
    /// pair of consecutive vertices is one line.
    pub fn vertices(&self) -> (r: Vec<Point>)
        ensures
            r@ == line_vertices(self.lines@),
            r@.len() == 2 * self.lines@.len(),
    {
        let mut r: Vec<Point> = Vec::new();
        let mut i: usize = 0;
        while i < self.lines.len()
            invariant
                i <= self.lines@.len(),
                r@ == line_vertices(self.lines@.take(i as int)),
            decreases self.lines@.len() - i,
        {
            let (a, b) = self.lines[i];
            proof {
                let taken = self.lines@.take(i as int + 1);
                assert(taken.drop_last() =~= self.lines@.take(i as int));
            }
            r.push(a);
            r.push(b);
            i = i + 1;
        }
        proof {
            assert(self.lines@.take(self.lines@.len() as int) =~= self.lines@);
            lemma_line_vertices_layout(self.lines@);
        }
        r
    }
}

} // verus!
