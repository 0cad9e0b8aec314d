use vstd::prelude::*;

verus! {

use crate::point::{origin, point_ok, Point};
use crate::segment::{segment_ok, Segment};
use crate::subdivision::{default_params, flatten_segment, SubdivisionParams};

/// One drawing command of a path.
#[derive(Clone, Copy, Debug, PartialEq, Eq, Structural)]
pub enum PathCommand {
    MoveTo(Point),
    LineTo(Point),
    QuadTo(Point, Point),
    CubicTo(Point, Point, Point),
    Close,
}

pub open spec fn command_ok(cmd: PathCommand) -> bool {
    match cmd {
        PathCommand::MoveTo(p) => point_ok(p),
        PathCommand::LineTo(p) => point_ok(p),
        PathCommand::QuadTo(c, p) => point_ok(c) && point_ok(p),
        PathCommand::CubicTo(c1, c2, p) => point_ok(c1) && point_ok(c2) && point_ok(p),
        PathCommand::Close => true,
    }
}

pub open spec fn path_ok(cmds: Seq<PathCommand>) -> bool {
    forall|i: int| 0 <= i < cmds.len() ==> command_ok(#[trigger] cmds[i])
}

/// The segment that one command draws from current point `cur`, if any.
/// MoveTo only relocates the current point. Close is kept as a marker and
/// draws nothing: no closing line back to the last MoveTo point is
/// synthesized, and the current point is left unchanged.
pub open spec fn command_segment(cmd: PathCommand, cur: Point) -> Option<Segment> {
    match cmd {
        PathCommand::MoveTo(_) => Option::None,
        PathCommand::LineTo(p) => Option::Some(Segment::Line(cur, p)),
        PathCommand::QuadTo(c, p) => Option::Some(Segment::Quad(cur, c, p)),
        PathCommand::CubicTo(c1, c2, p) => Option::Some(Segment::Cubic(cur, c1, c2, p)),
        PathCommand::Close => Option::None,
    }
}

/// The current point after one command runs from current point `cur`.
pub open spec fn command_end(cmd: PathCommand, cur: Point) -> Point {
    match cmd {
        PathCommand::MoveTo(p) => p,
        PathCommand::LineTo(p) => p,
        PathCommand::QuadTo(_, p) => p,
        PathCommand::CubicTo(_, _, p) => p,
        PathCommand::Close => cur,
    }
}

pub open spec fn opt_segment_seq(o: Option<Segment>) -> Seq<Segment> {
    match o {
        Option::None => Seq::empty(),
        Option::Some(s) => seq![s],
    }
}

/// The segments drawn by a command sequence started at current point `cur`,
/// in drawing order.
pub open spec fn segments_from(cmds: Seq<PathCommand>, cur: Point) -> Seq<Segment>
    decreases cmds.len(),
{
    if cmds.len() == 0 {
        Seq::empty()
    } else {
        opt_segment_seq(command_segment(cmds[0], cur)) + segments_from(
            cmds.drop_first(),
            command_end(cmds[0], cur),
        )
    }
}

/// The current point after a command sequence runs from current point `cur`.
pub open spec fn end_point_from(cmds: Seq<PathCommand>, cur: Point) -> Point
    decreases cmds.len(),
{
    if cmds.len() == 0 {
        cur
    } else {
        end_point_from(cmds.drop_first(), command_end(cmds[0], cur))
    }
}

/// The segments of a whole path; the implicit starting point is the origin.
pub open spec fn path_segments(cmds: Seq<PathCommand>) -> Seq<Segment> {
    segments_from(cmds, origin())
}

/// The concatenated polylines of a run of segments, in segment order.
pub open spec fn segments_flat_points(segs: Seq<Segment>, params: SubdivisionParams) -> Seq<Point>
    decreases segs.len(),
{
    if segs.len() == 0 {
        Seq::empty()
    } else {
        flatten_segment(segs[0], params) + segments_flat_points(segs.drop_first(), params)
    }
}

/// The flattened polyline of a whole path under the default parameters.
pub open spec fn path_flat_points(cmds: Seq<PathCommand>) -> Seq<Point> {
    segments_flat_points(path_segments(cmds), default_params())
}

/// Every segment a well-bounded command sequence draws is itself within
/// bounds: a segment carries only command points and the running current
/// point.
pub proof fn lemma_segments_ok(cmds: Seq<PathCommand>, cur: Point)
    requires
        path_ok(cmds),
        point_ok(cur),
    ensures
        forall|i: int|
            0 <= i < segments_from(cmds, cur).len() ==> segment_ok(
                #[trigger] segments_from(cmds, cur)[i],
            ),
    decreases cmds.len(),
{
    if cmds.len() > 0 {
        let head = cmds[0];
        let tail = cmds.drop_first();
        assert(command_ok(head));
        assert(path_ok(tail)) by {
            assert forall|i: int| 0 <= i < tail.len() implies command_ok(#[trigger] tail[i]) by {
                assert(tail[i] == cmds[i + 1]);
            }
        }
        lemma_segments_ok(tail, command_end(head, cur));
        let s = segments_from(cmds, cur);
        let e = opt_segment_seq(command_segment(head, cur));
        let rest = segments_from(tail, command_end(head, cur));
        assert forall|i: int| 0 <= i < s.len() implies segment_ok(#[trigger] s[i]) by {
            if i < e.len() {
                assert(s[i] == e[0]);
            } else {
                assert(s[i] == rest[i - e.len()]);
            }
        }
    }
}

/// Order preservation: appending one command to a command sequence appends
/// exactly the one segment that command draws — anchored at the sequence's
/// current point — and advances the current point as that command dictates.
pub proof fn lemma_append_command(cmds: Seq<PathCommand>, cur: Point, cmd: PathCommand)
    ensures
        segments_from(cmds.push(cmd), cur) == segments_from(cmds, cur) + opt_segment_seq(
            command_segment(cmd, end_point_from(cmds, cur)),
        ),
        end_point_from(cmds.push(cmd), cur) == command_end(cmd, end_point_from(cmds, cur)),
    decreases cmds.len(),
{
    let p = cmds.push(cmd);
    if cmds.len() == 0 {
        assert(p[0] == cmd);
        assert(p.drop_first() =~= Seq::<PathCommand>::empty());
        assert(segments_from(Seq::<PathCommand>::empty(), command_end(cmd, cur))
            =~= Seq::<Segment>::empty());
        assert(end_point_from(Seq::<PathCommand>::empty(), command_end(cmd, cur)) == command_end(
            cmd,
            cur,
        ));
        assert(end_point_from(cmds, cur) == cur);
        assert(segments_from(p, cur) =~= segments_from(cmds, cur) + opt_segment_seq(
            command_segment(cmd, end_point_from(cmds, cur)),
        ));
    } else {
        let step = command_end(cmds[0], cur);
        assert(p[0] == cmds[0]);
        assert(p.drop_first() =~= cmds.drop_first().push(cmd));
        lemma_append_command(cmds.drop_first(), step, cmd);
        assert(segments_from(p, cur) == opt_segment_seq(command_segment(cmds[0], cur))
            + segments_from(cmds.drop_first().push(cmd), step));
        assert(end_point_from(p, cur) == end_point_from(cmds.drop_first().push(cmd), step));
        assert(end_point_from(cmds, cur) == end_point_from(cmds.drop_first(), step));
        assert(segments_from(p, cur) =~= segments_from(cmds, cur) + opt_segment_seq(
            command_segment(cmd, end_point_from(cmds, cur)),
        ));
    }
}

/// An ordered, append-only store of drawing commands.
pub struct Path {
    commands: Vec<PathCommand>,
}

impl View for Path {
    type V = Seq<PathCommand>;

    closed spec fn view(&self) -> Seq<PathCommand> {
        self.commands@
    }
}

impl Path {
    pub fn new() -> (path: Path)
        ensures
            path@ == Seq::<PathCommand>::empty(),
    {
        Path { commands: Vec::new() }
    }

    pub fn move_to(&mut self, point: Point)
        ensures
            final(self)@ == old(self)@.push(PathCommand::MoveTo(point)),
    {
        self.commands.push(PathCommand::MoveTo(point));
    }

    pub fn line_to(&mut self, point: Point)
        ensures
            final(self)@ == old(self)@.push(PathCommand::LineTo(point)),
    {
        self.commands.push(PathCommand::LineTo(point));
    }

    pub fn quad_to(&mut self, control: Point, point: Point)
        ensures
            final(self)@ == old(self)@.push(PathCommand::QuadTo(control, point)),
    {
        self.commands.push(PathCommand::QuadTo(control, point));
    }

    pub fn cubic_to(&mut self, control1: Point, control2: Point, point: Point)
        ensures
            final(self)@ == old(self)@.push(PathCommand::CubicTo(control1, control2, point)),
    {
        self.commands.push(PathCommand::CubicTo(control1, control2, point));
    }

    pub fn close(&mut self)
        ensures
            final(self)@ == old(self)@.push(PathCommand::Close),
    {
        self.commands.push(PathCommand::Close);
    }

    pub fn commands(&self) -> (commands: &[PathCommand])
        ensures
            commands@ == self@,
    {
        self.commands.as_slice()
    }

    /// One pass over the commands, threading the current point, one segment
    /// per drawing command, in command order.
    pub fn to_segments(&self) -> (segments: Vec<Segment>)
        ensures
            segments@ == path_segments(self@),
    {
        let mut cur = Point { x: 0, y: 0 };
        let mut segments: Vec<Segment> = Vec::new();
        let n = self.commands.len();
        let mut i: usize = 0;
        proof {
            assert(self@.skip(0) =~= self@);
            assert(segments@ + segments_from(self@, origin()) =~= path_segments(self@));
        }
        while i < n
            invariant
                i <= n,
                n == self@.len(),
                segments@ + segments_from(self@.skip(i as int), cur) == path_segments(self@),
            decreases n - i,
        {
            proof {
                assert(self@.skip(i as int)[0] == self@[i as int]);
                assert(self@.skip(i as int).drop_first() =~= self@.skip(i as int + 1));
            }
            let ghost pre = segments@;
            let ghost pre_cur = cur;
            let cmd = self.commands[i];
            match cmd {
                PathCommand::MoveTo(p) => {
                    cur = p;
                },
                PathCommand::LineTo(p) => {
                    segments.push(Segment::Line(cur, p));
                    cur = p;
                },
                PathCommand::QuadTo(c, p) => {
                    segments.push(Segment::Quad(cur, c, p));
                    cur = p;
                },
                PathCommand::CubicTo(c1, c2, p) => {
                    segments.push(Segment::Cubic(cur, c1, c2, p));
                    cur = p;
                },
                PathCommand::Close => {},
            }
            proof {
                assert(segments@ =~= pre + opt_segment_seq(command_segment(self@[i as int], pre_cur)));
                assert(cur == command_end(self@[i as int], pre_cur));
                assert(segments@ + segments_from(self@.skip(i as int + 1), cur) =~= pre
                    + segments_from(self@.skip(i as int), pre_cur));
            }
            i = i + 1;
        }
        proof {
            assert(self@.skip(n as int) =~= Seq::<PathCommand>::empty());
        }
        segments
    }

    /// Flattens the whole path: each derived segment in order, each one's
    /// polyline produced by the adaptive subdivider with the default
    /// parameters, concatenated in segment order.
    pub fn subdivide(&self) -> (points: Vec<Point>)
        requires
            path_ok(self@),
        ensures
            points@ == path_flat_points(self@),
    {
        let segments = self.to_segments();
        proof {
            lemma_segments_ok(self@, origin());
        }
        let mut points: Vec<Point> = Vec::new();
        let n = segments.len();
        let mut i: usize = 0;
        proof {
            assert(segments@.skip(0) =~= segments@);
            assert(points@ + segments_flat_points(segments@, default_params()) =~= path_flat_points(
                self@,
            ));
        }
        while i < n
            invariant
                i <= n,
                n == segments@.len(),
                segments@ == path_segments(self@),
                forall|j: int| 0 <= j < n ==> segment_ok(#[trigger] segments@[j]),
                points@ + segments_flat_points(segments@.skip(i as int), default_params())
                    == path_flat_points(self@),
            decreases n - i,
        {
            proof {
                assert(segments@.skip(i as int)[0] == segments@[i as int]);
                assert(segments@.skip(i as int).drop_first() =~= segments@.skip(i as int + 1));
            }
            let mut seg_points = crate::subdivision::subdivide(&segments[i]);
            points.append(&mut seg_points);
            proof {
                assert(points@ + segments_flat_points(
                    segments@.skip(i as int + 1),
                    default_params(),
                ) =~= path_flat_points(self@));
            }
            i = i + 1;
        }
        proof {
            assert(segments@.skip(n as int) =~= Seq::<Segment>::empty());
        }
        points
    }
}

} // verus!
