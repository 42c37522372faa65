use vstd::prelude::*;
use vstd::string::StringExecFns;
use crate::surd::{Surd, bounded};
use crate::geometry::{command_bounded, PathCommand, Point};
use crate::text::{digits, number_text, write_digits, write_number};

verus! {

pub open spec fn flag_text(b: bool) -> Seq<char> {
    if b { seq!['1'] } else { seq!['0'] }
}

/// `x y`.
pub open spec fn point_text(p: Point) -> Seq<char> {
    number_text(p.x) + seq![' '] + number_text(p.y)
}

/// One command in path-data grammar: `M x y`, `L x y`,
/// `A rx ry rotation large-arc sweep x y`, or `Z`.
pub open spec fn command_text(c: PathCommand) -> Seq<char> {
    match c {
        PathCommand::MoveTo(p) => seq!['M', ' '] + point_text(p),
        PathCommand::LineTo(p) => seq!['L', ' '] + point_text(p),
        PathCommand::ArcTo { rx, ry, x_rotation, large_arc, sweep, end } =>
            seq!['A', ' '] + number_text(rx) + seq![' '] + number_text(ry) + seq![' ']
                + number_text(x_rotation) + seq![' '] + flag_text(large_arc) + seq![' ']
                + flag_text(sweep) + seq![' '] + point_text(end),
        PathCommand::Close => seq!['Z'],
    }
}

/// The commands in path-data grammar, separated by single spaces.
pub open spec fn path_text(cmds: Seq<PathCommand>) -> Seq<char>
    decreases cmds.len(),
{
    if cmds.len() == 0 {
        Seq::empty()
    } else if cmds.len() == 1 {
        command_text(cmds[0])
    } else {
        path_text(cmds.drop_last()) + seq![' '] + command_text(cmds.last())
    }
}

/// `translate(x, y)`.
pub open spec fn translate_text(x: Surd, y: Surd) -> Seq<char> {
    seq!['t', 'r', 'a', 'n', 's', 'l', 'a', 't', 'e', '('] + number_text(x) + seq![',', ' '] + number_text(y) + seq![')']
}

/// `matrix(1,0,0,-1,0,h)`: flips the y-axis and moves the origin down by `h`.
pub open spec fn mirror_text(h: nat) -> Seq<char> {
    seq!['m', 'a', 't', 'r', 'i', 'x', '(', '1', ',', '0', ',', '0', ',', '-', '1', ',', '0', ','] + digits(h) + seq![')']
}

/// `0 0 w h`.
pub open spec fn view_box_text(w: nat, h: nat) -> Seq<char> {
    seq!['0', ' ', '0', ' '] + digits(w) + seq![' '] + digits(h)
}

fn write_point(s: &mut String, p: Point)
    requires
        bounded(p.x),
        bounded(p.y),
    ensures
        final(s)@ == old(s)@ + point_text(p),
{
    let ghost start = s@;
    write_number(s, p.x);
    proof {
        reveal_strlit(" ");
    }
    s.append(" ");
    write_number(s, p.y);
    assert(s@ =~= start + point_text(p));
}

fn write_flag(s: &mut String, b: bool)
    ensures
        final(s)@ == old(s)@ + flag_text(b),
{
    proof {
        reveal_strlit("0");
        reveal_strlit("1");
    }
    if b {
        s.append("1");
    } else {
        s.append("0");
    }
}

fn write_command(s: &mut String, c: PathCommand)
    requires
        command_bounded(c),
    ensures
        final(s)@ == old(s)@ + command_text(c),
{
    let ghost start = s@;
    proof {
        reveal_strlit("M ");
        reveal_strlit("L ");
        reveal_strlit("A ");
        reveal_strlit(" ");
        reveal_strlit("Z");
    }
    match c {
        PathCommand::MoveTo(p) => {
            s.append("M ");
            write_point(s, p);
        },
        PathCommand::LineTo(p) => {
            s.append("L ");
            write_point(s, p);
        },
        PathCommand::ArcTo { rx, ry, x_rotation, large_arc, sweep, end } => {
            s.append("A ");
            write_number(s, rx);
            s.append(" ");
            write_number(s, ry);
            s.append(" ");
            write_number(s, x_rotation);
            s.append(" ");
            write_flag(s, large_arc);
            s.append(" ");
            write_flag(s, sweep);
            s.append(" ");
            write_point(s, end);
        },
        PathCommand::Close => {
            s.append("Z");
        },
    }
    assert(s@ =~= start + command_text(c));
}

/// The commands as the text of a path's `d` attribute.
pub fn path_data(cmds: &Vec<PathCommand>) -> (d: String)
    requires
        forall|k: int| 0 <= k < cmds@.len() ==> command_bounded(#[trigger] cmds@[k]),
    ensures
        d@ == path_text(cmds@),
{
    let mut s = String::new();
    proof {
        reveal_strlit(" ");
    }
    for k in 0..cmds.len()
        invariant
            forall|j: int| 0 <= j < cmds@.len() ==> command_bounded(#[trigger] cmds@[j]),
            s@ == path_text(cmds@.take(k as int)),
    {
        let ghost before = s@;
        proof {
            reveal_strlit(" ");
        }
        if k > 0 {
            s.append(" ");
        }
        write_command(&mut s, cmds[k]);
        let ghost next = cmds@.take(k + 1);
        assert(next.drop_last() =~= cmds@.take(k as int));
        assert(next.last() == cmds@[k as int]);
        if k == 0 {
            assert(cmds@.take(0).len() == 0);
            assert(before.len() == 0);
            assert(next.len() == 1);
            assert(next[0] == cmds@[0]);
            assert(s@ =~= command_text(cmds@[0]));
            assert(path_text(next) == command_text(next[0]));
        } else {
            assert(next.len() >= 2);
            assert(path_text(next) == path_text(next.drop_last()) + seq![' '] + command_text(next.last()));
            assert(s@ =~= path_text(next));
        }
    }
    assert(cmds@.take(cmds@.len() as int) =~= cmds@);
    s
}

/// The transform `translate(x, y)`.
pub fn translate(x: Surd, y: Surd) -> (t: String)
    requires
        bounded(x),
        bounded(y),
    ensures
        t@ == translate_text(x, y),
{
    let mut s = String::new();
    proof {
        reveal_strlit("translate(");
        reveal_strlit(", ");
        reveal_strlit(")");
    }
    s.append("translate(");
    write_number(&mut s, x);
    s.append(", ");
    write_number(&mut s, y);
    s.append(")");
    assert(s@ =~= translate_text(x, y));
    s
}

/// The transform that flips the y-axis of a viewport of height `h`.
pub fn mirror(h: u64) -> (t: String)
    ensures
        t@ == mirror_text(h as nat),
{
    let mut s = String::new();
    proof {
        reveal_strlit("matrix(1,0,0,-1,0,");
        reveal_strlit(")");
    }
    s.append("matrix(1,0,0,-1,0,");
    write_digits(&mut s, h);
    s.append(")");
    assert(s@ =~= mirror_text(h as nat));
    s
}

/// The view box `0 0 w h`.
pub fn view_box(w: u64, h: u64) -> (t: String)
    ensures
        t@ == view_box_text(w as nat, h as nat),
{
    let mut s = String::new();
    proof {
        reveal_strlit("0 0 ");
        reveal_strlit(" ");
    }
    s.append("0 0 ");
    write_digits(&mut s, w);
    s.append(" ");
    write_digits(&mut s, h);
    assert(s@ =~= view_box_text(w as nat, h as nat));
    s
}

} // verus!
