//! The ASCII clock face: a fixed seven-row dial on which a marker is
//! placed for the hour hand and one for the minute hand.
//!
//! A hand tip sits at column `7 + dx` and row `3 + dy` of the face, where
//! `dx` rounds `radius * sin(angle)` and `dy` rounds `-radius * cos(angle)`
//! — the angle a full turn times `value / period`, the radius 2 for the
//! hour hand and 3 for the minute hand, rounding half away from zero.
//! Over the 12 hour and 60 minute positions those roundings take finitely
//! many values, written out here as exact integer tables.

use vstd::prelude::*;

verus! {

/// Column offset of the hour hand tip for each of the twelve positions.
pub open spec fn hour_dx(h: int) -> int {
    let k = h % 12;
    if k == 0 {
        0
    } else if k == 1 {
        1
    } else if k <= 4 {
        2
    } else if k == 5 {
        1
    } else if k == 6 {
        0
    } else if k == 7 {
        -1
    } else if k <= 10 {
        -2
    } else {
        -1
    }
}

/// Row offset of the hour hand tip for each of the twelve positions.
pub open spec fn hour_dy(h: int) -> int {
    let k = h % 12;
    if k <= 1 {
        -2
    } else if k == 2 {
        -1
    } else if k == 3 {
        0
    } else if k == 4 {
        1
    } else if k <= 7 {
        2
    } else if k == 8 {
        1
    } else if k == 9 {
        0
    } else if k == 10 {
        -1
    } else {
        -2
    }
}

/// The rounded value of `3 sin` over the first quarter turn, one entry
/// for each of the sixteen minute marks from 0 to 15.
pub open spec fn minute_quarter(k: int) -> int {
    if k <= 1 {
        0
    } else if k <= 4 {
        1
    } else if k <= 9 {
        2
    } else {
        3
    }
}

/// Column offset of the minute hand tip, by quarter-turn symmetry of the
/// sine.
pub open spec fn minute_dx(m: int) -> int {
    let k = m % 60;
    if k <= 15 {
        minute_quarter(k)
    } else if k <= 30 {
        minute_quarter(30 - k)
    } else if k <= 45 {
        -minute_quarter(k - 30)
    } else {
        -minute_quarter(60 - k)
    }
}

/// Row offset of the minute hand tip, by the same symmetry: the cosine is
/// the sine a quarter turn ahead.
pub open spec fn minute_dy(m: int) -> int {
    let k = m % 60;
    if k <= 15 {
        -minute_quarter(15 - k)
    } else if k <= 30 {
        minute_quarter(k - 15)
    } else if k <= 45 {
        minute_quarter(45 - k)
    } else {
        -minute_quarter(k - 45)
    }
}

/// The empty dial, before any hand is placed.
pub open spec fn clock_template() -> Seq<Seq<char>> {
    seq![
        "      12      "@,
        "   11     1   "@,
        " 10    |    2 "@,
        "9    --+--    3"@,
        " 8     |    4 "@,
        "   7      5   "@,
        "      6       "@,
    ]
}

/// The grid with one character replaced; a position off the grid changes
/// nothing.
pub open spec fn place_mark(g: Seq<Seq<char>>, row: int, col: int, c: char) -> Seq<Seq<char>> {
    if 0 <= row < g.len() && 0 <= col < g[row].len() {
        g.update(row, g[row].update(col, c))
    } else {
        g
    }
}

/// The dial with the hour hand marker placed, then the minute hand
/// marker: where the two meet, the minute hand wins.
pub open spec fn clock_grid(hours: int, minutes: int) -> Seq<Seq<char>> {
    place_mark(
        place_mark(clock_template(), 3 + hour_dy(hours), 7 + hour_dx(hours), 'H'),
        3 + minute_dy(minutes),
        7 + minute_dx(minutes),
        'M',
    )
}

fn hour_dx_exec(h: u32) -> (r: i32)
    ensures
        r as int == hour_dx(h as int),
        -2 <= r <= 2,
{
    let k = h % 12;
    if k == 0 {
        0
    } else if k == 1 {
        1
    } else if k <= 4 {
        2
    } else if k == 5 {
        1
    } else if k == 6 {
        0
    } else if k == 7 {
        -1
    } else if k <= 10 {
        -2
    } else {
        -1
    }
}

fn hour_dy_exec(h: u32) -> (r: i32)
    ensures
        r as int == hour_dy(h as int),
        -2 <= r <= 2,
{
    let k = h % 12;
    if k <= 1 {
        -2
    } else if k == 2 {
        -1
    } else if k == 3 {
        0
    } else if k == 4 {
        1
    } else if k <= 7 {
        2
    } else if k == 8 {
        1
    } else if k == 9 {
        0
    } else if k == 10 {
        -1
    } else {
        -2
    }
}

fn minute_quarter_exec(k: u32) -> (r: i32)
    requires
        k <= 15,
    ensures
        r as int == minute_quarter(k as int),
        0 <= r <= 3,
{
    if k <= 1 {
        0
    } else if k <= 4 {
        1
    } else if k <= 9 {
        2
    } else {
        3
    }
}

fn minute_dx_exec(m: u32) -> (r: i32)
    ensures
        r as int == minute_dx(m as int),
        -3 <= r <= 3,
{
    let k = m % 60;
    if k <= 15 {
        minute_quarter_exec(k)
    } else if k <= 30 {
        minute_quarter_exec(30 - k)
    } else if k <= 45 {
        -minute_quarter_exec(k - 30)
    } else {
        -minute_quarter_exec(60 - k)
    }
}

fn minute_dy_exec(m: u32) -> (r: i32)
    ensures
        r as int == minute_dy(m as int),
        -3 <= r <= 3,
{
    let k = m % 60;
    if k <= 15 {
        -minute_quarter_exec(15 - k)
    } else if k <= 30 {
        minute_quarter_exec(k - 15)
    } else if k <= 45 {
        minute_quarter_exec(45 - k)
    } else {
        -minute_quarter_exec(k - 45)
    }
}

/// Replace one character of one line; a row or column off the grid is
/// silently dropped.
fn place_marker(lines: &mut Vec<String>, row: usize, col: usize, marker: &str)
    requires
        marker@.len() == 1,
    ensures
        final(lines).deep_view() == place_mark(old(lines).deep_view(), row as int, col as int, marker@[0]),
{
    if row < lines.len() {
        let len = lines[row].as_str().unicode_len();
        if col < len {
            let pre = lines[row].as_str().substring_char(0, col);
            let post = lines[row].as_str().substring_char(col + 1, len);
            let newline = String::from_str(pre).concat(marker).concat(post);
            proof {
                assert(newline@ =~= old(lines).deep_view()[row as int].update(
                    col as int,
                    marker@[0],
                ));
            }
            lines.set(row, newline);
            proof {
                assert(lines.deep_view() =~~= place_mark(
                    old(lines).deep_view(),
                    row as int,
                    col as int,
                    marker@[0],
                ));
            }
        } else {
            proof {
                assert(lines.deep_view() =~~= old(lines).deep_view());
            }
        }
    } else {
        proof {
            assert(lines.deep_view() =~~= old(lines).deep_view());
        }
    }
}

/// Hand placement is a function of the hour position on the twelve-hour
/// dial and the minute alone: grids built for the same pair are the same
/// grid, however often they are built, and a full turn of either hand
/// changes nothing.
pub proof fn lemma_clock_grid_periodic(hours: int, minutes: int)
    requires
        hours >= 0,
        minutes >= 0,
    ensures
        clock_grid(hours, minutes) == clock_grid(hours % 12, minutes % 60),
{
    assert((hours % 12) % 12 == hours % 12) by (nonlinear_arith)
        requires
            hours >= 0,
    ;
    assert((minutes % 60) % 60 == minutes % 60) by (nonlinear_arith)
        requires
            minutes >= 0,
    ;
}

/// Build the seven-line dial with the hour and minute hands placed for
/// the given time. The result is fully determined by the two inputs:
/// calling it twice with the same pair gives the same grid.
pub fn create_ascii_clock(hours: u32, minutes: u32) -> (r: Vec<String>)
    ensures
        r.deep_view() == clock_grid(hours as int, minutes as int),
        r@.len() == 7,
{
    let mut clock: Vec<String> = Vec::new();
    clock.push(String::from_str("      12      "));
    clock.push(String::from_str("   11     1   "));
    clock.push(String::from_str(" 10    |    2 "));
    clock.push(String::from_str("9    --+--    3"));
    clock.push(String::from_str(" 8     |    4 "));
    clock.push(String::from_str("   7      5   "));
    clock.push(String::from_str("      6       "));
    proof {
        reveal_strlit("H");
        reveal_strlit("M");
        assert(clock.deep_view() =~~= clock_template());
    }
    let hx = hour_dx_exec(hours);
    let hy = hour_dy_exec(hours);
    place_marker(&mut clock, (3 + hy) as usize, (7 + hx) as usize, "H");
    let mx = minute_dx_exec(minutes);
    let my = minute_dy_exec(minutes);
    place_marker(&mut clock, (3 + my) as usize, (7 + mx) as usize, "M");
    proof {
        reveal_strlit("H");
        reveal_strlit("M");
        assert(clock.deep_view() =~~= clock_grid(hours as int, minutes as int));
    }
    clock
}

} // verus!
