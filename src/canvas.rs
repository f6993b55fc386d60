//! JavaScript that draws glyph outlines on HTML canvases.
use vstd::prelude::*;
use vstd::string::StringExecFns;
use crate::error::FormatError;
use crate::font::Glyph;
use crate::outline::{outline_path, outline_result, PathCommand, PathPoint};

verus! {

/// The decimal digit `d`.
pub open spec fn digit(d: int) -> char {
    if d == 0 { '0' } else if d == 1 { '1' } else if d == 2 { '2' } else if d == 3 { '3' }
    else if d == 4 { '4' } else if d == 5 { '5' } else if d == 6 { '6' } else if d == 7 { '7' }
    else if d == 8 { '8' } else { '9' }
}

/// `n` written in decimal, without leading zeros.
pub open spec fn decimal(n: nat) -> Seq<char>
    decreases n,
{
    if n < 10 {
        seq![digit(n as int)]
    } else {
        decimal(n / 10) + seq![digit((n % 10) as int)]
    }
}

/// `v` written in decimal, with a minus sign when negative.
pub open spec fn signed_decimal(v: int) -> Seq<char> {
    if v < 0 { seq!['-'] + decimal((-v) as nat) } else { decimal(v as nat) }
}

/// A coordinate given in half units, written in whole units: an odd value
/// ends in `.5`.
pub open spec fn half_units(h: int) -> Seq<char> {
    let a = if h < 0 { -h } else { h };
    (if h < 0 { seq!['-'] } else { Seq::empty() }) + decimal((a / 2) as nat) + (if a % 2 == 1 {
        ".5"@
    } else {
        Seq::empty()
    })
}

fn push_digit(s: &mut String, d: u64)
    requires
        d < 10,
    ensures
        final(s)@ == old(s)@ + seq![digit(d as int)],
{
    proof {
        reveal_strlit("0");
        reveal_strlit("1");
        reveal_strlit("2");
        reveal_strlit("3");
        reveal_strlit("4");
        reveal_strlit("5");
        reveal_strlit("6");
        reveal_strlit("7");
        reveal_strlit("8");
        reveal_strlit("9");
    }
    let t: &str = if d == 0 { "0" } else if d == 1 { "1" } else if d == 2 { "2" }
        else if d == 3 { "3" } else if d == 4 { "4" } else if d == 5 { "5" }
        else if d == 6 { "6" } else if d == 7 { "7" } else if d == 8 { "8" } else { "9" };
    assert(t@ =~= seq![digit(d as int)]);
    s.append(t);
}

/// Appends `n` in decimal.
pub fn push_decimal(s: &mut String, n: u64)
    ensures
        final(s)@ == old(s)@ + decimal(n as nat),
    decreases n,
{
    if n >= 10 {
        push_decimal(s, n / 10);
        push_digit(s, n % 10);
        assert(final(s)@ =~= old(s)@ + decimal(n as nat));
    } else {
        push_digit(s, n);
    }
}

/// Appends `v` in decimal, with a minus sign when negative.
pub fn push_signed(s: &mut String, v: i64)
    ensures
        final(s)@ == old(s)@ + signed_decimal(v as int),
{
    if v < 0 {
        s.append("-");
        proof {
            reveal_strlit("-");
        }
        push_decimal(s, (0 - (v as i128)) as u64);
        assert(final(s)@ =~= old(s)@ + signed_decimal(v as int));
    } else {
        push_decimal(s, v as u64);
    }
}

/// Appends a coordinate given in half units, in whole units.
pub fn push_half_units(s: &mut String, h: i64)
    ensures
        final(s)@ == old(s)@ + half_units(h as int),
{
    let ghost s0 = s@;
    let a: u64 = if h < 0 { (0 - (h as i128)) as u64 } else { h as u64 };
    if h < 0 {
        s.append("-");
    }
    push_decimal(s, a / 2);
    if a % 2 == 1 {
        s.append(".5");
    }
    proof {
        reveal_strlit("-");
        assert(s@ =~= s0 + half_units(h as int));
    }
}

/// The page that loads the glyph script, `glyph.js`.
pub const INDEX_HTML: &'static str = "
<!-- Don't touch this! It's autogenerated! -->
<html>
    <head>
        <meta content=\"text/html;charset=utf-8\" http-equiv=\"Content-Type\" />
    </head>
    <body>
        <h1>Glyph Playground</h1>
        <div id=\"content\"></div>
        <script src=\"glyph.js\"></script>
    </body>
</html>
";

/// The script that creates canvas number `i` of the given size.
pub open spec fn new_canvas_text(i: nat, width: nat, height: nat) -> Seq<char> {
    "const newCanvas"@ + decimal(i) + " = document.createElement(\"canvas\");\nnewCanvas"@
        + decimal(i) + ".width = "@ + decimal(width) + ";\nnewCanvas"@ + decimal(i)
        + ".height = "@ + decimal(height) + ";\n"@
}

/// Script that creates canvas number `i`, `width` by `height` pixels.
pub fn dom_new_canvas(i: usize, width: usize, height: usize) -> (r: String)
    ensures
        r@ == new_canvas_text(i as nat, width as nat, height as nat),
{
    let mut out = String::new();
    out.append("const newCanvas");
    push_decimal(&mut out, i as u64);
    out.append(" = document.createElement(\"canvas\");\nnewCanvas");
    push_decimal(&mut out, i as u64);
    out.append(".width = ");
    push_decimal(&mut out, width as u64);
    out.append(";\nnewCanvas");
    push_decimal(&mut out, i as u64);
    out.append(".height = ");
    push_decimal(&mut out, height as u64);
    out.append(";\n");
    out
}

/// The page that shows the glyph canvases.
pub fn index_html() -> (r: String)
    ensures
        r@ == INDEX_HTML@,
{
    String::from_str(INDEX_HTML)
}

/// The name of the drawing context of canvas `key`.
pub open spec fn ctx(key: nat) -> Seq<char> {
    "ctx"@ + decimal(key)
}

/// The two coordinates of a path point.
pub open spec fn coords_text(p: PathPoint) -> Seq<char> {
    half_units(p.hx as int) + ", "@ + half_units(p.hy as int)
}

/// The call that draws one path command.
pub open spec fn command_text(c: PathCommand, key: nat) -> Seq<char> {
    match c {
        PathCommand::MoveTo(p) => ctx(key) + ".moveTo("@ + coords_text(p) + ");\n"@,
        PathCommand::LineTo(p) => ctx(key) + ".lineTo("@ + coords_text(p) + ");\n"@,
        PathCommand::QuadraticCurveTo(c, p) => ctx(key) + ".quadraticCurveTo("@ + coords_text(c)
            + ", "@ + coords_text(p) + ");\n"@,
    }
}

/// Whether command `j` is a straight line that closes its contour: the last
/// command before the next contour or the end. `closePath` draws that line.
pub open spec fn closing_line(cmds: Seq<PathCommand>, j: int) -> bool {
    cmds[j] is LineTo && (j + 1 == cmds.len() || cmds[j + 1] is MoveTo)
}

/// The calls for commands `j` on; each contour but the first is closed
/// before the next begins, and a straight line back to a contour's start is
/// left to `closePath`.
pub open spec fn path_text(cmds: Seq<PathCommand>, key: nat, j: int) -> Seq<char>
    decreases cmds.len() - j,
{
    if j < 0 || j >= cmds.len() {
        Seq::empty()
    } else {
        (if j > 0 && cmds[j] is MoveTo { ctx(key) + ".closePath();\n"@ } else { Seq::empty() })
            + (if closing_line(cmds, j) { Seq::empty() } else { command_text(cmds[j], key) })
            + path_text(cmds, key, j + 1)
    }
}

/// The script that strokes the path `cmds` on canvas `key`.
pub open spec fn glyph_script(cmds: Seq<PathCommand>, key: nat) -> Seq<char> {
    ctx(key) + ".translate(0, newCanvas"@ + decimal(key) + ".height - 300);\n"@ + ctx(key)
        + ".scale(0.5, -0.5);\n"@ + ctx(key) + ".beginPath()\n"@ + path_text(cmds, key, 0) + (if cmds.len()
        > 0 {
        ctx(key) + ".closePath();\n"@
    } else {
        Seq::empty()
    }) + ctx(key) + ".lineWidth = 9;\n"@ + ctx(key) + ".stroke();\n"@
}

fn push_ctx(s: &mut String, key: usize)
    ensures
        final(s)@ == old(s)@ + ctx(key as nat),
{
    s.append("ctx");
    push_decimal(s, key as u64);
    assert(final(s)@ =~= old(s)@ + ctx(key as nat));
}

fn push_coords(s: &mut String, p: PathPoint)
    ensures
        final(s)@ == old(s)@ + coords_text(p),
{
    push_half_units(s, p.hx);
    s.append(", ");
    push_half_units(s, p.hy);
    assert(final(s)@ =~= old(s)@ + coords_text(p));
}

fn push_command(s: &mut String, c: PathCommand, key: usize)
    ensures
        final(s)@ == old(s)@ + command_text(c, key as nat),
{
    push_ctx(s, key);
    match c {
        PathCommand::MoveTo(p) => {
            s.append(".moveTo(");
            push_coords(s, p);
        },
        PathCommand::LineTo(p) => {
            s.append(".lineTo(");
            push_coords(s, p);
        },
        PathCommand::QuadraticCurveTo(q, p) => {
            s.append(".quadraticCurveTo(");
            push_coords(s, q);
            s.append(", ");
            push_coords(s, p);
        },
    }
    s.append(");\n");
    assert(final(s)@ =~= old(s)@ + command_text(c, key as nat));
}

/// Script that strokes the outline of `glyph` on canvas `key`, flipped so
/// that y grows upward and at half size. A compound glyph has no outline of
/// its own to draw.
pub fn draw_glyph_to_canvas(glyph: &Glyph, key: usize) -> (r: Result<String, FormatError>)
    ensures
        match outline_result(glyph.data@) {
            Ok(cmds) => r == Ok::<String, FormatError>(r.unwrap()) && r.unwrap()@ == glyph_script(
                cmds,
                key as nat,
            ),
            Err(e) => r == Err::<String, FormatError>(e),
        },
{
    let cmds = match outline_path(glyph) {
        Ok(v) => v,
        Err(e) => return Err(e),
    };
    let mut out = String::new();
    push_ctx(&mut out, key);
    out.append(".translate(0, newCanvas");
    push_decimal(&mut out, key as u64);
    out.append(".height - 300);\n");
    push_ctx(&mut out, key);
    out.append(".scale(0.5, -0.5);\n");
    push_ctx(&mut out, key);
    out.append(".beginPath()\n");
    let ghost head = out@;
    let mut j: usize = 0;
    while j < cmds.len()
        invariant
            j <= cmds@.len(),
            head + path_text(cmds@, key as nat, 0) == out@ + path_text(cmds@, key as nat, j as int),
        decreases cmds@.len() - j,
    {
        let ghost before = out@;
        if j > 0 && matches!(cmds[j], PathCommand::MoveTo(_)) {
            push_ctx(&mut out, key);
            out.append(".closePath();\n");
        }
        let closing = matches!(cmds[j], PathCommand::LineTo(_)) && (j + 1 == cmds.len()
            || matches!(cmds[j + 1], PathCommand::MoveTo(_)));
        if !closing {
            push_command(&mut out, cmds[j], key);
        }
        j = j + 1;
        proof {
            let step = path_text(cmds@, key as nat, j - 1);
            assert(before + step =~= out@ + path_text(cmds@, key as nat, j as int));
        }
    }
    if cmds.len() > 0 {
        push_ctx(&mut out, key);
        out.append(".closePath();\n");
    }
    push_ctx(&mut out, key);
    out.append(".lineWidth = 9;\n");
    push_ctx(&mut out, key);
    out.append(".stroke();\n");
    proof {
        assert(out@ =~= glyph_script(cmds@, key as nat));
    }
    Ok(out)
}

} // verus!
