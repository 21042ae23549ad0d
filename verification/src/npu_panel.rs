//! The NPU panel: whether the driver and the device are there.

use ratatui::buffer::Buffer;
use vstd::prelude::*;
use vstd::string::*;

use crate::cells::{same_outside_chains, Screen};
use crate::npu::NpuData;
use crate::paint::{
    border_stays_inside, concat_is_narrow, make_border, panel_border, paragraph_stays_inside,
    styled,
};
use crate::screen::{
    buffer_area, inner_area, is_narrow, line_view, lines_narrow, lines_view, paint_border,
    paint_paragraph, screen, span, BorderView, Rect, Sides, Span, SpanView, DIM_GREEN, GREEN,
    ORANGE, PLAIN,
};

verus! {

/// Whether the NPU can be used.
pub open spec fn online(npu: NpuData) -> bool {
    npu.accel_present && npu.module_loaded
}

/// The state of the NPU in words.
pub open spec fn npu_status(npu: NpuData) -> Seq<char> {
    if online(npu) {
        "ONLINE"@
    } else if npu.module_loaded {
        "MODULE OK / NO DEVICE"@
    } else {
        "OFFLINE"@
    }
}

/// The colour of the state.
pub open spec fn status_color(npu: NpuData) -> u32 {
    if online(npu) {
        GREEN
    } else {
        ORANGE
    }
}

/// The title of the NPU panel.
pub open spec fn npu_title(npu: NpuData) -> Seq<char> {
    " NPU  "@ + npu_status(npu) + " "@
}

/// A name and what is known of it, in green where that is good.
pub open spec fn known_line(name: Seq<char>, value: Seq<char>, good: bool, npu: NpuData) -> Seq<
    SpanView,
> {
    seq![
        span(name, DIM_GREEN, PLAIN),
        span(
            value,
            if good {
                GREEN
            } else {
                status_color(npu)
            },
            PLAIN,
        ),
    ]
}

/// The lines of the NPU panel.
pub open spec fn npu_lines(npu: NpuData) -> Seq<Seq<SpanView>> {
    seq![
        known_line(
            "amdxdna module: "@,
            if npu.module_loaded {
                "loaded"@
            } else {
                "not loaded"@
            },
            npu.module_loaded,
            npu,
        ),
        known_line(
            "/dev/accel/accel0: "@,
            if npu.accel_present {
                "present"@
            } else {
                "absent"@
            },
            npu.accel_present,
            npu,
        ),
        known_line("Arch: "@, "XDNA 2 (aie2p)"@, true, npu),
    ]
}

/// The screen after the NPU panel was painted.
pub open spec fn npu_painted(npu: NpuData, area: Rect, before: Screen) -> Screen {
    before.border(panel_border(npu_title(npu), status_color(npu)), area).paragraph(
        npu_lines(npu),
        area.inner(Sides::All),
    )
}

/// The panel is all green exactly where driver and device are both there: then no piece of it is
/// orange, and otherwise the title is, and so is each line on what is missing.
pub proof fn alarm_shows_what_is_missing(npu: NpuData)
    ensures
        online(npu) <==> status_color(npu) == GREEN,
        npu_lines(npu)[0][1].color == ORANGE <==> !npu.module_loaded,
        npu_lines(npu)[1][1].color == ORANGE <==> !npu.accel_present,
        npu_lines(npu)[2][1].color == GREEN,
{
}

/// Makes a line of a name and what is known of it.
fn make_known_line(name: &str, value: &str, good: bool, npu: NpuData) -> (r: Vec<Span>)
    ensures
        line_view(r@) == known_line(name@, value@, good, npu),
{
    let color: u32 = if good || (npu.accel_present && npu.module_loaded) {
        GREEN
    } else {
        ORANGE
    };
    let mut r: Vec<Span> = Vec::new();
    r.push(styled(name.to_owned(), DIM_GREEN, PLAIN));
    r.push(styled(value.to_owned(), color, PLAIN));
    assert(line_view(r@) =~= known_line(name@, value@, good, npu));
    r
}

/// Makes the lines of the NPU panel.
pub fn make_npu_lines(npu: NpuData) -> (r: Vec<Vec<Span>>)
    ensures
        lines_view(r@) == npu_lines(npu),
        lines_narrow(lines_view(r@)),
{
    let module = if npu.module_loaded {
        "loaded"
    } else {
        "not loaded"
    };
    let device = if npu.accel_present {
        "present"
    } else {
        "absent"
    };
    let mut r: Vec<Vec<Span>> = Vec::new();
    r.push(make_known_line("amdxdna module: ", module, npu.module_loaded, npu));
    r.push(make_known_line("/dev/accel/accel0: ", device, npu.accel_present, npu));
    r.push(make_known_line("Arch: ", "XDNA 2 (aie2p)", true, npu));
    assert(lines_view(r@) =~= npu_lines(npu));
    proof {
        reveal_strlit("amdxdna module: ");
        reveal_strlit("loaded");
        reveal_strlit("not loaded");
        reveal_strlit("/dev/accel/accel0: ");
        reveal_strlit("present");
        reveal_strlit("absent");
        reveal_strlit("Arch: ");
        reveal_strlit("XDNA 2 (aie2p)");
        assert(is_narrow("amdxdna module: "@) && is_narrow(module@));
        assert(is_narrow("/dev/accel/accel0: "@) && is_narrow(device@));
        assert(is_narrow("Arch: "@) && is_narrow("XDNA 2 (aie2p)"@));
        let lines = npu_lines(npu);
        assert forall|i: int, j: int|
            0 <= i < lines.len() && 0 <= j < lines[i].len() implies is_narrow(
            (#[trigger] lines[i][j]).text,
        ) by {
            assert(i == 0 || i == 1 || i == 2);
            assert(j == 0 || j == 1);
        }
    }
    r
}

/// Makes the title of the NPU panel.
pub fn make_npu_title(npu: NpuData) -> (r: String)
    ensures
        r@ == npu_title(npu),
        is_narrow(r@),
        r@.len() < 40,
{
    let status = if npu.accel_present && npu.module_loaded {
        "ONLINE"
    } else if npu.module_loaded {
        "MODULE OK / NO DEVICE"
    } else {
        "OFFLINE"
    };
    let mut r = " NPU  ".to_owned();
    r.append(status);
    r.append(" ");
    proof {
        broadcast use concat_is_narrow;

        reveal_strlit(" NPU  ");
        reveal_strlit("ONLINE");
        reveal_strlit("MODULE OK / NO DEVICE");
        reveal_strlit("OFFLINE");
        reveal_strlit(" ");
        assert(is_narrow(" NPU  "@) && is_narrow(status@) && is_narrow(" "@));
    }
    r
}

/// Paints the NPU panel.
pub fn render_npu(npu: NpuData, area: Rect, buf: &mut Buffer)
    requires
        screen(*old(buf)).valid(),
        area.within(buffer_area(*old(buf))),
    ensures
        screen(*final(buf)) == npu_painted(npu, area, screen(*old(buf))),
        screen(*final(buf)).valid(),
{
    let color: u32 = if npu.accel_present && npu.module_loaded {
        GREEN
    } else {
        ORANGE
    };
    let border = make_border(make_npu_title(npu), color);
    let inner = inner_area(&border, area);
    paint_border(&border, area, buf);
    let lines = make_npu_lines(npu);
    paint_paragraph(&lines, inner, buf);
}

/// The NPU panel changes no cell outside its area.
pub proof fn npu_panel_stays_inside(npu: NpuData, area: Rect, before: Screen)
    requires
        before.valid(),
        area.within(before.area),
    ensures
        before.same_outside(npu_painted(npu, area, before), area),
        npu_painted(npu, area, before).valid(),
{
    let border = panel_border(npu_title(npu), status_color(npu));
    let framed = before.border(border, area);
    border_stays_inside(before, border, area, area);
    paragraph_stays_inside(framed, npu_lines(npu), area.inner(Sides::All), area);
    same_outside_chains(before, framed, npu_painted(npu, area, before), area);
}

/// The title says that the NPU is online exactly where device and driver are there, that only the
/// device is missing where the driver is there, and that the NPU is offline otherwise. It is green
/// where the NPU is online and orange otherwise.
pub proof fn title_tells_the_state(npu: NpuData)
    ensures
        npu.accel_present && npu.module_loaded ==> npu_title(npu) == seq![' ', 'N', 'P', 'U', ' ', ' ', 'O', 'N', 'L', 'I', 'N', 'E', ' ']
            && status_color(npu) == 0x33FF33,
        !npu.accel_present && npu.module_loaded ==> npu_title(npu) == seq![' ', 'N', 'P', 'U', ' ', ' ', 'M', 'O', 'D', 'U', 'L', 'E', ' ', 'O', 'K', ' ', '/', ' ', 'N', 'O', ' ', 'D', 'E', 'V', 'I', 'C', 'E', ' ']
            && status_color(npu) == 0xFF6600,
        !npu.module_loaded ==> npu_title(npu) == seq![' ', 'N', 'P', 'U', ' ', ' ', 'O', 'F', 'F', 'L', 'I', 'N', 'E', ' '] && status_color(npu)
            == 0xFF6600,
{
    reveal_strlit(" NPU  ");
    reveal_strlit("ONLINE");
    reveal_strlit("MODULE OK / NO DEVICE");
    reveal_strlit("OFFLINE");
    reveal_strlit(" ");
    if npu.accel_present && npu.module_loaded {
        assert(npu_title(npu) =~= seq![' ', 'N', 'P', 'U', ' ', ' ', 'O', 'N', 'L', 'I', 'N', 'E', ' ']);
    } else if npu.module_loaded {
        assert(npu_title(npu) =~= seq![' ', 'N', 'P', 'U', ' ', ' ', 'M', 'O', 'D', 'U', 'L', 'E', ' ', 'O', 'K', ' ', '/', ' ', 'N', 'O', ' ', 'D', 'E', 'V', 'I', 'C', 'E', ' ']);
    } else {
        assert(npu_title(npu) =~= seq![' ', 'N', 'P', 'U', ' ', ' ', 'O', 'F', 'F', 'L', 'I', 'N', 'E', ' ']);
    }
}

/// The lines tell of driver, device and architecture what is known of each: the name dim, and what
/// is known in green where it is good and in orange where it is missing.
pub proof fn lines_tell_what_is_there(npu: NpuData)
    ensures
        ({
            let lines = npu_lines(npu);
            &&& lines.len() == 3
            &&& forall|i: int|
                0 <= i < 3 ==> (#[trigger] lines[i]).len() == 2 && lines[i][0].color == 0x118811
                    && lines[i][0].modifiers == 0 && lines[i][1].modifiers == 0
            &&& lines[0][0].text == seq!['a', 'm', 'd', 'x', 'd', 'n', 'a', ' ', 'm', 'o', 'd', 'u', 'l', 'e', ':', ' ']
            &&& npu.module_loaded ==> lines[0][1].text == seq!['l', 'o', 'a', 'd', 'e', 'd'] && lines[0][1].color
                == 0x33FF33
            &&& !npu.module_loaded ==> lines[0][1].text == seq!['n', 'o', 't', ' ', 'l', 'o', 'a', 'd', 'e', 'd'] && lines[0][1].color
                == 0xFF6600
            &&& lines[1][0].text == seq!['/', 'd', 'e', 'v', '/', 'a', 'c', 'c', 'e', 'l', '/', 'a', 'c', 'c', 'e', 'l', '0', ':', ' ']
            &&& npu.accel_present ==> lines[1][1].text == seq!['p', 'r', 'e', 's', 'e', 'n', 't'] && lines[1][1].color
                == 0x33FF33
            &&& !npu.accel_present ==> lines[1][1].text == seq!['a', 'b', 's', 'e', 'n', 't'] && lines[1][1].color
                == 0xFF6600
            &&& lines[2][0].text == seq!['A', 'r', 'c', 'h', ':', ' ']
            &&& lines[2][1].text == seq!['X', 'D', 'N', 'A', ' ', '2', ' ', '(', 'a', 'i', 'e', '2', 'p', ')'] && lines[2][1].color == 0x33FF33
        }),
{
    reveal_strlit("amdxdna module: ");
    reveal_strlit("loaded");
    reveal_strlit("not loaded");
    reveal_strlit("/dev/accel/accel0: ");
    reveal_strlit("present");
    reveal_strlit("absent");
    reveal_strlit("Arch: ");
    reveal_strlit("XDNA 2 (aie2p)");
    assert("amdxdna module: "@ =~= seq!['a', 'm', 'd', 'x', 'd', 'n', 'a', ' ', 'm', 'o', 'd', 'u', 'l', 'e', ':', ' ']);
    assert("loaded"@ =~= seq!['l', 'o', 'a', 'd', 'e', 'd']);
    assert("not loaded"@ =~= seq!['n', 'o', 't', ' ', 'l', 'o', 'a', 'd', 'e', 'd']);
    assert("/dev/accel/accel0: "@ =~= seq!['/', 'd', 'e', 'v', '/', 'a', 'c', 'c', 'e', 'l', '/', 'a', 'c', 'c', 'e', 'l', '0', ':', ' ']);
    assert("present"@ =~= seq!['p', 'r', 'e', 's', 'e', 'n', 't']);
    assert("absent"@ =~= seq!['a', 'b', 's', 'e', 'n', 't']);
    assert("Arch: "@ =~= seq!['A', 'r', 'c', 'h', ':', ' ']);
    assert("XDNA 2 (aie2p)"@ =~= seq!['X', 'D', 'N', 'A', ' ', '2', ' ', '(', 'a', 'i', 'e', '2', 'p', ')']);
    assert forall|i: int| 0 <= i < 3 implies (#[trigger] npu_lines(npu)[i]).len() == 2 && npu_lines(
        npu,
    )[i][0].color == 0x118811 && npu_lines(npu)[i][0].modifiers == 0 && npu_lines(
        npu,
    )[i][1].modifiers == 0 by {
        assert(i == 0 || i == 1 || i == 2);
    }
}

/// The panel is its border, with its title in the colour of the state, and its lines inside it.
pub proof fn panel_is_border_and_lines(npu: NpuData, area: Rect, before: Screen)
    ensures
        npu_painted(npu, area, before) == before.border(
            BorderView {
                title: npu_title(npu),
                title_color: status_color(npu),
                title_modifiers: 1,
                sides: Sides::All,
                color: 0x33FF33,
            },
            area,
        ).paragraph(npu_lines(npu), area.inner(Sides::All)),
{
}

} // verus!
