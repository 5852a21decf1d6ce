//! The texts that describe displays and their modes.
//!
//! A long text is specified as what it adds to the text before it: the spec
//! functions whose names end in `_onto` take the text so far and give it
//! back with their part behind it.

use crate::hertz::{two_place_text, whole_text};
use crate::model::{DisplayInfo, DisplayInfoView, DisplayMode};
use crate::number::{decimal, push_decimal, push_signed, signed_decimal};
use vstd::prelude::*;

verus! {

/// A display together with the modes that it offers.
#[derive(Clone, Debug, PartialEq, Eq)]
pub struct DisplayReport {
    pub info: DisplayInfo,
    pub modes: Vec<DisplayMode>,
}

/// The mathematical value of a `DisplayReport`.
pub struct DisplayReportView {
    pub info: DisplayInfoView,
    pub modes: Seq<DisplayMode>,
}

impl View for DisplayReport {
    type V = DisplayReportView;

    open spec fn view(&self) -> DisplayReportView {
        DisplayReportView { info: self.info@, modes: self.modes@ }
    }
}

/// The values of the reports of `reports`, in order.
pub open spec fn report_views(reports: Seq<DisplayReport>) -> Seq<DisplayReportView> {
    Seq::new(reports.len(), |i: int| reports[i]@)
}

/// `true` or `false`.
pub open spec fn bool_text(value: bool) -> Seq<char> {
    if value {
        "true"@
    } else {
        "false"@
    }
}

/// `count` times the character `c`.
pub open spec fn run_of(c: char, count: nat) -> Seq<char> {
    Seq::new(count, |i: int| c)
}

/// `text`, with spaces behind it up to `width` characters where it is shorter.
pub open spec fn pad_right(text: Seq<char>, width: nat) -> Seq<char> {
    if text.len() < width {
        text + run_of(' ', (width - text.len()) as nat)
    } else {
        text
    }
}

/// The part of a display's command that names its mirror target.
pub open spec fn mirror_text(mirror_of: Option<u32>) -> Seq<char> {
    match mirror_of {
        Some(target) => "mirror:"@ + decimal(target as nat) + " "@,
        None => Seq::empty(),
    }
}

/// `acc`, followed by the configuration string that sets a display to the
/// state that `info` describes.
pub open spec fn command_onto(acc: Seq<char>, info: DisplayInfoView) -> Seq<char> {
    acc + "id:"@ + info.persistent_id + " res:"@ + decimal(info.width as nat) + "x"@ + decimal(
        info.height as nat,
    ) + " hz:"@ + whole_text(info.hz) + " color_depth:"@ + decimal(info.depth as nat) + " "@
        + (if info.scaling {
        "scaling:on "@
    } else {
        "scaling:off "@
    }) + "origin:("@ + signed_decimal(info.x as int) + ","@ + signed_decimal(info.y as int)
        + ") "@ + "degree:"@ + decimal(info.rotation as nat) + " "@ + mirror_text(info.mirror_of)
        + (if info.enabled {
        "enabled:true"@
    } else {
        "enabled:false"@
    })
}

/// The configuration string that sets a display to the state that `info` describes.
pub open spec fn command_text(info: DisplayInfoView) -> Seq<char> {
    command_onto(Seq::empty(), info)
}

/// `acc`, followed by the lines that identify a display.
pub open spec fn identity_onto(acc: Seq<char>, info: DisplayInfoView) -> Seq<char> {
    acc + "Persistent screen id: "@ + info.persistent_id + "\n"@ + "Contextual screen id: "@
        + decimal(info.contextual_id as nat) + "\n"@ + "Serial screen id: s"@ + decimal(
        info.serial as nat,
    ) + "\n"@ + "Type: "@ + info.display_type + "\n"@
}

/// `acc`, followed by the lines that give a display's current mode.
pub open spec fn mode_summary_onto(acc: Seq<char>, info: DisplayInfoView) -> Seq<char> {
    acc + "Resolution: "@ + decimal(info.width as nat) + "x"@ + decimal(info.height as nat)
        + "\n"@ + "Hertz: "@ + whole_text(info.hz) + "\n"@ + "Color Depth: "@ + decimal(
        info.depth as nat,
    ) + "\n"@ + "Scaling: "@ + (if info.scaling {
        "on"@
    } else {
        "off"@
    }) + "\n"@
}

/// `acc`, followed by the line that gives a display's position.
pub open spec fn origin_onto(acc: Seq<char>, info: DisplayInfoView) -> Seq<char> {
    acc + "Origin: ("@ + signed_decimal(info.x as int) + ","@ + signed_decimal(info.y as int)
        + ")"@ + (if info.is_main {
        " - main display"@
    } else {
        Seq::empty()
    }) + "\n"@
}

/// The hint that follows the rotation of a rotated display.
pub open spec fn rotation_hint(info: DisplayInfoView) -> Seq<char> {
    if info.rotation != 0 {
        " - rotate internal screen example (may crash computer, but will be rotated after rebooting): "@
            + "`macdisp \"id:"@ + info.persistent_id + " degree:90\"`"@
    } else {
        Seq::empty()
    }
}

/// `acc`, followed by the lines that give a display's rotation and whether it is enabled.
pub open spec fn rotation_onto(acc: Seq<char>, info: DisplayInfoView) -> Seq<char> {
    acc + "Rotation: "@ + decimal(info.rotation as nat) + rotation_hint(info) + "\n"@
        + "Enabled: "@ + bool_text(info.enabled) + "\n"@
}

/// `acc`, followed by the line of the mode at place `index` of a catalog.
pub open spec fn mode_line_onto(
    acc: Seq<char>,
    index: nat,
    mode: DisplayMode,
    current_number: u32,
) -> Seq<char> {
    acc + "  mode "@ + decimal(index) + ": res:"@ + decimal(mode.width as nat) + "x"@ + decimal(
        mode.height as nat,
    ) + " hz:"@ + whole_text(mode.refresh_rate) + " color_depth:"@ + decimal(mode.depth as nat)
        + (if mode.is_scaled {
        " scaling:on"@
    } else {
        Seq::empty()
    }) + (if mode.mode_number == current_number {
        " <-- current mode"@
    } else {
        Seq::empty()
    }) + "\n"@
}

/// `acc`, followed by the lines of the modes of a catalog, each with its
/// place in the catalog.
pub open spec fn mode_lines_onto(acc: Seq<char>, modes: Seq<DisplayMode>, current_number: u32) -> Seq<
    char,
>
    decreases modes.len(),
{
    if modes.len() == 0 {
        acc
    } else {
        mode_line_onto(
            mode_lines_onto(acc, modes.drop_last(), current_number),
            (modes.len() - 1) as nat,
            modes.last(),
            current_number,
        )
    }
}

/// `acc`, followed by the list of a display's modes under its heading;
/// `acc` alone for a display without modes.
pub open spec fn catalog_onto(acc: Seq<char>, report: DisplayReportView) -> Seq<char> {
    if report.modes.len() == 0 {
        acc
    } else {
        mode_lines_onto(
            acc + "Resolutions for rotation "@ + decimal(report.info.rotation as nat) + ":\n"@,
            report.modes,
            report.info.mode_number,
        )
    }
}

/// `acc`, followed by everything that the listing says of one display.
pub open spec fn display_onto(acc: Seq<char>, report: DisplayReportView) -> Seq<char> {
    catalog_onto(
        rotation_onto(
            origin_onto(
                mode_summary_onto(identity_onto(acc, report.info), report.info),
                report.info,
            ),
            report.info,
        ),
        report,
    ) + "\n"@
}

/// `acc`, followed by what the listing says of each display in turn.
pub open spec fn displays_onto(acc: Seq<char>, reports: Seq<DisplayReportView>) -> Seq<char>
    decreases reports.len(),
{
    if reports.len() == 0 {
        acc
    } else {
        display_onto(displays_onto(acc, reports.drop_last()), reports.last())
    }
}

/// `acc`, followed by the commands of the displays, each in quotation marks
/// and with a space behind it.
pub open spec fn commands_onto(acc: Seq<char>, reports: Seq<DisplayReportView>) -> Seq<char>
    decreases reports.len(),
{
    if reports.len() == 0 {
        acc
    } else {
        command_onto(commands_onto(acc, reports.drop_last()) + "\""@, reports.last().info)
            + "\" "@
    }
}

/// The note that opens the listing where the display services are missing.
pub open spec fn services_text(services_available: bool) -> Seq<char> {
    if services_available {
        Seq::empty()
    } else {
        "DisplayServices available: false\n"@ + "Using CoreGraphics API (official Apple API)\n\n"@
    }
}

/// The listing of all displays: a note on the display services where they
/// are missing, a block for each display, and the command that restores the
/// arrangement listed.
pub open spec fn listing_text(services_available: bool, reports: Seq<DisplayReportView>) -> Seq<
    char,
> {
    commands_onto(
        displays_onto(services_text(services_available), reports)
            + "Execute the command below to set your screens to the current arrangement."@
            + " If screen ids are switching, please run `macdisp --help` for info on using contextual or serial ids instead of persistent ids.\n\n"@
            + "macdisp "@,
        reports,
    ) + "\n"@
}

/// `acc`, followed by the heading of the table of modes.
pub open spec fn table_heading_onto(acc: Seq<char>) -> Seq<char> {
    acc + pad_right("Mode #"@, 8) + " "@ + pad_right("Resolution"@, 12) + " "@ + pad_right(
        "Hz"@,
        10,
    ) + " "@ + pad_right("Depth"@, 8) + " "@ + pad_right("Safe"@, 10) + " "@ + pad_right(
        "Current"@,
        6,
    ) + "\n"@
}

/// `acc`, followed by the row of `mode` in the table of modes; `starred`
/// marks the current mode.
pub open spec fn table_row_onto(acc: Seq<char>, mode: DisplayMode, starred: bool) -> Seq<char> {
    acc + pad_right(decimal(mode.mode_number as nat), 8) + " "@ + pad_right(
        decimal(mode.width as nat) + "x"@ + decimal(mode.height as nat),
        12,
    ) + " "@ + pad_right(two_place_text(mode.refresh_rate), 10) + " "@ + pad_right(
        decimal(mode.depth as nat) + "-bit"@,
        8,
    ) + " "@ + pad_right(
        if mode.is_safe_for_hardware {
            "yes"@
        } else {
            "no"@
        },
        10,
    ) + " "@ + pad_right(
        if starred {
            "*"@
        } else {
            Seq::empty()
        },
        6,
    ) + "\n"@
}

/// Whether `mode` is the current mode.
pub open spec fn is_current(mode: DisplayMode, current: Option<DisplayMode>) -> bool {
    match current {
        Some(c) => c.mode_number == mode.mode_number,
        None => false,
    }
}

/// `acc`, followed by the rows of the table of modes.
pub open spec fn table_rows_onto(
    acc: Seq<char>,
    modes: Seq<DisplayMode>,
    current: Option<DisplayMode>,
) -> Seq<char>
    decreases modes.len(),
{
    if modes.len() == 0 {
        acc
    } else {
        table_row_onto(
            table_rows_onto(acc, modes.drop_last(), current),
            modes.last(),
            is_current(modes.last(), current),
        )
    }
}

/// The line that names the current mode; nothing where none is known.
pub open spec fn current_mode_text(current: Option<DisplayMode>) -> Seq<char> {
    match current {
        Some(mode) => "Current mode is: "@ + decimal(mode.mode_number as nat) + " ("@ + decimal(
            mode.width as nat,
        ) + "x"@ + decimal(mode.height as nat) + " @ "@ + whole_text(mode.refresh_rate)
            + "Hz)\n"@,
        None => Seq::empty(),
    }
}

/// The table of the modes of display `display_id`, with the lines that follow it.
pub open spec fn modes_text(
    display_id: u32,
    modes: Seq<DisplayMode>,
    current: Option<DisplayMode>,
    services_available: bool,
) -> Seq<char> {
    table_rows_onto(
        table_heading_onto(
            "Available modes for display "@ + decimal(display_id as nat) + ":\n\n"@,
        ) + run_of('-', 70) + "\n"@,
        modes,
        current,
    ) + "\n* = current mode\n"@ + "\nDisplayServices available: "@ + bool_text(
        services_available,
    ) + "\n"@ + current_mode_text(current)
}

/// Appends the part of a command that names the mirror target.
fn push_mirror(out: &mut String, mirror_of: Option<u32>)
    ensures
        final(out)@ == old(out)@ + mirror_text(mirror_of),
{
    match mirror_of {
        Some(target) => {
            out.append("mirror:");
            push_decimal(out, target as u64);
            out.append(" ");
        },
        None => {},
    }
    assert(out@ =~= old(out)@ + mirror_text(mirror_of));
}

/// Appends `yes` or `no`, as `which` says.
fn push_choice(out: &mut String, which: bool, yes: &str, no: &str)
    ensures
        final(out)@ == old(out)@ + (if which {
            yes@
        } else {
            no@
        }),
{
    if which {
        out.append(yes);
    } else {
        out.append(no);
    }
}

/// Appends `yes` where `which` holds.
fn push_if(out: &mut String, which: bool, yes: &str)
    ensures
        final(out)@ == old(out)@ + (if which {
            yes@
        } else {
            Seq::empty()
        }),
{
    if which {
        out.append(yes);
    } else {
        assert(out@ =~= old(out)@ + Seq::<char>::empty());
    }
}

/// Appends `true` or `false`.
fn push_bool(out: &mut String, value: bool)
    ensures
        final(out)@ == old(out)@ + bool_text(value),
{
    push_choice(out, value, "true", "false");
}

/// Appends the command of a display.
fn push_command(out: &mut String, info: &DisplayInfo)
    ensures
        final(out)@ == command_onto(old(out)@, info@),
{
    out.append("id:");
    out.append(info.persistent_id.as_str());
    out.append(" res:");
    push_decimal(out, info.width as u64);
    out.append("x");
    push_decimal(out, info.height as u64);
    out.append(" hz:");
    info.hz.push_whole(out);
    out.append(" color_depth:");
    push_decimal(out, info.depth as u64);
    out.append(" ");
    push_choice(out, info.scaling, "scaling:on ", "scaling:off ");
    out.append("origin:(");
    push_signed(out, info.x as i64);
    out.append(",");
    push_signed(out, info.y as i64);
    out.append(") ");
    out.append("degree:");
    push_decimal(out, info.rotation as u64);
    out.append(" ");
    push_mirror(out, info.mirror_of);
    push_choice(out, info.enabled, "enabled:true", "enabled:false");
}

/// The configuration string that sets a display to the state that `info` describes.
pub fn format_display_command(info: &DisplayInfo) -> (command: String)
    ensures
        command@ == command_text(info@),
{
    let mut command = String::new();
    push_command(&mut command, info);
    command
}

/// Appends the lines that identify a display.
fn push_identity(out: &mut String, info: &DisplayInfo)
    ensures
        final(out)@ == identity_onto(old(out)@, info@),
{
    out.append("Persistent screen id: ");
    out.append(info.persistent_id.as_str());
    out.append("\n");
    out.append("Contextual screen id: ");
    push_decimal(out, info.contextual_id as u64);
    out.append("\n");
    out.append("Serial screen id: s");
    push_decimal(out, info.serial as u64);
    out.append("\n");
    out.append("Type: ");
    out.append(info.display_type.as_str());
    out.append("\n");
}

/// Appends the lines that give a display's current mode.
fn push_mode_summary(out: &mut String, info: &DisplayInfo)
    ensures
        final(out)@ == mode_summary_onto(old(out)@, info@),
{
    out.append("Resolution: ");
    push_decimal(out, info.width as u64);
    out.append("x");
    push_decimal(out, info.height as u64);
    out.append("\n");
    out.append("Hertz: ");
    info.hz.push_whole(out);
    out.append("\n");
    out.append("Color Depth: ");
    push_decimal(out, info.depth as u64);
    out.append("\n");
    out.append("Scaling: ");
    push_choice(out, info.scaling, "on", "off");
    out.append("\n");
}

/// Appends the line that gives a display's position.
fn push_origin(out: &mut String, info: &DisplayInfo)
    ensures
        final(out)@ == origin_onto(old(out)@, info@),
{
    out.append("Origin: (");
    push_signed(out, info.x as i64);
    out.append(",");
    push_signed(out, info.y as i64);
    out.append(")");
    push_if(out, info.is_main, " - main display");
    out.append("\n");
}

/// Appends the hint that follows the rotation of a rotated display.
fn push_rotation_hint(out: &mut String, info: &DisplayInfo)
    ensures
        final(out)@ == old(out)@ + rotation_hint(info@),
{
    if info.rotation != 0 {
        out.append(
            " - rotate internal screen example (may crash computer, but will be rotated after rebooting): ",
        );
        out.append("`macdisp \"id:");
        out.append(info.persistent_id.as_str());
        out.append(" degree:90\"`");
    }
    assert(out@ =~= old(out)@ + rotation_hint(info@));
}

/// Appends the lines that give a display's rotation and whether it is enabled.
fn push_rotation(out: &mut String, info: &DisplayInfo)
    ensures
        final(out)@ == rotation_onto(old(out)@, info@),
{
    out.append("Rotation: ");
    push_decimal(out, info.rotation as u64);
    push_rotation_hint(out, info);
    out.append("\n");
    out.append("Enabled: ");
    push_bool(out, info.enabled);
    out.append("\n");
}

/// Appends the line of the mode at place `index` of a catalog.
fn push_mode_line(out: &mut String, index: usize, mode: &DisplayMode, current_number: u32)
    ensures
        final(out)@ == mode_line_onto(old(out)@, index as nat, *mode, current_number),
{
    out.append("  mode ");
    push_decimal(out, index as u64);
    out.append(": res:");
    push_decimal(out, mode.width as u64);
    out.append("x");
    push_decimal(out, mode.height as u64);
    out.append(" hz:");
    mode.refresh_rate.push_whole(out);
    out.append(" color_depth:");
    push_decimal(out, mode.depth as u64);
    push_if(out, mode.is_scaled, " scaling:on");
    push_if(out, mode.mode_number == current_number, " <-- current mode");
    out.append("\n");
}

/// Appends the list of a display's modes under its heading.
fn push_catalog(out: &mut String, report: &DisplayReport)
    ensures
        final(out)@ == catalog_onto(old(out)@, report@),
{
    if report.modes.len() == 0 {
        return ;
    }
    out.append("Resolutions for rotation ");
    push_decimal(out, report.info.rotation as u64);
    out.append(":\n");
    let ghost head = out@;
    let mut i: usize = 0;
    assert(report.modes@.take(0) =~= Seq::<DisplayMode>::empty());
    while i < report.modes.len()
        invariant
            i <= report.modes.len(),
            out@ == mode_lines_onto(head, report.modes@.take(i as int), report.info.mode_number),
        decreases report.modes.len() - i,
    {
        push_mode_line(out, i, &report.modes[i], report.info.mode_number);
        proof {
            assert(report.modes@.take(i + 1).drop_last() =~= report.modes@.take(i as int));
            assert(report.modes@.take(i + 1).last() == report.modes@[i as int]);
        }
        i += 1;
    }
    assert(report.modes@.take(i as int) =~= report.modes@);
}

/// Appends everything that the listing says of one display.
fn push_display(out: &mut String, report: &DisplayReport)
    ensures
        final(out)@ == display_onto(old(out)@, report@),
{
    push_identity(out, &report.info);
    push_mode_summary(out, &report.info);
    push_origin(out, &report.info);
    push_rotation(out, &report.info);
    push_catalog(out, report);
    out.append("\n");
}

/// The listing of all displays.
pub fn list_displays(services_available: bool, displays: &Vec<DisplayReport>) -> (listing: String)
    ensures
        listing@ == listing_text(services_available, report_views(displays@)),
{
    let ghost reports = report_views(displays@);
    let mut out = String::new();
    if !services_available {
        out.append("DisplayServices available: false\n");
        out.append("Using CoreGraphics API (official Apple API)\n\n");
    }
    assert(out@ =~= services_text(services_available));
    let mut i: usize = 0;
    assert(reports.take(0) =~= Seq::<DisplayReportView>::empty());
    while i < displays.len()
        invariant
            i <= displays.len(),
            reports == report_views(displays@),
            out@ == displays_onto(services_text(services_available), reports.take(i as int)),
        decreases displays.len() - i,
    {
        push_display(&mut out, &displays[i]);
        proof {
            assert(reports.take(i + 1).drop_last() =~= reports.take(i as int));
            assert(reports.take(i + 1).last() == displays@[i as int]@);
        }
        i += 1;
    }
    assert(reports.take(i as int) =~= reports);
    out.append("Execute the command below to set your screens to the current arrangement.");
    out.append(
        " If screen ids are switching, please run `macdisp --help` for info on using contextual or serial ids instead of persistent ids.\n\n",
    );
    out.append("macdisp ");
    let ghost head = out@;
    let mut k: usize = 0;
    while k < displays.len()
        invariant
            k <= displays.len(),
            reports == report_views(displays@),
            out@ == commands_onto(head, reports.take(k as int)),
        decreases displays.len() - k,
    {
        out.append("\"");
        push_command(&mut out, &displays[k].info);
        out.append("\" ");
        proof {
            assert(reports.take(k + 1).drop_last() =~= reports.take(k as int));
            assert(reports.take(k + 1).last() == displays@[k as int]@);
        }
        k += 1;
    }
    assert(reports.take(k as int) =~= reports);
    out.append("\n");
    out
}

/// Appends `count` times the one character of `unit`.
fn push_run(out: &mut String, unit: &str, count: usize)
    requires
        unit@.len() == 1,
    ensures
        final(out)@ == old(out)@ + run_of(unit@[0], count as nat),
{
    let mut done: usize = 0;
    assert(out@ =~= old(out)@ + run_of(unit@[0], 0));
    while done < count
        invariant
            done <= count,
            unit@.len() == 1,
            out@ == old(out)@ + run_of(unit@[0], done as nat),
        decreases count - done,
    {
        out.append(unit);
        done += 1;
        assert(out@ =~= old(out)@ + run_of(unit@[0], done as nat));
    }
}

/// Appends `cell`, with spaces behind it up to `width` characters.
fn push_padded(out: &mut String, cell: &str, width: usize)
    ensures
        final(out)@ == old(out)@ + pad_right(cell@, width as nat),
{
    let length: usize = cell.unicode_len();
    out.append(cell);
    if length < width {
        proof {
            reveal_strlit(" ");
        }
        push_run(out, " ", width - length);
        assert(out@ =~= old(out)@ + pad_right(cell@, width as nat));
    }
}

/// Appends the heading of the table of modes.
fn push_table_heading(out: &mut String)
    ensures
        final(out)@ == table_heading_onto(old(out)@),
{
    push_padded(out, "Mode #", 8);
    out.append(" ");
    push_padded(out, "Resolution", 12);
    out.append(" ");
    push_padded(out, "Hz", 10);
    out.append(" ");
    push_padded(out, "Depth", 8);
    out.append(" ");
    push_padded(out, "Safe", 10);
    out.append(" ");
    push_padded(out, "Current", 6);
    out.append("\n");
}

/// Appends `yes` where `which` holds, and spaces up to `width` characters.
fn push_padded_choice(out: &mut String, which: bool, yes: &str, width: usize)
    ensures
        final(out)@ == old(out)@ + pad_right(
            if which {
                yes@
            } else {
                Seq::empty()
            },
            width as nat,
        ),
{
    if which {
        push_padded(out, yes, width);
    } else {
        proof {
            reveal_strlit("");
            assert(""@ =~= Seq::<char>::empty());
        }
        push_padded(out, "", width);
    }
}

/// The resolution of `mode`, as it stands in the table.
fn size_cell(mode: &DisplayMode) -> (cell: String)
    ensures
        cell@ == decimal(mode.width as nat) + "x"@ + decimal(mode.height as nat),
{
    let mut cell = String::new();
    push_decimal(&mut cell, mode.width as u64);
    cell.append("x");
    push_decimal(&mut cell, mode.height as u64);
    assert(cell@ =~= decimal(mode.width as nat) + "x"@ + decimal(mode.height as nat));
    cell
}

/// `number`, as it stands in the table.
fn number_cell(number: u32) -> (cell: String)
    ensures
        cell@ == decimal(number as nat),
{
    let mut cell = String::new();
    push_decimal(&mut cell, number as u64);
    assert(cell@ =~= decimal(number as nat));
    cell
}

/// The refresh rate of `mode`, as it stands in the table.
fn rate_cell(mode: &DisplayMode) -> (cell: String)
    ensures
        cell@ == two_place_text(mode.refresh_rate),
{
    let mut cell = String::new();
    mode.refresh_rate.push_two_places(&mut cell);
    assert(cell@ =~= two_place_text(mode.refresh_rate));
    cell
}

/// The colour depth of `mode`, as it stands in the table.
fn depth_cell(mode: &DisplayMode) -> (cell: String)
    ensures
        cell@ == decimal(mode.depth as nat) + "-bit"@,
{
    let mut cell = String::new();
    push_decimal(&mut cell, mode.depth as u64);
    cell.append("-bit");
    assert(cell@ =~= decimal(mode.depth as nat) + "-bit"@);
    cell
}

/// Appends the row of `mode` in the table of modes.
fn push_table_row(out: &mut String, mode: &DisplayMode, starred: bool)
    ensures
        final(out)@ == table_row_onto(old(out)@, *mode, starred),
{
    let number = number_cell(mode.mode_number);
    let size = size_cell(mode);
    let rate = rate_cell(mode);
    let depth = depth_cell(mode);
    push_padded(out, number.as_str(), 8);
    out.append(" ");
    push_padded(out, size.as_str(), 12);
    out.append(" ");
    push_padded(out, rate.as_str(), 10);
    out.append(" ");
    push_padded(out, depth.as_str(), 8);
    out.append(" ");
    if mode.is_safe_for_hardware {
        push_padded(out, "yes", 10);
    } else {
        push_padded(out, "no", 10);
    }
    out.append(" ");
    push_padded_choice(out, starred, "*", 6);
    out.append("\n");
}

/// Appends the line that names the current mode.
fn push_current_mode(out: &mut String, current: Option<DisplayMode>)
    ensures
        final(out)@ == old(out)@ + current_mode_text(current),
{
    match current {
        Some(mode) => {
            out.append("Current mode is: ");
            push_decimal(out, mode.mode_number as u64);
            out.append(" (");
            push_decimal(out, mode.width as u64);
            out.append("x");
            push_decimal(out, mode.height as u64);
            out.append(" @ ");
            mode.refresh_rate.push_whole(out);
            out.append("Hz)\n");
        },
        None => {},
    }
    assert(out@ =~= old(out)@ + current_mode_text(current));
}

/// The table of the modes of display `display_id`, with the lines that follow it.
pub fn show_modes(
    display_id: u32,
    modes: &Vec<DisplayMode>,
    current: Option<DisplayMode>,
    services_available: bool,
) -> (table: String)
    ensures
        table@ == modes_text(display_id, modes@, current, services_available),
{
    let mut out = String::new();
    out.append("Available modes for display ");
    push_decimal(&mut out, display_id as u64);
    out.append(":\n\n");
    assert(out@ =~= "Available modes for display "@ + decimal(display_id as nat) + ":\n\n"@);
    push_table_heading(&mut out);
    proof {
        reveal_strlit("-");
    }
    push_run(&mut out, "-", 70);
    out.append("\n");
    let ghost head = out@;
    let mut i: usize = 0;
    assert(modes@.take(0) =~= Seq::<DisplayMode>::empty());
    while i < modes.len()
        invariant
            i <= modes.len(),
            out@ == table_rows_onto(head, modes@.take(i as int), current),
        decreases modes.len() - i,
    {
        let starred = match current {
            Some(c) => c.mode_number == modes[i].mode_number,
            None => false,
        };
        push_table_row(&mut out, &modes[i], starred);
        proof {
            assert(modes@.take(i + 1).drop_last() =~= modes@.take(i as int));
            assert(modes@.take(i + 1).last() == modes@[i as int]);
        }
        i += 1;
    }
    assert(modes@.take(i as int) =~= modes@);
    out.append("\n* = current mode\n");
    out.append("\nDisplayServices available: ");
    push_bool(&mut out, services_available);
    out.append("\n");
    push_current_mode(&mut out, current);
    out
}

} // verus!
