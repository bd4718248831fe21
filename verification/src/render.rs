//! The table renderer: composes the filtered connections and their
//! resolved identities into styled text spans — fixed-width,
//! left-justified columns, a fixed color per protocol and per
//! connection state, and a background tint on alternate rows. The spans
//! say exactly what to print and how to style it; writing them to the
//! terminal happens outside the library.

use vstd::prelude::*;
use crate::portown::ConnectionRecord;
use crate::portown::ConnectionRecordView;
use crate::portown::Protocol;
use crate::resolve::IdentityView;
use crate::resolve::ProcessIdentity;
use crate::resolve::Resolver;
use crate::resolve::resolved_identity;
use crate::text::padded;
use crate::text::pad_right;
use crate::text::repeated;
use crate::text::str_eq;

verus! {

/// The fixed palette the table draws from.
#[derive(Debug, Clone, Copy, PartialEq, Eq, Structural)]
pub enum PaletteColor {
    White,
    Green,
    Yellow,
    Red,
    Magenta,
    Cyan,
    Blue,
}

/// One styled piece of a table row: its text, its foreground color,
/// whether it is bold, and whether it sits on the alternate-row tint.
pub struct StyledSpan {
    pub text: String,
    pub color: PaletteColor,
    pub bold: bool,
    pub shaded: bool,
}

/// The mathematical image of a `StyledSpan`.
pub struct SpanView {
    pub text: Seq<char>,
    pub color: PaletteColor,
    pub bold: bool,
    pub shaded: bool,
}

impl View for StyledSpan {
    type V = SpanView;

    open spec fn view(&self) -> SpanView {
        SpanView { text: self.text@, color: self.color, bold: self.bold, shaded: self.shaded }
    }
}

/// The column title text the table opens with.
pub open spec fn header_text() -> Seq<char> {
    "\n"@ + padded("PROTOCOL"@, 10) + " "@ + padded("LOCAL ADDRESS"@, 25) + " "@ + padded(
        "FOREIGN ADDRESS"@,
        25,
    ) + " "@ + padded("STATE"@, 15) + " "@ + padded("PID"@, 8) + " "@ + padded("PROCESS"@, 20)
        + " "@ + "PATH"@ + "\n"@
}

/// The full-width rule under the column titles.
pub open spec fn separator_text() -> Seq<char> {
    repeated('─', 120) + "\n"@
}

/// The color of a protocol column entry.
pub open spec fn protocol_color_spec(p: Protocol) -> PaletteColor {
    match p {
        Protocol::Tcp => PaletteColor::Green,
        Protocol::Udp => PaletteColor::Yellow,
    }
}

/// The text of a protocol column entry.
pub open spec fn protocol_label_spec(p: Protocol) -> Seq<char> {
    match p {
        Protocol::Tcp => "TCP"@,
        Protocol::Udp => "UDP"@,
    }
}

/// The color of a state column entry. Every state text gets a color:
/// the recognized states each a fixed one, anything else the neutral
/// default.
pub open spec fn state_color_spec(state: Seq<char>) -> PaletteColor {
    if state == "LISTENING"@ {
        PaletteColor::Yellow
    } else if state == "ESTABLISHED"@ {
        PaletteColor::Green
    } else if state == "CLOSE_WAIT"@ {
        PaletteColor::Red
    } else if state == "TIME_WAIT"@ {
        PaletteColor::Magenta
    } else {
        PaletteColor::White
    }
}

/// Whether a row at this position carries the alternate-row tint.
pub open spec fn row_shaded(index: nat) -> bool {
    index % 2 == 1
}

/// The styled spans of one table row, in print order: protocol, local
/// and foreign address, state, process identifier, process name, and
/// the path closing the line.
pub open spec fn row_spans(r: ConnectionRecordView, id: IdentityView, index: nat) -> Seq<
    SpanView,
> {
    let sh = row_shaded(index);
    seq![
        SpanView {
            text: padded(protocol_label_spec(r.protocol), 10) + " "@,
            color: protocol_color_spec(r.protocol),
            bold: true,
            shaded: sh,
        },
        SpanView {
            text: padded(r.local_address, 25) + " "@,
            color: PaletteColor::Cyan,
            bold: false,
            shaded: sh,
        },
        SpanView {
            text: padded(r.foreign_address, 25) + " "@,
            color: PaletteColor::Blue,
            bold: false,
            shaded: sh,
        },
        SpanView {
            text: padded(r.state, 15) + " "@,
            color: state_color_spec(r.state),
            bold: false,
            shaded: sh,
        },
        SpanView {
            text: padded(r.owner_pid, 8) + " "@,
            color: PaletteColor::White,
            bold: false,
            shaded: sh,
        },
        SpanView {
            text: padded(id.name, 20) + " "@,
            color: PaletteColor::Yellow,
            bold: false,
            shaded: sh,
        },
        SpanView { text: id.path + "\n"@, color: PaletteColor::White, bold: false, shaded: sh },
    ]
}

/// The text of a protocol column entry.
pub fn protocol_label(p: &Protocol) -> (r: &'static str)
    ensures
        r@ == protocol_label_spec(*p),
{
    match p {
        Protocol::Tcp => "TCP",
        Protocol::Udp => "UDP",
    }
}

/// The color of a state column entry; defined for every state text.
pub fn state_color(state: &str) -> (c: PaletteColor)
    ensures
        c == state_color_spec(state@),
{
    if str_eq(state, "LISTENING") {
        PaletteColor::Yellow
    } else if str_eq(state, "ESTABLISHED") {
        PaletteColor::Green
    } else if str_eq(state, "CLOSE_WAIT") {
        PaletteColor::Red
    } else if str_eq(state, "TIME_WAIT") {
        PaletteColor::Magenta
    } else {
        PaletteColor::White
    }
}

/// The color of a protocol column entry.
pub fn protocol_color(p: &Protocol) -> (c: PaletteColor)
    ensures
        c == protocol_color_spec(*p),
{
    match p {
        Protocol::Tcp => PaletteColor::Green,
        Protocol::Udp => PaletteColor::Yellow,
    }
}

/// A column value left-justified to `width` with the single-space
/// column gap appended.
fn column(s: &str, width: usize) -> (r: String)
    ensures
        r@ == padded(s@, width as nat) + " "@,
{
    let mut r = pad_right(s, width);
    r.append(" ");
    r
}

/// The header line of the table.
pub fn render_header() -> (r: String)
    ensures
        r@ == header_text(),
{
    let mut r = String::new();
    r.append("\n");
    let c1 = column("PROTOCOL", 10);
    r.append(c1.as_str());
    let c2 = column("LOCAL ADDRESS", 25);
    r.append(c2.as_str());
    let c3 = column("FOREIGN ADDRESS", 25);
    r.append(c3.as_str());
    let c4 = column("STATE", 15);
    r.append(c4.as_str());
    let c5 = column("PID", 8);
    r.append(c5.as_str());
    let c6 = column("PROCESS", 20);
    r.append(c6.as_str());
    r.append("PATH");
    r.append("\n");
    proof {
        assert(r@ =~= header_text());
    }
    r
}

/// The full-width rule under the column titles.
pub fn render_separator() -> (r: String)
    ensures
        r@ == separator_text(),
{
    let mut r = String::new();
    let mut i: usize = 0;
    proof {
        reveal_strlit("─");
        assert(r@ =~= repeated('─', 0));
    }
    while i < 120
        invariant
            i <= 120,
            r@ =~= repeated('─', i as nat),
        decreases 120 - i,
    {
        r.append("─");
        i = i + 1;
        proof {
            reveal_strlit("─");
            assert("─"@ =~= seq!['─']);
            assert(r@ =~= repeated('─', i as nat));
        }
    }
    r.append("\n");
    proof {
        assert(r@ =~= separator_text());
    }
    r
}

/// The styled spans of one table row.
pub fn render_connection_row(rec: &ConnectionRecord, id: &ProcessIdentity, index: usize) -> (spans:
    Vec<StyledSpan>)
    ensures
        spans@.map_values(|s: StyledSpan| s@) == row_spans(rec@, id@, index as nat),
{
    let sh = index % 2 == 1;
    let mut spans: Vec<StyledSpan> = Vec::new();
    spans.push(
        StyledSpan {
            text: column(protocol_label(&rec.protocol), 10),
            color: protocol_color(&rec.protocol),
            bold: true,
            shaded: sh,
        },
    );
    spans.push(
        StyledSpan {
            text: column(rec.local_address.as_str(), 25),
            color: PaletteColor::Cyan,
            bold: false,
            shaded: sh,
        },
    );
    spans.push(
        StyledSpan {
            text: column(rec.foreign_address.as_str(), 25),
            color: PaletteColor::Blue,
            bold: false,
            shaded: sh,
        },
    );
    spans.push(
        StyledSpan {
            text: column(rec.state.as_str(), 15),
            color: state_color(rec.state.as_str()),
            bold: false,
            shaded: sh,
        },
    );
    spans.push(
        StyledSpan {
            text: column(rec.owner_pid.as_str(), 8),
            color: PaletteColor::White,
            bold: false,
            shaded: sh,
        },
    );
    spans.push(
        StyledSpan {
            text: column(id.name.as_str(), 20),
            color: PaletteColor::Yellow,
            bold: false,
            shaded: sh,
        },
    );
    let mut path_text = id.path.clone();
    path_text.append("\n");
    spans.push(
        StyledSpan { text: path_text, color: PaletteColor::White, bold: false, shaded: sh },
    );
    proof {
        assert(spans@.map_values(|s: StyledSpan| s@) =~= row_spans(rec@, id@, index as nat));
    }
    spans
}

/// The styled rows of the whole table: one row per connection, in
/// snapshot order, each joined with the identity its process
/// identifier resolves to and tinted on alternate rows.
pub fn render_rows(records: &Vec<ConnectionRecord>, resolver: &Resolver) -> (rows: Vec<
    Vec<StyledSpan>,
>)
    ensures
        rows@.len() == records@.len(),
        forall|i: int|
            0 <= i < records@.len() ==> (#[trigger] rows@[i])@.map_values(|s: StyledSpan| s@)
                == row_spans(
                records@[i]@,
                resolved_identity(resolver.entries(), records@[i]@.owner_pid),
                i as nat,
            ),
{
    let mut rows: Vec<Vec<StyledSpan>> = Vec::new();
    let mut i: usize = 0;
    while i < records.len()
        invariant
            i <= records@.len(),
            rows@.len() == i,
            forall|k: int|
                0 <= k < i ==> (#[trigger] rows@[k])@.map_values(|s: StyledSpan| s@) == row_spans(
                    records@[k]@,
                    resolved_identity(resolver.entries(), records@[k]@.owner_pid),
                    k as nat,
                ),
        decreases records@.len() - i,
    {
        let rec = &records[i];
        let id = resolver.identity_for(rec.owner_pid.as_str());
        let spans = render_connection_row(rec, &id, i);
        rows.push(spans);
        i = i + 1;
    }
    rows
}

/// Rendering totality: every state text — the recognized states and
/// anything else — maps to a palette color, the unrecognized ones to
/// the neutral default; and both protocols map to their fixed colors.
pub proof fn lemma_rendering_totality(state: Seq<char>, p: Protocol)
    ensures
        state_color_spec(state) == PaletteColor::Yellow || state_color_spec(state)
            == PaletteColor::Green || state_color_spec(state) == PaletteColor::Red
            || state_color_spec(state) == PaletteColor::Magenta || state_color_spec(state)
            == PaletteColor::White,
        !(state == "LISTENING"@ || state == "ESTABLISHED"@ || state == "CLOSE_WAIT"@ || state
            == "TIME_WAIT"@) ==> state_color_spec(state) == PaletteColor::White,
        protocol_color_spec(p) == PaletteColor::Green || protocol_color_spec(p)
            == PaletteColor::Yellow,
{
}

} // verus!
