//! What the tray menu shows.
use vstd::prelude::*;

use crate::text::{chars_of, decimal, decimal_text, first_line, first_line_end, lemma_find_from, occurs_at};
use crate::watcher::{state_label, Status, WatchState};

verus! {

/// Longest menu label, in characters, before it is elided; keeps the menu a
/// sane width.
pub const MAX_LABEL: usize = 60;

/// A message as a single menu label: its first line, cut to `MAX_LABEL`
/// characters with an ellipsis when it is longer.
pub open spec fn elided(message: Seq<char>) -> Seq<char> {
    let line = first_line(message);
    if line.len() > MAX_LABEL {
        line.take(MAX_LABEL - 1).push('…')
    } else {
        line
    }
}

/// The status line at the top of the menu.
pub open spec fn status_text(status: Status) -> Seq<char> {
    match status.last_error {
        Some(error) if status.state == WatchState::Failed => "Error: "@ + elided(error@),
        _ => state_label(status.state) + " — "@ + decimal(status.moved as nat) + " moved"@,
    }
}

/// Menu labels are single-line and shouldn't stretch the menu across the
/// screen; an error chain or a long path would do both.
pub fn elide(message: &str) -> (r: String)
    ensures
        r@ == elided(message@),
{
    let v = chars_of(message);
    let end = first_line_end(&v);
    if end > MAX_LABEL {
        let head = String::from_str(message.substring_char(0, MAX_LABEL - 1));
        let r = head.concat("…");
        proof {
            reveal_strlit("…");
            assert(v@.subrange(0, end as int).take(MAX_LABEL - 1) =~= v@.subrange(
                0,
                MAX_LABEL - 1,
            ));
        }
        assert(r@ =~= first_line(message@).take(MAX_LABEL - 1).push('…'));
        r
    } else {
        String::from_str(message.substring_char(0, end))
    }
}

/// The status line at the top of the menu: the error when the watcher
/// failed, otherwise its state and how many files it has moved.
pub fn status_line(status: &Status) -> (r: String)
    ensures
        r@ == status_text(*status),
{
    match &status.last_error {
        Some(error) => {
            if status.state == WatchState::Failed {
                return String::from_str("Error: ").concat(elide(error.as_str()).as_str());
            }
        },
        None => {},
    }
    let label = status.state.label();
    let count = decimal_text(status.moved);
    label.concat(" — ").concat(count.as_str()).concat(" moved")
}


/// A label made from a message is a single line of at most `MAX_LABEL`
/// characters, whatever the message.
pub proof fn law_elided_is_one_short_line(message: Seq<char>)
    ensures
        elided(message).len() <= MAX_LABEL,
        !elided(message).contains('\n'),
{
    let nl = seq!['\n'];
    lemma_find_from(message, nl, 0);
    let line = first_line(message);
    assert forall|j: int| 0 <= j < line.len() implies line[j] != '\n' by {
        assert(line[j] == message[j]);
        if message[j] == '\n' {
            assert(message.subrange(j, j + 1) =~= nl);
            assert(occurs_at(message, nl, j));
        }
    }
    if line.len() > MAX_LABEL {
        let e = elided(message);
        assert forall|j: int| 0 <= j < e.len() implies e[j] != '\n' by {
            if j < MAX_LABEL - 1 {
                assert(e[j] == line[j]);
            }
        }
    }
}

/// The labels of the rows that show recent log lines, newest first: row `r`
/// shows line `lines.len() - 1 - r`, elided; only the first `shown` rows
/// are visible.
pub open spec fn recent_row_labels(lines: Seq<String>, shown: int) -> Seq<Seq<char>> {
    let n = if shown < lines.len() {
        shown
    } else {
        lines.len() as int
    };
    Seq::new(n as nat, |r: int| elided(lines[lines.len() - 1 - r]@))
}

/// The labels of the rows that show recent log lines, newest first, for the
/// `shown` rows that are visible.
pub fn recent_labels(lines: &Vec<String>, shown: usize) -> (r: Vec<String>)
    ensures
        r@.len() == recent_row_labels(lines@, shown as int).len(),
        forall|k: int| 0 <= k < r@.len() ==> (#[trigger] r@[k])@ == recent_row_labels(
            lines@,
            shown as int,
        )[k],
{
    let n = if shown < lines.len() {
        shown
    } else {
        lines.len()
    };
    let mut r: Vec<String> = Vec::new();
    let mut row: usize = 0;
    while row < n
        invariant
            n <= lines.len(),
            n as int == recent_row_labels(lines@, shown as int).len(),
            row <= n,
            r@.len() == row,
            forall|k: int| 0 <= k < row ==> (#[trigger] r@[k])@ == recent_row_labels(
                lines@,
                shown as int,
            )[k],
        decreases n - row,
    {
        r.push(elide(lines[lines.len() - 1 - row].as_str()));
        row = row + 1;
    }
    r
}

/// What the tray remembers between refreshes, to redraw only what changed.
pub struct TrayMemory {
    /// The status generation last drawn; `u64::MAX` before the first draw.
    pub last_generation: u64,
    /// The state whose icon is showing, once one is.
    pub last_state: Option<WatchState>,
}

/// What a refresh of the tray changes; `None` leaves that part as it is.
#[derive(Debug, PartialEq, Eq)]
pub struct TrayRefresh {
    /// The new text of the status line.
    pub status_text: Option<String>,
    /// The new position of the "Watch enabled" checkbox.
    pub checked: Option<bool>,
    /// The state to draw the icon for.
    pub icon: Option<WatchState>,
}

impl TrayMemory {
    /// The memory of a tray that has drawn nothing yet.
    pub fn new() -> (m: Self)
        ensures
            m.last_generation == u64::MAX,
            m.last_state is None,
    {
        TrayMemory { last_generation: u64::MAX, last_state: None }
    }

    /// Decide what to redraw for the current status: nothing unless the
    /// status changed since the last draw; then the status line, the
    /// checkbox where it no longer matches the switch (the watcher may have
    /// stopped on its own), and the icon where the state changed.
    pub fn refresh(&mut self, status: &Status, enabled: bool, checked: bool) -> (r: TrayRefresh)
        ensures
            status.generation == old(self).last_generation ==> r.status_text is None
                && r.checked is None && r.icon is None && *final(self) == *old(self),
            status.generation != old(self).last_generation ==> {
                &&& r.status_text matches Some(t) && t@ == status_text(*status)
                &&& r.checked == if checked != enabled {
                    Some(enabled)
                } else {
                    None
                }
                &&& r.icon == if old(self).last_state != Some(status.state) {
                    Some(status.state)
                } else {
                    None
                }
                &&& final(self).last_generation == status.generation
                &&& final(self).last_state == Some(status.state)
            },
    {
        if status.generation == self.last_generation {
            return TrayRefresh { status_text: None, checked: None, icon: None };
        }
        self.last_generation = status.generation;
        let status_text = Some(status_line(status));
        let checked = if checked != enabled {
            Some(enabled)
        } else {
            None
        };
        let icon = match self.last_state {
            Some(s) => if s == status.state {
                None
            } else {
                Some(status.state)
            },
            None => Some(status.state),
        };
        self.last_state = Some(status.state);
        TrayRefresh { status_text, checked, icon }
    }
}

/// The tray icon's width and height, in pixels.
pub const ICON_SIZE: u32 = 32;

/// The colour of the icon's background in each state: blue while scanning or
/// watching, grey while paused, amber after a failure.
pub open spec fn accent(state: WatchState) -> (u8, u8, u8) {
    match state {
        WatchState::Watching | WatchState::Scanning => (0x4c, 0x8d, 0xf6),
        WatchState::Paused => (0x8a, 0x8a, 0x8a),
        WatchState::Failed => (0xe0, 0x8b, 0x2c),
    }
}

/// The larger of two integers.
pub open spec fn max_int(a: int, b: int) -> int {
    if a >= b {
        a
    } else {
        b
    }
}

/// The pixel lies on the rounded square background: 2 pixels in from each
/// edge, with corners of radius 7.
pub open spec fn on_background(x: int, y: int) -> bool {
    let dx = max_int(max_int(9 - x, x - 22), 0);
    let dy = max_int(max_int(9 - y, y - 22), 0);
    2 <= x < 30 && 2 <= y < 30 && dx * dx + dy * dy <= 49
}

/// The pixel lies on the white glyph: a downward arrow (a shaft and a head)
/// into a tray.
pub open spec fn on_glyph(x: int, y: int) -> bool {
    ||| 8 <= y < 17 && 14 <= x < 18
    ||| 17 <= y < 23 && 16 - (6 - (y - 17)) <= x < 16 + (6 - (y - 17))
    ||| 24 <= y < 26 && 9 <= x < 23
}

/// Channel `c` (red, green, blue, alpha) of the pixel at `(x, y)`: the glyph
/// in white over the background in the state's colour, on a transparent
/// field.
pub open spec fn icon_channel(state: WatchState, x: int, y: int, c: int) -> u8 {
    if on_glyph(x, y) {
        0xff
    } else if on_background(x, y) {
        if c == 0 {
            accent(state).0
        } else if c == 1 {
            accent(state).1
        } else if c == 2 {
            accent(state).2
        } else {
            0xff
        }
    } else {
        0
    }
}

/// Byte `i` of the icon as row-major RGBA: pixel `i / 4` (column
/// `(i / 4) % 32`, row `i / 128`), channel `i % 4`.
pub open spec fn icon_byte(state: WatchState, i: int) -> u8 {
    icon_channel(state, (i / 4) % 32, i / 128, i % 4)
}

fn max_i32(a: i32, b: i32) -> (r: i32)
    ensures
        r == max_int(a as int, b as int),
{
    if a >= b {
        a
    } else {
        b
    }
}

fn icon_channel_exec(state: WatchState, x: i32, y: i32, c: i32) -> (r: u8)
    requires
        0 <= x < 32,
        0 <= y < 32,
        0 <= c < 4,
    ensures
        r == icon_channel(state, x as int, y as int, c as int),
{
    let glyph = (8 <= y && y < 17 && 14 <= x && x < 18) || (17 <= y && y < 23 && 16 - (6 - (y
        - 17)) <= x && x < 16 + (6 - (y - 17))) || (24 <= y && y < 26 && 9 <= x && x < 23);
    if glyph {
        return 0xff;
    }
    let dx = max_i32(max_i32(9 - x, x - 22), 0);
    let dy = max_i32(max_i32(9 - y, y - 22), 0);
    assert(0 <= dx <= 32 && 0 <= dy <= 32);
    assert(dx * dx <= 1024 && dy * dy <= 1024) by (nonlinear_arith)
        requires
            0 <= dx <= 32,
            0 <= dy <= 32,
    ;
    let background = 2 <= x && x < 30 && 2 <= y && y < 30 && dx * dx + dy * dy <= 49;
    if !background {
        return 0;
    }
    let (r, g, b): (u8, u8, u8) = match state {
        WatchState::Watching | WatchState::Scanning => (0x4c, 0x8d, 0xf6),
        WatchState::Paused => (0x8a, 0x8a, 0x8a),
        WatchState::Failed => (0xe0, 0x8b, 0x2c),
    };
    if c == 0 {
        r
    } else if c == 1 {
        g
    } else if c == 2 {
        b
    } else {
        0xff
    }
}

/// The tray icon for a state, as raw row-major RGBA: 32 by 32 pixels, four
/// bytes each.
///
/// Drawn here rather than shipped as an image, so recolouring it per state
/// costs nothing.
pub fn icon_rgba(state: WatchState) -> (v: Vec<u8>)
    ensures
        v.len() == ICON_SIZE * ICON_SIZE * 4,
        forall|i: int| 0 <= i < v.len() ==> #[trigger] v@[i] == icon_byte(state, i),
{
    let total: usize = 32 * 32 * 4;
    let mut v: Vec<u8> = Vec::new();
    let mut i: usize = 0;
    while i < total
        invariant
            total == 4096,
            i <= total,
            v.len() == i,
            forall|j: int| 0 <= j < i ==> #[trigger] v@[j] == icon_byte(state, j),
        decreases total - i,
    {
        let x = ((i / 4) % 32) as i32;
        let y = (i / 128) as i32;
        let c = (i % 4) as i32;
        v.push(icon_channel_exec(state, x, y, c));
        i = i + 1;
    }
    v
}

} // verus!
