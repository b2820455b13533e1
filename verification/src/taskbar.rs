//! Placing the compact monitor inside the Windows taskbar.
//!
//! The caller finds the taskbar's windows and reads their rectangles; the
//! functions here decide where the monitor and the shrunk task list go, and
//! what has to be moved back when the monitor leaves the taskbar.  All
//! coordinates are in pixels; a child window's position is relative to its
//! parent.
use vstd::prelude::*;

verus! {

/// `x` is representable as an `i32`.
pub open spec fn fits_i32(x: int) -> bool {
    i32::MIN <= x <= i32::MAX
}

/// Integer division rounding toward zero, as Rust's `/` on integers does.
pub open spec fn div_toward_zero(a: int, d: int) -> int {
    if a >= 0 {
        a / d
    } else {
        -((-a) / d)
    }
}

/// The larger of `a` and `b`.
pub open spec fn larger(a: int, b: int) -> int {
    if a >= b {
        a
    } else {
        b
    }
}

/// The monitor's top edge inside a bar `bar_height` pixels high: centred,
/// nudged down by a twentieth of the bar (at least one pixel), never above
/// the bar.
pub open spec fn overlay_top(bar_height: int, monitor_height: int) -> int {
    larger(div_toward_zero(bar_height - monitor_height, 2) + larger(div_toward_zero(bar_height, 20), 1), 0)
}

/// `overlay_top` can be computed in `i32`.
pub open spec fn overlay_top_fits(bar_height: int, monitor_height: int) -> bool {
    &&& fits_i32(bar_height - monitor_height)
    &&& fits_i32(div_toward_zero(bar_height - monitor_height, 2) + larger(div_toward_zero(bar_height, 20), 1))
}

fn top_in_bar(bar_height: i32, monitor_height: i32) -> (y: i32)
    requires
        overlay_top_fits(bar_height as int, monitor_height as int),
    ensures
        y == overlay_top(bar_height as int, monitor_height as int),
{
    let nudge = if bar_height / 20 > 1 { bar_height / 20 } else { 1 };
    let y = (bar_height - monitor_height) / 2 + nudge;
    if y > 0 { y } else { 0 }
}

/// The width left to the task list, and the monitor's position, in a
/// horizontal taskbar of the classic layout.
pub open spec fn horizontal_layout(task_list_width: int, bar_height: int, monitor_width: int, monitor_height: int) -> (int, int, int) {
    let remaining = larger(task_list_width - monitor_width, 0);
    (remaining, remaining + 2, overlay_top(bar_height, monitor_height))
}

/// Where the monitor goes in a horizontal classic taskbar: the task list
/// gives up the monitor's width (but never shrinks below nothing), and the
/// monitor sits two pixels after it.  Returns the task list's new width and
/// the monitor's position.
pub fn horizontal_placement(task_list_width: i32, bar_height: i32, monitor_width: i32, monitor_height: i32) -> (r: (
    i32,
    i32,
    i32,
))
    requires
        fits_i32(task_list_width - monitor_width),
        fits_i32(larger(task_list_width - monitor_width, 0) + 2),
        overlay_top_fits(bar_height as int, monitor_height as int),
    ensures
        (r.0 as int, r.1 as int, r.2 as int) == horizontal_layout(
            task_list_width as int,
            bar_height as int,
            monitor_width as int,
            monitor_height as int,
        ),
{
    let diff = task_list_width - monitor_width;
    let remaining_width = if diff > 0 { diff } else { 0 };
    let y = top_in_bar(bar_height, monitor_height);
    (remaining_width, remaining_width + 2, y)
}

/// A Start button further than this from the taskbar's left edge means the
/// taskbar's icons are centred.
pub const CENTERED_START_LEFT: i32 = 120;

/// Where the monitor goes in a centred Windows 11 taskbar: after the
/// widgets button at the far left.
pub const CENTERED_OVERLAY_X: i32 = 180;

/// Where the notification area is assumed to start when it cannot be found:
/// this far before the taskbar's right end.
pub const DEFAULT_NOTIFY_INSET: i32 = 280;

/// Gap between the monitor and the notification area.
pub const NOTIFY_GAP: i32 = 8;

/// The monitor's position in a Windows 11 taskbar.
pub open spec fn windows11_position(
    taskbar_width: int,
    taskbar_height: int,
    start_left: int,
    notify_x: Option<i32>,
    monitor_width: int,
    monitor_height: int,
) -> (int, int) {
    let notify: int = match notify_x {
        Some(n) => n as int,
        None => taskbar_width - DEFAULT_NOTIFY_INSET,
    };
    let x = if start_left > CENTERED_START_LEFT {
        CENTERED_OVERLAY_X as int
    } else {
        larger(notify - monitor_width - NOTIFY_GAP, 0)
    };
    (x, overlay_top(taskbar_height, monitor_height))
}

/// `windows11_position` can be computed in `i32`.
pub open spec fn windows11_position_fits(
    taskbar_width: int,
    taskbar_height: int,
    start_left: int,
    notify_x: Option<i32>,
    monitor_width: int,
    monitor_height: int,
) -> bool {
    let notify: int = match notify_x {
        Some(n) => n as int,
        None => taskbar_width - DEFAULT_NOTIFY_INSET,
    };
    &&& fits_i32(taskbar_width - DEFAULT_NOTIFY_INSET)
    &&& start_left <= CENTERED_START_LEFT ==> fits_i32(notify - monitor_width) && fits_i32(
        notify - monitor_width - NOTIFY_GAP,
    )
    &&& overlay_top_fits(taskbar_height, monitor_height)
}

/// Where the monitor goes in a Windows 11 taskbar.  With centred icons it
/// takes the empty space on the left; otherwise it sits just before the
/// notification area (`notify_x`, relative to the taskbar; estimated when
/// unknown).
pub fn windows11_placement(
    taskbar_width: i32,
    taskbar_height: i32,
    start_left: i32,
    notify_x: Option<i32>,
    monitor_width: i32,
    monitor_height: i32,
) -> (r: (i32, i32))
    requires
        windows11_position_fits(
            taskbar_width as int,
            taskbar_height as int,
            start_left as int,
            notify_x,
            monitor_width as int,
            monitor_height as int,
        ),
    ensures
        (r.0 as int, r.1 as int) == windows11_position(
            taskbar_width as int,
            taskbar_height as int,
            start_left as int,
            notify_x,
            monitor_width as int,
            monitor_height as int,
        ),
{
    let fallback = taskbar_width - DEFAULT_NOTIFY_INSET;
    let notify = match notify_x {
        Some(n) => n,
        None => fallback,
    };
    let is_centered = start_left > CENTERED_START_LEFT;
    let x = if is_centered {
        CENTERED_OVERLAY_X
    } else {
        let candidate = notify - monitor_width - NOTIFY_GAP;
        if candidate > 0 { candidate } else { 0 }
    };
    let y = top_in_bar(taskbar_height, monitor_height);
    (x, y)
}

/// A window's rectangle in screen coordinates.
#[derive(Clone, Copy, Debug, PartialEq, Eq, Structural)]
pub struct Rect {
    pub left: i32,
    pub top: i32,
    pub right: i32,
    pub bottom: i32,
}

impl Rect {
    /// `right - left`.
    pub open spec fn spec_width(self) -> int {
        self.right - self.left
    }

    /// `bottom - top`.
    pub open spec fn spec_height(self) -> int {
        self.bottom - self.top
    }

    /// Width and height can be computed in `i32`.
    pub open spec fn measurable(self) -> bool {
        fits_i32(self.spec_width()) && fits_i32(self.spec_height())
    }

    pub fn width(&self) -> (w: i32)
        requires
            fits_i32(self.spec_width()),
        ensures
            w == self.spec_width(),
    {
        self.right - self.left
    }

    pub fn height(&self) -> (h: i32)
        requires
            fits_i32(self.spec_height()),
        ensures
            h == self.spec_height(),
    {
        self.bottom - self.top
    }
}

/// Move and resize `window` (a window handle) to `x`, `y`, `width`,
/// `height`, relative to its parent.
#[derive(Clone, Copy, Debug, PartialEq, Eq, Structural)]
pub struct WindowMove {
    pub window: isize,
    pub x: i32,
    pub y: i32,
    pub width: i32,
    pub height: i32,
}

/// The move that puts `window` at `(x, y)` with the given size.
pub open spec fn move_to(window: isize, x: int, y: int, width: int, height: int) -> WindowMove {
    WindowMove { window, x: x as i32, y: y as i32, width: width as i32, height: height as i32 }
}

/// The offset of the Start button from the taskbar's left edge; the
/// taskbar's own rectangle stands in when the button's cannot be read.
pub open spec fn start_left(taskbar: Rect, start: Option<Rect>) -> int {
    match start {
        Some(r) => r.left - taskbar.left,
        None => 0,
    }
}

/// The notification area's offset from the taskbar's left edge, if known.
pub open spec fn notify_offset(taskbar: Rect, notify: Option<Rect>) -> Option<i32> {
    match notify {
        Some(r) => Some((r.left - taskbar.left) as i32),
        None => None,
    }
}

/// The geometry of a Windows 11 taskbar allows placing the monitor without
/// leaving `i32`.
pub open spec fn windows11_geometry_fits(taskbar: Rect, start: Option<Rect>, notify: Option<Rect>, width: i32, height: i32) -> bool {
    &&& taskbar.measurable()
    &&& fits_i32(start_left(taskbar, start))
    &&& notify matches Some(r) ==> fits_i32(r.left - taskbar.left)
    &&& windows11_position_fits(
        taskbar.spec_width(),
        taskbar.spec_height(),
        start_left(taskbar, start),
        notify_offset(taskbar, notify),
        width as int,
        height as int,
    )
}

/// The monitor's move in a Windows 11 taskbar.
pub open spec fn windows11_move(overlay: isize, taskbar: Rect, start: Option<Rect>, notify: Option<Rect>, width: i32, height: i32) -> WindowMove {
    let (x, y) = windows11_position(
        taskbar.spec_width(),
        taskbar.spec_height(),
        start_left(taskbar, start),
        notify_offset(taskbar, notify),
        width as int,
        height as int,
    );
    move_to(overlay, x, y, width as int, height as int)
}

/// Where to put the monitor (`overlay`, `width` by `height`) in a Windows 11
/// taskbar, given the rectangles of the taskbar, of its Start button and of
/// its notification area (each `None` when it could not be read).
pub fn position_windows11(
    overlay: isize,
    taskbar: Rect,
    start: Option<Rect>,
    notify: Option<Rect>,
    width: i32,
    height: i32,
) -> (m: WindowMove)
    requires
        windows11_geometry_fits(taskbar, start, notify, width, height),
    ensures
        m == windows11_move(overlay, taskbar, start, notify, width, height),
{
    let start_rect = match start {
        Some(r) => r,
        None => taskbar,
    };
    let start_left = start_rect.left - taskbar.left;
    let notify_x = match notify {
        Some(r) => Some(r.left - taskbar.left),
        None => None,
    };
    let (x, y) = windows11_placement(taskbar.width(), taskbar.height(), start_left, notify_x, width, height);
    WindowMove { window: overlay, x, y, width, height }
}

/// How the task list and the monitor are moved in a classic taskbar.
#[derive(Clone, Copy, Debug, PartialEq, Eq, Structural)]
pub struct ClassicLayout {
    pub task_list_move: WindowMove,
    pub overlay_move: WindowMove,
}

/// A taskbar at least as wide as it is high runs horizontally.
pub open spec fn is_horizontal(taskbar: Rect) -> bool {
    taskbar.spec_width() >= taskbar.spec_height()
}

/// The layout of a classic taskbar with the monitor inside it.  A
/// horizontal taskbar's task list gives up width at its right end and the
/// monitor follows it; a vertical one's gives up height at its bottom and
/// the monitor sits there, centred across the bar.
pub open spec fn classic_moves(
    overlay: isize,
    task_list: isize,
    taskbar: Rect,
    rebar: Rect,
    task_list_rect: Rect,
    width: i32,
    height: i32,
) -> ClassicLayout {
    if is_horizontal(taskbar) {
        let left = task_list_rect.left - rebar.left;
        let (remaining, x, y) = horizontal_layout(task_list_rect.spec_width(), rebar.spec_height(), width as int, height as int);
        ClassicLayout {
            task_list_move: move_to(task_list, left, 0, remaining, task_list_rect.spec_height()),
            overlay_move: move_to(overlay, left + x, y, width as int, height as int),
        }
    } else {
        let top = task_list_rect.top - rebar.top;
        let remaining = larger(task_list_rect.spec_height() - height, 0);
        let x = larger(div_toward_zero(rebar.spec_width() - width, 2), 0);
        ClassicLayout {
            task_list_move: move_to(task_list, 0, top, task_list_rect.spec_width(), remaining),
            overlay_move: move_to(overlay, x, top + remaining, width as int, height as int),
        }
    }
}

/// The classic layout can be computed in `i32`.
pub open spec fn classic_geometry_fits(taskbar: Rect, rebar: Rect, task_list_rect: Rect, width: i32, height: i32) -> bool {
    &&& taskbar.measurable()
    &&& task_list_rect.measurable()
    &&& if is_horizontal(taskbar) {
        let left = task_list_rect.left - rebar.left;
        let (remaining, x, y) = horizontal_layout(task_list_rect.spec_width(), rebar.spec_height(), width as int, height as int);
        &&& fits_i32(rebar.spec_height())
        &&& fits_i32(left)
        &&& fits_i32(task_list_rect.spec_width() - width)
        &&& fits_i32(x)
        &&& overlay_top_fits(rebar.spec_height(), height as int)
        &&& fits_i32(left + x)
    } else {
        let top = task_list_rect.top - rebar.top;
        let remaining = larger(task_list_rect.spec_height() - height, 0);
        &&& fits_i32(rebar.spec_width())
        &&& fits_i32(top)
        &&& fits_i32(task_list_rect.spec_height() - height)
        &&& fits_i32(rebar.spec_width() - width)
        &&& fits_i32(top + remaining)
    }
}

/// How to fit the monitor (`overlay`, `width` by `height`) into a classic
/// taskbar whose task list (`task_list`, at `task_list_rect`) lives in the
/// rebar at `rebar`.
pub fn classic_layout(
    overlay: isize,
    task_list: isize,
    taskbar: Rect,
    rebar: Rect,
    task_list_rect: Rect,
    width: i32,
    height: i32,
) -> (l: ClassicLayout)
    requires
        classic_geometry_fits(taskbar, rebar, task_list_rect, width, height),
    ensures
        l == classic_moves(overlay, task_list, taskbar, rebar, task_list_rect, width, height),
{
    if taskbar.width() >= taskbar.height() {
        let left = task_list_rect.left - rebar.left;
        let (remaining_width, x, y) = horizontal_placement(task_list_rect.width(), rebar.height(), width, height);
        ClassicLayout {
            task_list_move: WindowMove {
                window: task_list,
                x: left,
                y: 0,
                width: remaining_width,
                height: task_list_rect.height(),
            },
            overlay_move: WindowMove { window: overlay, x: left + x, y, width, height },
        }
    } else {
        let top = task_list_rect.top - rebar.top;
        let shrunk = task_list_rect.height() - height;
        let remaining_height = if shrunk > 0 { shrunk } else { 0 };
        let half = (rebar.width() - width) / 2;
        let x = if half > 0 { half } else { 0 };
        ClassicLayout {
            task_list_move: WindowMove {
                window: task_list,
                x: 0,
                y: top,
                width: task_list_rect.width(),
                height: remaining_height,
            },
            overlay_move: WindowMove { window: overlay, x, y: top + remaining_height, width, height },
        }
    }
}

/// Window style bits that the monitor trades when it moves into the
/// taskbar: it stops being a pop-up and becomes a child window.
pub const WS_POPUP: u32 = 0x8000_0000;

pub const WS_CHILD: u32 = 0x4000_0000;

/// The monitor's window style while it lives in the taskbar.
pub fn child_window_style(style: isize) -> (r: isize)
    ensures
        r == (style & !(WS_POPUP as isize)) | (WS_CHILD as isize),
{
    (style & !(WS_POPUP as isize)) | (WS_CHILD as isize)
}

/// Which taskbar the monitor was placed in, and for the classic one what
/// must be put back.
#[derive(Clone, Copy, Debug, PartialEq, Eq, Structural)]
pub enum TaskbarPlacement {
    Classic { task_list: isize, task_list_rect: Rect, rebar_rect: Rect },
    Windows11,
}

/// Everything needed to take the monitor out of the taskbar again.
#[derive(Clone, Copy, Debug, PartialEq, Eq, Structural)]
pub struct TaskbarSession {
    /// The monitor's window.
    pub overlay: isize,
    /// The monitor's rectangle before it moved into the taskbar.
    pub overlay_rect: Rect,
    /// The monitor's window style before it moved into the taskbar.
    pub overlay_style: isize,
    pub placement: TaskbarPlacement,
}

impl TaskbarSession {
    /// Restoring can be computed in `i32`.
    pub open spec fn restorable(self) -> bool {
        &&& self.overlay_rect.measurable()
        &&& self.placement matches TaskbarPlacement::Classic { task_list_rect, rebar_rect, .. } ==> {
            &&& task_list_rect.measurable()
            &&& fits_i32(task_list_rect.left - rebar_rect.left)
            &&& fits_i32(task_list_rect.top - rebar_rect.top)
        }
    }

    /// The moves that put everything back: the monitor to where it was,
    /// then, in a classic taskbar, the task list to its full size.
    pub open spec fn spec_restore_moves(self) -> Seq<WindowMove> {
        let overlay_back = move_to(
            self.overlay,
            self.overlay_rect.left as int,
            self.overlay_rect.top as int,
            self.overlay_rect.spec_width(),
            self.overlay_rect.spec_height(),
        );
        match self.placement {
            TaskbarPlacement::Classic { task_list, task_list_rect, rebar_rect } => seq![
                overlay_back,
                move_to(
                    task_list,
                    task_list_rect.left - rebar_rect.left,
                    task_list_rect.top - rebar_rect.top,
                    task_list_rect.spec_width(),
                    task_list_rect.spec_height(),
                ),
            ],
            TaskbarPlacement::Windows11 => seq![overlay_back],
        }
    }

    pub fn restore_moves(&self) -> (moves: Vec<WindowMove>)
        requires
            self.restorable(),
        ensures
            moves@ == self.spec_restore_moves(),
    {
        let mut moves: Vec<WindowMove> = Vec::new();
        moves.push(
            WindowMove {
                window: self.overlay,
                x: self.overlay_rect.left,
                y: self.overlay_rect.top,
                width: self.overlay_rect.width(),
                height: self.overlay_rect.height(),
            },
        );
        if let TaskbarPlacement::Classic { task_list, task_list_rect, rebar_rect } = self.placement {
            moves.push(
                WindowMove {
                    window: task_list,
                    x: task_list_rect.left - rebar_rect.left,
                    y: task_list_rect.top - rebar_rect.top,
                    width: task_list_rect.width(),
                    height: task_list_rect.height(),
                },
            );
        }
        assert(moves@ =~= self.spec_restore_moves());
        moves
    }
}

/// Whether the monitor lives in the taskbar, and if so how it got there.
pub struct TaskbarMode {
    session: Option<TaskbarSession>,
}

impl View for TaskbarMode {
    type V = Option<TaskbarSession>;

    closed spec fn view(&self) -> Option<TaskbarSession> {
        self.session
    }
}

impl Default for TaskbarMode {
    fn default() -> (m: Self)
        ensures
            m@ is None,
    {
        TaskbarMode { session: None }
    }
}

impl TaskbarMode {
    /// Records that the monitor moved into the taskbar.  Enabling an
    /// enabled mode keeps the session it already has.
    pub fn enable(&mut self, session: TaskbarSession)
        ensures
            final(self)@ == (if old(self)@ is Some { old(self)@ } else { Some(session) }),
    {
        if self.session.is_none() {
            self.session = Some(session);
        }
    }

    /// The monitor's window, when it sits in a Windows 11 taskbar and must
    /// be placed anew after a resize; a classic taskbar keeps its layout.
    pub fn resize(&self) -> (overlay: Option<isize>)
        ensures
            overlay == (match self@ {
                Some(s) => if s.placement is Windows11 { Some(s.overlay) } else { None },
                None => None,
            }),
    {
        match &self.session {
            Some(session) => match session.placement {
                TaskbarPlacement::Windows11 => Some(session.overlay),
                TaskbarPlacement::Classic { .. } => None,
            },
            None => None,
        }
    }

    /// Leaves the taskbar: the mode is off afterwards, and the session that
    /// was open (whose `restore_moves` put things back) is handed out.
    pub fn disable(&mut self) -> (closed: Option<TaskbarSession>)
        ensures
            final(self)@ is None,
            closed == old(self)@,
    {
        self.session.take()
    }

    pub fn is_enabled(&self) -> (on: bool)
        ensures
            on == self@ is Some,
    {
        self.session.is_some()
    }
}

/// The monitor is never placed above or left of the bar it sits in, and a
/// shrunk task list never gets a negative width.
pub proof fn lemma_placement_inside_bar(
    task_list_width: int,
    bar_height: int,
    taskbar_width: int,
    start_left: int,
    notify_x: Option<i32>,
    monitor_width: int,
    monitor_height: int,
)
    ensures
        overlay_top(bar_height, monitor_height) >= 0,
        horizontal_layout(task_list_width, bar_height, monitor_width, monitor_height).0 >= 0,
        windows11_position(taskbar_width, bar_height, start_left, notify_x, monitor_width, monitor_height).0 >= 0,
{
}

/// In a centred Windows 11 taskbar the monitor always takes the empty
/// space at the left; otherwise it ends a gap before the notification area
/// (or at the bar's left edge if there is no room).
pub proof fn lemma_windows11_position_rule(
    taskbar_width: int,
    taskbar_height: int,
    start_left: int,
    notify_x: i32,
    monitor_width: int,
    monitor_height: int,
)
    ensures
        start_left > CENTERED_START_LEFT ==> windows11_position(
            taskbar_width,
            taskbar_height,
            start_left,
            Some(notify_x),
            monitor_width,
            monitor_height,
        ).0 == CENTERED_OVERLAY_X,
        start_left <= CENTERED_START_LEFT && notify_x - monitor_width - NOTIFY_GAP >= 0 ==> windows11_position(
            taskbar_width,
            taskbar_height,
            start_left,
            Some(notify_x),
            monitor_width,
            monitor_height,
        ).0 + monitor_width + NOTIFY_GAP == notify_x,
{
}

/// In a classic taskbar the monitor never covers the task list: in a
/// horizontal bar it starts two pixels after the shrunk task list ends, in
/// a vertical bar right below it.
pub proof fn lemma_classic_monitor_clear_of_task_list(
    overlay: isize,
    task_list: isize,
    taskbar: Rect,
    rebar: Rect,
    task_list_rect: Rect,
    width: i32,
    height: i32,
)
    requires
        classic_geometry_fits(taskbar, rebar, task_list_rect, width, height),
    ensures
        ({
            let l = classic_moves(overlay, task_list, taskbar, rebar, task_list_rect, width, height);
            &&& is_horizontal(taskbar) ==> l.overlay_move.x == l.task_list_move.x + l.task_list_move.width + 2
                && l.task_list_move.width >= 0
            &&& !is_horizontal(taskbar) ==> l.overlay_move.y == l.task_list_move.y + l.task_list_move.height
                && l.task_list_move.height >= 0
        }),
{
}

fn fits(x: i64) -> (ok: bool)
    ensures
        ok == fits_i32(x as int),
{
    x >= i32::MIN as i64 && x <= i32::MAX as i64
}

fn toward_zero(a: i64, d: i64) -> (q: i64)
    requires
        d > 0,
        a > i64::MIN,
    ensures
        q == div_toward_zero(a as int, d as int),
{
    if a >= 0 {
        a / d
    } else {
        -((-a) / d)
    }
}

fn larger_of(a: i64, b: i64) -> (m: i64)
    ensures
        m == larger(a as int, b as int),
{
    if a >= b { a } else { b }
}

fn overlay_top_ok(bar_height: i64, monitor_height: i64) -> (ok: bool)
    requires
        fits_i32(bar_height as int),
        fits_i32(monitor_height as int),
    ensures
        ok == overlay_top_fits(bar_height as int, monitor_height as int),
{
    let diff = bar_height - monitor_height;
    fits(diff) && fits(toward_zero(diff, 2) + larger_of(toward_zero(bar_height, 20), 1))
}

/// Whether `position_windows11` can place the monitor in this geometry
/// without leaving `i32`.
pub fn windows11_geometry_ok(taskbar: Rect, start: Option<Rect>, notify: Option<Rect>, width: i32, height: i32) -> (ok: bool)
    ensures
        ok == windows11_geometry_fits(taskbar, start, notify, width, height),
{
    let taskbar_width = taskbar.right as i64 - taskbar.left as i64;
    let taskbar_height = taskbar.bottom as i64 - taskbar.top as i64;
    if !(fits(taskbar_width) && fits(taskbar_height)) {
        return false;
    }
    let start_left = match start {
        Some(r) => r.left as i64 - taskbar.left as i64,
        None => 0,
    };
    if !fits(start_left) {
        return false;
    }
    let notify_x: i64 = match notify {
        Some(r) => {
            let x = r.left as i64 - taskbar.left as i64;
            if !fits(x) {
                return false;
            }
            x
        },
        None => taskbar_width - DEFAULT_NOTIFY_INSET as i64,
    };
    if !fits(taskbar_width - DEFAULT_NOTIFY_INSET as i64) {
        return false;
    }
    if start_left <= CENTERED_START_LEFT as i64 {
        if !(fits(notify_x - width as i64) && fits(notify_x - width as i64 - NOTIFY_GAP as i64)) {
            return false;
        }
    }
    overlay_top_ok(taskbar_height, height as i64)
}

/// Whether `classic_layout` can lay out this geometry without leaving
/// `i32`.
pub fn classic_geometry_ok(taskbar: Rect, rebar: Rect, task_list_rect: Rect, width: i32, height: i32) -> (ok: bool)
    ensures
        ok == classic_geometry_fits(taskbar, rebar, task_list_rect, width, height),
{
    let taskbar_width = taskbar.right as i64 - taskbar.left as i64;
    let taskbar_height = taskbar.bottom as i64 - taskbar.top as i64;
    let rebar_width = rebar.right as i64 - rebar.left as i64;
    let rebar_height = rebar.bottom as i64 - rebar.top as i64;
    let list_width = task_list_rect.right as i64 - task_list_rect.left as i64;
    let list_height = task_list_rect.bottom as i64 - task_list_rect.top as i64;
    if !(fits(taskbar_width) && fits(taskbar_height) && fits(list_width) && fits(list_height)) {
        return false;
    }
    if taskbar_width >= taskbar_height {
        if !fits(rebar_height) {
            return false;
        }
        let left = task_list_rect.left as i64 - rebar.left as i64;
        let shrunk = list_width - width as i64;
        let x = larger_of(shrunk, 0) + 2;
        fits(left) && fits(shrunk) && fits(x) && overlay_top_ok(rebar_height, height as i64) && fits(left + x)
    } else {
        if !fits(rebar_width) {
            return false;
        }
        let top = task_list_rect.top as i64 - rebar.top as i64;
        let shrunk = list_height - height as i64;
        fits(top) && fits(shrunk) && fits(rebar_width - width as i64) && fits(top + larger_of(shrunk, 0))
    }
}

impl TaskbarSession {
    /// Whether `restore_moves` can be computed without leaving `i32`.
    pub fn is_restorable(&self) -> (ok: bool)
        ensures
            ok == self.restorable(),
    {
        let r = self.overlay_rect;
        if !(fits(r.right as i64 - r.left as i64) && fits(r.bottom as i64 - r.top as i64)) {
            return false;
        }
        match self.placement {
            TaskbarPlacement::Classic { task_list_rect, rebar_rect, .. } => {
                fits(task_list_rect.right as i64 - task_list_rect.left as i64) && fits(
                    task_list_rect.bottom as i64 - task_list_rect.top as i64,
                ) && fits(task_list_rect.left as i64 - rebar_rect.left as i64) && fits(
                    task_list_rect.top as i64 - rebar_rect.top as i64,
                )
            },
            TaskbarPlacement::Windows11 => true,
        }
    }
}

/// The screen rectangle a move gives a window whose parent's rectangle is
/// `parent`.
pub open spec fn placed_rect(m: WindowMove, parent: Rect) -> (int, int, int, int) {
    (m.x + parent.left, m.y + parent.top, m.x + parent.left + m.width, m.y + parent.top + m.height)
}

/// Restoring undoes the placement: the monitor, detached from the taskbar,
/// goes back to exactly the screen rectangle it had before, and in a
/// classic taskbar the task list, which the layout shrank, goes back to
/// exactly its full rectangle inside the rebar.  A Windows 11 session moves
/// only the monitor.
pub proof fn lemma_restore_returns_windows_to_their_rectangles(
    session: TaskbarSession,
    taskbar: Rect,
    width: i32,
    height: i32,
)
    requires
        session.restorable(),
    ensures
        placed_rect(session.spec_restore_moves()[0], Rect { left: 0, top: 0, right: 0, bottom: 0 }) == (
            session.overlay_rect.left as int,
            session.overlay_rect.top as int,
            session.overlay_rect.right as int,
            session.overlay_rect.bottom as int,
        ),
        session.spec_restore_moves()[0].window == session.overlay,
        session.placement is Windows11 ==> session.spec_restore_moves().len() == 1,
        session.placement matches TaskbarPlacement::Classic { task_list, task_list_rect, rebar_rect } ==> {
            let back = session.spec_restore_moves()[1];
            &&& session.spec_restore_moves().len() == 2
            &&& back.window == task_list
            &&& placed_rect(back, rebar_rect) == (
                task_list_rect.left as int,
                task_list_rect.top as int,
                task_list_rect.right as int,
                task_list_rect.bottom as int,
            )
            &&& classic_geometry_fits(taskbar, rebar_rect, task_list_rect, width, height) && width >= 0 && height >= 0
                && task_list_rect.spec_width() >= 0 && task_list_rect.spec_height() >= 0 ==> {
                let shrunk = classic_moves(session.overlay, task_list, taskbar, rebar_rect, task_list_rect, width, height).task_list_move;
                &&& shrunk.window == task_list
                &&& shrunk.width <= back.width
                &&& shrunk.height <= back.height
            }
        },
{
}

/// The monitor's top edge in a bar, spelled out: half the bar's spare
/// height (rounded toward zero, as Rust divides), plus a twentieth of the
/// bar's height but at least one pixel, and never above the bar's top.
pub proof fn lemma_overlay_top_rule(bar_height: int, monitor_height: int)
    ensures
        overlay_top(bar_height, monitor_height) >= 0,
        ({
            let d = bar_height - monitor_height;
            let half = if d >= 0 { d / 2 } else { -((-d) / 2) };
            let nudge = if bar_height >= 0 && bar_height / 20 > 1 { bar_height / 20 } else { 1 };
            overlay_top(bar_height, monitor_height) == if half + nudge > 0 { half + nudge } else { 0 }
        }),
{
    if bar_height < 0 {
        assert((-bar_height) / 20 >= 0);
    }
}

/// In a horizontal classic taskbar the task list gives up exactly the
/// monitor's width (keeping nothing if it is narrower), and the monitor
/// starts two pixels after the shrunk task list.
pub proof fn lemma_horizontal_layout_rule(task_list_width: int, bar_height: int, monitor_width: int, monitor_height: int)
    ensures
        ({
            let (remaining, x, y) = horizontal_layout(task_list_width, bar_height, monitor_width, monitor_height);
            &&& task_list_width >= monitor_width ==> remaining == task_list_width - monitor_width
            &&& task_list_width < monitor_width ==> remaining == 0
            &&& x == remaining + 2
            &&& y == overlay_top(bar_height, monitor_height)
        }),
{
}

/// Where the monitor goes in a Windows 11 taskbar, spelled out from the
/// rectangles: with the Start button more than 120 px from the taskbar's
/// left edge it sits at x = 180; otherwise it ends 8 px before the
/// notification area (estimated as 280 px before the taskbar's right end
/// when unknown), or at the left edge if there is no room.  It keeps its
/// size, and its top follows `overlay_top`.
pub proof fn lemma_windows11_move_rule(
    overlay: isize,
    taskbar: Rect,
    start: Option<Rect>,
    notify: Option<Rect>,
    width: i32,
    height: i32,
)
    requires
        windows11_geometry_fits(taskbar, start, notify, width, height),
    ensures
        ({
            let m = windows11_move(overlay, taskbar, start, notify, width, height);
            let centred = start matches Some(r) && r.left - taskbar.left > 120;
            let notify_left: int = match notify {
                Some(r) => r.left - taskbar.left,
                None => taskbar.right - taskbar.left - 280,
            };
            &&& m.window == overlay && m.width == width && m.height == height
            &&& centred ==> m.x == 180
            &&& !centred && notify_left - width - 8 >= 0 ==> m.x == notify_left - width - 8
            &&& !centred && notify_left - width - 8 < 0 ==> m.x == 0
            &&& m.y == overlay_top(taskbar.bottom - taskbar.top, height as int)
            &&& m.x >= 0 && m.y >= 0
        }),
{
    lemma_overlay_top_rule(taskbar.bottom - taskbar.top, height as int);
}

/// The classic layout spelled out.  Horizontal bar: the task list stays
/// where it is in the rebar at full height and gives up the monitor's
/// width; the monitor follows two pixels after it.  Vertical bar: the task
/// list moves to the rebar's left edge at its old top, keeps its width and
/// gives up the monitor's height at the bottom; the monitor sits right
/// below it, centred across the rebar but never left of it.
pub proof fn lemma_classic_moves_rule(
    overlay: isize,
    task_list: isize,
    taskbar: Rect,
    rebar: Rect,
    task_list_rect: Rect,
    width: i32,
    height: i32,
)
    requires
        classic_geometry_fits(taskbar, rebar, task_list_rect, width, height),
    ensures
        ({
            let l = classic_moves(overlay, task_list, taskbar, rebar, task_list_rect, width, height);
            let list_width = task_list_rect.right - task_list_rect.left;
            let list_height = task_list_rect.bottom - task_list_rect.top;
            &&& l.task_list_move.window == task_list && l.overlay_move.window == overlay
            &&& l.overlay_move.width == width && l.overlay_move.height == height
            &&& taskbar.right - taskbar.left >= taskbar.bottom - taskbar.top ==> {
                &&& l.task_list_move.x == task_list_rect.left - rebar.left
                &&& l.task_list_move.y == 0
                &&& l.task_list_move.height == list_height
                &&& l.task_list_move.width == if list_width >= width { list_width - width } else { 0 }
                &&& l.overlay_move.x == l.task_list_move.x + l.task_list_move.width + 2
                &&& l.overlay_move.y == overlay_top(rebar.bottom - rebar.top, height as int)
                &&& l.overlay_move.y >= 0
            }
            &&& taskbar.right - taskbar.left < taskbar.bottom - taskbar.top ==> {
                let spare = rebar.right - rebar.left - width;
                &&& l.task_list_move.x == 0
                &&& l.task_list_move.y == task_list_rect.top - rebar.top
                &&& l.task_list_move.width == list_width
                &&& l.task_list_move.height == if list_height >= height { list_height - height } else { 0 }
                &&& l.overlay_move.x >= 0
                &&& spare >= 0 ==> l.overlay_move.x == spare / 2
                &&& spare < 0 ==> l.overlay_move.x == 0
                &&& l.overlay_move.y == l.task_list_move.y + l.task_list_move.height
            }
        }),
{
    lemma_overlay_top_rule(rebar.bottom - rebar.top, height as int);
    let spare = rebar.right - rebar.left - width;
    if spare < 0 {
        assert((-spare) / 2 >= 0);
    }
}

} // verus!
