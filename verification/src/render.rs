//! Rendering: what goes under the shell, and how the finished frame goes to the
//! host terminal.

use vstd::prelude::*;

use crate::app_state::{shell_model, Mode, ShellView};
use crate::fleet_state::{copy_bytes, with_view, FleetState, FleetView, HostStateView};
use crate::frame::{
    compose_frame, composed_frame, law_content_cells_are_moved_by_the_rectangle, min_u16, placed_at,
    placement_in_bounds, saturated, FrameData, FrameView, Rect,
};
use crate::instance::{instance_model, opt_frame};

verus! {

/// How a frame goes to the host terminal: whether the cursor is drawn as part of
/// it, whether it is painted in full, and the graphics that go with it.
#[derive(Debug)]
pub struct RenderPlan {
    pub draw_cursor: bool,
    pub full_repaint: bool,
    pub graphics: Vec<u8>,
}

/// The mathematical model of how a frame goes to the host terminal.
pub struct RenderPlanView {
    pub draw_cursor: bool,
    pub full_repaint: bool,
    pub graphics: Seq<u8>,
}

impl View for RenderPlan {
    type V = RenderPlanView;

    open spec fn view(&self) -> RenderPlanView {
        RenderPlanView {
            draw_cursor: self.draw_cursor,
            full_repaint: self.full_repaint,
            graphics: self.graphics@,
        }
    }
}

/// The state once the content is laid out for a screen, and the frame that goes
/// under the shell. There is none on a screen without cells.
pub open spec fn base_rendered(
    state: FleetView,
    cols: u16,
    rows: u16,
    view: ShellView,
) -> (FleetView, Option<FrameView>) {
    if cols == 0 || rows == 0 {
        (state, None)
    } else {
        (
            with_view(state, view),
            Some(
                composed_frame(
                    state.instances[state.active as int].frame,
                    cols,
                    rows,
                    view.terminal_area,
                ),
            ),
        )
    }
}

/// How a frame goes to the host terminal.
pub open spec fn planned(state: FleetView, frame: FrameView) -> RenderPlanView {
    RenderPlanView {
        draw_cursor: state.host.draw_host_cursor,
        full_repaint: state.host.repaint_pending,
        graphics: if state.host.kitty_graphics_enabled {
            frame.graphics
        } else {
            Seq::empty()
        },
    }
}

/// The state once a frame has gone to the host terminal.
pub open spec fn painted(state: FleetView) -> FleetView {
    FleetView { host: HostStateView { repaint_pending: false, ..state.host }, ..state }
}

/// Whether the shell leaves the cursor to the content.
pub open spec fn leaves_cursor(mode: Mode) -> bool {
    mode == Mode::Terminal || mode == Mode::Prefix
}

/// Whether content, where there is any, can be placed on a screen.
pub open spec fn can_be_placed(
    content: Option<FrameView>,
    cols: u16,
    rows: u16,
    rect: Rect,
) -> bool {
    content matches Some(frame) ==> placement_in_bounds(frame, cols, rows, rect)
}

proof fn lemma_index_grows(width: int, a_row: int, a_column: int, b_row: int, b_column: int)
    requires
        0 <= a_row <= b_row,
        0 <= a_column <= b_column,
        0 <= width,
    ensures
        a_row * width + a_column <= b_row * width + b_column,
{
    assert(a_row * width <= b_row * width) by (nonlinear_arith)
        requires
            0 <= a_row <= b_row,
            0 <= width,
    ;
}

/// Whether a frame can be placed on a screen. The cell that is placed last is
/// the one that lies furthest.
pub fn placement_fits(content: &FrameData, cols: u16, rows: u16, rect: Rect) -> (r: bool)
    ensures
        r == placement_in_bounds(content@, cols, rows, rect),
{
    let height: u16 = if rect.height < content.height {
        rect.height
    } else {
        content.height
    };
    let width: u16 = if rect.width < content.width {
        rect.width
    } else {
        content.width
    };
    if height == 0 || width == 0 {
        return true;
    }
    let host_row: u16 = rect.y.saturating_add(height - 1);
    let host_column: u16 = rect.x.saturating_add(width - 1);
    let ghost last_row = height - 1;
    let ghost last_column = width - 1;
    assert(placed_at(cols, rect, last_row, last_column) == host_row * cols + host_column);
    assert(0 <= host_row * cols <= 0xffff * 0xffff) by (nonlinear_arith)
        requires
            host_row <= 0xffff,
            cols <= 0xffff,
    ;
    assert(0 <= last_row * content.width <= 0xffff * 0xffff) by (nonlinear_arith)
        requires
            0 <= last_row <= 0xffff,
            content.width <= 0xffff,
    ;
    assert(0 <= cols * rows <= 0xffff * 0xffff) by (nonlinear_arith)
        requires
            cols <= 0xffff,
            rows <= 0xffff,
    ;
    let place: u64 = host_row as u64 * cols as u64 + host_column as u64;
    let source: u64 = (height - 1) as u64 * content.width as u64 + (width - 1) as u64;
    let fits: bool = place < cols as u64 * rows as u64 && source < content.cells.len() as u64;
    proof {
        assert forall|row: int, column: int|
            0 <= row < min_u16(rect.height, content.height) && 0 <= column < min_u16(
                rect.width,
                content.width,
            ) && fits implies {
            &&& #[trigger] placed_at(cols, rect, row, column) < cols * rows
            &&& row * content.width + column < content@.cells.len()
        } by {
            lemma_index_grows(
                cols as int,
                saturated(rect.y as int, row),
                saturated(rect.x as int, column),
                host_row as int,
                host_column as int,
            );
            lemma_index_grows(content.width as int, row, column, last_row, last_column);
        }
    }
    fits
}

impl FleetState {
    /// The frame that goes under the shell: the content of the active instance
    /// beside where the sidebar will be. There is none on a screen without
    /// cells.
    pub fn render_base(&mut self, cols: u16, rows: u16, view: ShellView) -> (r: Option<FrameData>)
        requires
            old(self)@.active < old(self)@.instances.len(),
            cols > 0 && rows > 0 ==> can_be_placed(
                old(self)@.instances[old(self)@.active as int].frame,
                cols,
                rows,
                view.terminal_area,
            ),
        ensures
            (final(self)@, opt_frame(r)) == base_rendered(old(self)@, cols, rows, view),
    {
        proof {
            reveal(instance_model);
        }
        if cols == 0 || rows == 0 {
            return None;
        }
        self.update_sidebar_geometry(view);
        let index: usize = self.active;
        assert(self@.instances[index as int] == self.instances@[index as int]@);
        let content = match &self.instances[index].frame {
            Some(frame) => Some(frame),
            None => None,
        };
        Some(compose_frame(content, cols, rows, view.terminal_area))
    }

    /// Whether the content of the active instance can be placed in a view.
    pub fn content_fits(&self, cols: u16, rows: u16, view: ShellView) -> (r: bool)
        requires
            self@.active < self@.instances.len(),
        ensures
            r == can_be_placed(
                self@.instances[self@.active as int].frame,
                cols,
                rows,
                view.terminal_area,
            ),
    {
        proof {
            reveal(instance_model);
        }
        assert(self@.instances[self.active as int] == self.instances@[self.active as int]@);
        match &self.instances[self.active].frame {
            Some(frame) => placement_fits(frame, cols, rows, view.terminal_area),
            None => true,
        }
    }

    /// Whether the cursor is that of the content.
    pub fn cursor_in_content(&self) -> (r: bool)
        ensures
            r == leaves_cursor(self@.sidebar.mode),
    {
        proof {
            reveal(shell_model);
        }
        match self.sidebar.mode {
            Mode::Terminal => true,
            Mode::Prefix => true,
            _ => false,
        }
    }

    /// How a finished frame goes to the host terminal.
    pub fn render_plan(&self, frame: &FrameData) -> (r: RenderPlan)
        ensures
            r@ == planned(self@, frame@),
    {
        let graphics: Vec<u8> = if self.host.kitty_graphics_enabled {
            copy_bytes(&frame.graphics)
        } else {
            Vec::new()
        };
        RenderPlan {
            draw_cursor: self.host.draw_host_cursor,
            full_repaint: self.host.repaint_pending,
            graphics,
        }
    }

    /// Takes in that a frame has gone to the host terminal.
    pub fn frame_shown(&mut self)
        ensures
            final(self)@ == painted(old(self)@),
    {
        self.host.repaint_pending = false;
    }
}

/// The shell leaves the cursor to the content while keys go to the terminal or
/// a prefix is under way, and at no other time.
pub proof fn law_cursor_is_left_to_the_content(mode: Mode)
    ensures
        leaves_cursor(mode) <==> mode is Terminal || mode is Prefix,
{
}

/// What is rendered under the shell is the content of the active instance, each
/// cell as far to the right and down as the content area lies.
pub proof fn law_active_content_is_rendered(
    state: FleetView,
    cols: u16,
    rows: u16,
    view: ShellView,
    content: FrameView,
    row: int,
    column: int,
)
    requires
        cols > 0,
        rows > 0,
        state.instances[state.active as int].frame == Some(content),
        view.terminal_area.x + view.terminal_area.width <= cols,
        view.terminal_area.y + view.terminal_area.height <= rows,
        content.cells.len() >= content.width * content.height,
        0 <= row < view.terminal_area.height,
        0 <= column < view.terminal_area.width,
        row < content.height,
        column < content.width,
    ensures
        ({
            let (after, base) = base_rendered(state, cols, rows, view);
            let area = view.terminal_area;
            &&& base matches Some(frame) && frame.cells[(area.y + row) * cols + (area.x + column)]
                == content.cells[row * content.width + column]
            &&& after.sidebar.view == view
            &&& after.instances == state.instances
            &&& after.effects == state.effects
            &&& after.host == state.host
        }),
{
    law_content_cells_are_moved_by_the_rectangle(
        content,
        cols,
        rows,
        view.terminal_area,
        row,
        column,
    );
}

/// A screen without cells is not rendered, and rendering it changes nothing; any
/// other one gets a frame of its size.
pub proof fn law_screens_without_cells_are_left_alone(
    state: FleetView,
    cols: u16,
    rows: u16,
    view: ShellView,
)
    ensures
        ({
            let (after, base) = base_rendered(state, cols, rows, view);
            &&& base is None <==> cols == 0 || rows == 0
            &&& base is None ==> after == state
            &&& base matches Some(frame) ==> frame.width == cols && frame.height == rows
        }),
{
}

/// A frame is painted in full until it has been, and not again before something
/// asks for it.
pub proof fn law_full_repaints_happen_once(state: FleetView, frame: FrameView)
    ensures
        planned(state, frame).full_repaint <==> state.host.repaint_pending,
        !planned(painted(state), frame).full_repaint,
        planned(crate::fleet_state::repainted(painted(state)), frame).full_repaint,
        painted(state) == (FleetView {
            host: HostStateView {
                repaint_pending: painted(state).host.repaint_pending,
                ..state.host
            },
            ..state
        }),
{
}

/// Graphics go to a host terminal that takes them as the frame has them, and to
/// another one not at all. The cursor is drawn where the configuration says so.
pub proof fn law_graphics_go_where_they_are_taken(state: FleetView, frame: FrameView)
    ensures
        state.host.kitty_graphics_enabled ==> planned(state, frame).graphics == frame.graphics,
        !state.host.kitty_graphics_enabled ==> planned(state, frame).graphics.len() == 0,
        planned(state, frame).draw_cursor == state.host.draw_host_cursor,
{
}

} // verus!
