//! What the main task of the kernel decides: which windows it opens, and
//! what it does with each message that reaches it.

use vstd::prelude::*;

use crate::graphics::{in_rect, PixelColor, PixelWrite, Vector2D};
use crate::message::{LayerOperation, Message, MessageType, TaskId};
use crate::timer::Timer;

verus! {

/// The value of the timer that makes the cursor of the text box blink.
pub const TEXTBOX_CURSOR_TIMER: i32 = 1;

/// Half a second in ticks.
pub const TIMER_05SEC: u64 = 50;

/// The identifier of the main task.
pub const MAIN_TASK: TaskId = 1;

/// The key code of F2.
pub const KEYCODE_F2: u8 = 59;

/// The character that the backspace key sends.
pub const BACKSPACE: u8 = 0x08;

/// A window that the main task opens.
#[derive(Clone, Copy, Debug)]
pub struct WindowPlan {
    pub width: u32,
    pub height: u32,
    pub title: &'static str,
    pub x: i32,
    pub y: i32,
    /// How high among the layers the window is put.
    pub height_order: i32,
    /// Whether a text box is drawn over the whole inside of the window.
    pub text_box: bool,
}

/// The main window: 160 by 52 pixels at (300, 100), third from below.
pub fn initialize_main_window() -> (plan: WindowPlan)
    ensures
        plan.width == 160,
        plan.height == 52,
        plan.title@ == "Hello Window"@,
        plan.x == 300,
        plan.y == 100,
        plan.height_order == 2,
        !plan.text_box,
{
    WindowPlan {
        width: 160,
        height: 52,
        title: "Hello Window",
        x: 300,
        y: 100,
        height_order: 2,
        text_box: false,
    }
}

/// The window with the text box: 160 by 52 pixels at (500, 100), on top.
pub fn initialize_text_window() -> (plan: WindowPlan)
    ensures
        plan.width == 160,
        plan.height == 52,
        plan.title@ == "Text Box Test"@,
        plan.x == 500,
        plan.y == 100,
        plan.height_order == i32::MAX,
        plan.text_box,
{
    WindowPlan {
        width: 160,
        height: 52,
        title: "Text Box Test",
        x: 500,
        y: 100,
        height_order: i32::MAX,
        text_box: true,
    }
}

/// The corner of the cursor of the text box when it stands before the
/// character number `index`.
pub open spec fn text_cursor_position(index: i32) -> Vector2D<i32> {
    Vector2D { x: (4 + 8 * index) as i32, y: 5 }
}

/// Draws the cursor of the text box before the character number `index`,
/// black, or paints it over in white: a bar of 7 by 15 pixels.
pub fn draw_text_cursor<W: PixelWrite>(visible: bool, index: i32, window: &mut W)
    requires
        old(window).inv(),
        0 <= index,
        4 + 8 * index + 7 <= i32::MAX,
    ensures
        final(window).inv(),
        final(window).layout() == old(window).layout(),
        forall|x: int, y: int| final(window).in_bounds(x, y) == old(window).in_bounds(x, y),
        forall|x: int, y: int|
            #![trigger final(window).pixel(x, y)]
            final(window).pixel(x, y) == (if in_rect(
                text_cursor_position(index),
                Vector2D { x: 7, y: 15 },
                x,
                y,
            ) && old(window).in_bounds(x, y) {
                PixelColor::spec_to_color(
                    if visible {
                        0
                    } else {
                        0xffffff
                    },
                )
            } else {
                old(window).pixel(x, y)
            }),
{
    let color = PixelColor::to_color(
        if visible {
            0
        } else {
            0xffffff
        },
    );
    let pos = Vector2D::new(4 + 8 * index, 5);
    window.fill_rectangle(pos, Vector2D::new(7, 15), &color);
}

/// The number of characters that fit into a text box in a window that is
/// `width` pixels wide.
pub open spec fn spec_max_chars(width: i32) -> int {
    if width >= 8 {
        (width - 8) / 8 - 1
    } else {
        -((8 - width) / 8) - 1
    }
}

/// The number of characters that fit into a text box in a window that is
/// `width` pixels wide.
pub fn max_chars(width: i32) -> (count: i32)
    requires
        width >= i32::MIN + 8,
    ensures
        count == spec_max_chars(width),
{
    (width - 8) / 8 - 1
}

/// What the main task does next.
#[derive(Clone, Copy, PartialEq, Eq, Structural, Debug)]
pub enum MainAction {
    /// Let the host controller handle the events that wait in its ring.
    ProcessXhciEvents,
    /// Set the timer `next`, if the tick fits, and draw the cursor of the
    /// text box, or paint it over, before the character number `index`.
    BlinkCursor { next: Option<Timer>, visible: bool, index: i32 },
    /// Paint over the cursor before the character number `from` and the
    /// character number `to`, and draw the cursor before that one.
    EraseChar { from: i32, to: i32 },
    /// Paint over the cursor before the character number `at`, write
    /// `ascii` there and draw the cursor behind it.
    PutChar { ascii: u8, at: i32 },
    /// Make a task that runs a terminal, and wake it.
    SpawnTerminal,
    /// Send `message` to the task `task`, which owns the active window.
    ForwardKey { task: TaskId, message: Message },
    /// Report a key that nobody takes.
    KeyNotHandled { keycode: u8, ascii: u8 },
    /// Do what the compositor is asked for and tell the sender that it is
    /// done.
    Layer {
        op: LayerOperation,
        layer_id: u32,
        pos: Vector2D<i32>,
        size: Vector2D<i32>,
        reply_to: TaskId,
    },
    /// Nothing.
    Nothing,
}

/// What the main task keeps between messages.
#[derive(Clone, Copy, PartialEq, Eq, Structural, Debug)]
pub struct MainTask {
    pub text_window_id: u32,
    /// The number of characters in the text box.
    pub text_window_index: i32,
    /// Whether the cursor of the text box is drawn.
    pub textbox_cursor_visible: bool,
}

impl MainTask {
    /// The main task before its first message: the text box is empty and
    /// its cursor is not drawn.
    pub fn new(text_window_id: u32) -> (task: Self)
        ensures
            task == (MainTask {
                text_window_id,
                text_window_index: 0,
                textbox_cursor_visible: false,
            }),
    {
        Self { text_window_id, text_window_index: 0, textbox_cursor_visible: false }
    }

    /// The timer that is set when the main task starts: the cursor of the
    /// text box blinks for the first time after half a second.
    pub fn first_timer() -> (timer: Timer)
        ensures
            timer == (Timer {
                timeout: TIMER_05SEC,
                value: TEXTBOX_CURSOR_TIMER,
                task_id: MAIN_TASK,
            }),
    {
        Timer::new(TIMER_05SEC, TEXTBOX_CURSOR_TIMER, MAIN_TASK)
    }

    /// What the main task is, and does, after `message`.
    ///
    /// `active` is the layer of the active window, `width` the width of the
    /// window with the text box, and `owner` the task to which the active
    /// window belongs, if it belongs to one.
    pub open spec fn spec_handle(
        self,
        message: Message,
        active: u32,
        width: i32,
        owner: Option<TaskId>,
    ) -> (MainTask, MainAction) {
        match message.ty {
            MessageType::InterruptXHCI => (self, MainAction::ProcessXhciEvents),
            MessageType::TimerTimeout { timeout, value } => if value == TEXTBOX_CURSOR_TIMER {
                (
                    MainTask { textbox_cursor_visible: !self.textbox_cursor_visible, ..self },
                    MainAction::BlinkCursor {
                        next: if timeout + TIMER_05SEC <= u64::MAX {
                            Some(
                                Timer {
                                    timeout: (timeout + TIMER_05SEC) as u64,
                                    value: TEXTBOX_CURSOR_TIMER,
                                    task_id: MAIN_TASK,
                                },
                            )
                        } else {
                            None
                        },
                        visible: !self.textbox_cursor_visible,
                        index: self.text_window_index,
                    },
                )
            } else {
                (self, MainAction::Nothing)
            },
            MessageType::KeyPush { modifier, keycode, ascii, press } => if active
                == self.text_window_id {
                if !press || ascii == 0 {
                    (self, MainAction::Nothing)
                } else if ascii == BACKSPACE && self.text_window_index > 0 {
                    (
                        MainTask {
                            text_window_index: (self.text_window_index - 1) as i32,
                            ..self
                        },
                        MainAction::EraseChar {
                            from: self.text_window_index,
                            to: (self.text_window_index - 1) as i32,
                        },
                    )
                } else if ascii >= 0x20 && self.text_window_index < spec_max_chars(width) {
                    (
                        MainTask {
                            text_window_index: (self.text_window_index + 1) as i32,
                            ..self
                        },
                        MainAction::PutChar { ascii, at: self.text_window_index },
                    )
                } else {
                    (self, MainAction::Nothing)
                }
            } else if press && keycode == KEYCODE_F2 {
                (self, MainAction::SpawnTerminal)
            } else {
                match owner {
                    Some(task) => (
                        self,
                        MainAction::ForwardKey {
                            task,
                            message: Message { ty: message.ty, src_task: MAIN_TASK },
                        },
                    ),
                    None => (self, MainAction::KeyNotHandled { keycode, ascii }),
                }
            },
            MessageType::Layer { op, layer_id, pos, size } => (
                self,
                MainAction::Layer { op, layer_id, pos, size, reply_to: message.src_task },
            ),
            _ => (self, MainAction::Nothing),
        }
    }

    /// Takes one message: says what to do and notes what changes.
    pub fn handle(&mut self, message: &Message, active: u32, width: i32, owner: Option<TaskId>) -> (action:
        MainAction)
        requires
            width >= i32::MIN + 8,
        ensures
            (*final(self), action) == old(self).spec_handle(*message, active, width, owner),
    {
        match message.ty {
            MessageType::InterruptXHCI => MainAction::ProcessXhciEvents,
            MessageType::TimerTimeout { timeout, value } => {
                if value == TEXTBOX_CURSOR_TIMER {
                    let next = if timeout <= u64::MAX - TIMER_05SEC {
                        Some(Timer::new(timeout + TIMER_05SEC, TEXTBOX_CURSOR_TIMER, MAIN_TASK))
                    } else {
                        None
                    };
                    self.textbox_cursor_visible = !self.textbox_cursor_visible;
                    MainAction::BlinkCursor {
                        next,
                        visible: self.textbox_cursor_visible,
                        index: self.text_window_index,
                    }
                } else {
                    MainAction::Nothing
                }
            },
            MessageType::KeyPush { modifier, keycode, ascii, press } => {
                if active == self.text_window_id {
                    if !press || ascii == 0 {
                        MainAction::Nothing
                    } else if ascii == BACKSPACE && self.text_window_index > 0 {
                        let from = self.text_window_index;
                        self.text_window_index = from - 1;
                        MainAction::EraseChar { from, to: from - 1 }
                    } else if ascii >= 0x20 && self.text_window_index < max_chars(width) {
                        let at = self.text_window_index;
                        self.text_window_index = at + 1;
                        MainAction::PutChar { ascii, at }
                    } else {
                        MainAction::Nothing
                    }
                } else if press && keycode == KEYCODE_F2 {
                    MainAction::SpawnTerminal
                } else {
                    match owner {
                        Some(task) => MainAction::ForwardKey {
                            task,
                            message: Message::new(message.ty, MAIN_TASK),
                        },
                        None => MainAction::KeyNotHandled { keycode, ascii },
                    }
                }
            },
            MessageType::Layer { op, layer_id, pos, size } => MainAction::Layer {
                op,
                layer_id,
                pos,
                size,
                reply_to: message.src_task,
            },
            _ => MainAction::Nothing,
        }
    }
}

} // verus!
