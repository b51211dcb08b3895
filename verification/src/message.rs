//! Messages that tasks and interrupt handlers send to tasks.

use vstd::prelude::*;

use crate::graphics::Vector2D;

verus! {

/// Identifier of a task: unique among the tasks that the registry holds.
pub type TaskId = u64;

/// What a layer message asks the compositor to do.
#[derive(Clone, Copy, PartialEq, Eq, Structural, Debug)]
pub enum LayerOperation {
    Move,
    MoveRelative,
    Draw,
    DrawArea,
}

/// The kinds of event that a message can carry.
#[derive(Clone, Copy, PartialEq, Eq, Structural, Debug)]
pub enum MessageType {
    /// The xHCI host controller raised its interrupt.
    InterruptXHCI,
    /// A timer expired at tick `timeout`; `value` tells which.
    TimerTimeout { timeout: u64, value: i32 },
    /// A key went down or up.
    KeyPush { modifier: u8, keycode: u8, ascii: u8, press: bool },
    /// The pointer moved to `(x, y)` by `(dx, dy)`.
    MouseMove { x: i32, y: i32, dx: i32, dy: i32, buttons: u8 },
    /// A pointer button went down or up at `(x, y)`.
    MouseButton { x: i32, y: i32, press: bool, button: i32 },
    /// The window on layer `layer_id` was closed.
    WindowClose { layer_id: u32 },
    /// A request to the compositor about layer `layer_id`.
    Layer { op: LayerOperation, layer_id: u32, pos: Vector2D<i32>, size: Vector2D<i32> },
    /// The compositor finished a request.
    LayerFinish,
}

/// An event together with the task that sent it.
#[derive(Clone, Copy, PartialEq, Eq, Structural, Debug)]
pub struct Message {
    pub ty: MessageType,
    pub src_task: TaskId,
}

impl Message {
    /// The message `ty` sent by `src_task`.
    pub fn new(ty: MessageType, src_task: TaskId) -> (message: Self)
        ensures
            message == (Message { ty, src_task }),
    {
        Self { ty, src_task }
    }
}

/// The messages of `queue` that `sender` sent, in their order in `queue`.
pub open spec fn from_sender(queue: Seq<Message>, sender: TaskId) -> Seq<Message> {
    queue.filter(|m: Message| m.src_task == sender)
}

/// A bounded queue delivers in the order of sending: after the messages
/// `sent` were appended to `queue`, whoever sent them, the messages of one
/// sender stand in the queue in the order in which that sender sent them,
/// behind those of its messages that were waiting before.
pub proof fn lemma_fifo_per_sender(queue: Seq<Message>, sent: Seq<Message>, sender: TaskId)
    ensures
        from_sender(queue + sent, sender) == from_sender(queue, sender) + from_sender(
            sent,
            sender,
        ),
{
    Seq::filter_distributes_over_add(queue, sent, |m: Message| m.src_task == sender);
}

/// Taking the oldest message off a queue takes the oldest message of its
/// sender and leaves the order of every sender's messages as it was.
pub proof fn lemma_receive_keeps_order(queue: Seq<Message>, sender: TaskId)
    requires
        queue.len() > 0,
    ensures
        queue[0].src_task == sender ==> from_sender(queue, sender).len() > 0 && from_sender(
            queue,
            sender,
        )[0] == queue[0] && from_sender(queue.drop_first(), sender) == from_sender(
            queue,
            sender,
        ).drop_first(),
        queue[0].src_task != sender ==> from_sender(queue.drop_first(), sender) == from_sender(
            queue,
            sender,
        ),
{
    let head = seq![queue[0]];
    let keep = |m: Message| m.src_task == sender;
    assert(queue =~= head + queue.drop_first());
    Seq::filter_distributes_over_add(head, queue.drop_first(), keep);
    reveal(Seq::filter);
    assert(head.drop_last().filter(keep) =~= Seq::<Message>::empty());
}

} // verus!
