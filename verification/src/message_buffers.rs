//! Buffered messages: a message owns a source buffer, and each receiver gets
//! its own copy of it in its task control block when it reads.
use vstd::prelude::*;

use crate::bits;
use crate::config::{MAX_BUFFER_SIZE, MAX_TASKS, MESSAGE_COUNT};
use crate::errors::KernelError;
use crate::semaphores::{SemaphoreControlBlock, SemaphoresTable};
use crate::types::{BooleanVector, MessageId};

verus! {

/// A task's receive buffer and the length of the message in it.
pub struct TCB {
    pub dest_buffer: Vec<u32>,
    pub msg_size: usize,
}

/// A message: who receives it and what it holds.
pub struct MCB {
    pub receivers: BooleanVector,
    pub src_buffer: Vec<u32>,
}

/// The buffered message tables: message `i` uses control block `i` and
/// semaphore `i`; task `t` reads into control block `t`.
pub struct MessagingManager {
    pub tcb_table: Vec<TCB>,
    pub mcb_table: Vec<MCB>,
    pub msg_scb_table: SemaphoresTable,
}

/// The receive buffer after `src` is copied to its start.
pub open spec fn delivered(dest: Seq<u32>, src: Seq<u32>) -> Seq<u32> {
    src + dest.skip(src.len() as int)
}

/// A receiver that reads a message gets exactly the message's buffer, and
/// its receive buffer keeps its size.
pub proof fn lemma_receiver_reads_message(dest: Seq<u32>, src: Seq<u32>)
    requires
        src.len() <= dest.len(),
    ensures
        delivered(dest, src).take(src.len() as int) == src,
        delivered(dest, src).len() == dest.len(),
{
    assert(delivered(dest, src).take(src.len() as int) =~= src);
}

impl TCB {
    /// A full-size buffer holding no message.
    pub open spec fn wf(&self) -> bool {
        &&& self.dest_buffer@.len() == MAX_BUFFER_SIZE
        &&& self.msg_size <= MAX_BUFFER_SIZE
    }

    /// An empty receive buffer.
    pub fn new() -> (t: Self)
        ensures
            t.wf(),
            t.msg_size == 0,
            t.dest_buffer@ == Seq::new(MAX_BUFFER_SIZE as nat, |i: int| 0u32),
    {
        let mut dest_buffer: Vec<u32> = Vec::new();
        let mut i: usize = 0;
        while i < MAX_BUFFER_SIZE
            invariant
                i <= MAX_BUFFER_SIZE,
                dest_buffer@ == Seq::new(i as nat, |j: int| 0u32),
            decreases MAX_BUFFER_SIZE - i,
        {
            dest_buffer.push(0);
            i += 1;
            assert(dest_buffer@ =~= Seq::new(i as nat, |j: int| 0u32));
        }
        Self { dest_buffer, msg_size: 0 }
    }
}

impl MessagingManager {
    /// Every table has its size, buffers fit, and a message's semaphore
    /// exists when its id was handed out.
    pub open spec fn wf(&self) -> bool {
        &&& self.tcb_table@.len() == MAX_TASKS
        &&& self.mcb_table@.len() == MESSAGE_COUNT
        &&& self.msg_scb_table.wf()
        &&& forall|t: int| 0 <= t < MAX_TASKS ==> #[trigger] self.tcb_table@[t].wf()
        &&& forall|m: int|
            0 <= m < MESSAGE_COUNT ==> #[trigger] self.mcb_table@[m].src_buffer@.len()
                <= MAX_BUFFER_SIZE
    }

    /// Task `tid` receives message `msg_id`; task 0 never does.
    pub open spec fn receives(&self, msg_id: int, tid: int) -> bool {
        1 <= tid < MAX_TASKS && bits::has_task(self.mcb_table@[msg_id].receivers, tid as u32)
    }

    /// The receive buffers are those of `old` after message `msg_id` was
    /// copied to its receivers.
    pub open spec fn copied_from(&self, old: &MessagingManager, msg_id: int) -> bool {
        &&& self.tcb_table@.len() == old.tcb_table@.len()
        &&& forall|t: int|
            0 <= t < MAX_TASKS ==> {
                let src = old.mcb_table@[msg_id].src_buffer@;
                &&& #[trigger] self.tcb_table@[t].dest_buffer@ == if old.receives(msg_id, t) {
                    delivered(old.tcb_table@[t].dest_buffer@, src)
                } else {
                    old.tcb_table@[t].dest_buffer@
                }
                &&& self.tcb_table@[t].msg_size == if old.receives(msg_id, t) {
                    src.len() as usize
                } else {
                    old.tcb_table@[t].msg_size
                }
            }
    }

    /// No message, empty buffers.
    pub fn new() -> (m: Self)
        ensures
            m.wf(),
            m.msg_scb_table.count() == 0,
            forall|i: int|
                0 <= i < MESSAGE_COUNT ==> #[trigger] m.mcb_table@[i].receivers == 0
                    && m.mcb_table@[i].src_buffer@.len() == 0,
    {
        let mut tcb_table: Vec<TCB> = Vec::new();
        let mut i: usize = 0;
        while i < MAX_TASKS
            invariant
                i <= MAX_TASKS,
                tcb_table@.len() == i,
                forall|t: int| 0 <= t < i ==> #[trigger] tcb_table@[t].wf(),
            decreases MAX_TASKS - i,
        {
            tcb_table.push(TCB::new());
            i += 1;
        }
        let mut mcb_table: Vec<MCB> = Vec::new();
        let mut j: usize = 0;
        while j < MESSAGE_COUNT
            invariant
                j <= MESSAGE_COUNT,
                mcb_table@.len() == j,
                forall|m: int|
                    0 <= m < j ==> #[trigger] mcb_table@[m].receivers == 0
                        && mcb_table@[m].src_buffer@.len() == 0,
            decreases MESSAGE_COUNT - j,
        {
            mcb_table.push(MCB { receivers: 0, src_buffer: Vec::new() });
            j += 1;
        }
        assert forall|m: int| 0 <= m < MESSAGE_COUNT implies #[trigger] mcb_table@[m].src_buffer@.len()
            <= MAX_BUFFER_SIZE by {
            assert(mcb_table@[m].receivers == 0);
        }
        Self { tcb_table, mcb_table, msg_scb_table: SemaphoresTable::new() }
    }

    /// Signals the receivers of message `msg_id` and returns the tasks to
    /// notify; `NotFound` when the id is out of range or not created.
    pub fn broadcast(&mut self, msg_id: MessageId) -> (res: Result<BooleanVector, KernelError>)
        requires
            old(self).wf(),
        ensures
            final(self).wf(),
            final(self).tcb_table == old(self).tcb_table,
            final(self).mcb_table == old(self).mcb_table,
            final(self).msg_scb_table.count() == old(self).msg_scb_table.count(),
            msg_id >= MESSAGE_COUNT ==> res == Err::<BooleanVector, KernelError>(KernelError::NotFound)
                && final(self).msg_scb_table@ == old(self).msg_scb_table@,
            msg_id < MESSAGE_COUNT ==> match old(self).msg_scb_table@[msg_id as int] {
                Some(sem) => res == Ok::<BooleanVector, KernelError>(sem.tasks)
                    && final(self).msg_scb_table@ == old(self).msg_scb_table@.update(
                    msg_id as int,
                    Some(sem.signalled(old(self).mcb_table@[msg_id as int].receivers)),
                ),
                None => res == Err::<BooleanVector, KernelError>(KernelError::NotFound)
                    && final(self).msg_scb_table@ == old(self).msg_scb_table@,
            },
    {
        if msg_id >= self.mcb_table.len() {
            return Err(KernelError::NotFound);
        }
        let receivers = self.mcb_table[msg_id].receivers;
        self.msg_scb_table.signal_and_release(msg_id, receivers)
    }

    /// Copies message `msg_id` into the receive buffer of each of its
    /// receivers (task 0 excluded).
    fn copy_msg(&mut self, msg_id: MessageId)
        requires
            old(self).wf(),
            msg_id < MESSAGE_COUNT,
        ensures
            final(self).wf(),
            final(self).mcb_table == old(self).mcb_table,
            final(self).msg_scb_table == old(self).msg_scb_table,
            final(self).copied_from(old(self), msg_id as int),
    {
        let tasks_mask = self.mcb_table[msg_id].receivers;
        let len = self.mcb_table[msg_id].src_buffer.len();
        let ghost src = self.mcb_table@[msg_id as int].src_buffer@;
        let mut tid: usize = 1;
        proof {
            bits::lemma_single_bit_test();
        }
        while tid < MAX_TASKS
            invariant
                1 <= tid <= MAX_TASKS,
                msg_id < MESSAGE_COUNT,
                self.mcb_table == old(self).mcb_table,
                self.msg_scb_table == old(self).msg_scb_table,
                old(self).wf(),
                tasks_mask == old(self).mcb_table@[msg_id as int].receivers,
                src == old(self).mcb_table@[msg_id as int].src_buffer@,
                len == src.len(),
                len <= MAX_BUFFER_SIZE,
                self.tcb_table@.len() == MAX_TASKS,
                forall|t: int| 0 <= t < MAX_TASKS ==> #[trigger] self.tcb_table@[t].wf(),
                forall|t: int|
                    0 <= t < MAX_TASKS ==> {
                        &&& #[trigger] self.tcb_table@[t].dest_buffer@ == if t < tid && old(self).receives(msg_id as int, t) {
                            delivered(old(self).tcb_table@[t].dest_buffer@, src)
                        } else {
                            old(self).tcb_table@[t].dest_buffer@
                        }
                        &&& self.tcb_table@[t].msg_size == if t < tid && old(self).receives(
                            msg_id as int,
                            t,
                        ) {
                            len
                        } else {
                            old(self).tcb_table@[t].msg_size
                        }
                    },
            decreases MAX_TASKS - tid,
        {
            let tid_mask: u32 = 1u32 << (tid as u32);
            proof {
                bits::lemma_single_bit_test();
            }
            if tasks_mask & tid_mask == tid_mask {
                let ghost old_dest = self.tcb_table@[tid as int].dest_buffer@;
                assert(self.tcb_table@[tid as int].wf());
                let mut buf: Vec<u32> = Vec::new();
                let mut i: usize = 0;
                while i < MAX_BUFFER_SIZE
                    invariant
                        i <= MAX_BUFFER_SIZE,
                        len <= MAX_BUFFER_SIZE,
                        len == src.len(),
                        tid < MAX_TASKS,
                        self.tcb_table@.len() == MAX_TASKS,
                        self.tcb_table@[tid as int].dest_buffer@ == old_dest,
                        old_dest.len() == MAX_BUFFER_SIZE,
                        src == self.mcb_table@[msg_id as int].src_buffer@,
                        self.mcb_table@.len() == MESSAGE_COUNT,
                        msg_id < MESSAGE_COUNT,
                        buf@ == delivered(old_dest, src).take(i as int),
                    decreases MAX_BUFFER_SIZE - i,
                {
                    let w = if i < len {
                        self.mcb_table[msg_id].src_buffer[i]
                    } else {
                        self.tcb_table[tid].dest_buffer[i]
                    };
                    buf.push(w);
                    i += 1;
                    assert(buf@ =~= delivered(old_dest, src).take(i as int));
                }
                assert(delivered(old_dest, src).len() == MAX_BUFFER_SIZE);
                assert(buf@ =~= delivered(old_dest, src));
                self.tcb_table.set(tid, TCB { dest_buffer: buf, msg_size: len });
                assert(old(self).receives(msg_id as int, tid as int));
            } else {
                assert(!old(self).receives(msg_id as int, tid as int));
            }
            tid += 1;
        }
        assert forall|t: int| 0 <= t < MAX_TASKS implies {
            let src = old(self).mcb_table@[msg_id as int].src_buffer@;
            &&& #[trigger] self.tcb_table@[t].dest_buffer@ == if old(self).receives(msg_id as int, t) {
                delivered(old(self).tcb_table@[t].dest_buffer@, src)
            } else {
                old(self).tcb_table@[t].dest_buffer@
            }
            &&& self.tcb_table@[t].msg_size == if old(self).receives(msg_id as int, t) {
                src.len() as usize
            } else {
                old(self).tcb_table@[t].msg_size
            }
        } by {
            assert(t < tid);
            let src2 = old(self).mcb_table@[msg_id as int].src_buffer@;
            assert(src2 == src);
            assert(self.tcb_table@[t].dest_buffer@ == if old(self).receives(msg_id as int, t) {
                delivered(old(self).tcb_table@[t].dest_buffer@, src)
            } else {
                old(self).tcb_table@[t].dest_buffer@
            });
            assert(self.tcb_table@[t].msg_size == if old(self).receives(msg_id as int, t) {
                len
            } else {
                old(self).tcb_table@[t].msg_size
            });
        }
    }

    /// Task `curr_tid` reads message `msg_id`: the message is first copied
    /// to every receiver's buffer; then, when `curr_tid` had an unread
    /// broadcast of it, that broadcast is marked read and the task's copy is
    /// returned.
    pub fn receive(&mut self, msg_id: MessageId, curr_tid: usize) -> (res: Option<&[u32]>)
        requires
            old(self).wf(),
            msg_id < MESSAGE_COUNT,
            curr_tid < MAX_TASKS,
        ensures
            final(self).wf(),
            final(self).mcb_table == old(self).mcb_table,
            final(self).copied_from(old(self), msg_id as int),
            final(self).msg_scb_table.count() == old(self).msg_scb_table.count(),
            match old(self).msg_scb_table@[msg_id as int] {
                Some(sem) => {
                    &&& final(self).msg_scb_table@ == old(self).msg_scb_table@.update(
                        msg_id as int,
                        Some(sem.reset(curr_tid as u32)),
                    )
                    &&& bits::has_task(sem.flags, curr_tid as u32) ==> res is Some && res->Some_0@
                        == final(self).tcb_table@[curr_tid as int].dest_buffer@.take(
                        final(self).tcb_table@[curr_tid as int].msg_size as int,
                    )
                    &&& !bits::has_task(sem.flags, curr_tid as u32) ==> res is None
                },
                None => res is None && final(self).msg_scb_table@ == old(self).msg_scb_table@,
            },
    {
        self.copy_msg(msg_id);
        match self.msg_scb_table.test_and_reset(msg_id, curr_tid as u32) {
            Ok(res) if res == true => {
                assert(self.tcb_table@[curr_tid as int].wf());
                let tcb = &self.tcb_table[curr_tid];
                Some(vstd::slice::slice_subrange(tcb.dest_buffer.as_slice(), 0, tcb.msg_size))
            },
            _ => None,
        }
    }

    /// Creates a message holding `src_buffer`, notifying `tasks_mask` and
    /// received by `receivers_mask`; `BufferOverflow` when the buffer is
    /// longer than a receive buffer, `LimitExceeded` when the tables are full.
    pub fn create(&mut self, tasks_mask: BooleanVector, receivers_mask: BooleanVector, src_buffer: Vec<u32>) -> (res:
        Result<MessageId, KernelError>)
        requires
            old(self).wf(),
        ensures
            final(self).wf(),
            final(self).tcb_table == old(self).tcb_table,
            src_buffer@.len() > MAX_BUFFER_SIZE ==> res == Err::<MessageId, KernelError>(
                KernelError::BufferOverflow,
            ) && final(self).mcb_table == old(self).mcb_table && final(self).msg_scb_table@ == old(self).msg_scb_table@ && final(self).msg_scb_table.count() == old(self).msg_scb_table.count(),
            src_buffer@.len() <= MAX_BUFFER_SIZE && old(self).msg_scb_table.count() >= MESSAGE_COUNT
                ==> res == Err::<MessageId, KernelError>(KernelError::LimitExceeded) && final(self).mcb_table == old(self).mcb_table && final(self).msg_scb_table@ == old(self).msg_scb_table@ && final(self).msg_scb_table.count() == old(self).msg_scb_table.count(),
            src_buffer@.len() <= MAX_BUFFER_SIZE && old(self).msg_scb_table.count() < MESSAGE_COUNT
                ==> {
                let id = old(self).msg_scb_table.count() as int;
                &&& res == Ok::<MessageId, KernelError>(id as usize)
                &&& final(self).msg_scb_table.count() == id + 1
                &&& final(self).msg_scb_table@ == old(self).msg_scb_table@.update(
                    id,
                    Some(SemaphoreControlBlock { flags: 0, tasks: tasks_mask }),
                )
                &&& final(self).mcb_table@.len() == MESSAGE_COUNT
                &&& final(self).mcb_table@[id].src_buffer@ == src_buffer@
                &&& final(self).mcb_table@[id].receivers == old(self).mcb_table@[id].receivers
                    | receivers_mask
                &&& forall|m: int|
                    0 <= m < MESSAGE_COUNT && m != id ==> #[trigger] final(self).mcb_table@[m]
                        == old(self).mcb_table@[m]
            },
    {
        if MAX_BUFFER_SIZE < src_buffer.len() {
            return Err(KernelError::BufferOverflow);
        }
        let msg_id = self.msg_scb_table.add_semaphore(tasks_mask)?;
        let mut mcb = MCB { receivers: 0, src_buffer: Vec::new() };
        core::mem::swap(&mut mcb, &mut self.mcb_table[msg_id]);
        mcb.src_buffer = src_buffer;
        mcb.receivers = mcb.receivers | receivers_mask;
        core::mem::swap(&mut mcb, &mut self.mcb_table[msg_id]);
        Ok(msg_id)
    }
}

} // verus!
