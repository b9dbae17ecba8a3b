# harsark

The core of a small real-time kernel for single-core Cortex-M
microcontrollers, written in Verus and verified.

`src/` is the verified library. Every kernel component is a plain value
with a contract:

- `scheduler`, `tasks`: the priority scheduler (ready, blocked and finished
  tasks as bit vectors, preemption points, task creation with its initial
  exception frame) and the task routines over it;
- `semaphores`, `messaging`, `message_buffers`: binary semaphores with a flag
  per task, and messages built on them;
- `event_manager`, `events`: timed events swept at 10 ms, second, minute and
  hour periods, and what each firing asks of the kernel;
- `resource`: resources shared under the priority ceiling protocol;
- `time`, `timer`, `task_monitor`, `logging`: the clock, the timer count,
  task deadlines and the event log;
- `kernel`: the state that the timer interrupt drives, and one timer tick
  over it (scheduling point, timer, event sweeps and their actions, clock,
  deadlines);
- `bits`, `helper`: task sets as bit vectors and the highest-priority query.

`app/` is the board support: it keeps one global instance of each component
behind critical sections, tests the privilege level, performs the context
switches that the scheduler decides through PendSV and SVC, and calls
`Kernel::sys_tick` from the SysTick handler.

`tests/` runs the library on concrete scenarios.
