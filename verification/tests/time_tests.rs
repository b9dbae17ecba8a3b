use harsark::event_manager::{EventTableType, EventType};
use harsark::kernel::{Kernel, TickFault};
use harsark::scheduler::Dispatch;
use harsark::time::{TickType, Time};
use harsark::timer::{get_time, update_time};

fn at(day: u32, hour: u32, min: u32, sec: u32, m_sec_10: u32) -> Time {
    Time { m_sec_10, sec, min, hour, day }
}

#[test]
fn time_starts_at_zero() {
    assert_eq!(Time::new(), at(0, 0, 0, 0, 0));
}

#[test]
fn tick_within_second() {
    let mut t = at(0, 0, 0, 0, 5);
    assert_eq!(t.tick(), TickType::MilliSec10);
    assert_eq!(t, at(0, 0, 0, 0, 6));
}

#[test]
fn tick_carries_into_seconds_minutes_hours_days() {
    let mut t = at(0, 0, 0, 3, 99);
    assert_eq!(t.tick(), TickType::Sec);
    assert_eq!(t, at(0, 0, 0, 4, 0));

    let mut t = at(0, 0, 7, 59, 99);
    assert_eq!(t.tick(), TickType::Min);
    assert_eq!(t, at(0, 0, 8, 0, 0));

    let mut t = at(0, 5, 59, 59, 99);
    assert_eq!(t.tick(), TickType::Hour);
    assert_eq!(t, at(0, 6, 0, 0, 0));

    let mut t = at(2, 23, 59, 59, 99);
    assert_eq!(t.tick(), TickType::Day);
    assert_eq!(t, at(3, 0, 0, 0, 0));
}

#[test]
fn day_counter_wraps() {
    let mut t = at(u32::MAX - 1, 23, 59, 59, 99);
    assert_eq!(t.tick(), TickType::Day);
    assert_eq!(t, at(0, 0, 0, 0, 0));
}

#[test]
fn fields_beyond_their_limit_only_increment() {
    let mut t = at(0, 0, 0, 70, 150);
    assert_eq!(t.tick(), TickType::MilliSec10);
    assert_eq!(t, at(0, 0, 0, 70, 151));
}

#[test]
fn one_day_of_ticks() {
    let mut t = Time::new();
    let mut days = 0;
    for _ in 0..8_640_000u32 {
        if t.tick() == TickType::Day {
            days += 1;
        }
    }
    assert_eq!(days, 1);
    assert_eq!(t, at(1, 0, 0, 0, 0));
}

#[test]
fn timer_counts_interrupts() {
    let mut time = 0u32;
    update_time(&mut time);
    update_time(&mut time);
    assert_eq!(get_time(&time), 2);
    assert_eq!(get_time(&time), 2);
    let mut t = u32::MAX - 5;
    for _ in 0..5 {
        update_time(&mut t);
    }
    assert_eq!(get_time(&t), u32::MAX);
}

#[test]
fn can_tick_detects_overflow() {
    assert!(at(0, 0, 0, 0, 0).can_tick());
    assert!(at(u32::MAX - 1, 23, 59, 59, 99).can_tick());
    assert!(!at(0, 0, 0, 0, u32::MAX).can_tick());
    assert!(!at(0, 0, 0, u32::MAX, 99).can_tick());
    assert!(at(0, 0, 0, u32::MAX, 5).can_tick());
}

#[test]
fn kernel_tick_sweeps_events_and_schedules() {
    let mut k = Kernel::new();
    let mut idle = vec![0u32; 64];
    let mut st = vec![0u32; 64];
    harsark::tasks::init(&mut k.scheduler, &mut idle, 0x1000, 1).unwrap();
    harsark::tasks::create_task(&mut k.scheduler, true, 1, &mut st, 0x2000, 2, 0).unwrap();
    k.scheduler.is_running = true;
    let ms = k.events.create(true, EventType::FreeRunning, 1, EventTableType::MilliSec);
    k.events.set_tasks(ms, 0b10);
    let sec = k.events.create(true, EventType::OnOff, 0, EventTableType::Sec);
    k.events.set_tasks(sec, 0b100);
    harsark::task_monitor::set_deadline(&mut k.monitor, 0, 1, 0);
    let out = k.sys_tick().unwrap();
    assert_eq!(out.dispatch, Dispatch::Stay);
    assert_eq!(out.missed, 0b10);
    assert_eq!(k.scheduler.active_tasks, 0b11);
    assert_eq!(k.timer, 1);
    let out = k.sys_tick().unwrap();
    assert_eq!(out.dispatch, Dispatch::Switch { prev: None, next: 1 });
    assert_eq!(out.missed, 0);
    k.time = harsark::time::Time { m_sec_10: 99, sec: 0, min: 0, hour: 0, day: 0 };
    k.sys_tick().unwrap();
    assert_eq!(k.scheduler.active_tasks, 0b111);
    k.timer = u32::MAX;
    assert_eq!(k.sys_tick(), Err(TickFault::TimerOverflow));
    k.timer = 0;
    k.time.m_sec_10 = u32::MAX;
    assert_eq!(k.sys_tick(), Err(TickFault::ClockOverflow));
}

#[test]
fn kernel_tick_reports_out_of_range_successor() {
    let mut k = Kernel::new();
    let e = k.events.create(true, EventType::OnOff, 0, EventTableType::MilliSec);
    k.events.set_next_event(e, 50);
    assert_eq!(k.sys_tick(), Err(TickFault::EventOutOfRange));
}
