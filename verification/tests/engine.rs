use tunm_timer::handler::is_remove;
use tunm_timer::{now_microsecond, Factory, Handler, RetTimer, Timer, TimerError};

/// Answers `Okay` every time and counts its firings.
struct Plain {
    fired: u32,
}

impl Factory for Plain {
    fn on_trigger(&mut self, _timer: &mut Timer<Self>, _id: u64) -> RetTimer {
        self.fired += 1;
        RetTimer::Okay
    }
}

/// Answers `Okay` for the first `limit` firings, then `Over`.
struct Limited {
    times: u32,
    limit: u32,
}

impl Factory for Limited {
    fn on_trigger(&mut self, _timer: &mut Timer<Self>, _id: u64) -> RetTimer {
        self.times += 1;
        if self.times > self.limit {
            return RetTimer::Over;
        }
        RetTimer::Okay
    }
}

/// What a scripted callback does to the engine when it fires.
enum Script {
    Nothing,
    AddOneShot(u64),
    DeleteSelf,
    DeleteOther(u64),
    Stop,
}

struct Scripted {
    script: Script,
    answer_over: bool,
}

impl Factory for Scripted {
    fn on_trigger(&mut self, timer: &mut Timer<Self>, id: u64) -> RetTimer {
        match self.script {
            Script::Nothing => {}
            Script::AddOneShot(due) => {
                let inner = Scripted { script: Script::Nothing, answer_over: true };
                timer.add_timer(Handler::new_at(inner, due));
            }
            Script::DeleteSelf => {
                assert!(timer.del_timer(id).is_none());
            }
            Script::DeleteOther(other) => {
                assert!(timer.del_timer(other).is_some());
            }
            Script::Stop => timer.set_shutdown(true),
        }
        if self.answer_over {
            RetTimer::Over
        } else {
            RetTimer::Okay
        }
    }
}

fn plain() -> Plain {
    Plain { fired: 0 }
}

#[test]
fn one_shot_fires_once_when_due() {
    let base: u64 = 1_000_000;
    let mut timer: Timer<Plain> = Timer::new(0);
    let id = timer.add_timer(Handler::new_at(plain(), base + 1000));
    assert_eq!(id, 1);
    assert_eq!(timer.tick_time(base + 500), None);
    assert!(!timer.is_empty());
    assert_eq!(timer.tick_time(base + 1500), Some(id));
    assert!(timer.is_empty());
    assert_eq!(timer.tick_time(base + 2500), None);
    assert!(timer.del_timer(id).is_none());
}

#[test]
fn one_shot_fires_at_its_exact_due_time() {
    let mut timer: Timer<Plain> = Timer::new(0);
    let id = timer.add_timer(Handler::new_at(plain(), 700));
    assert_eq!(timer.tick_first(), Some(700));
    assert_eq!(timer.tick_time(699), None);
    assert_eq!(timer.tick_time(700), Some(id));
    assert_eq!(timer.tick_first(), None);
}

#[test]
fn repeating_alarm_survives_until_over() {
    let mut timer: Timer<Limited> = Timer::new(0);
    let id = timer.add_timer(Handler::new_step(Limited { times: 0, limit: 10 }, 1000, true, false));
    assert_ne!(id, 0);
    let far = now_microsecond() + 3_600_000_000;
    for _ in 0..10 {
        assert_eq!(timer.tick_time(far), Some(id));
        assert!(!timer.is_empty());
    }
    assert_eq!(timer.tick_time(far), Some(id));
    assert!(timer.is_empty());
    assert_eq!(timer.tick_time(far), None);
    assert!(timer.del_timer(id).is_none());
}

#[test]
fn repeating_alarm_is_rescheduled_an_interval_after_now() {
    let before = now_microsecond();
    let mut timer: Timer<Plain> = Timer::new(0);
    let id = timer.add_timer(Handler::new_step(plain(), 1_000_000, true, false));
    let first = timer.tick_first().unwrap();
    assert!(first >= before + 1_000_000);
    assert_eq!(timer.tick_time(before), None);
    assert_eq!(timer.tick_time(first), Some(id));
    let second = timer.tick_first().unwrap();
    assert!(second >= first);
    assert!(second >= before + 1_000_000);
    let after = now_microsecond();
    assert!(second <= after + 1_000_000);
}

#[test]
fn malformed_handle_is_rejected() {
    let mut timer: Timer<Plain> = Timer::new(0);
    assert_eq!(timer.add_timer(Handler::new_at(plain(), 0)), 0);
    assert!(timer.is_empty());
    assert_eq!(timer.tick_first(), None);
    assert_eq!(timer.add_timer_at(Handler::new_at(plain(), 0), 55), Err(TimerError::Malformed));
    assert!(timer.is_empty());
    let kept = timer.add_timer(Handler::new_at(plain(), 9));
    assert_eq!(kept, 1);
    assert_eq!(timer.add_timer(Handler::new_at(plain(), 0)), 0);
    assert_eq!(timer.tick_first(), Some(9));
    assert_eq!(timer.tick_time(9), Some(kept));
    assert!(timer.is_empty());
}

#[test]
fn alarms_fire_in_due_time_order() {
    let mut timer: Timer<Plain> = Timer::new(0);
    let c = timer.add_timer(Handler::new_at(plain(), 300));
    let a = timer.add_timer(Handler::new_at(plain(), 100));
    let d = timer.add_timer(Handler::new_at(plain(), 400));
    let b = timer.add_timer(Handler::new_at(plain(), 200));
    assert_eq!((c, a, d, b), (1, 2, 3, 4));
    assert_eq!(timer.tick_first(), Some(100));
    assert_eq!(timer.tick_time(1000), Some(a));
    assert_eq!(timer.tick_time(1000), Some(b));
    assert_eq!(timer.tick_time(1000), Some(c));
    assert_eq!(timer.tick_time(1000), Some(d));
    assert_eq!(timer.tick_time(1000), None);
}

#[test]
fn equal_due_times_fire_by_descending_id() {
    let mut timer: Timer<Plain> = Timer::new(0);
    let first = timer.add_timer(Handler::new_at(plain(), 500));
    let second = timer.add_timer(Handler::new_at(plain(), 500));
    let third = timer.add_timer(Handler::new_at(plain(), 500));
    let early = timer.add_timer(Handler::new_at(plain(), 499));
    assert_eq!((first, second, third, early), (1, 2, 3, 4));
    assert_eq!(timer.tick_time(500), Some(early));
    assert_eq!(timer.tick_time(500), Some(third));
    assert_eq!(timer.tick_time(500), Some(second));
    assert_eq!(timer.tick_time(500), Some(first));
    assert!(timer.is_empty());
}

#[test]
fn only_due_alarms_fire() {
    let mut timer: Timer<Plain> = Timer::new(0);
    let a = timer.add_timer(Handler::new_at(plain(), 10));
    let b = timer.add_timer(Handler::new_at(plain(), 20));
    assert_eq!(timer.tick_time(15), Some(a));
    assert_eq!(timer.tick_time(15), None);
    assert_eq!(timer.tick_first(), Some(20));
    assert_eq!(timer.tick_time(20), Some(b));
}

#[test]
fn ids_are_allocated_in_a_cycle_and_skip_those_in_use() {
    let mut timer: Timer<Plain> = Timer::new(0);
    assert_eq!(timer.get_max_id(), u32::MAX as u64);
    timer.set_max_id(3);
    assert_eq!(timer.get_max_id(), 3);
    assert_eq!(timer.add_timer(Handler::new_at(plain(), 10)), 1);
    assert_eq!(timer.add_timer(Handler::new_at(plain(), 20)), 2);
    assert_eq!(timer.add_timer(Handler::new_at(plain(), 30)), 3);
    assert_eq!(timer.add_timer(Handler::new_at(plain(), 40)), 0);
    assert_eq!(
        timer.add_timer_at(Handler::new_at(plain(), 40), 0),
        Err(TimerError::IdExhausted)
    );
    assert_eq!(timer.calc_new_id(), None);
    let removed = timer.del_timer(2).unwrap();
    assert_eq!(removed.id(), 2);
    assert_eq!(removed.due_time(), 20);
    assert_eq!(removed.interval(), 0);
    assert_eq!(timer.add_timer(Handler::new_at(plain(), 50)), 2);
    assert_eq!(timer.tick_time(100), Some(1));
    assert_eq!(timer.add_timer(Handler::new_at(plain(), 60)), 1);
    assert_eq!(timer.tick_time(100), Some(3));
    assert_eq!(timer.tick_time(100), Some(2));
    assert_eq!(timer.tick_time(100), Some(1));
    assert!(timer.is_empty());
}

#[test]
fn calc_new_id_advances_the_cursor() {
    let mut timer: Timer<Plain> = Timer::new(0);
    assert_eq!(timer.calc_new_id(), Some(1));
    assert_eq!(timer.calc_new_id(), Some(2));
    assert_eq!(timer.add_timer(Handler::new_at(plain(), 5)), 3);
    timer.set_max_id(4);
    assert_eq!(timer.calc_new_id(), Some(4));
    assert_eq!(timer.calc_new_id(), Some(1));
    assert_eq!(timer.calc_new_id(), Some(2));
    assert_eq!(timer.calc_new_id(), Some(4));
    timer.set_max_id(0);
    assert_eq!(timer.calc_new_id(), Some(1));
    assert_eq!(timer.calc_new_id(), Some(1));
}

#[test]
fn a_handle_with_an_id_in_use_gets_a_new_one() {
    let mut timer: Timer<Plain> = Timer::new(0);
    assert_eq!(timer.add_timer(Handler::new_at(plain(), 10)), 1);
    let mut again = Handler::new_at(plain(), 20);
    again.time_id = 1;
    assert_eq!(timer.add_timer(again), 2);
    let mut chosen = Handler::new_at(plain(), 30);
    chosen.time_id = 9;
    assert_eq!(timer.add_timer(chosen), 9);
    assert_eq!(timer.del_timer(9).unwrap().due_time(), 30);
    assert_eq!(timer.del_timer(1).unwrap().due_time(), 10);
    assert_eq!(timer.del_timer(2).unwrap().due_time(), 20);
    assert!(timer.is_empty());
}

#[test]
fn del_timer_removes_a_waiting_alarm() {
    let mut timer: Timer<Plain> = Timer::new(0);
    let a = timer.add_timer(Handler::new_at(plain(), 10));
    let b = timer.add_timer(Handler::new_at(plain(), 20));
    assert!(timer.del_timer(77).is_none());
    let handle = timer.del_timer(a).unwrap();
    assert_eq!(handle.id(), a);
    assert_eq!(handle.due_time(), 10);
    assert!(timer.del_timer(a).is_none());
    assert_eq!(timer.tick_first(), Some(20));
    assert_eq!(timer.tick_time(100), Some(b));
    assert_eq!(timer.tick_time(100), None);
}

#[test]
fn first_firing_at_once_then_spaced() {
    let mut timer: Timer<Plain> = Timer::new(0);
    let id = timer.add_timer_at(Handler::new_step(plain(), 1000, true, true), 5000).unwrap();
    assert_eq!(timer.tick_first(), Some(5000));
    let handle = timer.pop_due(5000).unwrap();
    assert_eq!(handle.id(), id);
    assert!(!handle.at_once);
    assert!(timer.is_empty());
    assert_eq!(timer.settle_at(handle, RetTimer::Okay, 6000), Some(id));
    assert_eq!(timer.tick_first(), Some(7000));
    assert!(timer.pop_due(6999).is_none());
    let handle = timer.pop_due(7000).unwrap();
    assert_eq!(handle.due_time(), 7000);
    assert_eq!(timer.settle_at(handle, RetTimer::Over, 7000), None);
    assert!(timer.is_empty());
    assert!(timer.del_timer(id).is_none());
    assert_eq!(timer.calc_new_id(), Some(2));
}

#[test]
fn first_firing_without_the_flag_is_an_interval_later() {
    let mut timer: Timer<Plain> = Timer::new(0);
    let id = timer.add_timer_at(Handler::new_step(plain(), 1000, false, false), 5000).unwrap();
    assert_eq!(timer.tick_first(), Some(6000));
    let handle = timer.pop_due(6000).unwrap();
    assert_eq!(timer.settle_at(handle, RetTimer::Continue, 6100), Some(id));
    assert_eq!(timer.tick_first(), Some(7100));
    let handle = timer.pop_due(8000).unwrap();
    assert_eq!(timer.settle_at(handle, RetTimer::Okay, 8000), None);
    assert!(timer.is_empty());
}

#[test]
fn due_time_is_capped() {
    let mut timer: Timer<Plain> = Timer::new(0);
    let id = timer.add_timer_at(Handler::new_step(plain(), u64::MAX, true, false), 5).unwrap();
    assert_eq!(id, 1);
    assert_eq!(timer.tick_first(), Some(u64::MAX));
    assert_eq!(timer.tick_time(u64::MAX - 1), None);
}

#[test]
fn the_id_of_a_firing_alarm_is_not_given_away() {
    let mut timer: Timer<Plain> = Timer::new(0);
    timer.set_max_id(2);
    let id = timer.add_timer_at(Handler::new_step(plain(), 10, true, false), 0).unwrap();
    assert_eq!(id, 1);
    let handle = timer.pop_due(10).unwrap();
    assert_eq!(timer.add_timer(Handler::new_at(plain(), 99)), 2);
    assert_eq!(timer.add_timer(Handler::new_at(plain(), 99)), 0);
    assert_eq!(timer.settle_at(handle, RetTimer::Okay, 20), Some(1));
    assert_eq!(timer.tick_first(), Some(30));
}

#[test]
fn policy_table() {
    assert!(is_remove(&RetTimer::Okay, 0, false));
    assert!(is_remove(&RetTimer::Okay, 0, true));
    assert!(!is_remove(&RetTimer::Okay, 5, true));
    assert!(is_remove(&RetTimer::Okay, 5, false));
    assert!(is_remove(&RetTimer::Continue, 0, false));
    assert!(is_remove(&RetTimer::Continue, 0, true));
    assert!(!is_remove(&RetTimer::Continue, 5, true));
    assert!(!is_remove(&RetTimer::Continue, 5, false));
    assert!(is_remove(&RetTimer::Over, 0, false));
    assert!(is_remove(&RetTimer::Over, 5, true));
    assert!(is_remove(&RetTimer::Over, 5, false));
}

#[test]
fn non_repeating_step_alarm_ends_after_okay() {
    let mut timer: Timer<Plain> = Timer::new(0);
    let id = timer.add_timer(Handler::new_step(plain(), 1000, false, true));
    assert_ne!(id, 0);
    let far = now_microsecond() + 3_600_000_000;
    assert_eq!(timer.tick_time(far), Some(id));
    assert!(timer.is_empty());
    assert!(timer.del_timer(id).is_none());
}

#[test]
fn callback_may_add_an_alarm() {
    let mut timer: Timer<Scripted> = Timer::new(0);
    let outer = Scripted { script: Script::AddOneShot(50), answer_over: false };
    let id = timer.add_timer(Handler::new_at(outer, 100));
    assert_eq!(timer.tick_time(200), Some(id));
    assert!(!timer.is_empty());
    assert_eq!(timer.tick_first(), Some(50));
    assert_eq!(timer.tick_time(200), Some(2));
    assert!(timer.is_empty());
}

#[test]
fn callback_may_delete_another_alarm() {
    let mut timer: Timer<Scripted> = Timer::new(0);
    let victim = timer.add_timer(Handler::new_at(
        Scripted { script: Script::Nothing, answer_over: true },
        300,
    ));
    let killer = timer.add_timer(Handler::new_at(
        Scripted { script: Script::DeleteOther(victim), answer_over: true },
        100,
    ));
    assert_eq!(timer.tick_time(1000), Some(killer));
    assert!(timer.is_empty());
    assert_eq!(timer.tick_time(1000), None);
}

#[test]
fn callback_that_deletes_itself_still_goes_on_when_repeating() {
    let mut timer: Timer<Scripted> = Timer::new(0);
    let id = timer.add_timer(Handler::new_step(
        Scripted { script: Script::DeleteSelf, answer_over: false },
        1000,
        true,
        true,
    ));
    let far = now_microsecond() + 3_600_000_000;
    assert_eq!(timer.tick_time(far), Some(id));
    assert!(!timer.is_empty());
    assert_eq!(timer.del_timer(id).unwrap().id(), id);
    assert!(timer.is_empty());
}

#[test]
fn callback_may_request_shutdown() {
    let mut timer: Timer<Scripted> = Timer::new(250);
    assert!(!timer.is_shutdown());
    let id = timer.add_timer(Handler::new_at(
        Scripted { script: Script::Stop, answer_over: true },
        1,
    ));
    assert_eq!(timer.tick_time(1), Some(id));
    assert!(timer.is_shutdown());
    timer.set_shutdown(false);
    assert!(!timer.is_shutdown());
}

#[test]
fn constructors_set_the_parameters() {
    let step = Handler::new_step(plain(), 1000, true, true);
    assert_eq!(step.id(), 0);
    assert_eq!(step.due_time(), 0);
    assert_eq!(step.interval(), 1000);
    assert!(step.is_repeat);
    assert!(step.at_once);
    let clamped = Handler::new_step(plain(), 0, false, false);
    assert_eq!(clamped.interval(), 1);
    let at = Handler::new_at(plain(), 77);
    assert_eq!(at.id(), 0);
    assert_eq!(at.due_time(), 77);
    assert_eq!(at.interval(), 0);
    assert!(!at.is_repeat);
    assert!(!at.at_once);
    assert_eq!(at.factory.fired, 0);
}

#[test]
fn settings_are_kept() {
    let mut timer: Timer<Plain> = Timer::new(250);
    assert_eq!(timer.get_trigger_step(), 250);
    timer.set_trigger_step(40);
    assert_eq!(timer.get_trigger_step(), 40);
    assert!(timer.is_empty());
    assert!(!timer.is_shutdown());
    timer.set_shutdown(true);
    assert!(timer.is_shutdown());
}

#[test]
fn sleep_time_is_what_is_left_of_the_cadence() {
    let mut timer: Timer<Plain> = Timer::new(1000);
    assert_eq!(timer.sleep_time(5000, 5300), 700);
    assert_eq!(timer.sleep_time(5000, 5000), 1000);
    assert_eq!(timer.sleep_time(5000, 6000), 0);
    assert_eq!(timer.sleep_time(5000, 9000), 0);
    assert_eq!(timer.sleep_time(5000, 4000), 1000);
    timer.set_trigger_step(0);
    assert_eq!(timer.sleep_time(5000, 5000), 0);
}

#[test]
fn many_alarms_come_out_sorted() {
    let mut timer: Timer<Plain> = Timer::new(0);
    let mut due: u64 = 7;
    for _ in 0..200 {
        due = (due * 31 + 11) % 1009;
        assert_ne!(timer.add_timer(Handler::new_at(plain(), due + 1)), 0);
    }
    for id in 1..=50u64 {
        assert!(timer.del_timer(id * 3).is_some());
    }
    let mut last: (u64, u64) = (0, u64::MAX);
    let mut count = 0;
    loop {
        let first = match timer.tick_first() {
            Some(first) => first,
            None => break,
        };
        let id = timer.tick_time(2000).unwrap();
        assert!(first > last.0 || (first == last.0 && id < last.1));
        last = (first, id);
        count += 1;
    }
    assert_eq!(count, 150);
    assert!(timer.is_empty());
}

#[test]
fn drain_fires_all_that_is_due() {
    let mut timer: Timer<Plain> = Timer::new(0);
    for due in [10u64, 20, 30, 40, 50] {
        assert_ne!(timer.add_timer(Handler::new_at(plain(), due)), 0);
    }
    assert_eq!(timer.drain_due(5, 100), 0);
    assert_eq!(timer.drain_due(35, 2), 2);
    assert_eq!(timer.tick_first(), Some(30));
    assert_eq!(timer.drain_due(35, 0), 0);
    assert_eq!(timer.drain_due(35, 100), 1);
    assert_eq!(timer.tick_first(), Some(40));
    assert_eq!(timer.drain_due(u64::MAX, u64::MAX), 2);
    assert!(timer.is_empty());
}
