use claw_machine::gameplay::Gamemode;
use claw_machine::audio::{AudioCollection, SoundPool};
use claw_machine::game_results::GameResults;
use claw_machine::number_game::NumberGameProgress;
use claw_machine::session::SessionEvent;
use claw_machine::speed_game::SpeedGameProgress;
use claw_machine::timer::SessionTimer;

#[test]
fn timer_runs_out_once() {
    let mut t = SessionTimer::new(100);
    assert!(!t.tick(60));
    assert!(t.tick(60));
    assert_eq!(t.elapsed, 100);
    assert!(t.finished());
    assert!(!t.tick(60));
}

#[test]
fn paused_timer_stands_still() {
    let mut t = SessionTimer::new(100);
    t.pause();
    assert!(!t.tick(500));
    assert_eq!(t.elapsed, 0);
}

#[test]
fn speed_game_releases_when_time_runs_out() {
    let mut p = SpeedGameProgress::default();
    assert_eq!(p.timer.duration, 20_000);
    assert!(!p.update(19_999));
    assert!(p.update(1));
    assert!(p.timer.paused);
    assert!(!p.update(1000));
    assert_eq!(p.timer.elapsed, 20_000);
}

#[test]
fn speed_game_without_catch_is_lost() {
    let mut p = SpeedGameProgress::default();
    for _ in 0..40 {
        p.handle(SessionEvent::Tick(500));
    }
    let r = p.handle(SessionEvent::ClawReturned);
    assert!(r.show_results);
    let res = GameResults::SpeedGame(p);
    assert!(!res.is_win());
    assert_eq!(res.title(), "You lose =(");
}

#[test]
fn speed_game_catch_at_any_time_wins() {
    for catch_at in [0u64, 1, 5_000, 19_999] {
        let mut p = SpeedGameProgress::default();
        p.handle(SessionEvent::Tick(catch_at));
        p.handle(SessionEvent::ToyCaught);
        p.handle(SessionEvent::Tick(30_000));
        let r = p.handle(SessionEvent::ClawReturned);
        assert!(r.show_results);
        assert!(GameResults::SpeedGame(p).is_win());
    }
}

#[test]
fn speed_game_release_pauses_timer() {
    let mut p = SpeedGameProgress::default();
    p.update(12_345);
    p.pause_timer();
    p.update(1_000);
    p.register_toy_catch();
    assert_eq!(p.timer.elapsed, 12_345);
    assert_eq!(GameResults::SpeedGame(p).title(), "12.35 sec!");
}

#[test]
fn speed_title_formats_hundredths() {
    let mut p = SpeedGameProgress::default();
    p.toy_caught = true;
    p.timer.elapsed = 5_000;
    assert_eq!(GameResults::SpeedGame(p).title(), "5.00 sec!");
    p.timer.elapsed = 20_000;
    assert_eq!(GameResults::SpeedGame(p).title(), "20.00 sec!");
    p.timer.elapsed = 1_234;
    assert_eq!(GameResults::SpeedGame(p).title(), "1.23 sec!");
    p.timer.elapsed = 9_999;
    assert_eq!(GameResults::SpeedGame(p).title(), "10.00 sec!");
}

#[test]
fn number_game_without_catch_is_lost() {
    let mut p = NumberGameProgress::default();
    assert_eq!(p.timer.duration, 7_000);
    let mut released = 0;
    for _ in 0..8 {
        if p.handle(SessionEvent::Tick(1_000)).release_claw {
            released += 1;
        }
    }
    assert_eq!(released, 1);
    let r = p.handle(SessionEvent::ClawReturned);
    assert!(r.show_results);
    assert!(!r.rearm_claw);
    assert_eq!(p.toys_caught, 0);
    let res = GameResults::NumberGame(p);
    assert!(!res.is_win());
    assert_eq!(res.title(), "You lose =(");
}

#[test]
fn number_game_one_catch_wins() {
    let mut p = NumberGameProgress::default();
    p.handle(SessionEvent::Tick(2_000));
    p.handle(SessionEvent::ToyCaught);
    p.handle(SessionEvent::Tick(6_000));
    assert_eq!(p.toys_caught, 1);
    let res = GameResults::NumberGame(p);
    assert!(res.is_win());
    assert_eq!(res.title(), "1 toy!");
}

#[test]
fn number_game_counts_catches() {
    let mut p = NumberGameProgress::default();
    p.increment_toys();
    p.increment_toys();
    p.increment_toys();
    assert_eq!(p.toys_caught, 3);
    assert_eq!(GameResults::NumberGame(p).title(), "3 toys!");
}

#[test]
fn number_game_rearms_while_time_is_left() {
    let mut p = NumberGameProgress::default();
    p.handle(SessionEvent::Tick(3_000));
    let r = p.handle(SessionEvent::ClawReturned);
    assert!(r.rearm_claw);
    assert!(!r.show_results);
}

#[test]
fn heartbeat_plays_once_at_five_seconds() {
    let mut p = NumberGameProgress::default();
    let t = p.update(1_000);
    assert!(!t.heartbeat);
    assert_eq!(p.countdown_text(), "6");
    let t = p.update(1);
    assert!(t.heartbeat);
    assert_eq!(p.countdown_text(), "5");
    let mut beats = 0;
    for _ in 0..7_000 {
        if p.update(1).heartbeat {
            beats += 1;
        }
    }
    assert_eq!(beats, 0);
    assert_eq!(p.countdown_text(), "");
}

#[test]
fn heartbeat_plays_once_over_tiny_ticks() {
    let mut p = NumberGameProgress::default();
    let mut beats = 0;
    for _ in 0..10_000 {
        if p.handle(SessionEvent::Tick(1)).heartbeat {
            beats += 1;
        }
    }
    assert_eq!(beats, 1);
    assert!(p.heartbeat_played);
}

#[test]
fn number_game_countdown_shows_whole_seconds() {
    let mut p = NumberGameProgress::default();
    assert_eq!(p.countdown_text(), "7");
    p.update(6_500);
    assert_eq!(p.countdown_text(), "");
}

#[test]
fn results_sound_follows_outcome() {
    let mut p = NumberGameProgress::default();
    let lost = GameResults::NumberGame(p);
    for _ in 0..20 {
        assert!(SoundPool::Defeat.sounds().contains(&lost.sound()));
    }
    p.increment_toys();
    assert_eq!(GameResults::NumberGame(p).sound(), AudioCollection::Win1);
}

#[test]
fn speed_progress_shows_seconds_with_two_decimals() {
    let mut p = SpeedGameProgress::default();
    assert_eq!(p.progress_text(), "0.00");
    p.update(3_456);
    assert_eq!(p.progress_text(), "3.46");
    p.update(10_000);
    assert_eq!(p.progress_text(), "13.46");
}

#[test]
fn results_name_their_mode() {
    assert_eq!(GameResults::SpeedGame(SpeedGameProgress::default()).mode(), Gamemode::SpeedGame);
    assert_eq!(GameResults::NumberGame(NumberGameProgress::default()).mode(), Gamemode::NumberGame);
}
