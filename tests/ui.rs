use claw_machine::audio::{pick_random, AudioCollection, SoundPool};
use claw_machine::claw::{ClawController, ClawControllerState};
use claw_machine::collision::CollisionEvent;
use claw_machine::controls::{key_for_scan_code, MappedKey};
use claw_machine::gameplay::{Countdown, GameSettings, Gamemode, MenuButton};
use claw_machine::glass::GlassHitTime;
use claw_machine::menu::{ButtonInteraction, ButtonState, MenuEntry, MenuKeys};
use claw_machine::movement::{movement_impulse, next_target, Impulse, MovementKeys};
use claw_machine::text::decimal_string;

#[test]
fn asset_paths_are_lower_case() {
    assert_eq!(AudioCollection::Drop3.asset_path(), "audio/drop3.ogg");
    assert_eq!(AudioCollection::Background1.asset_path(), "audio/background1.ogg");
    assert_eq!(AudioCollection::Background1.name(), "Background1");
    assert_eq!(AudioCollection::all().len(), 19);
}

#[test]
fn pools_hold_their_sounds() {
    assert_eq!(SoundPool::Drop.sounds().len(), 6);
    assert_eq!(
        SoundPool::Glass.sounds(),
        vec![AudioCollection::Glass3, AudioCollection::Glass4]
    );
    for _ in 0..50 {
        let s = SoundPool::Gameplay.pick();
        assert!(SoundPool::Gameplay.sounds().contains(&s));
    }
}

#[test]
fn random_pick_reaches_every_sound() {
    let pool = SoundPool::Drop.sounds();
    let mut seen = Vec::new();
    for _ in 0..2_000 {
        let s = pick_random(&pool);
        assert!(pool.contains(&s));
        if !seen.contains(&s) {
            seen.push(s);
        }
    }
    assert_eq!(seen.len(), 6);
    assert_eq!(pick_random(&vec![AudioCollection::Win1]), AudioCollection::Win1);
}

#[test]
fn decimal_text() {
    assert_eq!(decimal_string(0), "0");
    assert_eq!(decimal_string(7), "7");
    assert_eq!(decimal_string(1205), "1205");
    assert_eq!(decimal_string(u64::MAX), "18446744073709551615");
}

fn menu() -> Vec<MenuEntry> {
    vec![
        MenuEntry { id: 10, selected_by_default: true },
        MenuEntry { id: 11, selected_by_default: false },
        MenuEntry { id: 12, selected_by_default: false },
    ]
}

fn keys(up: bool, down: bool, confirm: bool) -> MenuKeys {
    MenuKeys { up, down, confirm }
}

#[test]
fn menu_down_and_up_from_default() {
    let mut s = ButtonState::new();
    assert_eq!(s.keyboard_interaction(&menu(), keys(false, true, false)), None);
    assert_eq!(s.selected, Some(11));
    let mut s = ButtonState::new();
    s.keyboard_interaction(&menu(), keys(true, false, false));
    assert_eq!(s.selected, Some(12));
}

#[test]
fn menu_moves_from_first_selected_or_default_button() {
    let mut s = ButtonState::new();
    s.keyboard_interaction(&menu(), keys(false, true, false));
    s.keyboard_interaction(&menu(), keys(false, true, false));
    assert_eq!(s.selected, Some(11));
    let entries = vec![
        MenuEntry { id: 10, selected_by_default: false },
        MenuEntry { id: 11, selected_by_default: true },
    ];
    let mut s = ButtonState { selected: Some(11), prev_selected: None };
    s.keyboard_interaction(&entries, keys(false, true, false));
    assert_eq!(s.selected, Some(10));
}

#[test]
fn menu_confirm_presses_selected_or_default() {
    let mut s = ButtonState::new();
    assert_eq!(s.keyboard_interaction(&menu(), keys(false, false, true)), Some(10));
    let mut s = ButtonState { selected: Some(12), prev_selected: None };
    assert_eq!(s.keyboard_interaction(&menu(), keys(false, false, true)), Some(12));
    assert_eq!(s.keyboard_interaction(&menu(), keys(false, false, false)), None);
}

#[test]
fn pointer_selects_and_presses() {
    let mut s = ButtonState::new();
    assert_eq!(s.pointer_interaction(11, ButtonInteraction::Hovered), None);
    assert_eq!(s.selected, Some(11));
    assert_eq!(s.pointer_interaction(12, ButtonInteraction::Clicked), Some(12));
    assert_eq!(s.selected, Some(12));
    assert_eq!(s.pointer_interaction(10, ButtonInteraction::Idle), None);
    assert_eq!(s.selected, Some(12));
}

#[test]
fn selection_change_is_seen_once() {
    let mut s = ButtonState::new();
    assert!(!s.selected_button_changed());
    s.pointer_interaction(11, ButtonInteraction::Hovered);
    assert!(s.selected_button_changed());
    assert!(!s.selected_button_changed());
    assert_eq!(s.prev_selected, Some(11));
}

fn no_keys() -> MovementKeys {
    MovementKeys { forward: false, left: false, back: false, right: false, down: false, up: false }
}

#[test]
fn movement_impulse_from_keys() {
    assert_eq!(movement_impulse(no_keys(), 16), None);
    let k = MovementKeys { forward: true, right: true, ..no_keys() };
    assert_eq!(movement_impulse(k, 16), Some(Impulse { x: 160, y: 0, z: -160 }));
    let k = MovementKeys { forward: true, back: true, up: true, ..no_keys() };
    assert_eq!(movement_impulse(k, 10), Some(Impulse { x: 0, y: 100, z: 0 }));
    let k = MovementKeys { left: true, down: true, ..no_keys() };
    assert_eq!(movement_impulse(k, 1), Some(Impulse { x: -10, y: -10, z: 0 }));
}

#[test]
fn switching_target_cycles() {
    assert_eq!(next_target(0, 3), 1);
    assert_eq!(next_target(2, 3), 0);
    assert_eq!(next_target(0, 1), 0);
    assert_eq!(next_target(0, 0), 0);
}

#[test]
fn scan_codes_map_to_letters() {
    assert_eq!(key_for_scan_code(17), Some(MappedKey::W));
    assert_eq!(key_for_scan_code(30), Some(MappedKey::A));
    assert_eq!(key_for_scan_code(31), Some(MappedKey::S));
    assert_eq!(key_for_scan_code(32), Some(MappedKey::D));
    assert_eq!(key_for_scan_code(99), None);
}

#[test]
fn glass_hits_are_spaced_and_capped() {
    let mut t = GlassHitTime(0);
    let events = vec![CollisionEvent::Started(50, 1)];
    let glasses = vec![51, 50];
    let s = t.on_events(&events, 1, &glasses, 1_000, 2_000).unwrap();
    assert_eq!(s.volume, 1_500);
    assert!(SoundPool::Glass.sounds().contains(&s.sound));
    assert_eq!(t.0, 1_000);
    assert!(t.on_events(&events, 1, &glasses, 1_200, 300).is_none());
    assert_eq!(t.0, 1_000);
    let s = t.on_events(&events, 1, &glasses, 1_501, 300).unwrap();
    assert_eq!(s.volume, 300);
    assert_eq!(t.0, 1_501);
}

#[test]
fn other_contacts_make_no_glass_sound() {
    let mut t = GlassHitTime(0);
    let events = vec![CollisionEvent::Started(2, 50), CollisionEvent::Stopped(1, 50)];
    assert!(t.on_events(&events, 1, &vec![50], 10_000, 100).is_none());
    assert_eq!(t.0, 0);
}

#[test]
fn countdown_hands_over_the_claw() {
    let mut c = Countdown::new();
    let mut claw = ClawController::new();
    assert_eq!(c.label(), 3);
    assert!(!c.tick(1_500, &mut claw));
    assert_eq!(c.label(), 2);
    assert_eq!(claw.0, ClawControllerState::Locked);
    assert!(c.tick(1_500, &mut claw));
    assert_eq!(claw.0, ClawControllerState::Manual);
    assert_eq!(c.label(), 0);
    assert!(!c.tick(1_500, &mut claw));
}

#[test]
fn main_menu_selects_mode() {
    let mut s = GameSettings::default();
    assert_eq!(s.gamemode, None);
    assert!(!s.select(MenuButton::NumberGame));
    assert_eq!(s.gamemode, Some(Gamemode::NumberGame));
    assert!(!s.select(MenuButton::SpeedGame));
    assert_eq!(s.gamemode, Some(Gamemode::SpeedGame));
    assert!(s.select(MenuButton::Quit));
    assert_eq!(s.gamemode, None);
}
