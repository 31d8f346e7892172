use carre::cards::{draw_cards_with_rolls, sample_three_cards};
use carre::mine::{MineCountdownAudio, MINE_BEEP_COUNT};
use carre::octopus::{attack_for_coin, OctopusAttack, OctopusPreSwoop, OctopusTelegraph};
use carre::sounds::catch_up;
use carre::shooter::{ShooterBurst, BURST_PROJECTILES};
use carre::spawn_requests::{ActiveSpawners, SpawnRequests};

#[test]
fn mine_beeps_on_schedule() {
    let mut a = MineCountdownAudio::new();
    // First frame: the first beep is due at once.
    assert_eq!(a.tick(16), 1);
    assert_eq!(a.tick(400), 0);
    // 516 ms: the second beep.
    assert_eq!(a.tick(100), 1);
    assert_eq!(a.beeps_played, 2);
    assert_eq!(a.tick(500), 1);
    assert_eq!(a.beeps_played, MINE_BEEP_COUNT);
    // Never more than three.
    assert_eq!(a.tick(5000), 0);
    assert_eq!(a.beeps_played, 3);
}

#[test]
fn mine_long_frame_catches_up() {
    let mut a = MineCountdownAudio::new();
    assert_eq!(a.tick(1200), 3);
    assert_eq!(a.elapsed_ms, 1200);
}

#[test]
fn mine_beeps_follow_total_time() {
    // The same 1000 ms cut two ways gives the same beeps.
    let mut a = MineCountdownAudio::new();
    let mut total = 0;
    for dt in [250u64, 250, 250, 250] {
        total += a.tick(dt);
    }
    let mut b = MineCountdownAudio::new();
    let once = b.tick(1000);
    assert_eq!(total, once);
    assert_eq!(a.beeps_played, b.beeps_played);
}

#[test]
fn burst_fires_three_then_ends() {
    let mut b = ShooterBurst::new();
    assert_eq!(b.remaining, BURST_PROJECTILES);
    let t = b.tick(false);
    assert!(!t.fire && !t.done);
    let t = b.tick(true);
    assert!(t.fire && !t.done);
    let t = b.tick(true);
    assert!(t.fire && !t.done);
    let t = b.tick(false);
    assert!(!t.fire && !t.done);
    let t = b.tick(true);
    assert!(t.fire && t.done);
    assert_eq!(b.remaining, 0);
}

#[test]
fn cards_drawn_by_rolls() {
    // Cards 1 and 3 are left out (already equipped).
    let offered = [true, false, true, false, true, true];
    // Pool: [0, 2, 4, 5]; roll 1 → 2, then [0, 4, 5]; roll 2 → 5; then [0, 4]; roll 0 → 0.
    assert_eq!(draw_cards_with_rolls(&offered, &[1, 2, 0]), vec![2, 5, 0]);
    assert_eq!(draw_cards_with_rolls(&offered, &[]), Vec::<usize>::new());
    assert_eq!(draw_cards_with_rolls(&offered, &[3]), vec![5]);
}

#[test]
fn sample_three_distinct_offered_cards() {
    let offered = [true, false, true, true, true, false, true];
    for _ in 0..50 {
        let cards = sample_three_cards(&offered);
        assert_eq!(cards.len(), 3);
        for (k, &c) in cards.iter().enumerate() {
            assert!(offered[c]);
            assert!(!cards[..k].contains(&c));
        }
    }
}

#[test]
fn sample_small_pool() {
    let cards = sample_three_cards(&[false, true, false]);
    assert_eq!(cards, vec![1]);
    let cards = sample_three_cards(&[false, false]);
    assert!(cards.is_empty());
    let mut two = sample_three_cards(&[true, true]);
    two.sort();
    assert_eq!(two, vec![0, 1]);
}

#[test]
fn requests_served_oldest_first_per_enemy() {
    let mut q: SpawnRequests<(i32, i32)> = SpawnRequests::new();
    q.push("green_ufo", 4, (0, 0));
    q.push("boss", 1, (0, 50));
    q.push("green_ufo", 2, (10, 10));
    let r = q.take_for("green_ufo").unwrap();
    assert_eq!((r.name, r.count, r.position), ("green_ufo", 4, (0, 0)));
    assert!(q.take_for("asteroid").is_none());
    let r = q.take_for("boss").unwrap();
    assert_eq!((r.count, r.position), (1, (0, 50)));
    let r = q.take_for("green_ufo").unwrap();
    assert_eq!(r.count, 2);
    assert!(q.take_for("green_ufo").is_none());
    assert!(q.queue.is_empty());
}

#[test]
fn spawners_switch_on_and_off() {
    let mut s: ActiveSpawners<(usize, u32)> = ActiveSpawners::new();
    assert!(s.get("green_ufo").is_none());
    s.insert("green_ufo", (4, 5000));
    s.insert("asteroid", (1, 800));
    assert_eq!(s.get("green_ufo"), Some(&(4, 5000)));
    s.insert("green_ufo", (2, 3000));
    assert_eq!(s.get("green_ufo"), Some(&(2, 3000)));
    s.remove("green_ufo");
    assert!(s.get("green_ufo").is_none());
    assert_eq!(s.get("asteroid"), Some(&(1, 800)));
    s.remove("kamikaze");
    assert_eq!(s.get("asteroid"), Some(&(1, 800)));
}

#[test]
fn sound_catch_up() {
    assert_eq!(catch_up(0, 0, 500, 3), 1);
    assert_eq!(catch_up(1, 499, 500, 3), 1);
    assert_eq!(catch_up(1, 500, 500, 3), 2);
    assert_eq!(catch_up(0, 5000, 500, 3), 3);
    // Already past what is due: nothing more.
    assert_eq!(catch_up(2, 100, 500, 3), 2);
    assert_eq!(catch_up(0, 5000, 600, 0), 0);
}

#[test]
fn telegraph_asks_once() {
    let mut t = OctopusTelegraph::new();
    assert_eq!(t.tick(150), None);
    assert_eq!(t.tick(150), None);
    let a = t.tick(150);
    assert!(matches!(a, Some(OctopusAttack::Swoop) | Some(OctopusAttack::Shoot)));
    assert!(t.fired);
    assert_eq!(t.elapsed_ms, 450);
    assert_eq!(t.tick(1000), None);
    assert_eq!(t.elapsed_ms, 450);
}

#[test]
fn coin_decides_attack() {
    assert_eq!(attack_for_coin(true), OctopusAttack::Swoop);
    assert_eq!(attack_for_coin(false), OctopusAttack::Shoot);
}

#[test]
fn pre_swoop_plays_two_rush_sounds() {
    let mut p = OctopusPreSwoop::new();
    assert_eq!(p.tick(16), 1);
    assert_eq!(p.tick(200), 0);
    assert_eq!(p.tick(84), 1);
    assert_eq!(p.tick(300), 0);
    assert_eq!(p.sounds_played, 2);
    let mut q = OctopusPreSwoop::new();
    assert_eq!(q.tick(300), 2);
    assert_eq!(q.tick(300), 0);
}
