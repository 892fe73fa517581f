use consistent_hash_math::marbles_demo::{marbles_demo_trials, tally_marble_trials, MarbleTally};
use consistent_hash_math::{single_marble_trial, MarblesDemoOpts, RedGreen};

#[test]
fn from_random_picks_by_remainder() {
    assert_eq!(RedGreen::from_random(2, 3, 3), RedGreen::Red);
    assert_eq!(RedGreen::from_random(5, 3, 3), RedGreen::Green);
    assert_eq!(RedGreen::from_random(7, 3, 3), RedGreen::Red);
    assert_eq!(RedGreen::from_random(3, 3, 3), RedGreen::Green);
    assert_eq!(RedGreen::from_random(u32::MAX, 0, 1), RedGreen::Green);
    assert_eq!(RedGreen::from_random(u32::MAX, 1, 0), RedGreen::Red);
}

#[test]
fn second_marble_comes_from_a_smaller_bag() {
    // one of each: the second marble is always the other colour
    assert_eq!(single_marble_trial(0, 0, 1), (RedGreen::Red, RedGreen::Green));
    assert_eq!(single_marble_trial(1, 0, 1), (RedGreen::Green, RedGreen::Red));
    // two of each: first red (0 % 4 = 0), then 1 red and 2 green, 0 % 3 = 0 is red
    assert_eq!(single_marble_trial(0, 0, 2), (RedGreen::Red, RedGreen::Red));
    assert_eq!(single_marble_trial(0, 1, 2), (RedGreen::Red, RedGreen::Green));
    // first green (3 % 4 = 3), then 2 red and 1 green, 2 % 3 = 2 is green
    assert_eq!(single_marble_trial(3, 2, 2), (RedGreen::Green, RedGreen::Green));
    assert_eq!(single_marble_trial(3, 1, 2), (RedGreen::Green, RedGreen::Red));
}

#[test]
fn tally_counts_pairs_of_words() {
    let rands = vec![0, 0, 0, 1, 3, 2, 3, 1, 0, 0, 99];
    let t = tally_marble_trials(&rands, 2);
    assert_eq!(
        t,
        MarbleTally { red_red: 2, red_green: 1, green_red: 1, green_green: 1 }
    );
    let empty = tally_marble_trials(&vec![7], 0);
    assert_eq!(empty, MarbleTally { red_red: 0, red_green: 0, green_red: 0, green_green: 0 });
}

#[test]
fn marbles_demo_counts_every_trial() {
    let options = MarblesDemoOpts { color_count: 10, trial_count: 2000, dark_mode: false };
    let t = marbles_demo_trials(&options).unwrap();
    assert_eq!(t.red_red + t.red_green + t.green_red + t.green_green, 2000);
    // same colour should come out a bit less often than different colours
    let same = t.red_red + t.green_green;
    assert!(same > 500 && same < 1400, "same {}", same);
}

#[test]
fn one_marble_of_each_never_matches() {
    let options = MarblesDemoOpts { color_count: 1, trial_count: 500, dark_mode: true };
    let t = marbles_demo_trials(&options).unwrap();
    assert_eq!(t.red_red, 0);
    assert_eq!(t.green_green, 0);
    assert_eq!(t.red_green + t.green_red, 500);
}

#[test]
fn no_trials_with_an_empty_bag() {
    let options = MarblesDemoOpts { color_count: 0, trial_count: 0, dark_mode: false };
    let t = marbles_demo_trials(&options).unwrap();
    assert_eq!(t, MarbleTally { red_red: 0, red_green: 0, green_red: 0, green_green: 0 });
}

#[test]
fn one_period_of_draws_gives_the_expected_ratio() {
    for c in [1u32, 2, 3, 7, 20] {
        let (mut rr, mut rg, mut gr, mut gg) = (0u64, 0u64, 0u64, 0u64);
        for r1 in 0..2 * c {
            for r2 in 0..2 * c - 1 {
                match single_marble_trial(r1, r2, c) {
                    (RedGreen::Red, RedGreen::Red) => rr += 1,
                    (RedGreen::Red, RedGreen::Green) => rg += 1,
                    (RedGreen::Green, RedGreen::Red) => gr += 1,
                    (RedGreen::Green, RedGreen::Green) => gg += 1,
                }
            }
        }
        let c = c as u64;
        assert_eq!((rr, gg), (c * (c - 1), c * (c - 1)));
        assert_eq!((rg, gr), (c * c, c * c));
        assert_eq!((rr + gg) * c, (rg + gr) * (c - 1));
    }
}
