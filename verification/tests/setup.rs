use onitamalib::cards::is_listed;
use onitamalib::cards::CardDescription;
use onitamalib::cards::CardSetDescription;
use onitamalib::cards::Catalogue;
use onitamalib::models::Board;
use onitamalib::models::Card;
use onitamalib::models::CardDirection;
use onitamalib::models::GameSettings;
use onitamalib::models::GameState;
use onitamalib::models::Player;
use onitamalib::models::Point;
use onitamalib::setup::wind_card_count;
use onitamalib::setup::wind_die;
use onitamalib::setup::wind_spirit_odds;

fn pt(x: i8, y: i8) -> Point {
    Point { x, y }
}

fn ids(range: std::ops::Range<u16>) -> Vec<Card> {
    range.map(|id| Card { id }).collect()
}

fn set(name: &str, cards: std::ops::Range<u16>) -> CardSetDescription {
    CardSetDescription {
        name: name.to_string(),
        cards: cards
            .map(|id| CardDescription {
                card: Card { id },
                direction: CardDirection::Left,
                moves: vec![pt(0, -1)],
                king_moves: vec![pt(0, -1)],
                extra_moves: vec![pt(0, 1)],
            })
            .collect(),
    }
}

/// Cards 0 to 15 in "Base", 100 to 105 in "WayOfTheWind", 200 to 203 in
/// "SenseiPath".
fn catalogue() -> Catalogue {
    Catalogue {
        sets: vec![set("Base", 0..16), set("WayOfTheWind", 100..106), set("SenseiPath", 200..204)],
    }
}

fn settings(disabled: &[&str], force: bool, number: Option<u8>) -> GameSettings {
    GameSettings {
        disabled_card_sets: disabled.iter().map(|s| s.to_string()).collect(),
        force_wind_spirit_inclusion: force,
        number_of_wind_cards: number,
    }
}

fn dealt(board: &Board) -> [Card; 5] {
    [board.red_hand[0], board.red_hand[1], board.blue_hand[0], board.blue_hand[1], board.spare_card]
}

fn is_wind(card: &Card) -> bool {
    (100..106).contains(&card.id)
}

fn wind_cards(board: &Board) -> usize {
    dealt(board).iter().filter(|c| is_wind(c)).count()
}

fn check_opening(board: &Board, cat: &Catalogue, disabled: &[&str]) {
    assert_eq!(board.turn, Player::Red);
    assert!(!board.extra_move_pending);
    assert_eq!(board.extra_move_card, None);
    assert_eq!(board.blue_king, Some(pt(2, 0)));
    assert_eq!(board.red_king, Some(pt(2, 4)));
    assert_eq!(board.blue_pawns, [Some(pt(0, 0)), Some(pt(1, 0)), Some(pt(3, 0)), Some(pt(4, 0))]);
    assert_eq!(board.red_pawns, [Some(pt(0, 4)), Some(pt(1, 4)), Some(pt(3, 4)), Some(pt(4, 4))]);
    assert!(board.wind_spirit == None || board.wind_spirit == Some(pt(2, 2)));
    let cards = dealt(board);
    for i in 0..5 {
        for j in 0..i {
            assert_ne!(cards[i], cards[j]);
        }
        let home = cat
            .sets
            .iter()
            .find(|s| s.find(cards[i]).is_some())
            .expect("a dealt card is a card of the catalogue");
        assert!(!disabled.contains(&home.name.as_str()));
        assert_eq!(cat.is_way_of_the_wind(cards[i]), is_wind(&cards[i]));
    }
    let slots = [is_wind(&cards[0]), is_wind(&cards[1]), is_wind(&cards[2]), is_wind(&cards[3]), is_wind(&cards[4])];
    let expected = match wind_cards(board) {
        0 => [false, false, false, false, false],
        1 => [false, false, false, false, true],
        2 => [true, false, true, false, false],
        3 => [true, false, true, false, true],
        4 => [true, true, true, true, false],
        _ => [true, true, true, true, true],
    };
    assert_eq!(slots, expected);
    if board.wind_spirit.is_none() {
        assert_eq!(wind_cards(board), 0);
    }
}

#[test]
fn wind_card_count_thresholds() {
    let expected = [(0, 0), (9, 0), (10, 1), (24, 1), (25, 2), (59, 2), (60, 3), (74, 3), (75, 4), (89, 4), (90, 5), (99, 5)];
    for (roll, count) in expected.iter() {
        assert_eq!(wind_card_count(*roll), *count, "roll {}", roll);
    }
    let shares: Vec<usize> =
        (0..6u8).map(|n| (0..100).filter(|roll| wind_card_count(*roll) == n).count()).collect();
    assert_eq!(shares, vec![10, 15, 35, 15, 15, 10]);
}

#[test]
fn odds_and_die_of_the_setup() {
    assert_eq!(wind_spirit_odds(), (1, 4));
    assert_eq!(wind_die(), 100);
    let shares: usize = (0..wind_die()).filter(|roll| wind_card_count(*roll) > 0).count();
    assert_eq!(shares, 90);
}

#[test]
fn wind_spirit_needs_its_set_and_a_draw_or_force() {
    assert!(settings(&[], true, None).has_wind_set());
    assert!(!settings(&["Base", "WayOfTheWind"], true, None).has_wind_set());
    assert!(settings(&[], true, None).wind_spirit_included(false));
    assert!(settings(&[], true, None).wind_spirit_included(true));
    assert!(settings(&[], false, None).wind_spirit_included(true));
    assert!(!settings(&[], false, None).wind_spirit_included(false));
    assert!(!settings(&["WayOfTheWind"], true, None).wind_spirit_included(true));
    assert!(!settings(&["WayOfTheWind"], false, Some(3)).wind_spirit_included(true));
    assert!(settings(&["Base"], false, Some(3)).wind_spirit_included(true));
}

#[test]
fn wind_cards_dealt_follow_the_settings_then_the_roll() {
    assert_eq!(settings(&[], true, Some(4)).wind_cards_dealt(true, 0), 4);
    assert_eq!(settings(&[], true, Some(4)).wind_cards_dealt(false, 99), 0);
    assert_eq!(settings(&[], true, None).wind_cards_dealt(false, 99), 0);
    assert_eq!(settings(&[], true, None).wind_cards_dealt(true, 99), 5);
    assert_eq!(settings(&[], true, None).wind_cards_dealt(true, 30), 2);
    assert_eq!(settings(&[], false, Some(0)).wind_cards_dealt(true, 30), 0);
    assert_eq!(settings(&[], false, Some(9)).wind_cards_dealt(true, 30), 9);
}

#[test]
fn is_listed_compares_whole_names() {
    let names = vec!["Base".to_string(), "WayOfTheWind".to_string()];
    assert!(is_listed(&names, &"Base".to_string()));
    assert!(is_listed(&names, &"WayOfTheWind".to_string()));
    assert!(!is_listed(&names, &"WayOfTheWin".to_string()));
    assert!(!is_listed(&names, &"base".to_string()));
    assert!(!is_listed(&Vec::new(), &"Base".to_string()));
}

#[test]
fn card_pools_follow_the_catalogue_order() {
    let cat = catalogue();
    assert_eq!(cat.card_pool(&Vec::new(), true), ids(100..106));
    let mut others = ids(0..16);
    others.extend(ids(200..204));
    assert_eq!(cat.card_pool(&Vec::new(), false), others);
    let no_base = vec!["Base".to_string(), "Unknown".to_string()];
    assert_eq!(cat.card_pool(&no_base, false), ids(200..204));
    assert_eq!(cat.card_pool(&no_base, true), ids(100..106));
    let no_wind = vec!["WayOfTheWind".to_string()];
    assert_eq!(cat.card_pool(&no_wind, true), Vec::new());
    assert_eq!(cat.card_pool(&no_wind, false), others);
    assert_eq!(cat.sets[2].cards(), ids(200..204));
}

#[test]
fn deal_slot_patterns() {
    let wind = ids(100..106);
    let other = ids(0..16);
    let c = |id: u16| Card { id };
    let expected: [[u16; 5]; 6] = [
        [15, 14, 13, 12, 11],
        [15, 14, 13, 12, 105],
        [105, 15, 104, 14, 13],
        [105, 15, 104, 14, 103],
        [105, 104, 103, 102, 15],
        [105, 104, 103, 102, 101],
    ];
    for count in 0..6u8 {
        let board = Board::deal(true, count, wind.clone(), other.clone());
        let e = expected[count as usize];
        assert_eq!(dealt(&board), [c(e[0]), c(e[1]), c(e[2]), c(e[3]), c(e[4])], "count {}", count);
        assert_eq!(wind_cards(&board), count as usize);
        assert_eq!(board.wind_spirit, Some(pt(2, 2)));
        check_opening(&board, &catalogue(), &[]);
    }
    let bare = Board::deal(false, 0, Vec::new(), ids(0..5));
    assert_eq!(bare.wind_spirit, None);
    assert_eq!(dealt(&bare), [c(4), c(3), c(2), c(1), c(0)]);
    let tight = Board::deal(true, 5, ids(100..105), Vec::new());
    assert_eq!(dealt(&tight), [c(104), c(103), c(102), c(101), c(100)]);
}

#[test]
fn supports_tells_whether_every_setup_can_be_dealt() {
    let cat = catalogue();
    assert!(cat.supports(&GameSettings::default()));
    assert!(cat.supports(&settings(&[], true, Some(3))));
    assert!(cat.supports(&settings(&[], true, Some(5))));
    assert!(!cat.supports(&settings(&[], true, Some(6))));
    assert!(!cat.supports(&settings(&[], false, Some(6))));
    assert!(cat.supports(&settings(&["WayOfTheWind"], true, Some(6))));
    assert!(cat.supports(&settings(&["Base"], true, Some(1))));
    assert!(cat.supports(&settings(&["Base"], true, Some(5))));
    assert!(!cat.supports(&settings(&["Base"], true, Some(0))));
    assert!(!cat.supports(&settings(&["Base"], false, Some(1))));
    assert!(!cat.supports(&settings(&["Base"], true, None)));
    assert!(!cat.supports(&settings(&["Base", "SenseiPath"], true, Some(4))));
    assert!(cat.supports(&settings(&["Base", "SenseiPath"], true, Some(5))));
    assert!(!cat.supports(&settings(&["Base", "WayOfTheWind"], false, None)));
    let small = Catalogue { sets: vec![set("Base", 0..16), set("WayOfTheWind", 100..104)] };
    assert!(!small.supports(&GameSettings::default()));
    assert!(small.supports(&settings(&[], false, Some(4))));
    assert!(!small.supports(&settings(&[], false, Some(5))));
}

#[test]
fn default_settings_leave_everything_to_chance() {
    let s = GameSettings::default();
    assert_eq!(s.disabled_card_sets, Vec::<String>::new());
    assert!(!s.force_wind_spirit_inclusion);
    assert_eq!(s.number_of_wind_cards, None);
}

#[test]
fn three_wind_cards_with_the_wind_spirit_forced() {
    let cat = catalogue();
    for _ in 0..100 {
        let board = Board::new_with_settings(settings(&[], true, Some(3)), &cat);
        check_opening(&board, &cat, &[]);
        assert_eq!(board.wind_spirit, Some(pt(2, 2)));
        assert_eq!(wind_cards(&board), 3);
        assert_eq!(dealt(&board).iter().filter(|c| !is_wind(c)).count(), 2);
    }
}

#[test]
fn every_count_can_be_asked_for() {
    let cat = catalogue();
    for count in 0..6u8 {
        for _ in 0..20 {
            let board = Board::new_with_settings(settings(&[], true, Some(count)), &cat);
            check_opening(&board, &cat, &[]);
            assert_eq!(wind_cards(&board), count as usize);
        }
    }
}

#[test]
fn disabled_wind_set_leaves_the_wind_spirit_out() {
    let cat = catalogue();
    for _ in 0..50 {
        let board = Board::new_with_settings(settings(&["WayOfTheWind"], true, Some(3)), &cat);
        check_opening(&board, &cat, &["WayOfTheWind"]);
        assert_eq!(board.wind_spirit, None);
        assert_eq!(wind_cards(&board), 0);
    }
}

#[test]
fn disabled_sets_are_not_dealt() {
    let cat = catalogue();
    for _ in 0..50 {
        let board = Board::new_with_settings(settings(&["Base"], true, Some(2)), &cat);
        check_opening(&board, &cat, &["Base"]);
        assert!(dealt(&board).iter().all(|c| c.id >= 100));
        assert_eq!(wind_cards(&board), 2);
    }
}

#[test]
fn unforced_wind_spirit_comes_and_goes() {
    let cat = catalogue();
    let mut with = 0;
    let mut without = 0;
    for _ in 0..400 {
        let board = Board::new_with_settings(settings(&[], false, Some(2)), &cat);
        check_opening(&board, &cat, &[]);
        if board.wind_spirit.is_some() {
            with += 1;
            assert_eq!(wind_cards(&board), 2);
        } else {
            without += 1;
        }
    }
    assert!(with > 0);
    assert!(without > with);
}

#[test]
fn unnamed_count_is_rolled() {
    let cat = catalogue();
    let mut seen = [0usize; 6];
    for _ in 0..400 {
        let board = Board::new_with_settings(settings(&[], true, None), &cat);
        check_opening(&board, &cat, &[]);
        seen[wind_cards(&board)] += 1;
    }
    assert!(seen[2] > 0);
    assert!(seen.iter().filter(|n| **n > 0).count() >= 4);
    assert!(seen[5] < 200);
}

#[test]
fn deals_are_shuffled() {
    let cat = catalogue();
    let first = dealt(&Board::new_with_settings(settings(&[], true, Some(3)), &cat));
    let varied = (0..100)
        .any(|_| dealt(&Board::new_with_settings(settings(&[], true, Some(3)), &cat)) != first);
    assert!(varied);
    let unshuffled = dealt(&Board::deal(true, 3, cat.card_pool(&Vec::new(), true), cat.card_pool(&Vec::new(), false)));
    let apart = (0..100)
        .any(|_| dealt(&Board::new_with_settings(settings(&[], true, Some(3)), &cat)) != unshuffled);
    assert!(apart);
}

#[test]
fn new_games_start_playing() {
    let cat = catalogue();
    let board = Board::new(&cat);
    check_opening(&board, &cat, &[]);
    match GameState::new(&cat) {
        GameState::Playing { board } => check_opening(&board, &cat, &[]),
        GameState::Finished { .. } => panic!("a new game is not over"),
    }
    let state = GameState::new_with_settings(settings(&["SenseiPath"], true, Some(1)), &cat);
    assert!(!state.finished());
    match state {
        GameState::Playing { board } => {
            check_opening(&board, &cat, &["SenseiPath"]);
            assert_eq!(wind_cards(&board), 1);
            assert!(is_wind(&board.spare_card));
        }
        GameState::Finished { .. } => panic!("a new game is not over"),
    }
}
