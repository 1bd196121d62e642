use seating::count::count_occupied_neighbours;
use seating::count::count_occupied_neighbours_far;
use seating::count::NeighbourRule;
use seating::grid::count_occupied;
use seating::grid::grids_equal;
use seating::grid::is_occupied;
use seating::grid::offset;
use seating::grid::read_seats;
use seating::grid::seat_at;
use seating::sim::step;
use seating::sim::step_to_stable;

const EXAMPLE_START: &str = "L.LL.LL.LL\n\
                             LLLLLLL.LL\n\
                             L.L.L..L..\n\
                             LLLL.LL.LL\n\
                             L.LL.LL.LL\n\
                             L.LLLLL.LL\n\
                             ..L.L.....\n\
                             LLLLLLLLLL\n\
                             L.LLLLLL.L\n\
                             L.LLLLL.LL";

const EXAMPLE_STEP_1: &str = "#.##.##.##\n\
                              #######.##\n\
                              #.#.#..#..\n\
                              ####.##.##\n\
                              #.##.##.##\n\
                              #.#####.##\n\
                              ..#.#.....\n\
                              ##########\n\
                              #.######.#\n\
                              #.#####.##";

const EXAMPLE_STEP_2: &str = "#.LL.L#.##\n\
                              #LLLLLL.L#\n\
                              L.L.L..L..\n\
                              #LLL.LL.L#\n\
                              #.LL.LL.LL\n\
                              #.LLLL#.##\n\
                              ..L.L.....\n\
                              #LLLLLLLL#\n\
                              #.LLLLLL.L\n\
                              #.#LLLL.##";

const EXAMPLE_FAR_ALL: &str = ".......#.\n\
                               ...#.....\n\
                               .#.......\n\
                               .........\n\
                               ..#L....#\n\
                               ....#....\n\
                               .........\n\
                               #........\n\
                               ...#.....";

const EXAMPLE_FAR_NONE: &str = ".##.##.\n\
                                #.#.#.#\n\
                                ##...##\n\
                                ...L...\n\
                                ##...##\n\
                                #.#.#.#\n\
                                .##.##.";

fn to_lines(text: &str) -> Vec<String> {
    text.lines().map(|line| line.trim().to_string()).collect()
}

#[test]
fn it_gets_the_correct_seat_offset() {
    assert_eq!(0, offset(0, 0, 10));
    assert_eq!(35, offset(5, 3, 10));
}

#[test]
fn it_gets_the_correct_seat_state() {
    let (seats, row_len) = read_seats(&to_lines(EXAMPLE_START));
    assert_eq!('L', seat_at(0, 0, &seats, row_len));
    assert_eq!('.', seat_at(7, 9, &seats, row_len));
}

#[test]
fn it_counts_occupied_neighbours() {
    let (all_empty, row_len) = read_seats(&to_lines(EXAMPLE_START));
    assert_eq!(0, count_occupied_neighbours(0, 0, &all_empty, row_len));
    assert_eq!(0, count_occupied_neighbours(3, 4, &all_empty, row_len));
    assert_eq!(0, count_occupied_neighbours(9, 9, &all_empty, row_len));

    let (all_full, _) = read_seats(&to_lines(EXAMPLE_STEP_1));
    assert_eq!(2, count_occupied_neighbours(0, 0, &all_full, row_len));
    assert_eq!(6, count_occupied_neighbours(3, 4, &all_full, row_len));
    assert_eq!(2, count_occupied_neighbours(9, 9, &all_full, row_len));
}

#[test]
fn it_steps_correctly() {
    let (mut current, row_len) = read_seats(&to_lines(EXAMPLE_START));
    let mut next = current.clone();
    let (expected_next, _) = read_seats(&to_lines(EXAMPLE_STEP_1));
    let mut stepped = step(current, next, row_len, 4, NeighbourRule::Adjacent);
    // stepped.0 is the new current and stepped.1 is the new buffer
    current = stepped.0;
    next = stepped.1;
    assert_eq!(current, expected_next);

    let (expected_next, _) = read_seats(&to_lines(EXAMPLE_STEP_2));
    stepped = step(current, next, row_len, 4, NeighbourRule::Adjacent);
    current = stepped.0;
    assert_eq!(current, expected_next);
}

#[test]
fn it_correctly_steps_to_stable() {
    let (current, row_len) = read_seats(&to_lines(EXAMPLE_START));
    let stable = step_to_stable(current, row_len, 4, NeighbourRule::Adjacent)
        .expect("the example grid stabilizes");
    assert_eq!(37, count_occupied(&stable));
}

#[test]
fn it_correctly_counts_far_occupied_seats() {
    let (seats, row_len) = read_seats(&to_lines(EXAMPLE_FAR_ALL));
    assert_eq!(8, count_occupied_neighbours_far(3, 4, &seats, row_len));

    let (seats, row_len) = read_seats(&to_lines(EXAMPLE_FAR_NONE));
    assert_eq!(0, count_occupied_neighbours_far(3, 3, &seats, row_len));
}

#[test]
fn it_stabilizes_with_line_of_sight() {
    let (current, row_len) = read_seats(&to_lines(EXAMPLE_START));
    let stable = step_to_stable(current, row_len, 5, NeighbourRule::LineOfSight)
        .expect("the example grid stabilizes");
    assert_eq!(26, count_occupied(&stable));
}

#[test]
fn stable_grid_is_a_fixed_point_adjacent() {
    let (current, row_len) = read_seats(&to_lines(EXAMPLE_START));
    let stable = step_to_stable(current, row_len, 4, NeighbourRule::Adjacent)
        .expect("the example grid stabilizes");
    let buffer = stable.clone();
    let (stepped, original) = step(stable, buffer, row_len, 4, NeighbourRule::Adjacent);
    assert!(grids_equal(&stepped, &original));
}

#[test]
fn stable_grid_is_a_fixed_point_line_of_sight() {
    let (current, row_len) = read_seats(&to_lines(EXAMPLE_START));
    let stable = step_to_stable(current, row_len, 5, NeighbourRule::LineOfSight)
        .expect("the example grid stabilizes");
    let buffer = stable.clone();
    let (stepped, original) = step(stable, buffer, row_len, 5, NeighbourRule::LineOfSight);
    assert!(grids_equal(&stepped, &original));
}

#[test]
fn read_seats_concatenates_rows_and_reports_longest() {
    let lines = vec!["ab".to_string(), "abcd".to_string(), "a".to_string()];
    let (cells, row_len) = read_seats(&lines);
    assert_eq!(4, row_len);
    assert_eq!(vec!['a', 'b', 'a', 'b', 'c', 'd', 'a'], cells);

    let empty: Vec<String> = Vec::new();
    let (cells, row_len) = read_seats(&empty);
    assert_eq!(0, row_len);
    assert!(cells.is_empty());
}

#[test]
fn recognizes_occupied_seats_only() {
    assert!(is_occupied('#'));
    assert!(!is_occupied('L'));
    assert!(!is_occupied('.'));
}

#[test]
fn counts_occupied_cells_exactly() {
    let (seats, _) = read_seats(&to_lines(EXAMPLE_START));
    assert_eq!(0, count_occupied(&seats));

    let (seats, _) = read_seats(&to_lines("#.#\nL#L"));
    assert_eq!(3, count_occupied(&seats));
}

#[test]
fn compares_grids_cell_for_cell() {
    let a = vec!['#', '.', 'L'];
    let b = vec!['#', '.', 'L'];
    let c = vec!['#', '.', '#'];
    let short = vec!['#', '.'];
    assert!(grids_equal(&a, &b));
    assert!(!grids_equal(&a, &c));
    assert!(!grids_equal(&a, &short));
}

#[test]
fn floor_only_grid_never_changes() {
    let (current, row_len) = read_seats(&to_lines("...\n..."));
    let buffer = current.clone();
    let expected = current.clone();
    let (stepped, _) = step(current, buffer, row_len, 4, NeighbourRule::Adjacent);
    assert_eq!(expected, stepped);
}
