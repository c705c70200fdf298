use gridfall::engine::Direction;
use gridfall::engine::Error;
use gridfall::engine::Render;
use gridfall::grid::Form;
use gridfall::grid::Grid;
use gridfall::grid::Position;
use gridfall::piece::Piece;
use gridfall::H;
use gridfall::W;

fn grid_with_start(r: usize, c: usize) -> Grid {
    let mut g = Grid::default();
    g.set(Position(r, c));
    g
}

fn assert_exactly_present(g: &Grid, present: &[(usize, usize)]) {
    for r in 0..H {
        for c in 0..W {
            let expected = if present.contains(&(r, c)) {
                Form::Present
            } else {
                Form::Void
            };
            assert_eq!(g.pos(Position(r, c)), expected, "cell ({}, {})", r, c);
        }
    }
}

#[test]
fn square_renders_from_center() {
    let g = grid_with_start(1, 1);
    let (g, p) = Piece::Square.render(g, Position(1, 1)).unwrap();
    assert_eq!(p, Position(1, 2));
    assert_exactly_present(&g, &[(1, 1), (0, 1), (0, 2), (1, 2)]);
}

#[test]
fn square_from_top_row_collides_on_first_step() {
    let g = grid_with_start(0, 1);
    assert!(matches!(
        Piece::Square.render(g, Position(0, 1)),
        Err(Error::Collision)
    ));
}

#[test]
fn square_into_occupied_cell_collides() {
    let mut g = grid_with_start(1, 1);
    g.set(Position(0, 1));
    assert!(matches!(
        Piece::Square.render(g, Position(1, 1)),
        Err(Error::Collision)
    ));
}

#[test]
fn line_renders_straight_down() {
    let g = grid_with_start(0, 2);
    let (g, p) = Piece::Line.render(g, Position(0, 2)).unwrap();
    assert_eq!(p, Position(3, 2));
    assert_exactly_present(&g, &[(0, 2), (1, 2), (2, 2), (3, 2)]);
}

#[test]
fn left_twist_renders() {
    let g = grid_with_start(0, 1);
    let (g, p) = Piece::LeftTwist.render(g, Position(0, 1)).unwrap();
    assert_eq!(p, Position(2, 2));
    assert_exactly_present(&g, &[(0, 1), (1, 1), (1, 2), (2, 2)]);
}

#[test]
fn right_twist_renders() {
    let g = grid_with_start(0, 2);
    let (g, p) = Piece::RightTwist.render(g, Position(0, 2)).unwrap();
    assert_eq!(p, Position(2, 1));
    assert_exactly_present(&g, &[(0, 2), (1, 2), (1, 1), (2, 1)]);
}

#[test]
fn pile_renders_with_jump() {
    let g = grid_with_start(0, 1);
    let (g, p) = Piece::Pile.render(g, Position(0, 1)).unwrap();
    assert_eq!(p, Position(1, 2));
    assert_exactly_present(&g, &[(0, 1), (1, 1), (1, 0), (1, 2)]);
}

#[test]
fn moves_match_the_catalog() {
    assert_eq!(
        Piece::Square.moves(),
        vec![Direction::Up, Direction::Right, Direction::Down]
    );
    assert_eq!(
        Piece::Line.moves(),
        vec![Direction::Down, Direction::Down, Direction::Down]
    );
    assert_eq!(
        Piece::LeftTwist.moves(),
        vec![Direction::Down, Direction::Right, Direction::Down]
    );
    assert_eq!(
        Piece::RightTwist.moves(),
        vec![Direction::Down, Direction::Left, Direction::Down]
    );
    assert_eq!(
        Piece::Pile.moves(),
        vec![Direction::Down, Direction::Left, Direction::JumpRight]
    );
}

#[test]
fn from_index_walks_the_catalog() {
    assert_eq!(Piece::from_index(0), Piece::Square);
    assert_eq!(Piece::from_index(1), Piece::Line);
    assert_eq!(Piece::from_index(2), Piece::LeftTwist);
    assert_eq!(Piece::from_index(3), Piece::RightTwist);
    assert_eq!(Piece::from_index(4), Piece::Pile);
    assert_eq!(Piece::from_index(200), Piece::Pile);
}

#[test]
fn random_pieces_are_roughly_uniform() {
    let draws = 5000;
    let mut counts = [0usize; 5];
    for _ in 0..draws {
        let slot = match Piece::random() {
            Piece::Square => 0,
            Piece::Line => 1,
            Piece::LeftTwist => 2,
            Piece::RightTwist => 3,
            Piece::Pile => 4,
        };
        counts[slot] += 1;
    }
    for (slot, &count) in counts.iter().enumerate() {
        assert!(
            count > 800 && count < 1200,
            "variant {} drawn {} times out of {}",
            slot,
            count,
            draws
        );
    }
}
