use martian_robots::command::Command;
use martian_robots::error::{ConstructionError, Error, ParseError, ParseErrorKind};
use martian_robots::orientation::Orientation;
use martian_robots::parser::{parse_input, parse_robot_input};
use martian_robots::simulation::{run_input, simulate};
use martian_robots::text::Lines;
use martian_robots::world::{Outcome, Robot, World};

const SAMPLE: &str = "5 3\n1 1 E\nRFRFRFRF\n\n3 2 N\nFRRFLLFFRRFLL\n\n0 3 W\nLLFFFLFLFL";

fn parse_failure(text: &str) -> ParseError {
    match parse_input(text) {
        Ok(_) => panic!("the text was accepted: {:?}", text),
        Err(e) => e,
    }
}

fn outcome(x: i8, y: i8, o: Orientation, lost: bool) -> Outcome {
    Outcome { final_x: x, final_y: y, final_orientation: o, lost }
}

#[test]
fn test_sample_input() {
    let input = r#"5 3
1 1 E
RFRFRFRF

3 2 N
FRRFLLFFRRFLL

0 3 W
LLFFFLFLFL"#;
    let input = parse_input(input).unwrap();
    assert_eq!(input.robot_inputs.len(), 3);
    let (mut world, robots) = input.into_world().unwrap();
    let outcomes: Vec<_> = robots.into_iter().map(|(r, c)| world.run(r, &c)).collect();
    assert_eq!(
        outcomes,
        [
            Outcome {
                final_x: 1,
                final_y: 1,
                final_orientation: Orientation::East,
                lost: false
            },
            Outcome {
                final_x: 3,
                final_y: 3,
                final_orientation: Orientation::North,
                lost: true
            },
            Outcome {
                final_x: 2,
                final_y: 3,
                final_orientation: Orientation::South,
                lost: false
            },
        ]
    );
}

#[test]
fn test_bad_input_errors() {
    assert!(parse_input("5 5\n1 2 3").is_err())
}

#[test]
fn sample_report() {
    let lines = run_input(SAMPLE).unwrap();
    assert_eq!(lines, vec!["1 1 E".to_string(), "3 3 N LOST".to_string(), "2 3 S".to_string()]);
}

#[test]
fn sample_is_parsed_field_by_field() {
    let input = parse_input(SAMPLE).unwrap();
    assert_eq!(input.init_world, (5, 3));
    let second = &input.robot_inputs[1];
    assert_eq!((second.start_x, second.start_y), (3, 2));
    assert_eq!(second.start_orientation, Orientation::North);
    let (f, l, r) = (Command::Forward, Command::Left, Command::Right);
    assert_eq!(second.commands, vec![f, r, r, f, l, l, f, f, r, r, f, l, l]);
    let third = &input.robot_inputs[2];
    assert_eq!((third.start_x, third.start_y), (0, 3));
    assert_eq!(third.start_orientation, Orientation::West);
}

#[test]
fn simulate_follows_input_order() {
    let (mut world, robots) = parse_input(SAMPLE).unwrap().into_world().unwrap();
    let outcomes = simulate(&mut world, &robots);
    assert_eq!(
        outcomes,
        vec![
            outcome(1, 1, Orientation::East, false),
            outcome(3, 3, Orientation::North, true),
            outcome(2, 3, Orientation::South, false),
        ]
    );
    assert!(world.has_scent(3, 4));
}

#[test]
fn third_robot_depends_on_the_second() {
    // Alone on the grid, the third robot of the sample walks off the north
    // edge where the second robot would have left its scent.
    let lines = run_input("5 3\n0 3 W\nLLFFFLFLFL").unwrap();
    assert_eq!(lines, vec!["3 3 N LOST".to_string()]);
}

#[test]
fn malformed_start_line_fails() {
    assert_eq!(
        parse_failure("5 5\n1 2 3"),
        ParseError { line: 1, kind: ParseErrorKind::BadOrientation }
    );
    assert_eq!(
        run_input("5 5\n1 2 3\nF"),
        Err(Error::Parse(ParseError { line: 1, kind: ParseErrorKind::BadOrientation }))
    );
}

#[test]
fn each_parse_error() {
    assert_eq!(parse_failure(""), ParseError { line: 0, kind: ParseErrorKind::NoGrid });
    assert_eq!(parse_failure("\n\n"), ParseError { line: 2, kind: ParseErrorKind::NoGrid });
    assert_eq!(parse_failure("5"), ParseError { line: 0, kind: ParseErrorKind::BadGrid });
    assert_eq!(parse_failure("5 3 1"), ParseError { line: 0, kind: ParseErrorKind::BadGrid });
    assert_eq!(parse_failure("5 x"), ParseError { line: 0, kind: ParseErrorKind::BadGrid });
    assert_eq!(parse_failure("5 x 3"), ParseError { line: 0, kind: ParseErrorKind::BadGrid });
    assert_eq!(parse_failure("5 128"), ParseError { line: 0, kind: ParseErrorKind::BadGrid });
    assert_eq!(parse_failure("   "), ParseError { line: 0, kind: ParseErrorKind::BadGrid });
    assert_eq!(
        parse_failure("5 3\n1 1\nF"),
        ParseError { line: 1, kind: ParseErrorKind::BadStart }
    );
    assert_eq!(
        parse_failure("5 3\n1 1 E E\nF"),
        ParseError { line: 1, kind: ParseErrorKind::BadStart }
    );
    assert_eq!(
        parse_failure("5 3\n \nF"),
        ParseError { line: 1, kind: ParseErrorKind::BadStart }
    );
    assert_eq!(
        parse_failure("5 3\nx 1 E\nF"),
        ParseError { line: 1, kind: ParseErrorKind::BadCoordinate }
    );
    assert_eq!(
        parse_failure("5 3\n1 1.5 E\nF"),
        ParseError { line: 1, kind: ParseErrorKind::BadCoordinate }
    );
    assert_eq!(
        parse_failure("5 3\n1 200 Q\nF"),
        ParseError { line: 1, kind: ParseErrorKind::BadCoordinate }
    );
    assert_eq!(
        parse_failure("5 3\n1 1 n\nF"),
        ParseError { line: 1, kind: ParseErrorKind::BadOrientation }
    );
    assert_eq!(
        parse_failure("5 3\n1 1 NE\nF"),
        ParseError { line: 1, kind: ParseErrorKind::BadOrientation }
    );
    assert_eq!(
        parse_failure("5 3\n\n1 1 E"),
        ParseError { line: 3, kind: ParseErrorKind::NoCommands }
    );
    assert_eq!(
        parse_failure("5 3\n1 1 E\nFLRX"),
        ParseError { line: 2, kind: ParseErrorKind::BadCommand('X') }
    );
    assert_eq!(
        parse_failure("5 3\n1 1 E\nF F"),
        ParseError { line: 2, kind: ParseErrorKind::BadCommand(' ') }
    );
    assert_eq!(
        parse_failure("5 3\n1 1 E\nflr"),
        ParseError { line: 2, kind: ParseErrorKind::BadCommand('f') }
    );
}

#[test]
fn first_error_wins() {
    // The second robot's start line is read before the third robot's
    // commands.
    assert_eq!(
        parse_failure("5 3\n1 1 E\nF\n1 1\nF\n1 1 E\nX"),
        ParseError { line: 3, kind: ParseErrorKind::BadStart }
    );
    // A start line is judged before its command line is looked for.
    assert_eq!(parse_failure("5 3\n1 1"), ParseError { line: 1, kind: ParseErrorKind::BadStart });
}

#[test]
fn blank_lines_are_passed_over() {
    let input = parse_input("\n\n5 3\n\n\n1 1 E\nF\n\n\n\n2 2 N\nL\n\n").unwrap();
    assert_eq!(input.init_world, (5, 3));
    assert_eq!(input.robot_inputs.len(), 2);
    assert_eq!(input.robot_inputs[1].commands, vec![Command::Left]);
}

#[test]
fn grid_alone_is_a_scenario() {
    let input = parse_input("5 3").unwrap();
    assert_eq!(input.robot_inputs.len(), 0);
    assert_eq!(run_input("5 3\n\n"), Ok(vec![]));
}

#[test]
fn line_after_start_line_is_the_command_line() {
    // An empty command line is a robot that does not move; the line after
    // it starts the next robot.
    let input = parse_input("5 3\n1 1 E\n\n2 2 N\nF").unwrap();
    assert_eq!(input.robot_inputs.len(), 2);
    assert!(input.robot_inputs[0].commands.is_empty());
    assert_eq!(run_input("5 3\n1 1 E\n\n2 2 N\nF"), Ok(vec!["1 1 E".to_string(), "2 3 N".to_string()]));
}

#[test]
fn carriage_returns_before_line_feeds_are_dropped() {
    assert_eq!(
        run_input("5 3\r\n1 1 E\r\nRFRFRFRF\r\n\r\n3 2 N\r\nFRRFLLFFRRFLL\r\n"),
        Ok(vec!["1 1 E".to_string(), "3 3 N LOST".to_string()])
    );
    // Without a line feed behind it the carriage return stays, and is no
    // command.
    assert_eq!(
        parse_failure("5 3\n1 1 E\nF\r"),
        ParseError { line: 2, kind: ParseErrorKind::BadCommand('\r') }
    );
}

#[test]
fn words_may_be_spread_out() {
    let input = parse_input("  5\t 3 \n\t1   1\u{a0}E  \nF").unwrap();
    assert_eq!(input.init_world, (5, 3));
    assert_eq!(input.robot_inputs[0].start_orientation, Orientation::East);
}

#[test]
fn signs_and_leading_zeros() {
    let input = parse_input("+5 03\n-1 -0 S\n\n").unwrap();
    assert_eq!(input.init_world, (5, 3));
    assert_eq!((input.robot_inputs[0].start_x, input.robot_inputs[0].start_y), (-1, 0));
}

#[test]
fn too_large_a_grid_fails_construction() {
    let input = parse_input("51 10").unwrap();
    assert_eq!(input.init_world, (51, 10));
    match input.into_world() {
        Err(e) => assert_eq!(e, ConstructionError::BadDimensions { max_x: 51, max_y: 10 }),
        Ok(_) => panic!("a grid of 51 by 10 was accepted"),
    }
    assert_eq!(
        run_input("51 10\n1 1 E\nF"),
        Err(Error::Construction(ConstructionError::BadDimensions { max_x: 51, max_y: 10 }))
    );
    assert_eq!(
        run_input("10 51"),
        Err(Error::Construction(ConstructionError::BadDimensions { max_x: 10, max_y: 51 }))
    );
    assert!(run_input("50 50").is_ok());
}

#[test]
fn negative_and_zero_bounds_are_taken() {
    assert_eq!(run_input("0 0\n0 0 N\nLLRR"), Ok(vec!["0 0 N".to_string()]));
    assert_eq!(run_input("0 0\n0 0 E\nF"), Ok(vec!["0 0 E LOST".to_string()]));
    assert_eq!(run_input("-3 -4"), Ok(vec![]));
    assert_eq!(run_input("-3 -4\n-5 -6 W\nRR"), Ok(vec!["-5 -6 E".to_string()]));
}

#[test]
fn start_beyond_the_corner_fails_construction() {
    assert_eq!(
        run_input("5 3\n1 1 E\nF\n6 3 N\nF\n9 9 N\nF"),
        Err(Error::Construction(ConstructionError::BadStart { x: 6, y: 3 }))
    );
    assert_eq!(
        run_input("5 3\n5 4 N\nF"),
        Err(Error::Construction(ConstructionError::BadStart { x: 5, y: 4 }))
    );
    // The grid is judged before the robots.
    assert_eq!(
        run_input("60 3\n61 4 N\nF"),
        Err(Error::Construction(ConstructionError::BadDimensions { max_x: 60, max_y: 3 }))
    );
    // The corner itself is on the grid.
    assert_eq!(run_input("5 3\n5 3 N\n\n"), Ok(vec!["5 3 N".to_string()]));
    // A start line that ends the text has no command line, though a line
    // feed follows it.
    assert_eq!(
        run_input("5 3\n5 3 N\n"),
        Err(Error::Parse(ParseError { line: 2, kind: ParseErrorKind::NoCommands }))
    );
}

#[test]
fn negative_start_is_taken() {
    // Nothing is asked of a negative start; the first move from there is
    // onto a square off the grid.
    assert_eq!(run_input("5 3\n-2 1 E\nFF"), Ok(vec!["-2 1 E LOST".to_string()]));
    assert_eq!(
        run_input("5 3\n-128 -128 W\nF\n-128 -128 W\nFLF"),
        Ok(vec!["-128 -128 W LOST".to_string(), "-128 -128 S LOST".to_string()])
    );
}

#[test]
fn parse_error_comes_before_construction_error() {
    assert_eq!(
        run_input("51 10\n1 1 E\nX"),
        Err(Error::Parse(ParseError { line: 2, kind: ParseErrorKind::BadCommand('X') }))
    );
}

#[test]
fn cursor_reads_one_robot_at_a_time() {
    let text: Vec<char> = "\n1 1 E\nRF\n\n\n3 2 N\nFL\n\n".chars().collect();
    let mut lines = Lines::new(&text);
    assert_eq!(lines.line_number(), 0);
    let first = parse_robot_input(&mut lines).unwrap().unwrap();
    assert_eq!((first.start_x, first.start_y, first.start_orientation), (1, 1, Orientation::East));
    assert_eq!(first.commands, vec![Command::Right, Command::Forward]);
    assert_eq!(lines.line_number(), 3);
    let second = parse_robot_input(&mut lines).unwrap().unwrap();
    assert_eq!(second.commands, vec![Command::Forward, Command::Left]);
    assert_eq!(lines.line_number(), 7);
    assert!(parse_robot_input(&mut lines).unwrap().is_none());
    assert_eq!(lines.line_number(), 8);
    assert!(parse_robot_input(&mut lines).unwrap().is_none());
    assert_eq!(lines.line_number(), 8);
}

#[test]
fn cursor_stops_behind_the_line_in_error() {
    let text: Vec<char> = "1 1\nF\n1 1 E\nFX\n1 1 E".chars().collect();
    let mut lines = Lines::new(&text);
    assert_eq!(
        parse_robot_input(&mut lines).err(),
        Some(ParseError { line: 0, kind: ParseErrorKind::BadStart })
    );
    assert_eq!(lines.line_number(), 1);
    assert_eq!(
        parse_robot_input(&mut lines).err(),
        Some(ParseError { line: 1, kind: ParseErrorKind::BadStart })
    );
    assert_eq!(
        parse_robot_input(&mut lines).err(),
        Some(ParseError { line: 3, kind: ParseErrorKind::BadCommand('X') })
    );
    assert_eq!(lines.line_number(), 4);
    assert_eq!(
        parse_robot_input(&mut lines).err(),
        Some(ParseError { line: 5, kind: ParseErrorKind::NoCommands })
    );
    assert_eq!(lines.line_number(), 5);
}

#[test]
fn robot_new_checks_the_far_corner_only() {
    let world = World::new(5, 3).unwrap();
    assert_eq!(
        Robot::new(5, 3, Orientation::South, &world),
        Ok(Robot { x: 5, y: 3, orientation: Orientation::South })
    );
    assert_eq!(
        Robot::new(6, 0, Orientation::South, &world),
        Err(ConstructionError::BadStart { x: 6, y: 0 })
    );
    assert_eq!(
        Robot::new(0, 4, Orientation::South, &world),
        Err(ConstructionError::BadStart { x: 0, y: 4 })
    );
    assert_eq!(
        Robot::new(-7, -9, Orientation::West, &world),
        Ok(Robot { x: -7, y: -9, orientation: Orientation::West })
    );
}
