use pubsub_batch::rover::{CommandError, Direction, Rover, RoverProcessor, RoverProcessorV1, RoverProcessorV2};

#[test]
fn it_works() {
    let map = vec![vec!['O'; 10]; 10];
    let mut rover = Rover {
        name: String::from("Discovery"),
        pos_x: 0,
        pos_y: 0,
        direction: Direction::East,
        processor: Box::new(RoverProcessorV1),
        map,
    };

    rover.send_command(String::from("move-forward-1"));

    assert_eq!(rover.pos_x, 1);
    assert_eq!(rover.pos_y, 0);
}

#[test]
fn it_works_move_2() {
    let map = vec![vec!['O'; 10]; 10];
    let mut rover = Rover {
        name: String::from("Discovery"),
        pos_x: 0,
        pos_y: 0,
        direction: Direction::East,
        processor: Box::new(RoverProcessorV1),
        map,
    };

    rover.send_command(String::from("move-forward-2"));

    assert_eq!(rover.pos_x, 2);
    assert_eq!(rover.pos_y, 0);
}

#[test]
fn it_works_move_3() {
    let map = vec![vec!['O'; 10]; 10];
    let mut rover = Rover {
        name: String::from("Discovery"),
        pos_x: 0,
        pos_y: 0,
        direction: Direction::South,
        processor: Box::new(RoverProcessorV1),
        map,
    };

    rover.send_command(String::from("move-forward-1"));

    assert_eq!(rover.pos_x, 0);
    assert_eq!(rover.pos_y, 1);
}

#[test]
fn it_works_move_4() {
    let map = vec![vec!['O'; 10]; 10];
    let mut rover = Rover {
        name: String::from("Discovery"),
        pos_x: 0,
        pos_y: 0,
        direction: Direction::South,
        processor: Box::new(RoverProcessorV1),
        map,
    };

    rover.send_command(String::from("move-forward-21"));

    assert_eq!(rover.pos_x, 0);
    assert_eq!(rover.pos_y, 1);
}

#[test]
fn it_works_move_5() {
    let map = vec![vec!['O'; 10]; 10];
    let mut rover = Rover {
        name: String::from("Discovery"),
        pos_x: 9,
        pos_y: 9,
        direction: Direction::South,
        processor: Box::new(RoverProcessorV1),
        map,
    };

    rover.send_command(String::from("move-forward-2"));

    assert_eq!(rover.pos_x, 9);
    assert_eq!(rover.pos_y, 1);
}

#[test]
fn it_works_move_backward_5() {
    let map = vec![vec!['O'; 10]; 10];
    let mut rover = Rover {
        name: String::from("Discovery"),
        pos_x: 9,
        pos_y: 9,
        direction: Direction::South,
        processor: Box::new(RoverProcessorV1),
        map,
    };

    rover.send_command(String::from("move-backward-2"));

    assert_eq!(rover.pos_x, 9);
    assert_eq!(rover.pos_y, 7);
}

#[test]
fn it_works_move_backward_6() {
    let map = vec![vec!['O'; 10]; 10];
    let mut rover = Rover {
        name: String::from("Discovery"),
        pos_x: 0,
        pos_y: 0,
        direction: Direction::South,
        processor: Box::new(RoverProcessorV1),
        map,
    };

    rover.send_command(String::from("move-backward-2"));

    assert_eq!(rover.pos_x, 0);
    assert_eq!(rover.pos_y, 8);
}

#[test]
fn it_works_move_backward_7() {
    let map = vec![vec!['O'; 10]; 10];
    let mut rover = Rover {
        name: String::from("Discovery"),
        pos_x: 0,
        pos_y: 0,
        direction: Direction::South,
        processor: Box::new(RoverProcessorV1),
        map,
    };

    rover.send_command(String::from("move-backward-12"));

    assert_eq!(rover.pos_x, 0);
    assert_eq!(rover.pos_y, 8);
}

#[test]
fn it_works_move_backward_8() {
    let map = vec![vec!['O'; 10]; 10];
    let mut rover = Rover {
        name: String::from("Discovery"),
        pos_x: 0,
        pos_y: 0,
        direction: Direction::East,
        processor: Box::new(RoverProcessorV1),
        map,
    };

    rover.send_command(String::from("move-backward-12"));

    assert_eq!(rover.pos_x, 8);
    assert_eq!(rover.pos_y, 0);
}

#[test]
fn it_works_turn_left() {
    let map = vec![vec!['O'; 10]; 10];
    let mut rover = Rover {
        name: String::from("Discovery"),
        pos_x: 0,
        pos_y: 0,
        direction: Direction::East,
        processor: Box::new(RoverProcessorV1),
        map,
    };

    rover.send_command(String::from("turn-left"));

    assert_eq!(rover.direction, Direction::North);
}

#[test]
fn it_works_turn_left_2() {
    let map = vec![vec!['O'; 10]; 10];
    let mut rover = Rover {
        name: String::from("Discovery"),
        pos_x: 0,
        pos_y: 0,
        direction: Direction::North,
        processor: Box::new(RoverProcessorV1),
        map,
    };

    rover.send_command(String::from("turn-left"));

    assert_eq!(rover.direction, Direction::West);
}

#[test]
fn print_command_returns_text_and_moves_nothing() {
    let map = vec![vec!['O'; 10]; 10];
    let mut rover = Rover {
        name: String::from("Discovery"),
        pos_x: 4,
        pos_y: 5,
        direction: Direction::North,
        processor: Box::new(RoverProcessorV2),
        map,
    };

    let output = rover.send_command(String::from("print-xxxx-aaaa"));

    assert_eq!(output, Some(String::from("xxxx-aaaa")));
    assert_eq!(rover.pos_x, 4);
    assert_eq!(rover.pos_y, 5);
    assert_eq!(rover.direction, Direction::North);
}

#[test]
fn scan_returns_the_three_by_three_window() {
    let mut map = vec![vec!['O'; 10]; 10];
    map[0][2] = 'X';
    map[2][0] = 'Y';
    let rover = Rover {
        name: String::from("Discovery"),
        pos_x: 1,
        pos_y: 1,
        direction: Direction::North,
        processor: Box::new(RoverProcessorV2),
        map,
    };

    let res = rover.scan();
    assert_eq!(res, [['O', 'O', 'X'], ['O', 'O', 'O'], ['Y', 'O', 'O']]);
}

#[test]
fn move_commands_with_bad_direction_are_rejected() {
    let processor = RoverProcessorV1;
    let parsed = processor.parse_command("move-sideways-3");
    assert!(matches!(parsed, Err(CommandError::UnknownDirection)));
}

#[test]
fn move_commands_with_bad_count_are_rejected() {
    let processor = RoverProcessorV1;
    let parsed = processor.parse_command("move-forward-many");
    assert!(matches!(parsed, Err(CommandError::InvalidNumber)));

    let overflowing = processor.parse_command("move-forward-99999999999");
    assert!(matches!(overflowing, Err(CommandError::InvalidNumber)));
}

#[test]
fn unknown_commands_are_rejected() {
    let processor = RoverProcessorV1;
    let parsed = processor.parse_command("fly-up");
    assert!(matches!(parsed, Err(CommandError::Unsupported)));

    // the first interpreter does not know print commands
    let print = processor.parse_command("print-hello");
    assert!(matches!(print, Err(CommandError::Unsupported)));
}

#[test]
fn distance_is_taken_from_the_last_word() {
    let map = vec![vec!['O'; 10]; 10];
    let mut rover = Rover {
        name: String::from("Discovery"),
        pos_x: 0,
        pos_y: 0,
        direction: Direction::East,
        processor: Box::new(RoverProcessorV1),
        map,
    };

    // the empty word between the two dashes is ignored: the distance is the
    // last word
    rover.send_command(String::from("move-forward--3"));

    assert_eq!(rover.pos_x, 3);
    assert_eq!(rover.pos_y, 0);
}
