use ipcli::image::Image;
use ipcli::session::Cli;
use ipcli::session::ReplyKind;
use ipcli::draw::Warn;

fn fresh_cli(w: i32, h: i32) -> Cli {
    Cli::new("ipcli> ".to_owned(), Image::new(w, h, false))
}

fn pixel(cli: &Cli, x: i32, y: i32) -> bool {
    cli.image_ref().read_pixel(x, y)
}

#[test]
fn write_command_sets_pixel() {
    let mut cli = fresh_cli(10, 10);
    let r = cli.parse_command(b"write 2 3 t\n".to_vec());
    assert_eq!(r.kind, ReplyKind::Done);
    assert!(r.changed);
    assert_eq!(r.warn, None);
    assert!(pixel(&cli, 2, 3));
    // the blind shorthand substitution corrupts a spelled-out boolean:
    // " true" gains another "rue", so the argument no longer parses
    let r2 = cli.parse_command(b"write 2 4 true\n".to_vec());
    assert_eq!(r2.kind, ReplyKind::Usage);
}

#[test]
fn shorthand_and_case_are_accepted() {
    let mut cli = fresh_cli(10, 10);
    let r = cli.parse_command(b"W 2 3 T\n".to_vec());
    assert_eq!(r.kind, ReplyKind::Done);
    assert!(pixel(&cli, 2, 3));
    let r2 = cli.parse_command(b"F 2 3 f\n".to_vec());
    assert_eq!(r2.kind, ReplyKind::Done);
    assert!(!pixel(&cli, 2, 3));
}

#[test]
fn usage_error_reports_name_and_mutates_nothing() {
    let mut cli = fresh_cli(5, 5);
    let r = cli.parse_command(b"write 1\n".to_vec());
    assert_eq!(r.kind, ReplyKind::Usage);
    assert_eq!(r.name, b"write".to_vec());
    assert!(!r.changed);
    let r2 = cli.parse_command(b"w 1 1 maybe\n".to_vec());
    assert_eq!(r2.kind, ReplyKind::Usage);
    // neither line was recorded
    assert_eq!(cli.dump_script(), Vec::<u8>::new());
}

#[test]
fn unrecognized_and_empty_lines() {
    let mut cli = fresh_cli(5, 5);
    let r = cli.parse_command(b"scribble 1 2\n".to_vec());
    assert_eq!(r.kind, ReplyKind::Unrecognized);
    assert_eq!(r.name, b"scribble".to_vec());
    assert_eq!(cli.parse_command(b"\n".to_vec()).kind, ReplyKind::Empty);
    assert_eq!(cli.parse_command(b"   \n".to_vec()).kind, ReplyKind::Empty);
}

#[test]
fn help_dump_quit_are_classified() {
    let mut cli = fresh_cli(5, 5);
    assert_eq!(cli.parse_command(b"help\n".to_vec()).kind, ReplyKind::Help);
    assert_eq!(cli.parse_command(b"h\n".to_vec()).kind, ReplyKind::Help);
    assert_eq!(cli.parse_command(b"dump\n".to_vec()).kind, ReplyKind::Dump);
    assert_eq!(cli.parse_command(b"q\n".to_vec()).kind, ReplyKind::Quit);
    // none of these are recorded
    assert_eq!(cli.dump_script(), Vec::<u8>::new());
}

#[test]
fn negative_coordinates_warn_but_are_recorded() {
    let mut cli = fresh_cli(5, 5);
    let r = cli.parse_command(b"w -1 0 t\n".to_vec());
    assert_eq!(r.kind, ReplyKind::Done);
    assert_eq!(r.warn, Some(Warn::Coords));
    assert!(!r.changed);
    assert_eq!(cli.dump_script(), b"w -1 0 t;\n".to_vec());
}

#[test]
fn resize_command_changes_dimensions() {
    let mut cli = fresh_cli(5, 5);
    let r = cli.parse_command(b"r 3 7\n".to_vec());
    assert_eq!(r.kind, ReplyKind::Done);
    assert_eq!(cli.image_ref().get_width(), 3);
    assert_eq!(cli.image_ref().get_height(), 7);
    let r2 = cli.parse_command(b"resize 0 2\n".to_vec());
    assert_eq!(r2.warn, Some(Warn::Dims));
    assert_eq!(cli.image_ref().get_width(), 3);
}

#[test]
fn invert_command_flips_all() {
    let mut cli = fresh_cli(3, 3);
    let r = cli.parse_command(b"i\n".to_vec());
    assert_eq!(r.kind, ReplyKind::Done);
    assert!(r.changed);
    for y in 0..3 {
        for x in 0..3 {
            assert!(pixel(&cli, x, y));
        }
    }
}

#[test]
fn clear_command_fills_canvas() {
    let mut cli = fresh_cli(3, 2);
    assert_eq!(cli.parse_command(b"c t\n".to_vec()).kind, ReplyKind::Done);
    for y in 0..2 {
        for x in 0..3 {
            assert!(pixel(&cli, x, y));
        }
    }
}

#[test]
fn integer_arguments_respect_i32_range() {
    let mut cli = fresh_cli(5, 5);
    // out of range: a usage error
    assert_eq!(cli.parse_command(b"w 2147483648 0 t\n".to_vec()).kind, ReplyKind::Usage);
    assert_eq!(cli.parse_command(b"w 0 -2147483649 t\n".to_vec()).kind, ReplyKind::Usage);
    // at the limits: accepted, silently clipped off the canvas
    let r = cli.parse_command(b"w 2147483647 0 t\n".to_vec());
    assert_eq!(r.kind, ReplyKind::Done);
    assert_eq!(r.warn, None);
    assert!(!r.changed);
}

#[test]
fn write_then_fill_script_leaves_canvas_unchanged() {
    let mut cli = fresh_cli(10, 10);
    let rs = cli.parse_script(&b"write 2 2 t;fill 2 2 f;".to_vec());
    assert_eq!(rs.len(), 3);
    assert_eq!(rs[0].kind, ReplyKind::Done);
    assert_eq!(rs[1].kind, ReplyKind::Done);
    assert_eq!(rs[2].kind, ReplyKind::Empty);
    for y in 0..10 {
        for x in 0..10 {
            assert!(!pixel(&cli, x, y), "at ({x}, {y})");
        }
    }
}

#[test]
fn script_continues_past_errors() {
    let mut cli = fresh_cli(5, 5);
    let rs = cli.parse_script(&b"nonsense;w 1 1;w 2 2 t;".to_vec());
    assert_eq!(rs[0].kind, ReplyKind::Unrecognized);
    assert_eq!(rs[1].kind, ReplyKind::Usage);
    assert_eq!(rs[2].kind, ReplyKind::Done);
    assert!(pixel(&cli, 2, 2));
}

#[test]
fn dump_is_the_trimmed_history_as_a_script() {
    let mut cli = fresh_cli(10, 10);
    cli.parse_command(b"  w 1 1 t  \n".to_vec());
    cli.parse_command(b"help\n".to_vec());
    cli.parse_command(b"i\n".to_vec());
    assert_eq!(cli.dump_script(), b"w 1 1 t;\ni;\n".to_vec());
}

#[test]
fn dump_replayed_on_fresh_canvas_reproduces_grid() {
    let mut cli = fresh_cli(10, 10);
    for line in [
        "w 1 1 t\n",
        "dr 2 2 3 3 t\n",
        "dl 0 9 9 0 t\n",
        "dco 5 5 3 t\n",
        "i\n",
        "f 0 0 t\n",
        "bogus 1\n",
    ] {
        cli.parse_command(line.as_bytes().to_vec());
    }
    let script = cli.dump_script();
    let mut replay = fresh_cli(10, 10);
    replay.parse_script(&script);
    assert!(cli.image_ref().same_grid(replay.image_ref()));
}

#[test]
fn session_state_survives_script_replay() {
    let mut cli = fresh_cli(5, 5);
    cli.parse_command(b"w 0 0 t\n".to_vec());
    cli.parse_script(&b"w 1 1 t;".to_vec());
    // the script did not touch the history
    assert_eq!(cli.dump_script(), b"w 0 0 t;\n".to_vec());
    assert!(pixel(&cli, 1, 1));
}

#[test]
fn framed_rendering() {
    let img = Image::new(2, 1, true);
    let s = img.get_human_readable("X", ".", true);
    assert_eq!(s, "+----+\n|XX|\n+----+");
}

#[test]
fn unframed_rendering() {
    let mut img = Image::new(2, 2, false);
    img.write_pixel(1, 0, true);
    let s = img.get_human_readable("##", "..", false);
    assert_eq!(s, "\n..##\n....\n");
}

#[test]
fn plus_signed_integers_are_accepted() {
    let mut cli = fresh_cli(5, 5);
    let r = cli.parse_command(b"w +1 +2 t\n".to_vec());
    assert_eq!(r.kind, ReplyKind::Done);
    assert!(pixel(&cli, 1, 2));
}

#[test]
fn shorthand_needs_a_space_before_it() {
    // the substitution looks for a space followed by `t`; a tab in front
    // leaves the bare `t`, which is not a boolean
    let mut cli = fresh_cli(5, 5);
    let r = cli.parse_command(b"w 1 1\tt\n".to_vec());
    assert_eq!(r.kind, ReplyKind::Usage);
    assert!(!pixel(&cli, 1, 1));
}

#[test]
fn zero_argument_commands_validate_arity() {
    // the command table declares zero arguments for these; extra tokens
    // are a usage error, and nothing is executed or recorded
    let mut cli = fresh_cli(5, 5);
    let r = cli.parse_command(b"invert 3\n".to_vec());
    assert_eq!(r.kind, ReplyKind::Usage);
    assert_eq!(r.name, b"invert".to_vec());
    assert!(!r.changed);
    assert!(!pixel(&cli, 0, 0));
    assert_eq!(cli.parse_command(b"help me\n".to_vec()).kind, ReplyKind::Usage);
    assert_eq!(cli.parse_command(b"dump all\n".to_vec()).kind, ReplyKind::Usage);
    assert_eq!(cli.parse_command(b"quit now\n".to_vec()).kind, ReplyKind::Usage);
    assert_eq!(cli.dump_script(), Vec::<u8>::new());
}
