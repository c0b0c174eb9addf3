use textquest::clock::MyTime;
use textquest::command::Cmd;
use textquest::parser::CmdParser;
use textquest::world::LocKey;
use textquest::world::World;

#[test]
fn clock_carries_whole_hours() {
    let mut t = MyTime::new(16, 10);
    t.progress(55);
    assert_eq!(t.hrs, 17);
    assert_eq!(t.mins, 5);
}

#[test]
fn clock_advance_by_full_hours_keeps_minutes() {
    let mut t = MyTime::new(16, 10);
    t.progress(120);
    assert_eq!(t.hrs, 18);
    assert_eq!(t.mins, 10);
}

#[test]
fn clock_no_carry() {
    let mut t = MyTime::new(0, 0);
    t.progress(59);
    assert_eq!(t.hrs, 0);
    assert_eq!(t.mins, 59);
    t.progress(1);
    assert_eq!(t.hrs, 1);
    assert_eq!(t.mins, 0);
}

#[test]
fn clock_renormalizes_from_denormal_minutes() {
    // progress carries whole hours out of the minute field no matter
    // how the clock started.
    let mut t = MyTime::new(0, 130);
    t.progress(0);
    assert_eq!(t.hrs, 2);
    assert_eq!(t.mins, 10);
}

#[test]
fn world_starts_in_hallway_at_16_10() {
    let w = World::new();
    assert_eq!(w.at, LocKey::Hallway);
    assert_eq!(w.my_time.hrs, 16);
    assert_eq!(w.my_time.mins, 10);
    assert!(w.has_location(LocKey::Hallway));
    assert!(w.has_location(LocKey::Passageway));
}

#[test]
fn world_connections_carry_labels() {
    let w = World::new();
    let conns = w.connections_here().expect("current location missing");
    assert_eq!(conns.len(), 1);
    assert_eq!(conns[0].destination, LocKey::Passageway);
    assert_eq!(conns[0].direction, "north");
    assert_eq!(conns[0].description, "a large doorway");
}

#[test]
fn movement_resolves_to_first_matching_connection() {
    let w = World::new();
    let p = CmdParser::new();
    assert_eq!(p.parse(&w, "go north"), Some(Cmd::GoTo(LocKey::Passageway)));
}

#[test]
fn movement_unresolved_direction_falls_through_to_no_match() {
    let mut w = World::new();
    let p = CmdParser::new();
    let quit = w.apply(&Cmd::GoTo(LocKey::Passageway));
    assert!(!quit);
    // At the passageway the only direction out is south.
    assert_eq!(p.parse(&w, "go north"), None);
    assert_eq!(p.parse(&w, "go south"), Some(Cmd::GoTo(LocKey::Hallway)));
}

#[test]
fn movement_requires_match_to_reach_end_of_input() {
    let w = World::new();
    let p = CmdParser::new();
    assert_eq!(p.parse(&w, "go north!"), None);
}

#[test]
fn movement_verb_alternatives_all_work() {
    let w = World::new();
    let p = CmdParser::new();
    for line in [
        "go to north",
        "go north",
        "walk north",
        "stroll north",
        "amble north",
        "move north",
        "head north",
        "meander north",
        "saunter north",
        "jog north",
    ] {
        assert_eq!(p.parse(&w, line), Some(Cmd::GoTo(LocKey::Passageway)), "{}", line);
    }
}

#[test]
fn movement_match_may_start_mid_string() {
    let w = World::new();
    let p = CmdParser::new();
    // The pattern scan is not anchored at the start of the line.
    assert_eq!(p.parse(&w, "please go north"), Some(Cmd::GoTo(LocKey::Passageway)));
}

#[test]
fn exit_tokens_accepted_at_end_of_input() {
    let w = World::new();
    let p = CmdParser::new();
    assert_eq!(p.parse(&w, "exit"), Some(Cmd::Exit));
    assert_eq!(p.parse(&w, "quit"), Some(Cmd::Exit));
    assert_eq!(p.parse(&w, "please quit"), Some(Cmd::Exit));
}

#[test]
fn exit_token_not_reaching_end_is_rejected() {
    let w = World::new();
    let p = CmdParser::new();
    assert_eq!(p.parse(&w, "exit now"), None);
}

#[test]
fn exit_never_mistaken_for_wait() {
    let w = World::new();
    let p = CmdParser::new();
    // Priority: the exit rule stands before the wait rule.
    assert_eq!(p.parse(&w, "exit"), Some(Cmd::Exit));
    assert_ne!(p.parse(&w, "exit"), Some(Cmd::Wait));
}

#[test]
fn unresolved_movement_can_still_reach_exit_rule() {
    let w = World::new();
    let p = CmdParser::new();
    // "go exit": the movement verb matches but "exit" names no
    // connection, so the parse falls through and the exit rule accepts.
    assert_eq!(p.parse(&w, "go exit"), Some(Cmd::Exit));
}

#[test]
fn time_rule_accepts_check_variants() {
    let w = World::new();
    let p = CmdParser::new();
    assert_eq!(p.parse(&w, "check time"), Some(Cmd::CheckTime));
    assert_eq!(p.parse(&w, "check clock"), Some(Cmd::CheckTime));
    assert_eq!(p.parse(&w, "check watch"), Some(Cmd::CheckTime));
    assert_eq!(p.parse(&w, "what time"), Some(Cmd::CheckTime));
}

#[test]
fn bare_time_tokens_accepted_without_check() {
    let w = World::new();
    let p = CmdParser::new();
    // The leading word `check` is optional, so the bare token matches.
    assert_eq!(p.parse(&w, "time"), Some(Cmd::CheckTime));
    assert_eq!(p.parse(&w, "clock"), Some(Cmd::CheckTime));
    assert_eq!(p.parse(&w, "watch"), Some(Cmd::CheckTime));
}

#[test]
fn time_match_not_reaching_end_is_rejected() {
    let w = World::new();
    let p = CmdParser::new();
    assert_eq!(p.parse(&w, "check time please"), None);
}

#[test]
fn wait_tokens_accepted() {
    let w = World::new();
    let p = CmdParser::new();
    assert_eq!(p.parse(&w, "wait"), Some(Cmd::Wait));
    assert_eq!(p.parse(&w, "idle"), Some(Cmd::Wait));
    assert_eq!(p.parse(&w, "chill"), Some(Cmd::Wait));
    assert_eq!(p.parse(&w, "stay"), Some(Cmd::Wait));
}

#[test]
fn leftmost_exit_token_decides_the_full_match_test() {
    let w = World::new();
    let p = CmdParser::new();
    // The scan stops at the first exit token; the later one at the end
    // of the line does not rescue the match.
    assert_eq!(p.parse(&w, "exit quit"), None);
    assert_eq!(p.parse(&w, "quit exit"), None);
}

#[test]
fn leftmost_movement_verb_decides_the_capture() {
    let w = World::new();
    let p = CmdParser::new();
    // The first verb occurrence captures everything behind it, so the
    // remainder is not a bare direction and resolution fails.
    assert_eq!(p.parse(&w, "go x go north"), None);
}

#[test]
fn unmatched_input_yields_no_command() {
    let w = World::new();
    let p = CmdParser::new();
    assert_eq!(p.parse(&w, ""), None);
    assert_eq!(p.parse(&w, "fly north"), None);
    assert_eq!(p.parse(&w, "hello there"), None);
    assert_eq!(p.parse(&w, "go"), None);
}

#[test]
fn parsing_is_pure_across_repeated_calls() {
    let w = World::new();
    let p = CmdParser::new();
    assert_eq!(p.parse(&w, "check time"), p.parse(&w, "check time"));
    assert_eq!(p.parse(&w, "wait"), p.parse(&w, "wait"));
    assert_eq!(p.parse(&w, "check time"), Some(Cmd::CheckTime));
    assert_eq!(p.parse(&w, "wait"), Some(Cmd::Wait));
}

#[test]
fn apply_moves_and_advances_clock() {
    let mut w = World::new();
    let quit = w.apply(&Cmd::GoTo(LocKey::Passageway));
    assert!(!quit);
    assert_eq!(w.at, LocKey::Passageway);
    assert_eq!(w.my_time.hrs, 16);
    assert_eq!(w.my_time.mins, 15);
}

#[test]
fn apply_wait_advances_clock_by_fifteen() {
    let mut w = World::new();
    let quit = w.apply(&Cmd::Wait);
    assert!(!quit);
    assert_eq!(w.at, LocKey::Hallway);
    assert_eq!(w.my_time.mins, 25);
}

#[test]
fn apply_check_time_changes_nothing() {
    let mut w = World::new();
    let quit = w.apply(&Cmd::CheckTime);
    assert!(!quit);
    assert_eq!(w.at, LocKey::Hallway);
    assert_eq!(w.my_time.hrs, 16);
    assert_eq!(w.my_time.mins, 10);
}

#[test]
fn full_session_scenario() {
    let mut w = World::new();
    let p = CmdParser::new();

    let cmd = p.parse(&w, "go north").expect("movement should parse");
    assert_eq!(cmd, Cmd::GoTo(LocKey::Passageway));
    assert!(!w.apply(&cmd));
    assert_eq!(w.at, LocKey::Passageway);
    assert_eq!((w.my_time.hrs, w.my_time.mins), (16, 15));

    let cmd = p.parse(&w, "wait").expect("wait should parse");
    assert_eq!(cmd, Cmd::Wait);
    assert!(!w.apply(&cmd));
    assert_eq!((w.my_time.hrs, w.my_time.mins), (16, 30));

    let cmd = p.parse(&w, "check time").expect("time should parse");
    assert_eq!(cmd, Cmd::CheckTime);
    assert!(!w.apply(&cmd));
    assert_eq!((w.my_time.hrs, w.my_time.mins), (16, 30));

    let cmd = p.parse(&w, "quit").expect("quit should parse");
    assert_eq!(cmd, Cmd::Exit);
    assert!(w.apply(&cmd));
}
