use mecano::buffer::Redraw;
use mecano::cli::{config_with_args, flags, list_dicts_flag, parse_count, version_flag};
use mecano::config::{Config, FieldError, Theme};
use mecano::engine::{BoxInfo, Engine, Event, KeyCode, KeyEvent, KeyMods, Mecano, Screen};
use mecano::modes::Mode;

fn key(c: char) -> Event {
    Event::Key(KeyEvent { code: KeyCode::Char(c), mods: KeyMods::Empty })
}

fn session(text: &str) -> Mecano {
    let mode = Mode::new("file", text, 20).unwrap();
    Mecano::new(mode, 20, 2, 3_000, (80, 24))
}

#[test]
fn empty_config() {
    let config = Config::empty();

    assert!(config.get_mode() == "file");
    assert!(config.get_file() == "100_spanish");
    assert!(config.get_width() == 80);
    assert!(config.get_max_time() == 60);
    assert!(config.get_lenght() == 2);
    assert!(config.get_config_text_box() == Theme::default());
    assert!(config.get_rate() == 1000);
}

#[test]
fn setters_reject_zero() {
    let mut config = Config::empty();
    assert_eq!(config.set_width(0), Some(FieldError::ZeroNotAllowed));
    assert_eq!(config.set_max_time(0), Some(FieldError::ZeroNotAllowed));
    assert_eq!(config.set_lenght(0), Some(FieldError::ZeroNotAllowed));
    assert_eq!(config.set_rate(0), Some(FieldError::ZeroNotAllowed));
    assert_eq!(config.set_mode("nope"), Some(FieldError::InvalidMode));
    assert_eq!(config.set_mode("dictionary"), None);
    assert_eq!(config.get_mode(), "dictionary");
}

#[test]
fn args_override_the_configuration() {
    let args: Vec<String> =
        vec!["mecano".into(), "-m".into(), "dictionary".into(), "-t".into(), "90".into()];
    let config = config_with_args(Config::default(), &args).unwrap();
    assert_eq!(config.get_mode(), "dictionary");
    assert_eq!(config.get_max_time(), 90);
}

#[test]
fn bad_args_are_reported() {
    let bad_time: Vec<String> = vec!["mecano".into(), "-t".into(), "abc".into()];
    assert!(config_with_args(Config::default(), &bad_time).is_err());

    let zero_time: Vec<String> = vec!["mecano".into(), "-t".into(), "0".into()];
    assert!(config_with_args(Config::default(), &zero_time).is_err());

    let missing: Vec<String> = vec!["mecano".into(), "-m".into()];
    assert!(config_with_args(Config::default(), &missing).is_err());

    let bad_mode: Vec<String> = vec!["mecano".into(), "-m".into(), "tape".into()];
    assert!(config_with_args(Config::default(), &bad_mode).is_err());
}

#[test]
fn parse_count_reads_exactly_decimal_counts() {
    assert_eq!(parse_count("0"), Some(0));
    assert_eq!(parse_count("90"), Some(90));
    assert_eq!(parse_count("18446744073709551615"), Some(u64::MAX));
    assert_eq!(parse_count("18446744073709551616"), None);
    assert_eq!(parse_count(""), None);
    assert_eq!(parse_count("9a"), None);
    assert_eq!(parse_count("-4"), None);
}

#[test]
fn flag_dispatch_answers_the_last_flag() {
    let dicts = vec!["100_english".to_string(), "100_spanish".to_string()];
    let args: Vec<String> = vec!["mecano".into(), "-h".into(), "--version".into()];
    assert_eq!(flags(&args, &dicts), "mecano v0.2.2");
    assert_eq!(version_flag(), "mecano v0.2.2");

    let args: Vec<String> = vec!["mecano".into(), "--list-modes".into()];
    assert_eq!(flags(&args, &dicts), "dictionary\nfile");

    let args: Vec<String> = vec!["mecano".into(), "--list-dictionaries".into()];
    assert_eq!(flags(&args, &dicts), "100_english\n100_spanish");
    assert_eq!(list_dicts_flag(&dicts), "100_english\n100_spanish");

    let args: Vec<String> = vec!["mecano".into()];
    assert_eq!(flags(&args, &dicts), "");
}

#[test]
fn box_centering() {
    let b = BoxInfo::centered(80, (120, 30)).unwrap();
    assert_eq!(b.left_padding, 20);
    assert_eq!(b.top_padding, 13);
    assert_eq!(b.width, 80);

    assert!(BoxInfo::centered(80, (80, 30)).is_err());
    assert!(BoxInfo::centered(80, (120, 8)).is_err());
}

#[test]
fn session_runs_and_finishes_on_the_countdown() {
    let mut state = session("ab cd");
    assert!(state.is_ready());

    state.run();
    let outcome = state.handle_event(key('a'));
    assert!(outcome.keep_going);
    state.update_time(1_000);
    assert!(state.is_running());

    state.update_time(2_000);
    assert!(state.is_ended());

    // on the score screen only a quit is honored
    let ignored = state.handle_event(key('x'));
    assert!(ignored.keep_going);
    let quit = state.handle_event(
        Event::Key(KeyEvent { code: KeyCode::Esc, mods: KeyMods::Empty }),
    );
    assert!(!quit.keep_going);
}

#[test]
fn focus_and_resize_drive_the_state_machine() {
    let mut state = session("ab cd");
    state.run();

    state.handle_event(Event::FocusLost);
    assert!(state.is_stopped());

    state.handle_event(Event::FocusGained);
    assert!(state.is_running());

    let outcome = state.handle_event(Event::Resize(100, 40));
    assert!(state.is_stopped());
    assert_eq!(outcome.redraw, Redraw::Full);
}

#[test]
fn too_narrow_recovers_to_the_prior_state() {
    let mut state = session("ab cd");
    state.run();

    let screen = state.draw((10, 5));
    assert_eq!(screen, Screen::TooNarrow);
    assert!(state.is_too_narrow());

    // keys are dropped while the frame does not fit
    let outcome = state.handle_event(key('a'));
    assert!(outcome.keep_going);
    assert_eq!(outcome.redraw, Redraw::Nothing);

    let screen = state.draw((80, 24));
    assert_eq!(screen, Screen::Playing);
    assert!(state.is_running());
}

#[test]
fn chorded_keys_are_ignored() {
    let mut state = session("ab cd");
    state.run();
    let outcome = state.handle_event(
        Event::Key(KeyEvent { code: KeyCode::Char('a'), mods: KeyMods::Other }),
    );
    assert!(outcome.keep_going);
    assert_eq!(outcome.redraw, Redraw::Nothing);
    assert_eq!(state.textbox.get_punct().chars_right, 0);
}

#[test]
fn typing_feeds_the_echo_line() {
    let mut state = session("ab cd");
    state.run();
    state.handle_event(key('a'));
    state.handle_event(key('b'));
    assert_eq!(state.typed_word, vec!['a', 'b']);
    state.handle_event(key(' '));
    assert!(state.typed_word.is_empty());
}

#[test]
fn arrows_resize_the_viewport() {
    let mut state = session("ab cd");
    state.run();
    let w = state.width;
    state.handle_event(Event::Key(KeyEvent { code: KeyCode::Right, mods: KeyMods::Empty }));
    assert_eq!(state.width, w + 4);
    assert!(state.is_stopped());
    state.handle_event(Event::Key(KeyEvent { code: KeyCode::Down, mods: KeyMods::Empty }));
    assert_eq!(state.lines_to_show, 3);
}

#[test]
fn session_score_is_computed_once() {
    let mut state = session("ab cd");
    state.run();
    for c in "ab cd ".chars() {
        state.update_time(100);
        state.handle_event(key(c));
    }
    state.update_time(10_000);
    assert!(state.is_ended());
    let punct = state.session_punct();
    assert_eq!(punct.chars_right, 4);
    assert_eq!(punct.chars_wrong, 0);
    let again = state.session_punct();
    assert_eq!(again.chars_right, 4);
}
