use watchlist::access::admits;
use watchlist::command::{execute, execute_with, Action, Command, Outcome, Place};
use watchlist::film::{Film, ValidationError};
use watchlist::reply::{Reply, HELP};
use watchlist::state::State;

fn add(payload: &str) -> Command {
    Command::Add(payload.to_string())
}

fn plain(text: &str) -> Reply {
    Reply { text: text.to_string(), markup: false, preview: true }
}

#[test]
fn dune_goes_through_the_lists() {
    let dune = Film::new("Dune", 1965, "https://example.com/dune").unwrap();
    let (state, outcome) = execute(State::new(), add("Dune,,,1965,,,https://example.com/dune"));
    let id = match outcome {
        Outcome::Added(id) => id,
        other => panic!("{:?}", other),
    };
    let (state, outcome) = execute(state, Command::Ls);
    assert_eq!(outcome, Outcome::Pending(vec![(id.clone(), dune.clone())]));
    let (state, outcome) = execute(state, Command::Mv(id.clone()));
    assert_eq!(outcome, Outcome::Moved);
    let (state, outcome) = execute(state, Command::Ls);
    assert_eq!(outcome, Outcome::Pending(vec![]));
    let (state, outcome) = execute(state, Command::La);
    assert_eq!(outcome, Outcome::Completed(vec![(id.clone(), dune)]));
    let (state, outcome) = execute(state, Command::Rm(id.clone()));
    assert_eq!(outcome, Outcome::Removed);
    let (state, outcome) = execute(state, Command::La);
    assert_eq!(outcome, Outcome::Completed(vec![]));
    let (state, outcome) = execute(state, Command::Mv(id));
    assert_eq!(outcome, Outcome::NotFound(Place::Pending));
    assert_eq!(state, State::new());
}

#[test]
fn a_missing_argument_gives_a_hint() {
    let (state, _) = execute(State::new(), add("Dune,,,1965,,,https://example.com/dune"));
    let cases = [
        (add(""), Action::Add),
        (Command::Mv(String::new()), Action::Move),
        (Command::Rm(String::new()), Action::Remove),
        (Command::Who(String::new()), Action::Info),
    ];
    for (command, action) in cases {
        let (next, outcome) = execute(state.clone(), command);
        assert_eq!(outcome, Outcome::Usage(action));
        assert_eq!(next, state);
    }
}

#[test]
fn a_film_that_is_turned_away_changes_nothing() {
    let (state, _) = execute(State::new(), add("Dune,,,1965,,,https://example.com/dune"));
    let cases = [
        ("Dune", ValidationError::MalformedInput),
        ("Dune,,,1965", ValidationError::MalformedInput),
        ("a,,,b,,,c,,,d", ValidationError::MalformedInput),
        ("Alien,,,1799,,,https://x", ValidationError::InvalidYear),
        ("Alien,,,2141,,,https://x", ValidationError::InvalidYear),
        ("Alien,,,soon,,,https://x", ValidationError::InvalidYear),
        ("Alien,,,1979,,,http://x", ValidationError::InsecureUrl),
    ];
    for (payload, error) in cases {
        let (next, outcome) = execute(state.clone(), add(payload));
        assert_eq!(outcome, Outcome::Rejected(error), "{:?}", payload);
        assert_eq!(next, state);
    }
    let (next, outcome) = execute(state.clone(), add("Alien,,,1800,,,https://x"));
    assert!(matches!(outcome, Outcome::Added(_)));
    assert_eq!(next.pending().len(), 2);
    let (next, outcome) = execute(state.clone(), add("Alien,,,2140,,,https://x"));
    assert!(matches!(outcome, Outcome::Added(_)));
    assert_eq!(next.pending().len(), 2);
}

#[test]
fn removing_a_pending_film_is_refused() {
    let (state, outcome) = execute(State::new(), add("Dune,,,1965,,,https://example.com/dune"));
    let id = match outcome {
        Outcome::Added(id) => id,
        other => panic!("{:?}", other),
    };
    let (next, outcome) = execute(state.clone(), Command::Rm(id));
    assert_eq!(outcome, Outcome::NotFound(Place::Completed));
    assert_eq!(next, state);
}

#[test]
fn info_finds_pending_and_completed() {
    let dune = Film::new("Dune", 1965, "https://example.com/dune").unwrap();
    let (state, id) = State::new().add(dune.clone());
    let (state, outcome) = execute(state, Command::Who(id.clone()));
    assert_eq!(outcome, Outcome::Info(id.clone(), dune.clone()));
    let (state, _) = execute(state, Command::Mv(id.clone()));
    let (state, outcome) = execute(state, Command::Who(id.clone()));
    assert_eq!(outcome, Outcome::Info(id, dune));
    let (_, outcome) = execute(state, Command::Who("nobody".to_string()));
    assert_eq!(outcome, Outcome::NotFound(Place::Anywhere));
}

#[test]
fn only_three_outcomes_change_the_state() {
    let dune = Film::new("Dune", 1965, "https://x").unwrap();
    assert!(Outcome::Added("abc123".to_string()).changes_state());
    assert!(Outcome::Moved.changes_state());
    assert!(Outcome::Removed.changes_state());
    assert!(!Outcome::Rejected(ValidationError::InvalidYear).changes_state());
    assert!(!Outcome::Picked("abc123".to_string(), dune.clone()).changes_state());
    assert!(!Outcome::Empty.changes_state());
    assert!(!Outcome::Pending(vec![]).changes_state());
    assert!(!Outcome::Completed(vec![]).changes_state());
    assert!(!Outcome::Info("abc123".to_string(), dune).changes_state());
    assert!(!Outcome::NotFound(Place::Pending).changes_state());
    assert!(!Outcome::Usage(Action::Add).changes_state());
    assert!(!Outcome::Help.changes_state());
}

#[test]
fn reading_commands_change_nothing() {
    let (state, id) = State::new().add(Film::new("Dune", 1965, "https://x").unwrap());
    let commands =
        [Command::Ls, Command::La, Command::Rnd, Command::Help, Command::Who(id)];
    for command in commands {
        let (next, _) = execute(state.clone(), command);
        assert_eq!(next, state);
    }
}

#[test]
fn random_with_a_given_number() {
    let dune = Film::new("Dune", 1965, "https://example.com/dune").unwrap();
    let alien = Film::new("Alien", 1979, "https://example.com/alien").unwrap();
    let (state, a) = State::new().add(dune.clone());
    let (state, b) = state.add(alien.clone());
    let (_, outcome) = execute_with(state.clone(), Command::Rnd, 4);
    assert_eq!(outcome, Outcome::Picked(a, dune));
    let (_, outcome) = execute_with(state.clone(), Command::Rnd, 5);
    assert_eq!(outcome, Outcome::Picked(b, alien));
    let (_, outcome) = execute_with(State::new(), Command::Rnd, 5);
    assert_eq!(outcome, Outcome::Empty);
    let (_, outcome) = execute(State::new(), Command::Rnd);
    assert_eq!(outcome, Outcome::Empty);
    let (_, outcome) = execute(state, Command::Rnd);
    assert!(matches!(outcome, Outcome::Picked(_, _)));
}

#[test]
fn the_number_matters_to_random_only() {
    let (state, id) = State::new().add(Film::new("Dune", 1965, "https://x").unwrap());
    let commands = [
        add("Alien,,,1979,,,https://y"),
        add("bad"),
        Command::Mv(id.clone()),
        Command::Rm(id.clone()),
        Command::Who(id),
        Command::Ls,
        Command::La,
        Command::Help,
    ];
    for command in commands {
        let one = execute_with(state.clone(), command.clone(), 1);
        let two = execute_with(state.clone(), command.clone(), 2);
        let any = execute(state.clone(), command);
        assert_eq!(one, two);
        assert_eq!(one, any);
    }
}

#[test]
fn plain_replies() {
    assert_eq!(Outcome::Added("abc123".to_string()).reply(), plain("👍 Film successfully added!"));
    assert_eq!(Outcome::Moved.reply(), plain("👍 Film successfully moved"));
    assert_eq!(Outcome::Removed.reply(), plain("👍 Film successfully removed"));
    assert_eq!(
        Outcome::Rejected(ValidationError::MalformedInput).reply(),
        plain("⚠️ Invalid items number: title,,,year,,,url")
    );
    assert_eq!(
        Outcome::Rejected(ValidationError::InvalidYear).reply(),
        plain("⚠️ Invalid film year: ∈ [1800, 2140]")
    );
    assert_eq!(
        Outcome::Rejected(ValidationError::InsecureUrl).reply(),
        plain("⚠️ Add failed, invalid film url")
    );
    assert_eq!(
        Outcome::NotFound(Place::Pending).reply(),
        plain("⚠️ Move failed, invalid film id")
    );
    assert_eq!(
        Outcome::NotFound(Place::Completed).reply(),
        plain("⚠️ Remove failed, invalid film id")
    );
    assert_eq!(
        Outcome::NotFound(Place::Anywhere).reply(),
        plain("⚠️ Info failed, invalid film id")
    );
    assert_eq!(
        Outcome::Usage(Action::Add).reply(),
        plain("ℹ️ Usage:   /add <title>,,,<year>,,,<url>")
    );
    assert_eq!(Outcome::Usage(Action::Move).reply(), plain("ℹ️ Usage:   /mv <tips film id>"));
    assert_eq!(Outcome::Usage(Action::Remove).reply(), plain("ℹ️ Usage:   /rm <seen film id>"));
    assert_eq!(Outcome::Usage(Action::Info).reply(), plain("ℹ️ Usage:   /who <film id>"));
}

#[test]
fn help_reply_lists_the_commands() {
    let expected = "🍿 Commands supported:\n\n\
                    /add — Append to tips\n\
                    /mv — Move to seen\n\
                    /rnd — Weekly challenge\n\
                    /rm — Remove from seen\n\
                    /ls — List tips\n\
                    /la — List all seen\n\
                    /who — Film info\n\
                    /help — Help message";
    assert_eq!(HELP, expected);
    assert_eq!(Outcome::Help.reply(), plain(expected));
}

#[test]
fn marked_up_replies() {
    let dune = Film::new("Dune (1984)", 1984, "https://example.com/dune").unwrap();
    let alien = Film::new("Alien", 1979, "https://example.com/alien").unwrap();
    let items = vec![("abc123".to_string(), dune.clone()), ("def456".to_string(), alien)];
    assert_eq!(
        Outcome::Picked("abc123".to_string(), dune.clone()).reply(),
        Reply {
            text: "🎲✨ *Weekly challenge*\n\n[abc123](https://example\\.com/dune)   Dune \\(1984\\)"
                .to_string(),
            markup: true,
            preview: true,
        }
    );
    assert_eq!(
        Outcome::Empty.reply(),
        Reply {
            text: "⚠️ Random challenge failed, is *tips* empty?".to_string(),
            markup: true,
            preview: true,
        }
    );
    assert_eq!(
        Outcome::Pending(items.clone()).reply(),
        Reply {
            text: "📌 *Tips*\n\n[abc123](https://example\\.com/dune)   Dune \\(1984\\)\n\
                   [def456](https://example\\.com/alien)   Alien"
                .to_string(),
            markup: true,
            preview: false,
        }
    );
    assert_eq!(
        Outcome::Completed(items).reply(),
        Reply {
            text: "✅ *Seen*\n\n[abc123](https://example\\.com/dune)   Dune \\(1984\\)\n\
                   [def456](https://example\\.com/alien)   Alien"
                .to_string(),
            markup: true,
            preview: false,
        }
    );
    assert_eq!(
        Outcome::Pending(vec![]).reply(),
        Reply { text: "📌 *Tips*\n\n".to_string(), markup: true, preview: false }
    );
    assert_eq!(
        Outcome::Info("abc123".to_string(), dune).reply(),
        Reply {
            text: "ℹ️ *Who is abc123?*\n\nFilm \\{\n    title: \"Dune \\(1984\\)\",\n    \
                   year: 1984,\n    url: \"https://example\\.com/dune\",\n\\}"
                .to_string(),
            markup: true,
            preview: true,
        }
    );
}

#[test]
fn admits_without_a_usable_setting() {
    assert!(admits(None, 42));
    assert!(admits(Some(""), 42));
    assert!(admits(Some("everyone"), 42));
    assert!(admits(Some("42 "), 7));
    assert!(admits(Some("9223372036854775808"), 7));
}

#[test]
fn admits_the_chat_that_is_set() {
    assert!(admits(Some("42"), 42));
    assert!(admits(Some("+42"), 42));
    assert!(admits(Some("-1001234567890"), -1001234567890));
    assert!(!admits(Some("42"), 43));
    assert!(!admits(Some("-42"), 42));
    assert!(!admits(Some("0"), 42));
    assert!(admits(Some("-9223372036854775808"), i64::MIN));
    assert!(!admits(Some("-9223372036854775808"), i64::MAX));
}
