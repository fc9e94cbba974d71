use ltlive::parser::{parse, Command, PresentationCommand};

fn help(hint: &str) -> Option<Command> {
    Some(Command::Help(Some(hint.to_string())))
}

#[test]
fn parse_pause_and_friends() {
    assert_eq!(parse("g!live pause"), Some(Command::Pause));
    assert_eq!(parse("g!live resume"), Some(Command::Resume));
    assert_eq!(parse("g!live listen"), Some(Command::Listen));
    assert_eq!(parse("g!live stop_listening"), Some(Command::StopListening));
    assert_eq!(parse("g!live clear_timeline"), Some(Command::TimelineClear));
}

#[test]
fn parse_no_prefix_is_none() {
    assert_eq!(parse("hello world"), None);
    assert_eq!(parse(""), None);
    assert_eq!(parse("g!liv pause"), None);
}

#[test]
fn parse_unknown_subcommand() {
    assert_eq!(parse("g!live"), help("unknown subcommand"));
    assert_eq!(parse("g!live dance"), help("unknown subcommand"));
    assert_eq!(parse("g!live presentations feed"), help("unknown subcommand"));
}

#[test]
fn parse_remove_bad_index() {
    assert_eq!(
        parse("g!live presentations remove abc"),
        help("presentations delete command's argument must be valid usize")
    );
    assert_eq!(
        parse("g!live presentations remove"),
        help("presentations delete command requires at least 1 arguments")
    );
    assert_eq!(
        parse("g!live presentations remove 2"),
        Some(Command::Presentation(PresentationCommand::Remove { index: 2 }))
    );
}

#[test]
fn parse_push() {
    assert_eq!(
        parse("g!live presentations push <@123> Intro to Widgets"),
        Some(Command::Presentation(PresentationCommand::Push {
            user_mention: "<@123>".to_string(),
            title: "Intro to Widgets".to_string(),
        }))
    );
    assert_eq!(
        parse("g!live presentations push <@123>"),
        help("presentations push command requires >= 2 arguments")
    );
}

#[test]
fn parse_update_joins_title() {
    assert_eq!(
        parse("g!live presentations update 1 A New Title"),
        Some(Command::Presentation(PresentationCommand::Update {
            index: 1,
            new_title: "A New Title".to_string(),
        }))
    );
    assert_eq!(
        parse("g!live presentations update x y"),
        help("presentations update command's first argument must be valid usize")
    );
    assert_eq!(
        parse("g!live presentations update 1"),
        help("presentations update command requires at least 2 arguments")
    );
}

#[test]
fn parse_reorder() {
    assert_eq!(
        parse("g!live presentations reorder 2 0 1"),
        Some(Command::Presentation(PresentationCommand::Reorder { map: vec![2, 0, 1] }))
    );
    assert_eq!(
        parse("g!live presentations reorder 2 zero"),
        help("presentations reorder command's arguments must be valid usize")
    );
}

#[test]
fn parse_pop_and_list() {
    assert_eq!(parse("g!live presentations pop"), Some(Command::Presentation(PresentationCommand::Pop)));
    assert_eq!(parse("g!live presentations list"), Some(Command::Presentation(PresentationCommand::List)));
}

#[test]
fn parse_set_notification() {
    assert_eq!(
        parse("g!live set_notification break until 20:00"),
        Some(Command::SetNotification("break until 20:00".to_string()))
    );
    assert_eq!(parse("g!live set_notification"), help("set_notification requires argument"));
}

#[test]
fn parse_tweet_needs_fence() {
    assert_eq!(
        parse("g!live tweet hello"),
        help("Tweet body must be covered with codeblock to avoid mention issues.")
    );
    assert_eq!(parse("g!live tweet"), help("tweet command requires argument"));
    assert_eq!(
        parse("g!live tweet ```hello there```"),
        Some(Command::Tweet {
            with_youtube_footer: false,
            with_discord_footer: false,
            with_twitter_footer: false,
            msg: "hello there".to_string(),
            simulation: false,
        })
    );
}

#[test]
fn parse_tweet_flags() {
    assert_eq!(
        parse("g!live tweet_simulation -tyd ```hi```"),
        Some(Command::Tweet {
            with_youtube_footer: true,
            with_discord_footer: true,
            with_twitter_footer: true,
            msg: "hi".to_string(),
            simulation: true,
        })
    );
    assert_eq!(
        parse("g!live tweet -x ```hi```"),
        help("unknown footer flag. supported flags are d: Discord, y: Youtube, t: Twitter")
    );
}

#[test]
fn parse_presentation_tweet() {
    assert_eq!(parse("g!live presentation_tweet"), Some(Command::PresentationTweet { simulation: false }));
    assert_eq!(
        parse("g!live presentation_tweet_simulation"),
        Some(Command::PresentationTweet { simulation: true })
    );
}

#[test]
fn parse_collapses_repeated_spaces() {
    assert_eq!(parse("g!live   pause   now"), Some(Command::Pause));
    assert_eq!(
        parse("g!live set_notification   a   b"),
        Some(Command::SetNotification("a b".to_string()))
    );
}
