//! The staff command language: one raw chat line in, one typed command out.
//!
//! A line is a command only when its first token equals the fixed prefix
//! `g!live`; anything else yields `None` and falls through to ordinary
//! timeline forwarding. A recognized prefix with malformed arguments yields
//! `Help` with a hint, which consumes the message.

use vstd::prelude::*;

use crate::textutil::{
    all_digits, all_ws_exec, parse_usize, spec_dec_value, spec_join, spec_tokens, spec_trim,
    str_eq, tokenize, trim, unsplit_ignoring_space,
};

verus! {

/// Mathematical view of a [`PresentationCommand`].
#[verifier::ext_equal]
pub enum PresentationCommandView {
    Push { user_mention: Seq<char>, title: Seq<char> },
    Reorder { map: Seq<usize> },
    Remove { index: usize },
    Update { index: usize, new_title: Seq<char> },
    List,
    Pop,
}

/// A sub-command of `presentations`.
#[derive(Debug, PartialEq, Eq)]
pub enum PresentationCommand {
    Push { user_mention: String, title: String },
    Reorder { map: Vec<usize> },
    Remove { index: usize },
    Update { index: usize, new_title: String },
    List,
    Pop,
}

impl View for PresentationCommand {
    type V = PresentationCommandView;

    open spec fn view(&self) -> PresentationCommandView {
        match self {
            PresentationCommand::Push { user_mention, title } => PresentationCommandView::Push {
                user_mention: user_mention@,
                title: title@,
            },
            PresentationCommand::Reorder { map } => PresentationCommandView::Reorder {
                map: map.deep_view(),
            },
            PresentationCommand::Remove { index } => PresentationCommandView::Remove {
                index: *index,
            },
            PresentationCommand::Update { index, new_title } => PresentationCommandView::Update {
                index: *index,
                new_title: new_title@,
            },
            PresentationCommand::List => PresentationCommandView::List,
            PresentationCommand::Pop => PresentationCommandView::Pop,
        }
    }
}

impl DeepView for PresentationCommand {
    type V = PresentationCommandView;

    open spec fn deep_view(&self) -> PresentationCommandView {
        self.view()
    }
}

/// Mathematical view of a [`Command`].
#[verifier::ext_equal]
pub enum CommandView {
    Help(Option<Seq<char>>),
    Listen,
    StopListening,
    SetNotification(Seq<char>),
    TimelineClear,
    Pause,
    Resume,
    Presentation(PresentationCommandView),
    PresentationTweet { simulation: bool },
    Tweet {
        with_youtube_footer: bool,
        with_discord_footer: bool,
        with_twitter_footer: bool,
        msg: Seq<char>,
        simulation: bool,
    },
}

/// A fully parsed staff command, consumed by the dispatcher.
#[derive(Debug, PartialEq, Eq)]
pub enum Command {
    Help(Option<String>),
    Listen,
    StopListening,
    SetNotification(String),
    TimelineClear,
    Pause,
    Resume,
    Presentation(PresentationCommand),
    PresentationTweet { simulation: bool },
    Tweet {
        with_youtube_footer: bool,
        with_discord_footer: bool,
        with_twitter_footer: bool,
        msg: String,
        simulation: bool,
    },
}

impl View for Command {
    type V = CommandView;

    open spec fn view(&self) -> CommandView {
        match self {
            Command::Help(h) => CommandView::Help(
                match h {
                    Some(s) => Some(s@),
                    None => None,
                },
            ),
            Command::Listen => CommandView::Listen,
            Command::StopListening => CommandView::StopListening,
            Command::SetNotification(s) => CommandView::SetNotification(s@),
            Command::TimelineClear => CommandView::TimelineClear,
            Command::Pause => CommandView::Pause,
            Command::Resume => CommandView::Resume,
            Command::Presentation(p) => CommandView::Presentation(p@),
            Command::PresentationTweet { simulation } => CommandView::PresentationTweet {
                simulation: *simulation,
            },
            Command::Tweet {
                with_youtube_footer,
                with_discord_footer,
                with_twitter_footer,
                msg,
                simulation,
            } => CommandView::Tweet {
                with_youtube_footer: *with_youtube_footer,
                with_discord_footer: *with_discord_footer,
                with_twitter_footer: *with_twitter_footer,
                msg: msg@,
                simulation: *simulation,
            },
        }
    }
}

impl DeepView for Command {
    type V = CommandView;

    open spec fn deep_view(&self) -> CommandView {
        self.view()
    }
}

/// A token parses as a queue index: nonempty, all digits, and in range.
pub open spec fn spec_index_ok(t: Seq<char>) -> bool {
    t.len() > 0 && all_digits(t) && spec_dec_value(t) <= usize::MAX
}

/// A footer flag selecting the Twitter footer (case-insensitive).
pub open spec fn flag_t(c: char) -> bool {
    c == 't' || c == 'T'
}

/// A footer flag selecting the YouTube footer (case-insensitive).
pub open spec fn flag_y(c: char) -> bool {
    c == 'y' || c == 'Y'
}

/// A footer flag selecting the Discord footer (case-insensitive).
pub open spec fn flag_d(c: char) -> bool {
    c == 'd' || c == 'D'
}

/// Some character of the flag word (after the dash) is no known flag.
pub open spec fn has_bad_flag(flags: Seq<char>) -> bool {
    exists|i: int|
        1 <= i < flags.len() && !(flag_t(flags[i]) || flag_y(flags[i]) || flag_d(flags[i]))
}

/// The text is wrapped in a triple-backtick code fence with distinct
/// opening and closing fences.
pub open spec fn spec_fenced(m: Seq<char>) -> bool {
    m.len() >= 6 && m.take(3) == "```"@ && m.skip(m.len() - 3) == "```"@
}

/// The interior of a fenced text, trimmed.
pub open spec fn spec_unfence(m: Seq<char>) -> Seq<char> {
    spec_trim(m.subrange(3, m.len() - 3))
}

/// What the `tweet` and `tweet_simulation` sub-commands make of their
/// arguments.
pub open spec fn spec_parse_tweet(args: Seq<Seq<char>>, simulation: bool) -> CommandView {
    if args.len() >= 2 && args[0].len() > 0 && args[0][0] == '-' {
        let flags = args[0];
        if has_bad_flag(flags) {
            CommandView::Help(
                Some("unknown footer flag. supported flags are d: Discord, y: Youtube, t: Twitter"@),
            )
        } else {
            let joined = spec_trim(spec_join(args.skip(1)));
            if spec_fenced(joined) {
                CommandView::Tweet {
                    with_youtube_footer: exists|i: int| 1 <= i < flags.len() && flag_y(flags[i]),
                    with_discord_footer: exists|i: int| 1 <= i < flags.len() && flag_d(flags[i]),
                    with_twitter_footer: exists|i: int| 1 <= i < flags.len() && flag_t(flags[i]),
                    msg: spec_unfence(joined),
                    simulation,
                }
            } else {
                CommandView::Help(
                    Some("Tweet body must be covered with codeblock to avoid mention issues."@),
                )
            }
        }
    } else if args.len() >= 1 {
        let joined = spec_trim(spec_join(args));
        if spec_fenced(joined) {
            CommandView::Tweet {
                with_youtube_footer: false,
                with_discord_footer: false,
                with_twitter_footer: false,
                msg: spec_unfence(joined),
                simulation,
            }
        } else {
            CommandView::Help(
                Some("Tweet body must be covered with codeblock to avoid mention issues."@),
            )
        }
    } else if simulation {
        CommandView::Help(Some("unknown subcommand"@))
    } else {
        CommandView::Help(Some("tweet command requires argument"@))
    }
}

/// What the `presentations` sub-command makes of its arguments.
pub open spec fn spec_parse_presentations(args: Seq<Seq<char>>) -> CommandView {
    if args.len() == 0 {
        CommandView::Help(Some("unknown subcommand"@))
    } else {
        let a0 = args[0];
        if a0 == "pop"@ {
            CommandView::Presentation(PresentationCommandView::Pop)
        } else if a0 == "list"@ {
            CommandView::Presentation(PresentationCommandView::List)
        } else if a0 == "push"@ {
            if args.len() >= 3 {
                CommandView::Presentation(
                    PresentationCommandView::Push {
                        user_mention: args[1],
                        title: spec_trim(spec_join(args.skip(2))),
                    },
                )
            } else {
                CommandView::Help(Some("presentations push command requires >= 2 arguments"@))
            }
        } else if a0 == "reorder"@ {
            if forall|i: int| 1 <= i < args.len() ==> spec_index_ok(#[trigger] args[i]) {
                CommandView::Presentation(
                    PresentationCommandView::Reorder {
                        map: Seq::new(
                            (args.len() - 1) as nat,
                            |i: int| spec_dec_value(args[i + 1]) as usize,
                        ),
                    },
                )
            } else {
                CommandView::Help(
                    Some("presentations reorder command's arguments must be valid usize"@),
                )
            }
        } else if a0 == "remove"@ {
            if args.len() >= 2 {
                if spec_index_ok(args[1]) {
                    CommandView::Presentation(
                        PresentationCommandView::Remove {
                            index: spec_dec_value(args[1]) as usize,
                        },
                    )
                } else {
                    CommandView::Help(
                        Some("presentations delete command's argument must be valid usize"@),
                    )
                }
            } else {
                CommandView::Help(
                    Some("presentations delete command requires at least 1 arguments"@),
                )
            }
        } else if a0 == "update"@ {
            if args.len() >= 3 {
                if spec_index_ok(args[1]) {
                    CommandView::Presentation(
                        PresentationCommandView::Update {
                            index: spec_dec_value(args[1]) as usize,
                            new_title: spec_trim(spec_join(args.skip(2))),
                        },
                    )
                } else {
                    CommandView::Help(
                        Some("presentations update command's first argument must be valid usize"@),
                    )
                }
            } else {
                CommandView::Help(
                    Some("presentations update command requires at least 2 arguments"@),
                )
            }
        } else {
            CommandView::Help(Some("unknown subcommand"@))
        }
    }
}

/// The whole command grammar: what [`parse`] returns for a raw line.
pub open spec fn spec_parse(s: Seq<char>) -> Option<CommandView> {
    let toks = spec_tokens(s);
    if toks.len() == 0 || toks[0] != "g!live"@ {
        None
    } else if toks.len() == 1 {
        Some(CommandView::Help(Some("unknown subcommand"@)))
    } else {
        let sub = toks[1];
        let args = toks.skip(2);
        if sub == "pause"@ {
            Some(CommandView::Pause)
        } else if sub == "resume"@ {
            Some(CommandView::Resume)
        } else if sub == "listen"@ {
            Some(CommandView::Listen)
        } else if sub == "stop_listening"@ {
            Some(CommandView::StopListening)
        } else if sub == "clear_timeline"@ {
            Some(CommandView::TimelineClear)
        } else if sub == "set_notification"@ {
            if args.len() == 0 {
                Some(CommandView::Help(Some("set_notification requires argument"@)))
            } else {
                Some(CommandView::SetNotification(spec_trim(spec_join(args))))
            }
        } else if sub == "presentations"@ {
            Some(spec_parse_presentations(args))
        } else if sub == "tweet"@ {
            Some(spec_parse_tweet(args, false))
        } else if sub == "tweet_simulation"@ {
            Some(spec_parse_tweet(args, true))
        } else if sub == "presentation_tweet"@ {
            Some(CommandView::PresentationTweet { simulation: false })
        } else if sub == "presentation_tweet_simulation"@ {
            Some(CommandView::PresentationTweet { simulation: true })
        } else {
            Some(CommandView::Help(Some("unknown subcommand"@)))
        }
    }
}


/// Strips the triple-backtick fences of a fenced text and trims the
/// interior.
pub fn trim_code_block(msg: &str) -> (r: String)
    requires
        msg@.len() >= 6,
    ensures
        r@ =~= spec_unfence(msg@),
{
    let len = msg.unicode_len();
    let inner = msg.substring_char(3, len - 3);
    trim(inner)
}

/// Is the text wrapped in a triple-backtick code fence?
fn is_fenced(m: &str) -> (r: bool)
    ensures
        r == spec_fenced(m@),
{
    let len = m.unicode_len();
    if len < 6 {
        return false;
    }
    let head = m.substring_char(0, 3);
    let tail = m.substring_char(len - 3, len);
    proof {
        assert(head@ =~= m@.take(3));
        assert(tail@ =~= m@.skip(m@.len() - 3));
    }
    str_eq(head, "```") && str_eq(tail, "```")
}

fn parse_tweet(args: &[String], simulation: bool) -> (r: Command)
    ensures
        r@ == spec_parse_tweet(args.deep_view(), simulation),
{
    let ghost dv = args.deep_view();
    let n = args.len();
    proof {
        assert(dv.len() == n);
    }
    if n >= 2 && args[0].as_str().unicode_len() > 0 && args[0].as_str().get_char(0) == '-' {
        let flags = args[0].as_str();
        let flen = flags.unicode_len();
        let mut wy = false;
        let mut wd = false;
        let mut wt = false;
        let mut i: usize = 1;
        proof {
            assert(dv[0] == flags@);
        }
        while i < flen
            invariant
                1 <= i <= flen,
                flen == flags@.len(),
                dv == args.deep_view(),
                n == dv.len(),
                2 <= n,
                dv[0] == flags@,
                dv[0].len() > 0,
                dv[0][0] == '-',
                wy == exists|k: int| 1 <= k < i && flag_y(flags@[k]),
                wd == exists|k: int| 1 <= k < i && flag_d(flags@[k]),
                wt == exists|k: int| 1 <= k < i && flag_t(flags@[k]),
                forall|k: int|
                    1 <= k < i ==> (flag_t(flags@[k]) || flag_y(flags@[k]) || flag_d(flags@[k])),
            decreases flen - i,
        {
            let c = flags.get_char(i);
            if c == 't' || c == 'T' {
                wt = true;
            } else if c == 'y' || c == 'Y' {
                wy = true;
            } else if c == 'd' || c == 'D' {
                wd = true;
            } else {
                proof {
                    assert(has_bad_flag(dv[0]));
                }
                return Command::Help(
                    Some(
                        String::from_str(
                            "unknown footer flag. supported flags are d: Discord, y: Youtube, t: Twitter",
                        ),
                    ),
                );
            }
            i = i + 1;
        }
        proof {
            assert(!has_bad_flag(dv[0]));
        }
        let body = &args[1..n];
        proof {
            assert(body.deep_view() =~= dv.skip(1));
        }
        let joined = unsplit_ignoring_space(body);
        if is_fenced(joined.as_str()) {
            let msg = trim_code_block(joined.as_str());
            Command::Tweet {
                with_youtube_footer: wy,
                with_discord_footer: wd,
                with_twitter_footer: wt,
                msg,
                simulation,
            }
        } else {
            Command::Help(
                Some(
                    String::from_str(
                        "Tweet body must be covered with codeblock to avoid mention issues.",
                    ),
                ),
            )
        }
    } else if n >= 1 {
        let body = &args[0..n];
        proof {
            assert(body.deep_view() =~= dv);
            if dv.len() >= 2 && dv[0].len() > 0 && dv[0][0] == '-' {
                assert(args[0 as int]@ == dv[0]);
                assert(false);
            }
        }
        let joined = unsplit_ignoring_space(body);
        if is_fenced(joined.as_str()) {
            let msg = trim_code_block(joined.as_str());
            Command::Tweet {
                with_youtube_footer: false,
                with_discord_footer: false,
                with_twitter_footer: false,
                msg,
                simulation,
            }
        } else {
            Command::Help(
                Some(
                    String::from_str(
                        "Tweet body must be covered with codeblock to avoid mention issues.",
                    ),
                ),
            )
        }
    } else if simulation {
        Command::Help(Some(String::from_str("unknown subcommand")))
    } else {
        Command::Help(Some(String::from_str("tweet command requires argument")))
    }
}

fn parse_presentations(args: &[String]) -> (r: Command)
    ensures
        r@ == spec_parse_presentations(args.deep_view()),
{
    let ghost dv = args.deep_view();
    let n = args.len();
    proof {
        assert(dv.len() == n);
    }
    if n == 0 {
        return Command::Help(Some(String::from_str("unknown subcommand")));
    }
    let a0 = args[0].as_str();
    proof {
        assert(a0@ == dv[0]);
    }
    if str_eq(a0, "pop") {
        Command::Presentation(PresentationCommand::Pop)
    } else if str_eq(a0, "list") {
        Command::Presentation(PresentationCommand::List)
    } else if str_eq(a0, "push") {
        if n >= 3 {
            let title_toks = &args[2..n];
            proof {
                assert(title_toks.deep_view() =~= dv.skip(2));
                assert(args[1 as int]@ == dv[1]);
            }
            let title = unsplit_ignoring_space(title_toks);
            Command::Presentation(
                PresentationCommand::Push { user_mention: args[1].clone(), title },
            )
        } else {
            Command::Help(
                Some(String::from_str("presentations push command requires >= 2 arguments")),
            )
        }
    } else if str_eq(a0, "reorder") {
        let mut map: Vec<usize> = Vec::new();
        let mut i: usize = 1;
        while i < n
            invariant
                1 <= i <= n,
                dv == args.deep_view(),
                n == args@.len(),
                n == dv.len(),
                dv[0] != "pop"@,
                dv[0] != "list"@,
                dv[0] != "push"@,
                dv[0] == "reorder"@,
                map@.len() == i - 1,
                forall|k: int| 1 <= k < i ==> spec_index_ok(#[trigger] dv[k]),
                forall|k: int| 0 <= k < i - 1 ==> map@[k] == spec_dec_value(dv[k + 1]) as usize,
            decreases n - i,
        {
            proof {
                assert(args[i as int]@ == dv[i as int]);
            }
            match parse_usize(args[i].as_str()) {
                Some(v) => {
                    map.push(v);
                },
                None => {
                    proof {
                        assert(!spec_index_ok(dv[i as int]));
                    }
                    return Command::Help(
                        Some(
                            String::from_str(
                                "presentations reorder command's arguments must be valid usize",
                            ),
                        ),
                    );
                },
            }
            i = i + 1;
        }
        proof {
            assert(map.deep_view() =~= Seq::new(
                (dv.len() - 1) as nat,
                |i: int| spec_dec_value(dv[i + 1]) as usize,
            ));
        }
        Command::Presentation(PresentationCommand::Reorder { map })
    } else if str_eq(a0, "remove") {
        if n >= 2 {
            proof {
                assert(args[1 as int]@ == dv[1]);
            }
            match parse_usize(args[1].as_str()) {
                Some(index) => Command::Presentation(PresentationCommand::Remove { index }),
                None => Command::Help(
                    Some(
                        String::from_str(
                            "presentations delete command's argument must be valid usize",
                        ),
                    ),
                ),
            }
        } else {
            Command::Help(
                Some(
                    String::from_str("presentations delete command requires at least 1 arguments"),
                ),
            )
        }
    } else if str_eq(a0, "update") {
        if n >= 3 {
            proof {
                assert(args[1 as int]@ == dv[1]);
            }
            match parse_usize(args[1].as_str()) {
                Some(index) => {
                    let title_toks = &args[2..n];
                    proof {
                        assert(title_toks.deep_view() =~= dv.skip(2));
                    }
                    let new_title = unsplit_ignoring_space(title_toks);
                    Command::Presentation(PresentationCommand::Update { index, new_title })
                },
                None => Command::Help(
                    Some(
                        String::from_str(
                            "presentations update command's first argument must be valid usize",
                        ),
                    ),
                ),
            }
        } else {
            Command::Help(
                Some(
                    String::from_str("presentations update command requires at least 2 arguments"),
                ),
            )
        }
    } else {
        Command::Help(Some(String::from_str("unknown subcommand")))
    }
}

/// Parses one raw chat line. `None` means "not a command at all": the
/// line never carried the command prefix and should fall through to
/// ordinary timeline handling.
pub fn parse(msg: &str) -> (r: Option<Command>)
    ensures
        r.deep_view() == spec_parse(msg@),
{
    let toks = tokenize(msg);
    let ghost tv = spec_tokens(msg@);
    let n = toks.len();
    proof {
        assert(toks.deep_view().len() == n);
    }
    if n == 0 {
        return None;
    }
    proof {
        assert(toks[0 as int]@ == tv[0]);
    }
    if !str_eq(toks[0].as_str(), "g!live") {
        return None;
    }
    if n == 1 {
        return Some(Command::Help(Some(String::from_str("unknown subcommand"))));
    }
    proof {
        assert(toks[1 as int]@ == tv[1]);
    }
    let sub = toks[1].as_str();
    let args = &toks.as_slice()[2..n];
    proof {
        assert(args.deep_view() =~= tv.skip(2));
    }
    let cmd: Command = if str_eq(sub, "pause") {
        Command::Pause
    } else if str_eq(sub, "resume") {
        Command::Resume
    } else if str_eq(sub, "listen") {
        Command::Listen
    } else if str_eq(sub, "stop_listening") {
        Command::StopListening
    } else if str_eq(sub, "clear_timeline") {
        Command::TimelineClear
    } else if str_eq(sub, "set_notification") {
        if args.len() == 0 {
            Command::Help(Some(String::from_str("set_notification requires argument")))
        } else {
            Command::SetNotification(unsplit_ignoring_space(args))
        }
    } else if str_eq(sub, "presentations") {
        parse_presentations(args)
    } else if str_eq(sub, "tweet") {
        parse_tweet(args, false)
    } else if str_eq(sub, "tweet_simulation") {
        parse_tweet(args, true)
    } else if str_eq(sub, "presentation_tweet") {
        Command::PresentationTweet { simulation: false }
    } else if str_eq(sub, "presentation_tweet_simulation") {
        Command::PresentationTweet { simulation: true }
    } else {
        Command::Help(Some(String::from_str("unknown subcommand")))
    };
    Some(cmd)
}

/// Index of the first non-digit character of `s` (`s.len()` when all are
/// digits).
pub open spec fn first_nondigit(s: Seq<char>) -> nat
    decreases s.len(),
{
    if s.len() == 0 {
        0
    } else if !crate::textutil::is_dec_digit(s[0]) {
        0
    } else {
        1 + first_nondigit(s.skip(1))
    }
}

/// A user mention `<@!` + digits + `>` starts at the very front of `s`.
pub open spec fn mention_at_front(s: Seq<char>) -> bool {
    s.len() >= 4 && s.take(3) == "<@!"@ && {
        let m = 3 + first_nondigit(s.skip(3)) as int;
        m > 3 && m < s.len() && s[m] == '>'
    }
}

/// The number inside the leftmost user mention of `s`, if any.
pub open spec fn spec_mention_value(s: Seq<char>) -> Option<nat>
    decreases s.len(),
{
    if mention_at_front(s) {
        let m = 3 + first_nondigit(s.skip(3)) as int;
        Some(spec_dec_value(s.subrange(3, m)))
    } else if s.len() == 0 {
        None
    } else {
        spec_mention_value(s.skip(1))
    }
}

/// Pins down `first_nondigit` from a scan: no digit before `k`, and a
/// non-digit (or the end) at `k`.
pub proof fn lemma_first_nondigit_at(t: Seq<char>, k: int)
    requires
        0 <= k <= t.len(),
        forall|j: int| 0 <= j < k ==> crate::textutil::is_dec_digit(t[j]),
        k < t.len() ==> !crate::textutil::is_dec_digit(t[k]),
    ensures
        first_nondigit(t) == k,
    decreases k,
{
    if k == 0 {
        if t.len() > 0 {
            assert(!crate::textutil::is_dec_digit(t[0]));
        }
    } else {
        assert(crate::textutil::is_dec_digit(t[0]));
        let u = t.skip(1);
        assert(forall|j: int| 0 <= j < k - 1 ==> crate::textutil::is_dec_digit(#[trigger] u[j]));
        lemma_first_nondigit_at(u, k - 1);
    }
}

pub(crate) fn find_nondigit_from(s: &str, from: usize) -> (e: usize)
    requires
        from <= s@.len(),
    ensures
        from <= e <= s@.len(),
        forall|j: int| from <= j < e ==> crate::textutil::is_dec_digit(s@[j]),
        e < s@.len() ==> !crate::textutil::is_dec_digit(s@[e as int]),
{
    let len = s.unicode_len();
    let mut i: usize = from;
    while i < len
        invariant
            from <= i <= len,
            len == s@.len(),
            forall|j: int| from <= j < i ==> crate::textutil::is_dec_digit(s@[j]),
        decreases len - i,
    {
        let c = s.get_char(i);
        let cv = c as u32;
        if cv < 48 || cv > 57 {
            return i;
        }
        i = i + 1;
    }
    len
}

fn parse_u64_range(s: &str, from: usize, to: usize) -> (r: Option<u64>)
    requires
        from <= to <= s@.len(),
        forall|j: int| from <= j < to ==> crate::textutil::is_dec_digit(s@[j]),
    ensures
        match r {
            Some(v) => v == spec_dec_value(s@.subrange(from as int, to as int)) && spec_dec_value(
                s@.subrange(from as int, to as int),
            ) <= u64::MAX,
            None => spec_dec_value(s@.subrange(from as int, to as int)) > u64::MAX,
        },
{
    let ghost digits = s@.subrange(from as int, to as int);
    let mut acc: u128 = 0;
    let mut i: usize = from;
    while i < to
        invariant
            from <= i <= to <= s@.len(),
            forall|j: int| from <= j < to ==> crate::textutil::is_dec_digit(s@[j]),
            digits == s@.subrange(from as int, to as int),
            acc == spec_dec_value(digits.take(i - from)),
            acc <= u64::MAX,
        decreases to - i,
    {
        let c = s.get_char(i);
        let cv = c as u32;
        proof {
            assert(s@[i as int] == digits[i - from]);
            assert(crate::textutil::is_dec_digit(digits[i - from]));
        }
        let d: u128 = (cv - 48) as u128;
        let next: u128 = acc * 10 + d;
        proof {
            assert(digits.take(i - from + 1).take(i - from) =~= digits.take(i - from));
            assert(digits.take(i - from + 1)[i - from] == digits[i - from]);
        }
        if next > u64::MAX as u128 {
            proof {
                crate::textutil::lemma_dec_value_mono_pub(digits, i - from + 1, digits.len() as int);
                assert(digits.take(digits.len() as int) =~= digits);
            }
            return None;
        }
        acc = next;
        i = i + 1;
    }
    proof {
        assert(digits.take(to - from) =~= digits);
    }
    Some(acc as u64)
}

/// Finds the leftmost user mention `<@!digits>` in the text and returns
/// the number it names; `None` when there is no mention, or when the
/// number does not fit in a platform identifier.
pub fn extract_user_id_from_mention(mention_text: &str) -> (r: Option<u64>)
    ensures
        match r {
            Some(v) => spec_mention_value(mention_text@) == Some(v as nat),
            None => match spec_mention_value(mention_text@) {
                Some(n) => n > u64::MAX,
                None => true,
            },
        },
{
    let s = mention_text;
    let len = s.unicode_len();
    let mut i: usize = 0;
    proof {
        assert(s@.skip(0) =~= s@);
    }
    loop
        invariant
            0 <= i <= len,
            s@ == mention_text@,
            len == s@.len(),
            spec_mention_value(s@) == spec_mention_value(s@.skip(i as int)),
        ensures
            match spec_mention_value(s@) {
                Some(n) => n > u64::MAX,
                None => true,
            },
        decreases len - i,
    {
        let ghost rem = s@.skip(i as int);
        if i == len {
            proof {
                assert(rem =~= Seq::<char>::empty());
                assert(!mention_at_front(rem));
            }
            break;
        }
        let front_ok = len - i > 3 && s.get_char(i) == '<' && s.get_char(i + 1) == '@'
            && s.get_char(i + 2) == '!';
        if front_ok {
            let e = find_nondigit_from(s, i + 3);
            let hit = e > i + 3 && e < len && s.get_char(e) == '>';
            proof {
                let tail = rem.skip(3);
                assert(forall|j: int|
                    0 <= j < e - (i + 3) ==> crate::textutil::is_dec_digit(#[trigger] tail[j]))
                    by {
                    assert(forall|j: int| 0 <= j < e - (i + 3) ==> tail[j] == s@[j + i + 3]);
                }
                if e < len {
                    assert(tail[e - (i + 3)] == s@[e as int]);
                }
                lemma_first_nondigit_at(tail, e - (i + 3));
                reveal_strlit("<@!");
                assert(rem[0] == s@[i as int] && rem[1] == s@[i + 1] && rem[2] == s@[i + 2]);
                if hit {
                    assert("<@!"@ =~= seq!['<', '@', '!']);
                    assert(rem.take(3) =~= seq!['<', '@', '!']);
                    assert(mention_at_front(rem));
                    assert(rem.subrange(3, 3 + (e - (i + 3))) =~= s@.subrange(i + 3, e as int));
                }
            }
            if hit {
                let v = parse_u64_range(s, i + 3, e);
                proof {
                    assert(spec_mention_value(rem) == Some(
                        spec_dec_value(s@.subrange(i + 3, e as int)),
                    ));
                    assert(spec_mention_value(mention_text@) == spec_mention_value(rem));
                    if v is Some {
                        assert(v->Some_0 == spec_dec_value(s@.subrange(i + 3, e as int)));
                        assert(spec_mention_value(mention_text@) == Some(v->Some_0 as nat));
                    } else {
                        assert(spec_dec_value(s@.subrange(i + 3, e as int)) > u64::MAX);
                    }
                }
                return v;
            }
            proof {
                if mention_at_front(rem) {
                    assert("<@!"@ =~= seq!['<', '@', '!']);
                    let m = 3 + first_nondigit(rem.skip(3)) as int;
                    assert(m == 3 + (e - (i + 3)));
                    assert(rem[m] == s@[e as int]);
                    assert(false);
                }
            }
        } else {
            proof {
                if mention_at_front(rem) {
                    reveal_strlit("<@!");
                    assert("<@!"@ =~= seq!['<', '@', '!']);
                    assert(rem.take(3)[0] == s@[i as int]);
                    assert(rem.take(3)[1] == s@[i + 1]);
                    assert(rem.take(3)[2] == s@[i + 2]);
                    let m = 3 + first_nondigit(rem.skip(3)) as int;
                    assert(m < rem.len());
                    assert(i + 3 < len);
                    assert(false);
                }
            }
        }
        proof {
            assert(rem.skip(1) =~= s@.skip(i + 1));
        }
        i = i + 1;
    }
    None
}

} // verus!
